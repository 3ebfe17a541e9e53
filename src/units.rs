//! Service unit snapshots: the record type, the service-only view of a raw
//! unit listing, and the filters and orderings applied to listings.

use vstd::prelude::*;
use vstd::multiset::Multiset;
use crate::text::{eq_ci, seq_le, seq_lt, str_eq_ci, str_lt, contains, str_contains};

verus! {

/// One `.service` unit snapshot. The optional fields are best-effort
/// enrichment: `None` signals that it could not be read.
#[derive(Debug, Clone, PartialEq, Eq)]
pub struct UnitStatus {
    pub unit: String,
    pub description: String,
    pub load_state: String,
    pub active_state: String,
    pub sub_state: String,
    pub unit_file_state: Option<String>,
    pub since_utc: Option<String>,
    pub main_pid: Option<u32>,
    pub exec_main_status: Option<i32>,
    pub result: Option<String>,
}

/// One row of the control plane's unit listing, before any filtering.
#[derive(Debug, Clone, PartialEq, Eq)]
pub struct RawUnit {
    pub name: String,
    pub description: String,
    pub load_state: String,
    pub active_state: String,
    pub sub_state: String,
    pub unit_path: String,
}

pub open spec fn is_service_name(name: Seq<char>) -> bool {
    name.len() >= 8 && name.subrange(name.len() - 8, name.len() as int) == ".service"@
}

/// The snapshot of a raw unit before enrichment.
pub open spec fn status_of(r: RawUnit) -> UnitStatus {
    UnitStatus {
        unit: r.name,
        description: r.description,
        load_state: r.load_state,
        active_state: r.active_state,
        sub_state: r.sub_state,
        unit_file_state: None,
        since_utc: None,
        main_pid: None,
        exec_main_status: None,
        result: None,
    }
}

pub open spec fn is_failed(u: UnitStatus) -> bool {
    eq_ci(u.active_state@, "failed"@)
}

/// `a` may stand before `b`: failed units first when `failed_first`, then by
/// unit name.
pub open spec fn unit_le(a: UnitStatus, b: UnitStatus, failed_first: bool) -> bool {
    if failed_first && is_failed(a) != is_failed(b) {
        is_failed(a)
    } else {
        seq_le(a.unit@, b.unit@)
    }
}

pub open spec fn units_sorted(s: Seq<UnitStatus>, failed_first: bool) -> bool {
    forall|i: int, j: int| 0 <= i < j < s.len() ==> unit_le(#[trigger] s[i], #[trigger] s[j], failed_first)
}

pub open spec fn state_matches(state: Seq<char>) -> spec_fn(UnitStatus) -> bool {
    |u: UnitStatus| eq_ci(u.active_state@, state)
}

pub open spec fn name_contains(fragment: Seq<char>) -> spec_fn(UnitStatus) -> bool {
    |u: UnitStatus| contains(u.unit@, fragment)
}

pub open spec fn raw_is_service() -> spec_fn(RawUnit) -> bool {
    |r: RawUnit| is_service_name(r.name@)
}

pub proof fn lemma_seq_lt_irreflexive(a: Seq<char>)
    ensures
        !seq_lt(a, a),
    decreases a.len(),
{
    if a.len() > 0 {
        lemma_seq_lt_irreflexive(a.drop_first());
    }
}

pub proof fn lemma_seq_lt_total(a: Seq<char>, b: Seq<char>)
    ensures
        seq_lt(a, b) || a == b || seq_lt(b, a),
        !(seq_lt(a, b) && seq_lt(b, a)),
    decreases a.len(),
{
    if a.len() > 0 && b.len() > 0 {
        if a[0] == b[0] {
            lemma_seq_lt_total(a.drop_first(), b.drop_first());
            if a.drop_first() == b.drop_first() {
                assert(a =~= seq![a[0]] + a.drop_first());
                assert(b =~= seq![b[0]] + b.drop_first());
            }
        }
    } else if a.len() == 0 && b.len() == 0 {
        assert(a =~= b);
    }
}

pub proof fn lemma_seq_lt_transitive(a: Seq<char>, b: Seq<char>, c: Seq<char>)
    requires
        seq_lt(a, b),
        seq_lt(b, c),
    ensures
        seq_lt(a, c),
    decreases a.len(),
{
    if a.len() > 0 && b.len() > 0 && c.len() > 0 && a[0] == b[0] && b[0] == c[0] {
        lemma_seq_lt_transitive(a.drop_first(), b.drop_first(), c.drop_first());
    }
}

proof fn lemma_unit_le_total(a: UnitStatus, b: UnitStatus, ff: bool)
    ensures
        unit_le(a, b, ff) || unit_le(b, a, ff),
{
    lemma_seq_lt_total(a.unit@, b.unit@);
}

proof fn lemma_unit_le_transitive(a: UnitStatus, b: UnitStatus, c: UnitStatus, ff: bool)
    requires
        unit_le(a, b, ff),
        unit_le(b, c, ff),
    ensures
        unit_le(a, c, ff),
{
    if seq_lt(a.unit@, b.unit@) && seq_lt(b.unit@, c.unit@) {
        lemma_seq_lt_transitive(a.unit@, b.unit@, c.unit@);
    }
}

/// Whether `a` may stand before `b` in a listing.
fn unit_before(a: &UnitStatus, b: &UnitStatus, failed_first: bool) -> (r: bool)
    ensures
        r == unit_le(*a, *b, failed_first),
{
    let fa = str_eq_ci(a.active_state.as_str(), "failed");
    let fb = str_eq_ci(b.active_state.as_str(), "failed");
    if failed_first && fa != fb {
        fa
    } else {
        proof {
            lemma_seq_lt_total(a.unit@, b.unit@);
        }
        !str_lt(b.unit.as_str(), a.unit.as_str())
    }
}

/// Sorts a listing: by unit name, or with failed units first (each group by
/// unit name) when `failed_first`.
pub fn sort_services(services: &mut Vec<UnitStatus>, failed_first: bool)
    ensures
        final(services)@.to_multiset() == old(services)@.to_multiset(),
        units_sorted(final(services)@, failed_first),
{
    broadcast use vstd::seq_lib::group_to_multiset_ensures, vstd::seq_lib::to_multiset_insert;

    let ghost input = services@;
    let mut out: Vec<UnitStatus> = Vec::new();
    while services.len() > 0
        invariant
            services@.to_multiset().add(out@.to_multiset()) == input.to_multiset(),
            units_sorted(out@, failed_first),
        decreases services@.len(),
    {
        let ghost before = services@;
        let x = services.pop().unwrap();
        assert(before == services@.push(x));
        let mut p: usize = 0;
        while p < out.len() && unit_before(&out[p], &x, failed_first)
            invariant
                p <= out@.len(),
                forall|k: int| 0 <= k < p ==> unit_le(#[trigger] out@[k], x, failed_first),
            decreases out@.len() - p,
        {
            p += 1;
        }
        proof {
            if p < out@.len() {
                lemma_unit_le_total(out@[p as int], x, failed_first);
                assert forall|k: int| p <= k < out@.len() implies unit_le(x, #[trigger] out@[k], failed_first) by {
                    if k > p {
                        lemma_unit_le_transitive(x, out@[p as int], out@[k], failed_first);
                    }
                }
            }
        }
        let ghost prev = out@;
        out.insert(p, x);
        proof {
            assert(out@ == prev.insert(p as int, x));
            assert forall|i: int, j: int| 0 <= i < j < out@.len() implies unit_le(#[trigger] out@[i], #[trigger] out@[j], failed_first) by {
                if i < p && j == p {
                } else if i == p && j > p {
                    assert(out@[j] == prev[j - 1]);
                } else if i < p && j > p {
                    assert(out@[j] == prev[j - 1]);
                    assert(unit_le(prev[i], prev[j - 1], failed_first));
                } else if j < p {
                } else {
                    assert(out@[i] == prev[i - 1]);
                    assert(out@[j] == prev[j - 1]);
                }
            }
            vstd::seq_lib::to_multiset_build(services@, x);
            vstd::seq_lib::to_multiset_insert(prev, p as int, x);
            assert(before.to_multiset() =~= services@.to_multiset().insert(x));
            assert(out@.to_multiset() =~= prev.to_multiset().insert(x));
            assert(services@.to_multiset().add(out@.to_multiset()) =~= input.to_multiset());
        }
    }
    assert(services@ =~= Seq::<UnitStatus>::empty());
    assert(services@.to_multiset() =~= Multiset::empty());
    assert(out@.to_multiset() =~= input.to_multiset());
    *services = out;
}

/// Keeps the units whose active state equals `state` up to ASCII case.
pub fn filter_services_by_state(services: Vec<UnitStatus>, state: Option<&str>) -> (r: Vec<UnitStatus>)
    ensures
        match state {
            None => r@ == services@,
            Some(s) => r@ == services@.filter(state_matches(s@)),
        },
{
    match state {
        None => services,
        Some(s) => {
            let ghost pred = state_matches(s@);
            let ghost input = services@;
            let mut rest = services;
            let n = rest.len();
            let mut out: Vec<UnitStatus> = Vec::new();
            let mut k: usize = 0;
            while rest.len() > 0
                invariant
                    n == input.len(),
                    k + rest@.len() == input.len(),
                    rest@ == input.subrange(k as int, input.len() as int),
                    out@ == input.subrange(0, k as int).filter(pred),
                    pred == state_matches(s@),
                decreases rest@.len(),
            {
                let x = rest.remove(0);
                proof {
                    reveal(Seq::filter);
                    assert(input.subrange(0, k + 1).drop_last() == input.subrange(0, k as int));
                    assert(input.subrange(k + 1, input.len() as int) == rest@);
                }
                if str_eq_ci(x.active_state.as_str(), s) {
                    out.push(x);
                }
                k += 1;
            }
            assert(input.subrange(0, input.len() as int) == input);
            out
        },
    }
}

/// Keeps the units whose name contains `name_contains`.
pub fn filter_services_by_name_contains(services: Vec<UnitStatus>, name_contains: Option<&str>) -> (r: Vec<UnitStatus>)
    ensures
        match name_contains {
            None => r@ == services@,
            Some(s) => r@ == services@.filter(crate::units::name_contains(s@)),
        },
{
    match name_contains {
        None => services,
        Some(s) => {
            let ghost pred = crate::units::name_contains(s@);
            let ghost input = services@;
            let mut rest = services;
            let n = rest.len();
            let mut out: Vec<UnitStatus> = Vec::new();
            let mut k: usize = 0;
            while rest.len() > 0
                invariant
                    n == input.len(),
                    k + rest@.len() == input.len(),
                    rest@ == input.subrange(k as int, input.len() as int),
                    out@ == input.subrange(0, k as int).filter(pred),
                    pred == crate::units::name_contains(s@),
                decreases rest@.len(),
            {
                let x = rest.remove(0);
                proof {
                    reveal(Seq::filter);
                    assert(input.subrange(0, k + 1).drop_last() == input.subrange(0, k as int));
                    assert(input.subrange(k + 1, input.len() as int) == rest@);
                }
                if str_contains(x.unit.as_str(), s) {
                    out.push(x);
                }
                k += 1;
            }
            assert(input.subrange(0, input.len() as int) == input);
            out
        },
    }
}

/// Whether a unit name carries the `.service` suffix.
pub fn is_service_unit_name(name: &str) -> (r: bool)
    ensures
        r == is_service_name(name@),
{
    let v = crate::text::char_vec(name);
    let suffix = crate::text::char_vec(".service");
    proof {
        reveal_strlit(".service");
    }
    if v.len() < suffix.len() {
        return false;
    }
    let start = v.len() - suffix.len();
    crate::text::matches_at(&v, &suffix, start)
}

/// Keeps the `.service` rows of a raw listing, as snapshots without
/// enrichment, sorted by unit name.
pub fn map_and_sort_service_units(raw_units: Vec<RawUnit>) -> (r: Vec<UnitStatus>)
    ensures
        r@.to_multiset() == raw_units@.filter(raw_is_service()).map_values(|u: RawUnit| status_of(u)).to_multiset(),
        units_sorted(r@, false),
{
    let ghost pred = raw_is_service();
    let ghost input = raw_units@;
    let mut rest = raw_units;
    let n = rest.len();
    let mut out: Vec<UnitStatus> = Vec::new();
    let mut k: usize = 0;
    while rest.len() > 0
        invariant
            n == input.len(),
            k + rest@.len() == input.len(),
            rest@ == input.subrange(k as int, input.len() as int),
            out@ == input.subrange(0, k as int).filter(pred).map_values(|u: RawUnit| status_of(u)),
            pred == raw_is_service(),
        decreases rest@.len(),
    {
        let x = rest.remove(0);
        proof {
            reveal(Seq::filter);
            assert(input.subrange(0, k + 1).drop_last() == input.subrange(0, k as int));
            assert(input.subrange(k + 1, input.len() as int) == rest@);
        }
        if is_service_unit_name(x.name.as_str()) {
            let ghost before = out@;
            out.push(UnitStatus {
                unit: x.name,
                description: x.description,
                load_state: x.load_state,
                active_state: x.active_state,
                sub_state: x.sub_state,
                unit_file_state: None,
                since_utc: None,
                main_pid: None,
                exec_main_status: None,
                result: None,
            });
            assert(out@ =~= input.subrange(0, k + 1).filter(pred).map_values(|u: RawUnit| status_of(u)));
        } else {
            assert(out@ =~= input.subrange(0, k + 1).filter(pred).map_values(|u: RawUnit| status_of(u)));
        }
        k += 1;
    }
    assert(input.subrange(0, input.len() as int) == input);
    sort_services(&mut out, false);
    out
}

/// Every unit a state filter keeps is in the requested state, up to ASCII
/// case.
pub proof fn state_filter_keeps_only_matching(services: Seq<UnitStatus>, state: Seq<char>)
    ensures
        forall|i: int| 0 <= i < services.filter(state_matches(state)).len() ==> eq_ci(
            (#[trigger] services.filter(state_matches(state))[i]).active_state@,
            state,
        ),
{
    assert forall|i: int| 0 <= i < services.filter(state_matches(state)).len() implies eq_ci(
        (#[trigger] services.filter(state_matches(state))[i]).active_state@,
        state,
    ) by {
        services.lemma_filter_pred(state_matches(state), i);
    }
}

/// In a listing sorted failed-first, every failed unit precedes every other
/// unit, and units of the same group are in unit name order.
pub proof fn failed_first_order(s: Seq<UnitStatus>, i: int, j: int)
    requires
        units_sorted(s, true),
        0 <= i < j < s.len(),
    ensures
        is_failed(s[j]) ==> is_failed(s[i]),
        is_failed(s[i]) == is_failed(s[j]) ==> seq_le(s[i].unit@, s[j].unit@),
{
    assert(unit_le(s[i], s[j], true));
}

/// Enrichment read for one unit from the control plane.
#[derive(Debug, Clone, PartialEq, Eq, Default)]
pub struct ServiceDetails {
    pub unit_file_state: Option<String>,
    pub since_utc: Option<String>,
    pub main_pid: Option<u32>,
    pub exec_main_status: Option<i32>,
    pub result: Option<String>,
}

/// A string property: absent when blank.
pub open spec fn non_blank(s: Seq<char>) -> Option<Seq<char>> {
    if crate::text::trimmed(s).len() == 0 { None } else { Some(s) }
}

fn non_blank_string(s: String) -> (r: Option<String>)
    ensures
        crate::validate::opt_view(r) == non_blank(s@),
{
    let raw = crate::text::char_vec(s.as_str());
    let t = crate::text::trim_chars(&raw);
    if t.len() == 0 { None } else { Some(s) }
}

impl ServiceDetails {
    /// The enrichment from the raw properties: blank strings are absent, a
    /// zero activation time means "never", a zero main PID means none, and
    /// an exit status beyond `i32` is dropped.
    pub fn from_properties(
        unit_file_state: String,
        active_enter_usec: u64,
        main_pid: u32,
        exec_main_status: u32,
        result: String,
    ) -> (r: ServiceDetails)
        ensures
            crate::validate::opt_view(r.unit_file_state) == non_blank(unit_file_state@),
            active_enter_usec == 0 || active_enter_usec > i64::MAX ==> r.since_utc is None,
            0 < active_enter_usec <= i64::MAX ==> crate::validate::opt_view(r.since_utc) == crate::utc::rfc3339_millis(
                crate::utc::instant_of_micros(active_enter_usec).secs,
                crate::utc::instant_of_micros(active_enter_usec).nanos,
            ),
            r.main_pid == if main_pid > 0 { Some(main_pid) } else { None::<u32> },
            r.exec_main_status == if exec_main_status <= i32::MAX { Some(exec_main_status as i32) } else { None::<i32> },
            crate::validate::opt_view(r.result) == non_blank(result@),
    {
        ServiceDetails {
            unit_file_state: non_blank_string(unit_file_state),
            since_utc: crate::utc::format_systemd_timestamp_usec(active_enter_usec),
            main_pid: if main_pid > 0 { Some(main_pid) } else { None },
            exec_main_status: if exec_main_status <= i32::MAX as u32 { Some(exec_main_status as i32) } else { None },
            result: non_blank_string(result),
        }
    }
}

impl UnitStatus {
    /// Takes the enrichment fields from `details`.
    pub fn enrich(&mut self, details: ServiceDetails)
        ensures
            final(self).unit == old(self).unit,
            final(self).description == old(self).description,
            final(self).load_state == old(self).load_state,
            final(self).active_state == old(self).active_state,
            final(self).sub_state == old(self).sub_state,
            final(self).unit_file_state == details.unit_file_state,
            final(self).since_utc == details.since_utc,
            final(self).main_pid == details.main_pid,
            final(self).exec_main_status == details.exec_main_status,
            final(self).result == details.result,
    {
        self.unit_file_state = details.unit_file_state;
        self.since_utc = details.since_utc;
        self.main_pid = details.main_pid;
        self.exec_main_status = details.exec_main_status;
        self.result = details.result;
    }
}

/// `b` is `a` with the enrichment of `d` taken, when there is one.
pub open spec fn enriched_with(a: UnitStatus, d: Option<ServiceDetails>, b: UnitStatus) -> bool {
    match d {
        Some(d) => b == UnitStatus {
            unit_file_state: d.unit_file_state,
            since_utc: d.since_utc,
            main_pid: d.main_pid,
            exec_main_status: d.exec_main_status,
            result: d.result,
            ..a
        },
        None => b == a,
    }
}

/// Applies the enrichment read for each unit; a unit whose enrichment could
/// not be read (`None`) is kept as it is, so one bad unit never fails the
/// listing.
pub fn apply_enrichment(units: Vec<UnitStatus>, details: Vec<Option<ServiceDetails>>) -> (r: Vec<UnitStatus>)
    requires
        units@.len() == details@.len(),
    ensures
        r@.len() == units@.len(),
        forall|i: int| 0 <= i < r@.len() ==> enriched_with(units@[i], details@[i], #[trigger] r@[i]),
{
    let ghost us = units@;
    let ghost ds = details@;
    let mut rest_units = units;
    let mut rest_details = details;
    let n = rest_units.len();
    let mut out: Vec<UnitStatus> = Vec::new();
    let mut k: usize = 0;
    while rest_units.len() > 0
        invariant
            n == us.len(),
            us.len() == ds.len(),
            k + rest_units@.len() == n,
            rest_units@ == us.subrange(k as int, n as int),
            rest_details@ == ds.subrange(k as int, n as int),
            out@.len() == k,
            forall|i: int| 0 <= i < k ==> enriched_with(us[i], ds[i], #[trigger] out@[i]),
        decreases rest_units@.len(),
    {
        let mut u = rest_units.remove(0);
        let d = rest_details.remove(0);
        proof {
            assert(us.subrange(k + 1, n as int) == rest_units@);
            assert(ds.subrange(k + 1, n as int) == rest_details@);
        }
        match d {
            Some(d) => u.enrich(d),
            None => {},
        }
        out.push(u);
        k += 1;
    }
    out
}

/// The production provider: systemd over D-Bus and the journal. The calls
/// themselves are made by the host application.
#[derive(Debug, Default, Clone, Copy, PartialEq, Eq)]
pub struct DbusSystemdClient;

impl DbusSystemdClient {
    pub fn new() -> (r: Self) {
        DbusSystemdClient
    }
}

} // verus!
