//! Triage summaries: counts by key, rankings by count, failed-unit digests.

use vstd::prelude::*;
use vstd::multiset::Multiset;
use crate::journal::JournalLogEntry;
use crate::text::{seq_le, seq_lt, str_eq, str_eq_ci, str_lt};
use crate::units::{UnitStatus, is_failed, lemma_seq_lt_irreflexive, lemma_seq_lt_total, lemma_seq_lt_transitive};
use crate::validate::opt_view;

verus! {

/// How many of `keys` equal `k`.
pub open spec fn count_of(keys: Seq<Seq<char>>, k: Seq<char>) -> nat
    decreases keys.len(),
{
    if keys.len() == 0 {
        0
    } else {
        count_of(keys.drop_last(), k) + if keys.last() == k { 1nat } else { 0nat }
    }
}

pub open spec fn table_keys_sorted(t: Seq<(String, usize)>) -> bool {
    forall|i: int, j: int| 0 <= i < j < t.len() ==> seq_lt((#[trigger] t[i]).0@, (#[trigger] t[j]).0@)
}

/// `t` counts `keys`: one row per distinct key in increasing key order,
/// each with the number of times the key occurs.
pub open spec fn is_tally(t: Seq<(String, usize)>, keys: Seq<Seq<char>>) -> bool {
    &&& table_keys_sorted(t)
    &&& forall|i: int| 0 <= i < t.len() ==> (#[trigger] t[i]).1 == count_of(keys, t[i].0@) && t[i].1 > 0
    &&& forall|k: int| 0 <= k < keys.len() ==> exists|i: int| 0 <= i < t.len() && (#[trigger] t[i]).0@ == #[trigger] keys[k]
}

proof fn lemma_count_le(keys: Seq<Seq<char>>, k: Seq<char>)
    ensures
        count_of(keys, k) <= keys.len(),
    decreases keys.len(),
{
    if keys.len() > 0 {
        lemma_count_le(keys.drop_last(), k);
    }
}

/// Counts the keys.
pub fn tally(keys: &Vec<String>) -> (r: Vec<(String, usize)>)
    ensures
        is_tally(r@, keys@.map_values(|s: String| s@)),
{
    let ghost views = keys@.map_values(|s: String| s@);
    let mut table: Vec<(String, usize)> = Vec::new();
    let mut n: usize = 0;
    while n < keys.len()
        invariant
            n <= keys@.len(),
            views == keys@.map_values(|s: String| s@),
            is_tally(table@, views.subrange(0, n as int)),
        decreases keys@.len() - n,
    {
        let k = &keys[n];
        let ghost prefix = views.subrange(0, n as int);
        let ghost next = views.subrange(0, n + 1);
        assert(next.drop_last() == prefix);
        assert(next.last() == k@);
        let mut p: usize = 0;
        while p < table.len() && str_lt(table[p].0.as_str(), k.as_str())
            invariant
                p <= table@.len(),
                forall|i: int| 0 <= i < p ==> seq_lt((#[trigger] table@[i]).0@, k@),
            decreases table@.len() - p,
        {
            p += 1;
        }
        proof {
            lemma_count_le(prefix, k@);
            lemma_count_le(next, k@);
        }
        if p < table.len() && str_eq(table[p].0.as_str(), k.as_str()) {
            let ghost before = table@;
            let c = table[p].1;
            assert(c == count_of(prefix, k@));
            let key = table[p].0.clone();
            table.set(p, (key, c + 1));
            proof {
                assert forall|i: int| 0 <= i < table@.len() implies (#[trigger] table@[i]).1 == count_of(next, table@[i].0@) && table@[i].1 > 0 by {
                    if i != p {
                        assert(table@[i] == before[i]);
                        lemma_seq_lt_irreflexive(k@);
                        if i < p {
                            assert(seq_lt(before[i].0@, k@));
                        } else {
                            assert(seq_lt(before[p as int].0@, before[i].0@));
                        }
                    }
                }
                assert forall|m: int| 0 <= m < next.len() implies exists|i: int| 0 <= i < table@.len() && (#[trigger] table@[i]).0@ == #[trigger] next[m] by {
                    if m < n {
                        assert(next[m] == prefix[m]);
                        let i = choose|i: int| 0 <= i < before.len() && (#[trigger] before[i]).0@ == prefix[m];
                        assert(table@[i].0@ == before[i].0@);
                    } else {
                        assert(table@[p as int].0@ == next[m]);
                    }
                }
            }
        } else {
            let ghost before = table@;
            proof {
                if p < table@.len() {
                    lemma_seq_lt_total(table@[p as int].0@, k@);
                }
                assert forall|i: int| 0 <= i < before.len() implies #[trigger] before[i].0@ != k@ by {
                    lemma_seq_lt_irreflexive(k@);
                    if i >= p && p < before.len() {
                        if i > p {
                            lemma_seq_lt_transitive(k@, before[p as int].0@, before[i].0@);
                        }
                    }
                }
                assert forall|i: int| p <= i < before.len() implies seq_lt(k@, #[trigger] before[i].0@) by {
                    if i > p {
                        lemma_seq_lt_transitive(k@, before[p as int].0@, before[i].0@);
                    }
                }
                assert(count_of(prefix, k@) == 0) by {
                    if count_of(prefix, k@) > 0 {
                        lemma_count_pos(prefix, k@);
                        let m = choose|m: int| 0 <= m < prefix.len() && prefix[m] == k@;
                        let i = choose|i: int| 0 <= i < before.len() && (#[trigger] before[i]).0@ == #[trigger] prefix[m];
                    }
                }
            }
            table.insert(p, (k.clone(), 1));
            proof {
                assert forall|i: int, j: int| 0 <= i < j < table@.len() implies seq_lt((#[trigger] table@[i]).0@, (#[trigger] table@[j]).0@) by {
                    if j < p {
                    } else if i < p && j == p {
                    } else if i < p && j > p {
                        assert(table@[j] == before[j - 1]);
                        lemma_seq_lt_transitive(before[i].0@, k@, before[j - 1].0@);
                    } else if i == p {
                        assert(table@[j] == before[j - 1]);
                        if j - 1 > p {
                            lemma_seq_lt_transitive(k@, before[p as int].0@, before[j - 1].0@);
                        }
                    } else {
                        assert(table@[i] == before[i - 1]);
                        assert(table@[j] == before[j - 1]);
                    }
                }
                assert forall|i: int| 0 <= i < table@.len() implies (#[trigger] table@[i]).1 == count_of(next, table@[i].0@) && table@[i].1 > 0 by {
                    if i < p {
                        assert(table@[i] == before[i]);
                    } else if i > p {
                        assert(table@[i] == before[i - 1]);
                    }
                }
                assert forall|m: int| 0 <= m < next.len() implies exists|i: int| 0 <= i < table@.len() && (#[trigger] table@[i]).0@ == #[trigger] next[m] by {
                    if m < n {
                        assert(next[m] == prefix[m]);
                        let i = choose|i: int| 0 <= i < before.len() && (#[trigger] before[i]).0@ == prefix[m];
                        if i < p {
                            assert(table@[i] == before[i]);
                        } else {
                            assert(table@[i + 1] == before[i]);
                        }
                    } else {
                        assert(table@[p as int].0@ == next[m]);
                    }
                }
            }
        }
        n += 1;
    }
    assert(views.subrange(0, keys@.len() as int) == views);
    table
}

proof fn lemma_count_pos(keys: Seq<Seq<char>>, k: Seq<char>)
    requires
        count_of(keys, k) > 0,
    ensures
        exists|m: int| 0 <= m < keys.len() && keys[m] == k,
    decreases keys.len(),
{
    if keys.last() != k {
        lemma_count_pos(keys.drop_last(), k);
        let m = choose|m: int| 0 <= m < keys.drop_last().len() && keys.drop_last()[m] == k;
        assert(keys[m] == k);
    } else {
        assert(keys[keys.len() - 1] == k);
    }
}

/// `a` ranks at or above `b`: a higher count first, then the lower key.
pub open spec fn ranks_before(a: (String, usize), b: (String, usize)) -> bool {
    a.1 > b.1 || (a.1 == b.1 && seq_le(a.0@, b.0@))
}

pub open spec fn ranked(s: Seq<(String, usize)>) -> bool {
    forall|i: int, j: int| 0 <= i < j < s.len() ==> ranks_before(#[trigger] s[i], #[trigger] s[j])
}

/// Orders rows by count, highest first, ties by key.
pub fn rank_by_count(rows: Vec<(String, usize)>) -> (r: Vec<(String, usize)>)
    ensures
        r@.to_multiset() == rows@.to_multiset(),
        ranked(r@),
{
    broadcast use vstd::seq_lib::group_to_multiset_ensures;

    let ghost input = rows@;
    let mut rest = rows;
    let mut out: Vec<(String, usize)> = Vec::new();
    while rest.len() > 0
        invariant
            rest@.to_multiset().add(out@.to_multiset()) == input.to_multiset(),
            ranked(out@),
        decreases rest@.len(),
    {
        let ghost before = rest@;
        let x = rest.pop().unwrap();
        let mut p: usize = 0;
        while p < out.len() && (out[p].1 > x.1 || (out[p].1 == x.1 && !str_lt(x.0.as_str(), out[p].0.as_str())))
            invariant
                p <= out@.len(),
                forall|k: int| 0 <= k < p ==> ranks_before(#[trigger] out@[k], x),
            decreases out@.len() - p,
        {
            proof {
                lemma_seq_lt_total(out@[p as int].0@, x.0@);
            }
            p += 1;
        }
        proof {
            if p < out@.len() {
                lemma_seq_lt_total(out@[p as int].0@, x.0@);
                assert forall|k: int| p <= k < out@.len() implies ranks_before(x, #[trigger] out@[k]) by {
                    if k > p {
                        assert(ranks_before(out@[p as int], out@[k]));
                        if seq_lt(x.0@, out@[p as int].0@) && seq_lt(out@[p as int].0@, out@[k].0@) {
                            lemma_seq_lt_transitive(x.0@, out@[p as int].0@, out@[k].0@);
                        }
                    }
                }
            }
        }
        let ghost prev = out@;
        out.insert(p, x);
        proof {
            assert forall|i: int, j: int| 0 <= i < j < out@.len() implies ranks_before(#[trigger] out@[i], #[trigger] out@[j]) by {
                if i < p && j == p {
                } else if i == p && j > p {
                    assert(out@[j] == prev[j - 1]);
                } else if i < p && j > p {
                    assert(out@[j] == prev[j - 1]);
                    assert(ranks_before(prev[i], prev[j - 1]));
                } else if j < p {
                } else {
                    assert(out@[i] == prev[i - 1]);
                    assert(out@[j] == prev[j - 1]);
                }
            }
            vstd::seq_lib::to_multiset_build(rest@, x);
            vstd::seq_lib::to_multiset_insert(prev, p as int, x);
            assert(before =~= rest@.push(x));
            assert(rest@.to_multiset().add(out@.to_multiset()) =~= input.to_multiset());
        }
    }
    assert(rest@ =~= Seq::<(String, usize)>::empty());
    assert(rest@.to_multiset() =~= Multiset::empty());
    assert(out@.to_multiset() =~= input.to_multiset());
    out
}

/// Orders rows by key.
pub fn sort_by_key(rows: Vec<(String, usize)>) -> (r: Vec<(String, usize)>)
    ensures
        r@.to_multiset() == rows@.to_multiset(),
        forall|i: int, j: int| 0 <= i < j < r@.len() ==> seq_le((#[trigger] r@[i]).0@, (#[trigger] r@[j]).0@),
{
    broadcast use vstd::seq_lib::group_to_multiset_ensures;

    let ghost input = rows@;
    let mut rest = rows;
    let mut out: Vec<(String, usize)> = Vec::new();
    while rest.len() > 0
        invariant
            rest@.to_multiset().add(out@.to_multiset()) == input.to_multiset(),
            forall|i: int, j: int| 0 <= i < j < out@.len() ==> seq_le((#[trigger] out@[i]).0@, (#[trigger] out@[j]).0@),
        decreases rest@.len(),
    {
        let ghost before = rest@;
        let x = rest.pop().unwrap();
        let mut p: usize = 0;
        while p < out.len() && !str_lt(x.0.as_str(), out[p].0.as_str())
            invariant
                p <= out@.len(),
                forall|k: int| 0 <= k < p ==> seq_le((#[trigger] out@[k]).0@, x.0@),
            decreases out@.len() - p,
        {
            proof {
                lemma_seq_lt_total(out@[p as int].0@, x.0@);
            }
            p += 1;
        }
        proof {
            if p < out@.len() {
                assert forall|k: int| p <= k < out@.len() implies seq_le(x.0@, (#[trigger] out@[k]).0@) by {
                    if k > p {
                        assert(seq_le(out@[p as int].0@, out@[k].0@));
                        if seq_lt(out@[p as int].0@, out@[k].0@) {
                            lemma_seq_lt_transitive(x.0@, out@[p as int].0@, out@[k].0@);
                        }
                    }
                }
            }
        }
        let ghost prev = out@;
        out.insert(p, x);
        proof {
            assert forall|i: int, j: int| 0 <= i < j < out@.len() implies seq_le((#[trigger] out@[i]).0@, (#[trigger] out@[j]).0@) by {
                if i < p && j == p {
                } else if i == p && j > p {
                    assert(out@[j] == prev[j - 1]);
                } else if i < p && j > p {
                    assert(out@[j] == prev[j - 1]);
                    assert(seq_le(prev[i].0@, prev[j - 1].0@));
                    if seq_lt(prev[i].0@, x.0@) && seq_lt(x.0@, prev[j - 1].0@) {
                        lemma_seq_lt_transitive(prev[i].0@, x.0@, prev[j - 1].0@);
                    }
                } else if j < p {
                } else {
                    assert(out@[i] == prev[i - 1]);
                    assert(out@[j] == prev[j - 1]);
                }
            }
            vstd::seq_lib::to_multiset_build(rest@, x);
            vstd::seq_lib::to_multiset_insert(prev, p as int, x);
            assert(before =~= rest@.push(x));
            assert(rest@.to_multiset().add(out@.to_multiset()) =~= input.to_multiset());
        }
    }
    assert(rest@ =~= Seq::<(String, usize)>::empty());
    assert(rest@.to_multiset() =~= Multiset::empty());
    assert(out@.to_multiset() =~= input.to_multiset());
    out
}

/// The highest-ranked rows, at most `n` of them, in rank order.
pub fn top_by_count(rows: Vec<(String, usize)>, n: usize) -> (r: Vec<(String, usize)>)
    ensures
        exists|s: Seq<(String, usize)>| s.to_multiset() == rows@.to_multiset() && ranked(s) && r@ == s.take(
            if n < s.len() { n as int } else { s.len() as int },
        ),
{
    let mut ranked_rows = rank_by_count(rows);
    let ghost s = ranked_rows@;
    ranked_rows.truncate(n);
    assert(ranked_rows@ == s.take(if n < s.len() { n as int } else { s.len() as int }));
    ranked_rows
}

/// The digest of one failed unit.
#[derive(Debug, Clone, PartialEq, Eq)]
pub struct FailedUnitSummary {
    pub unit: String,
    pub sub_state: String,
    pub result: Option<String>,
    pub since_utc: Option<String>,
}

#[derive(Debug, Clone, PartialEq, Eq)]
pub struct ServiceSummary {
    pub counts_by_active_state: Vec<(String, usize)>,
    pub failed_units: Vec<FailedUnitSummary>,
    pub degraded_hint: Option<String>,
}

#[derive(Debug, Clone, PartialEq, Eq)]
pub struct LogSummary {
    pub counts_by_unit: Vec<(String, usize)>,
    pub counts_by_priority: Vec<(String, usize)>,
    pub top_messages: Vec<(String, usize)>,
    pub error_hotspots: Vec<(String, usize)>,
}

/// How many failed units a summary lists at most.
pub const MAX_FAILED_UNITS: usize = 10;

/// How many rows a ranking keeps.
pub const TOP_ROWS: usize = 10;

pub open spec fn digests(f: FailedUnitSummary, u: UnitStatus) -> bool {
    &&& f.unit@ == u.unit@
    &&& f.sub_state@ == u.sub_state@
    &&& opt_view(f.result) == opt_view(u.result)
    &&& opt_view(f.since_utc) == opt_view(u.since_utc)
}

/// `f` digests one of the failed units of `services`.
pub open spec fn digests_failed(f: FailedUnitSummary, services: Seq<UnitStatus>) -> bool {
    exists|j: int| 0 <= j < services.len() && is_failed(#[trigger] services[j]) && digests(f, services[j])
}

pub open spec fn hint_text(n: nat) -> Seq<char> {
    "Detected "@ + crate::decimal::int_text(n as int) + " failed service(s); review failed_units for triage"@
}

pub open spec fn failed_pred() -> spec_fn(UnitStatus) -> bool {
    |u: UnitStatus| is_failed(u)
}

pub open spec fn failed_count(services: Seq<UnitStatus>) -> nat {
    services.filter(failed_pred()).len()
}

fn clone_opt(o: &Option<String>) -> (r: Option<String>)
    ensures
        opt_view(r) == opt_view(*o),
{
    match o {
        Some(s) => Some(s.clone()),
        None => None,
    }
}

/// `r` summarizes `services`.
pub open spec fn is_service_summary(r: ServiceSummary, services: Seq<UnitStatus>) -> bool {
    &&& is_tally(r.counts_by_active_state@, services.map_values(|u: UnitStatus| u.active_state@))
    &&& r.failed_units@.len() == if failed_count(services) < MAX_FAILED_UNITS {
        failed_count(services)
    } else {
        MAX_FAILED_UNITS as nat
    }
    &&& forall|i: int| 0 <= i < r.failed_units@.len() ==> digests_failed(#[trigger] r.failed_units@[i], services)
    &&& forall|i: int, j: int| 0 <= i < j < r.failed_units@.len() ==> seq_le(
        (#[trigger] r.failed_units@[i]).unit@,
        (#[trigger] r.failed_units@[j]).unit@,
    )
    &&& match r.degraded_hint {
        None => r.failed_units@.len() == 0,
        Some(h) => r.failed_units@.len() > 0 && h@ == hint_text(r.failed_units@.len()),
    }
    &&& exists|idx: Seq<int>| lists_first_failed(r.failed_units@, idx, services)
}

/// The digests are of the distinct failed units at `idx`, and every failed
/// unit left out sorts no earlier by name than any listed one.
pub open spec fn lists_first_failed(digests_: Seq<FailedUnitSummary>, idx: Seq<int>, services: Seq<UnitStatus>) -> bool {
    &&& idx.len() == digests_.len()
    &&& forall|i: int| 0 <= i < idx.len() ==> 0 <= #[trigger] idx[i] < services.len() && is_failed(services[idx[i]])
        && digests(digests_[i], services[idx[i]])
    &&& forall|a: int, b: int| 0 <= a < b < idx.len() ==> #[trigger] idx[a] != #[trigger] idx[b]
    &&& forall|j: int| 0 <= j < services.len() && is_failed(#[trigger] services[j]) && !idx.contains(j) ==> forall|i: int|
        0 <= i < digests_.len() ==> seq_le((#[trigger] digests_[i]).unit@, services[j].unit@)
}

/// Counts units by active state and digests up to ten failed units, in
/// unit name order, with a hint when any unit failed.
pub fn build_service_summary(services: &Vec<UnitStatus>) -> (r: ServiceSummary)
    ensures
        is_service_summary(r, services@),
{
    broadcast use vstd::seq_lib::group_to_multiset_ensures;

    let ghost pred = failed_pred();
    let mut states: Vec<String> = Vec::new();
    let mut failed: Vec<(String, usize)> = Vec::new();
    let mut k: usize = 0;
    while k < services.len()
        invariant
            k <= services@.len(),
            states@.len() == k,
            forall|m: int| 0 <= m < k ==> (#[trigger] states@[m])@ == services@[m].active_state@,
            failed@.len() == services@.subrange(0, k as int).filter(pred).len(),
            pred == failed_pred(),
            forall|i: int| 0 <= i < failed@.len() ==> (#[trigger] failed@[i]).1 < services@.len()
                && is_failed(services@[failed@[i].1 as int]) && failed@[i].0@ == services@[failed@[i].1 as int].unit@,
            forall|i: int| 0 <= i < failed@.len() ==> (#[trigger] failed@[i]).1 < k,
            forall|a: int, b: int| 0 <= a < b < failed@.len() ==> (#[trigger] failed@[a]).1 < (#[trigger] failed@[b]).1,
            forall|j: int| 0 <= j < k && is_failed(#[trigger] services@[j]) ==> exists|m: int| 0 <= m < failed@.len() && failed@[m].1 == j,
        decreases services@.len() - k,
    {
        proof {
            reveal(Seq::filter);
            assert(services@.subrange(0, k + 1).drop_last() == services@.subrange(0, k as int));
        }
        states.push(services[k].active_state.clone());
        let ghost before = failed@;
        if str_eq_ci(services[k].active_state.as_str(), "failed") {
            failed.push((services[k].unit.clone(), k));
        }
        proof {
            assert forall|j: int| 0 <= j < k + 1 && is_failed(#[trigger] services@[j]) implies exists|m: int|
                0 <= m < failed@.len() && failed@[m].1 == j by {
                if j < k {
                    let m = choose|m: int| 0 <= m < before.len() && before[m].1 == j;
                    assert(failed@[m] == before[m]);
                } else {
                    assert(failed@[failed@.len() - 1].1 == k);
                }
            }
        }
        k += 1;
    }
    assert(services@.subrange(0, services@.len() as int) == services@);
    assert(states@.map_values(|s: String| s@) =~= services@.map_values(|u: UnitStatus| u.active_state@));
    let counts = tally(&states);
    let ghost all_failed = failed@;
    let mut ordered = sort_by_key(failed);
    assert(ordered@.len() == all_failed.len()) by {
        assert(ordered@.to_multiset().len() == all_failed.to_multiset().len());
    }
    let ghost full = ordered@;
    proof {
        assert forall|i: int| 0 <= i < ordered@.len() implies (#[trigger] ordered@[i]).1 < services@.len()
            && is_failed(services@[ordered@[i].1 as int]) && ordered@[i].0@ == services@[ordered@[i].1 as int].unit@ by {
            assert(ordered@.to_multiset().count(ordered@[i]) > 0);
            assert(all_failed.contains(ordered@[i]));
        }
        assert(all_failed.no_duplicates()) by {
            assert forall|a: int, b: int| 0 <= a < all_failed.len() && 0 <= b < all_failed.len() && a != b implies all_failed[a] != all_failed[b] by {
                if a < b {
                    assert(all_failed[a].1 < all_failed[b].1);
                } else {
                    assert(all_failed[b].1 < all_failed[a].1);
                }
            }
        }
        all_failed.lemma_multiset_has_no_duplicates();
        full.lemma_multiset_has_no_duplicates_conv();
    }
    ordered.truncate(MAX_FAILED_UNITS);
    let mut failed_units: Vec<FailedUnitSummary> = Vec::new();
    let mut i: usize = 0;
    while i < ordered.len()
        invariant
            i <= ordered@.len(),
            failed_units@.len() == i,
            forall|m: int| 0 <= m < ordered@.len() ==> (#[trigger] ordered@[m]).1 < services@.len()
                && is_failed(services@[ordered@[m].1 as int]) && ordered@[m].0@ == services@[ordered@[m].1 as int].unit@,
            forall|m: int| 0 <= m < i ==> digests(#[trigger] failed_units@[m], services@[ordered@[m].1 as int]),
        decreases ordered@.len() - i,
    {
        let u = &services[ordered[i].1];
        failed_units.push(FailedUnitSummary {
            unit: u.unit.clone(),
            sub_state: u.sub_state.clone(),
            result: clone_opt(&u.result),
            since_utc: clone_opt(&u.since_utc),
        });
        i += 1;
    }
    proof {
        assert forall|m: int| 0 <= m < failed_units@.len() implies digests_failed(#[trigger] failed_units@[m], services@) by {
            let j = ordered@[m].1 as int;
            assert(is_failed(services@[j]) && digests(failed_units@[m], services@[j]));
        }
        let idx = ordered@.map_values(|p: (String, usize)| p.1 as int);
        assert(ordered@ == full.subrange(0, ordered@.len() as int));
        assert forall|a: int, b: int| 0 <= a < b < idx.len() implies #[trigger] idx[a] != #[trigger] idx[b] by {
            if idx[a] == idx[b] {
                assert(full.to_multiset().count(full[a]) > 0);
                assert(full.to_multiset().count(full[b]) > 0);
                assert(all_failed.contains(full[a]));
                assert(all_failed.contains(full[b]));
                let ma = choose|m: int| 0 <= m < all_failed.len() && all_failed[m] == full[a];
                let mb = choose|m: int| 0 <= m < all_failed.len() && all_failed[m] == full[b];
                if ma < mb {
                    assert(all_failed[ma].1 < all_failed[mb].1);
                } else if mb < ma {
                    assert(all_failed[mb].1 < all_failed[ma].1);
                }
                assert(full[a] != full[b]);
            }
        }
        assert forall|j: int| 0 <= j < services@.len() && is_failed(#[trigger] services@[j]) && !idx.contains(j) implies forall|i: int|
            0 <= i < failed_units@.len() ==> seq_le((#[trigger] failed_units@[i]).unit@, services@[j].unit@) by {
            let m = choose|m: int| 0 <= m < all_failed.len() && all_failed[m].1 == j;
            assert(full.to_multiset().count(all_failed[m]) > 0);
            assert(full.contains(all_failed[m]));
            let p = choose|p: int| 0 <= p < full.len() && full[p] == all_failed[m];
            if p < idx.len() {
                assert(idx[p] == j);
            }
            assert forall|i: int| 0 <= i < failed_units@.len() implies seq_le((#[trigger] failed_units@[i]).unit@, services@[j].unit@) by {
                assert(full[i] == ordered@[i]);
                assert(seq_le(full[i].0@, full[p].0@));
            }
        }
        assert(lists_first_failed(failed_units@, idx, services@));
    }
    let degraded_hint = if failed_units.len() == 0 {
        None
    } else {
        let n = crate::decimal::usize_to_text(failed_units.len());
        let mut h = String::from_str("Detected ");
        h.append(n.as_str());
        h.append(" failed service(s); review failed_units for triage");
        Some(h)
    };
    ServiceSummary { counts_by_active_state: counts, failed_units, degraded_hint }
}

/// The unit of each entry that names one.
pub open spec fn unit_keys(entries: Seq<JournalLogEntry>) -> Seq<Seq<char>>
    decreases entries.len(),
{
    if entries.len() == 0 {
        Seq::empty()
    } else {
        let rest = unit_keys(entries.drop_last());
        match entries.last().unit {
            Some(u) => rest.push(u@),
            None => rest,
        }
    }
}

/// The priority of each entry, `unknown` when it has none.
pub open spec fn priority_keys(entries: Seq<JournalLogEntry>) -> Seq<Seq<char>> {
    entries.map_values(|e: JournalLogEntry| match e.priority {
        Some(p) => p@,
        None => "unknown"@,
    })
}

/// The message of each entry that has one.
pub open spec fn message_keys(entries: Seq<JournalLogEntry>) -> Seq<Seq<char>>
    decreases entries.len(),
{
    if entries.len() == 0 {
        Seq::empty()
    } else {
        let rest = message_keys(entries.drop_last());
        match entries.last().message {
            Some(m) => rest.push(m@),
            None => rest,
        }
    }
}

/// An entry at error level or worse: a numeric priority of at most 3.
pub open spec fn is_error_entry(e: JournalLogEntry) -> bool {
    e.priority matches Some(p) && (crate::decimal::parse_u8_spec(p@) matches Some(n) && n <= 3)
}

/// The unit of each error entry that names one.
pub open spec fn error_unit_keys(entries: Seq<JournalLogEntry>) -> Seq<Seq<char>>
    decreases entries.len(),
{
    if entries.len() == 0 {
        Seq::empty()
    } else {
        let rest = error_unit_keys(entries.drop_last());
        match entries.last().unit {
            Some(u) => if is_error_entry(entries.last()) { rest.push(u@) } else { rest },
            None => rest,
        }
    }
}

/// `r` holds the `n` highest-ranked rows of a tally of `keys`.
pub open spec fn is_top_rows(r: Seq<(String, usize)>, keys: Seq<Seq<char>>, n: nat) -> bool {
    exists|t: Seq<(String, usize)>, s: Seq<(String, usize)>|
        is_tally(t, keys) && s.to_multiset() == t.to_multiset() && ranked(s) && r.to_multiset()
            == s.take(if n < s.len() { n as int } else { s.len() as int }).to_multiset()
}

/// `r` summarizes `entries`.
pub open spec fn is_log_summary(r: LogSummary, entries: Seq<JournalLogEntry>) -> bool {
    &&& is_top_rows(r.counts_by_unit@, unit_keys(entries), TOP_ROWS as nat)
    &&& forall|i: int, j: int| 0 <= i < j < r.counts_by_unit@.len() ==> seq_le(
        (#[trigger] r.counts_by_unit@[i]).0@,
        (#[trigger] r.counts_by_unit@[j]).0@,
    )
    &&& is_tally(r.counts_by_priority@, priority_keys(entries))
    &&& is_top_rows(r.top_messages@, message_keys(entries), TOP_ROWS as nat)
    &&& ranked(r.top_messages@)
    &&& exists|t: Seq<(String, usize)>| is_tally(t, error_unit_keys(entries)) && r.error_hotspots@.to_multiset() == t.to_multiset()
    &&& ranked(r.error_hotspots@)
}

/// Counts entries by unit (the ten busiest, in unit order) and by
/// priority, ranks the ten most frequent messages, and ranks units by their
/// number of error entries.
pub fn build_log_summary(entries: &Vec<JournalLogEntry>) -> (r: LogSummary)
    ensures
        is_log_summary(r, entries@),
{
    let mut units: Vec<String> = Vec::new();
    let mut priorities: Vec<String> = Vec::new();
    let mut messages: Vec<String> = Vec::new();
    let mut error_units: Vec<String> = Vec::new();
    let mut k: usize = 0;
    while k < entries.len()
        invariant
            k <= entries@.len(),
            units@.map_values(|s: String| s@) == unit_keys(entries@.subrange(0, k as int)),
            priorities@.len() == k,
            forall|m: int| 0 <= m < k ==> (#[trigger] priorities@[m])@ == match entries@[m].priority {
                Some(p) => p@,
                None => "unknown"@,
            },
            messages@.map_values(|s: String| s@) == message_keys(entries@.subrange(0, k as int)),
            error_units@.map_values(|s: String| s@) == error_unit_keys(entries@.subrange(0, k as int)),
        decreases entries@.len() - k,
    {
        let e = &entries[k];
        let ghost next = entries@.subrange(0, k + 1);
        assert(next.drop_last() == entries@.subrange(0, k as int));
        assert(next.last() == *e);
        let is_error = match &e.priority {
            Some(p) => match crate::decimal::parse_u8(p.as_str()) {
                Some(n) => n <= 3,
                None => false,
            },
            None => false,
        };
        match &e.unit {
            Some(u) => {
                units.push(u.clone());
                if is_error {
                    error_units.push(u.clone());
                }
            },
            None => {},
        }
        match &e.priority {
            Some(p) => priorities.push(p.clone()),
            None => priorities.push(String::from_str("unknown")),
        }
        match &e.message {
            Some(m) => messages.push(m.clone()),
            None => {},
        }
        assert(units@.map_values(|s: String| s@) =~= unit_keys(next));
        assert(messages@.map_values(|s: String| s@) =~= message_keys(next));
        assert(error_units@.map_values(|s: String| s@) =~= error_unit_keys(next));
        k += 1;
    }
    assert(entries@.subrange(0, entries@.len() as int) == entries@);
    assert(priorities@.map_values(|s: String| s@) =~= priority_keys(entries@));
    let unit_counts = tally(&units);
    let top_units = top_by_count(unit_counts, TOP_ROWS);
    let counts_by_unit = sort_by_key(top_units);
    let counts_by_priority = tally(&priorities);
    let message_counts = tally(&messages);
    let top_messages = top_by_count(message_counts, TOP_ROWS);
    let error_counts = tally(&error_units);
    let ghost error_tally = error_counts@;
    let error_hotspots = rank_by_count(error_counts);
    assert(is_tally(error_tally, error_unit_keys(entries@)));
    LogSummary { counts_by_unit, counts_by_priority, top_messages, error_hotspots }
}

} // verus!
