//! Startup configuration: the API token, the bind address and port, the
//! allowed client range and the trusted proxies, read from raw settings.

use vstd::prelude::*;
use crate::decimal::{parse_u16, parse_u16_spec};
use crate::text::{char_vec, string_from_chars, trim_chars, trimmed};

verus! {

#[verifier::external_type_specification]
#[verifier::external_body]
pub struct ExIpNet(ipnet::IpNet);

/// Whether `ipnet::IpNet`'s `FromStr` accepts a text as a CIDR range.
pub uninterp spec fn is_cidr(s: Seq<char>) -> bool;

/// Relies on `<ipnet::IpNet as FromStr>::from_str`: `Some` exactly when the
/// text is a CIDR range.
#[verifier::external_body]
fn parse_cidr(s: &str) -> (r: Option<ipnet::IpNet>)
    ensures
        r is Some == is_cidr(s@),
{
    s.parse::<ipnet::IpNet>().ok()
}

pub const MIN_API_TOKEN_LENGTH: usize = 16;
pub const DEFAULT_BIND_ADDR: &'static str = "127.0.0.1";
pub const DEFAULT_BIND_PORT: u16 = 8080;

#[derive(Debug, Clone, Copy, PartialEq, Eq, Structural)]
pub enum ConfigError {
    MissingApiToken,
    TokenTooShort,
    InvalidPort,
    InvalidAllowedCidr,
    InvalidTrustedProxy,
    InvalidSocket,
}

/// The description of a configuration error.
pub open spec fn config_error_text(e: ConfigError) -> Seq<char> {
    match e {
        ConfigError::MissingApiToken => "MCP_API_TOKEN is required and must not be empty"@,
        ConfigError::TokenTooShort => "MCP_API_TOKEN must be at least 16 characters"@,
        ConfigError::InvalidPort => "BIND_PORT must be a valid u16"@,
        ConfigError::InvalidAllowedCidr => "MCP_ALLOWED_CIDR must be a valid CIDR range"@,
        ConfigError::InvalidTrustedProxy => "MCP_TRUSTED_PROXIES contains an invalid CIDR range"@,
        ConfigError::InvalidSocket => "invalid bind address or port"@,
    }
}

impl ConfigError {
    /// The description of the error.
    pub fn message(&self) -> (r: &'static str)
        ensures
            r@ == config_error_text(*self),
    {
        match self {
            ConfigError::MissingApiToken => "MCP_API_TOKEN is required and must not be empty",
            ConfigError::TokenTooShort => "MCP_API_TOKEN must be at least 16 characters",
            ConfigError::InvalidPort => "BIND_PORT must be a valid u16",
            ConfigError::InvalidAllowedCidr => "MCP_ALLOWED_CIDR must be a valid CIDR range",
            ConfigError::InvalidTrustedProxy => "MCP_TRUSTED_PROXIES contains an invalid CIDR range",
            ConfigError::InvalidSocket => "invalid bind address or port",
        }
    }
}

/// The settings as found, each possibly absent.
#[derive(Debug, Clone, PartialEq, Eq)]
pub struct RawConfig {
    pub api_token: Option<String>,
    pub bind_addr: Option<String>,
    pub bind_port: Option<String>,
    pub allowed_cidr: Option<String>,
    pub trusted_proxies: Option<String>,
}

#[derive(Debug, Clone)]
pub struct Config {
    pub api_token: String,
    pub bind_addr: String,
    pub bind_port: u16,
    pub allowed_cidr: Option<ipnet::IpNet>,
    pub trusted_proxies: Vec<ipnet::IpNet>,
}

/// A setting that is present and not blank, trimmed.
pub open spec fn present(o: Option<String>) -> Option<Seq<char>> {
    match o {
        Some(s) => if trimmed(s@).len() > 0 { Some(trimmed(s@)) } else { None },
        None => None,
    }
}

/// The comma-separated parts of a text.
pub open spec fn comma_parts(s: Seq<char>) -> Seq<Seq<char>>
    decreases s.len(),
{
    if s.len() == 0 {
        seq![Seq::empty()]
    } else {
        let rest = comma_parts(s.drop_last());
        if s.last() == ',' {
            rest.push(Seq::empty())
        } else {
            rest.update(rest.len() - 1, rest.last().push(s.last()))
        }
    }
}

proof fn lemma_comma_parts_nonempty(s: Seq<char>)
    ensures
        comma_parts(s).len() > 0,
    decreases s.len(),
{
    if s.len() > 0 {
        lemma_comma_parts_nonempty(s.drop_last());
    }
}

/// The code of the first setting that is wrong, in the order they are
/// checked (the token, the port, the allowed range, the proxies).
pub open spec fn config_error(raw: RawConfig) -> Option<ConfigError> {
    match present(raw.api_token) {
        None => Some(ConfigError::MissingApiToken),
        Some(t) => if crate::text::utf8_len(t) < MIN_API_TOKEN_LENGTH {
            Some(ConfigError::TokenTooShort)
        } else if raw.bind_port matches Some(p) && parse_u16_spec(p@) is None {
            Some(ConfigError::InvalidPort)
        } else if present(raw.allowed_cidr) matches Some(c) && !is_cidr(c) {
            Some(ConfigError::InvalidAllowedCidr)
        } else if present(raw.trusted_proxies) matches Some(l) && exists|i: int|
            0 <= i < comma_parts(l).len() && !is_cidr(trimmed(#[trigger] comma_parts(l)[i])) {
            Some(ConfigError::InvalidTrustedProxy)
        } else {
            None
        },
    }
}

/// Splits a text at its commas.
fn split_commas(s: &Vec<char>) -> (r: Vec<Vec<char>>)
    ensures
        r@.len() == comma_parts(s@).len(),
        forall|i: int| 0 <= i < r@.len() ==> (#[trigger] r@[i])@ == comma_parts(s@)[i],
{
    let mut parts: Vec<Vec<char>> = Vec::new();
    parts.push(Vec::new());
    let mut k: usize = 0;
    assert(s@.subrange(0, 0) =~= Seq::<char>::empty());
    while k < s.len()
        invariant
            k <= s@.len(),
            parts@.len() == comma_parts(s@.subrange(0, k as int)).len(),
            parts@.len() > 0,
            forall|i: int| 0 <= i < parts@.len() ==> (#[trigger] parts@[i])@ == comma_parts(s@.subrange(0, k as int))[i],
        decreases s@.len() - k,
    {
        let ghost prefix = s@.subrange(0, k + 1);
        assert(prefix.drop_last() == s@.subrange(0, k as int));
        let c = s[k];
        if c == ',' {
            parts.push(Vec::new());
        } else {
            let last = parts.len() - 1;
            let mut tail = parts.remove(last);
            tail.push(c);
            parts.push(tail);
        }
        proof {
            assert forall|i: int| 0 <= i < parts@.len() implies (#[trigger] parts@[i])@ == comma_parts(prefix)[i] by {
            }
        }
        k += 1;
    }
    assert(s@.subrange(0, s@.len() as int) == s@);
    parts
}

/// Parses the trusted proxies list; `None` when an entry is not a range.
fn parse_proxy_list(list: &Vec<char>) -> (r: Option<Vec<ipnet::IpNet>>)
    ensures
        r is None <==> exists|i: int| 0 <= i < comma_parts(list@).len() && !is_cidr(trimmed(#[trigger] comma_parts(list@)[i])),
        r matches Some(v) ==> v@.len() == comma_parts(list@).len(),
{
    let parts = split_commas(list);
    let mut out: Vec<ipnet::IpNet> = Vec::new();
    let mut i: usize = 0;
    while i < parts.len()
        invariant
            i <= parts@.len(),
            parts@.len() == comma_parts(list@).len(),
            forall|m: int| 0 <= m < parts@.len() ==> (#[trigger] parts@[m])@ == comma_parts(list@)[m],
            forall|m: int| 0 <= m < i ==> is_cidr(trimmed(#[trigger] comma_parts(list@)[m])),
            out@.len() == i,
        decreases parts@.len() - i,
    {
        let t = trim_chars(&parts[i]);
        let text = string_from_chars(&t);
        match parse_cidr(text.as_str()) {
            Some(net) => out.push(net),
            None => {
                assert(!is_cidr(trimmed(comma_parts(list@)[i as int])));
                return None;
            },
        }
        i += 1;
    }
    Some(out)
}

fn present_setting(o: &Option<String>) -> (r: Option<String>)
    ensures
        match present(*o) {
            Some(t) => r matches Some(s) && s@ == t,
            None => r is None,
        },
{
    match o {
        Some(s) => {
            let raw = char_vec(s.as_str());
            let t = trim_chars(&raw);
            if t.len() > 0 {
                Some(string_from_chars(&t))
            } else {
                None
            }
        },
        None => None,
    }
}

impl Config {
    /// Reads the settings: a token of at least 16 bytes is required; the
    /// address defaults to `127.0.0.1` and the port to 8080; the allowed
    /// range and the comma-separated proxies are optional CIDR ranges.
    /// Whether address and port form a socket address is checked by the
    /// caller, which owns the network types.
    pub fn parse(raw: RawConfig) -> (r: Result<Config, ConfigError>)
        ensures
            match config_error(raw) {
                Some(e) => r == Err::<Config, ConfigError>(e),
                None => r matches Ok(c) && c.api_token@ == present(raw.api_token)->0 && c.bind_addr@
                    == match present(raw.bind_addr) {
                    Some(a) => a,
                    None => DEFAULT_BIND_ADDR@,
                } && c.bind_port == match raw.bind_port {
                    Some(p) => parse_u16_spec(p@)->0,
                    None => DEFAULT_BIND_PORT,
                } && c.allowed_cidr is Some == present(raw.allowed_cidr) is Some
                    && c.trusted_proxies@.len() == match present(raw.trusted_proxies) {
                    Some(l) => comma_parts(l).len(),
                    None => 0,
                },
            },
    {
        let api_token = match present_setting(&raw.api_token) {
            Some(t) => t,
            None => return Err(ConfigError::MissingApiToken),
        };
        if api_token.as_str().len() < MIN_API_TOKEN_LENGTH {
            return Err(ConfigError::TokenTooShort);
        }
        let bind_addr = match present_setting(&raw.bind_addr) {
            Some(a) => a,
            None => DEFAULT_BIND_ADDR.to_string(),
        };
        let bind_port = match &raw.bind_port {
            Some(p) => match parse_u16(p.as_str()) {
                Some(n) => n,
                None => return Err(ConfigError::InvalidPort),
            },
            None => DEFAULT_BIND_PORT,
        };
        let allowed_cidr = match present_setting(&raw.allowed_cidr) {
            Some(c) => match parse_cidr(c.as_str()) {
                Some(net) => Some(net),
                None => return Err(ConfigError::InvalidAllowedCidr),
            },
            None => None,
        };
        let trusted_proxies = match present_setting(&raw.trusted_proxies) {
            Some(l) => {
                let chars = char_vec(l.as_str());
                match parse_proxy_list(&chars) {
                    Some(v) => v,
                    None => return Err(ConfigError::InvalidTrustedProxy),
                }
            },
            None => Vec::new(),
        };
        Ok(Config { api_token, bind_addr, bind_port, allowed_cidr, trusted_proxies })
    }
}

} // verus!
