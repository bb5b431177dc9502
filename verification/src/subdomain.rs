//! Subdomain handling: classifies a request's host (and, on local hosts, a
//! `_subdomain` query override) into a serving mode.

use vstd::prelude::*;
use crate::numfmt::{all_digits, digits_val};
use crate::strutil::{ffirst, match_at, str_eq, str_find_char, str_starts_with};

verus! {

#[derive(Debug, Clone, PartialEq)]
pub enum SubdomainMode {
    DirectProtocol,
    WwwRedirect,
    EnterpriseTenant(String),
}

/// Mathematical model of a serving mode.
pub enum ModeModel {
    Direct,
    Www,
    Tenant(Seq<char>),
}

impl View for SubdomainMode {
    type V = ModeModel;

    open spec fn view(&self) -> ModeModel {
        match self {
            SubdomainMode::DirectProtocol => ModeModel::Direct,
            SubdomainMode::WwwRedirect => ModeModel::Www,
            SubdomainMode::EnterpriseTenant(s) => ModeModel::Tenant(s@),
        }
    }
}

/// The host with everything from the first `:` on removed.
pub open spec fn host_port_stripped(h: Seq<char>) -> Seq<char> {
    if ffirst(h, ':') >= 0 {
        h.subrange(0, ffirst(h, ':'))
    } else {
        h
    }
}

pub open spec fn is_localhost_seq(h: Seq<char>) -> bool {
    ||| host_port_stripped(h) == "localhost"@
    ||| host_port_stripped(h) == "127.0.0.1"@
    ||| host_port_stripped(h) == "::1"@
}

/// Whether the host names the local machine (port ignored).
pub fn is_localhost(host: &str) -> (r: bool)
    ensures
        r == is_localhost_seq(host@),
{
    let hp: &str = match str_find_char(host, ':') {
        Some(i) => host.substring_char(0, i),
        None => host,
    };
    str_eq(hp, "localhost") || str_eq(hp, "127.0.0.1") || str_eq(hp, "::1")
}

/// Occurrences of `c` in `s`.
pub open spec fn count_char(s: Seq<char>, c: char) -> nat
    decreases s.len(),
{
    if s.len() == 0 {
        0
    } else {
        count_char(s.subrange(0, s.len() - 1), c) + (if s[s.len() - 1] == c {
            1nat
        } else {
            0nat
        })
    }
}

proof fn lemma_count_char_zero(s: Seq<char>, c: char)
    requires
        forall|i: int| 0 <= i < s.len() ==> s[i] != c,
    ensures
        count_char(s, c) == 0,
    decreases s.len(),
{
    if s.len() > 0 {
        let t = s.subrange(0, s.len() - 1);
        assert(forall|i: int| 0 <= i < t.len() ==> t[i] == s[i] && t[i] != c);
        lemma_count_char_zero(t, c);
    }
}

fn count_char_exec(s: &str, c: char) -> (r: usize)
    ensures
        r == count_char(s@, c),
{
    let slen: usize = s.unicode_len();
    let mut n: usize = 0;
    let mut i: usize = 0;
    while i < slen
        invariant
            0 <= i <= slen,
            slen == s@.len(),
            n <= i,
            n == count_char(s@.subrange(0, i as int), c),
        decreases slen - i,
    {
        proof {
            let pre = s@.subrange(0, i as int);
            let ext = s@.subrange(0, i + 1);
            assert(ext.subrange(0, ext.len() - 1) =~= pre);
        }
        if s.get_char(i) == c {
            n = n + 1;
        }
        i = i + 1;
    }
    proof {
        assert(s@.subrange(0, slen as int) =~= s@);
    }
    n
}

/// A decimal IPv4 octet: one to three digits, value at most 255, no leading
/// zero except for `0` itself.
pub open spec fn octet_ok(s: Seq<char>) -> bool {
    &&& 1 <= s.len() <= 3
    &&& all_digits(s)
    &&& digits_val(s) <= 255
    &&& (s[0] != '0' || s.len() == 1)
}

/// `parts` dot-separated octets.
pub open spec fn ipv4_parts_ok(s: Seq<char>, parts: nat) -> bool
    decreases parts,
{
    if parts <= 1 {
        octet_ok(s)
    } else {
        let k = ffirst(s, '.');
        &&& k >= 0
        &&& octet_ok(s.subrange(0, k))
        &&& ipv4_parts_ok(s.subrange(k + 1, s.len() as int), (parts - 1) as nat)
    }
}

pub open spec fn is_ipv4_seq(s: Seq<char>) -> bool {
    ipv4_parts_ok(s, 4)
}

fn octet_ok_exec(s: &str) -> (r: bool)
    ensures
        r == octet_ok(s@),
{
    let slen: usize = s.unicode_len();
    if slen < 1 || slen > 3 {
        return false;
    }
    match crate::numfmt::parse_u32_digits(s) {
        Some(v) => v <= 255 && (s.get_char(0) != '0' || slen == 1),
        None => {
            proof {
                if all_digits(s@) {
                    crate::numfmt::lemma_digits_val_prefix(s@, s@.len() as int);
                    assert(s@.subrange(0, s@.len() as int) =~= s@);
                    // three digits value is below u32::MAX, so the parse only
                    // fails when some character is not a digit
                    assert(digits_val(s@) <= 999) by {
                        lemma_small_digits(s@);
                    }
                }
            }
            false
        },
    }
}

proof fn lemma_small_digits(s: Seq<char>)
    requires
        all_digits(s),
        s.len() <= 3,
    ensures
        digits_val(s) <= 999,
        s.len() <= 2 ==> digits_val(s) <= 99,
        s.len() <= 1 ==> digits_val(s) <= 9,
    decreases s.len(),
{
    if s.len() > 0 {
        let t = s.subrange(0, s.len() - 1);
        assert(forall|i: int| 0 <= i < t.len() ==> t[i] == s[i]);
        lemma_small_digits(t);
        assert(crate::numfmt::is_digit(s[s.len() - 1]));
    }
}

fn ipv4_parts_exec(s: &str, parts: u32) -> (r: bool)
    requires
        parts >= 1,
    ensures
        r == ipv4_parts_ok(s@, parts as nat),
    decreases parts,
{
    if parts == 1 {
        return octet_ok_exec(s);
    }
    let slen: usize = s.unicode_len();
    match str_find_char(s, '.') {
        Some(k) => {
            octet_ok_exec(s.substring_char(0, k)) && ipv4_parts_exec(
                s.substring_char(k + 1, slen),
                parts - 1,
            )
        },
        None => false,
    }
}

/// Whether the string is a literal dotted-quad IPv4 address.
pub fn is_ipv4_literal(s: &str) -> (r: bool)
    ensures
        r == is_ipv4_seq(s@),
{
    ipv4_parts_exec(s, 4)
}

/// Query string of a request URI: everything after the first `?`.
pub open spec fn query_of(uri: Seq<char>) -> Option<Seq<char>> {
    if ffirst(uri, '?') >= 0 {
        Some(uri.subrange(ffirst(uri, '?') + 1, uri.len() as int))
    } else {
        None
    }
}

pub open spec fn mode_of_value(v: Seq<char>) -> ModeModel {
    if v == "www"@ {
        ModeModel::Www
    } else if v == "direct"@ || v.len() == 0 {
        ModeModel::Direct
    } else {
        ModeModel::Tenant(v)
    }
}

/// First `_subdomain=` pair of an `&`-separated query string, as a mode.
pub open spec fn override_of(q: Seq<char>) -> Option<ModeModel>
    decreases q.len(),
    via override_of_decreases
{
    let k = ffirst(q, '&');
    let pair = if k >= 0 {
        q.subrange(0, k)
    } else {
        q
    };
    if match_at(pair, "_subdomain="@, 0) {
        Some(mode_of_value(pair.subrange("_subdomain="@.len() as int, pair.len() as int)))
    } else if k >= 0 {
        override_of(q.subrange(k + 1, q.len() as int))
    } else {
        None
    }
}

#[via_fn]
proof fn override_of_decreases(q: Seq<char>) {
    crate::strutil::lemma_ffirst_range(q, '&');
}

fn check_query_override(query: &str) -> (r: Option<SubdomainMode>)
    ensures
        match r {
            Some(m) => override_of(query@) == Some(m@),
            None => override_of(query@) is None,
        },
{
    let mut cur: &str = query;
    loop
        invariant
            override_of(query@) == override_of(cur@),
        decreases cur@.len(),
    {
        let clen: usize = cur.unicode_len();
        let (pair, rest): (&str, Option<&str>) = match str_find_char(cur, '&') {
            Some(k) => (cur.substring_char(0, k), Some(cur.substring_char(k + 1, clen))),
            None => (cur, None),
        };
        if str_starts_with(pair, "_subdomain=") {
            let plen: usize = "_subdomain=".unicode_len();
            let pairlen: usize = pair.unicode_len();
            let v = pair.substring_char(plen, pairlen);
            let m = if str_eq(v, "www") {
                SubdomainMode::WwwRedirect
            } else if str_eq(v, "direct") || v.unicode_len() == 0 {
                SubdomainMode::DirectProtocol
            } else {
                SubdomainMode::EnterpriseTenant(String::from_str(v))
            };
            return Some(m);
        }
        match rest {
            Some(r) => { cur = r; },
            None => { return None; },
        }
    }
}

/// Mode derived from the host alone: single-label hosts, IPv4 addresses and
/// two-label domains serve directly; otherwise the first label picks the
/// tenant, with `www` redirecting.
pub open spec fn mode_from_host(host: Seq<char>) -> ModeModel {
    let hp = host_port_stripped(host);
    if count_char(hp, '.') == 0 || is_ipv4_seq(hp) {
        ModeModel::Direct
    } else if count_char(hp, '.') == 1 {
        ModeModel::Direct
    } else {
        let sub = hp.subrange(0, ffirst(hp, '.'));
        if sub == "www"@ {
            ModeModel::Www
        } else {
            ModeModel::Tenant(sub)
        }
    }
}

fn detect_mode_from_host(host: &str) -> (r: SubdomainMode)
    ensures
        r@ == mode_from_host(host@),
{
    let hp: &str = match str_find_char(host, ':') {
        Some(i) => host.substring_char(0, i),
        None => host,
    };
    let dots = count_char_exec(hp, '.');
    if dots == 0 || is_ipv4_literal(hp) {
        return SubdomainMode::DirectProtocol;
    }
    if dots == 1 {
        return SubdomainMode::DirectProtocol;
    }
    match str_find_char(hp, '.') {
        Some(k) => {
            let sub = hp.substring_char(0, k);
            if str_eq(sub, "www") {
                SubdomainMode::WwwRedirect
            } else {
                SubdomainMode::EnterpriseTenant(String::from_str(sub))
            }
        },
        None => {
            proof {
                lemma_count_char_zero(hp@, '.');
            }
            SubdomainMode::DirectProtocol
        },
    }
}

/// Full mode decision for a request.
pub open spec fn detect_mode_model(host: Seq<char>, uri: Seq<char>) -> ModeModel {
    if is_localhost_seq(host) {
        match query_of(uri) {
            Some(q) => match override_of(q) {
                Some(m) => m,
                None => mode_from_host(host),
            },
            None => mode_from_host(host),
        }
    } else {
        mode_from_host(host)
    }
}

/// Classifies a request by host and URI; on local hosts a `_subdomain` query
/// parameter overrides the host-derived mode.
pub fn detect_mode(host: &str, uri: &str) -> (r: SubdomainMode)
    ensures
        r@ == detect_mode_model(host@, uri@),
{
    if is_localhost(host) {
        let ulen: usize = uri.unicode_len();
        match str_find_char(uri, '?') {
            Some(q) => {
                let query = uri.substring_char(q + 1, ulen);
                match check_query_override(query) {
                    Some(m) => {
                        return m;
                    },
                    None => {},
                }
            },
            None => {},
        }
    }
    detect_mode_from_host(host)
}

} // verus!
