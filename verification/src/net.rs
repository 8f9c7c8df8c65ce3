//! IPv4 endpoints and address ranges, as the ignore list needs them.

use vstd::prelude::*;
use vstd::string::*;
use crate::text::{magnitude, parse_digits};

verus! {

/// First position at or after `i` that holds `c`, or the length (or `i`
/// itself where `i` is past the end).
pub open spec fn find_char(s: Seq<char>, c: char, i: int) -> int
    decreases s.len() - i,
{
    if 0 <= i < s.len() && s[i] != c {
        find_char(s, c, i + 1)
    } else {
        i
    }
}

fn scan_char(s: &str, n: usize, c: char, i: usize) -> (r: usize)
    requires
        n == s@.len(),
        i <= n,
    ensures
        r == find_char(s@, c, i as int),
        i <= r <= n,
{
    let mut j: usize = i;
    while j < n && s.get_char(j) != c
        invariant
            n == s@.len(),
            i <= j <= n,
            find_char(s@, c, j as int) == find_char(s@, c, i as int),
        decreases n - j,
    {
        j = j + 1;
    }
    j
}

/// A number of at most `digits` digits and at most `limit`, written without
/// sign.
pub open spec fn bounded_of(s: Seq<char>, digits: nat, limit: u64) -> Option<u64> {
    match magnitude(s) {
        Some(v) => if s.len() <= digits && v <= limit {
            Some(v)
        } else {
            None
        },
        None => None,
    }
}

/// One part of a dotted address: a number up to 255 of one to three digits,
/// with no zero before another digit.
pub open spec fn octet_of(s: Seq<char>) -> Option<u64> {
    if s.len() > 1 && s[0] == '0' {
        None
    } else {
        bounded_of(s, 3, 255)
    }
}

/// The address with these four parts, the first the most significant.
pub open spec fn address(a: u64, b: u64, c: u64, d: u64) -> u32
    recommends
        a <= 255,
        b <= 255,
        c <= 255,
        d <= 255,
{
    (a * 0x100_0000 + b * 0x1_0000 + c * 0x100 + d) as u32
}

/// The address that a dotted quad writes.
pub open spec fn ipv4_of(s: Seq<char>) -> Option<u32> {
    let d1 = find_char(s, '.', 0);
    let d2 = find_char(s, '.', d1 + 1);
    let d3 = find_char(s, '.', d2 + 1);
    if 0 <= d1 < d2 && d2 < d3 && d3 < s.len() {
        match (
            octet_of(s.subrange(0, d1)),
            octet_of(s.subrange(d1 + 1, d2)),
            octet_of(s.subrange(d2 + 1, d3)),
            octet_of(s.subrange(d3 + 1, s.len() as int)),
        ) {
            (Some(a), Some(b), Some(c), Some(d)) => Some(address(a, b, c, d)),
            _ => None,
        }
    } else {
        None
    }
}

/// The address of an endpoint written as a dotted quad, a colon and a port
/// up to 65535. Any other text has none.
pub open spec fn endpoint_address(s: Seq<char>) -> Option<u32> {
    let colon = find_char(s, ':', 0);
    if 0 <= colon < s.len() && bounded_of(s.subrange(colon + 1, s.len() as int), 5, 65535)
        is Some {
        ipv4_of(s.subrange(0, colon))
    } else {
        None
    }
}

/// The range that a text writes: a dotted quad alone, which is the range of
/// that one address, or a dotted quad, a slash and a prefix length up to 32.
pub open spec fn subnet_of(s: Seq<char>) -> Option<(u32, u8)> {
    let slash = find_char(s, '/', 0);
    if 0 <= slash < s.len() {
        match (ipv4_of(s.subrange(0, slash)), bounded_of(
            s.subrange(slash + 1, s.len() as int),
            2,
            32,
        )) {
            (Some(base), Some(len)) => Some((base, len as u8)),
            _ => None,
        }
    } else {
        match ipv4_of(s) {
            Some(base) => Some((base, 32u8)),
            None => None,
        }
    }
}

/// Whether `ip` lies in the range of `base` with prefix length `len`: the
/// two agree in their first `len` bits.
pub open spec fn in_subnet(ip: u32, base: u32, len: u8) -> bool {
    len == 0 || (len <= 32 && (ip >> ((32 - len) as u32)) == (base >> ((32 - len) as u32)))
}

/// Whether the range that `range` writes holds `ip`.
pub open spec fn range_holds(range: Seq<char>, ip: u32) -> bool {
    match subnet_of(range) {
        Some(n) => in_subnet(ip, n.0, n.1),
        None => false,
    }
}

/// Whether an endpoint's address lies in one of the ranges.
pub open spec fn ignored(ranges: Seq<String>, endpoint: Option<Seq<char>>) -> bool {
    match endpoint {
        Some(e) => match endpoint_address(e) {
            Some(ip) => exists|i: int| 0 <= i < ranges.len() && range_holds(#[trigger] ranges[i]@, ip),
            None => false,
        },
        None => false,
    }
}

fn parse_bounded(s: &str, digits: usize, limit: u64) -> (r: Option<u64>)
    ensures
        r == bounded_of(s@, digits as nat, limit),
{
    match parse_digits(s) {
        Some(v) => if s.unicode_len() <= digits && v <= limit {
            Some(v)
        } else {
            None
        },
        None => None,
    }
}

fn parse_octet(s: &str) -> (r: Option<u64>)
    ensures
        r == octet_of(s@),
        r matches Some(v) ==> v <= 255,
{
    if s.unicode_len() > 1 && s.get_char(0) == '0' {
        None
    } else {
        parse_bounded(s, 3, 255)
    }
}

/// Reads a dotted quad.
pub fn parse_ipv4(s: &str) -> (r: Option<u32>)
    ensures
        r == ipv4_of(s@),
{
    let n = s.unicode_len();
    let d1 = scan_char(s, n, '.', 0);
    if d1 >= n {
        return None;
    }
    let d2 = scan_char(s, n, '.', d1 + 1);
    if d2 >= n {
        return None;
    }
    let d3 = scan_char(s, n, '.', d2 + 1);
    if d3 >= n {
        return None;
    }
    let a = parse_octet(s.substring_char(0, d1));
    let b = parse_octet(s.substring_char(d1 + 1, d2));
    let c = parse_octet(s.substring_char(d2 + 1, d3));
    let d = parse_octet(s.substring_char(d3 + 1, n));
    match (a, b, c, d) {
        (Some(a), Some(b), Some(c), Some(d)) => {
            let v: u64 = a * 0x100_0000 + b * 0x1_0000 + c * 0x100 + d;
            Some(v as u32)
        },
        _ => None,
    }
}

/// Reads the address of an endpoint.
pub fn parse_endpoint_address(s: &str) -> (r: Option<u32>)
    ensures
        r == endpoint_address(s@),
{
    let n = s.unicode_len();
    let colon = scan_char(s, n, ':', 0);
    if colon >= n {
        return None;
    }
    match parse_bounded(s.substring_char(colon + 1, n), 5, 65535) {
        Some(_) => parse_ipv4(s.substring_char(0, colon)),
        None => None,
    }
}

/// Reads an address range.
pub fn parse_subnet(s: &str) -> (r: Option<(u32, u8)>)
    ensures
        r == subnet_of(s@),
{
    let n = s.unicode_len();
    let slash = scan_char(s, n, '/', 0);
    if slash >= n {
        return match parse_ipv4(s) {
            Some(base) => Some((base, 32u8)),
            None => None,
        };
    }
    let base = parse_ipv4(s.substring_char(0, slash));
    let len = parse_bounded(s.substring_char(slash + 1, n), 2, 32);
    match (base, len) {
        (Some(base), Some(len)) => Some((base, len as u8)),
        _ => None,
    }
}

/// Whether an address lies in a range.
pub fn subnet_contains(ip: u32, base: u32, len: u8) -> (r: bool)
    ensures
        r == in_subnet(ip, base, len),
{
    if len == 0 {
        true
    } else if len > 32 {
        false
    } else {
        let shift: u32 = (32 - len) as u32;
        (ip >> shift) == (base >> shift)
    }
}

/// Whether the endpoint's address lies in one of the ranges.
pub fn is_ignored(ranges: &Vec<String>, endpoint: &Option<String>) -> (r: bool)
    ensures
        r == ignored(ranges@, crate::wg::option_view(*endpoint)),
{
    let ip = match endpoint {
        Some(e) => match parse_endpoint_address(e.as_str()) {
            Some(ip) => ip,
            None => {
                return false;
            },
        },
        None => {
            return false;
        },
    };
    let mut k: usize = 0;
    while k < ranges.len()
        invariant
            k <= ranges.len(),
            crate::wg::option_view(*endpoint) matches Some(e) && endpoint_address(e) == Some(ip),
            forall|i: int| 0 <= i < k ==> !range_holds(#[trigger] ranges[i]@, ip),
        decreases ranges.len() - k,
    {
        match parse_subnet(ranges[k].as_str()) {
            Some(n) => {
                if subnet_contains(ip, n.0, n.1) {
                    assert(range_holds(ranges[k as int]@, ip));
                    return true;
                }
            },
            None => {},
        }
        k = k + 1;
    }
    false
}

} // verus!
