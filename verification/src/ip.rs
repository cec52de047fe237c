//! The textual IP address grammar: dotted-quad IPv4, and IPv6 with its
//! optional `::` compression and trailing embedded IPv4 address, as
//! `std::net::IpAddr` reads them.
use vstd::prelude::*;

use crate::text::{one, digit_value, digits_value, find, find_exec, hex_value, lemma_find_from_bounds, parse_unsigned_exec, slice_of, split_once, split_once_exec, to_chars, unsigned_body};

verus! {

broadcast use vstd::slice::group_slice_axioms;

/// Every character of a text with a value in base `radix` is a digit.
pub proof fn lemma_digits_all(s: Seq<char>, radix: nat)
    ensures
        digits_value(s, radix) is Some ==> forall|i: int|
            0 <= i < s.len() ==> digit_value(#[trigger] s[i], radix) is Some,
    decreases s.len(),
{
    if s.len() > 0 {
        lemma_digits_all(s.drop_last(), radix);
        if digits_value(s, radix) is Some {
            assert forall|i: int| 0 <= i < s.len() implies digit_value(#[trigger] s[i], radix) is Some by {
                if i < s.len() - 1 {
                    assert(s[i] == s.drop_last()[i]);
                }
            }
        }
    }
}

/// One IPv4 octet: one to three decimal digits, no leading zero unless the
/// octet is `0` itself, and at most 255.
pub open spec fn dec_octet(s: Seq<char>) -> bool {
    &&& 1 <= s.len() <= 3
    &&& !(s.len() > 1 && s[0] == '0')
    &&& digits_value(s, 10) matches Some(v) && v <= 255
}

/// `n` octets separated by dots.
pub open spec fn octets(s: Seq<char>, n: nat) -> bool
    decreases n,
{
    if n <= 1 {
        dec_octet(s)
    } else {
        match find(s, seq!['.']) {
            Some(i) => 0 <= i < s.len() && dec_octet(s.subrange(0, i)) && octets(
                s.subrange(i + 1, s.len() as int),
                (n - 1) as nat,
            ),
            None => false,
        }
    }
}

pub open spec fn ipv4(s: Seq<char>) -> bool {
    octets(s, 4)
}

/// One IPv6 group: one to four hex digits.
pub open spec fn hex_group(s: Seq<char>) -> bool {
    1 <= s.len() <= 4 && forall|i: int| 0 <= i < s.len() ==> hex_value(s[i]) is Some
}

/// How many 16-bit groups a non-empty `:`-separated list stands for, an
/// embedded IPv4 address at its end (when allowed) counting as two.
pub open spec fn group_count(s: Seq<char>, allow_v4: bool) -> Option<nat>
    decreases s.len(),
{
    if allow_v4 && ipv4(s) {
        Some(2)
    } else {
        match find(s, seq![':']) {
            Some(i) => if 0 <= i < s.len() && hex_group(s.subrange(0, i)) {
                match group_count(s.subrange(i + 1, s.len() as int), allow_v4) {
                    Some(c) => Some(c + 1),
                    None => None,
                }
            } else {
                None
            },
            None => if hex_group(s) {
                Some(1)
            } else {
                None
            },
        }
    }
}

/// Like `group_count`, but an empty text is an empty list.
pub open spec fn list_count(s: Seq<char>, allow_v4: bool) -> Option<nat> {
    if s.len() == 0 {
        Some(0)
    } else {
        group_count(s, allow_v4)
    }
}

/// Eight groups in full, or fewer around a single `::` that stands for at
/// least one zero group; an embedded IPv4 address only at the end.
pub open spec fn ipv6(s: Seq<char>) -> bool {
    match split_once(s, "::"@) {
        None => group_count(s, true) == Some(8nat),
        Some((h, t)) => match (list_count(h, false), list_count(t, true)) {
            (Some(a), Some(b)) => a + b <= 7,
            _ => false,
        },
    }
}

/// The family `IpAddr` parses a text as: 4, 6, or 0 for no address.
pub open spec fn ip_family_of(s: Seq<char>) -> u8 {
    if ipv4(s) {
        4
    } else if ipv6(s) {
        6
    } else {
        0
    }
}

fn dec_octet_exec(s: &[char]) -> (b: bool)
    ensures
        b == dec_octet(s@),
{
    if s.len() < 1 || s.len() > 3 || (s.len() > 1 && s[0] == '0') {
        return false;
    }
    if s[0] == '+' {
        proof {
            lemma_digits_all(s@, 10);
        }
        return false;
    }
    assert(unsigned_body(s@) == s@);
    parse_unsigned_exec(s, 10, 255).is_some()
}

fn octets_exec(s: &[char], n: u64) -> (b: bool)
    ensures
        b == octets(s@, n as nat),
    decreases n,
{
    if n <= 1 {
        return dec_octet_exec(s);
    }
    let dot = one('.');
    match find_exec(s, dot.as_slice()) {
        Some(i) => {
            proof {
                lemma_find_from_bounds(s@, dot@, 0);
            }
            let sl = s.len();
            assert(i + 1 <= sl);
            let head = slice_of(s, 0, i);
            let rest = slice_of(s, i + 1, sl);
            dec_octet_exec(head.as_slice()) && octets_exec(rest.as_slice(), n - 1)
        },
        None => false,
    }
}

pub fn ipv4_exec(s: &[char]) -> (b: bool)
    ensures
        b == ipv4(s@),
{
    octets_exec(s, 4)
}

fn hex_group_exec(s: &[char]) -> (b: bool)
    ensures
        b == hex_group(s@),
{
    if s.len() < 1 || s.len() > 4 {
        return false;
    }
    let mut i: usize = 0;
    while i < s.len()
        invariant
            i <= s@.len(),
            forall|j: int| 0 <= j < i ==> hex_value(s@[j]) is Some,
        decreases s.len() - i,
    {
        let c = s[i];
        if !(('0' <= c && c <= '9') || ('a' <= c && c <= 'f') || ('A' <= c && c <= 'F')) {
            return false;
        }
        i = i + 1;
    }
    true
}

fn group_count_exec(s: &[char], allow_v4: bool) -> (r: Option<u64>)
    ensures
        r matches Some(c) ==> group_count(s@, allow_v4) == Some(c as nat),
        r is None ==> group_count(s@, allow_v4) is None,
    decreases s@.len(),
{
    if allow_v4 && ipv4_exec(s) {
        return Some(2);
    }
    let colon = one(':');
    match find_exec(s, colon.as_slice()) {
        Some(i) => {
            proof {
                lemma_find_from_bounds(s@, colon@, 0);
            }
            let sl = s.len();
            assert(i + 1 <= sl);
            let head = slice_of(s, 0, i);
            if !hex_group_exec(head.as_slice()) {
                return None;
            }
            let rest = slice_of(s, i + 1, sl);
            match group_count_exec(rest.as_slice(), allow_v4) {
                Some(c) => {
                    proof {
                        lemma_group_count_bounded(rest@, allow_v4);
                    }
                    assert(c < s.len());
                    Some(c + 1)
                },
                None => None,
            }
        },
        None => if hex_group_exec(s) {
            Some(1)
        } else {
            None
        },
    }
}

/// A group list is never longer than its text.
proof fn lemma_group_count_bounded(s: Seq<char>, allow_v4: bool)
    ensures
        group_count(s, allow_v4) matches Some(c) ==> c <= s.len(),
    decreases s.len(),
{
    if allow_v4 && ipv4(s) {
        reveal_with_fuel(octets, 4);
        lemma_find_from_bounds(s, seq!['.'], 0);
    } else {
        lemma_find_from_bounds(s, seq![':'], 0);
        match find(s, seq![':']) {
            Some(i) => if 0 <= i < s.len() && hex_group(s.subrange(0, i)) {
                lemma_group_count_bounded(s.subrange(i + 1, s.len() as int), allow_v4);
            },
            None => {},
        }
    }
}

fn list_count_exec(s: &[char], allow_v4: bool) -> (r: Option<u64>)
    ensures
        r matches Some(c) ==> list_count(s@, allow_v4) == Some(c as nat),
        r is None ==> list_count(s@, allow_v4) is None,
{
    if s.len() == 0 {
        Some(0)
    } else {
        group_count_exec(s, allow_v4)
    }
}

pub fn ipv6_exec(s: &[char]) -> (b: bool)
    ensures
        b == ipv6(s@),
{
    let sep = to_chars("::");
    match split_once_exec(s, sep.as_slice()) {
        None => match group_count_exec(s, true) {
            Some(c) => c == 8,
            None => false,
        },
        Some((h, t)) => match (list_count_exec(h.as_slice(), false), list_count_exec(t.as_slice(), true)) {
            (Some(a), Some(b)) => {
                if a > 7 || b > 7 {
                    false
                } else {
                    a + b <= 7
                }
            },
            _ => false,
        },
    }
}

/// The family `IpAddr` parses the text as: 4, 6, or 0 for no address.
pub fn ip_family(s: &[char]) -> (r: u8)
    ensures
        r == ip_family_of(s@),
{
    if ipv4_exec(s) {
        4
    } else if ipv6_exec(s) {
        6
    } else {
        0
    }
}

} // verus!
