//! Whether a Linux process status file grants `CAP_NET_ADMIN`, the
//! capability that lets sing-box create a TUN device without a password
//! prompt on every launch.
use vstd::prelude::*;

use crate::text::{
    find, find_exec, lemma_find_from_bounds, one, parse_unsigned, parse_unsigned_exec, slice_of,
    strip_prefix, starts_with_exec, to_chars, trim, trim_exec,
};

verus! {

broadcast use vstd::slice::group_slice_axioms;

/// Bit index of `CAP_NET_ADMIN` in a capability mask.
pub const CAP_NET_ADMIN_BIT: u64 = 12;

/// A line as `str::lines` yields it: a carriage return before the newline
/// that ended it is not part of it.
pub open spec fn line_text(line: Seq<char>, newline_terminated: bool) -> Seq<char> {
    if newline_terminated && line.len() > 0 && line.last() == '\r' {
        line.drop_last()
    } else {
        line
    }
}

/// The trimmed value of the first line of `s` that starts with `CapEff:`.
pub open spec fn cap_eff_value(s: Seq<char>) -> Option<Seq<char>>
    decreases s.len(),
{
    if s.len() == 0 {
        None
    } else {
        match find(s, seq!['\n']) {
            Some(i) => if 0 <= i < s.len() {
                match strip_prefix(line_text(s.subrange(0, i), true), "CapEff:"@) {
                    Some(v) => Some(trim(v)),
                    None => cap_eff_value(s.subrange(i + 1, s.len() as int)),
                }
            } else {
                None
            },
            None => match strip_prefix(line_text(s, false), "CapEff:"@) {
                Some(v) => Some(trim(v)),
                None => None,
            },
        }
    }
}

/// The effective capability set grants `CAP_NET_ADMIN`: its `CapEff:` line
/// is a hex mask that fits in 64 bits and has bit 12 set. A missing line or
/// an unreadable mask counts as not granted.
pub open spec fn has_cap_net_admin(status: Seq<char>) -> bool {
    match cap_eff_value(status) {
        Some(hex) => match parse_unsigned(hex, 16, u64::MAX as nat) {
            Some(mask) => (mask / 4096) % 2 == 1,
            None => false,
        },
        None => false,
    }
}

fn line_text_exec(line: Vec<char>, newline_terminated: bool) -> (r: Vec<char>)
    ensures
        r@ == line_text(line@, newline_terminated),
{
    if newline_terminated && line.len() > 0 && line[line.len() - 1] == '\r' {
        slice_of(line.as_slice(), 0, line.len() - 1)
    } else {
        line
    }
}

fn cap_eff_value_exec(s: &[char]) -> (r: Option<Vec<char>>)
    ensures
        r matches Some(v) ==> cap_eff_value(s@) == Some(v@),
        r is None ==> cap_eff_value(s@) is None,
    decreases s@.len(),
{
    if s.len() == 0 {
        return None;
    }
    let prefix = to_chars("CapEff:");
    let nl = one('\n');
    match find_exec(s, nl.as_slice()) {
        Some(i) => {
            proof {
                lemma_find_from_bounds(s@, nl@, 0);
            }
            let sl = s.len();
            assert(i + 1 <= sl);
            let line = line_text_exec(slice_of(s, 0, i), true);
            if starts_with_exec(line.as_slice(), prefix.as_slice()) {
                let v = slice_of(line.as_slice(), prefix.len(), line.len());
                Some(trim_exec(v.as_slice()))
            } else {
                let rest = slice_of(s, i + 1, sl);
                cap_eff_value_exec(rest.as_slice())
            }
        },
        None => {
            let line = line_text_exec(slice_of(s, 0, s.len()), false);
            proof {
                assert(s@.subrange(0, s@.len() as int) == s@);
            }
            if starts_with_exec(line.as_slice(), prefix.as_slice()) {
                let v = slice_of(line.as_slice(), prefix.len(), line.len());
                Some(trim_exec(v.as_slice()))
            } else {
                None
            }
        },
    }
}

/// Reads the `CapEff:` line of a `/proc/<pid>/status` text and reports
/// whether the effective set includes `CAP_NET_ADMIN`. A missing or
/// unparseable line is "not present", never an error: the caller falls back
/// to the polkit prompt, which is always safe.
pub fn parse_cap_net_admin(proc_status: &str) -> (b: bool)
    ensures
        b == has_cap_net_admin(proc_status@),
{
    let chars = to_chars(proc_status);
    match cap_eff_value_exec(chars.as_slice()) {
        Some(hex) => match parse_unsigned_exec(hex.as_slice(), 16, u64::MAX) {
            Some(mask) => {
                let bit = (mask >> CAP_NET_ADMIN_BIT) & 1;
                assert(((mask >> 12u64) & 1u64) == (mask / 4096) % 2) by (bit_vector);
                bit == 1
            },
            None => false,
        },
        None => false,
    }
}

} // verus!
