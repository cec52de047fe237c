//! What a routing rule's single match string means.
//!
//! `classify_match` is total: anything that is not `localhost` and does not
//! parse as an address falls through to a domain suffix verbatim. Whether the
//! user typed a sensible pattern is a separate question, answered by
//! `analyze` next to the classifier so the two never drift apart.
use vstd::prelude::*;

use crate::ip::{ip_family, ip_family_of};
use crate::text::{one, contains, find, find_exec, lemma_find_from_bounds, parse_unsigned, parse_unsigned_exec, push_str, slice_of, split_once, split_once_exec, starts_with_exec, string_of, strip_prefix, to_chars, trim, trim_exec};

verus! {

broadcast use {vstd::slice::group_slice_axioms, vstd::string::group_string_axioms};

pub enum Matcher {
    Domain(String),
    DomainSuffix(String),
    IpCidr(String),
}

#[derive(Debug, Clone, Copy, PartialEq, Eq, Structural)]
pub enum MatchKind {
    Domain,
    DomainSuffix,
    IpCidr,
}

/// Codes, not sentences: the wording belongs to the interface.
#[derive(Debug, Clone, Copy, PartialEq, Eq, Structural)]
pub enum MatchWarning {
    Wildcard,
    Url,
    NonAscii,
    InvalidPrefix,
    InvalidDomain,
}

#[derive(Debug, Clone, PartialEq)]
pub struct MatchAnalysis {
    /// What should be stored, which is not always what was typed.
    pub normalized: String,
    pub kind: MatchKind,
    pub warning: Option<MatchWarning>,
}

impl Matcher {
    pub open spec fn kind(&self) -> MatchKind {
        match self {
            Matcher::Domain(_) => MatchKind::Domain,
            Matcher::DomainSuffix(_) => MatchKind::DomainSuffix,
            Matcher::IpCidr(_) => MatchKind::IpCidr,
        }
    }

    pub open spec fn value(&self) -> Seq<char> {
        match self {
            Matcher::Domain(s) => s@,
            Matcher::DomainSuffix(s) => s@,
            Matcher::IpCidr(s) => s@,
        }
    }
}

pub open spec fn lower_ascii(c: char) -> char {
    if 'A' <= c && c <= 'Z' {
        ((c as u32) + 32) as char
    } else {
        c
    }
}

/// `str::eq_ignore_ascii_case`, read character by character.
pub open spec fn eq_ignore_ascii_case(a: Seq<char>, b: Seq<char>) -> bool {
    a.len() == b.len() && forall|i: int| 0 <= i < a.len() ==> lower_ascii(a[i]) == lower_ascii(b[i])
}

fn lower_ascii_exec(c: char) -> (r: char)
    ensures
        r == lower_ascii(c),
{
    if 'A' <= c && c <= 'Z' {
        ((c as u8) + 32) as char
    } else {
        c
    }
}

fn eq_ignore_ascii_case_exec(a: &[char], b: &[char]) -> (r: bool)
    ensures
        r == eq_ignore_ascii_case(a@, b@),
{
    if a.len() != b.len() {
        return false;
    }
    let mut i: usize = 0;
    while i < a.len()
        invariant
            a@.len() == b@.len(),
            i <= a@.len(),
            forall|j: int| 0 <= j < i ==> lower_ascii(a@[j]) == lower_ascii(b@[j]),
        decreases a.len() - i,
    {
        if lower_ascii_exec(a[i]) != lower_ascii_exec(b[i]) {
            return false;
        }
        i = i + 1;
    }
    true
}

/// The matcher a text stands for, given what the address parser makes of
/// the part before its first `/` (`prefix_family`, 0 when there is no `/`)
/// and of the whole text (`family`).
pub open spec fn matcher_given(raw: Seq<char>, prefix_family: u8, family: u8) -> (MatchKind, Seq<char>) {
    if eq_ignore_ascii_case(raw, "localhost"@) {
        (MatchKind::Domain, raw)
    } else if split_once(raw, seq!['/']) is Some && prefix_family != 0 {
        (MatchKind::IpCidr, raw)
    } else if family == 4 {
        (MatchKind::IpCidr, raw + "/32"@)
    } else if family == 6 {
        (MatchKind::IpCidr, raw + "/128"@)
    } else {
        (MatchKind::DomainSuffix, raw)
    }
}

/// The address family of the text before the first `/`, or 0 without one.
pub open spec fn prefix_family_of(raw: Seq<char>) -> u8 {
    match split_once(raw, seq!['/']) {
        Some((a, _)) => ip_family_of(a),
        None => 0,
    }
}

/// The matcher `classify_match` produces for `raw`.
pub open spec fn matcher_of(raw: Seq<char>) -> (MatchKind, Seq<char>) {
    matcher_given(raw, prefix_family_of(raw), ip_family_of(raw))
}

/// The classification, once the address parser has answered for the part
/// before the first `/` and for the whole text.
pub fn matcher_from(raw: &str, prefix_family: u8, family: u8) -> (m: Matcher)
    ensures
        (m.kind(), m.value()) == matcher_given(raw@, prefix_family, family),
{
    let chars = to_chars(raw);
    let localhost = to_chars("localhost");
    let slash = one('/');
    if eq_ignore_ascii_case_exec(chars.as_slice(), localhost.as_slice()) {
        return Matcher::Domain(string_of(chars.as_slice(), 0, chars.len()));
    }
    let has_slash = find_exec(chars.as_slice(), slash.as_slice()).is_some();
    if has_slash && prefix_family != 0 {
        return Matcher::IpCidr(string_of(chars.as_slice(), 0, chars.len()));
    }
    if family == 4 {
        let mut s = string_of(chars.as_slice(), 0, chars.len());
        push_str(&mut s, "/32");
        return Matcher::IpCidr(s);
    }
    if family == 6 {
        let mut s = string_of(chars.as_slice(), 0, chars.len());
        push_str(&mut s, "/128");
        return Matcher::IpCidr(s);
    }
    Matcher::DomainSuffix(string_of(chars.as_slice(), 0, chars.len()))
}

/// Asks the address parser about the part of `chars` before its first `/`.
fn prefix_family(chars: &Vec<char>) -> (r: u8)
    ensures
        r == prefix_family_of(chars@),
{
    let slash = one('/');
    match split_once_exec(chars.as_slice(), slash.as_slice()) {
        Some((a, _)) => {
            ip_family(a.as_slice())
        },
        None => 0,
    }
}

/// Which matcher a rule's match string becomes in the generated config.
pub fn classify_match(raw: &str) -> (m: Matcher)
    ensures
        (m.kind(), m.value()) == matcher_of(raw@),
{
    let chars = to_chars(raw);
    let pf = prefix_family(&chars);
    let f = ip_family(chars.as_slice());
    matcher_from(raw, pf, f)
}

/// A leading dot is how people write a suffix, and it is what a domain
/// suffix already means, so it is dropped after trimming.
pub open spec fn normalized(raw: Seq<char>) -> Seq<char> {
    let t = trim(raw);
    match strip_prefix(t, seq!['.']) {
        Some(rest) => rest,
        None => t,
    }
}

pub fn normalize(raw: &str) -> (s: String)
    ensures
        s@ == normalized(raw@),
{
    let chars = to_chars(raw);
    let t = trim_exec(chars.as_slice());
    let dot = one('.');
    if starts_with_exec(t.as_slice(), dot.as_slice()) {
        string_of(t.as_slice(), 1, t.len())
    } else {
        string_of(t.as_slice(), 0, t.len())
    }
}

pub open spec fn is_alnum_or_dash(c: char) -> bool {
    ('a' <= c && c <= 'z') || ('A' <= c && c <= 'Z') || ('0' <= c && c <= '9') || c == '-'
}

/// One label of a plausible domain: 1 to 63 letters, digits or dashes, not
/// starting or ending with a dash.
pub open spec fn label_ok(l: Seq<char>) -> bool {
    &&& l.len() > 0
    &&& l.len() <= 63
    &&& l[0] != '-'
    &&& l.last() != '-'
    &&& forall|i: int| 0 <= i < l.len() ==> is_alnum_or_dash(l[i])
}

/// Every `.`-separated label of `s` is well formed.
pub open spec fn labels_ok(s: Seq<char>) -> bool
    decreases s.len(),
{
    match find(s, seq!['.']) {
        Some(i) => if 0 <= i < s.len() {
            label_ok(s.subrange(0, i)) && labels_ok(s.subrange(i + 1, s.len() as int))
        } else {
            false
        },
        None => label_ok(s),
    }
}

/// A name with at least one dot whose labels are all well formed.
pub open spec fn plausible_domain(s: Seq<char>) -> bool {
    contains(s, seq!['.']) && labels_ok(s)
}

fn label_ok_exec(l: &[char]) -> (b: bool)
    ensures
        b == label_ok(l@),
{
    if l.len() == 0 || l.len() > 63 || l[0] == '-' || l[l.len() - 1] == '-' {
        return false;
    }
    let mut i: usize = 0;
    while i < l.len()
        invariant
            i <= l@.len(),
            forall|j: int| 0 <= j < i ==> is_alnum_or_dash(l@[j]),
        decreases l.len() - i,
    {
        let c = l[i];
        if !(('a' <= c && c <= 'z') || ('A' <= c && c <= 'Z') || ('0' <= c && c <= '9') || c
            == '-') {
            return false;
        }
        i = i + 1;
    }
    true
}

fn labels_ok_exec(v: &[char]) -> (b: bool)
    ensures
        b == labels_ok(v@),
    decreases v@.len(),
{
    let dot = one('.');
    match find_exec(v, dot.as_slice()) {
        Some(i) => {
            proof {
                lemma_find_from_bounds(v@, dot@, 0);
            }
            let vl = v.len();
            assert(i + 1 <= vl);
            let head = slice_of(v, 0, i);
            let rest = slice_of(v, i + 1, vl);
            label_ok_exec(head.as_slice()) && labels_ok_exec(rest.as_slice())
        },
        None => label_ok_exec(v),
    }
}

fn is_plausible_domain(v: &[char]) -> (b: bool)
    ensures
        b == plausible_domain(v@),
{
    let dot = one('.');
    if find_exec(v, dot.as_slice()).is_none() {
        return false;
    }
    labels_ok_exec(v)
}

pub open spec fn all_ascii(s: Seq<char>) -> bool {
    forall|i: int| 0 <= i < s.len() ==> (s[i] as u32) < 128
}

/// The most specific mistake a non-address match string shows: a wildcard,
/// then a pasted URL, then non-ASCII text, then anything else that is not a
/// plausible domain. `localhost` and plausible domains get none.
pub open spec fn domain_warning_of(v: Seq<char>) -> Option<MatchWarning> {
    if eq_ignore_ascii_case(v, "localhost"@) {
        None
    } else if contains(v, seq!['*']) {
        Some(MatchWarning::Wildcard)
    } else if contains(v, "://"@) || contains(v, seq!['/']) {
        Some(MatchWarning::Url)
    } else if !all_ascii(v) {
        Some(MatchWarning::NonAscii)
    } else if plausible_domain(v) {
        None
    } else {
        Some(MatchWarning::InvalidDomain)
    }
}

fn all_ascii_exec(v: &[char]) -> (b: bool)
    ensures
        b == all_ascii(v@),
{
    let mut i: usize = 0;
    while i < v.len()
        invariant
            i <= v@.len(),
            forall|j: int| 0 <= j < i ==> (v@[j] as u32) < 128,
        decreases v.len() - i,
    {
        if (v[i] as u32) >= 128 {
            return false;
        }
        i = i + 1;
    }
    true
}

fn domain_warning(v: &[char]) -> (w: Option<MatchWarning>)
    ensures
        w == domain_warning_of(v@),
{
    let localhost = to_chars("localhost");
    if eq_ignore_ascii_case_exec(v, localhost.as_slice()) {
        return None;
    }
    let star = one('*');
    if find_exec(v, star.as_slice()).is_some() {
        return Some(MatchWarning::Wildcard);
    }
    let scheme = to_chars("://");
    let slash = one('/');
    if find_exec(v, scheme.as_slice()).is_some() || find_exec(v, slash.as_slice()).is_some() {
        return Some(MatchWarning::Url);
    }
    if !all_ascii_exec(v) {
        return Some(MatchWarning::NonAscii);
    }
    if is_plausible_domain(v) {
        None
    } else {
        Some(MatchWarning::InvalidDomain)
    }
}

/// For an address with a typed `/`: whether its prefix length is out of
/// range for the family of the address before the slash (`addr_family`).
pub open spec fn prefix_invalid(prefix: Seq<char>, addr_family: u8) -> bool {
    let bits: nat = if addr_family == 6 {
        128
    } else {
        32
    };
    match parse_unsigned(prefix, 10, u32::MAX as nat) {
        Some(p) => p > bits,
        None => true,
    }
}

/// What `analyze` reports for an already normalized text, given the address
/// parser's answers for its part before the first `/` and for the whole.
pub open spec fn analysis_given(n: Seq<char>, prefix_family: u8, family: u8) -> (MatchKind, Option<MatchWarning>) {
    let kind = matcher_given(n, prefix_family, family).0;
    if kind == MatchKind::IpCidr {
        match split_once(n, seq!['/']) {
            Some((_, p)) => if prefix_invalid(p, prefix_family) {
                (kind, Some(MatchWarning::InvalidPrefix))
            } else {
                (kind, None)
            },
            None => (kind, None),
        }
    } else {
        (kind, domain_warning_of(n))
    }
}

/// What `analyze` reports for the text the user typed.
pub open spec fn analysis_of(raw: Seq<char>) -> (Seq<char>, MatchKind, Option<MatchWarning>) {
    let n = normalized(raw);
    let a = analysis_given(n, prefix_family_of(n), ip_family_of(n));
    (n, a.0, a.1)
}

/// The analysis of an already normalized text, once the address parser has
/// answered for its part before the first `/` and for the whole text.
pub fn analysis_from(n: String, prefix_family: u8, family: u8) -> (a: MatchAnalysis)
    ensures
        a.normalized@ == n@,
        (a.kind, a.warning) == analysis_given(n@, prefix_family, family),
{
    let m = matcher_from(n.as_str(), prefix_family, family);
    let chars = to_chars(n.as_str());
    let warning = match m {
        Matcher::IpCidr(_) => {
            let slash = one('/');
            match split_once_exec(chars.as_slice(), slash.as_slice()) {
                Some((_, p)) => {
                    let bits: u64 = if prefix_family == 6 {
                        128
                    } else {
                        32
                    };
                    match parse_unsigned_exec(p.as_slice(), 10, 0xffff_ffff) {
                        Some(x) => if x <= bits {
                            None
                        } else {
                            Some(MatchWarning::InvalidPrefix)
                        },
                        None => Some(MatchWarning::InvalidPrefix),
                    }
                },
                None => None,
            }
        },
        _ => domain_warning(chars.as_slice()),
    };
    let kind = match m {
        Matcher::Domain(_) => MatchKind::Domain,
        Matcher::DomainSuffix(_) => MatchKind::DomainSuffix,
        Matcher::IpCidr(_) => MatchKind::IpCidr,
    };
    MatchAnalysis { normalized: n, kind, warning }
}

/// Normalizes what the user typed, classifies it exactly as the config
/// generator will, and names the mistake it most likely contains.
pub fn analyze(raw: &str) -> (a: MatchAnalysis)
    ensures
        (a.normalized@, a.kind, a.warning) == analysis_of(raw@),
{
    let n = normalize(raw);
    let chars = to_chars(n.as_str());
    let pf = prefix_family(&chars);
    let f = ip_family(chars.as_slice());
    analysis_from(n, pf, f)
}

/// The hint shown under the match field and the rule that ends up in the
/// config never disagree: the kind `analyze` reports is the kind of the
/// matcher `classify_match` builds from the normalized text.
pub proof fn lemma_analysis_agrees_with_config(raw: Seq<char>)
    ensures
        analysis_of(raw).0 == normalized(raw),
        analysis_of(raw).1 == matcher_of(normalized(raw)).0,
{
}

/// Only an address whose typed prefix is out of range for its family gets
/// `InvalidPrefix`, and addresses get no other warning.
pub proof fn lemma_addresses_only_warn_about_prefixes(raw: Seq<char>)
    ensures
        analysis_of(raw).1 == MatchKind::IpCidr ==> (analysis_of(raw).2 is None || analysis_of(
            raw,
        ).2 == Some(MatchWarning::InvalidPrefix)),
        analysis_of(raw).1 != MatchKind::IpCidr ==> analysis_of(raw).2 != Some(
            MatchWarning::InvalidPrefix,
        ),
{
}

} // verus!
