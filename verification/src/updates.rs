//! Whether a published release is newer than the running version.
//!
//! Versions are handled as their text; the `semver` crate reads them.
use vstd::prelude::*;

use crate::text::{one, slice_of, starts_with_exec, string_of, to_chars};

verus! {

broadcast use {vstd::slice::group_slice_axioms, vstd::string::group_string_axioms};

/// What the sidebar needs to offer the update: the version and where to get it.
#[derive(Debug, Clone, PartialEq, Eq)]
pub struct UpdateInfo {
    pub version: String,
    pub url: String,
}

/// The part of a published release that decides whether to offer it.
pub struct GithubRelease {
    pub tag_name: String,
    pub html_url: String,
}

/// Whether `semver::Version::parse` accepts `s`.
pub uninterp spec fn semver_valid(s: Seq<char>) -> bool;

/// Whether the version `a` has higher precedence than the version `b`, as
/// `>` on `semver::Version` orders them (both text that parses).
pub uninterp spec fn semver_newer(a: Seq<char>, b: Seq<char>) -> bool;

/// How `semver::Version` displays the version `s` parses to.
pub uninterp spec fn semver_display(s: Seq<char>) -> Seq<char>;

/// `semver::Version::parse(s).is_ok()`. Claimed: the named check of `s`.
#[verifier::external_body]
fn parses_as_version(s: &str) -> (b: bool)
    ensures
        b == semver_valid(s@),
{
    semver::Version::parse(s).is_ok()
}

/// `>` on the `semver::Version`s that `a` and `b` parse to. Claimed: the
/// named order of `a` and `b`. Both parse, so neither parse fails.
#[verifier::external_body]
fn newer_version(a: &str, b: &str) -> (r: bool)
    requires
        semver_valid(a@),
        semver_valid(b@),
    ensures
        r == semver_newer(a@, b@),
{
    match (semver::Version::parse(a), semver::Version::parse(b)) {
        (Ok(x), Ok(y)) => x > y,
        _ => false,
    }
}

/// `Display` of the `semver::Version` that `s` parses to. Claimed: the named
/// display of `s`.
#[verifier::external_body]
fn version_text(s: &str) -> (r: String)
    requires
        semver_valid(s@),
    ensures
        r@ == semver_display(s@),
{
    match semver::Version::parse(s) {
        Ok(v) => v.to_string(),
        Err(_) => String::new(),
    }
}

/// A tag without the conventional leading `v`.
pub open spec fn tag_version(tag: Seq<char>) -> Seq<char> {
    if tag.len() > 0 && tag[0] == 'v' {
        tag.subrange(1, tag.len() as int)
    } else {
        tag
    }
}

/// Whether a release tagged `tag` is offered over the running `current`.
pub open spec fn offered(current: Seq<char>, tag: Seq<char>) -> bool {
    let candidate = tag_version(tag);
    semver_valid(current) && semver_valid(candidate) && semver_newer(candidate, current)
}

/// Compares a release tag against the running version `current`. Tags are
/// conventionally prefixed with `v`; anything that is not a semver version
/// is ignored rather than guessed at.
pub fn newer_than(current: &str, release: &GithubRelease) -> (r: Option<UpdateInfo>)
    ensures
        offered(current@, release.tag_name@) ==> (r matches Some(info) && info.version@
            == semver_display(tag_version(release.tag_name@)) && info.url@ == release.html_url@),
        !offered(current@, release.tag_name@) ==> r is None,
{
    let chars = to_chars(release.tag_name.as_str());
    let v = one('v');
    let tag = if starts_with_exec(chars.as_slice(), v.as_slice()) {
        assert(chars@.subrange(0, 1)[0] == 'v');
        let rest = slice_of(chars.as_slice(), 1, chars.len());
        assert(rest@.subrange(0, rest@.len() as int) =~= rest@);
        string_of(rest.as_slice(), 0, rest.len())
    } else {
        proof {
            if chars@.len() > 0 && chars@[0] == 'v' {
                assert(chars@.subrange(0, 1) =~= seq!['v']);
            }
        }
        assert(chars@.subrange(0, chars@.len() as int) =~= chars@);
        string_of(chars.as_slice(), 0, chars.len())
    };
    assert(tag@ =~= tag_version(release.tag_name@));
    if !parses_as_version(current) || !parses_as_version(tag.as_str()) {
        return None;
    }
    if newer_version(tag.as_str(), current) {
        Some(UpdateInfo { version: version_text(tag.as_str()), url: release.html_url.clone() })
    } else {
        None
    }
}

} // verus!
