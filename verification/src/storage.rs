//! The rules the store enforces before it writes: what a name may be, which
//! moves are allowed, what a reorder must hold, and how the two connection
//! modes stay exclusive. The queries themselves run around the library.
use vstd::prelude::*;

use crate::clock::{millis, since_epoch, system_now};
use crate::json::opt_chars;
use crate::models::{is_literal, StorageError};
use crate::text::{decimal, push_decimal, string_of, to_chars, trim, trim_exec};

verus! {

broadcast use {vstd::slice::group_slice_axioms, vstd::string::group_string_axioms};

/// A partial update of the settings row: `None` leaves a column as it is.
pub struct SettingsPatch<'a> {
    pub theme: Option<&'a str>,
    pub language: Option<&'a str>,
    pub startup: Option<bool>,
    pub tun_mode: Option<bool>,
    pub system_proxy: Option<bool>,
    pub auto_connect: Option<bool>,
    pub geo_lookup: Option<bool>,
    pub tun_interface: Option<&'a str>,
    pub auto_update_subscriptions: Option<bool>,
    pub subscription_update_interval: Option<&'a str>,
    pub custom_subscription_update_minutes: Option<i64>,
    pub group_sort: Option<&'a str>,
    pub log_level: Option<&'a str>,
    pub test_url: Option<&'a str>,
}

/// A rejected input, with the message the interface shows.
pub open spec fn invalid(e: StorageError, message: Seq<char>) -> bool {
    e matches StorageError::InvalidInput(m) && m@ == message
}

/// The connection-mode columns a patch writes: the modes are exclusive, so
/// turning one on turns the other off.
pub open spec fn modes_written(tun_mode: Option<bool>, system_proxy: Option<bool>) -> (Option<bool>, Option<bool>) {
    (
        if tun_mode is Some {
            tun_mode
        } else if system_proxy == Some(true) {
            Some(false)
        } else {
            None
        },
        if system_proxy is Some {
            system_proxy
        } else if tun_mode == Some(true) {
            Some(false)
        } else {
            None
        },
    )
}

/// What a patch leaves in a column that held `old`.
pub open spec fn applied(value: Option<bool>, old: bool) -> bool {
    match value {
        Some(v) => v,
        None => old,
    }
}

/// The columns a settings patch writes, once checked.
pub struct CheckedPatch {
    pub tun_mode: Option<bool>,
    pub system_proxy: Option<bool>,
    /// The test URL, trimmed.
    pub test_url: Option<String>,
}

/// `s` trimmed, as a new string.
fn trimmed(s: &str) -> (r: String)
    ensures
        r@ == trim(s@),
{
    let chars = to_chars(s);
    let t = trim_exec(chars.as_slice());
    assert(t@.subrange(0, t@.len() as int) =~= t@);
    string_of(t.as_slice(), 0, t.len())
}

/// Checks a settings patch: an empty test URL is refused, and so is turning
/// TUN and the system proxy on together; otherwise turning one mode on
/// turns the other off.
pub fn check_settings_patch(patch: &SettingsPatch) -> (r: Result<CheckedPatch, StorageError>)
    ensures
        patch.test_url matches Some(u) && trim(u@).len() == 0 ==> (r matches Err(e) && invalid(
            e,
            "test url cannot be empty"@,
        )),
        !(patch.test_url matches Some(u) && trim(u@).len() == 0) && patch.tun_mode == Some(true)
            && patch.system_proxy == Some(true) ==> (r matches Err(e) && invalid(
            e,
            "TUN mode and the system proxy cannot both be on"@,
        )),
        !(patch.test_url matches Some(u) && trim(u@).len() == 0) && !(patch.tun_mode == Some(true)
            && patch.system_proxy == Some(true)) ==> (r matches Ok(c) && (c.tun_mode, c.system_proxy)
            == modes_written(patch.tun_mode, patch.system_proxy) && opt_chars(c.test_url) == match patch.test_url {
            Some(u) => Some(trim(u@)),
            None => None,
        }),
{
    let test_url = match patch.test_url {
        Some(url) => {
            let t = trimmed(url);
            if t.as_str().is_empty() {
                return Err(StorageError::InvalidInput("test url cannot be empty".to_owned()));
            }
            Some(t)
        },
        None => None,
    };
    if patch.tun_mode == Some(true) && patch.system_proxy == Some(true) {
        return Err(
            StorageError::InvalidInput(
                "TUN mode and the system proxy cannot both be on".to_owned(),
            ),
        );
    }
    let tun_mode = match patch.tun_mode {
        Some(v) => Some(v),
        None => if patch.system_proxy == Some(true) {
            Some(false)
        } else {
            None
        },
    };
    let system_proxy = match patch.system_proxy {
        Some(v) => Some(v),
        None => if patch.tun_mode == Some(true) {
            Some(false)
        } else {
            None
        },
    };
    Ok(CheckedPatch { tun_mode, system_proxy, test_url })
}

/// The connection modes stay exclusive: an accepted patch never leaves TUN
/// and the system proxy both on unless they both were and it touched
/// neither, and a patch that turns one on leaves the other off.
pub proof fn lemma_modes_stay_exclusive(
    tun_mode: Option<bool>,
    system_proxy: Option<bool>,
    old_tun: bool,
    old_proxy: bool,
)
    requires
        !(tun_mode == Some(true) && system_proxy == Some(true)),
    ensures
        applied(modes_written(tun_mode, system_proxy).0, old_tun) && applied(
            modes_written(tun_mode, system_proxy).1,
            old_proxy,
        ) ==> old_tun && old_proxy && tun_mode is None && system_proxy is None,
        tun_mode == Some(true) ==> !applied(modes_written(tun_mode, system_proxy).1, old_proxy),
        system_proxy == Some(true) ==> !applied(modes_written(tun_mode, system_proxy).0, old_tun),
{
}

/// A name to store: `value` trimmed, refused with `message` when nothing
/// is left.
fn non_empty(value: &str, message: &str) -> (r: Result<String, StorageError>)
    ensures
        trim(value@).len() == 0 ==> (r matches Err(e) && invalid(e, message@)),
        trim(value@).len() > 0 ==> (r matches Ok(s) && s@ == trim(value@)),
{
    let t = trimmed(value);
    if t.as_str().is_empty() {
        Err(StorageError::InvalidInput(message.to_owned()))
    } else {
        Ok(t)
    }
}

/// The name a profile is renamed to: trimmed, and not empty.
pub fn profile_name(name: &str) -> (r: Result<String, StorageError>)
    ensures
        trim(name@).len() == 0 ==> (r matches Err(e) && invalid(e, "profile name cannot be empty"@)),
        trim(name@).len() > 0 ==> (r matches Ok(s) && s@ == trim(name@)),
{
    non_empty(name, "profile name cannot be empty")
}

/// The label a group is created with: trimmed, and not empty.
pub fn group_label(label: &str) -> (r: Result<String, StorageError>)
    ensures
        trim(label@).len() == 0 ==> (r matches Err(e) && invalid(e, "group label cannot be empty"@)),
        trim(label@).len() > 0 ==> (r matches Ok(s) && s@ == trim(label@)),
{
    non_empty(label, "group label cannot be empty")
}

/// The label a group of kind `kind` (`None` when there is no such group) is
/// renamed to. The default group's label is fixed.
pub fn group_rename(label: &str, kind: Option<&str>) -> (r: Result<String, StorageError>)
    ensures
        trim(label@).len() == 0 ==> (r matches Err(e) && invalid(e, "group label cannot be empty"@)),
        trim(label@).len() > 0 && kind is None ==> r matches Err(StorageError::NotFound),
        trim(label@).len() > 0 && (kind matches Some(k) && k@ == "default"@) ==> (r matches Err(e)
            && invalid(e, "the default group cannot be renamed"@)),
        trim(label@).len() > 0 && (kind matches Some(k) && k@ != "default"@) ==> (r matches Ok(s)
            && s@ == trim(label@)),
{
    let t = group_label(label)?;
    match kind {
        None => Err(StorageError::NotFound),
        Some(k) => if is_literal(k, "default") {
            Err(StorageError::InvalidInput("the default group cannot be renamed".to_owned()))
        } else {
            Ok(t)
        },
    }
}

/// The match pattern a rule is stored with: trimmed, and not empty.
pub fn rule_pattern(match_value: &str) -> (r: Result<String, StorageError>)
    ensures
        trim(match_value@).len() == 0 ==> (r matches Err(e) && invalid(
            e,
            "rule match pattern cannot be empty"@,
        )),
        trim(match_value@).len() > 0 ==> (r matches Ok(s) && s@ == trim(match_value@)),
{
    non_empty(match_value, "rule match pattern cannot be empty")
}

/// The name and value a source is stored with: both trimmed, neither empty.
pub fn source_fields(name: &str, value: &str) -> (r: Result<(String, String), StorageError>)
    ensures
        trim(name@).len() == 0 || trim(value@).len() == 0 ==> (r matches Err(e) && invalid(
            e,
            "source name and value cannot be empty"@,
        )),
        trim(name@).len() > 0 && trim(value@).len() > 0 ==> (r matches Ok((n, v)) && n@ == trim(
            name@,
        ) && v@ == trim(value@)),
{
    let n = trimmed(name);
    let v = trimmed(value);
    if n.as_str().is_empty() || v.as_str().is_empty() {
        return Err(StorageError::InvalidInput("source name and value cannot be empty".to_owned()));
    }
    Ok((n, v))
}

/// Whether a profile may move from a group of kind `current_kind` into the
/// group `target_group_id` of kind `target_kind` (`None` where the group or
/// the profile does not exist). Subscription groups are closed both ways: a
/// refresh replaces the whole group, so a profile moved in would be deleted
/// by the next one and one moved out would come back beside itself.
pub fn check_move(
    target_group_id: &str,
    target_kind: Option<&str>,
    current_kind: Option<&str>,
) -> (r: Result<(), StorageError>)
    ensures
        target_kind is None ==> (r matches Err(e) && invalid(
            e,
            "group "@ + target_group_id@ + " does not exist"@,
        )),
        target_kind is Some && current_kind is None ==> r matches Err(StorageError::NotFound),
        (target_kind matches Some(t) && current_kind matches Some(c) && (t@ == "subscription"@
            || c@ == "subscription"@)) ==> (r matches Err(e) && invalid(
            e,
            "subscription VPNs cannot be moved in or out of their group"@,
        )),
        (target_kind matches Some(t) && current_kind matches Some(c) && !(t@ == "subscription"@
            || c@ == "subscription"@)) ==> r is Ok,
{
    let target = match target_kind {
        None => {
            let mut m = "group ".to_owned();
            crate::text::push_str(&mut m, target_group_id);
            crate::text::push_str(&mut m, " does not exist");
            return Err(StorageError::InvalidInput(m));
        },
        Some(t) => t,
    };
    let current = match current_kind {
        None => {
            return Err(StorageError::NotFound);
        },
        Some(c) => c,
    };
    if is_literal(target, "subscription") || is_literal(current, "subscription") {
        return Err(
            StorageError::InvalidInput(
                "subscription VPNs cannot be moved in or out of their group".to_owned(),
            ),
        );
    }
    Ok(())
}

/// The texts of a list of strings.
pub open spec fn texts_of(v: Seq<String>) -> Seq<Seq<char>> {
    v.map_values(|s: String| s@)
}

/// The position in `v` of a string spelling `x`, if any.
fn position_of(v: &Vec<String>, x: &str) -> (r: Option<usize>)
    ensures
        match r {
            Some(j) => j < v@.len() && v@[j as int]@ == x@,
            None => !texts_of(v@).contains(x@),
        },
{
    let mut j: usize = 0;
    while j < v.len()
        invariant
            j <= v@.len(),
            forall|k: int| 0 <= k < j ==> (#[trigger] v@[k])@ != x@,
        decreases v.len() - j,
    {
        if is_literal(v[j].as_str(), x) {
            return Some(j);
        }
        j = j + 1;
    }
    proof {
        if texts_of(v@).contains(x@) {
            let k = choose|k: int| 0 <= k < texts_of(v@).len() && texts_of(v@)[k] == x@;
            assert(v@[k]@ == x@);
        }
    }
    None
}

/// Whether `requested` holds exactly the ids of `current`, each as often,
/// in any order: what a reorder must hold before anything moves.
pub fn same_members(current: &[String], requested: &[String]) -> (b: bool)
    ensures
        b == (texts_of(current@).to_multiset() == texts_of(requested@).to_multiset()),
{
    broadcast use vstd::seq_lib::group_to_multiset_ensures;
    broadcast use vstd::multiset::group_multiset_axioms;

    let mut remaining: Vec<String> = Vec::new();
    let mut k: usize = 0;
    while k < current.len()
        invariant
            k <= current@.len(),
            texts_of(remaining@) =~= texts_of(current@.subrange(0, k as int)),
        decreases current.len() - k,
    {
        remaining.push(current[k].clone());
        k = k + 1;
        assert(texts_of(current@.subrange(0, k as int)) =~= texts_of(current@.subrange(0, k - 1)).push(current@[k - 1]@));
    }
    assert(current@.subrange(0, current@.len() as int) =~= current@);
    let ghost whole = texts_of(current@).to_multiset();
    let mut i: usize = 0;
    while i < requested.len()
        invariant
            i <= requested@.len(),
            whole == texts_of(current@).to_multiset(),
            whole == texts_of(requested@.subrange(0, i as int)).to_multiset().add(
                texts_of(remaining@).to_multiset(),
            ),
        decreases requested.len() - i,
    {
        let ghost before = texts_of(requested@.subrange(0, i as int));
        let ghost after = texts_of(requested@.subrange(0, i + 1));
        assert(after =~= before.push(requested@[i as int]@));
        match position_of(&remaining, requested[i].as_str()) {
            Some(j) => {
                let ghost rem = texts_of(remaining@);
                let ghost x = requested@[i as int]@;
                remaining.remove(j);
                proof {
                    assert(texts_of(remaining@) =~= rem.remove(j as int));
                    assert(rem[j as int] == x);
                    vstd::seq_lib::to_multiset_remove(rem, j as int);
                    vstd::seq_lib::to_multiset_build(before, x);
                    vstd::seq_lib::to_multiset_contains(rem, x);
                    assert(rem.contains(x));
                    assert(after.to_multiset().add(texts_of(remaining@).to_multiset()) =~= before.to_multiset().add(rem.to_multiset()));
                }
            },
            None => {
                proof {
                    let x = requested@[i as int]@;
                    let rest = texts_of(requested@.subrange(i + 1, requested@.len() as int));
                    assert(texts_of(requested@) =~= after + rest);
                    vstd::seq_lib::lemma_multiset_commutative(after, rest);
                    vstd::seq_lib::to_multiset_contains(texts_of(remaining@), x);
                    assert(texts_of(remaining@).to_multiset().count(x) == 0);
                    vstd::seq_lib::to_multiset_build(before, x);
                    assert(after.to_multiset().count(x) == before.to_multiset().count(x) + 1);
                    assert(texts_of(requested@).to_multiset().count(x) >= after.to_multiset().count(x));
                    assert(whole.count(x) == before.to_multiset().count(x));
                }
                return false;
            },
        }
        i = i + 1;
    }
    assert(requested@.subrange(0, requested@.len() as int) =~= requested@);
    proof {
        if remaining.len() > 0 {
            assert(texts_of(remaining@).to_multiset().len() > 0);
            assert(whole.len() > texts_of(requested@).to_multiset().len());
        } else {
            assert(texts_of(remaining@).to_multiset() =~= vstd::multiset::Multiset::empty());
            assert(whole =~= texts_of(requested@).to_multiset());
        }
    }
    remaining.len() == 0
}

/// Where schema migration resumes for a database at `user_version`
/// `current`, with `known` migrations in this build: a version below zero
/// or past the last known migration is a database this build cannot read.
pub fn migration_start(current: i64, known: usize) -> (r: Result<usize, StorageError>)
    requires
        known <= i64::MAX,
    ensures
        (current < 0 || current > known) ==> (r matches Err(
            StorageError::UnsupportedSchemaVersion { found, supported },
        ) && found == current && supported == known),
        0 <= current <= known ==> r == Ok::<usize, StorageError>(current as usize),
{
    if current < 0 || current > known as i64 {
        return Err(StorageError::UnsupportedSchemaVersion { found: current, supported: known as i64 });
    }
    Ok(current as usize)
}

/// The error for migration number `index` (counted from zero) failing
/// with `source`: steps are reported counted from one.
pub fn migration_failed(index: usize, source: rusqlite::Error) -> (e: StorageError)
    requires
        index < usize::MAX,
    ensures
        e matches StorageError::Migration { step, source: s } && step == index + 1 && s == source,
{
    StorageError::Migration { step: index + 1, source }
}

/// A partial update of a routing rule's pattern and outbound.
pub struct RulePatch<'a> {
    pub match_value: Option<&'a str>,
    pub outbound: Option<&'a str>,
}

/// The pattern a rule patch writes: trimmed, and refused when empty.
pub fn check_rule_patch(patch: &RulePatch) -> (r: Result<Option<String>, StorageError>)
    ensures
        patch.match_value matches Some(m) && trim(m@).len() == 0 ==> (r matches Err(e) && invalid(
            e,
            "rule match pattern cannot be empty"@,
        )),
        patch.match_value matches Some(m) ==> (trim(m@).len() > 0 ==> (r matches Ok(Some(t)) && t@
            == trim(m@))),
        patch.match_value is None ==> r matches Ok(None),
{
    match patch.match_value {
        Some(m) => {
            let t = rule_pattern(m)?;
            Ok(Some(t))
        },
        None => Ok(None),
    }
}

/// A partial update of a source.
pub struct SourcePatch<'a> {
    pub name: Option<&'a str>,
    pub value: Option<&'a str>,
    pub status: Option<&'a str>,
    pub last_refresh: Option<&'a str>,
}

/// The name a source patch writes: trimmed, and refused when empty.
pub fn check_source_patch(patch: &SourcePatch) -> (r: Result<Option<String>, StorageError>)
    ensures
        patch.name matches Some(n) && trim(n@).len() == 0 ==> (r matches Err(e) && invalid(
            e,
            "source name cannot be empty"@,
        )),
        patch.name matches Some(n) ==> (trim(n@).len() > 0 ==> (r matches Ok(Some(t)) && t@ == trim(
            n@,
        ))),
        patch.name is None ==> r matches Ok(None),
{
    match patch.name {
        Some(n) => {
            let t = non_empty(n, "source name cannot be empty")?;
            Ok(Some(t))
        },
        None => Ok(None),
    }
}

/// The `last_refresh` text for a clock reading of `ms` milliseconds since
/// the Unix epoch: the number in decimal, or empty for a clock that reads
/// before the epoch (`None`).
pub fn stamp_of(ms: Option<u128>) -> (stamp: String)
    ensures
        ms matches Some(m) ==> stamp@ == decimal(m as nat),
        ms is None ==> stamp@.len() == 0,
{
    let mut stamp = String::new();
    match ms {
        Some(m) => {
            push_decimal(&mut stamp, m);
            assert(stamp@ =~= decimal(m as nat));
        },
        None => {},
    }
    stamp
}

/// The stamp a source's `last_refresh` holds: the wall clock's unix
/// milliseconds as decimal text, or empty when the clock reads before the
/// epoch.
pub fn refreshed_now() -> (stamp: String)
    ensures
        stamp@.len() == 0 || exists|ms: nat| stamp@ == decimal(ms),
{
    let ms = match since_epoch(system_now()) {
        Some(since) => Some(millis(since)),
        None => None,
    };
    stamp_of(ms)
}

} // verus!
