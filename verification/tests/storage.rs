use kagerou::models::StorageError;
use kagerou::storage::{
    check_move, check_rule_patch, check_settings_patch, check_source_patch, group_label,
    group_rename, profile_name, refreshed_now, rule_pattern, stamp_of, same_members, source_fields,
    RulePatch, SettingsPatch, SourcePatch,
};

#[test]
fn refreshed_now_is_a_parseable_unix_millisecond_stamp() {
    let stamp = refreshed_now();
    let millis: i64 = stamp.parse().expect("the column holds a number, not prose");
    // 2020-01-01; a clock this far back means the stamp is not epoch millis.
    assert!(millis > 1_577_836_800_000, "got {stamp}");
}

fn message(e: StorageError) -> String {
    match e {
        StorageError::InvalidInput(m) => m,
        _ => panic!("expected invalid input"),
    }
}

fn patch<'a>() -> SettingsPatch<'a> {
    SettingsPatch {
        theme: None,
        language: None,
        startup: None,
        tun_mode: None,
        system_proxy: None,
        auto_connect: None,
        geo_lookup: None,
        tun_interface: None,
        auto_update_subscriptions: None,
        subscription_update_interval: None,
        custom_subscription_update_minutes: None,
        group_sort: None,
        log_level: None,
        test_url: None,
    }
}

#[test]
fn turning_one_connection_mode_on_turns_the_other_off() {
    let p = SettingsPatch { tun_mode: Some(true), ..patch() };
    let c = check_settings_patch(&p).ok().unwrap();
    assert_eq!((c.tun_mode, c.system_proxy), (Some(true), Some(false)));

    let p = SettingsPatch { system_proxy: Some(true), ..patch() };
    let c = check_settings_patch(&p).ok().unwrap();
    assert_eq!((c.tun_mode, c.system_proxy), (Some(false), Some(true)));

    let c = check_settings_patch(&patch()).ok().unwrap();
    assert_eq!((c.tun_mode, c.system_proxy), (None, None));

    let p = SettingsPatch { tun_mode: Some(false), ..patch() };
    let c = check_settings_patch(&p).ok().unwrap();
    assert_eq!((c.tun_mode, c.system_proxy), (Some(false), None));
}

#[test]
fn both_connection_modes_at_once_are_refused() {
    let p = SettingsPatch { tun_mode: Some(true), system_proxy: Some(true), ..patch() };
    assert_eq!(
        message(check_settings_patch(&p).err().unwrap()),
        "TUN mode and the system proxy cannot both be on"
    );
}

#[test]
fn the_test_url_is_trimmed_and_may_not_be_empty() {
    let p = SettingsPatch { test_url: Some("  https://cp.example/generate_204 "), ..patch() };
    let c = check_settings_patch(&p).ok().unwrap();
    assert_eq!(c.test_url.as_deref(), Some("https://cp.example/generate_204"));
    let p = SettingsPatch { test_url: Some("   "), ..patch() };
    assert_eq!(message(check_settings_patch(&p).err().unwrap()), "test url cannot be empty");
}

#[test]
fn names_are_trimmed_and_may_not_be_empty() {
    assert_eq!(profile_name("  Tokyo ").ok().unwrap(), "Tokyo");
    assert_eq!(message(profile_name(" ").err().unwrap()), "profile name cannot be empty");
    assert_eq!(group_label(" Work").ok().unwrap(), "Work");
    assert_eq!(message(group_label("").err().unwrap()), "group label cannot be empty");
    assert_eq!(rule_pattern(" example.com ").ok().unwrap(), "example.com");
    assert_eq!(message(rule_pattern("\t").err().unwrap()), "rule match pattern cannot be empty");
    assert_eq!(
        message(source_fields("Work", " ").err().unwrap()),
        "source name and value cannot be empty"
    );
    let (n, v) = source_fields(" Work ", " https://sub.example ").ok().unwrap();
    assert_eq!((n.as_str(), v.as_str()), ("Work", "https://sub.example"));
}

#[test]
fn the_default_group_keeps_its_label() {
    assert_eq!(group_rename(" Home ", Some("custom")).ok().unwrap(), "Home");
    assert_eq!(
        message(group_rename("Home", Some("default")).err().unwrap()),
        "the default group cannot be renamed"
    );
    assert!(matches!(group_rename("Home", None), Err(StorageError::NotFound)));
    assert_eq!(message(group_rename(" ", None).err().unwrap()), "group label cannot be empty");
}

#[test]
fn subscription_groups_are_closed_both_ways() {
    assert!(check_move("g2", Some("custom"), Some("default")).is_ok());
    assert_eq!(
        message(check_move("g2", Some("subscription"), Some("custom")).err().unwrap()),
        "subscription VPNs cannot be moved in or out of their group"
    );
    assert_eq!(
        message(check_move("g2", Some("custom"), Some("subscription")).err().unwrap()),
        "subscription VPNs cannot be moved in or out of their group"
    );
    assert_eq!(message(check_move("ghost", None, Some("custom")).err().unwrap()), "group ghost does not exist");
    assert!(matches!(check_move("g2", Some("custom"), None), Err(StorageError::NotFound)));
}

fn ids(v: &[&str]) -> Vec<String> {
    v.iter().map(|s| s.to_string()).collect()
}

#[test]
fn a_reorder_must_name_exactly_the_groups_profiles() {
    assert!(same_members(&ids(&["a", "b", "c"]), &ids(&["c", "a", "b"])));
    assert!(same_members(&ids(&[]), &ids(&[])));
    assert!(!same_members(&ids(&["a", "b"]), &ids(&["a"])));
    assert!(!same_members(&ids(&["a"]), &ids(&["a", "b"])));
    assert!(!same_members(&ids(&["a", "b"]), &ids(&["a", "a"])));
    assert!(!same_members(&ids(&["a", "b"]), &ids(&["a", "x"])));
}

#[test]
fn rule_and_source_patches_trim_what_they_write() {
    let p = RulePatch { match_value: Some(" example.com "), outbound: Some("Direct") };
    assert_eq!(check_rule_patch(&p).ok().unwrap().as_deref(), Some("example.com"));
    let p = RulePatch { match_value: Some("  "), outbound: None };
    assert_eq!(message(check_rule_patch(&p).err().unwrap()), "rule match pattern cannot be empty");
    let p = SourcePatch { name: Some(" Work "), value: None, status: None, last_refresh: None };
    assert_eq!(check_source_patch(&p).ok().unwrap().as_deref(), Some("Work"));
    let p = SourcePatch { name: Some(""), value: None, status: None, last_refresh: None };
    assert_eq!(message(check_source_patch(&p).err().unwrap()), "source name cannot be empty");
    let p = SourcePatch { name: None, value: Some("x"), status: None, last_refresh: None };
    assert_eq!(check_source_patch(&p).ok().unwrap(), None);
}

#[test]
fn a_refresh_stamp_is_the_millisecond_reading_in_decimal() {
    assert_eq!(stamp_of(Some(1_700_000_000_123)), "1700000000123");
    assert_eq!(stamp_of(Some(0)), "0");
    assert_eq!(stamp_of(None), "");
}
