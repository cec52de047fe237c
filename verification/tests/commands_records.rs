use kagerou::commands::{RulePatchInput, RuntimePaths, UpdateSourceInput};

#[test]
fn interface_edits_become_store_patches() {
    let input = RulePatchInput { match_value: Some("example.com".into()), outbound: None };
    let patch = input.as_patch();
    assert_eq!(patch.match_value, Some("example.com"));
    assert_eq!(patch.outbound, None);
    let input = UpdateSourceInput { name: None, value: Some("https://sub.example".into()) };
    let patch = input.as_patch();
    assert_eq!(patch.name, None);
    assert_eq!(patch.value, Some("https://sub.example"));
    assert_eq!(patch.status, None);
}

#[test]
fn the_test_core_has_its_own_reserved_addresses() {
    let p = RuntimePaths::new("/opt/sing-box".into(), "/data/config.json".into(), "/data/sing-box-test-config.json".into());
    assert_eq!(p.test_clash_api_listen, "127.0.0.1:9091");
    assert_eq!(p.test_mixed_listen_port, 2081);
    assert_eq!(p.config_path, "/data/config.json");
}
