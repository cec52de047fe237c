use kagerou::config::{dns_block, generate, outbound_tag_for, routing_rule_to_json, sniff_first, ConfigError, ConfigInput};
use kagerou::json::Json;
use kagerou::models::{Profile, Protocol, RoutingRule, TestOutcome, TestResult};
use kagerou::outbound::{ParsedOutbound, ShadowsocksOutbound};
use serde_json::Value;

fn value(j: &Json) -> Value {
    match j {
        Json::Null => Value::Null,
        Json::Bool(b) => Value::Bool(*b),
        Json::Num(n) => Value::from(*n),
        Json::Str(s) => Value::String(s.clone()),
        Json::Arr(items) => Value::Array(items.iter().map(value).collect()),
        Json::Obj(members) => Value::Object(
            members
                .iter()
                .map(|(k, v)| (k.clone(), value(v)))
                .collect(),
        ),
    }
}

fn profile(id: &str) -> Profile {
    Profile {
        id: id.into(),
        name: format!("name of {id}"),
        region: String::new(),
        protocol: Protocol::Shadowsocks,
        origin: "local".into(),
        group_id: "default".into(),
        source_id: None,
        selected: false,
        url: TestResult::from(TestOutcome::NotTested),
        key: String::new(),
    }
}

fn ss(server: &str) -> Result<ParsedOutbound, String> {
    Ok(ParsedOutbound::Shadowsocks(ShadowsocksOutbound {
        name: "n".into(),
        server: server.into(),
        port: 8388,
        method: "aes-256-gcm".into(),
        password: "pw".into(),
    }))
}

fn rule(id: &str, m: &str, outbound: &str) -> RoutingRule {
    RoutingRule { id: id.into(), match_value: m.into(), outbound: outbound.into(), selected: false }
}

fn input<'a>(profiles: &'a [Profile], rules: &'a [RoutingRule], active: &'a str, tun: bool, system_proxy: bool) -> ConfigInput<'a> {
    ConfigInput {
        profiles,
        active_profile_id: active,
        routing_rules: rules,
        mixed_listen_port: 2080,
        clash_api_listen: "127.0.0.1:9090",
        log_level: "info",
        tun,
        system_proxy,
    }
}

#[test]
fn no_profiles_is_an_error() {
    assert!(matches!(generate(&input(&[], &[], "", false, false), &[]), Err(ConfigError::NoProfiles)));
}

#[test]
fn a_corrupt_key_names_the_first_profile_it_belongs_to() {
    let profiles = [profile("a"), profile("b"), profile("c")];
    let parsed = [ss("a.example"), Err("bad key".to_string()), Err("worse key".to_string())];
    match generate(&input(&profiles, &[], "", false, false), &parsed) {
        Err(ConfigError::CorruptProfileKey { id, name, source }) => {
            assert_eq!(id, "b");
            assert_eq!(name, "name of b");
            assert_eq!(source, "bad key");
        }
        _ => panic!("expected the corrupt key of b"),
    }
}

#[test]
fn the_selector_starts_on_the_active_profile_or_falls_back_to_the_first() {
    let profiles = [profile("a"), profile("b")];
    let parsed = [ss("a.example"), ss("b.example")];
    let config = value(&generate(&input(&profiles, &[], "b", false, false), &parsed).ok().unwrap());
    let outbounds = config["outbounds"].as_array().unwrap();
    assert_eq!(outbounds.len(), 5);
    assert_eq!(outbounds[0]["tag"], "a");
    assert_eq!(outbounds[1]["tag"], "b");
    assert_eq!(outbounds[2]["type"], "direct");
    assert_eq!(outbounds[3]["type"], "block");
    assert_eq!(outbounds[4]["type"], "selector");
    assert_eq!(outbounds[4]["outbounds"], serde_json::from_str::<Value>(r#"["a","b"]"#).unwrap());
    assert_eq!(outbounds[4]["default"], "b");

    let config = value(&generate(&input(&profiles, &[], "gone", false, false), &parsed).ok().unwrap());
    assert_eq!(config["outbounds"][4]["default"], "a");
}

#[test]
fn the_system_proxy_is_never_set_under_tun() {
    let profiles = [profile("a")];
    let parsed = [ss("a.example")];
    let config = value(&generate(&input(&profiles, &[], "a", false, true), &parsed).ok().unwrap());
    assert_eq!(config["inbounds"][0]["set_system_proxy"], true);
    assert_eq!(config["inbounds"].as_array().unwrap().len(), 1);

    let config = value(&generate(&input(&profiles, &[], "a", true, true), &parsed).ok().unwrap());
    assert_eq!(config["inbounds"][0]["set_system_proxy"], false);
    assert_eq!(config["inbounds"][1]["type"], "tun");
    assert_eq!(config["inbounds"][1]["stack"], "gvisor");
    assert_eq!(config["inbounds"][1]["address"][0], "172.19.0.1/30");
}

#[test]
fn the_whole_configuration_has_every_block() {
    let profiles = [profile("a")];
    let parsed = [ss("a.example")];
    let rules = [rule("r1", "example.com", "Direct")];
    let config = value(&generate(&input(&profiles, &rules, "a", false, false), &parsed).ok().unwrap());
    assert_eq!(config["log"]["level"], "info");
    assert_eq!(config["log"]["timestamp"], true);
    assert_eq!(config["route"]["final"], "proxy");
    assert_eq!(config["route"]["auto_detect_interface"], true);
    assert_eq!(config["route"]["default_domain_resolver"], "local");
    assert_eq!(config["route"]["rules"][0]["action"], "sniff");
    assert_eq!(config["route"]["rules"][1]["domain_suffix"][0], "example.com");
    assert_eq!(config["experimental"]["clash_api"]["external_controller"], "127.0.0.1:9090");
    assert_eq!(config["dns"]["final"], "remote");
    assert_eq!(config["inbounds"][0]["listen_port"], 2080);
}

#[test]
fn only_names_routed_direct_resolve_locally() {
    let rules = [
        rule("r1", "example.com", "Direct"),
        rule("r2", "10.0.0.0/8", "Direct"),
        rule("r3", "ads.example", "Block"),
        rule("r4", "localhost", "Direct"),
    ];
    let dns = value(&dns_block(&rules));
    let expected: Value = serde_json::from_str(
        r#"{
            "servers": [
                {"tag": "remote", "type": "https", "server": "1.1.1.1", "detour": "proxy"},
                {"tag": "local", "type": "local"}
            ],
            "rules": [
                {"domain_suffix": ["example.com"], "server": "local"},
                {"domain": ["localhost"], "server": "local"}
            ],
            "final": "remote",
            "strategy": "ipv4_only"
        }"#,
    )
    .unwrap();
    assert_eq!(dns, expected);
}

#[test]
fn rules_route_to_their_outbound_by_kind() {
    assert_eq!(outbound_tag_for("Direct"), "direct");
    assert_eq!(outbound_tag_for("Block"), "block");
    assert_eq!(outbound_tag_for("Proxy"), "proxy");
    assert_eq!(outbound_tag_for("anything"), "proxy");
    let r = value(&routing_rule_to_json(&rule("r", "192.168.1.1", "Block")));
    assert_eq!(r, serde_json::from_str::<Value>(r#"{"outbound":"block","ip_cidr":["192.168.1.1/32"]}"#).unwrap());
    let out = sniff_first(&[rule("r", "example.com", "Proxy")]);
    assert_eq!(out.len(), 2);
    assert_eq!(value(&out[0])["action"], "sniff");
}

#[test]
fn every_rule_routes_to_an_outbound_the_configuration_defines() {
    let profiles = [profile("a"), profile("b")];
    let parsed = [ss("a.example"), ss("b.example")];
    let rules = [
        rule("r1", "example.com", "Direct"),
        rule("r2", "ads.example", "Block"),
        rule("r3", "10.0.0.0/8", "Proxy"),
    ];
    let config = value(&generate(&input(&profiles, &rules, "a", false, false), &parsed).ok().unwrap());
    let tags: Vec<Value> = config["outbounds"]
        .as_array()
        .unwrap()
        .iter()
        .map(|o| o["tag"].clone())
        .collect();
    for r in config["route"]["rules"].as_array().unwrap().iter().skip(1) {
        assert!(tags.contains(&r["outbound"]), "{r}");
    }
    assert!(tags.contains(&config["route"]["final"]));
}
