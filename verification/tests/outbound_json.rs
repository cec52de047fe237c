use kagerou::json::Json;
use kagerou::outbound::{Hysteria2Outbound, ParsedOutbound, TrojanOutbound, TuicOutbound, VlessOutbound, VmessOutbound};
use kagerou::outbound_json::{to_singbox_outbound, transport_block, tls_block};
use serde_json::Value;

fn value(j: &Json) -> Value {
    match j {
        Json::Null => Value::Null,
        Json::Bool(b) => Value::Bool(*b),
        Json::Num(n) => Value::from(*n),
        Json::Str(s) => Value::String(s.clone()),
        Json::Arr(items) => Value::Array(items.iter().map(value).collect()),
        Json::Obj(members) => Value::Object(
            members
                .iter()
                .map(|(k, v)| (k.clone(), value(v)))
                .collect(),
        ),
    }
}

#[test]
fn vless_with_reality_includes_the_reality_block() {
    let parsed = ParsedOutbound::Vless(VlessOutbound {
        name: "n".into(),
        server: "example.com".into(),
        port: 443,
        uuid: "uuid".into(),
        flow: Some("xtls-rprx-vision".into()),
        network: "tcp".into(),
        tls: true,
        sni: Some("cdn.example.com".into()),
        ws_path: None,
        ws_host: None,
        grpc_service_name: None,
        reality_public_key: Some("pbk".into()),
        reality_short_id: Some("sid".into()),
        fingerprint: None,
    });
    let json = value(&to_singbox_outbound(&parsed, "profile-1"));
    assert_eq!(json["type"], "vless");
    assert_eq!(json["tag"], "profile-1");
    assert_eq!(json["tls"]["reality"]["public_key"], "pbk");
    assert_eq!(json["tls"]["reality"]["short_id"], "sid");
    assert_eq!(json["flow"], "xtls-rprx-vision");
    assert_eq!(json["tls"]["utls"]["fingerprint"], "chrome");
    assert!(
        json.get("transport").is_none(),
        "tcp network should not emit a transport block"
    );
}

#[test]
fn a_plaintext_vless_outbound_omits_the_tls_block_entirely() {
    let parsed = ParsedOutbound::Vless(VlessOutbound {
        name: "n".into(),
        server: "127.0.0.1".into(),
        port: 18443,
        uuid: "uuid".into(),
        flow: None,
        network: "tcp".into(),
        tls: false,
        sni: None,
        ws_path: None,
        ws_host: None,
        grpc_service_name: None,
        reality_public_key: None,
        reality_short_id: None,
        fingerprint: None,
    });
    let json = value(&to_singbox_outbound(&parsed, "profile-1"));
    assert!(
        json.get("tls").is_none(),
        "sing-box panics on a disabled-but-present tls block: {json}"
    );
}

#[test]
fn a_grpc_service_name_reaches_the_transport_block() {
    let with_service = value(&transport_block("grpc", None, None, Some("svc")).unwrap());
    assert_eq!(with_service["type"], "grpc");
    assert_eq!(with_service["service_name"], "svc");

    // Links without one are common and valid: the key must be absent
    // rather than an empty string.
    let without = value(&transport_block("grpc", None, None, None).unwrap());
    assert_eq!(without["type"], "grpc");
    assert!(without.get("service_name").is_none());
}

#[test]
fn hysteria2_includes_obfs_only_when_present() {
    let with_obfs = ParsedOutbound::Hysteria2(Hysteria2Outbound {
        name: "n".into(),
        server: "s".into(),
        port: 443,
        password: "pw".into(),
        sni: None,
        insecure: true,
        obfs: Some("salamander".into()),
        obfs_password: Some("op".into()),
    });
    let json = value(&to_singbox_outbound(&with_obfs, "t"));
    assert_eq!(json["obfs"]["type"], "salamander");
    assert_eq!(json["tls"]["insecure"], true);

    let without_obfs = ParsedOutbound::Hysteria2(Hysteria2Outbound {
        name: "n".into(),
        server: "s".into(),
        port: 443,
        password: "pw".into(),
        sni: None,
        insecure: false,
        obfs: None,
        obfs_password: None,
    });
    let json = value(&to_singbox_outbound(&without_obfs, "t"));
    assert!(json.get("obfs").is_none());
}

#[test]
fn a_websocket_transport_carries_its_path_and_host_header() {
    let ws = value(&transport_block("ws", Some("/path"), Some("cdn.example"), Some("ignored")).unwrap());
    assert_eq!(
        ws,
        serde_json::from_str::<Value>(r#"{"type":"ws","path":"/path","headers":{"Host":"cdn.example"}}"#).unwrap()
    );
    assert!(transport_block("tcp", Some("/path"), None, None).is_none());
    assert!(transport_block("", None, None, None).is_none());
}

#[test]
fn a_tls_block_names_the_server_and_is_absent_when_off() {
    assert!(tls_block(false, Some("sni.example"), true).is_none());
    let tls = value(&tls_block(true, Some("sni.example"), true).unwrap());
    assert_eq!(
        tls,
        serde_json::from_str::<Value>(r#"{"enabled":true,"server_name":"sni.example","insecure":true}"#).unwrap()
    );
}

#[test]
fn every_protocol_becomes_its_sing_box_type_under_the_given_tag() {
    let vmess = ParsedOutbound::Vmess(VmessOutbound {
        name: "v".into(),
        server: "v.example".into(),
        port: 8443,
        uuid: "id".into(),
        alter_id: 0,
        security: "auto".into(),
        network: "ws".into(),
        tls: true,
        sni: None,
        ws_path: Some("/ws".into()),
        ws_host: None,
    });
    let json = value(&to_singbox_outbound(&vmess, "a"));
    assert_eq!(json["type"], "vmess");
    assert_eq!(json["server_port"], 8443);
    assert_eq!(json["alter_id"], 0);
    assert_eq!(json["tls"]["enabled"], true);
    assert_eq!(json["transport"]["path"], "/ws");

    let trojan = ParsedOutbound::Trojan(TrojanOutbound {
        name: "t".into(),
        server: "t.example".into(),
        port: 443,
        password: "secret".into(),
        sni: Some("t.example".into()),
        network: "tcp".into(),
    });
    let json = value(&to_singbox_outbound(&trojan, "b"));
    assert_eq!(json["tag"], "b");
    assert_eq!(json["tls"]["server_name"], "t.example");
    assert!(json.get("transport").is_none());

    let tuic = ParsedOutbound::Tuic(TuicOutbound {
        name: "u".into(),
        server: "u.example".into(),
        port: 443,
        uuid: "id".into(),
        password: "pw".into(),
        sni: None,
        alpn: vec!["h3".into()],
        congestion_control: Some("bbr".into()),
    });
    let json = value(&to_singbox_outbound(&tuic, "c"));
    assert_eq!(json["tls"]["alpn"][0], "h3");
    assert_eq!(json["congestion_control"], "bbr");
}
