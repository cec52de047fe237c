use kagerou::import::{
    classify, new_id, next_imported_label, plan_outbounds, plan_removal, profile_from_outbound,
    region_from_name, subscription_for_url, subscription_name, subscription_records,
    subscription_url, ImportError, ImportPlan, Pasted,
};
use kagerou::models::{ProfileGroup, Protocol, Source};
use kagerou::outbound::{ParsedOutbound, TrojanOutbound};

#[test]
fn a_subscription_is_named_from_its_header_then_its_host() {
    assert_eq!(
        subscription_name(Some("base64:0JzQvtC5IFZQTg=="), "https://x.example"),
        "Мой VPN"
    );
    assert_eq!(
        subscription_name(Some(" Work "), "https://x.example"),
        "Work"
    );
    assert_eq!(
        subscription_name(Some("  "), "https://www.sub.example/p"),
        "sub.example"
    );
    assert_eq!(
        subscription_name(Some("base64:%%%"), "https://sub.example"),
        "sub.example",
        "an undecodable title falls back rather than showing garbage"
    );
    assert_eq!(subscription_name(None, "not a url"), "Subscription");
}

#[test]
fn flag_emoji_becomes_a_country_code() {
    assert_eq!(region_from_name("🇦🇹 ALL VPN | Австрия"), "AT");
    assert_eq!(region_from_name("  🇵🇱 ALL VPN"), "PL");
}

#[test]
fn names_without_a_flag_have_no_region() {
    assert_eq!(region_from_name("Fast Node 03"), "");
    assert_eq!(region_from_name(""), "");
    assert_eq!(region_from_name("🚀 Boost"), "");
    // A lone regional indicator is not a flag.
    assert_eq!(region_from_name("🇦 Node"), "");
}

#[test]
fn an_http_url_is_a_subscription() {
    assert!(matches!(
        classify("  https://sub.example/list?token=abc\n", Err("not parsed".into())),
        Ok(Pasted::SubscriptionUrl(url)) if url == "https://sub.example/list?token=abc"
    ));
    assert!(matches!(
        classify("http://sub.example", Err("not parsed".into())),
        Ok(Pasted::SubscriptionUrl(_))
    ));
}

#[test]
fn only_one_http_url_and_nothing_else_counts_as_a_subscription() {
    assert_eq!(
        subscription_url("  https://sub.example/list?token=abc\n"),
        Some("https://sub.example/list?token=abc".to_string())
    );
    assert!(subscription_url("http://sub.example").is_some());
    assert!(subscription_url("ftp://files.example/list").is_none());
    assert!(subscription_url("https://sub.example/a https://sub.example/b").is_none());
    assert!(subscription_url("just some words someone copied").is_none());
}

#[test]
fn text_that_is_no_url_is_what_the_link_parser_made_of_it() {
    match classify("https://sub.example", Err("unused".into())) {
        Ok(Pasted::SubscriptionUrl(url)) => assert_eq!(url, "https://sub.example"),
        _ => panic!("expected a subscription"),
    }
    match classify("   \n", Err("empty".into())) {
        Err(ImportError::Subscription(e)) => assert_eq!(e, "empty"),
        _ => panic!("expected the parser's error"),
    }
    match classify("trojan://pass@relay.example:443#Relay", Ok(vec![relay()])) {
        Ok(Pasted::Outbounds(v)) => assert_eq!(v.len(), 1),
        _ => panic!("expected links"),
    }
}

fn group(label: &str) -> ProfileGroup {
    ProfileGroup {
        id: format!("id-{label}"),
        label: label.into(),
        kind: "custom".into(),
        source_id: None,
        open: true,
        profile_ids: vec![],
    }
}

#[test]
fn imported_groups_are_numbered_from_two() {
    assert_eq!(next_imported_label(&[]), "Imported");
    assert_eq!(next_imported_label(&[group("Default")]), "Imported");
    assert_eq!(next_imported_label(&[group("Imported")]), "Imported 2");
    assert_eq!(
        next_imported_label(&[group("Imported 2"), group("Imported"), group("Imported 4")]),
        "Imported 3"
    );
}

fn relay() -> ParsedOutbound {
    ParsedOutbound::Trojan(TrojanOutbound {
        name: "🇩🇪 Relay".into(),
        server: "relay.example".into(),
        port: 443,
        password: "pass".into(),
        sni: None,
        network: "tcp".into(),
    })
}

#[test]
fn a_stored_profile_carries_the_links_name_region_and_protocol() {
    let p = profile_from_outbound(&relay(), "default", None, "local", "trojan://pass@relay.example:443".into());
    assert!(p.id.starts_with("local-"));
    assert_eq!(p.name, "🇩🇪 Relay");
    assert_eq!(p.region, "DE");
    assert_eq!(p.protocol, Protocol::Trojan);
    assert_eq!(p.origin, "local");
    assert_eq!(p.group_id, "default");
    assert_eq!(p.source_id, None);
    assert_eq!(p.key, "trojan://pass@relay.example:443");
}

#[test]
fn identifiers_are_prefixed_and_unique() {
    let a = new_id("group");
    let b = new_id("group");
    assert!(a.starts_with("group-"));
    assert_ne!(a, b);
    let u: Vec<char> = a["group-".len()..].chars().collect();
    assert_eq!(u.len(), 36);
    for (i, c) in u.iter().enumerate() {
        if [8, 13, 18, 23].contains(&i) {
            assert_eq!(*c, '-');
        } else {
            assert!(c.is_ascii_digit() || ('a'..='f').contains(c));
        }
    }
}

fn stored(pairs: &[(&str, &str)]) -> Vec<(String, String)> {
    pairs.iter().map(|(a, b)| (a.to_string(), b.to_string())).collect()
}

fn ids(v: &[&str]) -> Vec<String> {
    v.iter().map(|s| s.to_string()).collect()
}

#[test]
fn a_single_new_link_lands_in_default() {
    assert!(matches!(plan_outbounds(&[], &ids(&["tokyo"])), ImportPlan::AddToDefault));
}

#[test]
fn a_single_link_already_stored_is_reported_with_its_group() {
    match plan_outbounds(&stored(&[("tokyo", "default")]), &ids(&["tokyo"])) {
        ImportPlan::AlreadyPresent { group_id } => assert_eq!(group_id, "default"),
        _ => panic!("expected already present"),
    }
}

#[test]
fn repeated_and_stored_links_of_a_batch_are_skipped() {
    match plan_outbounds(&stored(&[("tokyo", "default")]), &ids(&["tokyo", "relay", "relay"])) {
        ImportPlan::AddGroup { fresh, skipped } => {
            assert_eq!(fresh, vec![1]);
            assert_eq!(skipped, 2);
        }
        _ => panic!("expected a group"),
    }
}

#[test]
fn a_batch_with_no_new_link_plans_no_group() {
    match plan_outbounds(&stored(&[("tokyo", "g"), ("relay", "g")]), &ids(&["relay", "tokyo"])) {
        ImportPlan::NothingNew { skipped } => assert_eq!(skipped, 2),
        _ => panic!("expected nothing new"),
    }
    assert!(matches!(plan_outbounds(&[], &[]), ImportPlan::NothingNew { skipped: 0 }));
}

fn subscription_group(profile_ids: &[&str]) -> ProfileGroup {
    ProfileGroup {
        id: "subscription-source-1".into(),
        label: "Work".into(),
        kind: "subscription".into(),
        source_id: Some("source-1".into()),
        open: true,
        profile_ids: ids(profile_ids),
    }
}

#[test]
fn deleting_the_subscription_in_use_waits_for_a_disconnect() {
    let g = subscription_group(&["p1"]);
    assert!(matches!(plan_removal(&g, Some("p1"), true), Err(ImportError::ActiveProfileInUse)));
    let removal = plan_removal(&g, Some("p1"), false).ok().unwrap();
    assert_eq!(removal.source_id, "source-1");
    assert!(removal.clears_active);
    let removal = plan_removal(&g, None, true).ok().unwrap();
    assert!(!removal.clears_active);
}

#[test]
fn a_plain_group_is_not_deleted_as_a_subscription() {
    match plan_removal(&group("Default"), None, false) {
        Err(ImportError::NotASubscription(id)) => assert_eq!(id, "id-Default"),
        _ => panic!("expected a refusal"),
    }
}

fn source(id: &str, kind: &str, value: &str) -> Source {
    Source {
        id: id.into(),
        name: "Work".into(),
        kind: kind.into(),
        value: value.into(),
        status: "up-to-date".into(),
        last_refresh: String::new(),
        origin_label: "Remote URL".into(),
    }
}

#[test]
fn a_new_subscription_is_stored_as_a_source_and_group_found_by_url() {
    let (src, grp) = subscription_records("https://sub.example/list", "Work");
    assert!(src.id.starts_with("source-"));
    assert_eq!(grp.id, format!("subscription-{}", src.id));
    assert_eq!(grp.kind, "subscription");
    assert_eq!(grp.label, "Work");
    assert_eq!(src.kind, "url");
    assert_eq!(src.status, "up-to-date");
    assert!(!src.last_refresh.is_empty());
    assert!(src.last_refresh.chars().all(|c| c.is_ascii_digit()));

    let sources = vec![source("source-1", "url", "https://sub.example/list")];
    let groups = vec![group("Default"), subscription_group(&[])];
    assert_eq!(subscription_for_url(&sources, &groups, "https://sub.example/list"), Some(1));
    assert_eq!(subscription_for_url(&sources, &groups, "https://other.example"), None);
}
