//! The full sing-box configuration, built from stored profiles and routing
//! rules.
use vstd::prelude::*;

use crate::json::{field, find_member, lemma_find_member_concat, list, member, member_if, members_model, items_model, obj, put, text, text_of, Json, JsonModel};
use crate::match_spec::{classify_match, matcher_of, MatchKind, Matcher};
use crate::models::{is_literal, Profile, RoutingRule};
use crate::outbound::ParsedOutbound;
use crate::outbound_json::{lemma_outbound_is_tagged, outbound_model, to_singbox_outbound, txt, yes};

verus! {

broadcast use {vstd::slice::group_slice_axioms, vstd::string::group_string_axioms};

#[derive(Debug)]
pub enum ConfigError {
    NoProfiles,
    /// The stored key of this profile did not parse; `source` is what the
    /// link parser said about it.
    CorruptProfileKey { id: String, name: String, source: String },
}

pub struct ConfigInput<'a> {
    pub profiles: &'a [Profile],
    /// Tag of the profile the `proxy` selector should default to. Falls
    /// back to the first profile if empty or not found among `profiles`.
    pub active_profile_id: &'a str,
    pub routing_rules: &'a [RoutingRule],
    pub mixed_listen_port: u16,
    pub clash_api_listen: &'a str,
    pub log_level: &'a str,
    pub tun: bool,
    /// Has sing-box set the OS proxy to the mixed inbound. Ignored under TUN.
    pub system_proxy: bool,
}

/// The outbound a rule's stored choice ("Direct", "Block", anything else
/// meaning the proxy) is routed to.
pub open spec fn outbound_tag(outbound: Seq<char>) -> Seq<char> {
    if outbound == "Direct"@ {
        "direct"@
    } else if outbound == "Block"@ {
        "block"@
    } else {
        "proxy"@
    }
}

/// The rule key each kind of matcher is written under.
pub open spec fn match_key(kind: MatchKind) -> Seq<char> {
    match kind {
        MatchKind::Domain => "domain"@,
        MatchKind::DomainSuffix => "domain_suffix"@,
        MatchKind::IpCidr => "ip_cidr"@,
    }
}

/// A routing rule as a route rule object.
pub open spec fn rule_model(rule: RoutingRule) -> JsonModel {
    let (kind, value) = matcher_of(rule.match_value@);
    JsonModel::Object(
        member("outbound"@, txt(outbound_tag(rule.outbound@))) + member(
            match_key(kind),
            JsonModel::List(seq![txt(value)]),
        ),
    )
}

/// The DNS rule a routing rule contributes: names routed Direct resolve
/// locally; an address rule has no name to resolve and contributes nothing.
pub open spec fn dns_rule(rule: RoutingRule) -> Seq<JsonModel> {
    let (kind, value) = matcher_of(rule.match_value@);
    if outbound_tag(rule.outbound@) == "direct"@ && kind != MatchKind::IpCidr {
        seq![
            JsonModel::Object(
                member(match_key(kind), JsonModel::List(seq![txt(value)])) + member(
                    "server"@,
                    txt("local"@),
                ),
            ),
        ]
    } else {
        Seq::empty()
    }
}

/// The DNS rules of `rules`, in order.
pub open spec fn dns_rules(rules: Seq<RoutingRule>) -> Seq<JsonModel>
    decreases rules.len(),
{
    if rules.len() == 0 {
        Seq::empty()
    } else {
        dns_rules(rules.drop_last()) + dns_rule(rules.last())
    }
}

/// The DNS block: a DoH resolver reached through the proxy for everything,
/// except names routed Direct, which resolve locally; IPv4 only, to match
/// the tunnel.
pub open spec fn dns_model(rules: Seq<RoutingRule>) -> JsonModel {
    JsonModel::Object(
        member(
            "servers"@,
            JsonModel::List(
                seq![
                    JsonModel::Object(
                        member("tag"@, txt("remote"@)) + member("type"@, txt("https"@)) + member(
                            "server"@,
                            txt("1.1.1.1"@),
                        ) + member("detour"@, txt("proxy"@)),
                    ),
                    JsonModel::Object(member("tag"@, txt("local"@)) + member("type"@, txt("local"@))),
                ],
            ),
        ) + member("rules"@, JsonModel::List(dns_rules(rules))) + member("final"@, txt("remote"@))
            + member("strategy"@, txt("ipv4_only"@)),
    )
}

/// The route rules: the sniff action first, so that the rules after it
/// have a domain to match on, then each routing rule in order.
pub open spec fn route_rules(rules: Seq<RoutingRule>) -> Seq<JsonModel> {
    seq![JsonModel::Object(member("action"@, txt("sniff"@)))] + Seq::new(
        rules.len(),
        |i: int| rule_model(rules[i]),
    )
}

/// Whether every stored key parsed.
pub open spec fn all_parsed(parsed: Seq<Result<ParsedOutbound, String>>) -> bool {
    forall|i: int| 0 <= i < parsed.len() ==> (#[trigger] parsed[i]) is Ok
}

/// The outbound a parsed key holds (meaningful only when it parsed).
pub open spec fn parsed_value(r: Result<ParsedOutbound, String>) -> ParsedOutbound {
    match r {
        Ok(p) => p,
        Err(_) => vstd::pervasive::arbitrary(),
    }
}

/// Whether some profile is tagged `active`.
pub open spec fn names_profile(profiles: Seq<Profile>, active: Seq<char>) -> bool {
    exists|i: int| 0 <= i < profiles.len() && (#[trigger] profiles[i]).id@ == active
}

/// The profile the selector starts on: the active one when it is among the
/// profiles, else the first.
pub open spec fn default_tag(profiles: Seq<Profile>, active: Seq<char>) -> Seq<char> {
    if names_profile(profiles, active) {
        active
    } else {
        profiles[0].id@
    }
}

/// The mixed inbound, and the TUN inbound when TUN is on. The OS proxy is
/// pointed at the mixed inbound only with the system proxy on and TUN off.
pub open spec fn inbounds_model(port: u16, tun: bool, system_proxy: bool) -> Seq<JsonModel> {
    seq![
        JsonModel::Object(
            member("type"@, txt("mixed"@)) + member("tag"@, txt("mixed-in"@)) + member(
                "listen"@,
                txt("127.0.0.1"@),
            ) + member("listen_port"@, JsonModel::Num(port as int)) + member(
                "set_system_proxy"@,
                JsonModel::Bool(system_proxy && !tun),
            ),
        ),
    ] + (if tun {
        seq![
            JsonModel::Object(
                member("type"@, txt("tun"@)) + member("tag"@, txt("tun-in"@)) + member(
                    "address"@,
                    JsonModel::List(seq![txt("172.19.0.1/30"@)]),
                ) + member("auto_route"@, yes()) + member("strict_route"@, yes()) + member(
                    "stack"@,
                    txt("gvisor"@),
                ),
            ),
        ]
    } else {
        Seq::empty()
    })
}

/// One outbound per profile, tagged with its id, then direct, block and the
/// `proxy` selector over every profile.
pub open spec fn outbounds_model(
    profiles: Seq<Profile>,
    parsed: Seq<Result<ParsedOutbound, String>>,
    active: Seq<char>,
) -> Seq<JsonModel> {
    Seq::new(profiles.len(), |i: int| outbound_model(parsed_value(parsed[i]), profiles[i].id@)) + seq![
        JsonModel::Object(member("type"@, txt("direct"@)) + member("tag"@, txt("direct"@))),
        JsonModel::Object(member("type"@, txt("block"@)) + member("tag"@, txt("block"@))),
        JsonModel::Object(
            member("type"@, txt("selector"@)) + member("tag"@, txt("proxy"@)) + member(
                "outbounds"@,
                JsonModel::List(Seq::new(profiles.len(), |i: int| txt(profiles[i].id@))),
            ) + member("default"@, txt(default_tag(profiles, active))),
        ),
    ]
}

/// The route block: the rules, everything else through the proxy, outbounds
/// bound to the default interface so TUN does not capture the core's own
/// connections, and proxy hostnames resolved locally.
pub open spec fn route_model(rules: Seq<RoutingRule>) -> JsonModel {
    JsonModel::Object(
        member("rules"@, JsonModel::List(route_rules(rules))) + member("final"@, txt("proxy"@))
            + member("auto_detect_interface"@, yes()) + member(
            "default_domain_resolver"@,
            txt("local"@),
        ),
    )
}

/// The whole configuration.
pub open spec fn config_model(
    input: ConfigInput,
    parsed: Seq<Result<ParsedOutbound, String>>,
) -> JsonModel {
    JsonModel::Object(
        member(
            "log"@,
            JsonModel::Object(member("level"@, txt(input.log_level@)) + member("timestamp"@, yes())),
        ) + member("dns"@, dns_model(input.routing_rules@)) + member(
            "inbounds"@,
            JsonModel::List(inbounds_model(input.mixed_listen_port, input.tun, input.system_proxy)),
        ) + member(
            "outbounds"@,
            JsonModel::List(outbounds_model(input.profiles@, parsed, input.active_profile_id@)),
        ) + member("route"@, route_model(input.routing_rules@)) + member(
            "experimental"@,
            JsonModel::Object(
                member(
                    "clash_api"@,
                    JsonModel::Object(member("external_controller"@, txt(input.clash_api_listen@))),
                ),
            ),
        ),
    )
}

/// The OS proxy is never pointed at the mixed inbound under TUN: the two
/// connection modes are exclusive, and a stored row from before storage
/// kept them so may still hold both.
pub proof fn lemma_system_proxy_never_with_tun(port: u16, tun: bool, system_proxy: bool)
    ensures
        field(inbounds_model(port, tun, system_proxy)[0], "set_system_proxy"@) == Some(
            JsonModel::Bool(system_proxy && !tun),
        ),
        tun ==> field(inbounds_model(port, tun, system_proxy)[0], "set_system_proxy"@) == Some(
            JsonModel::Bool(false),
        ),
{
    reveal_strlit("type");
    reveal_strlit("tag");
    reveal_strlit("listen");
    reveal_strlit("listen_port");
    reveal_strlit("set_system_proxy");
    let key = "set_system_proxy"@;
    assert("type"@ != key) by { assert("type"@.len() != key.len()); }
    assert("tag"@ != key) by { assert("tag"@.len() != key.len()); }
    assert("listen"@ != key) by { assert("listen"@.len() != key.len()); }
    assert("listen_port"@ != key) by { assert("listen_port"@.len() != key.len()); }
    let a = member("type"@, txt("mixed"@));
    let b = member("tag"@, txt("mixed-in"@));
    let c = member("listen"@, txt("127.0.0.1"@));
    let d = member("listen_port"@, JsonModel::Num(port as int));
    let e = member("set_system_proxy"@, JsonModel::Bool(system_proxy && !tun));
    lemma_find_single(a, key);
    lemma_find_single(b, key);
    lemma_find_single(c, key);
    lemma_find_single(d, key);
    lemma_find_single(e, key);
    lemma_find_member_concat(a, b, key);
    lemma_find_member_concat(a + b, c, key);
    lemma_find_member_concat(a + b + c, d, key);
    lemma_find_member_concat(a + b + c + d, e, key);
    assert(inbounds_model(port, tun, system_proxy)[0] == JsonModel::Object(a + b + c + d + e));
}

/// The inbounds of a configuration: first the mixed inbound on the
/// configured loopback port; then, exactly when TUN is on, a TUN inbound
/// that routes the system's traffic into the tunnel (`auto_route`) and
/// keeps it there (`strict_route`).
pub proof fn lemma_inbounds_of_config(input: ConfigInput, parsed: Seq<Result<ParsedOutbound, String>>)
    ensures
        field(config_model(input, parsed), "inbounds"@) matches Some(JsonModel::List(ins)) && {
            &&& ins.len() == if input.tun {
                2int
            } else {
                1int
            }
            &&& field(ins[0], "type"@) == Some(JsonModel::Text("mixed"@))
            &&& field(ins[0], "listen"@) == Some(JsonModel::Text("127.0.0.1"@))
            &&& field(ins[0], "listen_port"@) == Some(JsonModel::Num(input.mixed_listen_port as int))
            &&& input.tun ==> {
                &&& field(ins[1], "type"@) == Some(JsonModel::Text("tun"@))
                &&& field(ins[1], "auto_route"@) == Some(JsonModel::Bool(true))
                &&& field(ins[1], "strict_route"@) == Some(JsonModel::Bool(true))
            }
        },
{
    reveal_strlit("log");
    reveal_strlit("dns");
    reveal_strlit("inbounds");
    reveal_strlit("type");
    reveal_strlit("tag");
    reveal_strlit("listen");
    reveal_strlit("listen_port");
    reveal_strlit("set_system_proxy");
    reveal_strlit("address");
    reveal_strlit("auto_route");
    reveal_strlit("strict_route");
    reveal_strlit("stack");
    let port = input.mixed_listen_port;
    let ins = inbounds_model(port, input.tun, input.system_proxy);
    // The configuration's third member.
    let l = member(
        "log"@,
        JsonModel::Object(member("level"@, txt(input.log_level@)) + member("timestamp"@, yes())),
    );
    let d = member("dns"@, dns_model(input.routing_rules@));
    let i = member("inbounds"@, JsonModel::List(ins));
    let o = member(
        "outbounds"@,
        JsonModel::List(outbounds_model(input.profiles@, parsed, input.active_profile_id@)),
    );
    let r = member("route"@, route_model(input.routing_rules@));
    let e = member(
        "experimental"@,
        JsonModel::Object(
            member(
                "clash_api"@,
                JsonModel::Object(member("external_controller"@, txt(input.clash_api_listen@))),
            ),
        ),
    );
    let key = "inbounds"@;
    assert("log"@ != key) by { assert("log"@.len() != key.len()); }
    assert("dns"@ != key) by { assert("dns"@.len() != key.len()); }
    lemma_find_single(l, key);
    lemma_find_single(d, key);
    lemma_find_single(i, key);
    lemma_find_member_concat(l, d, key);
    lemma_find_member_concat(l + d, i, key);
    lemma_find_member_concat(l + d + i, o, key);
    lemma_find_member_concat(l + d + i + o, r, key);
    lemma_find_member_concat(l + d + i + o + r, e, key);
    assert(config_model(input, parsed) == JsonModel::Object(l + d + i + o + r + e));
    // The mixed inbound.
    let ma = member("type"@, txt("mixed"@));
    let mb = member("tag"@, txt("mixed-in"@));
    let mc = member("listen"@, txt("127.0.0.1"@));
    let md = member("listen_port"@, JsonModel::Num(port as int));
    let me = member("set_system_proxy"@, JsonModel::Bool(input.system_proxy && !input.tun));
    assert(ins[0] == JsonModel::Object(ma + mb + mc + md + me));
    let mkeys = seq!["type"@, "listen"@, "listen_port"@];
    assert forall|j: int| 0 <= j < 3 implies {
        let k = #[trigger] mkeys[j];
        find_member(ma + mb + mc + md + me, k) == if k == "type"@ {
            Some(txt("mixed"@))
        } else if k == "listen"@ {
            Some(txt("127.0.0.1"@))
        } else {
            Some(JsonModel::Num(port as int))
        }
    } by {
        let k = mkeys[j];
        assert(mkeys[0] == "type"@ && mkeys[1] == "listen"@ && mkeys[2] == "listen_port"@);
        assert(k.len() == 4 || k.len() == 6 || k.len() == 11);
        assert("tag"@ != k) by { assert("tag"@.len() != k.len()); }
        assert("set_system_proxy"@ != k) by { assert("set_system_proxy"@.len() != k.len()); }
        assert(k == "type"@ || "type"@ != k) ;
        assert(k != "type"@ ==> "type"@ != k) by { if "type"@.len() == k.len() { assert(k == "type"@); } }
        assert(k != "listen"@ ==> "listen"@ != k) by { if "listen"@.len() == k.len() { assert(k == "listen"@); } }
        assert(k != "listen_port"@ ==> "listen_port"@ != k) by { if "listen_port"@.len() == k.len() { assert(k == "listen_port"@); } }
        lemma_find_single(ma, k);
        lemma_find_single(mb, k);
        lemma_find_single(mc, k);
        lemma_find_single(md, k);
        lemma_find_single(me, k);
        lemma_find_member_concat(ma, mb, k);
        lemma_find_member_concat(ma + mb, mc, k);
        lemma_find_member_concat(ma + mb + mc, md, k);
        lemma_find_member_concat(ma + mb + mc + md, me, k);
    }
    assert(mkeys[0] == "type"@ && mkeys[1] == "listen"@ && mkeys[2] == "listen_port"@);
    assert("listen_port"@ != "type"@) by { assert("listen_port"@.len() != "type"@.len()); }
    assert("listen_port"@ != "listen"@) by { assert("listen_port"@.len() != "listen"@.len()); }
    assert("listen"@ != "type"@) by { assert("listen"@.len() != "type"@.len()); }
    assert(field(config_model(input, parsed), "inbounds"@) == Some(JsonModel::List(ins)));
    assert(ins.len() == if input.tun { 2int } else { 1int });
    assert(field(ins[0], "type"@) == Some(JsonModel::Text("mixed"@)));
    assert(field(ins[0], "listen"@) == Some(JsonModel::Text("127.0.0.1"@)));
    assert(field(ins[0], "listen_port"@) == Some(JsonModel::Num(port as int)));
    if input.tun {
        let ta = member("type"@, txt("tun"@));
        let tb = member("tag"@, txt("tun-in"@));
        let tc = member("address"@, JsonModel::List(seq![txt("172.19.0.1/30"@)]));
        let td = member("auto_route"@, yes());
        let te = member("strict_route"@, yes());
        let tf = member("stack"@, txt("gvisor"@));
        assert(ins[1] == JsonModel::Object(ta + tb + tc + td + te + tf));
        let tkeys = seq!["type"@, "auto_route"@, "strict_route"@];
        assert forall|j: int| 0 <= j < 3 implies {
            let k = #[trigger] tkeys[j];
            find_member(ta + tb + tc + td + te + tf, k) == if k == "type"@ {
                Some(txt("tun"@))
            } else {
                Some(yes())
            }
        } by {
            let k = tkeys[j];
            assert(tkeys[0] == "type"@ && tkeys[1] == "auto_route"@ && tkeys[2] == "strict_route"@);
            assert(k.len() == 4 || k.len() == 10 || k.len() == 12);
            assert("tag"@ != k) by { assert("tag"@.len() != k.len()); }
            assert("address"@ != k) by { assert("address"@.len() != k.len()); }
            assert("stack"@ != k) by { assert("stack"@.len() != k.len()); }
            assert(k != "type"@ ==> "type"@ != k) by { if "type"@.len() == k.len() { assert(k == "type"@); } }
            assert(k != "auto_route"@ ==> "auto_route"@ != k) by { if "auto_route"@.len() == k.len() { assert(k == "auto_route"@); } }
            assert(k != "strict_route"@ ==> "strict_route"@ != k) by { if "strict_route"@.len() == k.len() { assert(k == "strict_route"@); } }
            lemma_find_single(ta, k);
            lemma_find_single(tb, k);
            lemma_find_single(tc, k);
            lemma_find_single(td, k);
            lemma_find_single(te, k);
            lemma_find_single(tf, k);
            lemma_find_member_concat(ta, tb, k);
            lemma_find_member_concat(ta + tb, tc, k);
            lemma_find_member_concat(ta + tb + tc, td, k);
            lemma_find_member_concat(ta + tb + tc + td, te, k);
            lemma_find_member_concat(ta + tb + tc + td + te, tf, k);
        }
        assert(tkeys[0] == "type"@ && tkeys[1] == "auto_route"@ && tkeys[2] == "strict_route"@);
    }
}

/// Finding a key in a list of one member.
proof fn lemma_find_single(ms: Seq<(Seq<char>, JsonModel)>, key: Seq<char>)
    requires
        ms.len() == 1,
    ensures
        find_member(ms, key) == (if ms[0].0 == key {
            Some(ms[0].1)
        } else {
            None::<JsonModel>
        }),
{
    if ms[0].0 != key {
        let e = Seq::<(Seq<char>, JsonModel)>::empty();
        assert(find_member(e, key) is None);
        assert(ms.drop_first() =~= e);
    }
}

/// The selector starts on the active profile when it is configured, and on
/// the first profile otherwise; either way on a profile that is there.
pub proof fn lemma_selector_starts_on_a_profile(profiles: Seq<Profile>, active: Seq<char>)
    requires
        profiles.len() > 0,
    ensures
        names_profile(profiles, active) ==> default_tag(profiles, active) == active,
        !names_profile(profiles, active) ==> default_tag(profiles, active) == profiles[0].id@,
        exists|i: int|
            0 <= i < profiles.len() && (#[trigger] profiles[i]).id@ == default_tag(profiles, active),
{
    if !names_profile(profiles, active) {
        assert(profiles[0].id@ == default_tag(profiles, active));
    }
}

/// The sniff action comes before every routing rule, which follow in their
/// stored order.
pub proof fn lemma_sniff_comes_first(rules: Seq<RoutingRule>)
    ensures
        route_rules(rules).len() == rules.len() + 1,
        route_rules(rules)[0] == JsonModel::Object(member("action"@, txt("sniff"@))),
        forall|i: int| 0 <= i < rules.len() ==> route_rules(rules)[i + 1] == rule_model(#[trigger] rules[i]),
{
}

/// Every DNS rule sends its names to the local resolver, and there is at
/// most one per routing rule: everything else goes to the DoH resolver
/// through the proxy.
pub proof fn lemma_dns_rules_resolve_locally(rules: Seq<RoutingRule>)
    ensures
        dns_rules(rules).len() <= rules.len(),
        forall|i: int|
            0 <= i < dns_rules(rules).len() ==> field(#[trigger] dns_rules(rules)[i], "server"@)
                == Some(txt("local"@)),
    decreases rules.len(),
{
    if rules.len() > 0 {
        lemma_dns_rules_resolve_locally(rules.drop_last());
        let prev = dns_rules(rules.drop_last());
        let last = dns_rule(rules.last());
        assert(dns_rules(rules) == prev + last);
        if last.len() > 0 {
            let (kind, value) = matcher_of(rules.last().match_value@);
            reveal_strlit("domain");
            reveal_strlit("domain_suffix");
            reveal_strlit("server");
            let key = "server"@;
            assert(match_key(kind) != key) by {
                if kind == MatchKind::Domain {
                    assert("domain"@[0] != key[0]);
                } else {
                    assert("domain_suffix"@.len() != key.len());
                }
            }
            let a = member(match_key(kind), JsonModel::List(seq![txt(value)]));
            let b = member("server"@, txt("local"@));
            lemma_find_single(a, key);
            lemma_find_single(b, key);
            lemma_find_member_concat(a, b, key);
            assert(last[0] == JsonModel::Object(a + b));
        }
        assert forall|i: int| 0 <= i < dns_rules(rules).len() implies field(
            #[trigger] dns_rules(rules)[i],
            "server"@,
        ) == Some(txt("local"@)) by {
            if i < prev.len() {
                assert(dns_rules(rules)[i] == prev[i]);
            } else {
                assert(dns_rules(rules)[i] == last[i - prev.len()]);
            }
        }
    }
}

/// The tag a two-member `{"type": kind, "tag": kind}` object carries.
proof fn lemma_plain_outbound_tag(kind: Seq<char>)
    ensures
        field(
            JsonModel::Object(member("type"@, txt(kind)) + member("tag"@, txt(kind))),
            "tag"@,
        ) == Some(txt(kind)),
{
    reveal_strlit("type");
    reveal_strlit("tag");
    let key = "tag"@;
    assert("type"@ != key) by {
        assert("type"@.len() != key.len());
    }
    lemma_find_single(member("type"@, txt(kind)), key);
    lemma_find_single(member("tag"@, txt(kind)), key);
    lemma_find_member_concat(member("type"@, txt(kind)), member("tag"@, txt(kind)), key);
}

/// The outbound a route rule names.
proof fn lemma_rule_outbound(rule: RoutingRule)
    ensures
        field(rule_model(rule), "outbound"@) == Some(txt(outbound_tag(rule.outbound@))),
{
    let (kind, value) = matcher_of(rule.match_value@);
    let key = "outbound"@;
    let a = member("outbound"@, txt(outbound_tag(rule.outbound@)));
    let b = member(match_key(kind), JsonModel::List(seq![txt(value)]));
    lemma_find_single(a, key);
    lemma_find_member_concat(a, b, key);
}

/// Every route rule, and the route's fallback, names an outbound the
/// configuration defines: sing-box refuses a configuration that routes to
/// a tag it does not know.
pub proof fn lemma_rules_route_to_defined_outbounds(
    profiles: Seq<Profile>,
    parsed: Seq<Result<ParsedOutbound, String>>,
    active: Seq<char>,
    rules: Seq<RoutingRule>,
)
    requires
        profiles.len() > 0,
    ensures
        forall|i: int|
            0 <= i < rules.len() ==> exists|j: int|
                0 <= j < outbounds_model(profiles, parsed, active).len() && field(
                    #[trigger] outbounds_model(profiles, parsed, active)[j],
                    "tag"@,
                ) == field(rule_model(#[trigger] rules[i]), "outbound"@),
        exists|j: int|
            0 <= j < outbounds_model(profiles, parsed, active).len() && field(
                #[trigger] outbounds_model(profiles, parsed, active)[j],
                "tag"@,
            ) == Some(txt("proxy"@)),
{
    let outs = outbounds_model(profiles, parsed, active);
    let n = profiles.len() as int;
    lemma_plain_outbound_tag("direct"@);
    lemma_plain_outbound_tag("block"@);
    reveal_strlit("type");
    reveal_strlit("tag");
    let key = "tag"@;
    assert("type"@ != key) by {
        assert("type"@.len() != key.len());
    }
    let s1 = member("type"@, txt("selector"@));
    let s2 = member("tag"@, txt("proxy"@));
    let s3 = member(
        "outbounds"@,
        JsonModel::List(Seq::new(profiles.len(), |i: int| txt(profiles[i].id@))),
    );
    let s4 = member("default"@, txt(default_tag(profiles, active)));
    lemma_find_single(s1, key);
    lemma_find_single(s2, key);
    lemma_find_member_concat(s1, s2, key);
    lemma_find_member_concat(s1 + s2, s3, key);
    lemma_find_member_concat(s1 + s2 + s3, s4, key);
    assert(outs[n] == JsonModel::Object(member("type"@, txt("direct"@)) + member("tag"@, txt("direct"@))));
    assert(outs[n + 1] == JsonModel::Object(member("type"@, txt("block"@)) + member("tag"@, txt("block"@))));
    assert(outs[n + 2] == JsonModel::Object(s1 + s2 + s3 + s4));
    assert(field(outs[n + 2], key) == Some(txt("proxy"@)));
    assert forall|i: int| 0 <= i < rules.len() implies exists|j: int|
        0 <= j < outs.len() && field(#[trigger] outs[j], "tag"@) == field(
            rule_model(#[trigger] rules[i]),
            "outbound"@,
        ) by {
        lemma_rule_outbound(rules[i]);
        let t = outbound_tag(rules[i].outbound@);
        if t == "direct"@ {
            assert(field(outs[n], key) == Some(txt(t)));
        } else if t == "block"@ {
            assert(field(outs[n + 1], key) == Some(txt(t)));
        } else {
            assert(field(outs[n + 2], key) == Some(txt(t)));
        }
    }
}

/// Each profile has its own outbound, at its own position and tagged with
/// its id, so the selector and the rules can reach it.
pub proof fn lemma_each_profile_has_a_tagged_outbound(
    profiles: Seq<Profile>,
    parsed: Seq<Result<ParsedOutbound, String>>,
    active: Seq<char>,
)
    ensures
        outbounds_model(profiles, parsed, active).len() == profiles.len() + 3,
        forall|i: int|
            0 <= i < profiles.len() ==> field(
                #[trigger] outbounds_model(profiles, parsed, active)[i],
                "tag"@,
            ) == Some(txt(profiles[i].id@)),
{
    let outs = outbounds_model(profiles, parsed, active);
    assert forall|i: int| 0 <= i < profiles.len() implies field(
        #[trigger] outs[i],
        "tag"@,
    ) == Some(txt(profiles[i].id@)) by {
        lemma_outbound_is_tagged(parsed_value(parsed[i]), profiles[i].id@);
    }
}

/// Which outbound a rule's stored choice routes to.
pub fn outbound_tag_for(outbound: &str) -> (t: &'static str)
    ensures
        t@ == outbound_tag(outbound@),
{
    if is_literal(outbound, "Direct") {
        "direct"
    } else if is_literal(outbound, "Block") {
        "block"
    } else {
        "proxy"
    }
}

/// The key a matcher is written under, and its value.
fn matcher_parts(m: Matcher) -> (r: (&'static str, String))
    ensures
        r.0@ == match_key(m.kind()),
        r.1@ == m.value(),
{
    match m {
        Matcher::Domain(d) => ("domain", d),
        Matcher::DomainSuffix(d) => ("domain_suffix", d),
        Matcher::IpCidr(c) => ("ip_cidr", c),
    }
}

/// A one-element list holding `s`.
fn single(s: String) -> (j: Json)
    ensures
        j.model() == JsonModel::List(seq![txt(s@)]),
{
    let mut items: Vec<Json> = Vec::new();
    items.push(Json::Str(s));
    let j = list(items);
    assert(items_model(items@) =~= seq![txt(s@)]);
    j
}

/// A routing rule as a route rule object.
pub fn routing_rule_to_json(rule: &RoutingRule) -> (j: Json)
    ensures
        j.model() == rule_model(*rule),
{
    let outbound = outbound_tag_for(rule.outbound.as_str());
    let (key, value) = matcher_parts(classify_match(rule.match_value.as_str()));
    let ghost v = value@;
    let mut m: Vec<(String, Json)> = Vec::new();
    put(&mut m, "outbound", text(outbound));
    put(&mut m, key, single(value));
    let j = obj(m);
    assert(members_model(m@) =~= member("outbound"@, txt(outbound_tag(rule.outbound@))) + member(
        key@,
        JsonModel::List(seq![txt(v)]),
    ));
    j
}

/// The DNS rule of one routing rule, if it contributes one.
fn dns_rule_json(rule: &RoutingRule) -> (r: Option<Json>)
    ensures
        match r {
            Some(j) => dns_rule(*rule) == seq![j.model()],
            None => dns_rule(*rule) == Seq::<JsonModel>::empty(),
        },
{
    let outbound = outbound_tag_for(rule.outbound.as_str());
    if !is_literal(outbound, "direct") {
        return None;
    }
    let m = classify_match(rule.match_value.as_str());
    if let Matcher::IpCidr(_) = m {
        return None;
    }
    let (key, value) = matcher_parts(m);
    let ghost v = value@;
    let mut members: Vec<(String, Json)> = Vec::new();
    put(&mut members, key, single(value));
    put(&mut members, "server", text("local"));
    assert(members_model(members@) =~= member(key@, JsonModel::List(seq![txt(v)])) + member(
        "server"@,
        txt("local"@),
    ));
    Some(obj(members))
}

/// The DNS block for `rules`.
pub fn dns_block(rules: &[RoutingRule]) -> (j: Json)
    ensures
        j.model() == dns_model(rules@),
{
    let mut dns_rule_list: Vec<Json> = Vec::new();
    let mut i: usize = 0;
    while i < rules.len()
        invariant
            i <= rules@.len(),
            items_model(dns_rule_list@) == dns_rules(rules@.subrange(0, i as int)),
        decreases rules.len() - i,
    {
        let ghost before = dns_rule_list@;
        let r = dns_rule_json(&rules[i]);
        match r {
            Some(v) => {
                let ghost vm = v.model();
                dns_rule_list.push(v);
                assert(items_model(dns_rule_list@) =~= items_model(before) + seq![vm]);
            },
            None => {},
        }
        assert(rules@.subrange(0, i + 1).drop_last() =~= rules@.subrange(0, i as int));
        assert(rules@.subrange(0, i + 1).last() == rules@[i as int]);
        i = i + 1;
    }
    assert(rules@.subrange(0, rules@.len() as int) =~= rules@);
    let mut remote: Vec<(String, Json)> = Vec::new();
    put(&mut remote, "tag", text("remote"));
    put(&mut remote, "type", text("https"));
    put(&mut remote, "server", text("1.1.1.1"));
    put(&mut remote, "detour", text("proxy"));
    let mut local: Vec<(String, Json)> = Vec::new();
    put(&mut local, "tag", text("local"));
    put(&mut local, "type", text("local"));
    let ghost rm = members_model(remote@);
    let ghost lm = members_model(local@);
    let mut servers: Vec<Json> = Vec::new();
    servers.push(obj(remote));
    servers.push(obj(local));
    let ghost sm = items_model(servers@);
    let ghost rules_model = items_model(dns_rule_list@);
    let mut m: Vec<(String, Json)> = Vec::new();
    put(&mut m, "servers", list(servers));
    put(&mut m, "rules", list(dns_rule_list));
    put(&mut m, "final", text("remote"));
    put(&mut m, "strategy", text("ipv4_only"));
    let j = obj(m);
    assert(j.model() == dns_model(rules@)) by {
        assert(rm =~= member("tag"@, txt("remote"@)) + member("type"@, txt("https"@)) + member(
            "server"@,
            txt("1.1.1.1"@),
        ) + member("detour"@, txt("proxy"@)));
        assert(lm =~= member("tag"@, txt("local"@)) + member("type"@, txt("local"@)));
        assert(sm =~= seq![JsonModel::Object(rm), JsonModel::Object(lm)]);
        assert(members_model(m@) =~= member("servers"@, JsonModel::List(sm)) + member(
            "rules"@,
            JsonModel::List(rules_model),
        ) + member("final"@, txt("remote"@)) + member("strategy"@, txt("ipv4_only"@)));
    }
    j
}

/// The route rules for `rules`, preceded by the sniff action.
pub fn sniff_first(rules: &[RoutingRule]) -> (out: Vec<Json>)
    ensures
        items_model(out@) == route_rules(rules@),
{
    let mut sniff: Vec<(String, Json)> = Vec::new();
    put(&mut sniff, "action", text("sniff"));
    assert(members_model(sniff@) =~= member("action"@, txt("sniff"@)));
    let mut out: Vec<Json> = Vec::new();
    out.push(obj(sniff));
    let mut i: usize = 0;
    while i < rules.len()
        invariant
            i <= rules@.len(),
            out@.len() == i + 1,
            items_model(out@) =~= seq![JsonModel::Object(member("action"@, txt("sniff"@)))]
                + Seq::new(i as nat, |k: int| rule_model(rules@[k])),
        decreases rules.len() - i,
    {
        let ghost before = out@;
        let r = routing_rule_to_json(&rules[i]);
        out.push(r);
        assert(items_model(out@) =~= items_model(before).push(rule_model(rules@[i as int])));
        i = i + 1;
    }
    out
}

/// The inbounds.
fn inbounds(port: u16, tun: bool, system_proxy: bool) -> (out: Vec<Json>)
    ensures
        items_model(out@) == inbounds_model(port, tun, system_proxy),
{
    let mut mixed: Vec<(String, Json)> = Vec::new();
    put(&mut mixed, "type", text("mixed"));
    put(&mut mixed, "tag", text("mixed-in"));
    put(&mut mixed, "listen", text("127.0.0.1"));
    put(&mut mixed, "listen_port", Json::Num(port as i64));
    put(&mut mixed, "set_system_proxy", Json::Bool(system_proxy && !tun));
    let ghost mm = members_model(mixed@);
    assert(mm =~= member("type"@, txt("mixed"@)) + member("tag"@, txt("mixed-in"@)) + member(
        "listen"@,
        txt("127.0.0.1"@),
    ) + member("listen_port"@, JsonModel::Num(port as int)) + member(
        "set_system_proxy"@,
        JsonModel::Bool(system_proxy && !tun),
    ));
    let mut out: Vec<Json> = Vec::new();
    out.push(obj(mixed));
    let ghost first = items_model(out@);
    assert(first =~= seq![JsonModel::Object(mm)]);
    if tun {
        let mut address: Vec<Json> = Vec::new();
        address.push(text("172.19.0.1/30"));
        let ghost am = items_model(address@);
        assert(am =~= seq![txt("172.19.0.1/30"@)]);
        let mut t: Vec<(String, Json)> = Vec::new();
        put(&mut t, "type", text("tun"));
        put(&mut t, "tag", text("tun-in"));
        put(&mut t, "address", list(address));
        put(&mut t, "auto_route", Json::Bool(true));
        put(&mut t, "strict_route", Json::Bool(true));
        put(&mut t, "stack", text("gvisor"));
        let ghost tm = members_model(t@);
        assert(tm =~= member("type"@, txt("tun"@)) + member("tag"@, txt("tun-in"@)) + member(
            "address"@,
            JsonModel::List(seq![txt("172.19.0.1/30"@)]),
        ) + member("auto_route"@, yes()) + member("strict_route"@, yes()) + member(
            "stack"@,
            txt("gvisor"@),
        ));
        out.push(obj(t));
        assert(items_model(out@) =~= first + seq![JsonModel::Object(tm)]);
    }
    assert(items_model(out@) =~= inbounds_model(port, tun, system_proxy));
    out
}

/// `{"type": kind, "tag": kind}`.
fn plain_outbound(kind: &str) -> (j: Json)
    ensures
        j.model() == JsonModel::Object(member("type"@, txt(kind@)) + member("tag"@, txt(kind@))),
{
    let mut m: Vec<(String, Json)> = Vec::new();
    put(&mut m, "type", text(kind));
    put(&mut m, "tag", text(kind));
    assert(members_model(m@) =~= member("type"@, txt(kind@)) + member("tag"@, txt(kind@)));
    obj(m)
}

/// The route block.
fn route_block(rules: &[RoutingRule]) -> (j: Json)
    ensures
        j.model() == route_model(rules@),
{
    let r = sniff_first(rules);
    let ghost rm = items_model(r@);
    let mut m: Vec<(String, Json)> = Vec::new();
    put(&mut m, "rules", list(r));
    put(&mut m, "final", text("proxy"));
    put(&mut m, "auto_detect_interface", Json::Bool(true));
    put(&mut m, "default_domain_resolver", text("local"));
    assert(members_model(m@) =~= member("rules"@, JsonModel::List(route_rules(rules@))) + member(
        "final"@,
        txt("proxy"@),
    ) + member("auto_detect_interface"@, yes()) + member("default_domain_resolver"@, txt("local"@)));
    obj(m)
}

/// The selector over `tags`, starting on `default`.
fn selector(tags: &Vec<String>, default: String) -> (j: Json)
    ensures
        j.model() == JsonModel::Object(
            member("type"@, txt("selector"@)) + member("tag"@, txt("proxy"@)) + member(
                "outbounds"@,
                JsonModel::List(Seq::new(tags@.len(), |i: int| txt(tags@[i]@))),
            ) + member("default"@, txt(default@)),
        ),
{
    let ghost d = default@;
    let mut m: Vec<(String, Json)> = Vec::new();
    put(&mut m, "type", text("selector"));
    put(&mut m, "tag", text("proxy"));
    let t = crate::json::texts(tags);
    assert(t.model() == JsonModel::List(Seq::new(tags@.len(), |i: int| txt(tags@[i]@)))) by {
        if let JsonModel::List(l) = t.model() {
            assert(l =~= Seq::new(tags@.len(), |i: int| txt(tags@[i]@)));
        }
    }
    put(&mut m, "outbounds", t);
    put(&mut m, "default", Json::Str(default));
    assert(members_model(m@) =~= member("type"@, txt("selector"@)) + member("tag"@, txt("proxy"@))
        + member("outbounds"@, JsonModel::List(Seq::new(tags@.len(), |i: int| txt(tags@[i]@))))
        + member("default"@, txt(d)));
    obj(m)
}

/// The outbounds for every profile, their tags, and the first profile
/// whose key did not parse, if any.
fn profile_outbounds(
    profiles: &[Profile],
    parsed: &[Result<ParsedOutbound, String>],
) -> (r: Result<(Vec<Json>, Vec<String>), ConfigError>)
    requires
        parsed@.len() == profiles@.len(),
    ensures
        match r {
            Ok((outs, tags)) => {
                &&& all_parsed(parsed@)
                &&& items_model(outs@) == Seq::new(
                    profiles@.len(),
                    |i: int| outbound_model(parsed_value(parsed@[i]), profiles@[i].id@),
                )
                &&& tags@.len() == profiles@.len()
                &&& forall|i: int| 0 <= i < tags@.len() ==> (#[trigger] tags@[i])@ == profiles@[i].id@
            },
            Err(e) => corrupt_key_at(profiles@, parsed@, e),
        },
{
    let mut outs: Vec<Json> = Vec::new();
    let mut tags: Vec<String> = Vec::new();
    let mut i: usize = 0;
    while i < profiles.len()
        invariant
            i <= profiles@.len(),
            parsed@.len() == profiles@.len(),
            forall|k: int| 0 <= k < i ==> (#[trigger] parsed@[k]) is Ok,
            items_model(outs@) =~= Seq::new(
                i as nat,
                |k: int| outbound_model(parsed_value(parsed@[k]), profiles@[k].id@),
            ),
            tags@.len() == i,
            forall|k: int| 0 <= k < i ==> (#[trigger] tags@[k])@ == profiles@[k].id@,
        decreases profiles.len() - i,
    {
        let profile = &profiles[i];
        match &parsed[i] {
            Err(source) => {
                return Err(
                    ConfigError::CorruptProfileKey {
                        id: profile.id.clone(),
                        name: profile.name.clone(),
                        source: source.clone(),
                    },
                );
            },
            Ok(p) => {
                let ghost before = outs@;
                let o = to_singbox_outbound(p, profile.id.as_str());
                outs.push(o);
                assert(items_model(outs@) =~= items_model(before).push(
                    outbound_model(parsed_value(parsed@[i as int]), profiles@[i as int].id@),
                ));
                tags.push(profile.id.clone());
            },
        }
        i = i + 1;
    }
    Ok((outs, tags))
}

/// Whether `e` names the first profile whose key did not parse.
pub open spec fn corrupt_key_at(
    profiles: Seq<Profile>,
    parsed: Seq<Result<ParsedOutbound, String>>,
    e: ConfigError,
) -> bool {
    exists|i: int|
        #![trigger parsed[i]]
        0 <= i < parsed.len() && parsed[i] is Err && (forall|k: int|
            0 <= k < i ==> (#[trigger] parsed[k]) is Ok) && e == (ConfigError::CorruptProfileKey {
            id: profiles[i].id,
            name: profiles[i].name,
            source: parsed[i]->Err_0,
        })
}

/// Whether one of `tags` spells `active`.
fn has_tag(tags: &Vec<String>, active: &str) -> (b: bool)
    ensures
        b == exists|i: int| 0 <= i < tags@.len() && (#[trigger] tags@[i])@ == active@,
{
    let mut i: usize = 0;
    while i < tags.len()
        invariant
            i <= tags@.len(),
            forall|k: int| 0 <= k < i ==> (#[trigger] tags@[k])@ != active@,
        decreases tags.len() - i,
    {
        if is_literal(tags[i].as_str(), active) {
            return true;
        }
        i = i + 1;
    }
    false
}

/// Builds the full sing-box configuration from the stored profiles and
/// routing rules. `parsed` holds each profile's stored key as the link
/// parser read it, in the order of `input.profiles`; a key that did not
/// parse is reported with the profile it belongs to rather than producing
/// a configuration the core would reject opaquely at startup.
pub fn generate(input: &ConfigInput, parsed: &[Result<ParsedOutbound, String>]) -> (r: Result<
    Json,
    ConfigError,
>)
    requires
        parsed@.len() == input.profiles@.len(),
    ensures
        input.profiles@.len() == 0 ==> r matches Err(ConfigError::NoProfiles),
        input.profiles@.len() > 0 && all_parsed(parsed@) ==> (r matches Ok(j) && j.model()
            == config_model(*input, parsed@)),
        input.profiles@.len() > 0 && !all_parsed(parsed@) ==> (r matches Err(e) && corrupt_key_at(
            input.profiles@,
            parsed@,
            e,
        )),
{
    if input.profiles.len() == 0 {
        return Err(ConfigError::NoProfiles);
    }
    let (outs, tags) = match profile_outbounds(input.profiles, parsed) {
        Ok(v) => v,
        Err(e) => {
            return Err(e);
        },
    };
    let default_tag_value = if has_tag(&tags, input.active_profile_id) {
        input.active_profile_id.to_owned()
    } else {
        tags[0].clone()
    };
    let ghost profiles = input.profiles@;
    let ghost active = input.active_profile_id@;
    assert(default_tag_value@ == default_tag(profiles, active)) by {
        if names_profile(profiles, active) {
            let w = choose|i: int| 0 <= i < profiles.len() && (#[trigger] profiles[i]).id@ == active;
            assert(tags@[w]@ == active);
        }
    }
    let ghost om = items_model(outs@);
    let mut all: Vec<Json> = outs;
    all.push(plain_outbound("direct"));
    all.push(plain_outbound("block"));
    all.push(selector(&tags, default_tag_value));
    let ghost allm = items_model(all@);
    assert(Seq::new(tags@.len(), |i: int| txt(tags@[i]@)) =~= Seq::new(
        profiles.len(),
        |i: int| txt(profiles[i].id@),
    ));
    assert(allm =~= outbounds_model(profiles, parsed@, active));

    let mut log: Vec<(String, Json)> = Vec::new();
    put(&mut log, "level", text(input.log_level));
    put(&mut log, "timestamp", Json::Bool(true));
    let ghost logm = members_model(log@);
    assert(logm =~= member("level"@, txt(input.log_level@)) + member("timestamp"@, yes()));

    let mut clash: Vec<(String, Json)> = Vec::new();
    put(&mut clash, "external_controller", text(input.clash_api_listen));
    assert(members_model(clash@) =~= member("external_controller"@, txt(input.clash_api_listen@)));
    let mut experimental: Vec<(String, Json)> = Vec::new();
    put(&mut experimental, "clash_api", obj(clash));
    let ghost em = members_model(experimental@);
    assert(em =~= member(
        "clash_api"@,
        JsonModel::Object(member("external_controller"@, txt(input.clash_api_listen@))),
    ));

    let ins = inbounds(input.mixed_listen_port, input.tun, input.system_proxy);
    let ghost insm = items_model(ins@);
    let mut m: Vec<(String, Json)> = Vec::new();
    put(&mut m, "log", obj(log));
    put(&mut m, "dns", dns_block(input.routing_rules));
    put(&mut m, "inbounds", list(ins));
    put(&mut m, "outbounds", list(all));
    put(&mut m, "route", route_block(input.routing_rules));
    put(&mut m, "experimental", obj(experimental));
    let j = obj(m);
    assert(members_model(m@) =~= member("log"@, JsonModel::Object(logm)) + member(
        "dns"@,
        dns_model(input.routing_rules@),
    ) + member("inbounds"@, JsonModel::List(insm)) + member("outbounds"@, JsonModel::List(allm))
        + member("route"@, route_model(input.routing_rules@)) + member(
        "experimental"@,
        JsonModel::Object(em),
    ));
    Ok(j)
}

} // verus!
