//! A parsed share link as a sing-box outbound object.
use vstd::prelude::*;

use crate::json::{field, find_member, lemma_find_member_concat, list, member, member_if, members_model, obj, opt_chars, put, text, text_of, texts, Json, JsonModel};
use crate::models::is_literal;
use crate::outbound::{
    Hysteria2Outbound, ParsedOutbound, ShadowsocksOutbound, TrojanOutbound, TuicOutbound, VlessOutbound,
    VmessOutbound,
};

verus! {

broadcast use {vstd::slice::group_slice_axioms, vstd::string::group_string_axioms};

/// A text value.
pub open spec fn txt(s: Seq<char>) -> JsonModel {
    JsonModel::Text(s)
}

/// `true`.
pub open spec fn yes() -> JsonModel {
    JsonModel::Bool(true)
}

/// A text member for an optional value, absent when it is `None`.
pub open spec fn text_member(key: Seq<char>, value: Option<Seq<char>>) -> Seq<(Seq<char>, JsonModel)> {
    match value {
        Some(s) => member(key, txt(s)),
        None => Seq::empty(),
    }
}

/// A member for an optional value, absent when it is `None`.
pub open spec fn optional(key: Seq<char>, value: Option<JsonModel>) -> Seq<(Seq<char>, JsonModel)> {
    match value {
        Some(v) => member(key, v),
        None => Seq::empty(),
    }
}

/// The characters of an optional string slice.
pub open spec fn opt_str(value: Option<&str>) -> Option<Seq<char>> {
    match value {
        Some(s) => Some(s@),
        None => None,
    }
}

/// The model of an optional value.
pub open spec fn opt_model(value: Option<Json>) -> Option<JsonModel> {
    match value {
        Some(j) => Some(j.model()),
        None => None,
    }
}

/// The members of an enabled TLS block.
pub open spec fn tls_members(sni: Option<Seq<char>>, insecure: bool) -> Seq<(Seq<char>, JsonModel)> {
    member("enabled"@, yes()) + text_member("server_name"@, sni) + member_if(
        insecure,
        "insecure"@,
        yes(),
    )
}

/// The TLS block: absent, not disabled, when TLS is off, because sing-box
/// builds a dialer from a present-but-disabled block and then fails on it.
pub open spec fn tls_model(enabled: bool, sni: Option<Seq<char>>, insecure: bool) -> Option<JsonModel> {
    if enabled {
        Some(JsonModel::Object(tls_members(sni, insecure)))
    } else {
        None
    }
}

/// The transport block: none for plain TCP (or an empty network), else the
/// network's type with the options that network takes.
pub open spec fn transport_model(
    network: Seq<char>,
    ws_path: Option<Seq<char>>,
    ws_host: Option<Seq<char>>,
    grpc_service_name: Option<Seq<char>>,
) -> Option<JsonModel> {
    if network == "tcp"@ || network.len() == 0 {
        None
    } else {
        Some(
            JsonModel::Object(
                member("type"@, txt(network)) + (if network == "grpc"@ {
                    text_member("service_name"@, grpc_service_name)
                } else {
                    Seq::empty()
                }) + (if network == "ws"@ {
                    text_member("path"@, ws_path) + optional(
                        "headers"@,
                        match ws_host {
                            Some(h) => Some(JsonModel::Object(member("Host"@, txt(h)))),
                            None => None,
                        },
                    )
                } else {
                    Seq::empty()
                }),
            ),
        )
    }
}

/// The members every outbound starts with.
pub open spec fn header_members(kind: Seq<char>, tag: Seq<char>, server: Seq<char>, port: u16) -> Seq<
    (Seq<char>, JsonModel),
> {
    member("type"@, txt(kind)) + member("tag"@, txt(tag)) + member("server"@, txt(server)) + member(
        "server_port"@,
        JsonModel::Num(port as int),
    )
}

/// REALITY, present exactly when the link carries a public key.
pub open spec fn reality_members(o: VlessOutbound) -> Seq<(Seq<char>, JsonModel)> {
    match o.reality_public_key {
        Some(pbk) => member(
            "reality"@,
            JsonModel::Object(
                member("enabled"@, yes()) + member("public_key"@, txt(pbk@)) + text_member(
                    "short_id"@,
                    opt_chars(o.reality_short_id),
                ),
            ),
        ),
        None => Seq::empty(),
    }
}

/// The uTLS fingerprint: sing-box refuses a REALITY client without one, and
/// links routinely omit it, so it defaults to chrome.
pub open spec fn utls_members(o: VlessOutbound) -> Seq<(Seq<char>, JsonModel)> {
    member_if(
        o.reality_public_key is Some || o.fingerprint is Some,
        "utls"@,
        JsonModel::Object(
            member("enabled"@, yes()) + member(
                "fingerprint"@,
                txt(
                    match o.fingerprint {
                        Some(f) => f@,
                        None => "chrome"@,
                    },
                ),
            ),
        ),
    )
}

/// The characters of an optional string, or nothing.
pub open spec fn or_empty(value: Option<String>) -> Seq<char> {
    match value {
        Some(s) => s@,
        None => Seq::empty(),
    }
}

/// The sing-box outbound for `parsed`, tagged `tag`.
pub open spec fn outbound_model(parsed: ParsedOutbound, tag: Seq<char>) -> JsonModel {
    match parsed {
        ParsedOutbound::Vless(o) => JsonModel::Object(
            header_members("vless"@, tag, o.server@, o.port) + member("uuid"@, txt(o.uuid@))
                + member_if(
                o.tls,
                "tls"@,
                JsonModel::Object(
                    tls_members(opt_chars(o.sni), false) + reality_members(o) + utls_members(o),
                ),
            ) + text_member("flow"@, opt_chars(o.flow)) + optional(
                "transport"@,
                transport_model(
                    o.network@,
                    opt_chars(o.ws_path),
                    opt_chars(o.ws_host),
                    opt_chars(o.grpc_service_name),
                ),
            ),
        ),
        ParsedOutbound::Vmess(o) => JsonModel::Object(
            header_members("vmess"@, tag, o.server@, o.port) + member("uuid"@, txt(o.uuid@))
                + member("alter_id"@, JsonModel::Num(o.alter_id as int)) + member(
                "security"@,
                txt(o.security@),
            ) + optional("tls"@, tls_model(o.tls, opt_chars(o.sni), false)) + optional(
                "transport"@,
                transport_model(o.network@, opt_chars(o.ws_path), opt_chars(o.ws_host), None),
            ),
        ),
        ParsedOutbound::Trojan(o) => JsonModel::Object(
            header_members("trojan"@, tag, o.server@, o.port) + member(
                "password"@,
                txt(o.password@),
            ) + member("tls"@, JsonModel::Object(tls_members(opt_chars(o.sni), false)))
                + optional("transport"@, transport_model(o.network@, None, None, None)),
        ),
        ParsedOutbound::Shadowsocks(o) => JsonModel::Object(
            header_members("shadowsocks"@, tag, o.server@, o.port) + member(
                "method"@,
                txt(o.method@),
            ) + member("password"@, txt(o.password@)),
        ),
        ParsedOutbound::Hysteria2(o) => JsonModel::Object(
            header_members("hysteria2"@, tag, o.server@, o.port) + member(
                "password"@,
                txt(o.password@),
            ) + member("tls"@, JsonModel::Object(tls_members(opt_chars(o.sni), o.insecure)))
                + member_if(
                o.obfs is Some || o.obfs_password is Some,
                "obfs"@,
                JsonModel::Object(
                    member("type"@, txt(or_empty(o.obfs))) + member(
                        "password"@,
                        txt(or_empty(o.obfs_password)),
                    ),
                ),
            ),
        ),
        ParsedOutbound::Tuic(o) => JsonModel::Object(
            header_members("tuic"@, tag, o.server@, o.port) + member("uuid"@, txt(o.uuid@))
                + member("password"@, txt(o.password@)) + member(
                "tls"@,
                JsonModel::Object(
                    tls_members(opt_chars(o.sni), false) + member_if(
                        o.alpn@.len() > 0,
                        "alpn"@,
                        JsonModel::List(Seq::new(o.alpn@.len(), |i: int| txt(o.alpn@[i]@))),
                    ),
                ),
            ) + text_member("congestion_control"@, opt_chars(o.congestion_control)),
        ),
    }
}

/// Finding a key in a single member.
proof fn lemma_find_one(k: Seq<char>, v: JsonModel, key: Seq<char>)
    ensures
        find_member(member(k, v), key) == (if k == key {
            Some(v)
        } else {
            None::<JsonModel>
        }),
{
    let ms = member(k, v);
    if k != key {
        let e = Seq::<(Seq<char>, JsonModel)>::empty();
        assert(find_member(e, key) is None);
        assert(ms.drop_first() =~= e);
    }
}

/// Finding a key that no member of `a` or `b` carries.
proof fn lemma_find_none(a: Seq<(Seq<char>, JsonModel)>, b: Seq<(Seq<char>, JsonModel)>, key: Seq<char>)
    requires
        find_member(a, key) is None,
        find_member(b, key) is None,
    ensures
        find_member(a + b, key) is None,
{
    lemma_find_member_concat(a, b, key);
}

/// The header members never carry `key` when it differs from each of them.
proof fn lemma_header_lacks(kind: Seq<char>, tag: Seq<char>, server: Seq<char>, port: u16, key: Seq<char>)
    requires
        key != "type"@,
        key != "tag"@,
        key != "server"@,
        key != "server_port"@,
    ensures
        find_member(header_members(kind, tag, server, port), key) is None,
{
    lemma_find_one("type"@, txt(kind), key);
    lemma_find_one("tag"@, txt(tag), key);
    lemma_find_one("server"@, txt(server), key);
    lemma_find_one("server_port"@, JsonModel::Num(port as int), key);
    lemma_find_none(member("type"@, txt(kind)), member("tag"@, txt(tag)), key);
    lemma_find_none(
        member("type"@, txt(kind)) + member("tag"@, txt(tag)),
        member("server"@, txt(server)),
        key,
    );
    lemma_find_none(
        member("type"@, txt(kind)) + member("tag"@, txt(tag)) + member("server"@, txt(server)),
        member("server_port"@, JsonModel::Num(port as int)),
        key,
    );
}

/// An optional text member carries only its own key.
proof fn lemma_text_member_lacks(k: Seq<char>, value: Option<Seq<char>>, key: Seq<char>)
    requires
        k != key,
    ensures
        find_member(text_member(k, value), key) is None,
{
    if let Some(s) = value {
        lemma_find_one(k, txt(s), key);
    }
}

/// A member that may be left out carries only its own key.
proof fn lemma_member_if_lacks(present: bool, k: Seq<char>, v: JsonModel, key: Seq<char>)
    requires
        k != key,
    ensures
        find_member(member_if(present, k, v), key) is None,
{
    if present {
        lemma_find_one(k, v, key);
    } else {
        assert(find_member(Seq::<(Seq<char>, JsonModel)>::empty(), key) is None);
    }
}

/// The optional text member for `value`, looked up by its own key.
proof fn lemma_text_member_finds(k: Seq<char>, value: Option<Seq<char>>)
    ensures
        find_member(text_member(k, value), k) == match value {
            Some(x) => Some(JsonModel::Text(x)),
            None => None::<JsonModel>,
        },
{
    match value {
        Some(x) => lemma_find_one(k, txt(x), k),
        None => assert(find_member(Seq::<(Seq<char>, JsonModel)>::empty(), k) is None),
    }
}

/// The optional member for `value`, looked up by its own key.
proof fn lemma_optional_finds(k: Seq<char>, value: Option<JsonModel>)
    ensures
        find_member(optional(k, value), k) == value,
{
    match value {
        Some(x) => lemma_find_one(k, x, k),
        None => assert(find_member(Seq::<(Seq<char>, JsonModel)>::empty(), k) is None),
    }
}

/// An optional member carries only its own key.
proof fn lemma_optional_lacks(k: Seq<char>, value: Option<JsonModel>, key: Seq<char>)
    requires
        k != key,
    ensures
        find_member(optional(k, value), key) is None,
{
    if let Some(v) = value {
        lemma_find_one(k, v, key);
    }
}

/// A plaintext VLESS or VMess outbound carries no `tls` member at all:
/// sing-box builds a TLS dialer from a present-but-disabled block and then
/// fails on it, so the key has to be absent rather than disabled.
pub proof fn lemma_plaintext_has_no_tls(parsed: ParsedOutbound, tag: Seq<char>)
    requires
        parsed matches ParsedOutbound::Vless(o) ==> !o.tls,
        parsed matches ParsedOutbound::Vmess(o) ==> !o.tls,
        parsed is Vless || parsed is Vmess,
    ensures
        field(outbound_model(parsed, tag), "tls"@) is None,
{
    reveal_strlit("tls");
    reveal_strlit("type");
    reveal_strlit("tag");
    reveal_strlit("server");
    reveal_strlit("server_port");
    reveal_strlit("uuid");
    reveal_strlit("flow");
    reveal_strlit("transport");
    reveal_strlit("alter_id");
    reveal_strlit("security");
    let key = "tls"@;
    assert("tag"@[1] != key[1]);
    assert("type"@ != key) by { assert("type"@.len() != key.len()); }
    assert("server"@ != key) by { assert("server"@.len() != key.len()); }
    assert("server_port"@ != key) by { assert("server_port"@.len() != key.len()); }
    assert("uuid"@ != key) by { assert("uuid"@.len() != key.len()); }
    assert("flow"@ != key) by { assert("flow"@.len() != key.len()); }
    assert("transport"@ != key) by { assert("transport"@.len() != key.len()); }
    assert("alter_id"@ != key) by { assert("alter_id"@.len() != key.len()); }
    assert("security"@ != key) by { assert("security"@.len() != key.len()); }
    match parsed {
        ParsedOutbound::Vless(o) => {
            let h = header_members("vless"@, tag, o.server@, o.port);
            let u = member("uuid"@, txt(o.uuid@));
            let t = member_if(
                o.tls,
                "tls"@,
                JsonModel::Object(
                    tls_members(opt_chars(o.sni), false) + reality_members(o) + utls_members(o),
                ),
            );
            let f = text_member("flow"@, opt_chars(o.flow));
            let tr = optional(
                "transport"@,
                transport_model(
                    o.network@,
                    opt_chars(o.ws_path),
                    opt_chars(o.ws_host),
                    opt_chars(o.grpc_service_name),
                ),
            );
            lemma_header_lacks("vless"@, tag, o.server@, o.port, key);
            lemma_find_one("uuid"@, txt(o.uuid@), key);
            assert(t =~= Seq::<(Seq<char>, JsonModel)>::empty());
            lemma_text_member_lacks("flow"@, opt_chars(o.flow), key);
            lemma_optional_lacks(
                "transport"@,
                transport_model(
                    o.network@,
                    opt_chars(o.ws_path),
                    opt_chars(o.ws_host),
                    opt_chars(o.grpc_service_name),
                ),
                key,
            );
            lemma_find_none(h, u, key);
            lemma_find_none(h + u, t, key);
            lemma_find_none(h + u + t, f, key);
            lemma_find_none(h + u + t + f, tr, key);
        },
        ParsedOutbound::Vmess(o) => {
            let h = header_members("vmess"@, tag, o.server@, o.port);
            let u = member("uuid"@, txt(o.uuid@));
            let a = member("alter_id"@, JsonModel::Num(o.alter_id as int));
            let sec = member("security"@, txt(o.security@));
            let t = optional("tls"@, tls_model(o.tls, opt_chars(o.sni), false));
            let tr = optional(
                "transport"@,
                transport_model(o.network@, opt_chars(o.ws_path), opt_chars(o.ws_host), None),
            );
            lemma_header_lacks("vmess"@, tag, o.server@, o.port, key);
            lemma_find_one("uuid"@, txt(o.uuid@), key);
            lemma_find_one("alter_id"@, JsonModel::Num(o.alter_id as int), key);
            lemma_find_one("security"@, txt(o.security@), key);
            assert(t =~= Seq::<(Seq<char>, JsonModel)>::empty());
            lemma_optional_lacks(
                "transport"@,
                transport_model(o.network@, opt_chars(o.ws_path), opt_chars(o.ws_host), None),
                key,
            );
            lemma_find_none(h, u, key);
            lemma_find_none(h + u, a, key);
            lemma_find_none(h + u + a, sec, key);
            lemma_find_none(h + u + a + sec, t, key);
            lemma_find_none(h + u + a + sec + t, tr, key);
        },
        _ => {},
    }
}

/// The header members carry the tag they were given.
proof fn lemma_header_tag(kind: Seq<char>, tag: Seq<char>, server: Seq<char>, port: u16)
    ensures
        find_member(header_members(kind, tag, server, port), "tag"@) == Some(txt(tag)),
{
    reveal_strlit("type");
    reveal_strlit("tag");
    let key = "tag"@;
    assert("type"@ != key) by { assert("type"@.len() != key.len()); }
    lemma_find_one("type"@, txt(kind), key);
    lemma_find_one("tag"@, txt(tag), key);
    let a = member("type"@, txt(kind)) + member("tag"@, txt(tag));
    lemma_find_member_concat(member("type"@, txt(kind)), member("tag"@, txt(tag)), key);
    lemma_find_member_concat(a, member("server"@, txt(server)), key);
    lemma_find_member_concat(
        a + member("server"@, txt(server)),
        member("server_port"@, JsonModel::Num(port as int)),
        key,
    );
}

/// Every outbound carries the tag it was given, which is what routing
/// rules and the selector refer to it by.
pub proof fn lemma_outbound_is_tagged(parsed: ParsedOutbound, tag: Seq<char>)
    ensures
        field(outbound_model(parsed, tag), "tag"@) == Some(txt(tag)),
{
    let key = "tag"@;
    match parsed {
        ParsedOutbound::Vless(o) => {
            let h = header_members("vless"@, tag, o.server@, o.port);
            let u = member("uuid"@, txt(o.uuid@));
            let t = member_if(
                o.tls,
                "tls"@,
                JsonModel::Object(
                    tls_members(opt_chars(o.sni), false) + reality_members(o) + utls_members(o),
                ),
            );
            let f = text_member("flow"@, opt_chars(o.flow));
            let tr = optional(
                "transport"@,
                transport_model(
                    o.network@,
                    opt_chars(o.ws_path),
                    opt_chars(o.ws_host),
                    opt_chars(o.grpc_service_name),
                ),
            );
            lemma_header_tag("vless"@, tag, o.server@, o.port);
            lemma_find_member_concat(h, u, key);
            lemma_find_member_concat(h + u, t, key);
            lemma_find_member_concat(h + u + t, f, key);
            lemma_find_member_concat(h + u + t + f, tr, key);
        },
        ParsedOutbound::Vmess(o) => {
            let h = header_members("vmess"@, tag, o.server@, o.port);
            let u = member("uuid"@, txt(o.uuid@));
            let a = member("alter_id"@, JsonModel::Num(o.alter_id as int));
            let sec = member("security"@, txt(o.security@));
            let t = optional("tls"@, tls_model(o.tls, opt_chars(o.sni), false));
            let tr = optional(
                "transport"@,
                transport_model(o.network@, opt_chars(o.ws_path), opt_chars(o.ws_host), None),
            );
            lemma_header_tag("vmess"@, tag, o.server@, o.port);
            lemma_find_member_concat(h, u, key);
            lemma_find_member_concat(h + u, a, key);
            lemma_find_member_concat(h + u + a, sec, key);
            lemma_find_member_concat(h + u + a + sec, t, key);
            lemma_find_member_concat(h + u + a + sec + t, tr, key);
        },
        ParsedOutbound::Trojan(o) => {
            let h = header_members("trojan"@, tag, o.server@, o.port);
            let p = member("password"@, txt(o.password@));
            let t = member("tls"@, JsonModel::Object(tls_members(opt_chars(o.sni), false)));
            let tr = optional("transport"@, transport_model(o.network@, None, None, None));
            lemma_header_tag("trojan"@, tag, o.server@, o.port);
            lemma_find_member_concat(h, p, key);
            lemma_find_member_concat(h + p, t, key);
            lemma_find_member_concat(h + p + t, tr, key);
        },
        ParsedOutbound::Shadowsocks(o) => {
            let h = header_members("shadowsocks"@, tag, o.server@, o.port);
            let m = member("method"@, txt(o.method@));
            let p = member("password"@, txt(o.password@));
            lemma_header_tag("shadowsocks"@, tag, o.server@, o.port);
            lemma_find_member_concat(h, m, key);
            lemma_find_member_concat(h + m, p, key);
        },
        ParsedOutbound::Hysteria2(o) => {
            let h = header_members("hysteria2"@, tag, o.server@, o.port);
            let p = member("password"@, txt(o.password@));
            let t = member("tls"@, JsonModel::Object(tls_members(opt_chars(o.sni), o.insecure)));
            let ob = member_if(
                o.obfs is Some || o.obfs_password is Some,
                "obfs"@,
                JsonModel::Object(
                    member("type"@, txt(or_empty(o.obfs))) + member(
                        "password"@,
                        txt(or_empty(o.obfs_password)),
                    ),
                ),
            );
            lemma_header_tag("hysteria2"@, tag, o.server@, o.port);
            lemma_find_member_concat(h, p, key);
            lemma_find_member_concat(h + p, t, key);
            lemma_find_member_concat(h + p + t, ob, key);
        },
        ParsedOutbound::Tuic(o) => {
            let h = header_members("tuic"@, tag, o.server@, o.port);
            let u = member("uuid"@, txt(o.uuid@));
            let p = member("password"@, txt(o.password@));
            let t = member(
                "tls"@,
                JsonModel::Object(
                    tls_members(opt_chars(o.sni), false) + member_if(
                        o.alpn@.len() > 0,
                        "alpn"@,
                        JsonModel::List(Seq::new(o.alpn@.len(), |i: int| txt(o.alpn@[i]@))),
                    ),
                ),
            );
            let c = text_member("congestion_control"@, opt_chars(o.congestion_control));
            lemma_header_tag("tuic"@, tag, o.server@, o.port);
            lemma_find_member_concat(h, u, key);
            lemma_find_member_concat(h + u, p, key);
            lemma_find_member_concat(h + u + p, t, key);
            lemma_find_member_concat(h + u + p + t, c, key);
        },
    }
}

/// The member names an outbound object uses, told apart.
proof fn lemma_outbound_keys_differ()
    ensures
        "type"@ != "tag"@,
        "type"@ != "server"@,
        "type"@ != "server_port"@,
        "tag"@ != "server"@,
        "tag"@ != "server_port"@,
        "server"@ != "server_port"@,
        "uuid"@ != "type"@,
        "uuid"@ != "tag"@,
        "uuid"@ != "server"@,
        "uuid"@ != "server_port"@,
        "method"@ != "type"@,
        "method"@ != "tag"@,
        "method"@ != "server"@,
        "method"@ != "server_port"@,
        "password"@ != "type"@,
        "password"@ != "tag"@,
        "password"@ != "server"@,
        "password"@ != "server_port"@,
        "password"@ != "method"@,
        "password"@ != "uuid"@,
        "alter_id"@ != "type"@,
        "alter_id"@ != "tag"@,
        "alter_id"@ != "server"@,
        "alter_id"@ != "server_port"@,
        "alter_id"@ != "uuid"@,
        "security"@ != "type"@,
        "security"@ != "tag"@,
        "security"@ != "server"@,
        "security"@ != "server_port"@,
        "security"@ != "uuid"@,
        "security"@ != "alter_id"@,
        "tls"@ != "type"@,
        "tls"@ != "tag"@,
        "tls"@ != "server"@,
        "tls"@ != "server_port"@,
        "tls"@ != "uuid"@,
        "tls"@ != "password"@,
        "tls"@ != "alter_id"@,
        "tls"@ != "security"@,
{
    reveal_strlit("type");
    reveal_strlit("tag");
    reveal_strlit("server");
    reveal_strlit("server_port");
    reveal_strlit("uuid");
    reveal_strlit("method");
    reveal_strlit("password");
    reveal_strlit("alter_id");
    reveal_strlit("security");
    assert("type"@[1] != "tag"@[1]);
    assert("type"@.len() != "server"@.len());
    assert("type"@.len() != "server_port"@.len());
    assert("tag"@.len() != "server"@.len());
    assert("tag"@.len() != "server_port"@.len());
    assert("server"@.len() != "server_port"@.len());
    assert("uuid"@[0] != "type"@[0]);
    assert("uuid"@.len() != "tag"@.len());
    assert("uuid"@.len() != "server"@.len());
    assert("uuid"@.len() != "server_port"@.len());
    assert("method"@.len() != "type"@.len());
    assert("method"@.len() != "tag"@.len());
    assert("method"@[0] != "server"@[0]);
    assert("method"@.len() != "server_port"@.len());
    assert("password"@.len() != "type"@.len());
    assert("password"@.len() != "tag"@.len());
    assert("password"@.len() != "server"@.len());
    assert("password"@.len() != "server_port"@.len());
    assert("password"@.len() != "method"@.len());
    assert("password"@.len() != "uuid"@.len());
    assert("alter_id"@.len() != "type"@.len());
    assert("alter_id"@.len() != "tag"@.len());
    assert("alter_id"@.len() != "server"@.len());
    assert("alter_id"@.len() != "server_port"@.len());
    assert("alter_id"@.len() != "uuid"@.len());
    assert("security"@.len() != "type"@.len());
    assert("security"@.len() != "tag"@.len());
    assert("security"@.len() != "server"@.len());
    assert("security"@.len() != "server_port"@.len());
    assert("security"@.len() != "uuid"@.len());
    assert("security"@[0] != "alter_id"@[0]);
    reveal_strlit("tls");
    assert("tls"@.len() != "type"@.len());
    assert("tls"@[1] != "tag"@[1]);
    assert("tls"@.len() != "server"@.len());
    assert("tls"@.len() != "server_port"@.len());
    assert("tls"@.len() != "uuid"@.len());
    assert("tls"@.len() != "password"@.len());
    assert("tls"@.len() != "alter_id"@.len());
    assert("tls"@.len() != "security"@.len());
}

/// In an object that starts with the header members, the kind, server and
/// port are found under their names, and any other name is looked up past
/// the header.
proof fn lemma_header_lookup(
    kind: Seq<char>,
    tag: Seq<char>,
    server: Seq<char>,
    port: u16,
    rest: Seq<(Seq<char>, JsonModel)>,
    key: Seq<char>,
)
    ensures
        find_member(header_members(kind, tag, server, port) + rest, "type"@) == Some(
            JsonModel::Text(kind),
        ),
        find_member(header_members(kind, tag, server, port) + rest, "server"@) == Some(
            JsonModel::Text(server),
        ),
        find_member(header_members(kind, tag, server, port) + rest, "server_port"@) == Some(
            JsonModel::Num(port as int),
        ),
        key != "type"@ && key != "tag"@ && key != "server"@ && key != "server_port"@ ==> find_member(
            header_members(kind, tag, server, port) + rest,
            key,
        ) == find_member(rest, key),
{
    lemma_outbound_keys_differ();
    let a = member("type"@, txt(kind));
    let b = member("tag"@, txt(tag));
    let c = member("server"@, txt(server));
    let d = member("server_port"@, JsonModel::Num(port as int));
    assert(header_members(kind, tag, server, port) == a + b + c + d);
    let ks = seq!["type"@, "server"@, "server_port"@, key];
    assert forall|j: int| 0 <= j < 4 implies {
        let k = #[trigger] ks[j];
        &&& find_member(a + b + c + d + rest, k) == match find_member(a + b + c + d, k) {
            Some(v) => Some(v),
            None => find_member(rest, k),
        }
        &&& find_member(a + b + c + d, k) == if k == "type"@ {
            Some(txt(kind))
        } else if k == "tag"@ {
            Some(txt(tag))
        } else if k == "server"@ {
            Some(txt(server))
        } else if k == "server_port"@ {
            Some(JsonModel::Num(port as int))
        } else {
            None::<JsonModel>
        }
    } by {
        let k = ks[j];
        lemma_find_one("type"@, txt(kind), k);
        lemma_find_one("tag"@, txt(tag), k);
        lemma_find_one("server"@, txt(server), k);
        lemma_find_one("server_port"@, JsonModel::Num(port as int), k);
        lemma_find_member_concat(a, b, k);
        lemma_find_member_concat(a + b, c, k);
        lemma_find_member_concat(a + b + c, d, k);
        lemma_find_member_concat(a + b + c + d, rest, k);
    }
    assert(ks[0] == "type"@);
    assert(ks[1] == "server"@);
    assert(ks[2] == "server_port"@);
    assert(ks[3] == key);
}

/// A Shadowsocks outbound dials the link's server and port with the link's
/// cipher as `method` and its secret as `password`.
pub proof fn lemma_shadowsocks_outbound_fields(o: ShadowsocksOutbound, tag: Seq<char>)
    ensures
        field(outbound_model(ParsedOutbound::Shadowsocks(o), tag), "type"@) == Some(
            JsonModel::Text("shadowsocks"@),
        ),
        field(outbound_model(ParsedOutbound::Shadowsocks(o), tag), "server"@) == Some(
            JsonModel::Text(o.server@),
        ),
        field(outbound_model(ParsedOutbound::Shadowsocks(o), tag), "server_port"@) == Some(
            JsonModel::Num(o.port as int),
        ),
        field(outbound_model(ParsedOutbound::Shadowsocks(o), tag), "method"@) == Some(
            JsonModel::Text(o.method@),
        ),
        field(outbound_model(ParsedOutbound::Shadowsocks(o), tag), "password"@) == Some(
            JsonModel::Text(o.password@),
        ),
{
    lemma_outbound_keys_differ();
    let m = member("method"@, txt(o.method@));
    let p = member("password"@, txt(o.password@));
    let h = header_members("shadowsocks"@, tag, o.server@, o.port);
    assert(h + m + p == h + (m + p));
    lemma_header_lookup("shadowsocks"@, tag, o.server@, o.port, m + p, "method"@);
    lemma_header_lookup("shadowsocks"@, tag, o.server@, o.port, m + p, "password"@);
    lemma_find_one("method"@, txt(o.method@), "method"@);
    lemma_find_one("method"@, txt(o.method@), "password"@);
    lemma_find_one("password"@, txt(o.password@), "password"@);
    lemma_find_member_concat(m, p, "method"@);
    lemma_find_member_concat(m, p, "password"@);
}

/// A VLESS outbound dials the link's server and port as the link's user.
pub proof fn lemma_vless_outbound_fields(o: VlessOutbound, tag: Seq<char>)
    ensures
        field(outbound_model(ParsedOutbound::Vless(o), tag), "type"@) == Some(JsonModel::Text("vless"@)),
        field(outbound_model(ParsedOutbound::Vless(o), tag), "server"@) == Some(JsonModel::Text(o.server@)),
        field(outbound_model(ParsedOutbound::Vless(o), tag), "server_port"@) == Some(
            JsonModel::Num(o.port as int),
        ),
        field(outbound_model(ParsedOutbound::Vless(o), tag), "uuid"@) == Some(JsonModel::Text(o.uuid@)),
        field(outbound_model(ParsedOutbound::Vless(o), tag), "flow"@) == match o.flow {
            Some(f) => Some(JsonModel::Text(f@)),
            None => None::<JsonModel>,
        },
        field(outbound_model(ParsedOutbound::Vless(o), tag), "transport"@) == transport_model(
            o.network@,
            opt_chars(o.ws_path),
            opt_chars(o.ws_host),
            opt_chars(o.grpc_service_name),
        ),
{
    lemma_outbound_keys_differ();
    let h = header_members("vless"@, tag, o.server@, o.port);
    let u = member("uuid"@, txt(o.uuid@));
    let t = member_if(
        o.tls,
        "tls"@,
        JsonModel::Object(tls_members(opt_chars(o.sni), false) + reality_members(o) + utls_members(o)),
    );
    let f = text_member("flow"@, opt_chars(o.flow));
    let tr = optional(
        "transport"@,
        transport_model(o.network@, opt_chars(o.ws_path), opt_chars(o.ws_host), opt_chars(o.grpc_service_name)),
    );
    lemma_header_lookup("vless"@, tag, o.server@, o.port, u, "type"@);
    lemma_find_one("uuid"@, txt(o.uuid@), "type"@);
    lemma_find_member_concat(h + u, t, "type"@);
    lemma_find_member_concat(h + u + t, f, "type"@);
    lemma_find_member_concat(h + u + t + f, tr, "type"@);
    lemma_header_lookup("vless"@, tag, o.server@, o.port, u, "server"@);
    lemma_find_one("uuid"@, txt(o.uuid@), "server"@);
    lemma_find_member_concat(h + u, t, "server"@);
    lemma_find_member_concat(h + u + t, f, "server"@);
    lemma_find_member_concat(h + u + t + f, tr, "server"@);
    lemma_header_lookup("vless"@, tag, o.server@, o.port, u, "server_port"@);
    lemma_find_one("uuid"@, txt(o.uuid@), "server_port"@);
    lemma_find_member_concat(h + u, t, "server_port"@);
    lemma_find_member_concat(h + u + t, f, "server_port"@);
    lemma_find_member_concat(h + u + t + f, tr, "server_port"@);
    lemma_header_lookup("vless"@, tag, o.server@, o.port, u, "uuid"@);
    lemma_find_one("uuid"@, txt(o.uuid@), "uuid"@);
    lemma_find_member_concat(h + u, t, "uuid"@);
    lemma_find_member_concat(h + u + t, f, "uuid"@);
    lemma_find_member_concat(h + u + t + f, tr, "uuid"@);
    reveal_strlit("flow");
    reveal_strlit("transport");
    reveal_strlit("tls");
    reveal_strlit("type");
    reveal_strlit("tag");
    reveal_strlit("server");
    reveal_strlit("server_port");
    reveal_strlit("uuid");
    reveal_strlit("password");
    reveal_strlit("alter_id");
    reveal_strlit("security");
    assert("flow"@ != "type"@ && "flow"@ != "tag"@ && "flow"@ != "server"@) by {
        assert("flow"@[0] != "type"@[0] && "flow"@.len() != "tag"@.len() && "flow"@.len() != "server"@.len());
    }
    assert("flow"@ != "server_port"@ && "flow"@ != "uuid"@ && "flow"@ != "tls"@) by {
        assert("flow"@.len() != "server_port"@.len() && "flow"@[0] != "uuid"@[0] && "flow"@.len() != "tls"@.len());
    }
    assert("transport"@ != "type"@ && "transport"@ != "tag"@ && "transport"@ != "server"@) by {
        assert("transport"@.len() != "type"@.len() && "transport"@.len() != "tag"@.len() && "transport"@.len() != "server"@.len());
    }
    assert("transport"@ != "server_port"@ && "transport"@ != "uuid"@ && "transport"@ != "tls"@) by {
        assert("transport"@.len() != "server_port"@.len() && "transport"@.len() != "uuid"@.len() && "transport"@.len() != "tls"@.len());
    }
    assert("transport"@ != "flow"@) by { assert("transport"@.len() != "flow"@.len()); }
    let tls_obj = JsonModel::Object(tls_members(opt_chars(o.sni), false) + reality_members(o) + utls_members(o));
    let tm = transport_model(o.network@, opt_chars(o.ws_path), opt_chars(o.ws_host), opt_chars(o.grpc_service_name));
    lemma_header_lookup("vless"@, tag, o.server@, o.port, u, "flow"@);
    lemma_find_one("uuid"@, txt(o.uuid@), "flow"@);
    lemma_member_if_lacks(o.tls, "tls"@, tls_obj, "flow"@);
    lemma_text_member_finds("flow"@, opt_chars(o.flow));
    lemma_optional_lacks("transport"@, tm, "flow"@);
    lemma_find_member_concat(h + u, t, "flow"@);
    lemma_find_member_concat(h + u + t, f, "flow"@);
    lemma_find_member_concat(h + u + t + f, tr, "flow"@);
    lemma_header_lookup("vless"@, tag, o.server@, o.port, u, "transport"@);
    lemma_find_one("uuid"@, txt(o.uuid@), "transport"@);
    lemma_member_if_lacks(o.tls, "tls"@, tls_obj, "transport"@);
    lemma_text_member_lacks("flow"@, opt_chars(o.flow), "transport"@);
    lemma_optional_finds("transport"@, tm);
    lemma_find_member_concat(h + u, t, "transport"@);
    lemma_find_member_concat(h + u + t, f, "transport"@);
    lemma_find_member_concat(h + u + t + f, tr, "transport"@);
}

/// A VMess outbound dials the link's server and port as the link's user,
/// with its alter id and cipher.
pub proof fn lemma_vmess_outbound_fields(o: VmessOutbound, tag: Seq<char>)
    ensures
        field(outbound_model(ParsedOutbound::Vmess(o), tag), "type"@) == Some(JsonModel::Text("vmess"@)),
        field(outbound_model(ParsedOutbound::Vmess(o), tag), "server"@) == Some(JsonModel::Text(o.server@)),
        field(outbound_model(ParsedOutbound::Vmess(o), tag), "server_port"@) == Some(
            JsonModel::Num(o.port as int),
        ),
        field(outbound_model(ParsedOutbound::Vmess(o), tag), "uuid"@) == Some(JsonModel::Text(o.uuid@)),
        field(outbound_model(ParsedOutbound::Vmess(o), tag), "alter_id"@) == Some(
            JsonModel::Num(o.alter_id as int),
        ),
        field(outbound_model(ParsedOutbound::Vmess(o), tag), "security"@) == Some(
            JsonModel::Text(o.security@),
        ),
        field(outbound_model(ParsedOutbound::Vmess(o), tag), "tls"@) == tls_model(
            o.tls,
            opt_chars(o.sni),
            false,
        ),
        field(outbound_model(ParsedOutbound::Vmess(o), tag), "transport"@) == transport_model(
            o.network@,
            opt_chars(o.ws_path),
            opt_chars(o.ws_host),
            None,
        ),
{
    lemma_outbound_keys_differ();
    let h = header_members("vmess"@, tag, o.server@, o.port);
    let u = member("uuid"@, txt(o.uuid@));
    let a = member("alter_id"@, JsonModel::Num(o.alter_id as int));
    let sec = member("security"@, txt(o.security@));
    let t = optional("tls"@, tls_model(o.tls, opt_chars(o.sni), false));
    let tr = optional(
        "transport"@,
        transport_model(o.network@, opt_chars(o.ws_path), opt_chars(o.ws_host), None),
    );
    lemma_header_lookup("vmess"@, tag, o.server@, o.port, u, "type"@);
    lemma_find_one("uuid"@, txt(o.uuid@), "type"@);
    lemma_find_one("alter_id"@, JsonModel::Num(o.alter_id as int), "type"@);
    lemma_find_one("security"@, txt(o.security@), "type"@);
    lemma_find_member_concat(h + u, a, "type"@);
    lemma_find_member_concat(h + u + a, sec, "type"@);
    lemma_find_member_concat(h + u + a + sec, t, "type"@);
    lemma_find_member_concat(h + u + a + sec + t, tr, "type"@);
    lemma_header_lookup("vmess"@, tag, o.server@, o.port, u, "server"@);
    lemma_find_one("uuid"@, txt(o.uuid@), "server"@);
    lemma_find_one("alter_id"@, JsonModel::Num(o.alter_id as int), "server"@);
    lemma_find_one("security"@, txt(o.security@), "server"@);
    lemma_find_member_concat(h + u, a, "server"@);
    lemma_find_member_concat(h + u + a, sec, "server"@);
    lemma_find_member_concat(h + u + a + sec, t, "server"@);
    lemma_find_member_concat(h + u + a + sec + t, tr, "server"@);
    lemma_header_lookup("vmess"@, tag, o.server@, o.port, u, "server_port"@);
    lemma_find_one("uuid"@, txt(o.uuid@), "server_port"@);
    lemma_find_one("alter_id"@, JsonModel::Num(o.alter_id as int), "server_port"@);
    lemma_find_one("security"@, txt(o.security@), "server_port"@);
    lemma_find_member_concat(h + u, a, "server_port"@);
    lemma_find_member_concat(h + u + a, sec, "server_port"@);
    lemma_find_member_concat(h + u + a + sec, t, "server_port"@);
    lemma_find_member_concat(h + u + a + sec + t, tr, "server_port"@);
    lemma_header_lookup("vmess"@, tag, o.server@, o.port, u, "uuid"@);
    lemma_find_one("uuid"@, txt(o.uuid@), "uuid"@);
    lemma_find_one("alter_id"@, JsonModel::Num(o.alter_id as int), "uuid"@);
    lemma_find_one("security"@, txt(o.security@), "uuid"@);
    lemma_find_member_concat(h + u, a, "uuid"@);
    lemma_find_member_concat(h + u + a, sec, "uuid"@);
    lemma_find_member_concat(h + u + a + sec, t, "uuid"@);
    lemma_find_member_concat(h + u + a + sec + t, tr, "uuid"@);
    lemma_header_lookup("vmess"@, tag, o.server@, o.port, u, "alter_id"@);
    lemma_find_one("uuid"@, txt(o.uuid@), "alter_id"@);
    lemma_find_one("alter_id"@, JsonModel::Num(o.alter_id as int), "alter_id"@);
    lemma_find_one("security"@, txt(o.security@), "alter_id"@);
    lemma_find_member_concat(h + u, a, "alter_id"@);
    lemma_find_member_concat(h + u + a, sec, "alter_id"@);
    lemma_find_member_concat(h + u + a + sec, t, "alter_id"@);
    lemma_find_member_concat(h + u + a + sec + t, tr, "alter_id"@);
    lemma_header_lookup("vmess"@, tag, o.server@, o.port, u, "security"@);
    lemma_find_one("uuid"@, txt(o.uuid@), "security"@);
    lemma_find_one("alter_id"@, JsonModel::Num(o.alter_id as int), "security"@);
    lemma_find_one("security"@, txt(o.security@), "security"@);
    lemma_find_member_concat(h + u, a, "security"@);
    lemma_find_member_concat(h + u + a, sec, "security"@);
    lemma_find_member_concat(h + u + a + sec, t, "security"@);
    lemma_find_member_concat(h + u + a + sec + t, tr, "security"@);
    lemma_header_lookup("vmess"@, tag, o.server@, o.port, u, "tls"@);
    lemma_find_one("uuid"@, txt(o.uuid@), "tls"@);
    lemma_find_one("alter_id"@, JsonModel::Num(o.alter_id as int), "tls"@);
    lemma_find_one("security"@, txt(o.security@), "tls"@);
    if o.tls {
        lemma_find_one("tls"@, JsonModel::Object(tls_members(opt_chars(o.sni), false)), "tls"@);
    } else {
        assert(find_member(Seq::<(Seq<char>, JsonModel)>::empty(), "tls"@) is None);
    }
    reveal_strlit("transport");
    reveal_strlit("tls");
    assert("transport"@ != "tls"@) by { assert("transport"@.len() != "tls"@.len()); }
    lemma_optional_lacks("transport"@, transport_model(o.network@, opt_chars(o.ws_path), opt_chars(o.ws_host), None), "tls"@);
    lemma_find_member_concat(h + u, a, "tls"@);
    lemma_find_member_concat(h + u + a, sec, "tls"@);
    lemma_find_member_concat(h + u + a + sec, t, "tls"@);
    lemma_find_member_concat(h + u + a + sec + t, tr, "tls"@);
    reveal_strlit("flow");
    reveal_strlit("transport");
    reveal_strlit("tls");
    reveal_strlit("type");
    reveal_strlit("tag");
    reveal_strlit("server");
    reveal_strlit("server_port");
    reveal_strlit("uuid");
    reveal_strlit("password");
    reveal_strlit("alter_id");
    reveal_strlit("security");
    assert("transport"@ != "type"@ && "transport"@ != "tag"@ && "transport"@ != "server"@) by {
        assert("transport"@.len() != "type"@.len() && "transport"@.len() != "tag"@.len() && "transport"@.len() != "server"@.len());
    }
    assert("transport"@ != "server_port"@ && "transport"@ != "uuid"@ && "transport"@ != "alter_id"@) by {
        assert("transport"@.len() != "server_port"@.len() && "transport"@.len() != "uuid"@.len() && "transport"@.len() != "alter_id"@.len());
    }
    assert("transport"@ != "security"@) by { assert("transport"@.len() != "security"@.len()); }
    let tm = transport_model(o.network@, opt_chars(o.ws_path), opt_chars(o.ws_host), None);
    lemma_header_lookup("vmess"@, tag, o.server@, o.port, u, "transport"@);
    lemma_find_one("uuid"@, txt(o.uuid@), "transport"@);
    lemma_find_one("alter_id"@, JsonModel::Num(o.alter_id as int), "transport"@);
    lemma_find_one("security"@, txt(o.security@), "transport"@);
    lemma_optional_lacks("tls"@, tls_model(o.tls, opt_chars(o.sni), false), "transport"@);
    lemma_optional_finds("transport"@, tm);
    lemma_find_member_concat(h + u, a, "transport"@);
    lemma_find_member_concat(h + u + a, sec, "transport"@);
    lemma_find_member_concat(h + u + a + sec, t, "transport"@);
    lemma_find_member_concat(h + u + a + sec + t, tr, "transport"@);
}

/// A Trojan outbound dials the link's server and port with the link's
/// password.
pub proof fn lemma_trojan_outbound_fields(o: TrojanOutbound, tag: Seq<char>)
    ensures
        field(outbound_model(ParsedOutbound::Trojan(o), tag), "type"@) == Some(JsonModel::Text("trojan"@)),
        field(outbound_model(ParsedOutbound::Trojan(o), tag), "server"@) == Some(JsonModel::Text(o.server@)),
        field(outbound_model(ParsedOutbound::Trojan(o), tag), "server_port"@) == Some(
            JsonModel::Num(o.port as int),
        ),
        field(outbound_model(ParsedOutbound::Trojan(o), tag), "password"@) == Some(
            JsonModel::Text(o.password@),
        ),
        field(outbound_model(ParsedOutbound::Trojan(o), tag), "tls"@) == Some(
            JsonModel::Object(tls_members(opt_chars(o.sni), false)),
        ),
        field(outbound_model(ParsedOutbound::Trojan(o), tag), "transport"@) == transport_model(
            o.network@,
            None,
            None,
            None,
        ),
{
    lemma_outbound_keys_differ();
    let h = header_members("trojan"@, tag, o.server@, o.port);
    let p = member("password"@, txt(o.password@));
    let t = member("tls"@, JsonModel::Object(tls_members(opt_chars(o.sni), false)));
    let tr = optional("transport"@, transport_model(o.network@, None, None, None));
    lemma_header_lookup("trojan"@, tag, o.server@, o.port, p, "type"@);
    lemma_find_one("password"@, txt(o.password@), "type"@);
    lemma_find_member_concat(h + p, t, "type"@);
    lemma_find_member_concat(h + p + t, tr, "type"@);
    lemma_header_lookup("trojan"@, tag, o.server@, o.port, p, "server"@);
    lemma_find_one("password"@, txt(o.password@), "server"@);
    lemma_find_member_concat(h + p, t, "server"@);
    lemma_find_member_concat(h + p + t, tr, "server"@);
    lemma_header_lookup("trojan"@, tag, o.server@, o.port, p, "server_port"@);
    lemma_find_one("password"@, txt(o.password@), "server_port"@);
    lemma_find_member_concat(h + p, t, "server_port"@);
    lemma_find_member_concat(h + p + t, tr, "server_port"@);
    lemma_header_lookup("trojan"@, tag, o.server@, o.port, p, "password"@);
    lemma_find_one("password"@, txt(o.password@), "password"@);
    lemma_find_member_concat(h + p, t, "password"@);
    lemma_find_member_concat(h + p + t, tr, "password"@);
    lemma_header_lookup("trojan"@, tag, o.server@, o.port, p, "tls"@);
    lemma_find_one("password"@, txt(o.password@), "tls"@);
    lemma_find_one("tls"@, JsonModel::Object(tls_members(opt_chars(o.sni), false)), "tls"@);
    lemma_find_member_concat(h + p, t, "tls"@);
    lemma_find_member_concat(h + p + t, tr, "tls"@);
    reveal_strlit("flow");
    reveal_strlit("transport");
    reveal_strlit("tls");
    reveal_strlit("type");
    reveal_strlit("tag");
    reveal_strlit("server");
    reveal_strlit("server_port");
    reveal_strlit("uuid");
    reveal_strlit("password");
    reveal_strlit("alter_id");
    reveal_strlit("security");
    assert("transport"@ != "type"@ && "transport"@ != "tag"@ && "transport"@ != "server"@) by {
        assert("transport"@.len() != "type"@.len() && "transport"@.len() != "tag"@.len() && "transport"@.len() != "server"@.len());
    }
    assert("transport"@ != "server_port"@ && "transport"@ != "password"@ && "transport"@ != "tls"@) by {
        assert("transport"@.len() != "server_port"@.len() && "transport"@.len() != "password"@.len() && "transport"@.len() != "tls"@.len());
    }
    let tm = transport_model(o.network@, None, None, None);
    lemma_header_lookup("trojan"@, tag, o.server@, o.port, p, "transport"@);
    lemma_find_one("password"@, txt(o.password@), "transport"@);
    lemma_find_one("tls"@, JsonModel::Object(tls_members(opt_chars(o.sni), false)), "transport"@);
    lemma_optional_finds("transport"@, tm);
    lemma_find_member_concat(h + p, t, "transport"@);
    lemma_find_member_concat(h + p + t, tr, "transport"@);
}

/// A Hysteria2 outbound dials the link's server and port with the link's
/// password.
pub proof fn lemma_hysteria2_outbound_fields(o: Hysteria2Outbound, tag: Seq<char>)
    ensures
        field(outbound_model(ParsedOutbound::Hysteria2(o), tag), "type"@) == Some(
            JsonModel::Text("hysteria2"@),
        ),
        field(outbound_model(ParsedOutbound::Hysteria2(o), tag), "server"@) == Some(
            JsonModel::Text(o.server@),
        ),
        field(outbound_model(ParsedOutbound::Hysteria2(o), tag), "server_port"@) == Some(
            JsonModel::Num(o.port as int),
        ),
        field(outbound_model(ParsedOutbound::Hysteria2(o), tag), "password"@) == Some(
            JsonModel::Text(o.password@),
        ),
        field(outbound_model(ParsedOutbound::Hysteria2(o), tag), "tls"@) == Some(
            JsonModel::Object(tls_members(opt_chars(o.sni), o.insecure)),
        ),
{
    lemma_outbound_keys_differ();
    let h = header_members("hysteria2"@, tag, o.server@, o.port);
    let p = member("password"@, txt(o.password@));
    let t = member("tls"@, JsonModel::Object(tls_members(opt_chars(o.sni), o.insecure)));
    let ob = member_if(
        o.obfs is Some || o.obfs_password is Some,
        "obfs"@,
        JsonModel::Object(
            member("type"@, txt(or_empty(o.obfs))) + member("password"@, txt(or_empty(o.obfs_password))),
        ),
    );
    lemma_header_lookup("hysteria2"@, tag, o.server@, o.port, p, "type"@);
    lemma_find_one("password"@, txt(o.password@), "type"@);
    lemma_find_member_concat(h + p, t, "type"@);
    lemma_find_member_concat(h + p + t, ob, "type"@);
    lemma_header_lookup("hysteria2"@, tag, o.server@, o.port, p, "server"@);
    lemma_find_one("password"@, txt(o.password@), "server"@);
    lemma_find_member_concat(h + p, t, "server"@);
    lemma_find_member_concat(h + p + t, ob, "server"@);
    lemma_header_lookup("hysteria2"@, tag, o.server@, o.port, p, "server_port"@);
    lemma_find_one("password"@, txt(o.password@), "server_port"@);
    lemma_find_member_concat(h + p, t, "server_port"@);
    lemma_find_member_concat(h + p + t, ob, "server_port"@);
    lemma_header_lookup("hysteria2"@, tag, o.server@, o.port, p, "password"@);
    lemma_find_one("password"@, txt(o.password@), "password"@);
    lemma_find_member_concat(h + p, t, "password"@);
    lemma_find_member_concat(h + p + t, ob, "password"@);
    lemma_header_lookup("hysteria2"@, tag, o.server@, o.port, p, "tls"@);
    lemma_find_one("password"@, txt(o.password@), "tls"@);
    lemma_find_one("tls"@, JsonModel::Object(tls_members(opt_chars(o.sni), o.insecure)), "tls"@);
    lemma_find_member_concat(h + p, t, "tls"@);
    lemma_find_member_concat(h + p + t, ob, "tls"@);
}

/// A TUIC outbound dials the link's server and port as the link's user,
/// with its password.
pub proof fn lemma_tuic_outbound_fields(o: TuicOutbound, tag: Seq<char>)
    ensures
        field(outbound_model(ParsedOutbound::Tuic(o), tag), "type"@) == Some(JsonModel::Text("tuic"@)),
        field(outbound_model(ParsedOutbound::Tuic(o), tag), "server"@) == Some(JsonModel::Text(o.server@)),
        field(outbound_model(ParsedOutbound::Tuic(o), tag), "server_port"@) == Some(
            JsonModel::Num(o.port as int),
        ),
        field(outbound_model(ParsedOutbound::Tuic(o), tag), "uuid"@) == Some(JsonModel::Text(o.uuid@)),
        field(outbound_model(ParsedOutbound::Tuic(o), tag), "password"@) == Some(
            JsonModel::Text(o.password@),
        ),
{
    lemma_outbound_keys_differ();
    let h = header_members("tuic"@, tag, o.server@, o.port);
    let u = member("uuid"@, txt(o.uuid@));
    let p = member("password"@, txt(o.password@));
    let t = member(
        "tls"@,
        JsonModel::Object(
            tls_members(opt_chars(o.sni), false) + member_if(
                o.alpn@.len() > 0,
                "alpn"@,
                JsonModel::List(Seq::new(o.alpn@.len(), |i: int| txt(o.alpn@[i]@))),
            ),
        ),
    );
    let c = text_member("congestion_control"@, opt_chars(o.congestion_control));
    lemma_header_lookup("tuic"@, tag, o.server@, o.port, u, "type"@);
    lemma_find_one("uuid"@, txt(o.uuid@), "type"@);
    lemma_find_one("password"@, txt(o.password@), "type"@);
    lemma_find_member_concat(h + u, p, "type"@);
    lemma_find_member_concat(h + u + p, t, "type"@);
    lemma_find_member_concat(h + u + p + t, c, "type"@);
    lemma_header_lookup("tuic"@, tag, o.server@, o.port, u, "server"@);
    lemma_find_one("uuid"@, txt(o.uuid@), "server"@);
    lemma_find_one("password"@, txt(o.password@), "server"@);
    lemma_find_member_concat(h + u, p, "server"@);
    lemma_find_member_concat(h + u + p, t, "server"@);
    lemma_find_member_concat(h + u + p + t, c, "server"@);
    lemma_header_lookup("tuic"@, tag, o.server@, o.port, u, "server_port"@);
    lemma_find_one("uuid"@, txt(o.uuid@), "server_port"@);
    lemma_find_one("password"@, txt(o.password@), "server_port"@);
    lemma_find_member_concat(h + u, p, "server_port"@);
    lemma_find_member_concat(h + u + p, t, "server_port"@);
    lemma_find_member_concat(h + u + p + t, c, "server_port"@);
    lemma_header_lookup("tuic"@, tag, o.server@, o.port, u, "uuid"@);
    lemma_find_one("uuid"@, txt(o.uuid@), "uuid"@);
    lemma_find_one("password"@, txt(o.password@), "uuid"@);
    lemma_find_member_concat(h + u, p, "uuid"@);
    lemma_find_member_concat(h + u + p, t, "uuid"@);
    lemma_find_member_concat(h + u + p + t, c, "uuid"@);
    lemma_header_lookup("tuic"@, tag, o.server@, o.port, u, "password"@);
    lemma_find_one("uuid"@, txt(o.uuid@), "password"@);
    lemma_find_one("password"@, txt(o.password@), "password"@);
    lemma_find_member_concat(h + u, p, "password"@);
    lemma_find_member_concat(h + u + p, t, "password"@);
    lemma_find_member_concat(h + u + p + t, c, "password"@);
}

/// An enabled TLS block names the server the link asked for (`sni`), and
/// skips certificate checks only when the link said so.
pub proof fn lemma_tls_block_fields(sni: Option<Seq<char>>, insecure: bool)
    ensures
        field(JsonModel::Object(tls_members(sni, insecure)), "enabled"@) == Some(JsonModel::Bool(true)),
        field(JsonModel::Object(tls_members(sni, insecure)), "server_name"@) == match sni {
            Some(s) => Some(JsonModel::Text(s)),
            None => None::<JsonModel>,
        },
        field(JsonModel::Object(tls_members(sni, insecure)), "insecure"@) == if insecure {
            Some(JsonModel::Bool(true))
        } else {
            None::<JsonModel>
        },
{
    reveal_strlit("enabled");
    reveal_strlit("server_name");
    reveal_strlit("insecure");
    let e = member("enabled"@, yes());
    let n = text_member("server_name"@, sni);
    let i = member_if(insecure, "insecure"@, yes());
    let keys = seq!["enabled"@, "server_name"@, "insecure"@];
    assert("enabled"@ != "server_name"@) by { assert("enabled"@.len() != "server_name"@.len()); }
    assert("enabled"@ != "insecure"@) by { assert("enabled"@[0] != "insecure"@[0]); }
    assert("server_name"@ != "insecure"@) by { assert("server_name"@.len() != "insecure"@.len()); }
    assert forall|j: int| 0 <= j < 3 implies {
        let k = #[trigger] keys[j];
        &&& find_member(e + n + i, k) == match find_member(e, k) {
            Some(v) => Some(v),
            None => match find_member(n, k) {
                Some(v) => Some(v),
                None => find_member(i, k),
            },
        }
        &&& find_member(e, k) == if k == "enabled"@ {
            Some(yes())
        } else {
            None::<JsonModel>
        }
        &&& find_member(n, k) == if k == "server_name"@ {
            match sni {
                Some(s) => Some(txt(s)),
                None => None::<JsonModel>,
            }
        } else {
            None::<JsonModel>
        }
        &&& find_member(i, k) == if k == "insecure"@ && insecure {
            Some(yes())
        } else {
            None::<JsonModel>
        }
    } by {
        let k = keys[j];
        lemma_find_one("enabled"@, yes(), k);
        if let Some(s) = sni {
            lemma_find_one("server_name"@, txt(s), k);
        }
        if insecure {
            lemma_find_one("insecure"@, yes(), k);
        }
        lemma_find_member_concat(e, n, k);
        lemma_find_member_concat(e + n, i, k);
    }
    assert(keys[0] == "enabled"@ && keys[1] == "server_name"@ && keys[2] == "insecure"@);
}

/// The transport block is absent exactly for plain TCP (or no network);
/// otherwise its `type` is the link's network, a WebSocket transport
/// carries the link's path, and a gRPC transport the link's service name.
pub proof fn lemma_transport_block_fields(
    network: Seq<char>,
    ws_path: Option<Seq<char>>,
    ws_host: Option<Seq<char>>,
    grpc_service_name: Option<Seq<char>>,
)
    ensures
        transport_model(network, ws_path, ws_host, grpc_service_name) is None <==> (network == "tcp"@
            || network.len() == 0),
        transport_model(network, ws_path, ws_host, grpc_service_name) matches Some(m) ==> {
            &&& field(m, "type"@) == Some(JsonModel::Text(network))
            &&& network == "ws"@ ==> field(m, "path"@) == match ws_path {
                Some(p) => Some(JsonModel::Text(p)),
                None => None::<JsonModel>,
            }
            &&& network == "grpc"@ ==> field(m, "service_name"@) == match grpc_service_name {
                Some(g) => Some(JsonModel::Text(g)),
                None => None::<JsonModel>,
            }
        },
{
    reveal_strlit("type");
    reveal_strlit("path");
    reveal_strlit("headers");
    reveal_strlit("service_name");
    reveal_strlit("ws");
    reveal_strlit("grpc");
    if !(network == "tcp"@ || network.len() == 0) {
        let t = member("type"@, txt(network));
        let g = if network == "grpc"@ {
            text_member("service_name"@, grpc_service_name)
        } else {
            Seq::empty()
        };
        let h = optional(
            "headers"@,
            match ws_host {
                Some(x) => Some(JsonModel::Object(member("Host"@, txt(x)))),
                None => None,
            },
        );
        let w = if network == "ws"@ {
            text_member("path"@, ws_path) + h
        } else {
            Seq::empty()
        };
        let e = Seq::<(Seq<char>, JsonModel)>::empty();
        assert(find_member(e, "type"@) is None);
        assert(find_member(e, "path"@) is None);
        assert(find_member(e, "service_name"@) is None);
        assert("type"@ != "path"@) by { assert("type"@[0] != "path"@[0]); }
        assert("type"@ != "service_name"@) by { assert("type"@.len() != "service_name"@.len()); }
        assert("path"@ != "service_name"@) by { assert("path"@.len() != "service_name"@.len()); }
        assert("headers"@ != "path"@) by { assert("headers"@.len() != "path"@.len()); }
        assert("headers"@ != "service_name"@) by { assert("headers"@.len() != "service_name"@.len()); }
        assert("ws"@ != "grpc"@) by { assert("ws"@.len() != "grpc"@.len()); }
        lemma_find_one("type"@, txt(network), "type"@);
        lemma_find_member_concat(t, g, "type"@);
        lemma_find_member_concat(t + g, w, "type"@);
        if network == "ws"@ {
            lemma_find_one("type"@, txt(network), "path"@);
            if let Some(p) = ws_path {
                lemma_find_one("path"@, txt(p), "path"@);
            }
            lemma_text_member_lacks("path"@, ws_path, "headers"@);
            lemma_find_member_concat(text_member("path"@, ws_path), h, "path"@);
            lemma_optional_lacks(
                "headers"@,
                match ws_host {
                    Some(x) => Some(JsonModel::Object(member("Host"@, txt(x)))),
                    None => None,
                },
                "path"@,
            );
            lemma_find_member_concat(t, g, "path"@);
            lemma_find_member_concat(t + g, w, "path"@);
        }
        if network == "grpc"@ {
            lemma_find_one("type"@, txt(network), "service_name"@);
            if let Some(x) = grpc_service_name {
                lemma_find_one("service_name"@, txt(x), "service_name"@);
            }
            lemma_find_member_concat(t, g, "service_name"@);
            lemma_find_member_concat(t + g, w, "service_name"@);
        }
    }
}

/// A Hysteria2 outbound carries an `obfs` block exactly when the link named
/// an obfuscation type or password.
pub proof fn lemma_obfs_only_when_given(o: crate::outbound::Hysteria2Outbound, tag: Seq<char>)
    ensures
        field(outbound_model(ParsedOutbound::Hysteria2(o), tag), "obfs"@) is Some <==> (o.obfs is Some
            || o.obfs_password is Some),
{
    reveal_strlit("obfs");
    reveal_strlit("type");
    reveal_strlit("tag");
    reveal_strlit("server");
    reveal_strlit("server_port");
    reveal_strlit("password");
    reveal_strlit("tls");
    let key = "obfs"@;
    assert("type"@[0] != key[0]);
    assert("tag"@ != key) by { assert("tag"@.len() != key.len()); }
    assert("server"@ != key) by { assert("server"@.len() != key.len()); }
    assert("server_port"@ != key) by { assert("server_port"@.len() != key.len()); }
    assert("password"@ != key) by { assert("password"@.len() != key.len()); }
    assert("tls"@ != key) by { assert("tls"@.len() != key.len()); }
    let h = header_members("hysteria2"@, tag, o.server@, o.port);
    let p = member("password"@, txt(o.password@));
    let t = member("tls"@, JsonModel::Object(tls_members(opt_chars(o.sni), o.insecure)));
    let ob = member_if(
        o.obfs is Some || o.obfs_password is Some,
        "obfs"@,
        JsonModel::Object(
            member("type"@, txt(or_empty(o.obfs))) + member(
                "password"@,
                txt(or_empty(o.obfs_password)),
            ),
        ),
    );
    lemma_header_lacks("hysteria2"@, tag, o.server@, o.port, key);
    lemma_find_one("password"@, txt(o.password@), key);
    lemma_find_one("tls"@, JsonModel::Object(tls_members(opt_chars(o.sni), o.insecure)), key);
    lemma_find_none(h, p, key);
    lemma_find_none(h + p, t, key);
    lemma_find_member_concat(h + p + t, ob, key);
    if o.obfs is Some || o.obfs_password is Some {
        lemma_find_one(
            "obfs"@,
            JsonModel::Object(
                member("type"@, txt(or_empty(o.obfs))) + member(
                    "password"@,
                    txt(or_empty(o.obfs_password)),
                ),
            ),
            key,
        );
    }
}

/// Borrows the string inside an option.
fn as_deref(value: &Option<String>) -> (r: Option<&str>)
    ensures
        opt_str(r) == opt_chars(*value),
{
    match value {
        Some(s) => Some(s.as_str()),
        None => None,
    }
}

/// Appends a text member when `value` is present.
fn put_text(members: &mut Vec<(String, Json)>, key: &str, value: Option<&str>)
    ensures
        members_model(final(members)@) == members_model(old(members)@) + text_member(key@, opt_str(value)),
{
    match value {
        Some(s) => {
            put(members, key, text(s));
            assert(member(key@, txt(s@)) =~= seq![(key@, txt(s@))]);
        },
        None => {
            assert(members_model(old(members)@) + text_member(key@, opt_str(value)) =~= members_model(old(members)@));
        },
    }
}

/// Appends a member when `value` is present.
fn put_opt(members: &mut Vec<(String, Json)>, key: &str, value: Option<Json>)
    ensures
        members_model(final(members)@) == members_model(old(members)@) + optional(key@, opt_model(value)),
{
    match value {
        Some(j) => {
            let ghost m = j.model();
            put(members, key, j);
            assert(member(key@, m) =~= seq![(key@, m)]);
        },
        None => {
            assert(members_model(old(members)@) + optional(key@, opt_model(value)) =~= members_model(old(members)@));
        },
    }
}

/// The TLS members, as a list to extend.
fn tls_members_exec(sni: Option<&str>, insecure: bool) -> (m: Vec<(String, Json)>)
    ensures
        members_model(m@) == tls_members(opt_str(sni), insecure),
{
    let mut m: Vec<(String, Json)> = Vec::new();
    put(&mut m, "enabled", Json::Bool(true));
    assert(members_model(m@) =~= member("enabled"@, yes()));
    put_text(&mut m, "server_name", sni);
    if insecure {
        put(&mut m, "insecure", Json::Bool(true));
    }
    assert(members_model(m@) =~= tls_members(opt_str(sni), insecure));
    m
}

/// The TLS block, `None` when TLS is off.
pub fn tls_block(enabled: bool, sni: Option<&str>, insecure: bool) -> (r: Option<Json>)
    ensures
        opt_model(r) == tls_model(enabled, opt_str(sni), insecure),
{
    if !enabled {
        return None;
    }
    Some(obj(tls_members_exec(sni, insecure)))
}

/// The transport block, `None` for plain TCP.
pub fn transport_block(
    network: &str,
    ws_path: Option<&str>,
    ws_host: Option<&str>,
    grpc_service_name: Option<&str>,
) -> (r: Option<Json>)
    ensures
        opt_model(r) == transport_model(
            network@,
            opt_str(ws_path),
            opt_str(ws_host),
            opt_str(grpc_service_name),
        ),
{
    if is_literal(network, "tcp") || network.is_empty() {
        return None;
    }
    let mut m: Vec<(String, Json)> = Vec::new();
    put(&mut m, "type", text(network));
    let ghost m1 = members_model(m@);
    assert(m1 =~= member("type"@, txt(network@)));
    let grpc = is_literal(network, "grpc");
    if grpc {
        put_text(&mut m, "service_name", grpc_service_name);
    }
    let ghost m2 = members_model(m@);
    assert(m2 =~= m1 + (if network@ == "grpc"@ {
        text_member("service_name"@, opt_str(grpc_service_name))
    } else {
        Seq::empty()
    }));
    let ws = is_literal(network, "ws");
    if ws {
        put_text(&mut m, "path", ws_path);
        let headers = match ws_host {
            Some(host) => {
                let mut h: Vec<(String, Json)> = Vec::new();
                put(&mut h, "Host", text(host));
                assert(members_model(h@) =~= member("Host"@, txt(host@)));
                Some(obj(h))
            },
            None => None,
        };
        put_opt(&mut m, "headers", headers);
    }
    let ghost m3 = members_model(m@);
    assert(m3 =~= m2 + (if network@ == "ws"@ {
        text_member("path"@, opt_str(ws_path)) + optional(
            "headers"@,
            match opt_str(ws_host) {
                Some(h) => Some(JsonModel::Object(member("Host"@, txt(h)))),
                None => None,
            },
        )
    } else {
        Seq::empty()
    }));
    Some(obj(m))
}

/// The members every outbound starts with.
fn header(kind: &str, tag: &str, server: &String, port: u16) -> (m: Vec<(String, Json)>)
    ensures
        members_model(m@) == header_members(kind@, tag@, server@, port),
{
    let mut m: Vec<(String, Json)> = Vec::new();
    put(&mut m, "type", text(kind));
    put(&mut m, "tag", text(tag));
    put(&mut m, "server", text_of(server));
    put(&mut m, "server_port", Json::Num(port as i64));
    assert(members_model(m@) =~= header_members(kind@, tag@, server@, port));
    m
}

/// The VLESS TLS block: the common members, then REALITY and uTLS.
fn vless_tls(o: &VlessOutbound) -> (r: Option<Json>)
    ensures
        opt_model(r) == (if o.tls {
            Some(
                JsonModel::Object(
                    tls_members(opt_chars(o.sni), false) + reality_members(*o) + utls_members(*o),
                ),
            )
        } else {
            None
        }),
{
    if !o.tls {
        return None;
    }
    let mut m = tls_members_exec(as_deref(&o.sni), false);
    let ghost m1 = members_model(m@);
    match &o.reality_public_key {
        Some(pbk) => {
            let mut reality: Vec<(String, Json)> = Vec::new();
            put(&mut reality, "enabled", Json::Bool(true));
            put(&mut reality, "public_key", text_of(pbk));
            put_text(&mut reality, "short_id", as_deref(&o.reality_short_id));
            assert(members_model(reality@) =~= member("enabled"@, yes()) + member(
                "public_key"@,
                txt(pbk@),
            ) + text_member("short_id"@, opt_chars(o.reality_short_id)));
            put(&mut m, "reality", obj(reality));
        },
        None => {},
    }
    let ghost m2 = members_model(m@);
    assert(m2 =~= m1 + reality_members(*o));
    if o.reality_public_key.is_some() || o.fingerprint.is_some() {
        let mut utls: Vec<(String, Json)> = Vec::new();
        put(&mut utls, "enabled", Json::Bool(true));
        let fingerprint = match &o.fingerprint {
            Some(f) => text_of(f),
            None => text("chrome"),
        };
        put(&mut utls, "fingerprint", fingerprint);
        assert(members_model(utls@) =~= member("enabled"@, yes()) + member(
            "fingerprint"@,
            txt(
                match o.fingerprint {
                    Some(f) => f@,
                    None => "chrome"@,
                },
            ),
        ));
        put(&mut m, "utls", obj(utls));
    }
    assert(members_model(m@) =~= m2 + utls_members(*o));
    Some(obj(m))
}

/// The sing-box outbound for `parsed`, tagged with `tag` so that routing
/// rules and the selector can refer to it.
pub fn to_singbox_outbound(parsed: &ParsedOutbound, tag: &str) -> (j: Json)
    ensures
        j.model() == outbound_model(*parsed, tag@),
{
    match parsed {
        ParsedOutbound::Vless(o) => {
            let mut m = header("vless", tag, &o.server, o.port);
            put(&mut m, "uuid", text_of(&o.uuid));
            let ghost m1 = members_model(m@);
            match vless_tls(o) {
                Some(tls) => put(&mut m, "tls", tls),
                None => {},
            }
            let ghost m2 = members_model(m@);
            assert(m2 =~= m1 + member_if(
                o.tls,
                "tls"@,
                JsonModel::Object(
                    tls_members(opt_chars(o.sni), false) + reality_members(*o) + utls_members(*o),
                ),
            ));
            put_text(&mut m, "flow", as_deref(&o.flow));
            let transport = transport_block(
                o.network.as_str(),
                as_deref(&o.ws_path),
                as_deref(&o.ws_host),
                as_deref(&o.grpc_service_name),
            );
            put_opt(&mut m, "transport", transport);
            let j = obj(m);
            assert(j.model() == outbound_model(*parsed, tag@)) by {
                assert(members_model(m@) =~= header_members("vless"@, tag@, o.server@, o.port)
                    + member("uuid"@, txt(o.uuid@)) + member_if(
                    o.tls,
                    "tls"@,
                    JsonModel::Object(
                        tls_members(opt_chars(o.sni), false) + reality_members(*o) + utls_members(
                            *o,
                        ),
                    ),
                ) + text_member("flow"@, opt_chars(o.flow)) + optional(
                    "transport"@,
                    transport_model(
                        o.network@,
                        opt_chars(o.ws_path),
                        opt_chars(o.ws_host),
                        opt_chars(o.grpc_service_name),
                    ),
                ));
            }
            j
        },
        ParsedOutbound::Vmess(o) => {
            let mut m = header("vmess", tag, &o.server, o.port);
            put(&mut m, "uuid", text_of(&o.uuid));
            put(&mut m, "alter_id", Json::Num(o.alter_id as i64));
            put(&mut m, "security", text_of(&o.security));
            let tls = tls_block(o.tls, as_deref(&o.sni), false);
            put_opt(&mut m, "tls", tls);
            let transport = transport_block(
                o.network.as_str(),
                as_deref(&o.ws_path),
                as_deref(&o.ws_host),
                None,
            );
            put_opt(&mut m, "transport", transport);
            let j = obj(m);
            assert(j.model() == outbound_model(*parsed, tag@)) by {
                assert(members_model(m@) =~= header_members("vmess"@, tag@, o.server@, o.port)
                    + member("uuid"@, txt(o.uuid@)) + member(
                    "alter_id"@,
                    JsonModel::Num(o.alter_id as int),
                ) + member("security"@, txt(o.security@)) + optional(
                    "tls"@,
                    tls_model(o.tls, opt_chars(o.sni), false),
                ) + optional(
                    "transport"@,
                    transport_model(o.network@, opt_chars(o.ws_path), opt_chars(o.ws_host), None),
                ));
            }
            j
        },
        ParsedOutbound::Trojan(o) => {
            let mut m = header("trojan", tag, &o.server, o.port);
            put(&mut m, "password", text_of(&o.password));
            put(&mut m, "tls", obj(tls_members_exec(as_deref(&o.sni), false)));
            let transport = transport_block(o.network.as_str(), None, None, None);
            put_opt(&mut m, "transport", transport);
            let j = obj(m);
            assert(j.model() == outbound_model(*parsed, tag@)) by {
                assert(members_model(m@) =~= header_members("trojan"@, tag@, o.server@, o.port)
                    + member("password"@, txt(o.password@)) + member(
                    "tls"@,
                    JsonModel::Object(tls_members(opt_chars(o.sni), false)),
                ) + optional("transport"@, transport_model(o.network@, None, None, None)));
            }
            j
        },
        ParsedOutbound::Shadowsocks(o) => {
            let mut m = header("shadowsocks", tag, &o.server, o.port);
            put(&mut m, "method", text_of(&o.method));
            put(&mut m, "password", text_of(&o.password));
            let j = obj(m);
            assert(j.model() == outbound_model(*parsed, tag@)) by {
                assert(members_model(m@) =~= header_members(
                    "shadowsocks"@,
                    tag@,
                    o.server@,
                    o.port,
                ) + member("method"@, txt(o.method@)) + member("password"@, txt(o.password@)));
            }
            j
        },
        ParsedOutbound::Hysteria2(o) => {
            let mut m = header("hysteria2", tag, &o.server, o.port);
            put(&mut m, "password", text_of(&o.password));
            put(&mut m, "tls", obj(tls_members_exec(as_deref(&o.sni), o.insecure)));
            let ghost m1 = members_model(m@);
            if o.obfs.is_some() || o.obfs_password.is_some() {
                proof {
                    reveal_strlit("");
                    assert(""@ =~= Seq::<char>::empty());
                }
                let mut obfs: Vec<(String, Json)> = Vec::new();
                let kind = match &o.obfs {
                    Some(k) => text_of(k),
                    None => text(""),
                };
                assert(kind.model() == txt(or_empty(o.obfs)));
                let password = match &o.obfs_password {
                    Some(p) => text_of(p),
                    None => text(""),
                };
                assert(password.model() == txt(or_empty(o.obfs_password)));
                put(&mut obfs, "type", kind);
                put(&mut obfs, "password", password);
                assert(members_model(obfs@) =~= member("type"@, txt(or_empty(o.obfs))) + member(
                    "password"@,
                    txt(or_empty(o.obfs_password)),
                ));
                put(&mut m, "obfs", obj(obfs));
            }
            let j = obj(m);
            assert(j.model() == outbound_model(*parsed, tag@)) by {
                assert(members_model(m@) =~= header_members(
                    "hysteria2"@,
                    tag@,
                    o.server@,
                    o.port,
                ) + member("password"@, txt(o.password@)) + member(
                    "tls"@,
                    JsonModel::Object(tls_members(opt_chars(o.sni), o.insecure)),
                ) + member_if(
                    o.obfs is Some || o.obfs_password is Some,
                    "obfs"@,
                    JsonModel::Object(
                        member("type"@, txt(or_empty(o.obfs))) + member(
                            "password"@,
                            txt(or_empty(o.obfs_password)),
                        ),
                    ),
                ));
            }
            j
        },
        ParsedOutbound::Tuic(o) => {
            let mut tls = tls_members_exec(as_deref(&o.sni), false);
            let ghost alpn = JsonModel::List(Seq::new(o.alpn@.len(), |i: int| txt(o.alpn@[i]@)));
            if o.alpn.len() > 0 {
                let a = texts(&o.alpn);
                assert(a.model() == alpn) by {
                    if let JsonModel::List(l) = a.model() {
                        assert(l =~= Seq::new(o.alpn@.len(), |i: int| txt(o.alpn@[i]@)));
                    }
                }
                put(&mut tls, "alpn", a);
            }
            let mut m = header("tuic", tag, &o.server, o.port);
            put(&mut m, "uuid", text_of(&o.uuid));
            put(&mut m, "password", text_of(&o.password));
            let ghost tm = members_model(tls@);
            put(&mut m, "tls", obj(tls));
            put_text(&mut m, "congestion_control", as_deref(&o.congestion_control));
            let j = obj(m);
            assert(j.model() == outbound_model(*parsed, tag@)) by {
                assert(tm =~= tls_members(opt_chars(o.sni), false) + member_if(
                    o.alpn@.len() > 0,
                    "alpn"@,
                    alpn,
                ));
                assert(members_model(m@) =~= header_members("tuic"@, tag@, o.server@, o.port)
                    + member("uuid"@, txt(o.uuid@)) + member("password"@, txt(o.password@))
                    + member("tls"@, JsonModel::Object(tm)) + text_member(
                    "congestion_control"@,
                    opt_chars(o.congestion_control),
                ));
            }
            j
        },
    }
}

} // verus!
