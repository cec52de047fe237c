//! What "add from clipboard" decides about the text it is handed.
//!
//! An http(s) URL is a subscription and gets a group that refreshes from it;
//! share links are profiles, a lone one going to Default and several
//! becoming a static group of their own. The database writes that carry a
//! decision out are made around the library; what to write is decided here.
use vstd::prelude::*;

use base64::Engine;

use crate::json::{field, opt_chars, JsonModel};
use crate::models::{is_literal, protocol_name, NewProfile, NewProfileGroup, NewSource, ProfileGroup, Protocol, Source, StorageError};
use crate::outbound::ParsedOutbound;
use crate::outbound_json::{
    lemma_hysteria2_outbound_fields, lemma_shadowsocks_outbound_fields, lemma_trojan_outbound_fields,
    lemma_tuic_outbound_fields, lemma_vless_outbound_fields, lemma_vmess_outbound_fields, outbound_model,
};
use crate::storage::refreshed_now;
use crate::text::{decimal, is_ws, is_whitespace, lemma_decimal_injective, push_decimal, push_str, slice_of, starts_with, starts_with_exec, string_of, strip_prefix, to_chars, trim, trim_exec, trim_start, trim_start_index};

verus! {

broadcast use {vstd::slice::group_slice_axioms, vstd::string::group_string_axioms};

/// The letter a regional-indicator symbol stands for, if `c` is one.
pub open spec fn indicator_letter(c: char) -> Option<char> {
    if 0x1F1E6 <= (c as int) && (c as int) <= 0x1F1FF {
        Some(((c as int) - 0x1F1E6 + 65) as char)
    } else {
        None
    }
}

/// The country code of a name that starts (after leading whitespace) with a
/// flag emoji, which is two regional indicators; empty otherwise.
pub open spec fn region_of(name: Seq<char>) -> Seq<char> {
    let t = trim_start(name);
    if t.len() >= 2 && indicator_letter(t[0]) is Some && indicator_letter(t[1]) is Some {
        seq![indicator_letter(t[0])->0, indicator_letter(t[1])->0]
    } else {
        Seq::empty()
    }
}

/// A region is empty or a two-letter country code in capitals, and it is
/// a code only when the name, past leading whitespace, starts with that
/// code's flag: the two regional-indicator symbols for its letters.
pub proof fn lemma_region_is_a_flag_code(name: Seq<char>)
    ensures
        region_of(name).len() == 0 || region_of(name).len() == 2,
        forall|i: int|
            0 <= i < region_of(name).len() ==> 'A' <= #[trigger] region_of(name)[i] <= 'Z'
                && trim_start(name)[i] as int == 0x1F1E6 + (region_of(name)[i] as int - 65),
{
}

fn letter(c: char) -> (r: Option<char>)
    ensures
        r == indicator_letter(c),
{
    let code = c as u32;
    if 0x1F1E6 <= code && code <= 0x1F1FF {
        let k = (code - 0x1F1E6 + 65) as u8;
        Some(k as char)
    } else {
        None
    }
}

/// Subscriptions prefix a profile's name with a flag, which maps one to one
/// onto the letters of its country code. Names without one get no region.
pub fn region_from_name(name: &str) -> (r: String)
    ensures
        r@ == region_of(name@),
{
    let chars = to_chars(name);
    let i = trim_start_index(chars.as_slice());
    let mut r = String::new();
    if chars.len() - i >= 2 {
        let a = letter(chars[i]);
        let b = letter(chars[i + 1]);
        match (a, b) {
            (Some(x), Some(y)) => {
                r.push(x);
                r.push(y);
                assert(r@ =~= seq![x, y]);
            },
            _ => {},
        }
    }
    r
}

/// The label of the `n`th imported group after the first.
pub open spec fn imported_label(n: int) -> Seq<char> {
    "Imported "@ + decimal(n as nat)
}

/// Whether some group already carries `label`.
pub open spec fn label_taken(groups: Seq<ProfileGroup>, label: Seq<char>) -> bool {
    exists|i: int| 0 <= i < groups.len() && (#[trigger] groups[i]).label@ == label
}

/// Among the labels `Imported 2` to `Imported k+2`, with `k` groups, one is
/// always free: there are more of them than groups.
proof fn lemma_some_label_free(groups: Seq<ProfileGroup>)
    ensures
        exists|n: int| 2 <= n <= groups.len() + 2 && !label_taken(groups, #[trigger] imported_label(n)),
{
    let k: int = groups.len() as int;
    if forall|n: int| 2 <= n <= k + 2 ==> label_taken(groups, #[trigger] imported_label(n)) {
        let labels = Seq::new(groups.len(), |i: int| groups[i].label@);
        let candidates = vstd::set_lib::set_int_range(2, k + 3);
        let f = |n: int| imported_label(n);
        let named = candidates.map(f);
        vstd::set_lib::lemma_int_range(2, k + 3);
        assert(vstd::relations::injective_on(f, candidates)) by {
            assert forall|a: int, b: int|
                candidates.contains(a) && candidates.contains(b) && #[trigger] f(a) == #[trigger] f(b)
                implies a == b by {
                let p = "Imported "@;
                assert(f(a).subrange(p.len() as int, f(a).len() as int) =~= decimal(a as nat));
                assert(f(b).subrange(p.len() as int, f(b).len() as int) =~= decimal(b as nat));
                lemma_decimal_injective(a as nat, b as nat);
            }
        }
        vstd::set_lib::lemma_map_size(candidates, named, f);
        assert(named.subset_of(labels.to_set())) by {
            assert forall|l: Seq<char>| named.contains(l) implies labels.to_set().contains(l) by {
                let n = choose|n: int| candidates.contains(n) && f(n) == l;
                assert(label_taken(groups, imported_label(n)));
                let i = choose|i: int| 0 <= i < groups.len() && (#[trigger] groups[i]).label@
                    == imported_label(n);
                assert(labels[i] == l);
            }
        }
        labels.lemma_cardinality_of_set();
        vstd::set_lib::lemma_len_subset(named, labels.to_set());
        assert(false);
    }
}

/// Whether some group carries exactly `label`.
fn is_taken(groups: &[ProfileGroup], label: &str) -> (b: bool)
    ensures
        b == label_taken(groups@, label@),
{
    let mut i: usize = 0;
    while i < groups.len()
        invariant
            i <= groups@.len(),
            forall|j: int| 0 <= j < i ==> (#[trigger] groups@[j]).label@ != label@,
        decreases groups.len() - i,
    {
        if is_literal(groups[i].label.as_str(), label) {
            return true;
        }
        i = i + 1;
    }
    false
}

/// The label for a new group of pasted links: `Imported`, or the first of
/// `Imported 2`, `Imported 3`, ... that no group carries yet. It is never a
/// label some group already carries.
pub fn next_imported_label(existing: &[ProfileGroup]) -> (label: String)
    requires
        existing@.len() < 0x7fff_ffff,
    ensures
        !label_taken(existing@, label@),
        !label_taken(existing@, "Imported"@) ==> label@ == "Imported"@,
        label_taken(existing@, "Imported"@) ==> exists|n: int|
            n >= 2 && label@ == imported_label(n) && forall|m: int|
                2 <= m < n ==> label_taken(existing@, #[trigger] imported_label(m)),
{
    if !is_taken(existing, "Imported") {
        return "Imported".to_owned();
    }
    proof {
        lemma_some_label_free(existing@);
    }
    let mut n: u64 = 2;
    loop
        invariant
            2 <= n <= existing@.len() + 2,
            existing@.len() < 0x7fff_ffff,
            label_taken(existing@, "Imported"@),
            forall|m: int| 2 <= m < n ==> label_taken(existing@, #[trigger] imported_label(m)),
            exists|f: int| n <= f <= existing@.len() + 2 && !label_taken(existing@, #[trigger] imported_label(f)),
        decreases existing@.len() + 2 - n,
    {
        let mut label = String::new();
        push_str(&mut label, "Imported ");
        push_decimal(&mut label, n as u128);
        assert(label@ =~= imported_label(n as int));
        if !is_taken(existing, label.as_str()) {
            return label;
        }
        assert(label_taken(existing@, imported_label(n as int)));
        n = n + 1;
    }
}

/// What the standard base64 alphabet, with padding, decodes `s` to;
/// `None` where the decoder refuses it.
pub uninterp spec fn base64_standard_decoded(s: Seq<char>) -> Option<Seq<u8>>;

/// The host of `s` as the `url` crate parses it; `None` where `s` does not
/// parse as a URL or names no host.
pub uninterp spec fn url_host(s: Seq<char>) -> Option<Seq<char>>;

/// The scheme of `s` as the `url` crate parses it; `None` where `s` does
/// not parse as a URL.
pub uninterp spec fn url_scheme(s: Seq<char>) -> Option<Seq<char>>;

/// The bytes of an optional byte vector.
pub open spec fn opt_bytes(value: Option<Vec<u8>>) -> Option<Seq<u8>> {
    match value {
        Some(v) => Some(v@),
        None => None,
    }
}

/// `base64::engine::general_purpose::STANDARD.decode`, its error dropped.
/// Claimed: the result is the named decoding of `s`; what that decoding is
/// (alphabet, padding rules) is left to the crate.
#[verifier::external_body]
fn base64_decode(s: &str) -> (r: Option<Vec<u8>>)
    ensures
        opt_bytes(r) == base64_standard_decoded(s@),
{
    base64::engine::general_purpose::STANDARD.decode(s).ok()
}

/// `String::from_utf8`, its error dropped. Claimed, as std documents: it
/// succeeds exactly on valid UTF-8, and the text is what the bytes encode.
#[verifier::external_body]
fn utf8_string(bytes: Vec<u8>) -> (r: Option<String>)
    ensures
        r is Some == vstd::utf8::valid_utf8(bytes@),
        r matches Some(s) ==> s@ == vstd::utf8::decode_utf8(bytes@),
{
    String::from_utf8(bytes).ok()
}

/// `url::Url::parse` followed by `Url::host_str`. Claimed: the result is
/// the named host of `s`.
#[verifier::external_body]
fn parsed_url_host(s: &str) -> (r: Option<String>)
    ensures
        opt_chars(r) == url_host(s@),
{
    match url::Url::parse(s) {
        Ok(u) => u.host_str().map(|h| h.to_owned()),
        Err(_) => None,
    }
}

/// `url::Url::parse` followed by `Url::scheme`. Claimed: the result is the
/// named scheme of `s`.
#[verifier::external_body]
fn parsed_url_scheme(s: &str) -> (r: Option<String>)
    ensures
        opt_chars(r) == url_scheme(s@),
{
    match url::Url::parse(s) {
        Ok(u) => Some(u.scheme().to_owned()),
        Err(_) => None,
    }
}

/// A `profile-title` header as text: trimmed, and decoded where it is
/// written `base64:<text>`; `None` when there is none or it does not decode
/// to UTF-8.
pub open spec fn title_text(title: Option<Seq<char>>) -> Option<Seq<char>> {
    match title {
        None => None,
        Some(t) => match strip_prefix(trim(t), "base64:"@) {
            Some(encoded) => match base64_standard_decoded(trim(encoded)) {
                Some(bytes) => if vstd::utf8::valid_utf8(bytes) {
                    Some(vstd::utf8::decode_utf8(bytes))
                } else {
                    None
                },
                None => None,
            },
            None => Some(trim(t)),
        },
    }
}

/// `s` with every leading `www.` removed.
pub open spec fn strip_www(s: Seq<char>) -> Seq<char>
    decreases s.len(),
{
    if s.len() >= 4 && starts_with(s, "www."@) {
        strip_www(s.subrange(4, s.len() as int))
    } else {
        s
    }
}

/// A subscription's name: the header's text when it has any, else the
/// URL's host without `www.`, else `Subscription`.
pub open spec fn subscription_name_of(title: Option<Seq<char>>, host: Option<Seq<char>>) -> Seq<char> {
    if title is Some && trim(title->0).len() > 0 {
        trim(title->0)
    } else if host is Some && strip_www(host->0).len() > 0 {
        strip_www(host->0)
    } else {
        "Subscription"@
    }
}

/// The characters of an optional string slice.
pub open spec fn opt_str_chars(value: Option<&str>) -> Option<Seq<char>> {
    match value {
        Some(s) => Some(s@),
        None => None,
    }
}

/// The header's text, as `title_text` describes it.
fn header_text(profile_title: Option<&str>) -> (r: Option<String>)
    ensures
        opt_chars(r) == title_text(opt_str_chars(profile_title)),
{
    match profile_title {
        None => None,
        Some(title) => {
            let chars = to_chars(title);
            let t = trim_exec(chars.as_slice());
            let prefix = to_chars("base64:");
            if starts_with_exec(t.as_slice(), prefix.as_slice()) {
                proof {
                    reveal_strlit("base64:");
                }
                let encoded = slice_of(t.as_slice(), 7, t.len());
                let trimmed = trim_exec(encoded.as_slice());
                let e = string_of(trimmed.as_slice(), 0, trimmed.len());
                assert(trimmed@.subrange(0, trimmed@.len() as int) =~= trimmed@);
                match base64_decode(e.as_str()) {
                    Some(bytes) => utf8_string(bytes),
                    None => None,
                }
            } else {
                let r = string_of(t.as_slice(), 0, t.len());
                assert(t@.subrange(0, t@.len() as int) =~= t@);
                Some(r)
            }
        },
    }
}

/// Where `v` starts once every leading `www.` is removed.
fn strip_www_index(v: &[char]) -> (i: usize)
    ensures
        i <= v@.len(),
        v@.subrange(i as int, v@.len() as int) == strip_www(v@),
{
    let www = to_chars("www.");
    proof {
        reveal_strlit("www.");
    }
    let mut i: usize = 0;
    assert(v@.subrange(0, v@.len() as int) =~= v@);
    while v.len() - i >= 4 && starts_with_exec(&slice_of(v, i, v.len()), www.as_slice())
        invariant
            i <= v@.len(),
            www@ == "www."@,
            strip_www(v@) == strip_www(v@.subrange(i as int, v@.len() as int)),
        decreases v.len() - i,
    {
        let ghost rest = v@.subrange(i as int, v@.len() as int);
        assert(rest.subrange(4, rest.len() as int) =~= v@.subrange(i + 4, v@.len() as int));
        i = i + 4;
    }
    proof {
        let rest = v@.subrange(i as int, v@.len() as int);
    }
    i
}

/// A subscription's name from the header's text and the URL's host.
fn name_from(title: Option<String>, host: Option<String>) -> (name: String)
    ensures
        name@ == subscription_name_of(opt_chars(title), opt_chars(host)),
{
    if let Some(t) = &title {
        let chars = to_chars(t.as_str());
        let trimmed = trim_exec(chars.as_slice());
        if trimmed.len() > 0 {
            assert(trimmed@.subrange(0, trimmed@.len() as int) =~= trimmed@);
            return string_of(trimmed.as_slice(), 0, trimmed.len());
        }
    }
    if let Some(h) = &host {
        let chars = to_chars(h.as_str());
        let i = strip_www_index(chars.as_slice());
        if i < chars.len() {
            return string_of(chars.as_slice(), i, chars.len());
        }
    }
    "Subscription".to_owned()
}

/// Providers name a subscription in its `profile-title` header, often as
/// `base64:<text>` so that non-ASCII survives HTTP. Without one the host is
/// the most recognisable thing left.
pub fn subscription_name(profile_title: Option<&str>, url: &str) -> (name: String)
    ensures
        name@ == subscription_name_of(title_text(opt_str_chars(profile_title)), url_host(url@)),
{
    let title = header_text(profile_title);
    let host = parsed_url_host(url);
    name_from(title, host)
}

#[derive(Debug)]
pub enum ImportError {
    Storage(StorageError),
    /// What the link parser said about text that held no usable link.
    Subscription(String),
    /// The group is not a subscription group.
    NotASubscription(String),
    /// Connected through a VPN of the subscription being deleted.
    ActiveProfileInUse,
}

/// What a piece of pasted text turned out to be.
pub enum Pasted {
    SubscriptionUrl(String),
    Outbounds(Vec<ParsedOutbound>),
}

/// What an import did, so the interface can say it in words.
#[derive(Debug, Clone, PartialEq)]
pub enum ImportOutcome {
    SubscriptionAdded { group_id: String, added: usize },
    /// The URL was already a subscription: it was refreshed instead of added
    /// a second time.
    SubscriptionRefreshed { group_id: String },
    ProfileAdded { profile_id: String, name: String },
    GroupAdded { group_id: String, added: usize, skipped: usize },
    /// A single link that is already in `group_id`.
    AlreadyPresent { group_id: String },
    /// Several links, every one of them already present.
    NothingNew { skipped: usize },
}

/// Whether `t` (already trimmed) is one http(s) URL: no whitespace inside,
/// and a scheme of `http` or `https` as the URL parser reads it.
pub open spec fn is_http_url(t: Seq<char>) -> bool {
    &&& forall|i: int| 0 <= i < t.len() ==> !is_ws(#[trigger] t[i])
    &&& url_scheme(t) matches Some(scheme) && (scheme == "http"@ || scheme == "https"@)
}

/// Whether `v` holds a whitespace character.
fn has_whitespace(v: &[char]) -> (b: bool)
    ensures
        b == exists|i: int| 0 <= i < v@.len() && is_ws(#[trigger] v@[i]),
{
    let mut i: usize = 0;
    while i < v.len()
        invariant
            i <= v@.len(),
            forall|j: int| 0 <= j < i ==> !is_ws(#[trigger] v@[j]),
        decreases v.len() - i,
    {
        if is_whitespace(v[i]) {
            return true;
        }
        i = i + 1;
    }
    false
}

/// The pasted text, trimmed, when it is a subscription URL.
pub fn subscription_url(text: &str) -> (r: Option<String>)
    ensures
        match r {
            Some(u) => u@ == trim(text@) && is_http_url(trim(text@)),
            None => !is_http_url(trim(text@)),
        },
{
    let chars = to_chars(text);
    let t = trim_exec(chars.as_slice());
    if has_whitespace(t.as_slice()) {
        return None;
    }
    let trimmed = string_of(t.as_slice(), 0, t.len());
    assert(t@.subrange(0, t@.len() as int) =~= t@);
    match parsed_url_scheme(trimmed.as_str()) {
        Some(scheme) => {
            if is_literal(scheme.as_str(), "http") || is_literal(scheme.as_str(), "https") {
                Some(trimmed)
            } else {
                None
            }
        },
        None => None,
    }
}

/// What pasted text is: a subscription URL, or else whatever the link
/// parser made of it (`links`, its answer for the trimmed text).
pub fn classify(text: &str, links: Result<Vec<ParsedOutbound>, String>) -> (r: Result<
    Pasted,
    ImportError,
>)
    ensures
        is_http_url(trim(text@)) ==> (r matches Ok(Pasted::SubscriptionUrl(u)) && u@ == trim(
            text@,
        )),
        !is_http_url(trim(text@)) ==> (match links {
            Ok(v) => r matches Ok(Pasted::Outbounds(w)) && w == v,
            Err(e) => r matches Err(ImportError::Subscription(f)) && f == e,
        }),
{
    match subscription_url(text) {
        Some(url) => Ok(Pasted::SubscriptionUrl(url)),
        None => match links {
            Ok(v) => Ok(Pasted::Outbounds(v)),
            Err(e) => Err(ImportError::Subscription(e)),
        },
    }
}

/// A UUID as text in its hyphenated lowercase form: 36 characters, hyphens
/// at positions 8, 13, 18 and 23, lowercase hexadecimal digits elsewhere.
pub open spec fn is_uuid_text(u: Seq<char>) -> bool {
    &&& u.len() == 36
    &&& forall|i: int|
        0 <= i < 36 ==> if i == 8 || i == 13 || i == 18 || i == 23 {
            #[trigger] u[i] == '-'
        } else {
            ('0' <= u[i] <= '9') || ('a' <= u[i] <= 'f')
        }
}

/// `uuid::Uuid::new_v4`, written with `to_string`. Its 16 bytes are random,
/// so only the text's form is claimed: `Display` writes the hyphenated form
/// with lowercase hexadecimal digits.
#[verifier::external_body]
fn random_uuid() -> (r: String)
    ensures
        is_uuid_text(r@),
{
    uuid::Uuid::new_v4().to_string()
}

/// A fresh identifier: `prefix`, a hyphen, and a random UUID in its
/// hyphenated lowercase form.
pub fn new_id(prefix: &str) -> (id: String)
    ensures
        exists|u: Seq<char>| id@ == prefix@ + "-"@ + u && is_uuid_text(u),
{
    let mut id = String::new();
    push_str(&mut id, prefix);
    push_str(&mut id, "-");
    let u = random_uuid();
    push_str(&mut id, u.as_str());
    assert(id@ =~= prefix@ + "-"@ + u@);
    id
}

/// The protocol a parsed link speaks.
pub open spec fn protocol_of(outbound: ParsedOutbound) -> Protocol {
    match outbound {
        ParsedOutbound::Vmess(_) => Protocol::VMess,
        ParsedOutbound::Vless(_) => Protocol::VLESS,
        ParsedOutbound::Trojan(_) => Protocol::Trojan,
        ParsedOutbound::Shadowsocks(_) => Protocol::Shadowsocks,
        ParsedOutbound::Hysteria2(_) => Protocol::Hysteria2,
        ParsedOutbound::Tuic(_) => Protocol::Tuic,
    }
}

/// `s` with its ASCII capitals in lower case.
pub open spec fn ascii_lower(s: Seq<char>) -> Seq<char> {
    s.map_values(|c: char| if 'A' <= c <= 'Z' { ((c as int) + 32) as char } else { c })
}

/// The protocol a stored profile names is the protocol the link is dialled
/// with: its name, in lower case, is the `type` of the sing-box outbound the
/// same link becomes. So each kind of link is stored under its own
/// protocol.
pub proof fn lemma_stored_protocol_is_the_outbound_type(outbound: ParsedOutbound, tag: Seq<char>)
    ensures
        field(outbound_model(outbound, tag), "type"@) == Some(
            JsonModel::Text(ascii_lower(protocol_name(protocol_of(outbound)))),
        ),
{
    reveal_strlit("VLESS");
    reveal_strlit("vless");
    reveal_strlit("VMess");
    reveal_strlit("vmess");
    reveal_strlit("Trojan");
    reveal_strlit("trojan");
    reveal_strlit("Shadowsocks");
    reveal_strlit("shadowsocks");
    reveal_strlit("Hysteria2");
    reveal_strlit("hysteria2");
    reveal_strlit("Tuic");
    reveal_strlit("tuic");
    match outbound {
        ParsedOutbound::Vless(o) => {
            lemma_vless_outbound_fields(o, tag);
            assert(ascii_lower("VLESS"@) =~= "vless"@);
        },
        ParsedOutbound::Vmess(o) => {
            lemma_vmess_outbound_fields(o, tag);
            assert(ascii_lower("VMess"@) =~= "vmess"@);
        },
        ParsedOutbound::Trojan(o) => {
            lemma_trojan_outbound_fields(o, tag);
            assert(ascii_lower("Trojan"@) =~= "trojan"@);
        },
        ParsedOutbound::Shadowsocks(o) => {
            lemma_shadowsocks_outbound_fields(o, tag);
            assert(ascii_lower("Shadowsocks"@) =~= "shadowsocks"@);
        },
        ParsedOutbound::Hysteria2(o) => {
            lemma_hysteria2_outbound_fields(o, tag);
            assert(ascii_lower("Hysteria2"@) =~= "hysteria2"@);
        },
        ParsedOutbound::Tuic(o) => {
            lemma_tuic_outbound_fields(o, tag);
            assert(ascii_lower("Tuic"@) =~= "tuic"@);
        },
    }
}

/// The profile to store for a parsed link; `key` is the link as it is to be
/// stored.
pub fn profile_from_outbound(
    outbound: &ParsedOutbound,
    group_id: &str,
    source_id: Option<&str>,
    origin: &str,
    key: String,
) -> (p: NewProfile)
    ensures
        exists|u: Seq<char>| p.id@ == origin@ + "-"@ + u && is_uuid_text(u),
        p.name@ == outbound.name_of(),
        p.region@ == region_of(outbound.name_of()),
        p.protocol == protocol_of(*outbound),
        p.origin@ == origin@,
        p.group_id@ == group_id@,
        opt_chars(p.source_id) == opt_str_chars(source_id),
        p.key == key,
{
    let protocol = match outbound {
        ParsedOutbound::Vmess(_) => Protocol::VMess,
        ParsedOutbound::Vless(_) => Protocol::VLESS,
        ParsedOutbound::Trojan(_) => Protocol::Trojan,
        ParsedOutbound::Shadowsocks(_) => Protocol::Shadowsocks,
        ParsedOutbound::Hysteria2(_) => Protocol::Hysteria2,
        ParsedOutbound::Tuic(_) => Protocol::Tuic,
    };
    let name = outbound.name();
    let source = match source_id {
        Some(s) => Some(s.to_owned()),
        None => None,
    };
    NewProfile {
        id: new_id(origin),
        name: name.to_owned(),
        region: region_from_name(name),
        protocol,
        origin: origin.to_owned(),
        group_id: group_id.to_owned(),
        source_id: source,
        key,
    }
}

/// The source and group rows a new subscription to `url`, named `name`,
/// is stored as.
pub fn subscription_records(url: &str, name: &str) -> (r: (NewSource, NewProfileGroup))
    ensures
        exists|u: Seq<char>| r.0.id@ == "source-"@ + u && is_uuid_text(u),
        r.0.name@ == name@,
        r.0.kind@ == "url"@,
        r.0.value@ == url@,
        r.0.status@ == "up-to-date"@,
        r.0.last_refresh@.len() == 0 || exists|ms: nat| r.0.last_refresh@ == decimal(ms),
        r.0.origin_label@ == "Remote URL"@,
        r.1.id@ == "subscription-"@ + r.0.id@,
        r.1.label@ == name@,
        r.1.kind@ == "subscription"@,
        r.1.source_id matches Some(s) && s@ == r.0.id@,
{
    let source_id = new_id("source");
    proof {
        reveal_strlit("source");
        reveal_strlit("-");
        reveal_strlit("source-");
        let u = choose|u: Seq<char>| source_id@ == "source"@ + "-"@ + u;
        assert("source"@ + "-"@ =~= "source-"@);
        assert(source_id@ =~= "source-"@ + u);
    }
    let mut group_id = String::new();
    push_str(&mut group_id, "subscription-");
    push_str(&mut group_id, source_id.as_str());
    assert(group_id@ =~= "subscription-"@ + source_id@);
    let source = NewSource {
        id: source_id.clone(),
        name: name.to_owned(),
        kind: "url".to_owned(),
        value: url.to_owned(),
        status: "up-to-date".to_owned(),
        last_refresh: refreshed_now(),
        origin_label: "Remote URL".to_owned(),
    };
    let group = NewProfileGroup {
        id: group_id,
        label: name.to_owned(),
        kind: "subscription".to_owned(),
        source_id: Some(source_id),
    };
    (source, group)
}

/// What to do with a batch of pasted links, decided from what is stored.
pub enum ImportPlan {
    /// The single link is stored already, in this group.
    AlreadyPresent { group_id: String },
    /// The single link is new and goes to Default.
    AddToDefault,
    /// No link of the batch is new.
    NothingNew { skipped: usize },
    /// These links of the batch (by position, in order) are new and become
    /// a group of their own; the rest are skipped.
    AddGroup { fresh: Vec<usize>, skipped: usize },
}

/// Whether link `i` of the batch is new: stored nowhere, and not repeating
/// an earlier link of the batch. Links are compared by identity, the form
/// of a link without its display name.
pub open spec fn is_fresh(stored: Seq<(String, String)>, incoming: Seq<String>, i: int) -> bool {
    &&& forall|k: int| 0 <= k < stored.len() ==> (#[trigger] stored[k]).0@ != incoming[i]@
    &&& forall|j: int| 0 <= j < i ==> (#[trigger] incoming[j])@ != incoming[i]@
}

/// The positions of the new links among the first `n`, in order.
pub open spec fn fresh_indices(stored: Seq<(String, String)>, incoming: Seq<String>, n: int) -> Seq<int>
    decreases n,
{
    if n <= 0 {
        Seq::empty()
    } else {
        fresh_indices(stored, incoming, n - 1) + (if is_fresh(stored, incoming, n - 1) {
            seq![n - 1]
        } else {
            Seq::empty()
        })
    }
}

/// The group of the last stored entry with identity `id`: the stored
/// identities are read into a map in order, so a later entry wins.
pub open spec fn stored_group(stored: Seq<(String, String)>, id: Seq<char>) -> Option<Seq<char>>
    decreases stored.len(),
{
    if stored.len() == 0 {
        None
    } else if stored.last().0@ == id {
        Some(stored.last().1@)
    } else {
        stored_group(stored.drop_last(), id)
    }
}

/// Of a pasted batch, the links added are new: each at its own position,
/// stored nowhere, and no two alike; and every link not added is stored
/// already or alike to one that is added.
pub proof fn lemma_fresh_links_are_new(stored: Seq<(String, String)>, incoming: Seq<String>, n: int)
    requires
        0 <= n <= incoming.len(),
    ensures
        fresh_indices(stored, incoming, n).len() <= n,
        forall|k: int|
            0 <= k < fresh_indices(stored, incoming, n).len() ==> 0 <= #[trigger] fresh_indices(
                stored,
                incoming,
                n,
            )[k] < n && is_fresh(stored, incoming, fresh_indices(stored, incoming, n)[k]),
        forall|k1: int, k2: int|
            0 <= k1 < k2 < fresh_indices(stored, incoming, n).len() ==> #[trigger] fresh_indices(
                stored,
                incoming,
                n,
            )[k1] < #[trigger] fresh_indices(stored, incoming, n)[k2] && incoming[fresh_indices(
                stored,
                incoming,
                n,
            )[k1]]@ != incoming[fresh_indices(stored, incoming, n)[k2]]@,
        forall|i: int|
            0 <= i < n ==> (exists|k: int| 0 <= k < stored.len() && (#[trigger] stored[k]).0@ == (
            #[trigger] incoming[i])@) || (exists|k: int|
                0 <= k < fresh_indices(stored, incoming, n).len() && incoming[#[trigger] fresh_indices(
                    stored,
                    incoming,
                    n,
                )[k]]@ == incoming[i]@),
    decreases n,
{
    if n > 0 {
        lemma_fresh_links_are_new(stored, incoming, n - 1);
        let prev = fresh_indices(stored, incoming, n - 1);
        let f = fresh_indices(stored, incoming, n);
        assert(forall|k: int| 0 <= k < prev.len() ==> f[k] == prev[k]);
        if is_fresh(stored, incoming, n - 1) {
            assert(f[prev.len() as int] == n - 1);
        }
        assert forall|i: int|
            0 <= i < n implies (exists|k: int|
            0 <= k < stored.len() && (#[trigger] stored[k]).0@ == (#[trigger] incoming[i])@) || (
        exists|k: int|
            0 <= k < f.len() && incoming[#[trigger] f[k]]@ == incoming[i]@) by {
            if i < n - 1 {
                if exists|k: int| 0 <= k < prev.len() && incoming[#[trigger] prev[k]]@ == incoming[i]@ {
                    let k = choose|k: int| 0 <= k < prev.len() && incoming[#[trigger] prev[k]]@ == incoming[i]@;
                    assert(f[k] == prev[k]);
                }
            } else if is_fresh(stored, incoming, i) {
                assert(f[prev.len() as int] == i);
            } else if !(exists|k: int| 0 <= k < stored.len() && (#[trigger] stored[k]).0@ == incoming[i]@) {
                let j = choose|j: int| 0 <= j < i && (#[trigger] incoming[j])@ == incoming[i]@;
                if exists|k: int| 0 <= k < stored.len() && (#[trigger] stored[k]).0@ == incoming[j]@ {
                    let k = choose|k: int| 0 <= k < stored.len() && (#[trigger] stored[k]).0@ == incoming[j]@;
                    assert(stored[k].0@ == incoming[i]@);
                } else {
                    let k = choose|k: int| 0 <= k < prev.len() && incoming[#[trigger] prev[k]]@ == incoming[j]@;
                    assert(f[k] == prev[k]);
                }
            }
        }
    }
}

/// The group of the last stored entry with identity `id`.
fn stored_group_exec(stored: &[(String, String)], id: &str) -> (r: Option<String>)
    ensures
        opt_chars(r) == stored_group(stored@, id@),
{
    let mut i: usize = stored.len();
    assert(stored@.subrange(0, i as int) =~= stored@);
    while i > 0
        invariant
            i <= stored@.len(),
            stored_group(stored@, id@) == stored_group(stored@.subrange(0, i as int), id@),
        decreases i,
    {
        let ghost prefix = stored@.subrange(0, i as int);
        assert(prefix.drop_last() =~= stored@.subrange(0, i - 1));
        if is_literal(stored[i - 1].0.as_str(), id) {
            return Some(stored[i - 1].1.clone());
        }
        i = i - 1;
    }
    None
}

/// Whether link `i` of the batch is new.
fn is_fresh_exec(stored: &[(String, String)], incoming: &[String], i: usize) -> (b: bool)
    requires
        i < incoming@.len(),
    ensures
        b == is_fresh(stored@, incoming@, i as int),
{
    let id = incoming[i].as_str();
    let mut k: usize = 0;
    while k < stored.len()
        invariant
            k <= stored@.len(),
            id@ == incoming@[i as int]@,
            forall|m: int| 0 <= m < k ==> (#[trigger] stored@[m]).0@ != id@,
        decreases stored.len() - k,
    {
        if is_literal(stored[k].0.as_str(), id) {
            return false;
        }
        k = k + 1;
    }
    let mut j: usize = 0;
    while j < i
        invariant
            j <= i < incoming@.len(),
            id@ == incoming@[i as int]@,
            forall|m: int| 0 <= m < j ==> (#[trigger] incoming@[m])@ != id@,
        decreases i - j,
    {
        if is_literal(incoming[j].as_str(), id) {
            return false;
        }
        j = j + 1;
    }
    true
}

/// Pasted links, as opposed to a subscription: `stored` pairs the identity
/// of every stored profile with its group, in storage order, and `incoming`
/// holds the identities of the pasted links. Anything already present, in
/// any group, is skipped rather than added twice.
pub fn plan_outbounds(stored: &[(String, String)], incoming: &[String]) -> (r: ImportPlan)
    ensures
        incoming@.len() == 1 ==> match stored_group(stored@, incoming@[0]@) {
            Some(g) => r matches ImportPlan::AlreadyPresent { group_id } && group_id@ == g,
            None => r is AddToDefault,
        },
        incoming@.len() != 1 && fresh_indices(stored@, incoming@, incoming@.len() as int).len() == 0
            ==> (r matches ImportPlan::NothingNew { skipped } && skipped == incoming@.len()),
        incoming@.len() != 1 && fresh_indices(stored@, incoming@, incoming@.len() as int).len() > 0
            ==> (r matches ImportPlan::AddGroup { fresh, skipped } && fresh@.len() == fresh_indices(
            stored@,
            incoming@,
            incoming@.len() as int,
        ).len() && (forall|k: int|
            0 <= k < fresh@.len() ==> #[trigger] fresh@[k] as int == fresh_indices(
                stored@,
                incoming@,
                incoming@.len() as int,
            )[k]) && skipped == incoming@.len() - fresh@.len()),
{
    if incoming.len() == 1 {
        return match stored_group_exec(stored, incoming[0].as_str()) {
            Some(group_id) => ImportPlan::AlreadyPresent { group_id },
            None => ImportPlan::AddToDefault,
        };
    }
    let mut fresh: Vec<usize> = Vec::new();
    let mut i: usize = 0;
    while i < incoming.len()
        invariant
            i <= incoming@.len(),
            fresh@.len() == fresh_indices(stored@, incoming@, i as int).len(),
            fresh@.len() <= i,
            forall|k: int|
                0 <= k < fresh@.len() ==> #[trigger] fresh@[k] as int == fresh_indices(
                    stored@,
                    incoming@,
                    i as int,
                )[k],
        decreases incoming.len() - i,
    {
        if is_fresh_exec(stored, incoming, i) {
            fresh.push(i);
        }
        i = i + 1;
    }
    let skipped = incoming.len() - fresh.len();
    if fresh.len() == 0 {
        ImportPlan::NothingNew { skipped }
    } else {
        ImportPlan::AddGroup { fresh, skipped }
    }
}

/// What deleting a subscription group takes with it.
pub struct Removal {
    /// The source that feeds the group, deleted after the group.
    pub source_id: String,
    /// Whether the active choice is among the group's profiles and is to be
    /// cleared.
    pub clears_active: bool,
}

/// Whether `active` names one of `ids`.
pub open spec fn holds_active(ids: Seq<String>, active: Option<Seq<char>>) -> bool {
    active matches Some(a) && exists|i: int| 0 <= i < ids.len() && (#[trigger] ids[i])@ == a
}

/// Whether one of `ids` spells `active`.
fn contains_id(ids: &Vec<String>, active: &str) -> (b: bool)
    ensures
        b == exists|i: int| 0 <= i < ids@.len() && (#[trigger] ids@[i])@ == active@,
{
    let mut i: usize = 0;
    while i < ids.len()
        invariant
            i <= ids@.len(),
            forall|k: int| 0 <= k < i ==> (#[trigger] ids@[k])@ != active@,
        decreases ids.len() - i,
    {
        if is_literal(ids[i].as_str(), active) {
            return true;
        }
        i = i + 1;
    }
    false
}

/// Deleting a subscription removes its group, every VPN in it and its
/// source. Refused for a group that is not a subscription, and while
/// connected through one of its VPNs: pulling the active profile from under
/// a running tunnel would leave the configuration pointing at an outbound
/// the database no longer knows. Disconnected, the active choice is cleared.
pub fn plan_removal(group: &ProfileGroup, active_profile_id: Option<&str>, connected: bool) -> (r: Result<
    Removal,
    ImportError,
>)
    ensures
        !(group.kind@ == "subscription"@ && group.source_id is Some) ==> (r matches Err(
            ImportError::NotASubscription(g),
        ) && g@ == group.id@),
        group.kind@ == "subscription"@ && group.source_id is Some && holds_active(
            group.profile_ids@,
            opt_str_chars(active_profile_id),
        ) && connected ==> r matches Err(ImportError::ActiveProfileInUse),
        group.kind@ == "subscription"@ && group.source_id is Some && !(holds_active(
            group.profile_ids@,
            opt_str_chars(active_profile_id),
        ) && connected) ==> (r matches Ok(rm) && rm.source_id@ == group.source_id->0@
            && rm.clears_active == holds_active(group.profile_ids@, opt_str_chars(active_profile_id))),
{
    let source_id = match &group.source_id {
        Some(s) if is_literal(group.kind.as_str(), "subscription") => s.clone(),
        _ => {
            return Err(ImportError::NotASubscription(group.id.clone()));
        },
    };
    let holds = match active_profile_id {
        Some(active) => contains_id(&group.profile_ids, active),
        None => false,
    };
    if holds && connected {
        return Err(ImportError::ActiveProfileInUse);
    }
    Ok(Removal { source_id, clears_active: holds })
}

/// Whether some source of kind `url` with value `url` has id `id`.
pub open spec fn url_source(sources: Seq<Source>, id: Seq<char>, url: Seq<char>) -> bool {
    exists|k: int|
        0 <= k < sources.len() && (#[trigger] sources[k]).id@ == id && sources[k].kind@ == "url"@
            && sources[k].value@ == url
}

/// Whether `group` is a subscription group fed by `url`.
pub open spec fn fed_by(group: ProfileGroup, sources: Seq<Source>, url: Seq<char>) -> bool {
    &&& group.kind@ == "subscription"@
    &&& group.source_id matches Some(id) && url_source(sources, id@, url)
}

/// Whether a source fed by `url` has id `id`.
fn has_url_source(sources: &[Source], id: &str, url: &str) -> (b: bool)
    ensures
        b == url_source(sources@, id@, url@),
{
    let mut k: usize = 0;
    while k < sources.len()
        invariant
            k <= sources@.len(),
            forall|m: int|
                0 <= m < k ==> !((#[trigger] sources@[m]).id@ == id@ && sources@[m].kind@ == "url"@
                    && sources@[m].value@ == url@),
        decreases sources.len() - k,
    {
        let s = &sources[k];
        if is_literal(s.id.as_str(), id) && is_literal(s.kind.as_str(), "url") && is_literal(
            s.value.as_str(),
            url,
        ) {
            return true;
        }
        k = k + 1;
    }
    false
}

/// The subscription group already fed by `url`, if there is one: the
/// position in `groups` of the first subscription group whose source is a
/// URL source with exactly that value.
pub fn subscription_for_url(sources: &[Source], groups: &[ProfileGroup], url: &str) -> (r: Option<
    usize,
>)
    ensures
        match r {
            Some(i) => i < groups@.len() && fed_by(groups@[i as int], sources@, url@) && forall|j: int|
                0 <= j < i ==> !fed_by(#[trigger] groups@[j], sources@, url@),
            None => forall|j: int| 0 <= j < groups@.len() ==> !fed_by(#[trigger] groups@[j], sources@, url@),
        },
{
    let mut i: usize = 0;
    while i < groups.len()
        invariant
            i <= groups@.len(),
            forall|j: int| 0 <= j < i ==> !fed_by(#[trigger] groups@[j], sources@, url@),
        decreases groups.len() - i,
    {
        let g = &groups[i];
        if is_literal(g.kind.as_str(), "subscription") {
            if let Some(id) = &g.source_id {
                if has_url_source(sources, id.as_str(), url) {
                    return Some(i);
                }
            }
        }
        i = i + 1;
    }
    None
}

} // verus!
