//! The records the app stores and shows: profiles, groups, sources, routing
//! and settings, and the test outcome a profile carries.
use vstd::prelude::*;

use crate::text::{eq_chars, to_chars};

verus! {

broadcast use {vstd::slice::group_slice_axioms, vstd::string::group_string_axioms};

/// `rusqlite::Error`, carried through unchanged in `StorageError`.
#[verifier::external_type_specification]
#[verifier::external_body]
pub struct ExSqliteError(rusqlite::Error);

#[derive(Debug)]
pub enum StorageError {
    Sqlite(rusqlite::Error),
    Migration { step: usize, source: rusqlite::Error },
    UnsupportedSchemaVersion { found: i64, supported: i64 },
    NotFound,
    InvalidInput(String),
}

/// Whether `s` spells exactly `lit`.
pub fn is_literal(s: &str, lit: &str) -> (b: bool)
    ensures
        b == (s@ == lit@),
{
    let a = to_chars(s);
    let l = to_chars(lit);
    eq_chars(a.as_slice(), l.as_slice())
}

#[derive(Debug, Clone, Copy, PartialEq, Eq, Structural)]
pub enum Tone {
    Good,
    Warn,
    Bad,
    Muted,
}

pub open spec fn tone_name(t: Tone) -> Seq<char> {
    match t {
        Tone::Good => "good"@,
        Tone::Warn => "warn"@,
        Tone::Bad => "bad"@,
        Tone::Muted => "muted"@,
    }
}

/// The tone a stored name stands for, if it names one.
pub open spec fn tone_named(s: Seq<char>) -> Option<Tone> {
    if s == "good"@ {
        Some(Tone::Good)
    } else if s == "warn"@ {
        Some(Tone::Warn)
    } else if s == "bad"@ {
        Some(Tone::Bad)
    } else if s == "muted"@ {
        Some(Tone::Muted)
    } else {
        None
    }
}

impl Tone {
    pub fn as_str(self) -> (s: &'static str)
        ensures
            s@ == tone_name(self),
    {
        match self {
            Tone::Good => "good",
            Tone::Warn => "warn",
            Tone::Bad => "bad",
            Tone::Muted => "muted",
        }
    }

    /// Reads a stored tone name; anything else is invalid input.
    pub fn parse(s: &str) -> (r: Result<Tone, StorageError>)
        ensures
            r matches Ok(t) ==> tone_named(s@) == Some(t),
            r is Err ==> tone_named(s@) is None && r matches Err(StorageError::InvalidInput(_)),
    {
        if is_literal(s, "good") {
            Ok(Tone::Good)
        } else if is_literal(s, "warn") {
            Ok(Tone::Warn)
        } else if is_literal(s, "bad") {
            Ok(Tone::Bad)
        } else if is_literal(s, "muted") {
            Ok(Tone::Muted)
        } else {
            let mut msg = String::new();
            crate::text::push_str(&mut msg, "unknown tone: ");
            crate::text::push_str(&mut msg, s);
            Err(StorageError::InvalidInput(msg))
        }
    }
}

impl std::str::FromStr for Tone {
    type Err = StorageError;

    fn from_str(s: &str) -> (r: Result<Self, Self::Err>)
        ensures
            r matches Ok(t) ==> tone_named(s@) == Some(t),
            r is Err ==> tone_named(s@) is None && r matches Err(StorageError::InvalidInput(_)),
    {
        Tone::parse(s)
    }
}

/// What measuring a profile produced: a kind and, for a latency, a number.
#[derive(Debug, Clone, Copy, PartialEq, Eq, Structural)]
pub enum TestOutcome {
    NotTested,
    Latency { millis: u32 },
    Timeout,
    NoResponse,
    Unavailable,
}

/// Under 150 ms is good, under 400 ms a warning, any slower latency or any
/// failure bad; an untested profile is muted.
pub open spec fn outcome_tone(o: TestOutcome) -> Tone {
    match o {
        TestOutcome::NotTested => Tone::Muted,
        TestOutcome::Latency { millis } => if millis < 150 {
            Tone::Good
        } else if millis < 400 {
            Tone::Warn
        } else {
            Tone::Bad
        },
        _ => Tone::Bad,
    }
}

pub open spec fn outcome_kind(o: TestOutcome) -> Seq<char> {
    match o {
        TestOutcome::NotTested => "notTested"@,
        TestOutcome::Latency { .. } => "latency"@,
        TestOutcome::Timeout => "timeout"@,
        TestOutcome::NoResponse => "noResponse"@,
        TestOutcome::Unavailable => "unavailable"@,
    }
}

pub open spec fn outcome_millis(o: TestOutcome) -> Option<u32> {
    match o {
        TestOutcome::Latency { millis } => Some(millis),
        _ => None,
    }
}

/// How a stored kind and number read back: an unknown kind is untested, and
/// a latency stored without its number is zero.
pub open spec fn outcome_from_stored(kind: Seq<char>, millis: Option<u32>) -> TestOutcome {
    if kind == "latency"@ {
        TestOutcome::Latency {
            millis: match millis {
                Some(m) => m,
                None => 0,
            },
        }
    } else if kind == "timeout"@ {
        TestOutcome::Timeout
    } else if kind == "noResponse"@ {
        TestOutcome::NoResponse
    } else if kind == "unavailable"@ {
        TestOutcome::Unavailable
    } else {
        TestOutcome::NotTested
    }
}

impl TestOutcome {
    pub fn tone(self) -> (t: Tone)
        ensures
            t == outcome_tone(self),
    {
        match self {
            TestOutcome::NotTested => Tone::Muted,
            TestOutcome::Latency { millis } => {
                if millis < 150 {
                    Tone::Good
                } else if millis < 400 {
                    Tone::Warn
                } else {
                    Tone::Bad
                }
            },
            TestOutcome::Timeout | TestOutcome::NoResponse | TestOutcome::Unavailable => Tone::Bad,
        }
    }

    pub fn kind_str(self) -> (s: &'static str)
        ensures
            s@ == outcome_kind(self),
    {
        match self {
            TestOutcome::NotTested => "notTested",
            TestOutcome::Latency { .. } => "latency",
            TestOutcome::Timeout => "timeout",
            TestOutcome::NoResponse => "noResponse",
            TestOutcome::Unavailable => "unavailable",
        }
    }

    pub fn millis(self) -> (m: Option<u32>)
        ensures
            m == outcome_millis(self),
    {
        match self {
            TestOutcome::Latency { millis } => Some(millis),
            _ => None,
        }
    }

    pub fn from_stored(kind: &str, millis: Option<u32>) -> (o: TestOutcome)
        ensures
            o == outcome_from_stored(kind@, millis),
    {
        if is_literal(kind, "latency") {
            TestOutcome::Latency {
                millis: match millis {
                    Some(m) => m,
                    None => 0,
                },
            }
        } else if is_literal(kind, "timeout") {
            TestOutcome::Timeout
        } else if is_literal(kind, "noResponse") {
            TestOutcome::NoResponse
        } else if is_literal(kind, "unavailable") {
            TestOutcome::Unavailable
        } else {
            TestOutcome::NotTested
        }
    }
}

/// Storing an outcome as its kind and number and reading it back gives the
/// same outcome.
pub proof fn lemma_outcome_round_trip(o: TestOutcome)
    ensures
        outcome_from_stored(outcome_kind(o), outcome_millis(o)) == o,
{
    reveal_strlit("latency");
    reveal_strlit("timeout");
    reveal_strlit("noResponse");
    reveal_strlit("unavailable");
    reveal_strlit("notTested");
    assert("timeout"@[0] != "latency"@[0]);
    assert("noResponse"@.len() != "latency"@.len());
    assert("noResponse"@.len() != "timeout"@.len());
    assert("unavailable"@.len() != "latency"@.len());
    assert("unavailable"@.len() != "timeout"@.len());
    assert("unavailable"@.len() != "noResponse"@.len());
    assert("notTested"@[0] != "latency"@[0]);
    assert("notTested"@.len() != "timeout"@.len());
    assert("notTested"@[2] != "noResponse"@[2]);
    assert("notTested"@.len() != "unavailable"@.len());
}

/// A tone's stored name reads back as the same tone.
pub proof fn lemma_tone_round_trip(t: Tone)
    ensures
        tone_named(tone_name(t)) == Some(t),
{
    reveal_strlit("good");
    reveal_strlit("warn");
    reveal_strlit("bad");
    reveal_strlit("muted");
    assert("warn"@[0] != "good"@[0]);
    assert("bad"@.len() != "good"@.len());
    assert("bad"@.len() != "warn"@.len());
    assert("muted"@.len() != "good"@.len());
    assert("muted"@.len() != "warn"@.len());
    assert("muted"@.len() != "bad"@.len());
}

/// The outcome together with the tone it implies.
#[derive(Debug, Clone, Copy, PartialEq, Eq, Structural)]
pub struct TestResult {
    pub outcome: TestOutcome,
    pub tone: Tone,
}

impl From<TestOutcome> for TestResult {
    fn from(outcome: TestOutcome) -> (r: Self) {
        TestResult { tone: outcome.tone(), outcome }
    }
}

impl vstd::std_specs::convert::FromSpecImpl<TestOutcome> for TestResult {
    open spec fn obeys_from_spec() -> bool {
        true
    }

    open spec fn from_spec(v: TestOutcome) -> TestResult {
        TestResult { tone: outcome_tone(v), outcome: v }
    }
}

#[derive(Debug, Clone, Copy, PartialEq, Eq, Structural)]
pub enum Protocol {
    VLESS,
    VMess,
    Trojan,
    Shadowsocks,
    Hysteria2,
    Tuic,
}

pub open spec fn protocol_name(p: Protocol) -> Seq<char> {
    match p {
        Protocol::VLESS => "VLESS"@,
        Protocol::VMess => "VMess"@,
        Protocol::Trojan => "Trojan"@,
        Protocol::Shadowsocks => "Shadowsocks"@,
        Protocol::Hysteria2 => "Hysteria2"@,
        Protocol::Tuic => "Tuic"@,
    }
}

pub open spec fn protocol_named(s: Seq<char>) -> Option<Protocol> {
    if s == "VLESS"@ {
        Some(Protocol::VLESS)
    } else if s == "VMess"@ {
        Some(Protocol::VMess)
    } else if s == "Trojan"@ {
        Some(Protocol::Trojan)
    } else if s == "Shadowsocks"@ {
        Some(Protocol::Shadowsocks)
    } else if s == "Hysteria2"@ {
        Some(Protocol::Hysteria2)
    } else if s == "Tuic"@ {
        Some(Protocol::Tuic)
    } else {
        None
    }
}

impl Protocol {
    pub fn as_str(self) -> (s: &'static str)
        ensures
            s@ == protocol_name(self),
    {
        match self {
            Protocol::VLESS => "VLESS",
            Protocol::VMess => "VMess",
            Protocol::Trojan => "Trojan",
            Protocol::Shadowsocks => "Shadowsocks",
            Protocol::Hysteria2 => "Hysteria2",
            Protocol::Tuic => "Tuic",
        }
    }

    /// Reads a stored protocol name; anything else is invalid input.
    pub fn parse(s: &str) -> (r: Result<Protocol, StorageError>)
        ensures
            r matches Ok(p) ==> protocol_named(s@) == Some(p),
            r is Err ==> protocol_named(s@) is None && r matches Err(StorageError::InvalidInput(_)),
    {
        if is_literal(s, "VLESS") {
            Ok(Protocol::VLESS)
        } else if is_literal(s, "VMess") {
            Ok(Protocol::VMess)
        } else if is_literal(s, "Trojan") {
            Ok(Protocol::Trojan)
        } else if is_literal(s, "Shadowsocks") {
            Ok(Protocol::Shadowsocks)
        } else if is_literal(s, "Hysteria2") {
            Ok(Protocol::Hysteria2)
        } else if is_literal(s, "Tuic") {
            Ok(Protocol::Tuic)
        } else {
            let mut msg = String::new();
            crate::text::push_str(&mut msg, "unknown protocol: ");
            crate::text::push_str(&mut msg, s);
            Err(StorageError::InvalidInput(msg))
        }
    }
}

impl std::str::FromStr for Protocol {
    type Err = StorageError;

    fn from_str(s: &str) -> (r: Result<Self, Self::Err>)
        ensures
            r matches Ok(p) ==> protocol_named(s@) == Some(p),
            r is Err ==> protocol_named(s@) is None && r matches Err(StorageError::InvalidInput(_)),
    {
        Protocol::parse(s)
    }
}

/// A protocol's stored name reads back as the same protocol.
pub proof fn lemma_protocol_round_trip(p: Protocol)
    ensures
        protocol_named(protocol_name(p)) == Some(p),
{
    reveal_strlit("VLESS");
    reveal_strlit("VMess");
    reveal_strlit("Trojan");
    reveal_strlit("Shadowsocks");
    reveal_strlit("Hysteria2");
    reveal_strlit("Tuic");
    assert("VMess"@[1] != "VLESS"@[1]);
    assert("Trojan"@.len() != "VLESS"@.len());
    assert("Trojan"@.len() != "VMess"@.len());
    assert("Shadowsocks"@.len() != "VLESS"@.len());
    assert("Shadowsocks"@.len() != "VMess"@.len());
    assert("Shadowsocks"@.len() != "Trojan"@.len());
    assert("Hysteria2"@.len() != "VLESS"@.len());
    assert("Hysteria2"@.len() != "VMess"@.len());
    assert("Hysteria2"@.len() != "Trojan"@.len());
    assert("Hysteria2"@.len() != "Shadowsocks"@.len());
    assert("Tuic"@.len() != "VLESS"@.len());
    assert("Tuic"@.len() != "VMess"@.len());
    assert("Tuic"@.len() != "Trojan"@.len());
    assert("Tuic"@.len() != "Shadowsocks"@.len());
    assert("Tuic"@.len() != "Hysteria2"@.len());
}

#[derive(Debug, Clone, PartialEq)]
pub struct Profile {
    pub id: String,
    pub name: String,
    pub region: String,
    pub protocol: Protocol,
    /// "local" or "imported".
    pub origin: String,
    pub group_id: String,
    pub source_id: Option<String>,
    pub selected: bool,
    pub url: TestResult,
    pub key: String,
}

#[derive(Debug, Clone, PartialEq)]
pub struct NewProfile {
    pub id: String,
    pub name: String,
    pub region: String,
    pub protocol: Protocol,
    pub origin: String,
    pub group_id: String,
    pub source_id: Option<String>,
    pub key: String,
}

#[derive(Debug, Clone, PartialEq)]
pub struct ProfileGroup {
    pub id: String,
    pub label: String,
    /// "default", "custom" or "subscription".
    pub kind: String,
    pub source_id: Option<String>,
    pub open: bool,
    pub profile_ids: Vec<String>,
}

#[derive(Debug, Clone, PartialEq)]
pub struct NewProfileGroup {
    pub id: String,
    pub label: String,
    pub kind: String,
    pub source_id: Option<String>,
}

#[derive(Debug, Clone, PartialEq)]
pub struct Source {
    pub id: String,
    pub name: String,
    /// "url" or "key".
    pub kind: String,
    pub value: String,
    pub status: String,
    pub last_refresh: String,
    pub origin_label: String,
}

#[derive(Debug, Clone, PartialEq)]
pub struct NewSource {
    pub id: String,
    pub name: String,
    pub kind: String,
    pub value: String,
    pub status: String,
    pub last_refresh: String,
    pub origin_label: String,
}

#[derive(Debug, Clone, PartialEq)]
pub struct RoutingPreset {
    pub id: String,
    pub label: String,
    pub description: String,
    pub enabled: bool,
}

#[derive(Debug, Clone, PartialEq)]
pub struct RoutingRule {
    pub id: String,
    pub match_value: String,
    /// "Direct", "Proxy" or "Block".
    pub outbound: String,
    pub selected: bool,
}

#[derive(Debug, Clone, PartialEq)]
pub struct NewRoutingRule {
    pub id: String,
    pub match_value: String,
    pub outbound: String,
}

#[derive(Debug, Clone, PartialEq)]
pub struct Settings {
    pub theme: String,
    pub language: String,
    pub startup: bool,
    pub tun_mode: bool,
    pub system_proxy: bool,
    pub auto_connect: bool,
    pub geo_lookup: bool,
    pub tun_interface: String,
    pub auto_update_subscriptions: bool,
    pub subscription_update_interval: String,
    pub custom_subscription_update_minutes: i64,
    pub group_sort: String,
    pub log_level: String,
    pub test_url: String,
}

} // verus!
