//! The records sing-box's Clash-compatible API answers with, its errors, and
//! the traffic events the dashboard is sent.
use vstd::prelude::*;

use std::collections::HashMap;
use std::time::{Duration, Instant};

use crate::clock::{duration_nanos, left_until, nanos, nanos_between};
use crate::system_proxy::{trim_end_char, trim_end_char_exec};
use crate::text::{push_str, string_of, to_chars};

verus! {

#[derive(Debug, Clone, PartialEq)]
pub struct VersionInfo {
    pub version: String,
    pub premium: bool,
}

#[derive(Debug, Clone, PartialEq)]
pub struct ProxyInfo {
    pub kind: String,
    pub now: Option<String>,
    pub all: Vec<String>,
}

#[derive(Debug, Clone, PartialEq)]
pub struct ProxiesResponse {
    pub proxies: HashMap<String, ProxyInfo>,
}

#[derive(Debug, Clone, PartialEq)]
pub struct ConnectionMetadata {
    pub host: String,
    pub network: String,
    pub destination_port: String,
}

#[derive(Debug, Clone, PartialEq)]
pub struct ConnectionInfo {
    pub id: String,
    pub metadata: ConnectionMetadata,
    pub upload: u64,
    pub download: u64,
    pub chains: Vec<String>,
    pub rule: String,
}

#[derive(Debug, Clone, PartialEq)]
pub struct ConnectionsResponse {
    pub download_total: u64,
    pub upload_total: u64,
    pub connections: Vec<ConnectionInfo>,
}

#[derive(Debug, Clone, Copy, PartialEq, Eq, Structural)]
pub struct TrafficSample {
    pub up: u64,
    pub down: u64,
}

#[derive(Debug, Clone, PartialEq)]
pub enum ClashApiError {
    /// The API could not be reached.
    Connection(String),
    Timeout,
    Http { status: u16, body: String },
    Decode(String),
}

/// A failed request: a response that could not be decoded is a decode
/// error, anything else a connection error, each carrying the message.
pub fn request_error(is_decode: bool, message: String) -> (e: ClashApiError)
    ensures
        is_decode ==> e == ClashApiError::Decode(message),
        !is_decode ==> e == ClashApiError::Connection(message),
{
    if is_decode {
        ClashApiError::Decode(message)
    } else {
        ClashApiError::Connection(message)
    }
}

#[derive(Debug, Clone, PartialEq)]
pub enum TrafficEvent {
    Sample(TrafficSample),
    Disconnected,
    Reconnecting,
}

/// What the dashboard is sent for a traffic event: a sample together with
/// the session totals and connection count, when those could be fetched.
#[derive(Debug, Clone, PartialEq)]
pub enum DashboardTrafficEvent {
    Sample {
        up: u64,
        down: u64,
        upload_total: Option<u64>,
        download_total: Option<u64>,
        active_connections: Option<usize>,
    },
    Disconnected,
    Reconnecting,
}

/// A sample carries the totals when the connections request answered and
/// still reaches the dashboard when it did not; other events pass through.
pub fn to_dashboard_event(event: &TrafficEvent, totals: Option<&ConnectionsResponse>) -> (d: DashboardTrafficEvent)
    ensures
        d == match *event {
            TrafficEvent::Sample(s) => DashboardTrafficEvent::Sample {
                up: s.up,
                down: s.down,
                upload_total: match totals {
                    Some(t) => Some(t.upload_total),
                    None => None,
                },
                download_total: match totals {
                    Some(t) => Some(t.download_total),
                    None => None,
                },
                active_connections: match totals {
                    Some(t) => Some(t.connections@.len() as usize),
                    None => None,
                },
            },
            TrafficEvent::Disconnected => DashboardTrafficEvent::Disconnected,
            TrafficEvent::Reconnecting => DashboardTrafficEvent::Reconnecting,
        },
{
    match event {
        TrafficEvent::Sample(s) => {
            let (upload_total, download_total, active_connections) = match totals {
                Some(t) => (Some(t.upload_total), Some(t.download_total), Some(t.connections.len())),
                None => (None, None, None),
            };
            DashboardTrafficEvent::Sample {
                up: s.up,
                down: s.down,
                upload_total,
                download_total,
                active_connections,
            }
        },
        TrafficEvent::Disconnected => DashboardTrafficEvent::Disconnected,
        TrafficEvent::Reconnecting => DashboardTrafficEvent::Reconnecting,
    }
}

/// A core is idle once longer than `timeout` has passed since its last
/// test (`elapsed`, in nanoseconds); one with no recorded test has outlived
/// whatever started it.
pub fn idle_after(elapsed: Option<u128>, timeout: u128) -> (idle: bool)
    ensures
        idle == match elapsed {
            Some(e) => e > timeout,
            None => true,
        },
{
    match elapsed {
        Some(e) => e > timeout,
        None => true,
    }
}

/// Whether the test core has sat unused for longer than `timeout`: idle
/// only once strictly more than `timeout` has passed since its last test.
pub fn test_core_is_idle(last_test: Option<Instant>, now: Instant, timeout: Duration) -> (idle: bool)
    ensures
        last_test is None ==> idle,
        last_test matches Some(t) ==> idle == (nanos_between(now, t) > duration_nanos(timeout)),
{
    let elapsed = match last_test {
        Some(t) => Some(nanos(left_until(now, t))),
        None => None,
    };
    idle_after(elapsed, nanos(timeout))
}

/// One read from the traffic stream.
pub enum Frame {
    /// A text message, with the sample it holds when it decodes as one.
    Text(Option<TrafficSample>),
    /// The server closed the stream.
    Close,
    /// Any other message (binary, ping, pong).
    Other,
    /// Reading failed.
    Failed,
    /// The stream ended.
    Ended,
}

/// What a read from the traffic stream calls for.
pub enum FrameStep {
    /// Pass the sample on.
    Forward(TrafficSample),
    /// Keep reading.
    Skip,
    /// Give up on this connection: report it and reconnect.
    Reconnect,
}

/// A malformed frame is skipped rather than tearing the connection down:
/// one bad sample must not interrupt an otherwise healthy stream. A close,
/// a read error or the end of the stream ends the connection.
pub fn on_frame(frame: Frame) -> (step: FrameStep)
    ensures
        frame matches Frame::Text(Some(sample)) ==> (step matches FrameStep::Forward(s) && s
            == sample),
        frame matches Frame::Text(None) ==> step is Skip,
        frame is Other ==> step is Skip,
        frame is Close || frame is Failed || frame is Ended ==> step is Reconnect,
{
    match frame {
        Frame::Text(Some(sample)) => FrameStep::Forward(sample),
        Frame::Text(None) | Frame::Other => FrameStep::Skip,
        Frame::Close | Frame::Failed | Frame::Ended => FrameStep::Reconnect,
    }
}

/// A connection that ends, or cannot be made, is reported as
/// `Disconnected`. After that report the watcher stops if a stop was asked
/// for (`None`); otherwise it reports `Reconnecting` and tries again after
/// its delay.
pub fn after_disconnect(stop_requested: bool) -> (next: Option<TrafficEvent>)
    ensures
        stop_requested <==> next is None,
        next matches Some(e) ==> e is Reconnecting,
{
    if stop_requested {
        None
    } else {
        Some(TrafficEvent::Reconnecting)
    }
}

/// An uppercase hexadecimal digit, for `d < 16`.
pub open spec fn hex_upper(d: int) -> char {
    if d < 10 {
        (48 + d) as char
    } else {
        (55 + d) as char
    }
}

/// An ASCII letter or digit.
pub open spec fn is_ascii_alnum(b: u8) -> bool {
    (48 <= b <= 57) || (65 <= b <= 90) || (97 <= b <= 122)
}

/// Bytes percent-encoded with every byte but ASCII letters and digits
/// written `%XX` in uppercase hexadecimal.
pub open spec fn percent_encoded(bytes: Seq<u8>) -> Seq<char>
    decreases bytes.len(),
{
    if bytes.len() == 0 {
        Seq::empty()
    } else {
        (if is_ascii_alnum(bytes[0]) {
            seq![bytes[0] as char]
        } else {
            seq!['%', hex_upper(bytes[0] as int / 16), hex_upper(bytes[0] as int % 16)]
        }) + percent_encoded(bytes.drop_first())
    }
}

/// `percent_encoding::utf8_percent_encode` with `NON_ALPHANUMERIC`, as text.
/// Claimed, as the crate's source shows: each byte of the UTF-8 encoding
/// that is not an ASCII letter or digit becomes `%` and two uppercase hex
/// digits; letters and digits stay.
#[verifier::external_body]
fn percent_encode(s: &str) -> (r: String)
    ensures
        r@ == percent_encoded(vstd::utf8::encode_utf8(s@)),
{
    percent_encoding::utf8_percent_encode(s, percent_encoding::NON_ALPHANUMERIC).to_string()
}

/// The API's base URL as given, without trailing slashes.
pub fn api_base(base_url: &str) -> (s: String)
    ensures
        s@ == trim_end_char(base_url@, '/'),
{
    let chars = to_chars(base_url);
    let t = trim_end_char_exec(chars.as_slice(), '/');
    assert(t@.subrange(0, t@.len() as int) =~= t@);
    string_of(t.as_slice(), 0, t.len())
}

/// The URL of `path` under `base`.
pub fn api_url(base: &str, path: &str) -> (s: String)
    ensures
        s@ == base@ + path@,
{
    let mut s = String::new();
    push_str(&mut s, base);
    push_str(&mut s, path);
    assert(s@ =~= base@ + path@);
    s
}

/// `prefix` followed by `name`, percent-encoded.
fn encoded_path(prefix: &str, name: &str) -> (s: String)
    ensures
        s@ == prefix@ + percent_encoded(vstd::utf8::encode_utf8(name@)),
{
    let mut s = String::new();
    push_str(&mut s, prefix);
    let e = percent_encode(name);
    push_str(&mut s, e.as_str());
    assert(s@ =~= prefix@ + e@);
    s
}

/// The path that switches the selector `selector`.
pub fn select_path(selector: &str) -> (s: String)
    ensures
        s@ == "/proxies/"@ + percent_encoded(vstd::utf8::encode_utf8(selector@)),
{
    encoded_path("/proxies/", selector)
}

/// The path that closes the connection `id`.
pub fn connection_path(id: &str) -> (s: String)
    ensures
        s@ == "/connections/"@ + percent_encoded(vstd::utf8::encode_utf8(id@)),
{
    encoded_path("/connections/", id)
}

} // verus!
