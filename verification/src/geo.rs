//! Where the internet thinks the user is: the answer of a public lookup
//! service asked through the tunnel, and which failures are worth a retry.
use vstd::prelude::*;

verus! {

#[derive(Debug, Clone, PartialEq)]
pub enum GeoError {
    /// The lookup never left the tunnel.
    Unreachable(String),
    Timeout,
    /// The service answered with this HTTP status.
    Http(u16),
    /// The service refused to answer, for this reason.
    Rejected(String),
    /// The answer could not be decoded.
    Decode(String),
}

/// Where the exit node appears to be, plus the address the internet sees.
#[derive(Debug, Clone, PartialEq)]
pub struct ExitLocation {
    pub ip: String,
    pub city: String,
    pub country: String,
    /// ISO 3166-1 alpha-2.
    pub country_code: String,
}

/// The lookup service's answer. A refusal comes back with HTTP 200 and
/// `success: false`, so the status alone does not say there is an answer.
#[derive(Debug, Clone, PartialEq)]
pub struct GeoResponse {
    pub success: bool,
    pub message: Option<String>,
    pub ip: String,
    pub city: String,
    pub country: String,
    pub country_code: String,
}

/// A refusal becomes `Rejected` with the service's message ("no reason
/// given" without one); an answer becomes the location it names.
pub fn to_location(body: GeoResponse) -> (r: Result<ExitLocation, GeoError>)
    ensures
        !body.success ==> (r matches Err(GeoError::Rejected(m)) && m@ == match body.message {
            Some(msg) => msg@,
            None => "no reason given"@,
        }),
        body.success ==> r == Ok::<ExitLocation, GeoError>(
            ExitLocation {
                ip: body.ip,
                city: body.city,
                country: body.country,
                country_code: body.country_code,
            },
        ),
{
    if !body.success {
        let reason = match body.message {
            Some(m) => m,
            None => {
                let mut s = String::new();
                crate::text::push_str(&mut s, "no reason given");
                s
            },
        };
        return Err(GeoError::Rejected(reason));
    }
    Ok(ExitLocation { ip: body.ip, city: body.city, country: body.country, country_code: body.country_code })
}

/// Only a lookup that never got an answer is worth repeating: a refused or
/// timed-out proxy may just be starting. An HTTP status, a refusal or an
/// undecodable answer is an answer, and asking again gets the same one.
pub fn is_transient(error: &GeoError) -> (b: bool)
    ensures
        b == (error is Unreachable || error is Timeout),
{
    match error {
        GeoError::Unreachable(_) | GeoError::Timeout => true,
        _ => false,
    }
}

/// How many times the exit location is asked for before giving up.
pub const GEO_LOOKUP_ATTEMPTS: u32 = 4;

/// Whether a lookup that failed with `error` on attempt `attempts` (counted
/// from one) is tried again: the core announces a connection as soon as it
/// is spawned, so the first attempts are usually refused while it opens its
/// inbound.
pub fn retry_lookup(attempts: u32, error: &GeoError) -> (b: bool)
    ensures
        b == (attempts < GEO_LOOKUP_ATTEMPTS && (error is Unreachable || error is Timeout)),
{
    attempts < GEO_LOOKUP_ATTEMPTS && is_transient(error)
}

} // verus!
