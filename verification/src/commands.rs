//! The records the interface is handed and hands back, and the paths the
//! program resolves once at startup.
use vstd::prelude::*;

use crate::models::{Profile, ProfileGroup, RoutingPreset, RoutingRule, Settings, Source};
use crate::storage::{RulePatch, SourcePatch};

verus! {

/// Everything the interface shows, in one answer.
pub struct AppSnapshot {
    pub connected: bool,
    /// Unix milliseconds, or `None` while disconnected.
    pub connected_since: Option<u64>,
    pub active_profile_id: String,
    pub profiles: Vec<Profile>,
    pub profile_groups: Vec<ProfileGroup>,
    pub sources: Vec<Source>,
    pub routing_presets: Vec<RoutingPreset>,
    pub routing_rules: Vec<RoutingRule>,
    pub settings: Settings,
}

/// A source's name and value as the interface edits them.
pub struct UpdateSourceInput {
    pub name: Option<String>,
    pub value: Option<String>,
}

/// A rule's pattern and outbound as the interface edits them.
pub struct RulePatchInput {
    pub match_value: Option<String>,
    pub outbound: Option<String>,
}

/// Borrows the string inside an option.
fn borrowed(value: &Option<String>) -> (r: Option<&str>)
    ensures
        match (value, r) {
            (Some(s), Some(t)) => t@ == s@,
            (None, None) => true,
            _ => false,
        },
{
    match value {
        Some(s) => Some(s.as_str()),
        None => None,
    }
}

impl RulePatchInput {
    /// The store's patch for this edit.
    pub fn as_patch(&self) -> (p: RulePatch<'_>)
        ensures
            match (self.match_value, p.match_value) {
                (Some(s), Some(t)) => t@ == s@,
                (None, None) => true,
                _ => false,
            },
            match (self.outbound, p.outbound) {
                (Some(s), Some(t)) => t@ == s@,
                (None, None) => true,
                _ => false,
            },
    {
        RulePatch { match_value: borrowed(&self.match_value), outbound: borrowed(&self.outbound) }
    }
}

impl UpdateSourceInput {
    /// The store's patch for this edit: name and value only.
    pub fn as_patch(&self) -> (p: SourcePatch<'_>)
        ensures
            match (self.name, p.name) {
                (Some(s), Some(t)) => t@ == s@,
                (None, None) => true,
                _ => false,
            },
            match (self.value, p.value) {
                (Some(s), Some(t)) => t@ == s@,
                (None, None) => true,
                _ => false,
            },
            p.status is None,
            p.last_refresh is None,
    {
        SourcePatch {
            name: borrowed(&self.name),
            value: borrowed(&self.value),
            status: None,
            last_refresh: None,
        }
    }
}

/// Paths and test-core addresses resolved once at startup. The connection's
/// own ports are settings, read on every connect.
pub struct RuntimePaths {
    pub sing_box_binary: String,
    pub config_path: String,
    /// The test core runs alongside a live connection, so it cannot share
    /// the connection's ports or its config file.
    pub test_config_path: String,
    pub test_clash_api_listen: String,
    pub test_mixed_listen_port: u16,
}

/// The test core's mixed inbound port, reserved so a user port never
/// collides with it; its Clash API listens on 127.0.0.1:9091 for the same
/// reason.
pub const TEST_MIXED_LISTEN_PORT: u16 = 2081;

impl RuntimePaths {
    pub fn new(sing_box_binary: String, config_path: String, test_config_path: String) -> (p: Self)
        ensures
            p.sing_box_binary == sing_box_binary,
            p.config_path == config_path,
            p.test_config_path == test_config_path,
            p.test_clash_api_listen@ == "127.0.0.1:9091"@,
            p.test_mixed_listen_port == 2081,
    {
        RuntimePaths {
            sing_box_binary,
            config_path,
            test_config_path,
            test_clash_api_listen: "127.0.0.1:9091".to_owned(),
            test_mixed_listen_port: TEST_MIXED_LISTEN_PORT,
        }
    }
}

} // verus!
