//! A proxy server as a share link describes it, one variant per protocol.
use vstd::prelude::*;

verus! {

#[derive(Debug, Clone, PartialEq)]
pub struct VlessOutbound {
    pub name: String,
    pub server: String,
    pub port: u16,
    pub uuid: String,
    pub flow: Option<String>,
    /// "tcp", "ws", "grpc", ...; empty means tcp.
    pub network: String,
    pub tls: bool,
    pub sni: Option<String>,
    pub ws_path: Option<String>,
    pub ws_host: Option<String>,
    pub grpc_service_name: Option<String>,
    pub reality_public_key: Option<String>,
    pub reality_short_id: Option<String>,
    pub fingerprint: Option<String>,
}

#[derive(Debug, Clone, PartialEq)]
pub struct VmessOutbound {
    pub name: String,
    pub server: String,
    pub port: u16,
    pub uuid: String,
    pub alter_id: u32,
    pub security: String,
    pub network: String,
    pub tls: bool,
    pub sni: Option<String>,
    pub ws_path: Option<String>,
    pub ws_host: Option<String>,
}

#[derive(Debug, Clone, PartialEq)]
pub struct TrojanOutbound {
    pub name: String,
    pub server: String,
    pub port: u16,
    pub password: String,
    pub sni: Option<String>,
    pub network: String,
}

#[derive(Debug, Clone, PartialEq)]
pub struct ShadowsocksOutbound {
    pub name: String,
    pub server: String,
    pub port: u16,
    pub method: String,
    pub password: String,
}

#[derive(Debug, Clone, PartialEq)]
pub struct Hysteria2Outbound {
    pub name: String,
    pub server: String,
    pub port: u16,
    pub password: String,
    pub sni: Option<String>,
    pub insecure: bool,
    pub obfs: Option<String>,
    pub obfs_password: Option<String>,
}

#[derive(Debug, Clone, PartialEq)]
pub struct TuicOutbound {
    pub name: String,
    pub server: String,
    pub port: u16,
    pub uuid: String,
    pub password: String,
    pub sni: Option<String>,
    pub alpn: Vec<String>,
    pub congestion_control: Option<String>,
}

#[derive(Debug, Clone, PartialEq)]
pub enum ParsedOutbound {
    Vless(VlessOutbound),
    Vmess(VmessOutbound),
    Trojan(TrojanOutbound),
    Shadowsocks(ShadowsocksOutbound),
    Hysteria2(Hysteria2Outbound),
    Tuic(TuicOutbound),
}

impl ParsedOutbound {
    /// The display name the link carried.
    pub open spec fn name_of(self) -> Seq<char> {
        match self {
            ParsedOutbound::Vless(o) => o.name@,
            ParsedOutbound::Vmess(o) => o.name@,
            ParsedOutbound::Trojan(o) => o.name@,
            ParsedOutbound::Shadowsocks(o) => o.name@,
            ParsedOutbound::Hysteria2(o) => o.name@,
            ParsedOutbound::Tuic(o) => o.name@,
        }
    }

    pub fn name(&self) -> (s: &str)
        ensures
            s@ == self.name_of(),
    {
        match self {
            ParsedOutbound::Vless(o) => o.name.as_str(),
            ParsedOutbound::Vmess(o) => o.name.as_str(),
            ParsedOutbound::Trojan(o) => o.name.as_str(),
            ParsedOutbound::Shadowsocks(o) => o.name.as_str(),
            ParsedOutbound::Hysteria2(o) => o.name.as_str(),
            ParsedOutbound::Tuic(o) => o.name.as_str(),
        }
    }
}

} // verus!
