//! Startup configuration: the data model the orchestrator is built from.
//!
//! Reading a configuration file and decoding its syntax happen outside the
//! library; the library receives plain values and owns their meaning.

use vstd::prelude::*;

use crate::address::Address;
use crate::rules::str_eq;

verus! {

/// Which mode the router starts in.
#[derive(Clone, Copy, PartialEq, Eq, Structural, Debug)]
pub enum Mode {
    Rule,
    Global,
    Direct,
}

impl Mode {
    /// Parse a mode name; exactly `rule`, `global` and `direct` are accepted.
    pub fn from_str(s: &str) -> (r: Result<Mode, ()>)
        ensures
            s@ == "rule"@ ==> r == Ok::<Mode, ()>(Mode::Rule),
            s@ == "global"@ ==> r == Ok::<Mode, ()>(Mode::Global),
            s@ == "direct"@ ==> r == Ok::<Mode, ()>(Mode::Direct),
            s@ != "rule"@ && s@ != "global"@ && s@ != "direct"@ ==> r is Err,
    {
        proof {
            reveal_strlit("rule");
            reveal_strlit("global");
            reveal_strlit("direct");
            assert("rule"@.len() == 4);
            assert("global"@.len() == 6);
            assert("direct"@.len() == 6);
            assert("global"@[0] == 'g');
            assert("direct"@[0] == 'd');
            assert("global"@ != "direct"@);
        }
        if str_eq(s, "rule") {
            Ok(Mode::Rule)
        } else if str_eq(s, "global") {
            Ok(Mode::Global)
        } else if str_eq(s, "direct") {
            Ok(Mode::Direct)
        } else {
            Err(())
        }
    }

    /// The mode's name.
    pub fn as_text(&self) -> (r: &'static str)
        ensures
            *self == Mode::Rule ==> r@ == "rule"@,
            *self == Mode::Global ==> r@ == "global"@,
            *self == Mode::Direct ==> r@ == "direct"@,
    {
        match self {
            Mode::Rule => "rule",
            Mode::Global => "global",
            Mode::Direct => "direct",
        }
    }
}

impl Default for Mode {
    fn default() -> (r: Mode)
        ensures
            r == Mode::Direct,
    {
        Mode::Direct
    }
}

/// How much the process logs.
#[derive(Clone, Copy, PartialEq, Eq, Structural, Debug)]
pub enum LogLevel {
    Info,
    Warning,
    Error,
    Debug,
    Silent,
}

impl LogLevel {
    /// Parse a log level name.
    pub fn from_str(s: &str) -> (r: Result<LogLevel, ()>)
        ensures
            s@ == "info"@ ==> r == Ok::<LogLevel, ()>(LogLevel::Info),
            s@ == "warning"@ ==> r == Ok::<LogLevel, ()>(LogLevel::Warning),
            s@ == "error"@ ==> r == Ok::<LogLevel, ()>(LogLevel::Error),
            s@ == "debug"@ ==> r == Ok::<LogLevel, ()>(LogLevel::Debug),
            s@ == "silent"@ ==> r == Ok::<LogLevel, ()>(LogLevel::Silent),
            s@ != "info"@ && s@ != "warning"@ && s@ != "error"@ && s@ != "debug"@ && s@
                != "silent"@ ==> r is Err,
    {
        proof {
            reveal_strlit("info");
            reveal_strlit("warning");
            reveal_strlit("error");
            reveal_strlit("debug");
            reveal_strlit("silent");
            assert("info"@.len() == 4);
            assert("warning"@.len() == 7);
            assert("error"@.len() == 5);
            assert("debug"@.len() == 5);
            assert("silent"@.len() == 6);
            assert("error"@[0] == 'e');
            assert("debug"@[0] == 'd');
            assert("error"@ != "debug"@);
        }
        if str_eq(s, "info") {
            Ok(LogLevel::Info)
        } else if str_eq(s, "warning") {
            Ok(LogLevel::Warning)
        } else if str_eq(s, "error") {
            Ok(LogLevel::Error)
        } else if str_eq(s, "debug") {
            Ok(LogLevel::Debug)
        } else if str_eq(s, "silent") {
            Ok(LogLevel::Silent)
        } else {
            Err(())
        }
    }

    /// The level's name.
    pub fn as_text(&self) -> (r: &'static str)
        ensures
            *self == LogLevel::Info ==> r@ == "info"@,
            *self == LogLevel::Warning ==> r@ == "warning"@,
            *self == LogLevel::Error ==> r@ == "error"@,
            *self == LogLevel::Debug ==> r@ == "debug"@,
            *self == LogLevel::Silent ==> r@ == "silent"@,
    {
        match self {
            LogLevel::Info => "info",
            LogLevel::Warning => "warning",
            LogLevel::Error => "error",
            LogLevel::Debug => "debug",
            LogLevel::Silent => "silent",
        }
    }
}

impl Default for LogLevel {
    fn default() -> (r: LogLevel)
        ensures
            r == LogLevel::Info,
    {
        LogLevel::Info
    }
}

/// How the bundled DNS server answers.
#[derive(Clone, Copy, PartialEq, Eq, Structural, Debug)]
pub enum DNSMode {
    RedirHost,
    FakeIP,
}

impl DNSMode {
    /// Parse a DNS mode name.
    pub fn from_str(s: &str) -> (r: Result<DNSMode, ()>)
        ensures
            s@ == "redir-host"@ ==> r == Ok::<DNSMode, ()>(DNSMode::RedirHost),
            s@ == "fake-ip"@ ==> r == Ok::<DNSMode, ()>(DNSMode::FakeIP),
            s@ != "redir-host"@ && s@ != "fake-ip"@ ==> r is Err,
    {
        proof {
            reveal_strlit("redir-host");
            reveal_strlit("fake-ip");
            assert("redir-host"@.len() == 10);
            assert("fake-ip"@.len() == 7);
        }
        if str_eq(s, "redir-host") {
            Ok(DNSMode::RedirHost)
        } else if str_eq(s, "fake-ip") {
            Ok(DNSMode::FakeIP)
        } else {
            Err(())
        }
    }

    /// The DNS mode's name.
    pub fn as_text(&self) -> (r: &'static str)
        ensures
            *self == DNSMode::RedirHost ==> r@ == "redir-host"@,
            *self == DNSMode::FakeIP ==> r@ == "fake-ip"@,
    {
        match self {
            DNSMode::RedirHost => "redir-host",
            DNSMode::FakeIP => "fake-ip",
        }
    }
}

impl Default for DNSMode {
    fn default() -> (r: DNSMode)
        ensures
            r == DNSMode::RedirHost,
    {
        DNSMode::RedirHost
    }
}

/// The kind of a front end.
#[derive(Clone, Copy, PartialEq, Eq, Structural, Debug)]
pub enum InboundKind {
    HTTP,
    Socks5,
    Redir,
    TUN,
}

impl InboundKind {
    /// Parse an inbound kind name.
    pub fn from_str(s: &str) -> (r: Result<InboundKind, ()>)
        ensures
            s@ == "http"@ ==> r == Ok::<InboundKind, ()>(InboundKind::HTTP),
            s@ == "socks5"@ ==> r == Ok::<InboundKind, ()>(InboundKind::Socks5),
            s@ == "redir"@ ==> r == Ok::<InboundKind, ()>(InboundKind::Redir),
            s@ == "tun"@ ==> r == Ok::<InboundKind, ()>(InboundKind::TUN),
            s@ != "http"@ && s@ != "socks5"@ && s@ != "redir"@ && s@ != "tun"@ ==> r is Err,
    {
        proof {
            reveal_strlit("http");
            reveal_strlit("socks5");
            reveal_strlit("redir");
            reveal_strlit("tun");
            assert("http"@.len() == 4);
            assert("socks5"@.len() == 6);
            assert("redir"@.len() == 5);
            assert("tun"@.len() == 3);
        }
        if str_eq(s, "http") {
            Ok(InboundKind::HTTP)
        } else if str_eq(s, "socks5") {
            Ok(InboundKind::Socks5)
        } else if str_eq(s, "redir") {
            Ok(InboundKind::Redir)
        } else if str_eq(s, "tun") {
            Ok(InboundKind::TUN)
        } else {
            Err(())
        }
    }

    /// The kind's name.
    pub fn as_text(&self) -> (r: &'static str)
        ensures
            *self == InboundKind::HTTP ==> r@ == "http"@,
            *self == InboundKind::Socks5 ==> r@ == "socks5"@,
            *self == InboundKind::Redir ==> r@ == "redir"@,
            *self == InboundKind::TUN ==> r@ == "tun"@,
    {
        match self {
            InboundKind::HTTP => "http",
            InboundKind::Socks5 => "socks5",
            InboundKind::Redir => "redir",
            InboundKind::TUN => "tun",
        }
    }
}

/// The kind of an outbound backend.
#[derive(Clone, Copy, PartialEq, Eq, Structural, Debug)]
pub enum ProxyKind {
    Shadowsocks,
    VMESS,
    Socks5,
    HTTP,
    Direct,
}

impl ProxyKind {
    /// Parse a proxy kind name.
    pub fn from_str(s: &str) -> (r: Result<ProxyKind, ()>)
        ensures
            s@ == "shadowsocks"@ ==> r == Ok::<ProxyKind, ()>(ProxyKind::Shadowsocks),
            s@ == "vmess"@ ==> r == Ok::<ProxyKind, ()>(ProxyKind::VMESS),
            s@ == "socks5"@ ==> r == Ok::<ProxyKind, ()>(ProxyKind::Socks5),
            s@ == "http"@ ==> r == Ok::<ProxyKind, ()>(ProxyKind::HTTP),
            s@ == "direct"@ ==> r == Ok::<ProxyKind, ()>(ProxyKind::Direct),
            s@ != "shadowsocks"@ && s@ != "vmess"@ && s@ != "socks5"@ && s@ != "http"@ && s@
                != "direct"@ ==> r is Err,
    {
        proof {
            reveal_strlit("shadowsocks");
            reveal_strlit("vmess");
            reveal_strlit("socks5");
            reveal_strlit("http");
            reveal_strlit("direct");
            assert("shadowsocks"@.len() == 11);
            assert("vmess"@.len() == 5);
            assert("socks5"@.len() == 6);
            assert("http"@.len() == 4);
            assert("direct"@.len() == 6);
            assert("socks5"@[0] == 's');
            assert("direct"@[0] == 'd');
            assert("socks5"@ != "direct"@);
        }
        if str_eq(s, "shadowsocks") {
            Ok(ProxyKind::Shadowsocks)
        } else if str_eq(s, "vmess") {
            Ok(ProxyKind::VMESS)
        } else if str_eq(s, "socks5") {
            Ok(ProxyKind::Socks5)
        } else if str_eq(s, "http") {
            Ok(ProxyKind::HTTP)
        } else if str_eq(s, "direct") {
            Ok(ProxyKind::Direct)
        } else {
            Err(())
        }
    }

    /// The kind's name.
    pub fn as_text(&self) -> (r: &'static str)
        ensures
            *self == ProxyKind::Shadowsocks ==> r@ == "shadowsocks"@,
            *self == ProxyKind::VMESS ==> r@ == "vmess"@,
            *self == ProxyKind::Socks5 ==> r@ == "socks5"@,
            *self == ProxyKind::HTTP ==> r@ == "http"@,
            *self == ProxyKind::Direct ==> r@ == "direct"@,
    {
        match self {
            ProxyKind::Shadowsocks => "shadowsocks",
            ProxyKind::VMESS => "vmess",
            ProxyKind::Socks5 => "socks5",
            ProxyKind::HTTP => "http",
            ProxyKind::Direct => "direct",
        }
    }
}

/// Where the management API listens.
#[derive(Clone, Debug)]
pub struct ApiConfig {
    pub listen: Address,
    pub secret: Option<String>,
    pub external_ui: Option<String>,
}

/// The bundled DNS server's settings.
#[derive(Clone, Debug)]
pub struct DNSConfig {
    pub ipv6: Option<bool>,
    pub listen: Address,
    pub mode: DNSMode,
    pub servers: Vec<String>,
    pub fallback: Vec<String>,
}

/// One listening front end.
#[derive(Clone, Debug)]
pub struct InboundConfig {
    pub name: String,
    pub kind: InboundKind,
    pub listen: Address,
    pub authentication: Option<Vec<String>>,
}

/// One outbound backend.
#[derive(Clone, Debug)]
pub struct ProxyConfig {
    pub name: String,
    pub kind: ProxyKind,
    pub address: Address,
    pub timeout: Option<u64>,
    pub udp_timeout: Option<u64>,
}

/// A named group of outbound backends.
#[derive(Clone, Debug)]
pub struct ProxyGroupConfig {
    pub name: String,
    pub kind: String,
    pub proxies: Vec<String>,
}

/// One configured rule entry. The rule engine builds its `RULE` mode from
/// these; the pattern fields are carried but not consulted by the built-in
/// classifiers.
#[derive(Clone, Debug)]
pub struct RuleConfig {
    pub kind: String,
    pub source: Vec<String>,
    pub params: Option<Vec<String>>,
    pub target: String,
    pub timeout: Option<u64>,
}

/// What went wrong while loading a configuration.
#[derive(Clone, Copy, PartialEq, Eq, Structural, Debug)]
pub enum ErrorKind {
    MissingField,
    Malformed,
    Invalid,
    JsonParsingError,
    IoError,
}

/// Configuration loading error: a kind, a fixed description, and free-form
/// detail.
#[derive(Clone, Debug)]
pub struct Error {
    pub kind: ErrorKind,
    pub desc: &'static str,
    pub detail: Option<String>,
}

impl Error {
    /// Package the parts of an error.
    pub fn new(kind: ErrorKind, desc: &'static str, detail: Option<String>) -> (r: Error)
        ensures
            r.kind == kind,
            r.desc == desc,
            r.detail == detail,
    {
        Error { kind, desc, detail }
    }
}

/// The whole startup configuration.
#[derive(Clone, Debug)]
pub struct Config {
    pub mode: Mode,
    pub log_level: LogLevel,
    pub api: Option<ApiConfig>,
    pub dns: Option<DNSConfig>,
    pub no_delay: Option<bool>,
    pub inbounds: Vec<InboundConfig>,
    pub proxies: Vec<ProxyConfig>,
    pub proxy_groups: Vec<ProxyGroupConfig>,
    pub rules: Vec<RuleConfig>,
}

impl Config {
    /// The empty configuration: default mode and level, nothing configured.
    pub fn new() -> (r: Config)
        ensures
            r.mode == Mode::Direct,
            r.log_level == LogLevel::Info,
            r.api is None,
            r.dns is None,
            r.no_delay is None,
            r.inbounds@.len() == 0,
            r.proxies@.len() == 0,
            r.proxy_groups@.len() == 0,
            r.rules@.len() == 0,
    {
        Config {
            mode: Mode::Direct,
            log_level: LogLevel::Info,
            api: None,
            dns: None,
            no_delay: None,
            inbounds: Vec::new(),
            proxies: Vec::new(),
            proxy_groups: Vec::new(),
            rules: Vec::new(),
        }
    }

    /// Validate a loaded configuration. Every value expressible in the data
    /// model is currently acceptable.
    pub fn check_valid(&self) -> (r: Result<(), Error>)
        ensures
            r is Ok,
    {
        Ok(())
    }
}

} // verus!

verus! {

use crate::address::{ipv4_of, parse_ipv4_str, IpAddress};

/// One upstream DNS server choice: a well-known provider group by name, or
/// a literal IPv4 address queried on the standard port.
#[derive(Clone, Copy, PartialEq, Eq, Structural, Debug)]
pub enum DnsServerChoice {
    Google,
    Cloudflare,
    CloudflareTls,
    CloudflareHttps,
    Quad9,
    Quad9Tls,
    Ip(IpAddress),
}

/// What one configured server name denotes, if anything: a provider
/// keyword, else a literal IPv4 address; anything else is skipped.
pub open spec fn choice_of(s: Seq<char>) -> Option<DnsServerChoice> {
    if s == "google"@ {
        Some(DnsServerChoice::Google)
    } else if s == "cloudflare"@ {
        Some(DnsServerChoice::Cloudflare)
    } else if s == "cloudflare_tls"@ {
        Some(DnsServerChoice::CloudflareTls)
    } else if s == "cloudflare_https"@ {
        Some(DnsServerChoice::CloudflareHttps)
    } else if s == "quad9"@ {
        Some(DnsServerChoice::Quad9)
    } else if s == "quad9_tls"@ {
        Some(DnsServerChoice::Quad9Tls)
    } else {
        match ipv4_of(s) {
            Some(ip) => Some(DnsServerChoice::Ip(ip)),
            None => None,
        }
    }
}

/// The choices a server listing denotes, in order, unusable entries
/// skipped.
pub open spec fn choices_of(names: Seq<String>) -> Seq<DnsServerChoice>
    decreases names.len(),
{
    if names.len() == 0 {
        Seq::empty()
    } else {
        let rest = choices_of(names.drop_last());
        match choice_of(names.last()@) {
            Some(c) => rest.push(c),
            None => rest,
        }
    }
}

/// Classify one configured server name.
pub fn classify_dns_server(s: &str) -> (r: Option<DnsServerChoice>)
    ensures
        r == choice_of(s@),
{
    if str_eq(s, "google") {
        Some(DnsServerChoice::Google)
    } else if str_eq(s, "cloudflare") {
        Some(DnsServerChoice::Cloudflare)
    } else if str_eq(s, "cloudflare_tls") {
        Some(DnsServerChoice::CloudflareTls)
    } else if str_eq(s, "cloudflare_https") {
        Some(DnsServerChoice::CloudflareHttps)
    } else if str_eq(s, "quad9") {
        Some(DnsServerChoice::Quad9)
    } else if str_eq(s, "quad9_tls") {
        Some(DnsServerChoice::Quad9Tls)
    } else {
        match parse_ipv4_str(s) {
            Some(ip) => Some(DnsServerChoice::Ip(ip)),
            None => None,
        }
    }
}

impl Config {
    /// The upstream DNS servers this configuration asks for: nothing when
    /// no DNS section is present, otherwise each configured server name
    /// classified in order, with unusable names skipped.
    pub fn get_dns_config(&self) -> (r: Option<Vec<DnsServerChoice>>)
        ensures
            match self.dns {
                None => r is None,
                Some(d) => r is Some && r.unwrap()@ == choices_of(d.servers@),
            },
    {
        let d = match &self.dns {
            None => {
                return None;
            },
            Some(d) => d,
        };
        let ghost all = d.servers@;
        let mut out: Vec<DnsServerChoice> = Vec::new();
        let mut i: usize = 0;
        proof {
            assert(all.take(0) =~= Seq::<String>::empty());
        }
        while i < d.servers.len()
            invariant
                i <= all.len(),
                d == self.dns.unwrap(),
                d.servers@ == all,
                out@ == choices_of(all.take(i as int)),
            decreases all.len() - i,
        {
            proof {
                assert(all.take(i + 1).drop_last() =~= all.take(i as int));
                assert(all.take(i + 1).last() == all[i as int]);
            }
            match classify_dns_server(d.servers[i].as_str()) {
                Some(c) => {
                    out.push(c);
                },
                None => {},
            }
            i = i + 1;
        }
        proof {
            assert(all.take(all.len() as int) =~= all);
        }
        Some(out)
    }
}

} // verus!
