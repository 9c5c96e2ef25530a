use tache::address::Address;
use tache::config::{
    Config, DNSConfig, DNSMode, DnsServerChoice, InboundKind, LogLevel, Mode, ProxyKind,
};
use tache::date::{now, DateCache};

#[test]
fn mode_names_round_trip() {
    assert_eq!(Mode::from_str("rule").unwrap(), Mode::Rule);
    assert_eq!(Mode::from_str("global").unwrap(), Mode::Global);
    assert_eq!(Mode::from_str("direct").unwrap(), Mode::Direct);
    assert!(Mode::from_str("other").is_err());
    assert_eq!(Mode::Rule.as_text(), "rule");
    assert_eq!(Mode::default(), Mode::Direct);
}

#[test]
fn log_level_names_round_trip() {
    assert_eq!(LogLevel::from_str("info").unwrap(), LogLevel::Info);
    assert_eq!(LogLevel::from_str("warning").unwrap(), LogLevel::Warning);
    assert_eq!(LogLevel::from_str("silent").unwrap(), LogLevel::Silent);
    assert!(LogLevel::from_str("").is_err());
    assert_eq!(LogLevel::Debug.as_text(), "debug");
    assert_eq!(LogLevel::default(), LogLevel::Info);
}

#[test]
fn dns_mode_names_round_trip() {
    assert_eq!(DNSMode::from_str("redir-host").unwrap(), DNSMode::RedirHost);
    assert_eq!(DNSMode::from_str("fake-ip").unwrap(), DNSMode::FakeIP);
    assert!(DNSMode::from_str("fakeip").is_err());
    assert_eq!(DNSMode::FakeIP.as_text(), "fake-ip");
    assert_eq!(DNSMode::default(), DNSMode::RedirHost);
}

#[test]
fn inbound_kind_names_round_trip() {
    assert_eq!(InboundKind::from_str("http").unwrap(), InboundKind::HTTP);
    assert_eq!(InboundKind::from_str("socks5").unwrap(), InboundKind::Socks5);
    assert_eq!(InboundKind::from_str("redir").unwrap(), InboundKind::Redir);
    assert_eq!(InboundKind::from_str("tun").unwrap(), InboundKind::TUN);
    assert!(InboundKind::from_str("tcp").is_err());
    assert_eq!(InboundKind::TUN.as_text(), "tun");
}

#[test]
fn proxy_kind_names_round_trip() {
    assert_eq!(ProxyKind::from_str("shadowsocks").unwrap(), ProxyKind::Shadowsocks);
    assert_eq!(ProxyKind::from_str("vmess").unwrap(), ProxyKind::VMESS);
    assert_eq!(ProxyKind::from_str("socks5").unwrap(), ProxyKind::Socks5);
    assert_eq!(ProxyKind::from_str("http").unwrap(), ProxyKind::HTTP);
    assert_eq!(ProxyKind::from_str("direct").unwrap(), ProxyKind::Direct);
    assert!(ProxyKind::from_str("https").is_err());
    assert_eq!(ProxyKind::Direct.as_text(), "direct");
}

#[test]
fn empty_config_is_valid() {
    let cfg = Config::new();
    assert_eq!(cfg.mode, Mode::Direct);
    assert_eq!(cfg.log_level, LogLevel::Info);
    assert!(cfg.inbounds.is_empty());
    assert!(cfg.check_valid().is_ok());
}

#[test]
fn dns_servers_classify_in_order() {
    let mut cfg = Config::new();
    assert!(cfg.get_dns_config().is_none());
    cfg.dns = Some(DNSConfig {
        ipv6: None,
        listen: Address::parse("0.0.0.0:53").unwrap(),
        mode: DNSMode::RedirHost,
        servers: vec![
            "google".to_string(),
            "cloudflare_tls".to_string(),
            "1.1.1.1".to_string(),
            "not a server".to_string(),
            "quad9".to_string(),
        ],
        fallback: vec![],
    });
    let choices = cfg.get_dns_config().unwrap();
    assert_eq!(choices.len(), 4);
    assert_eq!(choices[0], DnsServerChoice::Google);
    assert_eq!(choices[1], DnsServerChoice::CloudflareTls);
    match choices[2] {
        DnsServerChoice::Ip(ip) => {
            assert_eq!((ip.o1, ip.o2, ip.o3, ip.o4), (1, 1, 1, 1));
        }
        other => panic!("expected a literal address, got {:?}", other),
    }
    assert_eq!(choices[3], DnsServerChoice::Quad9);
}

#[test]
fn date_cache_renders_the_epoch() {
    let mut cache = DateCache::new();
    let value = cache.header_value(0);
    assert_eq!(value, "Thu, 01 Jan 1970 00:00:00 GMT");
}

#[test]
fn date_cache_reuses_within_a_second() {
    let mut cache = DateCache::new();
    let first = cache.header_value(1000);
    let again = cache.header_value(1000);
    assert_eq!(first, again);
    let later = cache.header_value(1001);
    assert_ne!(first, later);
}

#[test]
fn date_cache_render_depends_on_the_second() {
    let mut cache = DateCache::new();
    assert_eq!(cache.header_value(86400), "Fri, 02 Jan 1970 00:00:00 GMT");
    assert_eq!(cache.header_value(86401), "Fri, 02 Jan 1970 00:00:01 GMT");
}

#[test]
fn now_renders_through_the_cache() {
    let mut cache = DateCache::new();
    let n = now();
    let value = n.render(&mut cache);
    assert!(value.ends_with("GMT"));
    assert!(!value.is_empty());
}
