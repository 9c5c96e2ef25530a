use tache::address::Address;
use tache::config::{Config, ProxyConfig, ProxyKind};
use tache::meta::ConnectionMeta;
use tache::outbound::{Direct, Outbound, Registry};
use tache::router::{build_registry, select_outbound, RouteError};
use tache::rules::{build_modes, lookup, Direct as DirectRule, Global, RuleItem};

fn meta(host: &str) -> ConnectionMeta {
    ConnectionMeta { udp: false, host: host.as_bytes().to_vec(), src_addr: None, dst_addr: None }
}

#[test]
fn is_host_tracks_emptiness() {
    assert!(meta("example.com").is_host());
    assert!(!meta("").is_host());
}

#[test]
fn direct_mode_always_resolves() {
    let rules = vec![RuleItem::Direct(DirectRule {})];
    assert_eq!(lookup(&rules, &meta("x")).unwrap(), "DIRECT");
    assert_eq!(lookup(&rules, &meta("")).unwrap(), "DIRECT");
}

#[test]
fn global_mode_always_resolves() {
    let rules = vec![RuleItem::Global(Global {})];
    assert_eq!(lookup(&rules, &meta("anything")).unwrap(), "DIRECT");
    assert_eq!(lookup(&rules, &meta("")).unwrap(), "DIRECT");
}

#[test]
fn empty_mode_never_matches() {
    let rules: Vec<RuleItem> = vec![];
    assert!(lookup(&rules, &meta("x")).is_err());
}

#[test]
fn first_match_wins_order() {
    let rules = vec![RuleItem::Global(Global {}), RuleItem::Direct(DirectRule {})];
    assert_eq!(lookup(&rules, &meta("x")).unwrap(), "DIRECT");
}

#[test]
fn built_modes_hold_the_three_names() {
    let cfg = Config::new();
    let table = build_modes(&cfg).unwrap();
    assert_eq!(table.get("GLOBAL").unwrap().len(), 1);
    assert_eq!(table.get("DIRECT").unwrap().len(), 1);
    assert_eq!(table.get("RULE").unwrap().len(), 0);
    assert!(table.get("OTHER").is_none());
}

#[test]
fn registry_register_and_lookup() {
    let mut reg = Registry::new();
    reg.register("DIRECT".to_string(), Outbound::Direct(Direct::new("DIRECT"))).unwrap();
    assert!(reg.lookup("DIRECT").is_ok());
    assert!(reg.lookup("OTHER").is_err());
    assert!(reg.register("DIRECT".to_string(), Outbound::Direct(Direct::new("DIRECT"))).is_err());
}

#[test]
fn direct_outbound_capabilities() {
    let d = Direct::new("DIRECT");
    assert_eq!(d.name(), "DIRECT");
    assert!(d.udp());
    assert!(d.alive());
}

fn direct_proxy(name: &str) -> ProxyConfig {
    ProxyConfig {
        name: name.to_string(),
        kind: ProxyKind::Direct,
        address: Address::parse("0.0.0.0:0").unwrap(),
        timeout: None,
        udp_timeout: None,
    }
}

#[test]
fn build_registry_from_config() {
    let reg = build_registry(&vec![direct_proxy("DIRECT")]).unwrap();
    assert!(reg.lookup("DIRECT").is_ok());
}

#[test]
fn build_registry_rejects_duplicate_names() {
    assert!(build_registry(&vec![direct_proxy("DIRECT"), direct_proxy("DIRECT")]).is_err());
}

#[test]
fn build_registry_skips_other_kinds() {
    let other = ProxyConfig {
        name: "other".to_string(),
        kind: ProxyKind::Socks5,
        address: Address::parse("0.0.0.0:0").unwrap(),
        timeout: None,
        udp_timeout: None,
    };
    let reg = build_registry(&vec![other, direct_proxy("DIRECT")]).unwrap();
    assert!(reg.lookup("DIRECT").is_ok());
}

#[test]
fn select_outbound_direct_path() {
    let cfg = Config::new();
    let table = build_modes(&cfg).unwrap();
    let reg = build_registry(&vec![direct_proxy("DIRECT")]).unwrap();
    let o = select_outbound(&table, &reg, "DIRECT", &meta("example.com:80")).unwrap();
    match o {
        Outbound::Direct(d) => assert_eq!(d.name(), "DIRECT"),
    }
}

#[test]
fn select_outbound_no_match_on_empty_mode() {
    let cfg = Config::new();
    let table = build_modes(&cfg).unwrap();
    let reg = build_registry(&vec![direct_proxy("DIRECT")]).unwrap();
    match select_outbound(&table, &reg, "RULE", &meta("example.com:80")) {
        Err(RouteError::NoMatch(_)) => {}
        other => panic!("expected no match, got {:?}", other.map(|_| ())),
    }
}

#[test]
fn select_outbound_unknown_mode() {
    let cfg = Config::new();
    let table = build_modes(&cfg).unwrap();
    let reg = Registry::new();
    match select_outbound(&table, &reg, "NOPE", &meta("x")) {
        Err(RouteError::ModeNotFound) => {}
        other => panic!("expected a missing mode, got {:?}", other.map(|_| ())),
    }
}

#[test]
fn select_outbound_unregistered_name() {
    let cfg = Config::new();
    let table = build_modes(&cfg).unwrap();
    let reg = Registry::new();
    match select_outbound(&table, &reg, "DIRECT", &meta("x")) {
        Err(RouteError::OutboundNotFound(_)) => {}
        other => panic!("expected an unknown outbound, got {:?}", other.map(|_| ())),
    }
}
