use tache::address::{Address, IpAddress, SocketAddress};
use tache::config::{Config, ProxyConfig, ProxyKind};
use tache::dispatch::Session;
use tache::http_codec::build_connection_meta;
use tache::outbound::{Outbound, Registry};
use tache::relay::{CopyEnd, RelayDir, RelayOutcome, RelaySession};
use tache::router::{build_registry, select_outbound, RouteError};

const DATE: &[u8] = b"Thu, 01 Jan 1970 00:00:00 GMT";

#[test]
fn relay_terminates_on_first_eof() {
    let mut r = RelaySession::new();
    assert!(!r.finished);
    let close = r.on_direction_done(RelayDir::Upstream, CopyEnd::Eof);
    assert!(close);
    assert!(r.finished);
    assert!(r.closed);
    assert_eq!(r.outcome(), Some(RelayOutcome { dir: RelayDir::Upstream, end: CopyEnd::Eof }));
}

#[test]
fn relay_closes_only_once() {
    let mut r = RelaySession::new();
    assert!(r.on_direction_done(RelayDir::Downstream, CopyEnd::Failed));
    let close_again = r.on_direction_done(RelayDir::Upstream, CopyEnd::Eof);
    assert!(!close_again);
    assert_eq!(
        r.outcome(),
        Some(RelayOutcome { dir: RelayDir::Downstream, end: CopyEnd::Failed })
    );
}

fn direct_proxy(name: &str) -> ProxyConfig {
    ProxyConfig {
        name: name.to_string(),
        kind: ProxyKind::Direct,
        address: Address::parse("0.0.0.0:0").unwrap(),
        timeout: None,
        udp_timeout: None,
    }
}

#[test]
fn end_to_end_direct_route() {
    // Inbound request, classified under DIRECT, routed to the direct
    // backend, then relayed until one side closes.
    let cfg = Config::new();
    let table = tache::rules::build_modes(&cfg).unwrap();
    let reg = build_registry(&vec![direct_proxy("DIRECT")]).unwrap();

    let mut session = Session::new(true);
    let out = session.on_data(b"GET /x HTTP/1.1\r\nHost: example.com:80\r\n\r\n", DATE);
    assert_eq!(out.len(), 1);

    let resolved = SocketAddress { ip: IpAddress { o1: 93, o2: 184, o3: 216, o4: 34 }, port: 80 };
    let meta = build_connection_meta(&out[0], None, Some(resolved)).unwrap();
    assert_eq!(meta.host, b"example.com");

    let outbound = select_outbound(&table, &reg, "DIRECT", &meta).unwrap();
    match outbound {
        Outbound::Direct(d) => assert_eq!(d.name(), "DIRECT"),
    }

    // the dial itself is socket work; the relay bookkeeping follows
    let mut relay = RelaySession::new();
    assert!(relay.on_direction_done(RelayDir::Downstream, CopyEnd::Eof));
    assert!(relay.closed);
}

#[test]
fn end_to_end_empty_mode_refuses_without_dialing() {
    let cfg = Config::new();
    let table = tache::rules::build_modes(&cfg).unwrap();
    let reg = build_registry(&vec![direct_proxy("DIRECT")]).unwrap();

    let mut session = Session::new(true);
    let out = session.on_data(b"GET /x HTTP/1.1\r\nHost: example.com:80\r\n\r\n", DATE);
    let meta = build_connection_meta(&out[0], None, None).unwrap();

    match select_outbound(&table, &reg, "RULE", &meta) {
        Err(RouteError::NoMatch(_)) => {}
        other => panic!("expected no match, got {:?}", other.map(|_| ())),
    }
}

#[test]
fn end_to_end_unregistered_outbound_keeps_serving() {
    let cfg = Config::new();
    let table = tache::rules::build_modes(&cfg).unwrap();
    let empty_reg = Registry::new();

    let mut session = Session::new(true);
    let out = session.on_data(b"GET /x HTTP/1.1\r\nHost: example.com:80\r\n\r\n", DATE);
    let meta = build_connection_meta(&out[0], None, None).unwrap();

    match select_outbound(&table, &empty_reg, "DIRECT", &meta) {
        Err(RouteError::OutboundNotFound(_)) => {}
        other => panic!("expected an unknown outbound, got {:?}", other.map(|_| ())),
    }

    // the failure stayed with that connection: the next one is served
    let reg = build_registry(&vec![direct_proxy("DIRECT")]).unwrap();
    let mut next = Session::new(true);
    let out2 = next.on_data(b"GET /y HTTP/1.1\r\nHost: example.com:80\r\n\r\n", DATE);
    let meta2 = build_connection_meta(&out2[0], None, None).unwrap();
    assert!(select_outbound(&table, &reg, "DIRECT", &meta2).is_ok());
}
