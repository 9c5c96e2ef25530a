use tache::address::{Address, DomainName, IpAddress, SocketAddress};

fn ip(o1: u8, o2: u8, o3: u8, o4: u8) -> IpAddress {
    IpAddress { o1, o2, o3, o4 }
}

#[test]
fn parse_socket_literal() {
    match Address::parse("1.2.3.4:80") {
        Ok(Address::SocketAddr(sa)) => {
            assert_eq!(sa.ip, ip(1, 2, 3, 4));
            assert_eq!(sa.port, 80);
        }
        other => panic!("expected a socket literal, got {:?}", other),
    }
}

#[test]
fn parse_domain_name() {
    match Address::parse("example.com:8080") {
        Ok(Address::DomainName(DomainName(name, port))) => {
            assert_eq!(name, "example.com");
            assert_eq!(port, 8080);
        }
        other => panic!("expected a domain name, got {:?}", other),
    }
}

#[test]
fn leading_zero_octet_is_a_domain() {
    match Address::parse("01.2.3.4:80") {
        Ok(Address::DomainName(DomainName(name, port))) => {
            assert_eq!(name, "01.2.3.4");
            assert_eq!(port, 80);
        }
        other => panic!("expected a domain name, got {:?}", other),
    }
}

#[test]
fn port_out_of_range_is_rejected() {
    assert!(Address::parse("example.com:70000").is_err());
}

#[test]
fn text_without_port_is_rejected() {
    assert!(Address::parse("example.com").is_err());
    assert!(Address::parse("").is_err());
    assert!(Address::parse("1.2.3.4").is_err());
}

#[test]
fn port_with_leading_zeros() {
    match Address::parse("example.com:0080") {
        Ok(Address::DomainName(DomainName(_, port))) => assert_eq!(port, 80),
        other => panic!("expected a domain name, got {:?}", other),
    }
}

#[test]
fn round_trip_socket_literal() {
    let a = Address::parse("10.0.0.1:443").unwrap();
    let text = a.to_text();
    assert_eq!(text, "10.0.0.1:443");
    let b = Address::parse(&text).unwrap();
    assert_eq!(a.host(), b.host());
    assert_eq!(a.port(), b.port());
}

#[test]
fn round_trip_domain_with_inner_colon() {
    let a = Address::parse("a:b:80").unwrap();
    match &a {
        Address::DomainName(DomainName(name, port)) => {
            assert_eq!(name, "a:b");
            assert_eq!(*port, 80);
        }
        other => panic!("expected a domain name, got {:?}", other),
    }
    let text = a.to_text();
    assert_eq!(text, "a:b:80");
    let b = Address::parse(&text).unwrap();
    assert_eq!(a.host(), b.host());
    assert_eq!(a.port(), b.port());
}

#[test]
fn round_trip_normalizes_port_zeros() {
    let a = Address::parse("1.2.3.4:0080").unwrap();
    assert_eq!(a.to_text(), "1.2.3.4:80");
    let b = Address::parse(&a.to_text()).unwrap();
    assert_eq!(a.host(), b.host());
    assert_eq!(a.port(), b.port());
}

#[test]
fn host_and_port_projections() {
    let a = Address::parse("example.com:80").unwrap();
    assert_eq!(a.host(), "example.com");
    assert_eq!(a.port(), 80);
    let s = Address::parse("127.0.0.1:9").unwrap();
    assert_eq!(s.host(), "127.0.0.1");
    assert_eq!(s.port(), 9);
}

#[test]
fn resolve_literal_is_itself() {
    let a = Address::parse("1.2.3.4:80").unwrap();
    let r = a.resolve_with(None).unwrap();
    assert_eq!(r.len(), 1);
    assert_eq!(r[0], SocketAddress { ip: ip(1, 2, 3, 4), port: 80 });
}

#[test]
fn resolve_domain_uses_lookup() {
    let a = Address::parse("example.com:80").unwrap();
    let r = a.resolve_with(Some(vec![ip(93, 184, 216, 34), ip(1, 1, 1, 1)])).unwrap();
    assert_eq!(r.len(), 2);
    assert_eq!(r[0], SocketAddress { ip: ip(93, 184, 216, 34), port: 80 });
    assert_eq!(r[1], SocketAddress { ip: ip(1, 1, 1, 1), port: 80 });
}

#[test]
fn resolve_domain_empty_or_failed_is_error() {
    let a = Address::parse("example.com:80").unwrap();
    assert!(a.resolve_with(Some(vec![])).is_err());
    assert!(a.resolve_with(None).is_err());
}
