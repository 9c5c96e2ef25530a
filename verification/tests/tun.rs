use tache::address::IpAddress;
use tache::tun::Configuration;

fn ip(o1: u8, o2: u8, o3: u8, o4: u8) -> IpAddress {
    IpAddress { o1, o2, o3, o4 }
}

#[test]
fn configuration_starts_empty() {
    let c = Configuration::new();
    assert!(c.name.is_none());
    assert!(c.address.is_none());
    assert!(c.destination.is_none());
    assert!(c.broadcast.is_none());
    assert!(c.netmask.is_none());
    assert!(c.mtu.is_none());
    assert!(c.enabled.is_none());
}

#[test]
fn configuration_setters_fill_fields() {
    let mut c = Configuration::new();
    c.interface_name("tun0".to_string());
    c.address(ip(10, 0, 0, 1));
    c.destination(ip(10, 0, 0, 2));
    c.broadcast(ip(10, 0, 0, 255));
    c.netmask(ip(255, 255, 255, 0));
    c.mtu(1500);
    c.up();
    assert_eq!(c.name.as_deref(), Some("tun0"));
    assert_eq!(c.address, Some(ip(10, 0, 0, 1)));
    assert_eq!(c.destination, Some(ip(10, 0, 0, 2)));
    assert_eq!(c.broadcast, Some(ip(10, 0, 0, 255)));
    assert_eq!(c.netmask, Some(ip(255, 255, 255, 0)));
    assert_eq!(c.mtu, Some(1500));
    assert_eq!(c.enabled, Some(true));
    c.down();
    assert_eq!(c.enabled, Some(false));
}
