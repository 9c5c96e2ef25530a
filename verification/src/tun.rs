//! Configuration of a TUN interface: the plain settings the device front
//! end is created with. Opening and driving the device happen outside the
//! library; this is the data they are handed.

use vstd::prelude::*;

use crate::address::IpAddress;

verus! {

/// Settings for a TUN interface, each optional until set.
#[derive(Clone, Debug)]
pub struct Configuration {
    pub name: Option<String>,
    pub address: Option<IpAddress>,
    pub destination: Option<IpAddress>,
    pub broadcast: Option<IpAddress>,
    pub netmask: Option<IpAddress>,
    pub mtu: Option<i32>,
    pub enabled: Option<bool>,
}

impl Configuration {
    /// Nothing configured yet.
    pub fn new() -> (r: Configuration)
        ensures
            r.name is None,
            r.address is None,
            r.destination is None,
            r.broadcast is None,
            r.netmask is None,
            r.mtu is None,
            r.enabled is None,
    {
        Configuration {
            name: None,
            address: None,
            destination: None,
            broadcast: None,
            netmask: None,
            mtu: None,
            enabled: None,
        }
    }

    /// Set the interface name.
    pub fn interface_name(&mut self, name: String)
        ensures
            *final(self) == (Configuration { name: Some(name), ..*old(self) }),
    {
        self.name = Some(name);
    }

    /// Set the interface address.
    pub fn address(&mut self, value: IpAddress)
        ensures
            *final(self) == (Configuration { address: Some(value), ..*old(self) }),
    {
        self.address = Some(value);
    }

    /// Set the destination address.
    pub fn destination(&mut self, value: IpAddress)
        ensures
            *final(self) == (Configuration { destination: Some(value), ..*old(self) }),
    {
        self.destination = Some(value);
    }

    /// Set the broadcast address.
    pub fn broadcast(&mut self, value: IpAddress)
        ensures
            *final(self) == (Configuration { broadcast: Some(value), ..*old(self) }),
    {
        self.broadcast = Some(value);
    }

    /// Set the netmask.
    pub fn netmask(&mut self, value: IpAddress)
        ensures
            *final(self) == (Configuration { netmask: Some(value), ..*old(self) }),
    {
        self.netmask = Some(value);
    }

    /// Set the maximum transmission unit.
    pub fn mtu(&mut self, value: i32)
        ensures
            *final(self) == (Configuration { mtu: Some(value), ..*old(self) }),
    {
        self.mtu = Some(value);
    }

    /// Ask for the interface to come up once created.
    pub fn up(&mut self)
        ensures
            *final(self) == (Configuration { enabled: Some(true), ..*old(self) }),
    {
        self.enabled = Some(true);
    }

    /// Ask for the interface to stay down once created.
    pub fn down(&mut self)
        ensures
            *final(self) == (Configuration { enabled: Some(false), ..*old(self) }),
    {
        self.enabled = Some(false);
    }
}

} // verus!
