//! The uniform in-memory representation of one network interface, built
//! from the raw records that the platform's interface-listing call yields.

use vstd::prelude::*;

use crate::addr::{IpAddr, Ipv4Addr, Ipv6Addr};

verus! {

/// The view of an optional value: the view of its content, when present.
pub open spec fn opt_view<T: View>(o: Option<T>) -> Option<T::V> {
    match o {
        Some(t) => Some(t@),
        None => None,
    }
}

/// An alias for an `Option` wrapping either a [`Ipv4Addr`] or a
/// [`Ipv6Addr`] that represents a network interface's netmask.
pub type Netmask<T> = Option<T>;

/// One of a host's network interfaces: one value per distinct interface
/// name observed during a single enumeration pass.
#[derive(Debug, Clone)]
pub struct NetworkInterface {
    /// Interface's name.
    pub name: String,
    /// Interface's addresses, in the order their records were observed.
    pub addr: Vec<Addr>,
    /// MAC address, formatted as colon-separated hexadecimal.
    pub mac_addr: Option<String>,
    /// Platform-assigned interface index (0 if unavailable).
    pub index: u32,
}

/// A network interface address: exactly one of the two IP families.
#[derive(Debug, Clone, Copy)]
pub enum Addr {
    /// IPv4 interface address from the INET family.
    V4(V4IfAddr),
    /// IPv6 interface address from the INET6 family.
    V6(V6IfAddr),
}

/// IPv4 interface address from the INET family.
#[derive(Debug, Clone, Copy)]
pub struct V4IfAddr {
    /// The IP address for this network interface.
    pub ip: Ipv4Addr,
    /// The broadcast address for this interface, when present.
    pub broadcast: Option<Ipv4Addr>,
    /// The netmask for this interface, when present.
    pub netmask: Netmask<Ipv4Addr>,
}

/// IPv6 interface address from the INET6 family.
#[derive(Debug, Clone, Copy)]
pub struct V6IfAddr {
    /// The IP address for this network interface.
    pub ip: Ipv6Addr,
    /// The broadcast address for this interface, when present.
    pub broadcast: Option<Ipv6Addr>,
    /// The netmask for this interface, when present.
    pub netmask: Netmask<Ipv6Addr>,
}

/// The mathematical shape of a [`V4IfAddr`]: octet sequences.
pub struct V4Model {
    pub ip: Seq<u8>,
    pub broadcast: Option<Seq<u8>>,
    pub netmask: Option<Seq<u8>>,
}

/// The mathematical shape of a [`V6IfAddr`]: octet sequences.
pub struct V6Model {
    pub ip: Seq<u8>,
    pub broadcast: Option<Seq<u8>>,
    pub netmask: Option<Seq<u8>>,
}

/// The mathematical shape of an [`Addr`].
pub enum AddrModel {
    V4(V4Model),
    V6(V6Model),
}

/// The mathematical shape of a [`NetworkInterface`], used by contracts.
pub struct IfaceModel {
    pub name: Seq<char>,
    pub addrs: Seq<AddrModel>,
    pub mac_addr: Option<Seq<char>>,
    pub index: u32,
}

impl View for V4IfAddr {
    type V = V4Model;

    open spec fn view(&self) -> V4Model {
        V4Model { ip: self.ip@, broadcast: opt_view(self.broadcast), netmask: opt_view(self.netmask) }
    }
}

impl View for V6IfAddr {
    type V = V6Model;

    open spec fn view(&self) -> V6Model {
        V6Model { ip: self.ip@, broadcast: opt_view(self.broadcast), netmask: opt_view(self.netmask) }
    }
}

impl View for Addr {
    type V = AddrModel;

    open spec fn view(&self) -> AddrModel {
        match self {
            Addr::V4(a) => AddrModel::V4(a@),
            Addr::V6(a) => AddrModel::V6(a@),
        }
    }
}

impl View for NetworkInterface {
    type V = IfaceModel;

    open spec fn view(&self) -> IfaceModel {
        IfaceModel {
            name: self.name@,
            addrs: Seq::new(self.addr@.len(), |i: int| self.addr@[i]@),
            mac_addr: match self.mac_addr {
                Some(m) => Some(m@),
                None => None,
            },
            index: self.index,
        }
    }
}

impl NetworkInterface {
    /// Builds an interface entry holding one INET (IPv4) address.
    pub fn new_afinet(
        name: &str,
        addr: Ipv4Addr,
        netmask: Netmask<Ipv4Addr>,
        broadcast: Option<Ipv4Addr>,
        index: u32,
    ) -> (r: NetworkInterface)
        ensures
            r@.name == name@,
            r@.addrs.len() == 1,
            (r@.addrs[0] matches AddrModel::V4(m) && m.ip == addr@ && m.broadcast == opt_view(
                broadcast,
            ) && m.netmask == opt_view(netmask)),
            r@.mac_addr is None,
            r@.index == index,
    {
        let ifaddr_v4 = V4IfAddr { ip: addr, broadcast, netmask };

        NetworkInterface {
            name: name.to_owned(),
            addr: vec![Addr::V4(ifaddr_v4)],
            mac_addr: None,
            index,
        }
    }

    /// Builds an interface entry holding one INET6 (IPv6) address.
    pub fn new_afinet6(
        name: &str,
        addr: Ipv6Addr,
        netmask: Netmask<Ipv6Addr>,
        broadcast: Option<Ipv6Addr>,
        index: u32,
    ) -> (r: NetworkInterface)
        ensures
            r@.name == name@,
            r@.addrs.len() == 1,
            (r@.addrs[0] matches AddrModel::V6(m) && m.ip == addr@ && m.broadcast == opt_view(
                broadcast,
            ) && m.netmask == opt_view(netmask)),
            r@.mac_addr is None,
            r@.index == index,
    {
        let ifaddr_v6 = V6IfAddr { ip: addr, broadcast, netmask };

        NetworkInterface {
            name: name.to_owned(),
            addr: vec![Addr::V6(ifaddr_v6)],
            mac_addr: None,
            index,
        }
    }

    /// The same interface with its MAC address replaced.
    pub fn with_mac_addr(self, mac_addr: Option<String>) -> (r: Self)
        ensures
            r.name == self.name,
            r.addr == self.addr,
            r.index == self.index,
            r@.mac_addr == opt_view(mac_addr),
    {
        Self { mac_addr, ..self }
    }
}

impl Addr {
    /// The IP address carried by this entry, in either family.
    pub fn ip(self) -> (r: IpAddr)
        ensures
            self matches Addr::V4(a) ==> r == IpAddr::V4(a.ip),
            self matches Addr::V6(a) ==> r == IpAddr::V6(a.ip),
    {
        match self {
            Addr::V4(ifaddr_v4) => IpAddr::V4(ifaddr_v4.ip),
            Addr::V6(ifaddr_v6) => IpAddr::V6(ifaddr_v6.ip),
        }
    }

    /// The broadcast address carried by this entry, when present.
    pub fn broadcast(self) -> (r: Option<IpAddr>)
        ensures
            self matches Addr::V4(a) ==> r == (match a.broadcast {
                Some(ip) => Some(IpAddr::V4(ip)),
                None => None,
            }),
            self matches Addr::V6(a) ==> r == (match a.broadcast {
                Some(ip) => Some(IpAddr::V6(ip)),
                None => None,
            }),
    {
        match self {
            Addr::V4(ifaddr_v4) => match ifaddr_v4.broadcast {
                Some(ip) => Some(IpAddr::V4(ip)),
                None => None,
            },
            Addr::V6(ifaddr_v6) => match ifaddr_v6.broadcast {
                Some(ip) => Some(IpAddr::V6(ip)),
                None => None,
            },
        }
    }

    /// The netmask carried by this entry, when present.
    pub fn netmask(self) -> (r: Netmask<IpAddr>)
        ensures
            self matches Addr::V4(a) ==> r == (match a.netmask {
                Some(ip) => Some(IpAddr::V4(ip)),
                None => None,
            }),
            self matches Addr::V6(a) ==> r == (match a.netmask {
                Some(ip) => Some(IpAddr::V6(ip)),
                None => None,
            }),
    {
        match self {
            Addr::V4(ifaddr_v4) => match ifaddr_v4.netmask {
                Some(ip) => Some(IpAddr::V4(ip)),
                None => None,
            },
            Addr::V6(ifaddr_v6) => match ifaddr_v6.netmask {
                Some(ip) => Some(IpAddr::V6(ip)),
                None => None,
            },
        }
    }
}

} // verus!
