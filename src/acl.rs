//! Addresses and the access-control list, with the decisions drawn from it.

use vstd::prelude::*;

verus! {

/// An IP address: an IPv4 address as its 32-bit value, an IPv6 address as its 128-bit value.
#[derive(Clone, Copy, Debug, PartialEq, Eq, Structural)]
pub enum IpAddress {
    V4(u32),
    V6(u128),
}

impl IpAddress {
    /// The integer key under which the address is cached; the two families never collide.
    pub open spec fn key(&self) -> (u8, u128) {
        match self {
            IpAddress::V4(a) => (4u8, *a as u128),
            IpAddress::V6(a) => (6u8, *a),
        }
    }

    pub fn cache_key(&self) -> (r: (u8, u128))
        ensures
            r == self.key(),
    {
        match self {
            IpAddress::V4(a) => (4u8, *a as u128),
            IpAddress::V6(a) => (6u8, *a),
        }
    }
}

/// A connection target: a resolved socket address or a host name with a port.
#[derive(Clone, Debug)]
pub enum Address {
    SocketAddress(IpAddress, u16),
    DomainNameAddress(String, u16),
}

/// How addresses that no list names are treated.
#[derive(Clone, Copy, Debug, PartialEq, Eq, Structural)]
pub enum Mode {
    /// Proxy everything except what the black list names.
    BlackList,
    /// Bypass everything except what the white list names.
    WhiteList,
}

/// An access-control list over IP addresses. Host-name rules are outside this model:
/// a host name is judged by the mode alone.
#[derive(Clone, Debug)]
pub struct AccessControl {
    pub mode: Mode,
    pub black_list: Vec<IpAddress>,
    pub white_list: Vec<IpAddress>,
    pub outbound_block_list: Vec<IpAddress>,
}

pub open spec fn listed(list: Seq<IpAddress>, ip: IpAddress) -> bool {
    exists|i: int| 0 <= i < list.len() && list[i] == ip
}

fn list_contains(list: &Vec<IpAddress>, ip: &IpAddress) -> (r: bool)
    ensures
        r == listed(list@, *ip),
{
    let mut i: usize = 0;
    while i < list.len()
        invariant
            i <= list@.len(),
            forall|k: int| 0 <= k < i ==> list@[k] != *ip,
        decreases list@.len() - i,
    {
        if list[i] == *ip {
            return true;
        }
        i = i + 1;
    }
    false
}

impl AccessControl {
    /// Whether traffic to `ip` is proxied by the list alone.
    pub open spec fn proxies_ip(&self, ip: IpAddress) -> bool {
        match self.mode {
            Mode::BlackList => !listed(self.black_list@, ip),
            Mode::WhiteList => listed(self.white_list@, ip),
        }
    }

    pub open spec fn blocks_client(&self, ip: IpAddress) -> bool {
        match self.mode {
            Mode::BlackList => listed(self.black_list@, ip),
            Mode::WhiteList => !listed(self.white_list@, ip),
        }
    }

    /// Only listed IP addresses are blocked; this model holds no host-name rules, so a
    /// host name is never blocked.
    pub open spec fn blocks_outbound(&self, addr: Address) -> bool {
        match addr {
            Address::SocketAddress(ip, _) => listed(self.outbound_block_list@, ip),
            Address::DomainNameAddress(_, _) => false,
        }
    }

    /// A target bypasses the proxy when the list does not proxy its address. This model
    /// holds no host-name rules, so a host name follows the mode.
    pub open spec fn bypasses(&self, addr: Address) -> bool {
        match addr {
            Address::SocketAddress(ip, _) => !self.proxies_ip(ip),
            Address::DomainNameAddress(_, _) => self.mode == Mode::WhiteList,
        }
    }

    pub fn check_ip_in_proxy_list(&self, ip: &IpAddress) -> (r: bool)
        ensures
            r == self.proxies_ip(*ip),
    {
        match self.mode {
            Mode::BlackList => !list_contains(&self.black_list, ip),
            Mode::WhiteList => list_contains(&self.white_list, ip),
        }
    }

    pub fn check_client_blocked(&self, ip: &IpAddress) -> (r: bool)
        ensures
            r == self.blocks_client(*ip),
    {
        match self.mode {
            Mode::BlackList => list_contains(&self.black_list, ip),
            Mode::WhiteList => !list_contains(&self.white_list, ip),
        }
    }

    pub fn check_outbound_blocked(&self, addr: &Address) -> (r: bool)
        ensures
            r == self.blocks_outbound(*addr),
    {
        match addr {
            Address::SocketAddress(ip, _) => list_contains(&self.outbound_block_list, ip),
            Address::DomainNameAddress(_, _) => false,
        }
    }

    pub fn check_target_bypassed(&self, addr: &Address) -> (r: bool)
        ensures
            r == self.bypasses(*addr),
    {
        match addr {
            Address::SocketAddress(ip, _) => !self.check_ip_in_proxy_list(ip),
            Address::DomainNameAddress(_, _) => matches!(self.mode, Mode::WhiteList),
        }
    }
}

/// Whether `ip` is proxied with no cached exception: with no list, everything is.
pub open spec fn default_forward(acl: Option<&AccessControl>, ip: IpAddress) -> bool {
    match acl {
        None => true,
        Some(a) => a.proxies_ip(ip),
    }
}

} // verus!
