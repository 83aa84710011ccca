//! The configuration the shared state is built from, and the decisions drawn from it.

use crate::acl::{AccessControl, Address, IpAddress};
use vstd::prelude::*;

verus! {

/// Deployment role of the process, which decides how the nonce filter is sized.
#[derive(Clone, Copy, Debug, PartialEq, Eq, Structural)]
pub enum ConfigType {
    /// Client side: few connections, a false positive rejects a legitimate connection.
    Local,
    /// Server side: many connections.
    Server,
}

impl ConfigType {
    pub fn is_local(&self) -> (r: bool)
        ensures
            r == (*self == ConfigType::Local),
    {
        matches!(self, ConfigType::Local)
    }
}

/// Cipher selected for an upstream server.
#[derive(Clone, Copy, Debug, PartialEq, Eq, Structural)]
pub enum CipherKind {
    Plain,
    Rc4Md5,
    Aes128Cfb,
    Aes256Cfb,
    ChaCha20Ietf,
    Aes128Gcm,
    Aes256Gcm,
    ChaCha20IetfPoly1305,
}

impl CipherKind {
    /// Stream ciphers with inherent weaknesses: still usable, but warned about.
    pub open spec fn deprecated(self) -> bool {
        self == CipherKind::Rc4Md5
    }

    pub fn is_deprecated(&self) -> (r: bool)
        ensures
            r == self.deprecated(),
    {
        matches!(self, CipherKind::Rc4Md5)
    }
}

#[derive(Clone, Debug)]
pub struct ServerConfig {
    pub addr: Address,
    pub method: CipherKind,
}

impl ServerConfig {
    pub fn method(&self) -> (r: CipherKind)
        ensures
            r == self.method,
    {
        self.method
    }

    pub fn addr(&self) -> (r: &Address)
        ensures
            *r == self.addr,
    {
        &self.addr
    }
}

#[derive(Clone, Debug)]
pub struct Config {
    pub config_type: ConfigType,
    pub server: Vec<ServerConfig>,
    pub acl: Option<AccessControl>,
    /// Address and port of the local DNS relay's upstream, when names are resolved through it.
    pub local_dns_addr: Option<(IpAddress, u16)>,
    pub ipv6_first: bool,
}

/// Which resolver a host name goes to.
#[derive(Clone, Copy, Debug, PartialEq, Eq, Structural)]
pub enum ResolutionStrategy {
    /// The configured local DNS upstream, exclusively.
    LocalUpstream,
    /// The generic asynchronous resolver.
    Generic,
}

impl Config {
    pub fn acl(&self) -> (r: Option<&AccessControl>)
        ensures
            r.is_some() == self.acl.is_some(),
            r.is_some() ==> *r.unwrap() == self.acl.unwrap(),
    {
        match &self.acl {
            Some(a) => Some(a),
            None => None,
        }
    }

    pub fn server_config(&self, idx: usize) -> (r: &ServerConfig)
        requires
            idx < self.server@.len(),
        ensures
            *r == self.server@[idx as int],
    {
        &self.server[idx]
    }

    pub fn server_config_mut(&mut self, idx: usize) -> (r: &mut ServerConfig)
        requires
            idx < old(self).server@.len(),
        ensures
            *r == old(self).server@[idx as int],
    {
        &mut self.server[idx]
    }

    /// A local DNS upstream, when configured, answers every resolution; otherwise the
    /// generic resolver does.
    pub fn resolution_strategy(&self) -> (r: ResolutionStrategy)
        ensures
            r == (if self.local_dns_addr.is_some() {
                ResolutionStrategy::LocalUpstream
            } else {
                ResolutionStrategy::Generic
            }),
    {
        if self.local_dns_addr.is_some() {
            ResolutionStrategy::LocalUpstream
        } else {
            ResolutionStrategy::Generic
        }
    }

    /// Whether a client is refused; with no list nobody is.
    pub fn check_client_blocked(&self, addr: &IpAddress) -> (r: bool)
        ensures
            r == (self.acl.is_some() && self.acl.unwrap().blocks_client(*addr)),
    {
        match &self.acl {
            None => false,
            Some(a) => a.check_client_blocked(addr),
        }
    }

    /// Whether an outbound target is refused; with no list nothing is.
    pub fn check_outbound_blocked(&self, addr: &Address) -> (r: bool)
        ensures
            r == (self.acl.is_some() && self.acl.unwrap().blocks_outbound(*addr)),
    {
        match &self.acl {
            None => false,
            Some(a) => a.check_outbound_blocked(addr),
        }
    }
}

} // verus!
