//! Shared runtime state of an encrypted proxy: nonce replay detection,
//! the reverse-lookup cache of resolved addresses, and access-control decisions.

pub mod acl;
pub mod bloom;
pub mod config;
pub mod lookup;
