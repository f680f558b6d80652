//! A multi-tenant HTTP(S) front door, as a verified library.
//!
//! The library holds the decision logic of the front door: deriving
//! fully-qualified hostnames from the configuration, building and querying
//! the hostname route table, the global extensionless-path rewrite, the
//! reverse-proxy target construction, the plaintext-to-TLS redirect URL
//! construction, and the certificate lifecycle state machine. The network
//! listeners, the filesystem, and the ACME protocol driver live outside the
//! library and consume these decisions.

pub mod cert;
pub mod config;
pub mod proxy;
pub mod redirect;
pub mod rewrite;
pub mod router;
