//! TLS configurations for workloads that identify themselves by SPIFFE X.509
//! SVIDs.
//!
//! A peer is accepted in two steps: its certificate chain must validate
//! against the trust bundle of the local SVID, and the SPIFFE-ID in the URI
//! subject alternative names of its certificate must stand on the caller's
//! allow-list.

pub mod certificate;
pub mod config;
pub mod der;
pub mod error;
pub mod peer;
pub mod roots;
pub mod svid;
pub mod text;
pub mod webpki;

pub use config::{spiffe_placeholder_server_name, ClientConfigBuilder, ServerConfigBuilder};
pub use error::Error;
pub use peer::{PeerIdentity, SpiffeIdAllowList};
pub use svid::X509Svid;
pub use webpki::SpiffeIdVerifier;
