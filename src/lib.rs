//! A transparent HTTPS forwarding proxy that tags each request with a fresh
//! correlation identifier.
pub mod fields;
pub mod body;
pub mod forward;
pub mod relay;
