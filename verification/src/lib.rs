//! Routing core of a header-sniffing TCP forwarder.
//!
//! The opening bytes of an inbound stream are searched for a blank line and,
//! before it, a line `<name>:<destination>`. The modules below hold the byte
//! search, the routing rule, the per-connection sniffing state machine and the
//! relay's half-close state machine, each with its contract.

pub mod search;
pub mod text;
pub mod header;
pub mod sniffer;
pub mod relay;
pub mod laws;
