//! A local threat-intelligence cache: a blacklist of IPv4 addresses, a map
//! of domain threats that expire, and a registry of peer nodes, behind a
//! narrow boundary that a host process of any language can call.

pub mod address;
pub mod bitmap;
pub mod boundary;
pub mod buffer;
pub mod cache;
pub mod clock;
pub mod domains;
pub mod prober;
pub mod records;
pub mod registry;
pub mod report;
pub mod scheduler;
pub mod text;

pub use crate::address::InvalidAddress;
pub use crate::boundary::ProcessState;
pub use crate::cache::ThreatCache;
pub use crate::records::{NodeInfo, ThreatInfo};
