//! Verified core of a per-node agent that reports when the local machine is an
//! intermediate hop for traffic addressed to a load-balanced virtual IP.
//!
//! The modules follow the data flow: the service watcher derives VIP lifecycle
//! events from cluster state, the reconciler applies them to the VIP table, the
//! packet classifier reads the table and emits binary flow records into a
//! bounded ring, and the event drain decodes the records into labelled counters.

pub mod addr;
pub mod attach;
pub mod classifier;
pub mod drain;
pub mod error;
pub mod event;
pub mod iface;
pub mod metrics;
pub mod pattern;
pub mod reconciler;
pub mod ring;
pub mod vip_table;
pub mod watcher;
