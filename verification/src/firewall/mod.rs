//! The firewall: its rule tables, its connection tracking, and the
//! decisions it takes on each packet.

pub mod rule;
pub mod state;
pub mod firewall;
