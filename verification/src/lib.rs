//! A stateful IPv4 firewall: the rule tables and connection tracking that
//! decide each packet's fate, the binary message format spoken between the
//! kernel module and its control client, and the small kernel-side helpers
//! around them.

pub mod packet;
pub mod net;
pub mod firewall;
pub mod netfilter;
pub mod netlink;
pub mod printk;
pub mod utils;
pub mod memory;
pub mod spinlock;
pub mod client;

