//! The binary wire format shared by the kernel module and the client.

pub mod codec;
pub mod serialize;
pub mod deserialize;
pub mod packets;
pub mod roundtrip;
