//! Netlink messages as the kernel module receives them, and the settings
//! of the module's netlink socket.

use vstd::prelude::*;

verus! {

/// The sender or receiver of a netlink message.
#[derive(Debug, PartialEq, Eq, Structural, Clone, Copy)]
pub struct NetLinkAddr {
    pub pid: u32,
    pub group: u32,
}

impl Default for NetLinkAddr {
    fn default() -> (addr: NetLinkAddr)
        ensures
            addr == (NetLinkAddr { pid: 0, group: 0 }),
    {
        NetLinkAddr { group: 0, pid: 0 }
    }
}

/// The header of a netlink message.
#[derive(Debug, PartialEq, Eq, Structural, Clone, Copy, Default)]
pub struct NetLinkHeader {
    pub nlmsg_len: u32,
    pub nlmsg_type: u16,
    pub nlmsg_flags: u16,
    pub nlmsg_seq: u32,
    pub nlmsg_pid: u32,
}

/// A netlink message: who sent it, its header, and its payload.
pub struct NetlinkMsgRaw<'a> {
    pub addr: NetLinkAddr,
    pub header: NetLinkHeader,
    pub payload: &'a [u8],
}

impl<'a> NetlinkMsgRaw<'a> {
    /// A message carrying `payload`, with an empty address and header.
    pub fn new(payload: &'a [u8]) -> (msg: NetlinkMsgRaw<'a>)
        ensures
            msg.addr == (NetLinkAddr { pid: 0, group: 0 }),
            msg.header == (NetLinkHeader {
                nlmsg_len: 0,
                nlmsg_type: 0,
                nlmsg_flags: 0,
                nlmsg_seq: 0,
                nlmsg_pid: 0,
            }),
            msg.payload@ == payload@,
    {
        NetlinkMsgRaw {
            addr: NetLinkAddr::default(),
            header: NetLinkHeader { nlmsg_len: 0, nlmsg_type: 0, nlmsg_flags: 0, nlmsg_seq: 0, nlmsg_pid: 0 },
            payload,
        }
    }
}

/// Settings for the module's netlink socket: its protocol unit and the
/// callback for the messages it receives.
pub struct NetLinkBuilder<F> {
    callback: Option<F>,
    unit: i32,
}

impl<F> NetLinkBuilder<F> {
    /// The protocol unit.
    pub closed spec fn spec_unit(&self) -> i32 {
        self.unit
    }

    /// The callback, if one was given.
    pub closed spec fn spec_callback(&self) -> Option<F> {
        self.callback
    }

    /// Settings with unit 0 and no callback.
    pub fn new() -> (b: NetLinkBuilder<F>)
        ensures
            b.spec_unit() == 0,
            b.spec_callback() is None,
    {
        NetLinkBuilder { callback: None, unit: 0 }
    }

    /// The settings with the protocol unit set to `unit`.
    pub fn unit(self, unit: i32) -> (b: NetLinkBuilder<F>)
        ensures
            b.spec_unit() == unit,
            b.spec_callback() == self.spec_callback(),
    {
        let mut b = self;
        b.unit = unit;
        b
    }

    /// The settings with the callback set to `callback`.
    pub fn callback(self, callback: F) -> (b: NetLinkBuilder<F>)
        ensures
            b.spec_unit() == self.spec_unit(),
            b.spec_callback() == Some(callback),
    {
        let mut b = self;
        b.callback = Some(callback);
        b
    }
}

/// A netlink socket of the kernel, by its address.
pub struct NetLinkSock {
    sock: usize,
}

impl NetLinkSock {
    /// The socket's address.
    pub closed spec fn spec_sock(&self) -> usize {
        self.sock
    }

    fn new(socket: usize) -> (s: NetLinkSock)
        ensures
            s.spec_sock() == socket,
    {
        NetLinkSock { sock: socket }
    }
}

/// Why a message could not be sent.
#[derive(Debug, PartialEq, Eq, Structural, Clone, Copy)]
pub enum SocketError {
    AllocFailure,
}

} // verus!
