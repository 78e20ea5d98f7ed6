//! Netfilter hook registration settings and the verdicts a hook returns.

use vstd::prelude::*;
use crate::net::protocol_family;

verus! {

/// What a netfilter hook tells the kernel to do with a packet.
#[derive(Debug, PartialEq, Eq, Structural, Clone, Copy)]
pub enum HookResponse {
    Drop,
    Accept,
    Stolen,
    Queue,
    Repeat,
    Stop,
}

impl HookResponse {
    /// The verdict's number in the kernel's netfilter interface.
    pub open spec fn spec_verdict(self) -> u32 {
        match self {
            HookResponse::Drop => 0,
            HookResponse::Accept => 1,
            HookResponse::Stolen => 2,
            HookResponse::Queue => 3,
            HookResponse::Repeat => 4,
            HookResponse::Stop => 5,
        }
    }

    /// The verdict's number in the kernel's netfilter interface.
    pub fn verdict(&self) -> (n: u32)
        ensures
            n == self.spec_verdict(),
    {
        match self {
            HookResponse::Drop => 0,
            HookResponse::Accept => 1,
            HookResponse::Stolen => 2,
            HookResponse::Queue => 3,
            HookResponse::Repeat => 4,
            HookResponse::Stop => 5,
        }
    }
}

/// The points on a packet's path where a hook can be attached.
#[derive(Debug, PartialEq, Eq, Structural, Clone, Copy)]
pub enum HookPoint {
    PreRouting,
    LocalIn,
    Forward,
    LocalOut,
    PostRouting,
}

impl HookPoint {
    /// The hook point's number in the kernel's netfilter interface.
    pub open spec fn spec_number(self) -> u32 {
        match self {
            HookPoint::PreRouting => 0,
            HookPoint::LocalIn => 1,
            HookPoint::Forward => 2,
            HookPoint::LocalOut => 3,
            HookPoint::PostRouting => 4,
        }
    }

    /// The hook point's number in the kernel's netfilter interface.
    pub fn number(&self) -> (n: u32)
        ensures
            n == self.spec_number(),
    {
        match self {
            HookPoint::PreRouting => 0,
            HookPoint::LocalIn => 1,
            HookPoint::Forward => 2,
            HookPoint::LocalOut => 3,
            HookPoint::PostRouting => 4,
        }
    }
}

/// The priority that runs a hook before all others.
pub const NF_IP_PRI_FIRST: i32 = -2147483648i32;

/// Where and how a hook is registered.
#[derive(Debug, PartialEq, Eq, Structural, Clone, Copy)]
pub struct HookOps {
    pub hooknum: u32,
    pub pf: u8,
    pub priority: i32,
}

/// A pair of netfilter hooks, one on incoming and one on outgoing packets.
pub struct NetfilterHook {
    input_hook: HookOps,
    output_hook: HookOps,
    pub active: bool,
}

impl NetfilterHook {
    /// Whether the hooks are registered.
    pub closed spec fn is_active(&self) -> bool {
        self.active
    }

    /// The settings of the hook on incoming packets.
    pub closed spec fn input_ops(&self) -> HookOps {
        self.input_hook
    }

    /// The settings of the hook on outgoing packets.
    pub closed spec fn output_ops(&self) -> HookOps {
        self.output_hook
    }

    /// Hooks for IPv4 before routing and after routing, run before all
    /// others, not registered yet.
    pub fn new() -> (hook: NetfilterHook)
        ensures
            hook.input_ops() == (HookOps {
                hooknum: HookPoint::PreRouting.spec_number(),
                pf: protocol_family::INET,
                priority: NF_IP_PRI_FIRST,
            }),
            hook.output_ops() == (HookOps {
                hooknum: HookPoint::PostRouting.spec_number(),
                pf: protocol_family::INET,
                priority: NF_IP_PRI_FIRST,
            }),
            !hook.is_active(),
    {
        NetfilterHook {
            input_hook: HookOps {
                hooknum: HookPoint::PreRouting.number(),
                pf: protocol_family::INET,
                priority: NF_IP_PRI_FIRST,
            },
            output_hook: HookOps {
                hooknum: HookPoint::PostRouting.number(),
                pf: protocol_family::INET,
                priority: NF_IP_PRI_FIRST,
            },
            active: false,
        }
    }

    /// Sets the protocol family of both hooks.
    pub fn protocol_family(&mut self, pf: u8) -> (r: &mut NetfilterHook)
        ensures
            r.input_ops() == (HookOps { pf, ..old(self).input_ops() }),
            r.output_ops() == (HookOps { pf, ..old(self).output_ops() }),
            r.is_active() == old(self).is_active(),
            *final(self) == *final(r),
    {
        self.input_hook.pf = pf;
        self.output_hook.pf = pf;
        self
    }

    /// Sets where the hook on incoming packets is attached.
    pub fn hook_input(&mut self, hook: HookPoint) -> (r: &mut NetfilterHook)
        ensures
            r.input_ops() == (HookOps { hooknum: hook.spec_number(), ..old(self).input_ops() }),
            r.output_ops() == old(self).output_ops(),
            r.is_active() == old(self).is_active(),
            *final(self) == *final(r),
    {
        self.input_hook.hooknum = hook.number();
        self
    }

    /// Sets where the hook on outgoing packets is attached.
    pub fn hook_output(&mut self, hook: HookPoint) -> (r: &mut NetfilterHook)
        ensures
            r.input_ops() == old(self).input_ops(),
            r.output_ops() == (HookOps { hooknum: hook.spec_number(), ..old(self).output_ops() }),
            r.is_active() == old(self).is_active(),
            *final(self) == *final(r),
    {
        self.output_hook.hooknum = hook.number();
        self
    }

    /// Sets the priority of both hooks.
    pub fn priority(&mut self, priority: i32) -> (r: &mut NetfilterHook)
        ensures
            r.input_ops() == (HookOps { priority, ..old(self).input_ops() }),
            r.output_ops() == (HookOps { priority, ..old(self).output_ops() }),
            r.is_active() == old(self).is_active(),
            *final(self) == *final(r),
    {
        self.input_hook.priority = priority;
        self.output_hook.priority = priority;
        self
    }
}

} // verus!
