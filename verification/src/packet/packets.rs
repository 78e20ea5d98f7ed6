//! The messages exchanged between the firewall module and its clients.

use vstd::prelude::*;
use super::codec::{le_bytes, le_value, pow256, lemma_le_roundtrip, lemma_pow256_values, lemma_le_bytes_len};
use super::serialize::{Serialize, Serializer, SerialView, lemma_emit_concat, concat_bytes, write_at, fitting, serialize,
    lemma_write_at_start};
use super::deserialize::{
    Deserialize, Deserializer, DeserializeError, DeserializeResult, result_view, result_view_items,
    view_seq, decode_vec, decode_items, decode_byte_array, fixed_width, deserialize,
    lemma_u8_roundtrip, lemma_u16_roundtrip, lemma_u32_roundtrip, lemma_i32_roundtrip,
    lemma_usize_roundtrip,
};

verus! {

/// The value of the `n` bytes of `input` starting at `start`.
pub open spec fn field(input: Seq<u8>, start: int, n: int) -> nat {
    le_value(input.subrange(start, start + n))
}

/// What a rule does with the traffic it matches.
#[derive(Debug, PartialEq, Eq, Structural, Copy, Clone)]
pub enum FirewallAction {
    Deny,
    Allow,
}

impl FirewallAction {
    /// The action's code on the wire.
    pub open spec fn spec_code(self) -> u8 {
        match self {
            FirewallAction::Deny => 0,
            FirewallAction::Allow => 1,
        }
    }

    /// The action that a code stands for: 0 denies, anything else allows.
    pub open spec fn spec_from_code(code: u8) -> FirewallAction {
        if code == 0 {
            FirewallAction::Deny
        } else {
            FirewallAction::Allow
        }
    }

    fn code(&self) -> (c: u8)
        ensures
            c == self.spec_code(),
    {
        match self {
            FirewallAction::Deny => 0,
            FirewallAction::Allow => 1,
        }
    }
}

impl Default for FirewallAction {
    fn default() -> (a: FirewallAction)
        ensures
            a == FirewallAction::Allow,
    {
        FirewallAction::Allow
    }
}

impl From<u8> for FirewallAction {
    fn from(t: u8) -> (a: FirewallAction) {
        match t {
            0 => FirewallAction::Deny,
            1 => FirewallAction::Allow,
            _ => FirewallAction::Allow,
        }
    }
}

impl vstd::std_specs::convert::FromSpecImpl<u8> for FirewallAction {
    open spec fn obeys_from_spec() -> bool {
        true
    }

    open spec fn from_spec(t: u8) -> FirewallAction {
        FirewallAction::spec_from_code(t)
    }
}

/// A rule as the client sends it to the module.
#[derive(Debug, PartialEq, Eq, Structural, Default)]
pub struct FirewallRule {
    pub source_ip: u32,
    pub dest_ip: u32,
    pub source_mask: u32,
    pub dest_mask: u32,
    pub source_port: u16,
    pub dest_port: u16,
    pub protocol: u8,
    pub priority: usize,
    pub action: FirewallAction,
}

impl View for FirewallRule {
    type V = FirewallRule;

    open spec fn view(&self) -> FirewallRule {
        *self
    }
}

/// The number of bytes that encode a [`FirewallRule`].
pub const FIREWALL_RULE_SIZE: usize = 30;

impl Serialize for FirewallRule {
    open spec fn spec_bytes(&self) -> Seq<u8> {
        self.source_ip.spec_bytes() + self.source_mask.spec_bytes() + self.dest_ip.spec_bytes()
            + self.dest_mask.spec_bytes() + self.source_port.spec_bytes()
            + self.dest_port.spec_bytes() + self.protocol.spec_bytes()
            + self.priority.spec_bytes() + self.action.spec_code().spec_bytes()
    }

    fn serialize(&self, serializer: Serializer) -> (out: Serializer) {
        let ghost v = serializer@;
        let code = self.action.code();
        let s = serializer.serialize(&self.source_ip);
        let s = s.serialize(&self.source_mask);
        let s = s.serialize(&self.dest_ip);
        let s = s.serialize(&self.dest_mask);
        let s = s.serialize(&self.source_port);
        let s = s.serialize(&self.dest_port);
        let s = s.serialize(&self.protocol);
        let s = s.serialize(&self.priority);
        let s = s.serialize(&code);
        proof {
            let b1 = self.source_ip.spec_bytes();
            let b2 = self.source_mask.spec_bytes();
            let b3 = self.dest_ip.spec_bytes();
            let b4 = self.dest_mask.spec_bytes();
            let b5 = self.source_port.spec_bytes();
            let b6 = self.dest_port.spec_bytes();
            let b7 = self.protocol.spec_bytes();
            let b8 = self.priority.spec_bytes();
            let b9 = code.spec_bytes();
            lemma_emit_concat(v, b1, b2);
            lemma_emit_concat(v, b1 + b2, b3);
            lemma_emit_concat(v, b1 + b2 + b3, b4);
            lemma_emit_concat(v, b1 + b2 + b3 + b4, b5);
            lemma_emit_concat(v, b1 + b2 + b3 + b4 + b5, b6);
            lemma_emit_concat(v, b1 + b2 + b3 + b4 + b5 + b6, b7);
            lemma_emit_concat(v, b1 + b2 + b3 + b4 + b5 + b6 + b7, b8);
            lemma_emit_concat(v, b1 + b2 + b3 + b4 + b5 + b6 + b7 + b8, b9);
        }
        s
    }
}

impl Deserialize<FirewallRule> for FirewallRule {
    open spec fn spec_deserialize(input: Seq<u8>) -> (Result<FirewallRule, DeserializeError>, nat) {
        if input.len() >= 30 {
            (
                Ok(
                    FirewallRule {
                        source_ip: field(input, 0, 4) as u32,
                        source_mask: field(input, 4, 4) as u32,
                        dest_ip: field(input, 8, 4) as u32,
                        dest_mask: field(input, 12, 4) as u32,
                        source_port: field(input, 16, 2) as u16,
                        dest_port: field(input, 18, 2) as u16,
                        protocol: field(input, 20, 1) as u8,
                        priority: field(input, 21, 8) as usize,
                        action: FirewallAction::spec_from_code(field(input, 29, 1) as u8),
                    },
                ),
                30,
            )
        } else {
            (Err(DeserializeError::InvalidSize), input.len())
        }
    }

    fn deserialize<'a>(deserializer: &mut Deserializer<'a>) -> (r: DeserializeResult<FirewallRule>) {
        proof {
            deserializer.lemma_pos_in_input();
        }
        let ghost rem = deserializer.remaining();
        let ghost input = deserializer.input();
        let ghost p0 = deserializer.pos();
        let source_ip = deserializer.deserialize_u32()?;
        proof {
            deserializer.lemma_pos_in_input();
            assert(rem.take(4) =~= rem.subrange(0, 4));
            assert(deserializer.remaining() =~= rem.skip(4));
        }
        let source_mask = deserializer.deserialize_u32()?;
        proof {
            deserializer.lemma_pos_in_input();
            assert(rem.skip(4).take(4) =~= rem.subrange(4, 8));
            assert(deserializer.remaining() =~= rem.skip(8));
        }
        let dest_ip = deserializer.deserialize_u32()?;
        proof {
            deserializer.lemma_pos_in_input();
            assert(rem.skip(8).take(4) =~= rem.subrange(8, 12));
            assert(deserializer.remaining() =~= rem.skip(12));
        }
        let dest_mask = deserializer.deserialize_u32()?;
        proof {
            deserializer.lemma_pos_in_input();
            assert(rem.skip(12).take(4) =~= rem.subrange(12, 16));
            assert(deserializer.remaining() =~= rem.skip(16));
        }
        let source_port = deserializer.deserialize_u16()?;
        proof {
            deserializer.lemma_pos_in_input();
            assert(rem.skip(16).take(2) =~= rem.subrange(16, 18));
            assert(deserializer.remaining() =~= rem.skip(18));
        }
        let dest_port = deserializer.deserialize_u16()?;
        proof {
            deserializer.lemma_pos_in_input();
            assert(rem.skip(18).take(2) =~= rem.subrange(18, 20));
            assert(deserializer.remaining() =~= rem.skip(20));
        }
        let protocol = deserializer.deserialize_u8()?;
        proof {
            deserializer.lemma_pos_in_input();
            assert(rem.skip(20).take(1) =~= rem.subrange(20, 21));
            assert(deserializer.remaining() =~= rem.skip(21));
        }
        let priority = deserializer.deserialize_usize()?;
        proof {
            deserializer.lemma_pos_in_input();
            assert(rem.skip(21).take(8) =~= rem.subrange(21, 29));
            assert(deserializer.remaining() =~= rem.skip(29));
        }
        let code = deserializer.deserialize_u8()?;
        proof {
            assert(rem.skip(29).take(1) =~= rem.subrange(29, 30));
        }
        Ok(
            FirewallRule {
                source_ip,
                dest_ip,
                source_mask,
                dest_mask,
                source_port,
                dest_port,
                protocol,
                priority,
                action: FirewallAction::from(code),
            },
        )
    }
}

/// A rule's bytes are thirty, and reading them back gives the rule,
/// whatever follows them.
pub proof fn lemma_firewall_rule_roundtrip(rule: FirewallRule, rest: Seq<u8>)
    ensures
        rule.spec_bytes().len() == 30,
        FirewallRule::spec_deserialize(rule.spec_bytes() + rest) == (
            Ok::<FirewallRule, DeserializeError>(rule),
            30nat,
        ),
{
    lemma_pow256_values();
    let b1 = rule.source_ip.spec_bytes();
    let b2 = rule.source_mask.spec_bytes();
    let b3 = rule.dest_ip.spec_bytes();
    let b4 = rule.dest_mask.spec_bytes();
    let b5 = rule.source_port.spec_bytes();
    let b6 = rule.dest_port.spec_bytes();
    let b7 = rule.protocol.spec_bytes();
    let b8 = rule.priority.spec_bytes();
    let b9 = rule.action.spec_code().spec_bytes();
    lemma_le_roundtrip(rule.source_ip as nat, 4);
    lemma_le_roundtrip(rule.source_mask as nat, 4);
    lemma_le_roundtrip(rule.dest_ip as nat, 4);
    lemma_le_roundtrip(rule.dest_mask as nat, 4);
    lemma_le_roundtrip(rule.source_port as nat, 2);
    lemma_le_roundtrip(rule.dest_port as nat, 2);
    lemma_le_roundtrip(rule.protocol as nat, 1);
    lemma_le_roundtrip(rule.priority as nat, 8);
    lemma_le_roundtrip(rule.action.spec_code() as nat, 1);
    let input = rule.spec_bytes() + rest;
    assert(input.subrange(0, 4) =~= b1);
    assert(input.subrange(4, 8) =~= b2);
    assert(input.subrange(8, 12) =~= b3);
    assert(input.subrange(12, 16) =~= b4);
    assert(input.subrange(16, 18) =~= b5);
    assert(input.subrange(18, 20) =~= b6);
    assert(input.subrange(20, 21) =~= b7);
    assert(input.subrange(21, 29) =~= b8);
    assert(input.subrange(29, 30) =~= b9);
}

/// A filter on captured traffic.
#[derive(Debug, PartialEq, Eq, Structural, Default)]
pub struct FilterRule {
    pub source_ip: u32,
    pub dest_ip: u32,
    pub source_mask: u32,
    pub dest_mask: u32,
    pub source_port: u16,
    pub dest_port: u16,
    pub protocol: u8,
}

impl View for FilterRule {
    type V = FilterRule;

    open spec fn view(&self) -> FilterRule {
        *self
    }
}

impl Serialize for FilterRule {
    open spec fn spec_bytes(&self) -> Seq<u8> {
        self.source_ip.spec_bytes() + self.source_mask.spec_bytes() + self.dest_ip.spec_bytes()
            + self.dest_mask.spec_bytes() + self.source_port.spec_bytes()
            + self.dest_port.spec_bytes() + self.protocol.spec_bytes()
    }

    fn serialize(&self, serializer: Serializer) -> (out: Serializer) {
        let ghost v = serializer@;
        let s = serializer.serialize(&self.source_ip);
        let s = s.serialize(&self.source_mask);
        let s = s.serialize(&self.dest_ip);
        let s = s.serialize(&self.dest_mask);
        let s = s.serialize(&self.source_port);
        let s = s.serialize(&self.dest_port);
        let s = s.serialize(&self.protocol);
        proof {
            let b1 = self.source_ip.spec_bytes();
            let b2 = self.source_mask.spec_bytes();
            let b3 = self.dest_ip.spec_bytes();
            let b4 = self.dest_mask.spec_bytes();
            let b5 = self.source_port.spec_bytes();
            let b6 = self.dest_port.spec_bytes();
            let b7 = self.protocol.spec_bytes();
            lemma_emit_concat(v, b1, b2);
            lemma_emit_concat(v, b1 + b2, b3);
            lemma_emit_concat(v, b1 + b2 + b3, b4);
            lemma_emit_concat(v, b1 + b2 + b3 + b4, b5);
            lemma_emit_concat(v, b1 + b2 + b3 + b4 + b5, b6);
            lemma_emit_concat(v, b1 + b2 + b3 + b4 + b5 + b6, b7);
        }
        s
    }
}

impl Deserialize<FilterRule> for FilterRule {
    open spec fn spec_deserialize(input: Seq<u8>) -> (Result<FilterRule, DeserializeError>, nat) {
        if input.len() >= 21 {
            (
                Ok(
                    FilterRule {
                        source_ip: field(input, 0, 4) as u32,
                        source_mask: field(input, 4, 4) as u32,
                        dest_ip: field(input, 8, 4) as u32,
                        dest_mask: field(input, 12, 4) as u32,
                        source_port: field(input, 16, 2) as u16,
                        dest_port: field(input, 18, 2) as u16,
                        protocol: field(input, 20, 1) as u8,
                    },
                ),
                21,
            )
        } else {
            (Err(DeserializeError::InvalidSize), input.len())
        }
    }

    fn deserialize<'a>(deserializer: &mut Deserializer<'a>) -> (r: DeserializeResult<FilterRule>) {
        proof {
            deserializer.lemma_pos_in_input();
        }
        let ghost rem = deserializer.remaining();
        let source_ip = deserializer.deserialize_u32()?;
        proof {
            deserializer.lemma_pos_in_input();
            assert(rem.take(4) =~= rem.subrange(0, 4));
            assert(deserializer.remaining() =~= rem.skip(4));
        }
        let source_mask = deserializer.deserialize_u32()?;
        proof {
            deserializer.lemma_pos_in_input();
            assert(rem.skip(4).take(4) =~= rem.subrange(4, 8));
            assert(deserializer.remaining() =~= rem.skip(8));
        }
        let dest_ip = deserializer.deserialize_u32()?;
        proof {
            deserializer.lemma_pos_in_input();
            assert(rem.skip(8).take(4) =~= rem.subrange(8, 12));
            assert(deserializer.remaining() =~= rem.skip(12));
        }
        let dest_mask = deserializer.deserialize_u32()?;
        proof {
            deserializer.lemma_pos_in_input();
            assert(rem.skip(12).take(4) =~= rem.subrange(12, 16));
            assert(deserializer.remaining() =~= rem.skip(16));
        }
        let source_port = deserializer.deserialize_u16()?;
        proof {
            deserializer.lemma_pos_in_input();
            assert(rem.skip(16).take(2) =~= rem.subrange(16, 18));
            assert(deserializer.remaining() =~= rem.skip(18));
        }
        let dest_port = deserializer.deserialize_u16()?;
        proof {
            deserializer.lemma_pos_in_input();
            assert(rem.skip(18).take(2) =~= rem.subrange(18, 20));
            assert(deserializer.remaining() =~= rem.skip(20));
        }
        let protocol = deserializer.deserialize_u8()?;
        proof {
            assert(rem.skip(20).take(1) =~= rem.subrange(20, 21));
        }
        Ok(FilterRule { source_ip, dest_ip, source_mask, dest_mask, source_port, dest_port, protocol })
    }
}

/// A filter's bytes are twenty-one, and reading them back gives the filter,
/// whatever follows them.
pub proof fn lemma_filter_rule_roundtrip(rule: FilterRule, rest: Seq<u8>)
    ensures
        rule.spec_bytes().len() == 21,
        FilterRule::spec_deserialize(rule.spec_bytes() + rest) == (
            Ok::<FilterRule, DeserializeError>(rule),
            21nat,
        ),
{
    lemma_pow256_values();
    let b1 = rule.source_ip.spec_bytes();
    let b2 = rule.source_mask.spec_bytes();
    let b3 = rule.dest_ip.spec_bytes();
    let b4 = rule.dest_mask.spec_bytes();
    let b5 = rule.source_port.spec_bytes();
    let b6 = rule.dest_port.spec_bytes();
    let b7 = rule.protocol.spec_bytes();
    lemma_le_roundtrip(rule.source_ip as nat, 4);
    lemma_le_roundtrip(rule.source_mask as nat, 4);
    lemma_le_roundtrip(rule.dest_ip as nat, 4);
    lemma_le_roundtrip(rule.dest_mask as nat, 4);
    lemma_le_roundtrip(rule.source_port as nat, 2);
    lemma_le_roundtrip(rule.dest_port as nat, 2);
    lemma_le_roundtrip(rule.protocol as nat, 1);
    let input = rule.spec_bytes() + rest;
    assert(input.subrange(0, 4) =~= b1);
    assert(input.subrange(4, 8) =~= b2);
    assert(input.subrange(8, 12) =~= b3);
    assert(input.subrange(12, 16) =~= b4);
    assert(input.subrange(16, 18) =~= b5);
    assert(input.subrange(18, 20) =~= b6);
    assert(input.subrange(20, 21) =~= b7);
}

/// A packet that the module captured, with its payload.
#[derive(Debug, PartialEq, Eq, Default)]
pub struct CapturedPacket {
    pub source_ip: u32,
    pub dest_ip: u32,
    pub source_port: u16,
    pub dest_port: u16,
    pub protocol: u8,
    pub payload: Vec<u8>,
}

/// The contents of a [`CapturedPacket`].
pub struct CapturedPacketView {
    pub source_ip: u32,
    pub dest_ip: u32,
    pub source_port: u16,
    pub dest_port: u16,
    pub protocol: u8,
    pub payload: Seq<u8>,
}

impl View for CapturedPacket {
    type V = CapturedPacketView;

    open spec fn view(&self) -> CapturedPacketView {
        CapturedPacketView {
            source_ip: self.source_ip,
            dest_ip: self.dest_ip,
            source_port: self.source_port,
            dest_port: self.dest_port,
            protocol: self.protocol,
            payload: self.payload@,
        }
    }
}

impl CapturedPacket {
    /// The number of bytes that encode the packet: 21 more than its
    /// payload.
    pub fn total_size(&self) -> (n: usize)
        requires
            self.payload@.len() <= usize::MAX - 21,
        ensures
            n == self.spec_bytes().len(),
            n == 21 + self.payload@.len(),
    {
        proof {
            lemma_packet_bytes_len(self);
        }
        core::mem::size_of::<u32>() * 2 + core::mem::size_of::<u16>() * 2 + core::mem::size_of::<u8>()
            * 1 + 8 + self.payload.len()
    }
}

/// A sequence of bytes is encoded as its length and then the bytes themselves.
pub proof fn lemma_byte_concat(s: Seq<u8>)
    ensures
        concat_bytes(s) == s,
    decreases s.len(),
{
    if s.len() > 0 {
        lemma_byte_concat(s.drop_last());
        reveal_with_fuel(le_bytes, 2);
        assert(concat_bytes(s) =~= s);
    }
}

/// A captured packet is encoded as its addresses, ports and protocol in
/// 13 bytes, the payload's length in 8, then the payload: 21 bytes more
/// than its payload, which is what [`CapturedPacket::total_size`] counts.
pub proof fn lemma_packet_bytes_len(p: &CapturedPacket)
    ensures
        p.spec_bytes() == p.source_ip.spec_bytes() + p.dest_ip.spec_bytes()
            + p.source_port.spec_bytes() + p.dest_port.spec_bytes() + p.protocol.spec_bytes()
            + le_bytes(p.payload@.len(), 8) + p.payload@,
        p.spec_bytes().len() == 21 + p.payload@.len(),
{
    lemma_byte_concat(p.payload@);
    lemma_le_bytes_len(p.source_ip as nat, 4);
    lemma_le_bytes_len(p.dest_ip as nat, 4);
    lemma_le_bytes_len(p.source_port as nat, 2);
    lemma_le_bytes_len(p.dest_port as nat, 2);
    lemma_le_bytes_len(p.protocol as nat, 1);
    lemma_le_bytes_len(p.payload@.len(), 8);
}

impl Serialize for CapturedPacket {
    open spec fn spec_bytes(&self) -> Seq<u8> {
        self.source_ip.spec_bytes() + self.dest_ip.spec_bytes() + self.source_port.spec_bytes()
            + self.dest_port.spec_bytes() + self.protocol.spec_bytes() + self.payload.spec_bytes()
    }

    fn serialize(&self, serializer: Serializer) -> (out: Serializer) {
        let ghost v = serializer@;
        let s = serializer.serialize(&self.source_ip);
        let s = s.serialize(&self.dest_ip);
        let s = s.serialize(&self.source_port);
        let s = s.serialize(&self.dest_port);
        let s = s.serialize(&self.protocol);
        let s = s.serialize(&self.payload);
        proof {
            let b1 = self.source_ip.spec_bytes();
            let b2 = self.dest_ip.spec_bytes();
            let b3 = self.source_port.spec_bytes();
            let b4 = self.dest_port.spec_bytes();
            let b5 = self.protocol.spec_bytes();
            let b6 = self.payload.spec_bytes();
            lemma_emit_concat(v, b1, b2);
            lemma_emit_concat(v, b1 + b2, b3);
            lemma_emit_concat(v, b1 + b2 + b3, b4);
            lemma_emit_concat(v, b1 + b2 + b3 + b4, b5);
            lemma_emit_concat(v, b1 + b2 + b3 + b4 + b5, b6);
        }
        s
    }
}

impl Deserialize<CapturedPacket> for CapturedPacket {
    open spec fn spec_deserialize(input: Seq<u8>) -> (Result<CapturedPacketView, DeserializeError>, nat) {
        if input.len() >= 13 {
            match decode_byte_array(input.skip(13)) {
                (Ok(payload), c) => (
                    Ok(
                        CapturedPacketView {
                            source_ip: field(input, 0, 4) as u32,
                            dest_ip: field(input, 4, 4) as u32,
                            source_port: field(input, 8, 2) as u16,
                            dest_port: field(input, 10, 2) as u16,
                            protocol: field(input, 12, 1) as u8,
                            payload,
                        },
                    ),
                    13 + c,
                ),
                (Err(e), c) => (Err(e), 13 + c),
            }
        } else {
            (Err(DeserializeError::InvalidSize), input.len())
        }
    }

    fn deserialize<'a>(deserializer: &mut Deserializer<'a>) -> (r: DeserializeResult<CapturedPacket>) {
        proof {
            deserializer.lemma_pos_in_input();
        }
        let ghost rem = deserializer.remaining();
        let source_ip = deserializer.deserialize_u32()?;
        proof {
            deserializer.lemma_pos_in_input();
            assert(rem.take(4) =~= rem.subrange(0, 4));
            assert(deserializer.remaining() =~= rem.skip(4));
        }
        let dest_ip = deserializer.deserialize_u32()?;
        proof {
            deserializer.lemma_pos_in_input();
            assert(rem.skip(4).take(4) =~= rem.subrange(4, 8));
            assert(deserializer.remaining() =~= rem.skip(8));
        }
        let source_port = deserializer.deserialize_u16()?;
        proof {
            deserializer.lemma_pos_in_input();
            assert(rem.skip(8).take(2) =~= rem.subrange(8, 10));
            assert(deserializer.remaining() =~= rem.skip(10));
        }
        let dest_port = deserializer.deserialize_u16()?;
        proof {
            deserializer.lemma_pos_in_input();
            assert(rem.skip(10).take(2) =~= rem.subrange(10, 12));
            assert(deserializer.remaining() =~= rem.skip(12));
        }
        let protocol = deserializer.deserialize_u8()?;
        proof {
            deserializer.lemma_pos_in_input();
            assert(rem.skip(12).take(1) =~= rem.subrange(12, 13));
            assert(deserializer.remaining() =~= rem.skip(13));
        }
        let payload = deserializer.deserialize_u8_vec()?;
        Ok(CapturedPacket { source_ip, dest_ip, source_port, dest_port, protocol, payload })
    }
}

/// Reading back the bytes of a packet gives the packet, whatever follows them.
pub proof fn lemma_captured_packet_roundtrip(p: CapturedPacket, rest: Seq<u8>)
    ensures
        CapturedPacket::spec_deserialize(p.spec_bytes() + rest) == (
            Ok::<CapturedPacketView, DeserializeError>(p@),
            p.spec_bytes().len(),
        ),
{
    lemma_pow256_values();
    lemma_packet_bytes_len(&p);
    lemma_le_roundtrip(p.source_ip as nat, 4);
    lemma_le_roundtrip(p.dest_ip as nat, 4);
    lemma_le_roundtrip(p.source_port as nat, 2);
    lemma_le_roundtrip(p.dest_port as nat, 2);
    lemma_le_roundtrip(p.protocol as nat, 1);
    let n: usize = p.payload.len();
    let head = p.source_ip.spec_bytes() + p.dest_ip.spec_bytes() + p.source_port.spec_bytes()
        + p.dest_port.spec_bytes() + p.protocol.spec_bytes();
    let tail = n.spec_bytes() + (p.payload@ + rest);
    let input = p.spec_bytes() + rest;
    assert(input =~= head + tail);
    assert(input.subrange(0, 4) =~= p.source_ip.spec_bytes());
    assert(input.subrange(4, 8) =~= p.dest_ip.spec_bytes());
    assert(input.subrange(8, 10) =~= p.source_port.spec_bytes());
    assert(input.subrange(10, 12) =~= p.dest_port.spec_bytes());
    assert(input.subrange(12, 13) =~= p.protocol.spec_bytes());
    assert(input.skip(13) =~= tail);
    lemma_usize_roundtrip(n, p.payload@ + rest);
    assert(tail.skip(8) =~= p.payload@ + rest);
    assert(tail.skip(8).take(n as int) =~= p.payload@);
}

/// Items encoded one after another read back as the same items, whatever
/// follows them.
pub proof fn lemma_rules_roundtrip(rules: Seq<FirewallRule>, rest: Seq<u8>)
    ensures
        concat_bytes(rules).len() == 30 * rules.len(),
        decode_items::<FirewallRule>(concat_bytes(rules) + rest, rules.len()) == (
            Ok::<Seq<FirewallRule>, DeserializeError>(view_seq(rules)),
            30 * rules.len(),
        ),
    decreases rules.len(),
{
    if rules.len() == 0 {
        assert(view_seq(rules) =~= Seq::<FirewallRule>::empty());
    } else {
        let init = rules.drop_last();
        let last = rules.last();
        lemma_firewall_rule_roundtrip(last, rest);
        lemma_rules_roundtrip(init, last.spec_bytes() + rest);
        let input = concat_bytes(rules) + rest;
        assert(input =~= concat_bytes(init) + (last.spec_bytes() + rest));
        assert(input.skip(30 * init.len() as int) =~= last.spec_bytes() + rest);
        assert(view_seq(rules) =~= view_seq(init).push(last@));
    }
}

/// A list of rules reads back as the same list, whatever follows it.
pub proof fn lemma_rule_vec_roundtrip(rules: Vec<FirewallRule>, rest: Seq<u8>)
    ensures
        rules.spec_bytes().len() == 8 + 30 * rules@.len(),
        decode_vec::<FirewallRule>(seq![], rules.spec_bytes() + rest) == (
            Ok::<Seq<FirewallRule>, DeserializeError>(view_seq(rules@)),
            rules.spec_bytes().len(),
        ),
{
    let n: usize = rules.len();
    lemma_rules_roundtrip(rules@, rest);
    lemma_usize_roundtrip(n, concat_bytes(rules@) + rest);
    let input = rules.spec_bytes() + rest;
    assert(input =~= n.spec_bytes() + (concat_bytes(rules@) + rest));
    assert(input.skip(8) =~= concat_bytes(rules@) + rest);
    assert(Seq::<FirewallRule>::empty() + view_seq(rules@) =~= view_seq(rules@));
}

/// The rules that the module reports to a client.
#[derive(Debug, PartialEq, Eq)]
pub struct FirewallRuleList {
    pub rules: Vec<FirewallRule>,
}

impl View for FirewallRuleList {
    type V = Seq<FirewallRule>;

    open spec fn view(&self) -> Seq<FirewallRule> {
        view_seq(self.rules@)
    }
}

impl Serialize for FirewallRuleList {
    open spec fn spec_bytes(&self) -> Seq<u8> {
        self.rules.spec_bytes()
    }

    fn serialize(&self, serializer: Serializer) -> (out: Serializer) {
        serializer.serialize(&self.rules)
    }
}

impl Deserialize<FirewallRuleList> for FirewallRuleList {
    open spec fn spec_deserialize(input: Seq<u8>) -> (Result<Seq<FirewallRule>, DeserializeError>, nat) {
        decode_vec::<FirewallRule>(seq![], input)
    }

    fn deserialize<'a>(deserializer: &mut Deserializer<'a>) -> (r: DeserializeResult<FirewallRuleList>) {
        let empty: Vec<FirewallRule> = Vec::new();
        assert(view_seq(empty@) =~= Seq::<FirewallRule>::empty());
        let rules = deserializer.deserialize_vec(empty)?;
        Ok(FirewallRuleList { rules })
    }
}

/// A message between the module and a client; its encoding starts with an
/// `i32` that tells the kind of message.
#[derive(Debug, PartialEq, Eq)]
pub enum FirewallMessage {
    Error,
    QueryRules,
    SetDefault(FirewallRule),
    SetRule(FirewallRule),
    RuleList(Vec<FirewallRule>),
    DeleteRule(usize),
}

/// The contents of a [`FirewallMessage`].
pub enum FirewallMessageView {
    Error,
    QueryRules,
    SetDefault(FirewallRule),
    SetRule(FirewallRule),
    RuleList(Seq<FirewallRule>),
    DeleteRule(usize),
}

impl View for FirewallMessage {
    type V = FirewallMessageView;

    open spec fn view(&self) -> FirewallMessageView {
        match self {
            FirewallMessage::Error => FirewallMessageView::Error,
            FirewallMessage::QueryRules => FirewallMessageView::QueryRules,
            FirewallMessage::SetDefault(rule) => FirewallMessageView::SetDefault(*rule),
            FirewallMessage::SetRule(rule) => FirewallMessageView::SetRule(*rule),
            FirewallMessage::RuleList(rules) => FirewallMessageView::RuleList(view_seq(rules@)),
            FirewallMessage::DeleteRule(index) => FirewallMessageView::DeleteRule(*index),
        }
    }
}

impl FirewallMessage {
    /// The code that starts the encoding of each kind of message.
    pub open spec fn spec_tag(&self) -> i32 {
        match self {
            FirewallMessage::Error => 0,
            FirewallMessage::QueryRules => 1,
            FirewallMessage::SetDefault(_) => 2,
            FirewallMessage::SetRule(_) => 3,
            FirewallMessage::RuleList(_) => 4,
            FirewallMessage::DeleteRule(_) => 5,
        }
    }
}

impl Serialize for FirewallMessage {
    open spec fn spec_bytes(&self) -> Seq<u8> {
        self.spec_tag().spec_bytes() + match self {
            FirewallMessage::Error => seq![],
            FirewallMessage::QueryRules => seq![],
            FirewallMessage::SetDefault(rule) => rule.spec_bytes(),
            FirewallMessage::SetRule(rule) => rule.spec_bytes(),
            FirewallMessage::RuleList(rules) => rules.spec_bytes(),
            FirewallMessage::DeleteRule(index) => index.spec_bytes(),
        }
    }

    fn serialize(&self, serializer: Serializer) -> (out: Serializer) {
        let ghost v = serializer@;
        match self {
            FirewallMessage::Error => {
                let out = serializer.serialize(&0i32);
                assert(self.spec_bytes() =~= 0i32.spec_bytes());
                out
            },
            FirewallMessage::QueryRules => {
                let out = serializer.serialize(&1i32);
                assert(self.spec_bytes() =~= 1i32.spec_bytes());
                out
            },
            FirewallMessage::SetDefault(rule) => {
                let out = serializer.serialize(&2i32).serialize(rule);
                proof {
                    lemma_emit_concat(v, 2i32.spec_bytes(), rule.spec_bytes());
                }
                out
            },
            FirewallMessage::SetRule(rule) => {
                let out = serializer.serialize(&3i32).serialize(rule);
                proof {
                    lemma_emit_concat(v, 3i32.spec_bytes(), rule.spec_bytes());
                }
                out
            },
            FirewallMessage::RuleList(rules) => {
                let out = serializer.serialize(&4i32).serialize(rules);
                proof {
                    lemma_emit_concat(v, 4i32.spec_bytes(), rules.spec_bytes());
                }
                out
            },
            FirewallMessage::DeleteRule(id) => {
                let out = serializer.serialize(&5i32).serialize(id);
                proof {
                    lemma_emit_concat(v, 5i32.spec_bytes(), id.spec_bytes());
                }
                out
            },
        }
    }
}

impl Deserialize<FirewallMessage> for FirewallMessage {
    open spec fn spec_deserialize(input: Seq<u8>) -> (Result<FirewallMessageView, DeserializeError>, nat) {
        match <i32 as Deserialize<i32>>::spec_deserialize(input) {
            (Err(e), c) => (Err(e), c),
            (Ok(tag), c) => {
                let rest = input.skip(c as int);
                if tag == 1 {
                    (Ok(FirewallMessageView::QueryRules), c)
                } else if tag == 2 {
                    match FirewallRule::spec_deserialize(rest) {
                        (Ok(rule), c2) => (Ok(FirewallMessageView::SetDefault(rule)), c + c2),
                        (Err(e), c2) => (Err(e), c + c2),
                    }
                } else if tag == 3 {
                    match FirewallRule::spec_deserialize(rest) {
                        (Ok(rule), c2) => (Ok(FirewallMessageView::SetRule(rule)), c + c2),
                        (Err(e), c2) => (Err(e), c + c2),
                    }
                } else if tag == 4 {
                    match decode_vec::<FirewallRule>(seq![], rest) {
                        (Ok(rules), c2) => (Ok(FirewallMessageView::RuleList(rules)), c + c2),
                        (Err(e), c2) => (Err(e), c + c2),
                    }
                } else if tag == 5 {
                    match <usize as Deserialize<usize>>::spec_deserialize(rest) {
                        (Ok(index), c2) => (Ok(FirewallMessageView::DeleteRule(index)), c + c2),
                        (Err(e), c2) => (Err(e), c + c2),
                    }
                } else {
                    (Ok(FirewallMessageView::Error), c)
                }
            },
        }
    }

    fn deserialize<'a>(deserializer: &mut Deserializer<'a>) -> (r: DeserializeResult<FirewallMessage>) {
        proof {
            deserializer.lemma_pos_in_input();
        }
        let ghost rem = deserializer.remaining();
        let msg_type = deserializer.deserialize_i32()?;
        proof {
            deserializer.lemma_pos_in_input();
            assert(deserializer.remaining() =~= rem.skip(4));
        }
        let msg = match msg_type {
            1 => FirewallMessage::QueryRules,
            2 => FirewallMessage::SetDefault(deserializer.deserialize()?),
            3 => FirewallMessage::SetRule(deserializer.deserialize()?),
            4 => {
                let empty: Vec<FirewallRule> = Vec::new();
                assert(view_seq(empty@) =~= Seq::<FirewallRule>::empty());
                FirewallMessage::RuleList(deserializer.deserialize_vec(empty)?)
            },
            5 => FirewallMessage::DeleteRule(deserializer.deserialize()?),
            _ => FirewallMessage::Error,
        };
        Ok(msg)
    }
}

/// Reading back the bytes of a message gives the message, whatever follows
/// them.
pub proof fn lemma_firewall_message_roundtrip(m: FirewallMessage, rest: Seq<u8>)
    ensures
        FirewallMessage::spec_deserialize(m.spec_bytes() + rest) == (
            Ok::<FirewallMessageView, DeserializeError>(m@),
            m.spec_bytes().len(),
        ),
{
    let tag = m.spec_tag();
    let body = m.spec_bytes().skip(4);
    lemma_i32_roundtrip(tag, body + rest);
    let input = m.spec_bytes() + rest;
    assert(input =~= tag.spec_bytes() + (body + rest));
    assert(m.spec_bytes() =~= tag.spec_bytes() + body);
    assert(input.skip(4) =~= body + rest);
    match m {
        FirewallMessage::Error => {
            assert(m.spec_bytes() =~= tag.spec_bytes());
        },
        FirewallMessage::QueryRules => {
            assert(m.spec_bytes() =~= tag.spec_bytes());
        },
        FirewallMessage::SetDefault(rule) => {
            assert(body =~= rule.spec_bytes());
            lemma_firewall_rule_roundtrip(rule, rest);
        },
        FirewallMessage::SetRule(rule) => {
            assert(body =~= rule.spec_bytes());
            lemma_firewall_rule_roundtrip(rule, rest);
        },
        FirewallMessage::RuleList(rules) => {
            assert(body =~= rules.spec_bytes());
            lemma_rule_vec_roundtrip(rules, rest);
        },
        FirewallMessage::DeleteRule(index) => {
            assert(body =~= index.spec_bytes());
            lemma_usize_roundtrip(index, rest);
        },
    }
}

/// A value whose encoded size can be computed without encoding it.
pub trait EvalSize: Serialize {
    fn eval_size(&self) -> (n: usize)
        requires
            self.spec_bytes().len() <= usize::MAX,
        ensures
            n == self.spec_bytes().len(),
    ;
}

impl EvalSize for FirewallRule {
    fn eval_size(&self) -> (n: usize) {
        proof {
            lemma_firewall_rule_roundtrip(*self, seq![]);
        }
        core::mem::size_of::<u32>() * 4 + core::mem::size_of::<u16>() * 2 + core::mem::size_of::<u8>()
            * 2 + 8
    }
}

/// The encodings of the first `i` items are no longer than those of all.
pub proof fn lemma_concat_prefix_len<T: Serialize>(items: Seq<T>, i: int)
    requires
        0 <= i <= items.len(),
    ensures
        concat_bytes(items.take(i)).len() <= concat_bytes(items).len(),
    decreases items.len(),
{
    if i < items.len() {
        assert(items.drop_last().take(i) =~= items.take(i));
        lemma_concat_prefix_len(items.drop_last(), i);
    } else {
        assert(items.take(i) =~= items);
    }
}

impl<T: EvalSize> EvalSize for Vec<T> {
    fn eval_size(&self) -> (n: usize) {
        let len = self.len();
        proof {
            lemma_le_bytes_len(len as nat, 8);
            assert(self@.take(0) =~= Seq::<T>::empty());
        }
        let mut total: usize = 8;
        let mut i: usize = 0;
        while i < len
            invariant
                len == self@.len(),
                i <= len,
                8 + concat_bytes(self@).len() <= usize::MAX,
                total == 8 + concat_bytes(self@.take(i as int)).len(),
            decreases len - i,
        {
            proof {
                assert(self@.take(i + 1).drop_last() =~= self@.take(i as int));
                lemma_concat_prefix_len(self@, i + 1);
            }
            let size = self[i].eval_size();
            total = total + size;
            i = i + 1;
        }
        assert(self@.take(len as int) =~= self@);
        total
    }
}

impl EvalSize for FirewallMessage {
    fn eval_size(&self) -> (n: usize) {
        proof {
            lemma_le_bytes_len(self.spec_tag() as u32 as nat, 4);
        }
        match self {
            FirewallMessage::Error | FirewallMessage::QueryRules => {
                assert(self.spec_bytes() =~= self.spec_tag().spec_bytes());
                core::mem::size_of::<i32>()
            },
            FirewallMessage::RuleList(list) => core::mem::size_of::<i32>() + list.eval_size(),
            FirewallMessage::SetDefault(rule) | FirewallMessage::SetRule(rule) => {
                core::mem::size_of::<i32>() + rule.eval_size()
            },
            FirewallMessage::DeleteRule(index) => {
                proof {
                    lemma_le_bytes_len(*index as nat, 8);
                }
                core::mem::size_of::<i32>() + 8
            },
        }
    }
}

/// The header of a netlink message.
#[derive(Debug, Default)]
pub struct NetlinkHeader {
    nlmsg_len: u32,
    nlmsg_type: u16,
    nlmsg_flags: u16,
    nlmsg_seq: u32,
    nlmsg_pid: u32,
}

/// A netlink message: a header and a payload.
pub struct NetlinkMessage<T> {
    pub header: NetlinkHeader,
    pub payload: T,
}

impl<T: Serialize> NetlinkMessage<T> {
    /// Writes the payload's encoding at the start of `buffer`, cut off where
    /// the buffer ends, and returns the number of bytes written.
    pub fn pack(&self, buffer: &mut [u8]) -> (n: usize)
        ensures
            n == fitting(old(buffer)@.len(), 0, self.payload.spec_bytes().len()),
            final(buffer)@ == write_at(old(buffer)@, 0, self.payload.spec_bytes()),
    {
        serialize(&self.payload, buffer)
    }
}

impl<T: View + Deserialize<T>> NetlinkMessage<T> {
    /// A message with `header` and the payload read from `payload_buffer`.
    pub fn from(header: NetlinkHeader, payload_buffer: &[u8]) -> (m: NetlinkMessage<T>)
        requires
            T::spec_deserialize(payload_buffer@).0 is Ok,
        ensures
            m.header == header,
            Ok::<T::V, DeserializeError>(m.payload@) == T::spec_deserialize(payload_buffer@).0,
    {
        let payload = match deserialize::<T>(payload_buffer) {
            Ok(payload) => payload,
            Err(_) => vstd::pervasive::unreached(),
        };
        NetlinkMessage { header, payload }
    }
}

/// A message written with [`serialize`] into a buffer large enough for it
/// is read back by [`deserialize`] from that buffer, whatever the buffer held
/// after it.
pub proof fn lemma_message_survives_buffer(m: FirewallMessage, buffer: Seq<u8>)
    requires
        m.spec_bytes().len() <= buffer.len(),
    ensures
        fitting(buffer.len(), 0, m.spec_bytes().len()) == m.spec_bytes().len(),
        FirewallMessage::spec_deserialize(write_at(buffer, 0, m.spec_bytes())).0 == Ok::<
            FirewallMessageView,
            DeserializeError,
        >(m@),
{
    lemma_write_at_start(buffer, m.spec_bytes());
    lemma_firewall_message_roundtrip(m, buffer.skip(m.spec_bytes().len() as int));
}

/// A captured packet written with [`serialize`] into a buffer large enough
/// for it, such as one of [`CapturedPacket::total_size`] bytes, fills 21
/// bytes more than its payload and is read back by [`deserialize`] from
/// that buffer.
pub proof fn lemma_captured_packet_survives_buffer(p: CapturedPacket, buffer: Seq<u8>)
    requires
        p.spec_bytes().len() <= buffer.len(),
    ensures
        p.spec_bytes().len() == 21 + p.payload@.len(),
        fitting(buffer.len(), 0, p.spec_bytes().len()) == p.spec_bytes().len(),
        CapturedPacket::spec_deserialize(write_at(buffer, 0, p.spec_bytes())).0 == Ok::<
            CapturedPacketView,
            DeserializeError,
        >(p@),
{
    lemma_packet_bytes_len(&p);
    lemma_write_at_start(buffer, p.spec_bytes());
    lemma_captured_packet_roundtrip(p, buffer.skip(p.spec_bytes().len() as int));
}

/// A filter rule written with [`serialize`] into a buffer of at least its
/// size is read back by [`deserialize`] from that buffer.
pub proof fn lemma_filter_rule_survives_buffer(rule: FilterRule, buffer: Seq<u8>)
    requires
        rule.spec_bytes().len() <= buffer.len(),
    ensures
        fitting(buffer.len(), 0, rule.spec_bytes().len()) == rule.spec_bytes().len(),
        FilterRule::spec_deserialize(write_at(buffer, 0, rule.spec_bytes())).0 == Ok::<
            FilterRule,
            DeserializeError,
        >(rule),
{
    lemma_write_at_start(buffer, rule.spec_bytes());
    lemma_filter_rule_roundtrip(rule, buffer.skip(rule.spec_bytes().len() as int));
}

/// The four bytes of a small kind number `k`, least significant first.
proof fn lemma_tag_bytes(k: i32)
    requires
        0 <= k < 256,
    ensures
        k.spec_bytes() == seq![k as u8, 0u8, 0u8, 0u8],
{
    reveal_with_fuel(le_bytes, 5);
    assert(k.spec_bytes() =~= seq![k as u8, 0u8, 0u8, 0u8]);
}

/// The wire form of every message: its kind number as four little-endian
/// bytes (0 Error, 1 QueryRules, 2 SetDefault, 3 SetRule, 4 RuleList,
/// 5 DeleteRule) followed by what it carries; and reading those bytes back
/// gives the message of that kind, whatever follows.
pub proof fn lemma_message_wire_form(rule: FirewallRule, rules: Vec<FirewallRule>, index: usize, rest: Seq<u8>)
    ensures
        FirewallMessage::Error.spec_bytes() == seq![0u8, 0u8, 0u8, 0u8],
        FirewallMessage::QueryRules.spec_bytes() == seq![1u8, 0u8, 0u8, 0u8],
        FirewallMessage::SetDefault(rule).spec_bytes() == seq![2u8, 0u8, 0u8, 0u8] + rule.spec_bytes(),
        FirewallMessage::SetRule(rule).spec_bytes() == seq![3u8, 0u8, 0u8, 0u8] + rule.spec_bytes(),
        FirewallMessage::RuleList(rules).spec_bytes() == seq![4u8, 0u8, 0u8, 0u8] + rules.spec_bytes(),
        FirewallMessage::DeleteRule(index).spec_bytes() == seq![5u8, 0u8, 0u8, 0u8] + index.spec_bytes(),
        FirewallMessage::spec_deserialize(seq![1u8, 0u8, 0u8, 0u8] + rest).0 == Ok::<
            FirewallMessageView,
            DeserializeError,
        >(FirewallMessageView::QueryRules),
        FirewallMessage::spec_deserialize(seq![2u8, 0u8, 0u8, 0u8] + rule.spec_bytes() + rest).0 == Ok::<
            FirewallMessageView,
            DeserializeError,
        >(FirewallMessageView::SetDefault(rule)),
        FirewallMessage::spec_deserialize(seq![3u8, 0u8, 0u8, 0u8] + rule.spec_bytes() + rest).0 == Ok::<
            FirewallMessageView,
            DeserializeError,
        >(FirewallMessageView::SetRule(rule)),
{
    lemma_tag_bytes(0);
    lemma_tag_bytes(1);
    lemma_tag_bytes(2);
    lemma_tag_bytes(3);
    lemma_tag_bytes(4);
    lemma_tag_bytes(5);
    assert(FirewallMessage::Error.spec_bytes() =~= seq![0u8, 0u8, 0u8, 0u8]);
    assert(FirewallMessage::QueryRules.spec_bytes() =~= seq![1u8, 0u8, 0u8, 0u8]);
    lemma_firewall_message_roundtrip(FirewallMessage::QueryRules, rest);
    lemma_firewall_message_roundtrip(FirewallMessage::SetDefault(rule), rest);
    lemma_firewall_message_roundtrip(FirewallMessage::SetRule(rule), rest);
}

} // verus!
