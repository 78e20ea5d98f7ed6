//! Every value of the message format reads back from its own encoding.

use vstd::prelude::*;
use super::serialize::{Serialize, write_at, fitting, lemma_write_at_start};
use super::deserialize::{
    Deserialize, DeserializeError, lemma_bool_roundtrip, lemma_u8_roundtrip, lemma_u16_roundtrip,
    lemma_u32_roundtrip, lemma_u64_roundtrip, lemma_usize_roundtrip, lemma_i8_roundtrip, lemma_i16_roundtrip,
    lemma_i32_roundtrip, lemma_i64_roundtrip, lemma_isize_roundtrip,
};
use super::packets::{
    CapturedPacket, FilterRule, FirewallMessage, FirewallRule, FirewallRuleList, NetlinkMessage,
    lemma_firewall_rule_roundtrip, lemma_filter_rule_roundtrip, lemma_captured_packet_roundtrip,
    lemma_rule_vec_roundtrip, lemma_firewall_message_roundtrip,
};

verus! {

/// A value that reads back from its own encoding, whatever bytes follow it,
/// and consumes exactly its encoding.
pub trait RoundTrip: Sized + View + Serialize + Deserialize<Self> {
    /// Reading the encoding of `self`, followed by `rest`, gives `self`.
    proof fn lemma_reads_back(&self, rest: Seq<u8>)
        ensures
            Self::spec_deserialize(self.spec_bytes() + rest) == (
                Ok::<Self::V, DeserializeError>(self@),
                self.spec_bytes().len(),
            ),
    ;
}

impl RoundTrip for bool {
    proof fn lemma_reads_back(&self, rest: Seq<u8>) {
        lemma_bool_roundtrip(*self, rest);
    }
}

impl RoundTrip for u8 {
    proof fn lemma_reads_back(&self, rest: Seq<u8>) {
        lemma_u8_roundtrip(*self, rest);
    }
}

impl RoundTrip for u16 {
    proof fn lemma_reads_back(&self, rest: Seq<u8>) {
        lemma_u16_roundtrip(*self, rest);
    }
}

impl RoundTrip for u32 {
    proof fn lemma_reads_back(&self, rest: Seq<u8>) {
        lemma_u32_roundtrip(*self, rest);
    }
}

impl RoundTrip for u64 {
    proof fn lemma_reads_back(&self, rest: Seq<u8>) {
        lemma_u64_roundtrip(*self, rest);
    }
}

impl RoundTrip for usize {
    proof fn lemma_reads_back(&self, rest: Seq<u8>) {
        lemma_usize_roundtrip(*self, rest);
    }
}

impl RoundTrip for i8 {
    proof fn lemma_reads_back(&self, rest: Seq<u8>) {
        lemma_i8_roundtrip(*self, rest);
    }
}

impl RoundTrip for i16 {
    proof fn lemma_reads_back(&self, rest: Seq<u8>) {
        lemma_i16_roundtrip(*self, rest);
    }
}

impl RoundTrip for i32 {
    proof fn lemma_reads_back(&self, rest: Seq<u8>) {
        lemma_i32_roundtrip(*self, rest);
    }
}

impl RoundTrip for i64 {
    proof fn lemma_reads_back(&self, rest: Seq<u8>) {
        lemma_i64_roundtrip(*self, rest);
    }
}

impl RoundTrip for isize {
    proof fn lemma_reads_back(&self, rest: Seq<u8>) {
        lemma_isize_roundtrip(*self, rest);
    }
}

impl RoundTrip for FirewallRule {
    proof fn lemma_reads_back(&self, rest: Seq<u8>) {
        lemma_firewall_rule_roundtrip(*self, rest);
    }
}

impl RoundTrip for FilterRule {
    proof fn lemma_reads_back(&self, rest: Seq<u8>) {
        lemma_filter_rule_roundtrip(*self, rest);
    }
}

impl RoundTrip for CapturedPacket {
    proof fn lemma_reads_back(&self, rest: Seq<u8>) {
        lemma_captured_packet_roundtrip(*self, rest);
    }
}

impl RoundTrip for FirewallRuleList {
    proof fn lemma_reads_back(&self, rest: Seq<u8>) {
        lemma_rule_vec_roundtrip(self.rules, rest);
    }
}

impl RoundTrip for FirewallMessage {
    proof fn lemma_reads_back(&self, rest: Seq<u8>) {
        lemma_firewall_message_roundtrip(*self, rest);
    }
}

/// A value written with [`crate::packet::serialize::serialize`] into a
/// buffer large enough for it is read back by
/// [`crate::packet::deserialize::deserialize`], both from the bytes written
/// and from the whole buffer: the bytes after the encoding are ignored.
pub proof fn lemma_reads_back_from_buffer<T: RoundTrip>(x: T, buffer: Seq<u8>)
    requires
        x.spec_bytes().len() <= buffer.len(),
    ensures
        fitting(buffer.len(), 0, x.spec_bytes().len()) == x.spec_bytes().len(),
        T::spec_deserialize(write_at(buffer, 0, x.spec_bytes())).0 == Ok::<T::V, DeserializeError>(x@),
        T::spec_deserialize(write_at(buffer, 0, x.spec_bytes()).take(x.spec_bytes().len() as int)).0 == Ok::<
            T::V,
            DeserializeError,
        >(x@),
{
    let bytes = x.spec_bytes();
    lemma_write_at_start(buffer, bytes);
    x.lemma_reads_back(buffer.skip(bytes.len() as int));
    x.lemma_reads_back(Seq::<u8>::empty());
    assert(bytes + Seq::<u8>::empty() =~= bytes);
    assert((bytes + buffer.skip(bytes.len() as int)).take(bytes.len() as int) =~= bytes);
}

/// A netlink message packed with [`NetlinkMessage::pack`] into a buffer
/// large enough for its payload is unpacked by [`NetlinkMessage::from`]
/// from the bytes packed: they read as a payload, and as the same one.
pub proof fn lemma_netlink_message_reads_back<T: RoundTrip>(m: NetlinkMessage<T>, buffer: Seq<u8>)
    requires
        m.payload.spec_bytes().len() <= buffer.len(),
    ensures
        T::spec_deserialize(
            write_at(buffer, 0, m.payload.spec_bytes()).take(
                fitting(buffer.len(), 0, m.payload.spec_bytes().len()) as int,
            ),
        ).0 == Ok::<T::V, DeserializeError>(m.payload@),
{
    lemma_reads_back_from_buffer(m.payload, buffer);
}

} // verus!
