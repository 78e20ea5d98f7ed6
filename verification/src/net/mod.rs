//! IPv4, TCP, UDP and ICMP headers as they sit in a packet's bytes, the
//! host-to-network byte-order conversion, and packets split into header
//! and payload.
//!
//! Multi-byte header fields hold the value that a little-endian host reads
//! from the packet's bytes, that is, network byte order seen through host
//! order, as the kernel's own header structs do.

pub mod ip_protocol;
pub mod protocol_family;
pub mod icmp_code;
pub mod fields;

use vstd::prelude::*;
use fields::{host_u16, host_u32, read_u16, read_u32};

verus! {

pub type IpProtocol = u8;

/// `x` with its two bytes swapped.
pub open spec fn swap16(x: u16) -> u16 {
    (((x & 0xff) << 8) | (x >> 8)) as u16
}

/// `x` with its four bytes in reverse order.
pub open spec fn swap32(x: u32) -> u32 {
    ((x & 0xff) << 24) | (((x >> 8) & 0xff) << 16) | (((x >> 16) & 0xff) << 8) | (x >> 24)
}

/// Swapping twice gives the value back.
pub proof fn lemma_swap_involution(x: u32, y: u16)
    ensures
        swap32(swap32(x)) == x,
        swap16(swap16(y)) == y,
{
    assert(swap32(swap32(x)) == x) by (bit_vector);
    assert(swap16(swap16(y)) == y) by (bit_vector);
}

/// Swapping bytes commutes with masking, and only 0 swaps to 0.
pub proof fn lemma_swap_and(a: u32, b: u32, p: u16)
    ensures
        swap32(a & b) == swap32(a) & swap32(b),
        (swap16(p) == 0) == (p == 0),
{
    assert(swap32(a & b) == swap32(a) & swap32(b)) by (bit_vector);
    assert((swap16(p) == 0) == (p == 0)) by (bit_vector);
}

/// Converts a 32-bit value from the (little-endian) host order to network order.
pub fn u32_to_be(x: u32) -> (r: u32)
    ensures
        r == swap32(x),
{
    ((x & 0xff) << 24) | (((x >> 8) & 0xff) << 16) | (((x >> 16) & 0xff) << 8) | (x >> 24)
}

/// Converts a 16-bit value from the (little-endian) host order to network order.
pub fn u16_to_be(x: u16) -> (r: u16)
    ensures
        r == swap16(x),
{
    ((x & 0xff) << 8) | (x >> 8)
}

/// An IPv4 header.
#[derive(Copy, Clone)]
pub struct IPv4Header {
    pub ihl: u8,
    pub version: u8,
    pub tos: u8,
    pub tot_len: u16,
    pub id: u16,
    pub frag_off: u16,
    pub ttl: u8,
    pub protocol: u8,
    pub check: u16,
    pub saddr: u32,
    pub daddr: u32,
}

impl IPv4Header {
    /// The header at the start of `b`, if `b` is long enough to hold one.
    pub open spec fn spec_parse(b: Seq<u8>) -> Option<IPv4Header> {
        if b.len() < 20 {
            None
        } else {
            Some(
                IPv4Header {
                    ihl: b[0] % 16,
                    version: b[0] / 16,
                    tos: b[1],
                    tot_len: host_u16(b, 2),
                    id: host_u16(b, 4),
                    frag_off: host_u16(b, 6),
                    ttl: b[8],
                    protocol: b[9],
                    check: host_u16(b, 10),
                    saddr: host_u32(b, 12),
                    daddr: host_u32(b, 16),
                },
            )
        }
    }

    /// Reads the header at the start of `b`.
    pub fn from_bytes(b: &[u8]) -> (h: Option<IPv4Header>)
        ensures
            h == IPv4Header::spec_parse(b@),
    {
        if b.len() < 20 {
            return None;
        }
        Some(
            IPv4Header {
                ihl: b[0] % 16,
                version: b[0] / 16,
                tos: b[1],
                tot_len: read_u16(b, 2),
                id: read_u16(b, 4),
                frag_off: read_u16(b, 6),
                ttl: b[8],
                protocol: b[9],
                check: read_u16(b, 10),
                saddr: read_u32(b, 12),
                daddr: read_u32(b, 16),
            },
        )
    }
}

/// A TCP header.
#[derive(Copy, Clone)]
pub struct TcpHeader {
    pub source: u16,
    pub dest: u16,
    pub seq: u32,
    pub ack_seq: u32,
    pub res1: u8,
    pub doff: u8,
    pub flags: u8,
    pub window: u16,
    pub check: u16,
    pub urg_ptr: u16,
}

impl TcpHeader {
    /// The header at the start of `b`, if `b` is long enough to hold one.
    pub open spec fn spec_parse(b: Seq<u8>) -> Option<TcpHeader> {
        if b.len() < 20 {
            None
        } else {
            Some(
                TcpHeader {
                    source: host_u16(b, 0),
                    dest: host_u16(b, 2),
                    seq: host_u32(b, 4),
                    ack_seq: host_u32(b, 8),
                    res1: b[12] % 16,
                    doff: b[12] / 16,
                    flags: b[13],
                    window: host_u16(b, 14),
                    check: host_u16(b, 16),
                    urg_ptr: host_u16(b, 18),
                },
            )
        }
    }

    /// Reads the header at the start of `b`.
    pub fn from_bytes(b: &[u8]) -> (h: Option<TcpHeader>)
        ensures
            h == TcpHeader::spec_parse(b@),
    {
        if b.len() < 20 {
            return None;
        }
        Some(
            TcpHeader {
                source: read_u16(b, 0),
                dest: read_u16(b, 2),
                seq: read_u32(b, 4),
                ack_seq: read_u32(b, 8),
                res1: b[12] % 16,
                doff: b[12] / 16,
                flags: b[13],
                window: read_u16(b, 14),
                check: read_u16(b, 16),
                urg_ptr: read_u16(b, 18),
            },
        )
    }

    /// The SYN flag, 1 when set.
    pub open spec fn spec_syn(&self) -> u16 {
        ((self.flags / 2) % 2) as u16
    }

    /// The SYN flag, 1 when set.
    pub fn syn(&self) -> (f: u16)
        ensures
            f == self.spec_syn(),
    {
        ((self.flags / 2) % 2) as u16
    }

    /// Reads the TCP header of the packet in `skb`.
    pub fn from_skbuff(skb: &SocketBuffer) -> (h: Option<TcpHeader>)
        ensures
            h == TcpHeader::spec_parse(skb.transport()),
    {
        TcpHeader::from_bytes(skb.transport_header())
    }
}

/// A UDP header.
#[derive(Copy, Clone)]
pub struct UdpHeader {
    pub source: u16,
    pub dest: u16,
    pub len: u16,
    pub check: u16,
}

impl UdpHeader {
    /// The header at the start of `b`, if `b` is long enough to hold one.
    pub open spec fn spec_parse(b: Seq<u8>) -> Option<UdpHeader> {
        if b.len() < 8 {
            None
        } else {
            Some(
                UdpHeader {
                    source: host_u16(b, 0),
                    dest: host_u16(b, 2),
                    len: host_u16(b, 4),
                    check: host_u16(b, 6),
                },
            )
        }
    }

    /// Reads the header at the start of `b`.
    pub fn from_bytes(b: &[u8]) -> (h: Option<UdpHeader>)
        ensures
            h == UdpHeader::spec_parse(b@),
    {
        if b.len() < 8 {
            return None;
        }
        Some(
            UdpHeader {
                source: read_u16(b, 0),
                dest: read_u16(b, 2),
                len: read_u16(b, 4),
                check: read_u16(b, 6),
            },
        )
    }

    /// Reads the UDP header of the packet in `skb`.
    pub fn from_skbuff(skb: &SocketBuffer) -> (h: Option<UdpHeader>)
        ensures
            h == UdpHeader::spec_parse(skb.transport()),
    {
        UdpHeader::from_bytes(skb.transport_header())
    }
}

/// An ICMP header.
#[derive(Copy, Clone)]
pub struct IcmpHeader {
    pub type_: u8,
    pub code: u8,
    pub checksum: u16,
    pub un: u32,
}

impl IcmpHeader {
    /// The header at the start of `b`, if `b` is long enough to hold one.
    pub open spec fn spec_parse(b: Seq<u8>) -> Option<IcmpHeader> {
        if b.len() < 8 {
            None
        } else {
            Some(
                IcmpHeader {
                    type_: b[0],
                    code: b[1],
                    checksum: host_u16(b, 2),
                    un: host_u32(b, 4),
                },
            )
        }
    }

    /// Reads the header at the start of `b`.
    pub fn from_bytes(b: &[u8]) -> (h: Option<IcmpHeader>)
        ensures
            h == IcmpHeader::spec_parse(b@),
    {
        if b.len() < 8 {
            return None;
        }
        Some(
            IcmpHeader {
                type_: b[0],
                code: b[1],
                checksum: read_u16(b, 2),
                un: read_u32(b, 4),
            },
        )
    }

    /// Reads the ICMP header of the packet in `skb`.
    pub fn from_skbuff(skb: &SocketBuffer) -> (h: Option<IcmpHeader>)
        ensures
            h == IcmpHeader::spec_parse(skb.transport()),
    {
        IcmpHeader::from_bytes(skb.transport_header())
    }
}

/// The bytes of a packet as the kernel hands it over, with the offset at
/// which its transport header starts.
pub struct SocketBuffer {
    data: Vec<u8>,
    transport_offset: usize,
}

impl SocketBuffer {
    /// The packet's bytes.
    pub closed spec fn data(&self) -> Seq<u8> {
        self.data@
    }

    /// The bytes from the transport header on; none if the offset lies past the end.
    pub closed spec fn transport(&self) -> Seq<u8> {
        if self.transport_offset <= self.data@.len() {
            self.data@.skip(self.transport_offset as int)
        } else {
            seq![]
        }
    }

    /// A buffer holding `data`, whose transport header starts at `transport_offset`.
    pub fn new(data: Vec<u8>, transport_offset: usize) -> (skb: SocketBuffer)
        ensures
            skb.data() == data@,
            skb.transport() == (if transport_offset <= data@.len() {
                data@.skip(transport_offset as int)
            } else {
                seq![]
            }),
    {
        SocketBuffer { data, transport_offset }
    }

    /// The bytes from the transport header on.
    pub fn transport_header(&self) -> (b: &[u8])
        ensures
            b@ == self.transport(),
    {
        if self.transport_offset <= self.data.len() {
            vstd::slice::slice_subrange(self.data.as_slice(), self.transport_offset, self.data.len())
        } else {
            vstd::slice::slice_subrange(self.data.as_slice(), 0, 0)
        }
    }
}

/// A header that knows how long its packet is.
pub trait PacketSize {
    spec fn spec_packet_size(&self) -> nat;

    spec fn spec_header_size(&self) -> nat;

    /// The length of the whole packet.
    fn packet_size(&self) -> (n: usize)
        ensures
            n == self.spec_packet_size(),
    ;

    /// The length of the header.
    fn header_size(&self) -> (n: usize)
        ensures
            n == self.spec_header_size(),
    ;

    /// The length of what follows the header.
    fn payload_size(&self) -> (n: usize)
        requires
            self.spec_header_size() <= self.spec_packet_size(),
        ensures
            n == self.spec_packet_size() - self.spec_header_size(),
    {
        self.packet_size() - self.header_size()
    }
}

impl PacketSize for IPv4Header {
    /// The total length field, in network order.
    open spec fn spec_packet_size(&self) -> nat {
        swap16(self.tot_len) as nat
    }

    /// Four bytes for each unit of the header length field.
    open spec fn spec_header_size(&self) -> nat {
        self.ihl as nat * 4
    }

    fn packet_size(&self) -> (n: usize) {
        u16_to_be(self.tot_len) as usize
    }

    fn header_size(&self) -> (n: usize) {
        self.ihl as usize * 4
    }
}

/// A header and the bytes that follow it.
pub struct NetPacket<'a, T> {
    pub header: T,
    pub payload: &'a [u8],
}

pub type IPv4Packet<'a> = NetPacket<'a, IPv4Header>;

pub type TcpPacket<'a> = NetPacket<'a, TcpHeader>;

pub type UdpPacket<'a> = NetPacket<'a, UdpHeader>;

impl<'a> NetPacket<'a, IPv4Header> {
    /// Splits an IPv4 packet into its header and what follows it.
    pub fn from_buf(buffer: &'a [u8]) -> (p: IPv4Packet<'a>)
        requires
            IPv4Header::spec_parse(buffer@) is Some,
            IPv4Header::spec_parse(buffer@).unwrap().spec_header_size() <= buffer@.len(),
        ensures
            p.header == IPv4Header::spec_parse(buffer@).unwrap(),
            p.payload@ == buffer@.skip(p.header.spec_header_size() as int),
    {
        let header = match IPv4Header::from_bytes(buffer) {
            Some(h) => h,
            None => vstd::pervasive::unreached(),
        };
        let header_size = header.header_size();
        NetPacket { header, payload: vstd::slice::slice_subrange(buffer, header_size, buffer.len()) }
    }
}

impl<'a> NetPacket<'a, TcpHeader> {
    /// The TCP segment inside an IPv4 packet, if the packet carries TCP.
    pub fn from_lower(ip_packet: &IPv4Packet<'a>) -> (p: Option<TcpPacket<'a>>)
        requires
            ip_packet.header.protocol == ip_protocol::TCP ==> {
                &&& TcpHeader::spec_parse(ip_packet.payload@) is Some
                &&& TcpHeader::spec_parse(ip_packet.payload@).unwrap().doff * 4
                    <= ip_packet.payload@.len()
            },
        ensures
            ip_packet.header.protocol == ip_protocol::TCP <==> p is Some,
            p matches Some(tp) ==> {
                &&& tp.header == TcpHeader::spec_parse(ip_packet.payload@).unwrap()
                &&& tp.payload@ == ip_packet.payload@.skip(tp.header.doff * 4)
            },
    {
        if ip_packet.header.protocol == ip_protocol::TCP {
            let header = match TcpHeader::from_bytes(ip_packet.payload) {
                Some(h) => h,
                None => vstd::pervasive::unreached(),
            };
            let data_offset = header.doff as usize * 4;
            Some(
                NetPacket {
                    header,
                    payload: vstd::slice::slice_subrange(
                        ip_packet.payload,
                        data_offset,
                        ip_packet.payload.len(),
                    ),
                },
            )
        } else {
            None
        }
    }
}

impl<'a> NetPacket<'a, UdpHeader> {
    /// The UDP datagram inside an IPv4 packet, if the packet carries UDP:
    /// its header at the start of the IPv4 payload, and what follows the
    /// header's eight bytes.
    pub fn from_lower(ip_packet: &IPv4Packet<'a>) -> (p: Option<UdpPacket<'a>>)
        requires
            ip_packet.header.protocol == ip_protocol::UDP ==> ip_packet.payload@.len() >= 8,
        ensures
            ip_packet.header.protocol == ip_protocol::UDP <==> p is Some,
            p matches Some(up) ==> {
                &&& up.header == UdpHeader::spec_parse(ip_packet.payload@).unwrap()
                &&& up.payload@ == ip_packet.payload@.skip(8)
            },
    {
        if ip_packet.header.protocol == ip_protocol::UDP {
            let header = match UdpHeader::from_bytes(ip_packet.payload) {
                Some(h) => h,
                None => vstd::pervasive::unreached(),
            };
            Some(
                NetPacket {
                    header,
                    payload: vstd::slice::slice_subrange(ip_packet.payload, 8, ip_packet.payload.len()),
                },
            )
        } else {
            None
        }
    }
}

/// A two-byte field is its first byte plus 256 times its second.
proof fn lemma_u16_field(b: Seq<u8>, start: int)
    requires
        0 <= start,
        start + 2 <= b.len(),
    ensures
        host_u16(b, start) == b[start] + 256 * b[start + 1],
{
    let s = b.subrange(start, start + 2);
    reveal_with_fuel(crate::packet::codec::le_value, 3);
    assert(s.drop_first().drop_first().len() == 0);
    assert(s[0] == b[start] && s[1] == b[start + 1]);
    assert(s.drop_first()[0] == b[start + 1]);
}

/// A four-byte field holds its bytes least significant first.
proof fn lemma_u32_field(b: Seq<u8>, start: int)
    requires
        0 <= start,
        start + 4 <= b.len(),
    ensures
        host_u32(b, start) == b[start] + 256 * b[start + 1] + 65536 * b[start + 2] + 16777216 * b[start + 3],
{
    let s = b.subrange(start, start + 4);
    reveal_with_fuel(crate::packet::codec::le_value, 5);
    let s1 = s.drop_first();
    let s2 = s1.drop_first();
    let s3 = s2.drop_first();
    assert(s3.drop_first().len() == 0);
    assert(s[0] == b[start]);
    assert(s1[0] == b[start + 1]);
    assert(s2[0] == b[start + 2]);
    assert(s3[0] == b[start + 3]);
}

/// Each header is read from the fixed places of its layout, every
/// multi-byte field as a little-endian host reads it, least significant
/// byte first: an IPv4 header takes its version and header length from
/// byte 0, its total length from bytes 2 and 3, its protocol from byte 9,
/// its source address from bytes 12 to 15 and its destination address
/// from bytes 16 to 19; a TCP or UDP header its source port from bytes 0
/// and 1 and its destination port from bytes 2 and 3 (TCP its flags from
/// byte 13, UDP its length from bytes 4 and 5); an ICMP header its type
/// from byte 0 and its code from byte 1.
pub proof fn lemma_header_layout(b: Seq<u8>)
    ensures
        b.len() >= 20 ==> (IPv4Header::spec_parse(b) matches Some(h) && {
            &&& h.version == b[0] / 16
            &&& h.ihl == b[0] % 16
            &&& h.tot_len == b[2] + 256 * b[3]
            &&& h.protocol == b[9]
            &&& h.saddr == b[12] + 256 * b[13] + 65536 * b[14] + 16777216 * b[15]
            &&& h.daddr == b[16] + 256 * b[17] + 65536 * b[18] + 16777216 * b[19]
        }),
        b.len() >= 20 ==> (TcpHeader::spec_parse(b) matches Some(t) && {
            &&& t.source == b[0] + 256 * b[1]
            &&& t.dest == b[2] + 256 * b[3]
            &&& t.flags == b[13]
        }),
        b.len() >= 8 ==> (UdpHeader::spec_parse(b) matches Some(u) && {
            &&& u.source == b[0] + 256 * b[1]
            &&& u.dest == b[2] + 256 * b[3]
            &&& u.len == b[4] + 256 * b[5]
        }),
        b.len() >= 8 ==> (IcmpHeader::spec_parse(b) matches Some(m) && m.type_ == b[0] && m.code == b[1]),
        b.len() < 20 ==> IPv4Header::spec_parse(b) is None && TcpHeader::spec_parse(b) is None,
        b.len() < 8 ==> UdpHeader::spec_parse(b) is None && IcmpHeader::spec_parse(b) is None,
{
    if b.len() >= 8 {
        lemma_u16_field(b, 0);
        lemma_u16_field(b, 2);
        lemma_u16_field(b, 4);
    }
    if b.len() >= 20 {
        lemma_u16_field(b, 2);
        lemma_u32_field(b, 12);
        lemma_u32_field(b, 16);
    }
}

} // verus!
