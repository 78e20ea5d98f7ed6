//! Connection tracking: the sessions that the firewall has let through,
//! so that the rest of their traffic passes without the rules.

use vstd::prelude::*;
use crate::net::{IPv4Header, TcpHeader, UdpHeader, IcmpHeader};

verus! {

/// One end of a TCP or UDP session.
#[derive(Debug, Eq, PartialEq, Structural, Clone, Copy)]
pub struct Endpoint {
    pub ip: u32,
    pub port: u16,
}

impl Endpoint {
    /// The key under which a session from this endpoint is stored.
    pub open spec fn key(self) -> u64 {
        (self.ip * 65536 + self.port) as u64
    }

    fn key_of(&self) -> (k: u64)
        ensures
            k == self.key(),
    {
        (self.ip as u64) * 65536 + self.port as u64
    }
}

/// Different endpoints have different keys.
pub proof fn lemma_key_injective(a: Endpoint, b: Endpoint)
    ensures
        a.key() == b.key() ==> a == b,
{
    assert(a.key() == b.key() ==> a.ip == b.ip && a.port == b.port) by (nonlinear_arith);
}

/// A TCP session: who opened it, to whom, and since when.
#[derive(Clone, Copy)]
pub struct TcpSession {
    pub src: Endpoint,
    pub dst: Endpoint,
    pub time: u64,
}

pub type UdpSession = TcpSession;

/// An ICMP echo session between two addresses.
#[derive(Clone, Copy)]
pub struct IcmpSession {
    pub src: u32,
    pub dst: u32,
    pub time: u64,
}

/// A hash map from session keys to TCP or UDP sessions.
#[verifier::external_body]
pub struct SessionTable {
    map: hashbrown::HashMap<u64, TcpSession>,
}

/// The sessions held in a table, by key.
pub uninterp spec fn session_table_contents(table: SessionTable) -> Map<u64, TcpSession>;

impl SessionTable {
    /// An empty table: `hashbrown::HashMap::new` holds nothing.
    #[verifier::external_body]
    fn new() -> (table: SessionTable)
        ensures
            session_table_contents(table).dom().is_empty(),
    {
        SessionTable { map: hashbrown::HashMap::new() }
    }

    /// `hashbrown::HashMap::insert`: maps `key` to `session`, replacing and
    /// returning what it mapped to before.
    #[verifier::external_body]
    fn insert(&mut self, key: u64, session: TcpSession) -> (old_session: Option<TcpSession>)
        ensures
            session_table_contents(*final(self)) == session_table_contents(*old(self)).insert(key, session),
            old_session == (if session_table_contents(*old(self)).contains_key(key) {
                Some(session_table_contents(*old(self))[key])
            } else {
                None
            }),
    {
        self.map.insert(key, session)
    }

    /// `hashbrown::HashMap::get`: what `key` maps to, copied out.
    #[verifier::external_body]
    fn get(&self, key: u64) -> (session: Option<TcpSession>)
        ensures
            session == (if session_table_contents(*self).contains_key(key) {
                Some(session_table_contents(*self)[key])
            } else {
                None
            }),
    {
        self.map.get(&key).copied()
    }

    /// `hashbrown::HashMap::remove`: unmaps `key` and returns what it mapped to.
    #[verifier::external_body]
    fn remove(&mut self, key: u64) -> (removed: Option<TcpSession>)
        ensures
            session_table_contents(*final(self)) == session_table_contents(*old(self)).remove(key),
            removed == (if session_table_contents(*old(self)).contains_key(key) {
                Some(session_table_contents(*old(self))[key])
            } else {
                None
            }),
    {
        self.map.remove(&key)
    }
}

/// A hash map from address pairs to ICMP echo sessions.
#[verifier::external_body]
pub struct EchoTable {
    map: hashbrown::HashMap<u64, IcmpSession>,
}

/// The sessions held in an echo table, by the key of their address pair.
pub uninterp spec fn echo_table_contents(table: EchoTable) -> Map<u64, IcmpSession>;

impl EchoTable {
    /// An empty table: `hashbrown::HashMap::new` holds nothing.
    #[verifier::external_body]
    fn new() -> (table: EchoTable)
        ensures
            echo_table_contents(table).dom().is_empty(),
    {
        EchoTable { map: hashbrown::HashMap::new() }
    }

    /// `hashbrown::HashMap::insert`: maps `key` to `session`, replacing and
    /// returning what it mapped to before.
    #[verifier::external_body]
    fn insert(&mut self, key: u64, session: IcmpSession) -> (old_session: Option<IcmpSession>)
        ensures
            echo_table_contents(*final(self)) == echo_table_contents(*old(self)).insert(key, session),
            old_session == (if echo_table_contents(*old(self)).contains_key(key) {
                Some(echo_table_contents(*old(self))[key])
            } else {
                None
            }),
    {
        self.map.insert(key, session)
    }

    /// `hashbrown::HashMap::get`: what `key` maps to, copied out.
    #[verifier::external_body]
    fn get(&self, key: u64) -> (session: Option<IcmpSession>)
        ensures
            session == (if echo_table_contents(*self).contains_key(key) {
                Some(echo_table_contents(*self)[key])
            } else {
                None
            }),
    {
        self.map.get(&key).copied()
    }
}

/// The session, in `sessions`, of traffic from `src` to `dst`: the session
/// that `src` opened, if it went to `dst`; failing any session opened by
/// `src`, the one that `dst` opened, if it went to `src`.
pub open spec fn find_session(sessions: Map<u64, TcpSession>, src: Endpoint, dst: Endpoint) -> Option<TcpSession> {
    if sessions.contains_key(src.key()) {
        if sessions[src.key()].dst == dst {
            Some(sessions[src.key()])
        } else {
            None
        }
    } else if sessions.contains_key(dst.key()) {
        if sessions[dst.key()].dst == src {
            Some(sessions[dst.key()])
        } else {
            None
        }
    } else {
        None
    }
}

/// The key under which the echo session from `src` to `dst` is stored:
/// both addresses, the source in the high half.
pub open spec fn echo_key(src: u32, dst: u32) -> u64 {
    (src * 4294967296 + dst) as u64
}

fn echo_key_of(src: u32, dst: u32) -> (k: u64)
    ensures
        k == echo_key(src, dst),
{
    (src as u64) * 4294967296 + dst as u64
}

/// Different address pairs have different keys.
pub proof fn lemma_echo_key_injective(a: u32, b: u32, c: u32, d: u32)
    ensures
        echo_key(a, b) == echo_key(c, d) ==> a == c && b == d,
{
    assert(echo_key(a, b) == echo_key(c, d) ==> a == c && b == d) by (nonlinear_arith);
}

/// The echo session, in `sessions`, of ICMP traffic from `src` to `dst`:
/// the one that `src` opened to `dst`, else the one that `dst` opened to
/// `src`.
pub open spec fn find_echo_session(sessions: Map<u64, IcmpSession>, src: u32, dst: u32) -> Option<IcmpSession> {
    if sessions.contains_key(echo_key(src, dst)) {
        Some(sessions[echo_key(src, dst)])
    } else if sessions.contains_key(echo_key(dst, src)) {
        Some(sessions[echo_key(dst, src)])
    } else {
        None
    }
}

/// The session that traffic from `src` to `dst` opens.
pub open spec fn new_session(src: Endpoint, dst: Endpoint) -> TcpSession {
    TcpSession { src, dst, time: 0 }
}

/// The sessions the firewall tracks.
pub struct ConnectionStateView {
    pub tcp: Map<u64, TcpSession>,
    pub udp: Map<u64, TcpSession>,
    pub echo: Map<u64, IcmpSession>,
}

impl ConnectionStateView {
    /// Whether TCP traffic from `src` to `dst` belongs to a tracked session.
    pub open spec fn tracks_tcp(self, src: Endpoint, dst: Endpoint) -> bool {
        find_session(self.tcp, src, dst) is Some
    }

    /// Whether UDP traffic from `src` to `dst` belongs to a tracked session.
    pub open spec fn tracks_udp(self, src: Endpoint, dst: Endpoint) -> bool {
        find_session(self.udp, src, dst) is Some
    }

    /// Whether ICMP traffic from `src` to `dst` belongs to a tracked session.
    pub open spec fn tracks_echo(self, src: u32, dst: u32) -> bool {
        find_echo_session(self.echo, src, dst) is Some
    }

    /// The state after a TCP session from `src` to `dst` is opened.
    pub open spec fn open_tcp(self, src: Endpoint, dst: Endpoint) -> ConnectionStateView {
        ConnectionStateView { tcp: self.tcp.insert(src.key(), new_session(src, dst)), ..self }
    }

    /// The state after a UDP session from `src` to `dst` is opened.
    pub open spec fn open_udp(self, src: Endpoint, dst: Endpoint) -> ConnectionStateView {
        ConnectionStateView { udp: self.udp.insert(src.key(), new_session(src, dst)), ..self }
    }

    /// The state after an echo session from `src` to `dst` is opened.
    pub open spec fn open_echo(self, src: u32, dst: u32) -> ConnectionStateView {
        ConnectionStateView {
            echo: self.echo.insert(echo_key(src, dst), IcmpSession { src, dst, time: 0 }),
            ..self
        }
    }

    /// The state after the TCP session of traffic from `src` to `dst`, if
    /// any, is closed.
    pub open spec fn close_tcp(self, src: Endpoint, dst: Endpoint) -> ConnectionStateView {
        match find_session(self.tcp, src, dst) {
            Some(session) => ConnectionStateView { tcp: self.tcp.remove(session.src.key()), ..self },
            None => self,
        }
    }
}

/// The source endpoint of an IPv4 packet with a transport port.
pub open spec fn source_of(ip: IPv4Header, port: u16) -> Endpoint {
    Endpoint { ip: ip.saddr, port }
}

/// The destination endpoint of an IPv4 packet with a transport port.
pub open spec fn dest_of(ip: IPv4Header, port: u16) -> Endpoint {
    Endpoint { ip: ip.daddr, port }
}

/// The sessions the firewall tracks, by protocol.
pub struct ConnectionState {
    tcp_sessions: SessionTable,
    udp_sessions: SessionTable,
    icmp_sessions: EchoTable,
}

impl View for ConnectionState {
    type V = ConnectionStateView;

    closed spec fn view(&self) -> ConnectionStateView {
        ConnectionStateView {
            tcp: session_table_contents(self.tcp_sessions),
            udp: session_table_contents(self.udp_sessions),
            echo: echo_table_contents(self.icmp_sessions),
        }
    }
}

impl ConnectionState {
    /// No sessions.
    pub fn new() -> (s: ConnectionState)
        ensures
            s@.tcp == Map::<u64, TcpSession>::empty(),
            s@.udp == Map::<u64, TcpSession>::empty(),
            s@.echo == Map::<u64, IcmpSession>::empty(),
    {
        let s = ConnectionState {
            tcp_sessions: SessionTable::new(),
            udp_sessions: SessionTable::new(),
            icmp_sessions: EchoTable::new(),
        };
        assert(s@.tcp =~= Map::<u64, TcpSession>::empty());
        assert(s@.udp =~= Map::<u64, TcpSession>::empty());
        assert(s@.echo =~= Map::<u64, IcmpSession>::empty());
        s
    }

    fn find(table: &SessionTable, src: Endpoint, dst: Endpoint) -> (session: Option<TcpSession>)
        ensures
            session == find_session(session_table_contents(*table), src, dst),
    {
        if let Some(session) = table.get(src.key_of()) {
            if session.dst == dst {
                return Some(session);
            }
        } else if let Some(session) = table.get(dst.key_of()) {
            if session.dst == src {
                return Some(session);
            }
        }
        None
    }

    /// Opens the TCP session of this segment's source and destination.
    pub fn establish_tcp(&mut self, ip: &IPv4Header, tcp: &TcpHeader)
        ensures
            final(self)@ == old(self)@.open_tcp(source_of(*ip, tcp.source), dest_of(*ip, tcp.dest)),
    {
        let src = Endpoint { ip: ip.saddr, port: tcp.source };
        let dst = Endpoint { ip: ip.daddr, port: tcp.dest };
        let session = TcpSession { src, dst, time: 0 };
        self.tcp_sessions.insert(src.key_of(), session);
    }

    /// Closes the TCP session this segment belongs to, if any.
    pub fn close_tcp(&mut self, ip: &IPv4Header, tcp: &TcpHeader)
        ensures
            final(self)@ == old(self)@.close_tcp(source_of(*ip, tcp.source), dest_of(*ip, tcp.dest)),
    {
        let src = if let Some(session) = self.get_tcp_session(ip, tcp) {
            Some(session.src)
        } else {
            None
        };
        if let Some(src) = src {
            self.tcp_sessions.remove(src.key_of());
        }
    }

    fn get_tcp_session(&self, ip: &IPv4Header, tcp: &TcpHeader) -> (session: Option<TcpSession>)
        ensures
            session == find_session(self@.tcp, source_of(*ip, tcp.source), dest_of(*ip, tcp.dest)),
    {
        let src = Endpoint { ip: ip.saddr, port: tcp.source };
        let dst = Endpoint { ip: ip.daddr, port: tcp.dest };
        Self::find(&self.tcp_sessions, src, dst)
    }

    /// Whether this segment belongs to a tracked TCP session.
    pub fn check_tcp(&self, iphdr: &IPv4Header, tcphdr: &TcpHeader) -> (known: bool)
        ensures
            known == self@.tracks_tcp(source_of(*iphdr, tcphdr.source), dest_of(*iphdr, tcphdr.dest)),
    {
        if let Some(_) = self.get_tcp_session(iphdr, tcphdr) {
            true
        } else {
            false
        }
    }

    /// Opens the UDP session of this datagram's source and destination.
    pub fn establish_udp(&mut self, iphdr: &IPv4Header, udphdr: &UdpHeader)
        ensures
            final(self)@ == old(self)@.open_udp(source_of(*iphdr, udphdr.source), dest_of(*iphdr, udphdr.dest)),
    {
        let src = Endpoint { ip: iphdr.saddr, port: udphdr.source };
        let dst = Endpoint { ip: iphdr.daddr, port: udphdr.dest };
        let session = UdpSession { src, dst, time: 0 };
        self.udp_sessions.insert(src.key_of(), session);
    }

    fn get_udp_session(&self, iphdr: &IPv4Header, udphdr: &UdpHeader) -> (session: Option<UdpSession>)
        ensures
            session == find_session(self@.udp, source_of(*iphdr, udphdr.source), dest_of(*iphdr, udphdr.dest)),
    {
        let src = Endpoint { ip: iphdr.saddr, port: udphdr.source };
        let dst = Endpoint { ip: iphdr.daddr, port: udphdr.dest };
        Self::find(&self.udp_sessions, src, dst)
    }

    /// Whether this datagram belongs to a tracked UDP session.
    pub fn check_udp(&self, iphdr: &IPv4Header, udphdr: &UdpHeader) -> (known: bool)
        ensures
            known == self@.tracks_udp(source_of(*iphdr, udphdr.source), dest_of(*iphdr, udphdr.dest)),
    {
        match self.get_udp_session(iphdr, udphdr) {
            Some(_) => true,
            _ => false,
        }
    }

    /// Opens the echo session of this message's source and destination.
    pub fn establish_icmp(&mut self, iphdr: &IPv4Header, icmphdr: &IcmpHeader)
        ensures
            final(self)@ == old(self)@.open_echo(iphdr.saddr, iphdr.daddr),
    {
        let session = IcmpSession { src: iphdr.saddr, dst: iphdr.daddr, time: 0 };
        let key = echo_key_of(iphdr.saddr, iphdr.daddr);
        self.icmp_sessions.insert(key, session);
    }

    fn get_icmp_session(&self, iphdr: &IPv4Header, icmphdr: &IcmpHeader) -> (session: Option<IcmpSession>)
        ensures
            session == find_echo_session(self@.echo, iphdr.saddr, iphdr.daddr),
    {
        let forward = echo_key_of(iphdr.saddr, iphdr.daddr);
        let backward = echo_key_of(iphdr.daddr, iphdr.saddr);
        if let Some(session) = self.icmp_sessions.get(forward) {
            Some(session)
        } else {
            self.icmp_sessions.get(backward)
        }
    }

    /// Whether this message belongs to a tracked echo session.
    pub fn check_icmp(&self, iphdr: &IPv4Header, icmphdr: &IcmpHeader) -> (known: bool)
        ensures
            known == self@.tracks_echo(iphdr.saddr, iphdr.daddr),
    {
        self.get_icmp_session(iphdr, icmphdr).is_some()
    }
}

/// Once a TCP session from `src` to `dst` is opened, traffic from `src` to
/// `dst` is tracked, and so is the reply from `dst` to `src` unless `dst`
/// had a session of its own.
pub proof fn lemma_open_tcp_tracks(state: ConnectionStateView, src: Endpoint, dst: Endpoint)
    ensures
        state.open_tcp(src, dst).tracks_tcp(src, dst),
        !state.tcp.contains_key(dst.key()) ==> state.open_tcp(src, dst).tracks_tcp(dst, src),
{
    lemma_key_injective(src, dst);
}

/// Once a UDP session from `src` to `dst` is opened, traffic from `src` to
/// `dst` is tracked, and so is the reply from `dst` to `src` unless `dst`
/// had a session of its own.
pub proof fn lemma_open_udp_tracks(state: ConnectionStateView, src: Endpoint, dst: Endpoint)
    ensures
        state.open_udp(src, dst).tracks_udp(src, dst),
        !state.udp.contains_key(dst.key()) ==> state.open_udp(src, dst).tracks_udp(dst, src),
{
    lemma_key_injective(src, dst);
}

/// Once an echo session from `src` to `dst` is opened, messages from `src`
/// to `dst` are tracked, and so are replies from `dst` to `src`; echo
/// sessions between other address pairs stay as they were.
pub proof fn lemma_open_echo_tracks(state: ConnectionStateView, src: u32, dst: u32)
    ensures
        state.open_echo(src, dst).tracks_echo(src, dst),
        state.open_echo(src, dst).tracks_echo(dst, src),
        forall|a: u32, b: u32|
            state.tracks_echo(a, b) ==> #[trigger] state.open_echo(src, dst).tracks_echo(a, b),
{
}

/// Closing a TCP session just opened from an endpoint that had none
/// restores the sessions as they were.
pub proof fn lemma_close_undoes_open(state: ConnectionStateView, src: Endpoint, dst: Endpoint)
    requires
        !state.tcp.contains_key(src.key()),
    ensures
        state.open_tcp(src, dst).close_tcp(src, dst) == state,
{
    let opened = state.open_tcp(src, dst);
    assert(opened.tcp.remove(src.key()) =~= state.tcp);
}

impl ConnectionStateView {
    /// Whether every TCP session is stored under the key of the endpoint
    /// that opened it, as opening a session stores it.
    pub open spec fn keyed_by_source(self) -> bool {
        forall|k: u64| self.tcp.contains_key(k) ==> (#[trigger] self.tcp[k]).src.key() == k
    }

    /// Whether two different endpoints each hold a TCP session opened to
    /// the other.
    pub open spec fn mutual_tcp(self, a: Endpoint, b: Endpoint) -> bool {
        &&& a != b
        &&& self.tcp.contains_key(a.key())
        &&& self.tcp.contains_key(b.key())
        &&& self.tcp[a.key()].dst == b
        &&& self.tcp[b.key()].dst == a
    }
}

/// TCP sessions are stored under their opener's key: with no sessions, and
/// after any session is opened or closed.
pub proof fn lemma_sessions_keyed_by_source(state: ConnectionStateView, src: Endpoint, dst: Endpoint)
    ensures
        (ConnectionStateView {
            tcp: Map::<u64, TcpSession>::empty(),
            udp: Map::<u64, TcpSession>::empty(),
            echo: Map::<u64, IcmpSession>::empty(),
        }).keyed_by_source(),
        state.keyed_by_source() ==> state.open_tcp(src, dst).keyed_by_source(),
        state.keyed_by_source() ==> state.close_tcp(src, dst).keyed_by_source(),
{
}

/// Closing a tracked TCP connection, from either end, leaves it tracked in
/// neither direction, unless its two endpoints had each opened a session
/// to the other; closing a connection that is not tracked changes nothing.
/// UDP and echo sessions are never touched.
pub proof fn lemma_close_untracks(state: ConnectionStateView, a: Endpoint, b: Endpoint)
    requires
        state.keyed_by_source(),
        !state.mutual_tcp(a, b),
    ensures
        state.tracks_tcp(a, b) ==> !state.close_tcp(a, b).tracks_tcp(a, b),
        state.tracks_tcp(a, b) ==> !state.close_tcp(a, b).tracks_tcp(b, a),
        !state.tracks_tcp(a, b) ==> state.close_tcp(a, b) == state,
        state.close_tcp(a, b).udp == state.udp,
        state.close_tcp(a, b).echo == state.echo,
{
    lemma_key_injective(a, b);
    let m = state.tcp;
    if m.contains_key(a.key()) {
        assert(m[a.key()].src.key() == a.key());
    } else if m.contains_key(b.key()) {
        assert(m[b.key()].src.key() == b.key());
    }
}

} // verus!
