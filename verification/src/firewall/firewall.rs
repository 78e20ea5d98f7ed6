//! The decisions the firewall takes on each packet, and the handling of
//! the rule messages that clients send.

use vstd::prelude::*;
use crate::net::{
    IPv4Header, TcpHeader, UdpHeader, IcmpHeader, SocketBuffer, ip_protocol, icmp_code, lemma_header_layout,
};
use crate::netfilter::HookResponse;
use crate::netlink::NetlinkMsgRaw;
use crate::packet::deserialize::{deserialize, Deserialize, view_seq};
use crate::packet::packets::{FirewallMessage, FirewallMessageView, FirewallAction, FirewallRule};
use super::rule::{
    FirewallRules, FirewallRulesView, GeneralFirewallRule, Endpoint, RuleAction, listed_form, lemma_add_lists_rule,
};
use super::state::{
    ConnectionState, ConnectionStateView, source_of, dest_of, lemma_key_injective, lemma_open_tcp_tracks,
    lemma_open_udp_tracks, lemma_open_echo_tracks,
};
use crate::packet::serialize::{Serialize, write_at};
use crate::packet::packets::lemma_message_survives_buffer;

verus! {

/// The firewall's rules and the sessions it tracks.
pub struct Firewall {
    state: ConnectionState,
    rules: FirewallRules,
}

/// The contents of a [`Firewall`].
pub struct FirewallView {
    pub state: ConnectionStateView,
    pub rules: FirewallRulesView,
}

impl View for Firewall {
    type V = FirewallView;

    closed spec fn view(&self) -> FirewallView {
        FirewallView { state: self.state@, rules: self.rules@ }
    }
}

/// A packet on its way in or out.
pub enum Packet<T> {
    Input(T),
    Output(T),
}

impl<T> Packet<T> {
    /// The packet, whichever way it goes.
    pub open spec fn spec_unwrap(self) -> T {
        match self {
            Packet::Input(packet) => packet,
            Packet::Output(packet) => packet,
        }
    }

    /// The packet, whichever way it goes.
    pub fn unwrap(self) -> (packet: T)
        ensures
            packet == self.spec_unwrap(),
    {
        match self {
            Packet::Input(packet) => packet,
            Packet::Output(packet) => packet,
        }
    }
}

/// The verdict on a TCP segment and the sessions afterwards: a segment of a
/// tracked session passes; a SYN that the rules permit passes and opens its
/// session; anything else is dropped.
pub open spec fn tcp_outcome(
    state: ConnectionStateView,
    rules: FirewallRulesView,
    ip: IPv4Header,
    tcp: TcpHeader,
) -> (HookResponse, ConnectionStateView) {
    let src = source_of(ip, tcp.source);
    let dst = dest_of(ip, tcp.dest);
    if state.tracks_tcp(src, dst) {
        (HookResponse::Accept, state)
    } else if tcp.spec_syn() == 1 {
        if rules.permits_tcp(ip.saddr, ip.daddr, tcp.source, tcp.dest) {
            (HookResponse::Accept, state.open_tcp(src, dst))
        } else {
            (HookResponse::Drop, state)
        }
    } else {
        (HookResponse::Drop, state)
    }
}

/// The verdict on a UDP datagram and the sessions afterwards: a datagram of
/// a tracked session passes; one that the rules permit passes and opens
/// its session; anything else is dropped.
pub open spec fn udp_outcome(
    state: ConnectionStateView,
    rules: FirewallRulesView,
    ip: IPv4Header,
    udp: UdpHeader,
) -> (HookResponse, ConnectionStateView) {
    let src = source_of(ip, udp.source);
    let dst = dest_of(ip, udp.dest);
    if state.tracks_udp(src, dst) {
        (HookResponse::Accept, state)
    } else if rules.permits_udp(ip.saddr, ip.daddr, udp.source, udp.dest) {
        (HookResponse::Accept, state.open_udp(src, dst))
    } else {
        (HookResponse::Drop, state)
    }
}

/// The verdict on an ICMP message and the sessions afterwards: a message of
/// a tracked session passes; an echo request that the rules permit passes
/// and opens its session, one they do not is dropped; an untracked echo
/// reply is dropped; any other ICMP message passes.
pub open spec fn echo_outcome(
    state: ConnectionStateView,
    rules: FirewallRulesView,
    ip: IPv4Header,
    message_type: u8,
) -> (HookResponse, ConnectionStateView) {
    if state.tracks_echo(ip.saddr, ip.daddr) {
        (HookResponse::Accept, state)
    } else if message_type == icmp_code::ICMP_ECHO {
        if rules.permits_icmp(ip.saddr, ip.daddr) {
            (HookResponse::Accept, state.open_echo(ip.saddr, ip.daddr))
        } else {
            (HookResponse::Drop, state)
        }
    } else if message_type == icmp_code::ICMP_ECHOREPLY {
        (HookResponse::Drop, state)
    } else {
        (HookResponse::Accept, state)
    }
}

/// A packet that the firewall decides on.
pub trait PacketHandler {
    /// The verdict on the packet and the sessions afterwards.
    spec fn spec_outcome(&self, state: ConnectionStateView, rules: FirewallRulesView) -> (
        HookResponse,
        ConnectionStateView,
    );

    fn handle(self, firewall: &mut Firewall) -> (r: HookResponse)
        ensures
            (r, final(firewall)@.state) == self.spec_outcome(old(firewall)@.state, old(firewall)@.rules),
            final(firewall)@.rules == old(firewall)@.rules,
    ;
}

impl<'a> PacketHandler for Packet<(&'a IPv4Header, &'a TcpHeader)> {
    open spec fn spec_outcome(&self, state: ConnectionStateView, rules: FirewallRulesView) -> (
        HookResponse,
        ConnectionStateView,
    ) {
        let (ip, tcp) = self.spec_unwrap();
        tcp_outcome(state, rules, *ip, *tcp)
    }

    fn handle(self, firewall: &mut Firewall) -> (r: HookResponse) {
        let (ip, tcp) = self.unwrap();
        if firewall.state.check_tcp(ip, tcp) {
            HookResponse::Accept
        } else if tcp.syn() == 1 {
            if firewall.rules.permit_tcp(ip, tcp) {
                firewall.state.establish_tcp(ip, tcp);
                HookResponse::Accept
            } else {
                HookResponse::Drop
            }
        } else {
            HookResponse::Drop
        }
    }
}

impl<'a> PacketHandler for Packet<(&'a IPv4Header, &'a UdpHeader)> {
    open spec fn spec_outcome(&self, state: ConnectionStateView, rules: FirewallRulesView) -> (
        HookResponse,
        ConnectionStateView,
    ) {
        let (ip, udp) = self.spec_unwrap();
        udp_outcome(state, rules, *ip, *udp)
    }

    fn handle(self, firewall: &mut Firewall) -> (r: HookResponse) {
        let (iphdr, udphdr) = self.unwrap();
        if firewall.state.check_udp(iphdr, udphdr) {
            HookResponse::Accept
        } else if firewall.rules.permit_udp(iphdr, udphdr) {
            firewall.state.establish_udp(iphdr, udphdr);
            HookResponse::Accept
        } else {
            HookResponse::Drop
        }
    }
}

impl<'a> PacketHandler for Packet<(&'a IPv4Header, &'a IcmpHeader)> {
    open spec fn spec_outcome(&self, state: ConnectionStateView, rules: FirewallRulesView) -> (
        HookResponse,
        ConnectionStateView,
    ) {
        let (ip, message) = self.spec_unwrap();
        echo_outcome(state, rules, *ip, message.type_)
    }

    fn handle(self, firewall: &mut Firewall) -> (r: HookResponse) {
        let (iphdr, icmphdr) = self.unwrap();
        if firewall.state.check_icmp(iphdr, icmphdr) {
            HookResponse::Accept
        } else if icmphdr.type_ == icmp_code::ICMP_ECHO {
            if firewall.rules.permit_icmp(iphdr, icmphdr) {
                firewall.state.establish_icmp(iphdr, icmphdr);
                HookResponse::Accept
            } else {
                HookResponse::Drop
            }
        } else if icmphdr.type_ == icmp_code::ICMP_ECHOREPLY {
            HookResponse::Drop
        } else {
            HookResponse::Accept
        }
    }
}

/// Whether the transport header of `skb` can be read for a packet of
/// `protocol`.
pub open spec fn transport_readable(protocol: u8, skb: &SocketBuffer) -> bool {
    &&& protocol == ip_protocol::TCP ==> TcpHeader::spec_parse(skb.transport()) is Some
    &&& protocol == ip_protocol::UDP ==> UdpHeader::spec_parse(skb.transport()) is Some
    &&& protocol == ip_protocol::ICMP ==> IcmpHeader::spec_parse(skb.transport()) is Some
}

/// The verdict on a packet and the sessions afterwards: TCP, UDP and ICMP
/// packets as their outcomes say, any other protocol passes untouched.
pub open spec fn packet_outcome(
    state: ConnectionStateView,
    rules: FirewallRulesView,
    ip: IPv4Header,
    transport: Seq<u8>,
) -> (HookResponse, ConnectionStateView) {
    if ip.protocol == ip_protocol::TCP {
        tcp_outcome(state, rules, ip, TcpHeader::spec_parse(transport).unwrap())
    } else if ip.protocol == ip_protocol::UDP {
        udp_outcome(state, rules, ip, UdpHeader::spec_parse(transport).unwrap())
    } else if ip.protocol == ip_protocol::ICMP {
        echo_outcome(state, rules, ip, IcmpHeader::spec_parse(transport).unwrap().type_)
    } else {
        (HookResponse::Accept, state)
    }
}

impl Firewall {
    /// A firewall with no rules, permitting everything, and no sessions.
    pub fn new() -> (firewall: Firewall)
        ensures
            firewall@.rules.tcp.len() == 0,
            firewall@.rules.udp.len() == 0,
            firewall@.rules.icmp.len() == 0,
            firewall@.rules.tcp_default == RuleAction::Permit,
            firewall@.rules.udp_default == RuleAction::Permit,
            firewall@.rules.icmp_default == RuleAction::Permit,
            firewall@.state.tcp.dom().is_empty(),
            firewall@.state.udp.dom().is_empty(),
            firewall@.state.echo.dom().is_empty(),
    {
        Firewall { state: ConnectionState::new(), rules: FirewallRules::new() }
    }

    fn decide(&mut self, ip_header: &IPv4Header, skb: &SocketBuffer, outgoing: bool) -> (r: HookResponse)
        requires
            transport_readable(ip_header.protocol, skb),
        ensures
            (r, final(self)@.state) == packet_outcome(old(self)@.state, old(self)@.rules, *ip_header, skb.transport()),
            final(self)@.rules == old(self)@.rules,
    {
        if ip_header.protocol == ip_protocol::TCP {
            let tcp_header = match TcpHeader::from_skbuff(skb) {
                Some(h) => h,
                None => vstd::pervasive::unreached(),
            };
            if outgoing {
                Packet::Output((ip_header, &tcp_header)).handle(self)
            } else {
                Packet::Input((ip_header, &tcp_header)).handle(self)
            }
        } else if ip_header.protocol == ip_protocol::UDP {
            let udp_header = match UdpHeader::from_skbuff(skb) {
                Some(h) => h,
                None => vstd::pervasive::unreached(),
            };
            if outgoing {
                Packet::Output((ip_header, &udp_header)).handle(self)
            } else {
                Packet::Input((ip_header, &udp_header)).handle(self)
            }
        } else if ip_header.protocol == ip_protocol::ICMP {
            let icmp_header = match IcmpHeader::from_skbuff(skb) {
                Some(h) => h,
                None => vstd::pervasive::unreached(),
            };
            if outgoing {
                Packet::Output((ip_header, &icmp_header)).handle(self)
            } else {
                Packet::Input((ip_header, &icmp_header)).handle(self)
            }
        } else {
            HookResponse::Accept
        }
    }
}

/// A firewall with no rules, permitting everything, and no sessions.
pub fn init_firewall() -> (firewall: Firewall)
    ensures
        firewall@.rules.tcp.len() == 0,
        firewall@.rules.udp.len() == 0,
        firewall@.rules.icmp.len() == 0,
        firewall@.rules.tcp_default == RuleAction::Permit,
        firewall@.rules.udp_default == RuleAction::Permit,
        firewall@.rules.icmp_default == RuleAction::Permit,
        firewall@.state.tcp.dom().is_empty(),
        firewall@.state.udp.dom().is_empty(),
        firewall@.state.echo.dom().is_empty(),
{
    Firewall::new()
}

/// Decides on an incoming packet.
pub fn packet_input(firewall: &mut Firewall, ip_header: &IPv4Header, skb: &SocketBuffer) -> (r: HookResponse)
    requires
        transport_readable(ip_header.protocol, skb),
    ensures
        (r, final(firewall)@.state) == packet_outcome(
            old(firewall)@.state,
            old(firewall)@.rules,
            *ip_header,
            skb.transport(),
        ),
        final(firewall)@.rules == old(firewall)@.rules,
{
    firewall.decide(ip_header, skb, false)
}

/// Decides on an outgoing packet: the verdict and the sessions afterwards
/// are those that [`packet_input`] gives on the same packet, since neither
/// the rules nor the sessions depend on a packet's direction.
pub fn packet_output(firewall: &mut Firewall, ip_header: &IPv4Header, skb: &SocketBuffer) -> (r: HookResponse)
    requires
        transport_readable(ip_header.protocol, skb),
    ensures
        (r, final(firewall)@.state) == packet_outcome(
            old(firewall)@.state,
            old(firewall)@.rules,
            *ip_header,
            skb.transport(),
        ),
        final(firewall)@.rules == old(firewall)@.rules,
{
    firewall.decide(ip_header, skb, true)
}

/// Adds `rule` to the firewall's tables at `priority`.
pub fn add_rule(firewall: &mut Firewall, priority: usize, rule: GeneralFirewallRule)
    ensures
        final(firewall)@.rules == old(firewall)@.rules.add(rule, priority),
        final(firewall)@.state == old(firewall)@.state,
{
    firewall.rules.add_rule(rule, priority);
}

/// Every rule of the firewall.
pub fn list_rules(firewall: &Firewall) -> (list: Vec<GeneralFirewallRule>)
    ensures
        list@ == firewall@.rules.listed(),
{
    firewall.rules.list_rules()
}

/// The rule that a client's rule message asks for.
pub open spec fn general_rule(rule: FirewallRule) -> GeneralFirewallRule {
    GeneralFirewallRule {
        source: Endpoint { ip: rule.source_ip, mask: rule.source_mask, port: rule.source_port },
        dest: Endpoint { ip: rule.dest_ip, mask: rule.dest_mask, port: rule.dest_port },
        action: match rule.action {
            FirewallAction::Allow => RuleAction::Permit,
            FirewallAction::Deny => RuleAction::Drop,
        },
        protocol: rule.protocol,
    }
}

/// The message that `payload` holds, if it reads as one.
pub open spec fn requested_message(payload: Seq<u8>) -> Option<FirewallMessageView> {
    match FirewallMessage::spec_deserialize(payload).0 {
        Ok(m) => Some(m),
        Err(_) => None,
    }
}

/// A listed rule as a rule message carries it, with `priority` as its
/// priority.
pub open spec fn rule_message(rule: GeneralFirewallRule, priority: int) -> FirewallRule {
    FirewallRule {
        source_ip: rule.source.ip,
        source_mask: rule.source.mask,
        source_port: rule.source.port,
        dest_ip: rule.dest.ip,
        dest_mask: rule.dest.mask,
        dest_port: rule.dest.port,
        protocol: rule.protocol,
        priority: priority as usize,
        action: match rule.action {
            RuleAction::Permit => FirewallAction::Allow,
            RuleAction::Drop => FirewallAction::Deny,
        },
    }
}

/// The rules of a listing as rule messages, each with its place in the
/// listing as its priority.
pub open spec fn rule_messages(listed: Seq<GeneralFirewallRule>) -> Seq<FirewallRule> {
    listed.map(|i: int, rule: GeneralFirewallRule| rule_message(rule, i))
}

/// The rule tables after the firewall has handled a message.
pub open spec fn rules_after(rules: FirewallRulesView, message: Option<FirewallMessageView>) -> FirewallRulesView {
    match message {
        Some(FirewallMessageView::SetRule(rule)) => rules.add(general_rule(rule), rule.priority),
        Some(FirewallMessageView::SetDefault(rule)) => rules.set_default(rule.protocol, general_rule(rule).action),
        _ => rules,
    }
}

/// The reply the firewall sends to a message: the rule list to a rule
/// query, nothing to anything else.
pub open spec fn reply_to(rules: FirewallRulesView, message: Option<FirewallMessageView>) -> Option<FirewallMessageView> {
    match message {
        Some(FirewallMessageView::QueryRules) => Some(FirewallMessageView::RuleList(rule_messages(rules.listed()))),
        _ => None,
    }
}

/// An optional message, by its view.
pub open spec fn reply_view(reply: Option<FirewallMessage>) -> Option<FirewallMessageView> {
    match reply {
        Some(m) => Some(m@),
        None => None,
    }
}

/// The listed rules as rule messages.
fn rule_list(firewall: &Firewall) -> (list: Vec<FirewallRule>)
    ensures
        list@ == rule_messages(firewall@.rules.listed()),
{
    let listed = list_rules(firewall);
    let mut list: Vec<FirewallRule> = Vec::new();
    let mut i: usize = 0;
    while i < listed.len()
        invariant
            i <= listed@.len(),
            listed@ == firewall@.rules.listed(),
            list@ =~= rule_messages(listed@).take(i as int),
        decreases listed.len() - i,
    {
        let rule = listed[i];
        list.push(
            FirewallRule {
                source_ip: rule.source.ip,
                source_mask: rule.source.mask,
                source_port: rule.source.port,
                dest_ip: rule.dest.ip,
                dest_mask: rule.dest.mask,
                dest_port: rule.dest.port,
                protocol: rule.protocol,
                priority: i,
                action: match rule.action {
                    RuleAction::Permit => FirewallAction::Allow,
                    RuleAction::Drop => FirewallAction::Deny,
                },
            },
        );
        i = i + 1;
    }
    list
}

/// Handles a message from a client: a rule message adds its rule at its
/// priority, a default message sets the default of its protocol to its
/// action, and a rule query is answered with the rule list, which is
/// returned for sending back; every other message, and a payload that does
/// not read as a message, leaves the firewall as it is.
pub fn msg_callback(firewall: &mut Firewall, msg_recieved: &NetlinkMsgRaw) -> (reply: Option<FirewallMessage>)
    ensures
        final(firewall)@.state == old(firewall)@.state,
        final(firewall)@.rules == rules_after(old(firewall)@.rules, requested_message(msg_recieved.payload@)),
        reply_view(reply) == reply_to(old(firewall)@.rules, requested_message(msg_recieved.payload@)),
{
    match deserialize::<FirewallMessage>(msg_recieved.payload) {
        Ok(FirewallMessage::SetRule(rule)) => {
            add_rule(firewall, rule.priority, GeneralFirewallRule {
                source: Endpoint { ip: rule.source_ip, mask: rule.source_mask, port: rule.source_port },
                dest: Endpoint { ip: rule.dest_ip, mask: rule.dest_mask, port: rule.dest_port },
                action: match rule.action {
                    FirewallAction::Allow => RuleAction::Permit,
                    FirewallAction::Deny => RuleAction::Drop,
                },
                protocol: rule.protocol,
            });
            None
        },
        Ok(FirewallMessage::SetDefault(rule)) => {
            firewall.rules.set_default(GeneralFirewallRule {
                source: Endpoint { ip: rule.source_ip, mask: rule.source_mask, port: rule.source_port },
                dest: Endpoint { ip: rule.dest_ip, mask: rule.dest_mask, port: rule.dest_port },
                action: match rule.action {
                    FirewallAction::Allow => RuleAction::Permit,
                    FirewallAction::Deny => RuleAction::Drop,
                },
                protocol: rule.protocol,
            });
            None
        },
        Ok(FirewallMessage::QueryRules) => {
            let list = rule_list(firewall);
            assert(view_seq(list@) =~= list@);
            Some(FirewallMessage::RuleList(list))
        },
        _ => None,
    }
}

/// A TCP segment that the firewall lets through leaves its connection
/// tracked: every later segment between the same endpoints in the same
/// direction passes, whatever the rules have become, and so does every
/// reply, unless the replying endpoint had a session of its own.
pub proof fn lemma_accepted_tcp_stays_open(
    state: ConnectionStateView,
    rules: FirewallRulesView,
    ip: IPv4Header,
    tcp: TcpHeader,
    later_rules: FirewallRulesView,
    later_ip: IPv4Header,
    later_tcp: TcpHeader,
)
    requires
        tcp_outcome(state, rules, ip, tcp).0 == HookResponse::Accept,
        (later_ip.saddr == ip.saddr && later_ip.daddr == ip.daddr && later_tcp.source == tcp.source
            && later_tcp.dest == tcp.dest) || (!state.tcp.contains_key(dest_of(ip, tcp.dest).key())
            && later_ip.saddr == ip.daddr && later_ip.daddr == ip.saddr && later_tcp.source == tcp.dest
            && later_tcp.dest == tcp.source),
    ensures
        tcp_outcome(tcp_outcome(state, rules, ip, tcp).1, later_rules, later_ip, later_tcp) == (
            HookResponse::Accept,
            tcp_outcome(state, rules, ip, tcp).1,
        ),
{
    let src = source_of(ip, tcp.source);
    let dst = dest_of(ip, tcp.dest);
    lemma_open_tcp_tracks(state, src, dst);
    lemma_key_injective(src, dst);
}

/// A UDP datagram that the firewall lets through leaves its session
/// tracked: every later datagram between the same endpoints in the same
/// direction passes, whatever the rules have become, and so does every
/// reply, unless the replying endpoint had a session of its own.
pub proof fn lemma_accepted_udp_stays_open(
    state: ConnectionStateView,
    rules: FirewallRulesView,
    ip: IPv4Header,
    udp: UdpHeader,
    later_rules: FirewallRulesView,
    later_ip: IPv4Header,
    later_udp: UdpHeader,
)
    requires
        udp_outcome(state, rules, ip, udp).0 == HookResponse::Accept,
        (later_ip.saddr == ip.saddr && later_ip.daddr == ip.daddr && later_udp.source == udp.source
            && later_udp.dest == udp.dest) || (!state.udp.contains_key(dest_of(ip, udp.dest).key())
            && later_ip.saddr == ip.daddr && later_ip.daddr == ip.saddr && later_udp.source == udp.dest
            && later_udp.dest == udp.source),
    ensures
        udp_outcome(udp_outcome(state, rules, ip, udp).1, later_rules, later_ip, later_udp) == (
            HookResponse::Accept,
            udp_outcome(state, rules, ip, udp).1,
        ),
{
    let src = source_of(ip, udp.source);
    let dst = dest_of(ip, udp.dest);
    lemma_open_udp_tracks(state, src, dst);
    lemma_key_injective(src, dst);
}

/// An echo request that the firewall lets through leaves its session
/// tracked: every later ICMP message from the same sender to the same
/// receiver passes, whatever the rules have become, and so does every
/// reply.
pub proof fn lemma_accepted_echo_stays_open(
    state: ConnectionStateView,
    rules: FirewallRulesView,
    ip: IPv4Header,
    later_rules: FirewallRulesView,
    later_ip: IPv4Header,
    later_type: u8,
)
    requires
        echo_outcome(state, rules, ip, icmp_code::ICMP_ECHO).0 == HookResponse::Accept,
        (later_ip.saddr == ip.saddr && later_ip.daddr == ip.daddr) || (later_ip.saddr == ip.daddr
            && later_ip.daddr == ip.saddr),
    ensures
        echo_outcome(echo_outcome(state, rules, ip, icmp_code::ICMP_ECHO).1, later_rules, later_ip, later_type)
            == (HookResponse::Accept, echo_outcome(state, rules, ip, icmp_code::ICMP_ECHO).1),
{
    lemma_open_echo_tracks(state, ip.saddr, ip.daddr);
}

/// A packet the firewall drops changes no session, and a packet of a
/// protocol other than TCP, UDP or ICMP passes and changes nothing.
pub proof fn lemma_dropped_packet_changes_nothing(
    state: ConnectionStateView,
    rules: FirewallRulesView,
    ip: IPv4Header,
    transport: Seq<u8>,
)
    ensures
        packet_outcome(state, rules, ip, transport).0 == HookResponse::Drop ==> packet_outcome(
            state,
            rules,
            ip,
            transport,
        ).1 == state,
        ip.protocol != ip_protocol::TCP && ip.protocol != ip_protocol::UDP && ip.protocol
            != ip_protocol::ICMP ==> packet_outcome(state, rules, ip, transport) == (
            HookResponse::Accept,
            state,
        ),
{
}

/// A message that a client writes with [`crate::packet::serialize::serialize`]
/// into a buffer large enough for it is the message that [`msg_callback`]
/// reads.
pub proof fn lemma_sent_message_is_requested(m: FirewallMessage, buffer: Seq<u8>)
    requires
        m.spec_bytes().len() <= buffer.len(),
    ensures
        requested_message(write_at(buffer, 0, m.spec_bytes())) == Some(m@),
{
    lemma_message_survives_buffer(m, buffer);
}

/// A rule that a client sends, written with
/// [`crate::packet::serialize::serialize`] into a buffer large enough for
/// it, shows in the listing once [`msg_callback`] has added it: as it was
/// sent, at its place among the rules of its protocol.
pub proof fn lemma_sent_rule_is_listed(rules: FirewallRulesView, rule: FirewallRule, buffer: Seq<u8>)
    requires
        FirewallMessage::SetRule(rule).spec_bytes().len() <= buffer.len(),
        rule.protocol == ip_protocol::TCP || rule.protocol == ip_protocol::UDP || rule.protocol
            == ip_protocol::ICMP,
    ensures
        rules_after(rules, requested_message(write_at(buffer, 0, FirewallMessage::SetRule(rule).spec_bytes())))
            .listed() == rules.listed().insert(
            rules.listed_position(rule.protocol, rule.priority),
            listed_form(general_rule(rule)),
        ),
{
    lemma_sent_message_is_requested(FirewallMessage::SetRule(rule), buffer);
    lemma_add_lists_rule(rules, general_rule(rule), rule.priority);
}

/// A default that a client sends becomes the default of its protocol, and
/// traffic of that protocol that no rule matches then gets it.
pub proof fn lemma_sent_default_is_set(rules: FirewallRulesView, rule: FirewallRule, buffer: Seq<u8>)
    requires
        FirewallMessage::SetDefault(rule).spec_bytes().len() <= buffer.len(),
    ensures
        rules_after(rules, requested_message(write_at(buffer, 0, FirewallMessage::SetDefault(rule).spec_bytes())))
            == rules.set_default(rule.protocol, general_rule(rule).action),
{
    lemma_sent_message_is_requested(FirewallMessage::SetDefault(rule), buffer);
}

/// A rule query that a client sends is answered with one rule message for
/// each listed rule, in the listing's order, and changes no rule.
pub proof fn lemma_sent_query_is_answered(rules: FirewallRulesView, buffer: Seq<u8>)
    requires
        FirewallMessage::QueryRules.spec_bytes().len() <= buffer.len(),
    ensures
        rules_after(rules, requested_message(write_at(buffer, 0, FirewallMessage::QueryRules.spec_bytes())))
            == rules,
        reply_to(rules, requested_message(write_at(buffer, 0, FirewallMessage::QueryRules.spec_bytes())))
            == Some(FirewallMessageView::RuleList(rule_messages(rules.listed()))),
        rule_messages(rules.listed()).len() == rules.listed().len(),
{
    lemma_sent_message_is_requested(FirewallMessage::QueryRules, buffer);
}

/// A packet's direction plays no part in its fate: going out, it gets the
/// verdict and leaves the sessions as it does coming in.
pub proof fn lemma_direction_does_not_matter(
    state: ConnectionStateView,
    rules: FirewallRulesView,
    ip: IPv4Header,
    tcp: TcpHeader,
    udp: UdpHeader,
    message: IcmpHeader,
)
    ensures
        Packet::Output((&ip, &tcp)).spec_outcome(state, rules) == Packet::Input((&ip, &tcp)).spec_outcome(
            state,
            rules,
        ),
        Packet::Output((&ip, &udp)).spec_outcome(state, rules) == Packet::Input((&ip, &udp)).spec_outcome(
            state,
            rules,
        ),
        Packet::Output((&ip, &message)).spec_outcome(state, rules) == Packet::Input((&ip, &message)).spec_outcome(
            state,
            rules,
        ),
{
}

/// Traffic that belongs to no tracked session is judged by the rules of its
/// protocol, asked about the packet's own source address and port as source
/// and its own destination address and port as destination: on either hook,
/// a UDP datagram passes exactly when the UDP rules permit that, a TCP SYN
/// exactly when the TCP rules do (a TCP segment without SYN is dropped),
/// and an echo request exactly when the ICMP rules permit its source and
/// destination addresses. What passes opens its session; a dropped packet
/// changes no session.
pub proof fn lemma_untracked_traffic_is_judged_by_the_rules(
    state: ConnectionStateView,
    rules: FirewallRulesView,
    ip: IPv4Header,
    tcp: TcpHeader,
    udp: UdpHeader,
    message: IcmpHeader,
)
    ensures
        !state.tracks_udp(source_of(ip, udp.source), dest_of(ip, udp.dest)) ==> {
            let (verdict, after) = Packet::Input((&ip, &udp)).spec_outcome(state, rules);
            &&& (verdict == HookResponse::Accept) == rules.permits_udp(ip.saddr, ip.daddr, udp.source, udp.dest)
            &&& verdict == HookResponse::Accept ==> after.tracks_udp(source_of(ip, udp.source), dest_of(ip, udp.dest))
            &&& verdict == HookResponse::Drop ==> after == state
            &&& Packet::Output((&ip, &udp)).spec_outcome(state, rules) == (verdict, after)
        },
        !state.tracks_tcp(source_of(ip, tcp.source), dest_of(ip, tcp.dest)) ==> {
            let (verdict, after) = Packet::Input((&ip, &tcp)).spec_outcome(state, rules);
            &&& (verdict == HookResponse::Accept) == (tcp.spec_syn() == 1 && rules.permits_tcp(
                ip.saddr,
                ip.daddr,
                tcp.source,
                tcp.dest,
            ))
            &&& verdict == HookResponse::Accept ==> after.tracks_tcp(source_of(ip, tcp.source), dest_of(ip, tcp.dest))
            &&& verdict == HookResponse::Drop ==> after == state
            &&& Packet::Output((&ip, &tcp)).spec_outcome(state, rules) == (verdict, after)
        },
        !state.tracks_echo(ip.saddr, ip.daddr) && message.type_ == icmp_code::ICMP_ECHO ==> {
            let (verdict, after) = Packet::Input((&ip, &message)).spec_outcome(state, rules);
            &&& (verdict == HookResponse::Accept) == rules.permits_icmp(ip.saddr, ip.daddr)
            &&& verdict == HookResponse::Accept ==> after.tracks_echo(ip.saddr, ip.daddr) && after.tracks_echo(
                ip.daddr,
                ip.saddr,
            )
            &&& verdict == HookResponse::Drop ==> after == state
            &&& Packet::Output((&ip, &message)).spec_outcome(state, rules) == (verdict, after)
        },
{
    lemma_open_tcp_tracks(state, source_of(ip, tcp.source), dest_of(ip, tcp.dest));
    lemma_open_udp_tracks(state, source_of(ip, udp.source), dest_of(ip, udp.dest));
    lemma_open_echo_tracks(state, ip.saddr, ip.daddr);
}

/// On the hooks, an untracked UDP datagram is judged by the UDP rules on the
/// ports it carries: source port from the first two bytes of its transport
/// header and destination port from the next two, as a little-endian host
/// reads them; likewise a TCP SYN, whose flags are the fourteenth byte.
pub proof fn lemma_hook_reads_ports_from_the_packet(
    state: ConnectionStateView,
    rules: FirewallRulesView,
    ip: IPv4Header,
    transport: Seq<u8>,
)
    requires
        transport.len() >= 20,
    ensures
        ({
            let sport = (transport[0] + 256 * transport[1]) as u16;
            let dport = (transport[2] + 256 * transport[3]) as u16;
            ip.protocol == ip_protocol::UDP && !state.tracks_udp(source_of(ip, sport), dest_of(ip, dport)) ==> (
            packet_outcome(state, rules, ip, transport).0 == HookResponse::Accept) == rules.permits_udp(
                ip.saddr,
                ip.daddr,
                sport,
                dport,
            )
        }),
        ({
            let sport = (transport[0] + 256 * transport[1]) as u16;
            let dport = (transport[2] + 256 * transport[3]) as u16;
            ip.protocol == ip_protocol::TCP && !state.tracks_tcp(source_of(ip, sport), dest_of(ip, dport)) ==> (
            packet_outcome(state, rules, ip, transport).0 == HookResponse::Accept) == ((transport[13] / 2) % 2 == 1
                && rules.permits_tcp(ip.saddr, ip.daddr, sport, dport))
        }),
{
    lemma_header_layout(transport);
}

} // verus!
