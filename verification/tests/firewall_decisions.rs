use stateful_firewall::firewall::firewall::{add_rule, list_rules, msg_callback, packet_input, packet_output, Firewall};
use stateful_firewall::firewall::rule::{Endpoint, GeneralFirewallRule, RuleAction};
use stateful_firewall::net::{ip_protocol, IPv4Header, SocketBuffer};
use stateful_firewall::netfilter::HookResponse;
use stateful_firewall::netlink::NetlinkMsgRaw;
use stateful_firewall::packet::packets::{FirewallAction, FirewallMessage, FirewallRule};
use stateful_firewall::packet::serialize::serialize;

fn ip(protocol: u8, saddr: u32, daddr: u32) -> IPv4Header {
    IPv4Header {
        ihl: 5,
        version: 4,
        tos: 0,
        tot_len: 40,
        id: 0,
        frag_off: 0,
        ttl: 64,
        protocol,
        check: 0,
        saddr: saddr.to_be(),
        daddr: daddr.to_be(),
    }
}

/// A TCP segment's bytes: ports in network byte order, flags byte at 13.
fn tcp(source: u16, dest: u16, flags: u8) -> SocketBuffer {
    let mut data = vec![0u8; 40];
    data[20..22].copy_from_slice(&source.to_be_bytes());
    data[22..24].copy_from_slice(&dest.to_be_bytes());
    data[32] = 0x50;
    data[33] = flags;
    SocketBuffer::new(data, 20)
}

fn udp(source: u16, dest: u16) -> SocketBuffer {
    let mut data = vec![0u8; 28];
    data[20..22].copy_from_slice(&source.to_be_bytes());
    data[22..24].copy_from_slice(&dest.to_be_bytes());
    SocketBuffer::new(data, 20)
}

fn icmp(message_type: u8) -> SocketBuffer {
    let mut data = vec![0u8; 28];
    data[20] = message_type;
    SocketBuffer::new(data, 20)
}

const SYN: u8 = 0x02;
const ACK: u8 = 0x10;

const CLIENT: u32 = 0x0a00_0001;
const SERVER: u32 = 0x0a00_0002;
const BLOCKED: u32 = 0x0a00_0003;

fn deny_source(protocol: u8, addr: u32) -> GeneralFirewallRule {
    GeneralFirewallRule {
        protocol,
        source: Endpoint { ip: addr, mask: 0xffff_ffff, port: 0 },
        dest: Endpoint { ip: 0, mask: 0, port: 0 },
        action: RuleAction::Drop,
    }
}

#[test]
fn tcp_syn_permitted_by_default_opens_session() {
    let mut fw = Firewall::new();
    let h = ip(ip_protocol::TCP, CLIENT, SERVER);
    assert_eq!(packet_input(&mut fw, &h, &tcp(1000, 80, SYN)), HookResponse::Accept);
    // Later segments of the session pass in both directions.
    assert_eq!(packet_input(&mut fw, &h, &tcp(1000, 80, ACK)), HookResponse::Accept);
    let reply = ip(ip_protocol::TCP, SERVER, CLIENT);
    assert_eq!(packet_output(&mut fw, &reply, &tcp(80, 1000, ACK)), HookResponse::Accept);
}

#[test]
fn tcp_without_syn_and_session_is_dropped() {
    let mut fw = Firewall::new();
    let h = ip(ip_protocol::TCP, CLIENT, SERVER);
    assert_eq!(packet_input(&mut fw, &h, &tcp(1000, 80, ACK)), HookResponse::Drop);
}

#[test]
fn tcp_syn_denied_by_rule_is_dropped_and_opens_nothing() {
    let mut fw = Firewall::new();
    add_rule(&mut fw, 0, deny_source(ip_protocol::TCP, BLOCKED));
    let h = ip(ip_protocol::TCP, BLOCKED, SERVER);
    assert_eq!(packet_input(&mut fw, &h, &tcp(1000, 80, SYN)), HookResponse::Drop);
    assert_eq!(packet_input(&mut fw, &h, &tcp(1000, 80, ACK)), HookResponse::Drop);
    // Other sources are not matched by the rule.
    let other = ip(ip_protocol::TCP, CLIENT, SERVER);
    assert_eq!(packet_input(&mut fw, &other, &tcp(1000, 80, SYN)), HookResponse::Accept);
}

#[test]
fn accepted_tcp_session_survives_a_later_deny_rule() {
    let mut fw = Firewall::new();
    let h = ip(ip_protocol::TCP, CLIENT, SERVER);
    assert_eq!(packet_input(&mut fw, &h, &tcp(1000, 80, SYN)), HookResponse::Accept);
    add_rule(&mut fw, 0, deny_source(ip_protocol::TCP, CLIENT));
    assert_eq!(packet_input(&mut fw, &h, &tcp(1000, 80, ACK)), HookResponse::Accept);
    // A new connection from the same client is now refused.
    assert_eq!(packet_input(&mut fw, &h, &tcp(1001, 80, SYN)), HookResponse::Drop);
}

#[test]
fn udp_sessions() {
    let mut fw = Firewall::new();
    add_rule(&mut fw, 0, deny_source(ip_protocol::UDP, BLOCKED));
    let h = ip(ip_protocol::UDP, CLIENT, SERVER);
    assert_eq!(packet_input(&mut fw, &h, &udp(5000, 53)), HookResponse::Accept);
    let reply = ip(ip_protocol::UDP, SERVER, CLIENT);
    assert_eq!(packet_input(&mut fw, &reply, &udp(53, 5000)), HookResponse::Accept);
    let blocked = ip(ip_protocol::UDP, BLOCKED, SERVER);
    assert_eq!(packet_input(&mut fw, &blocked, &udp(5000, 53)), HookResponse::Drop);
}

#[test]
fn icmp_echo_sessions() {
    let mut fw = Firewall::new();
    let h = ip(ip_protocol::ICMP, CLIENT, SERVER);
    let reply = ip(ip_protocol::ICMP, SERVER, CLIENT);
    // An echo reply nobody asked for is dropped.
    assert_eq!(packet_input(&mut fw, &reply, &icmp(0)), HookResponse::Drop);
    // Any other untracked message that is not an echo request passes.
    assert_eq!(packet_input(&mut fw, &reply, &icmp(3)), HookResponse::Accept);
    // An echo request opens a session and its reply passes.
    assert_eq!(packet_input(&mut fw, &h, &icmp(8)), HookResponse::Accept);
    assert_eq!(packet_input(&mut fw, &reply, &icmp(0)), HookResponse::Accept);
}

#[test]
fn icmp_echo_denied_by_rule() {
    let mut fw = Firewall::new();
    add_rule(&mut fw, 0, deny_source(ip_protocol::ICMP, BLOCKED));
    let h = ip(ip_protocol::ICMP, BLOCKED, SERVER);
    assert_eq!(packet_input(&mut fw, &h, &icmp(8)), HookResponse::Drop);
}

#[test]
fn other_protocols_pass() {
    let mut fw = Firewall::new();
    let h = ip(47, CLIENT, SERVER);
    assert_eq!(packet_input(&mut fw, &h, &SocketBuffer::new(vec![0u8; 20], 20)), HookResponse::Accept);
}

fn rule_message(protocol: u8, action: FirewallAction) -> FirewallRule {
    FirewallRule {
        source_ip: 0x7f00_0001,
        source_mask: 0xffff_ffff,
        dest_ip: 0xc0a8_0000,
        dest_mask: 0xffff_ff00,
        source_port: 0,
        dest_port: 80,
        protocol,
        priority: 0,
        action,
    }
}

fn send(fw: &mut Firewall, msg: &FirewallMessage) -> Option<FirewallMessage> {
    let mut buffer = [0u8; 1024];
    let size = serialize(msg, &mut buffer);
    msg_callback(fw, &NetlinkMsgRaw::new(&buffer[..size]))
}

#[test]
fn rule_message_is_added_and_listed_as_sent() {
    let mut fw = Firewall::new();
    let reply = send(&mut fw, &FirewallMessage::SetRule(rule_message(ip_protocol::TCP, FirewallAction::Deny)));
    assert!(reply.is_none());
    let listed = list_rules(&fw);
    assert_eq!(listed.len(), 1);
    assert_eq!(listed[0].protocol, ip_protocol::TCP);
    assert!(listed[0].action == RuleAction::Drop);
    assert_eq!(listed[0].source.ip, 0x7f00_0001);
    assert_eq!(listed[0].source.mask, 0xffff_ffff);
    assert_eq!(listed[0].dest.ip, 0xc0a8_0000);
    assert_eq!(listed[0].dest.mask, 0xffff_ff00);
    assert_eq!(listed[0].dest.port, 80);
}

#[test]
fn sent_rule_decides_matching_traffic() {
    let mut fw = Firewall::new();
    send(&mut fw, &FirewallMessage::SetRule(rule_message(ip_protocol::TCP, FirewallAction::Deny)));
    let h = ip(ip_protocol::TCP, 0x7f00_0001, 0xc0a8_0007);
    assert_eq!(packet_input(&mut fw, &h, &tcp(4000, 80, SYN)), HookResponse::Drop);
    assert_eq!(packet_input(&mut fw, &h, &tcp(4000, 443, SYN)), HookResponse::Accept);
}

#[test]
fn default_message_sets_the_default() {
    let mut fw = Firewall::new();
    let deny_udp = FirewallRule { protocol: ip_protocol::UDP, action: FirewallAction::Deny, ..Default::default() };
    assert!(send(&mut fw, &FirewallMessage::SetDefault(deny_udp)).is_none());
    let h = ip(ip_protocol::UDP, CLIENT, SERVER);
    assert_eq!(packet_input(&mut fw, &h, &udp(5000, 53)), HookResponse::Drop);
    assert_eq!(list_rules(&fw).len(), 0);
    // TCP keeps its default.
    let t = ip(ip_protocol::TCP, CLIENT, SERVER);
    assert_eq!(packet_input(&mut fw, &t, &tcp(1000, 80, SYN)), HookResponse::Accept);
}

#[test]
fn rule_query_is_answered_with_the_listing() {
    let mut fw = Firewall::new();
    send(&mut fw, &FirewallMessage::SetRule(rule_message(ip_protocol::UDP, FirewallAction::Allow)));
    send(&mut fw, &FirewallMessage::SetRule(rule_message(ip_protocol::TCP, FirewallAction::Deny)));
    let reply = send(&mut fw, &FirewallMessage::QueryRules);
    assert_eq!(
        reply,
        Some(FirewallMessage::RuleList(vec![
            FirewallRule { priority: 0, ..rule_message(ip_protocol::TCP, FirewallAction::Deny) },
            FirewallRule { priority: 1, ..rule_message(ip_protocol::UDP, FirewallAction::Allow) },
        ]))
    );
}

#[test]
fn other_messages_leave_the_rules_alone() {
    let mut fw = Firewall::new();
    assert!(send(&mut fw, &FirewallMessage::DeleteRule(0)).is_none());
    assert_eq!(list_rules(&fw).len(), 0);
    // Bytes that are no message at all.
    assert!(msg_callback(&mut fw, &NetlinkMsgRaw::new(&[1, 2])).is_none());
    assert_eq!(list_rules(&fw).len(), 0);
}

#[test]
fn outgoing_packets_get_the_verdict_of_incoming_ones() {
    let mut a = Firewall::new();
    let mut b = Firewall::new();
    add_rule(&mut a, 0, deny_source(ip_protocol::TCP, BLOCKED));
    add_rule(&mut b, 0, deny_source(ip_protocol::TCP, BLOCKED));
    let cases = [
        (ip(ip_protocol::TCP, BLOCKED, SERVER), tcp(1000, 80, SYN)),
        (ip(ip_protocol::TCP, CLIENT, SERVER), tcp(1000, 80, SYN)),
        (ip(ip_protocol::TCP, SERVER, CLIENT), tcp(80, 1000, ACK)),
        (ip(ip_protocol::UDP, CLIENT, SERVER), udp(5000, 53)),
        (ip(ip_protocol::ICMP, SERVER, CLIENT), icmp(0)),
    ];
    for (h, skb) in cases.iter() {
        assert_eq!(packet_input(&mut a, h, skb), packet_output(&mut b, h, skb));
    }
}
