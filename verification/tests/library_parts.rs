use stateful_firewall::client::{
    format_rule, ipv4_addr as client_ipv4_addr, parse_endpoint, parse_protocol, protocol_by_name,
    rule_from_args, CommandError, EndpointError, Message,
};
use stateful_firewall::firewall::rule::{Endpoint, FirewallRules, GeneralFirewallRule, RuleAction};
use stateful_firewall::firewall::state::ConnectionState;
use stateful_firewall::memory::RawData;
use stateful_firewall::net::{ip_protocol, IPv4Header, IcmpHeader, NetPacket, TcpHeader, UdpHeader};
use stateful_firewall::netfilter::{HookPoint, HookResponse, NetfilterHook};
use stateful_firewall::packet::codec::{le_decode, le_encode};
use stateful_firewall::packet::deserialize::{BinaryReader, DeserializeError, Deserializer};
use stateful_firewall::packet::packets::{CapturedPacket, FirewallAction, FirewallMessage, FirewallRule};
use stateful_firewall::packet::serialize::{serialize, BinaryWriter, Serializer};
use stateful_firewall::printk::LogWriter;
use stateful_firewall::spinlock::SpinLock;
use stateful_firewall::utils::ipv4_addr;

fn header(saddr: u32, daddr: u32) -> IPv4Header {
    IPv4Header {
        ihl: 5,
        version: 4,
        tos: 0,
        tot_len: 40,
        id: 0,
        frag_off: 0,
        ttl: 64,
        protocol: ip_protocol::TCP,
        check: 0,
        saddr: saddr.to_be(),
        daddr: daddr.to_be(),
    }
}

fn tcp_header(source: u16, dest: u16) -> TcpHeader {
    TcpHeader {
        source: source.to_be(),
        dest: dest.to_be(),
        seq: 0,
        ack_seq: 0,
        res1: 0,
        doff: 5,
        flags: 0x02,
        window: 0,
        check: 0,
        urg_ptr: 0,
    }
}

fn udp_header(source: u16, dest: u16) -> UdpHeader {
    UdpHeader { source: source.to_be(), dest: dest.to_be(), len: 8, check: 0 }
}

fn rule(protocol: u8, source: u32, dest_port: u16, action: RuleAction) -> GeneralFirewallRule {
    GeneralFirewallRule {
        protocol,
        source: Endpoint { ip: source, mask: 0xffff_ffff, port: 0 },
        dest: Endpoint { ip: 0, mask: 0, port: dest_port },
        action,
    }
}

#[test]
fn first_matching_rule_decides() {
    let mut rules = FirewallRules::new();
    rules.add_rule(rule(ip_protocol::TCP, 1, 0, RuleAction::Permit), 0);
    rules.add_rule(rule(ip_protocol::TCP, 1, 22, RuleAction::Drop), 0);
    // The rule added at priority 0 comes first and matches port 22.
    assert!(!rules.permit_tcp(&header(1, 2), &tcp_header(999, 22)));
    // Port 80 only matches the other rule.
    assert!(rules.permit_tcp(&header(1, 2), &tcp_header(999, 80)));
}

#[test]
fn unmatched_traffic_gets_the_default() {
    let mut rules = FirewallRules::new();
    rules.add_rule(rule(ip_protocol::TCP, 1, 0, RuleAction::Permit), 0);
    rules.set_default(rule(ip_protocol::TCP, 0, 0, RuleAction::Drop));
    assert!(!rules.permit_tcp(&header(7, 2), &tcp_header(999, 80)));
    assert!(rules.permit_tcp(&header(1, 2), &tcp_header(999, 80)));
    let udp = udp_header(1, 2);
    assert!(rules.permit_udp(&header(7, 2), &udp));
    rules.set_default(rule(ip_protocol::UDP, 0, 0, RuleAction::Drop));
    assert!(!rules.permit_udp(&header(7, 2), &udp));
    let icmp = IcmpHeader { type_: 8, code: 0, checksum: 0, un: 0 };
    assert!(rules.permit_icmp(&header(7, 2), &icmp));
    rules.add_rule(rule(ip_protocol::ICMP, 7, 0, RuleAction::Drop), 0);
    assert!(!rules.permit_icmp(&header(7, 2), &icmp));
}

#[test]
fn priority_past_the_tcp_table_appends() {
    let mut rules = FirewallRules::new();
    rules.add_rule(rule(ip_protocol::TCP, 1, 0, RuleAction::Permit), 0);
    rules.add_rule(rule(ip_protocol::TCP, 2, 0, RuleAction::Permit), 100);
    let listed = rules.list_rules();
    assert_eq!(listed.len(), 2);
    assert_eq!(listed[0].source.ip, 1);
    assert_eq!(listed[1].source.ip, 2);
}

#[test]
fn listing_orders_tcp_udp_icmp_and_gives_back_what_was_added() {
    let mut rules = FirewallRules::new();
    rules.add_rule(rule(ip_protocol::ICMP, 3, 0, RuleAction::Drop), 0);
    rules.add_rule(rule(ip_protocol::UDP, 2, 53, RuleAction::Drop), 0);
    rules.add_rule(rule(ip_protocol::TCP, 1, 80, RuleAction::Permit), 0);
    // A rule of another protocol is ignored.
    rules.add_rule(rule(47, 4, 0, RuleAction::Permit), 0);
    let listed = rules.list_rules();
    assert_eq!(listed.len(), 3);
    assert_eq!(listed[0].protocol, ip_protocol::TCP);
    assert_eq!(listed[0].source.ip, 1);
    assert_eq!(listed[0].dest.port, 80);
    assert_eq!(listed[1].protocol, ip_protocol::UDP);
    assert_eq!(listed[1].dest.port, 53);
    assert_eq!(listed[2].protocol, ip_protocol::ICMP);
    assert_eq!(listed[2].source.ip, 3);
    assert_eq!(listed[2].source.mask, 0xffff_ffff);
    assert_eq!(listed[2].dest.port, 0);
}

#[test]
fn delete_takes_the_listed_rule() {
    let mut rules = FirewallRules::new();
    rules.add_rule(rule(ip_protocol::TCP, 1, 80, RuleAction::Permit), 0);
    rules.add_rule(rule(ip_protocol::UDP, 2, 53, RuleAction::Drop), 0);
    rules.add_rule(rule(ip_protocol::ICMP, 3, 0, RuleAction::Drop), 0);
    let before = rules.list_rules();
    let deleted = rules.delete_rule(1).unwrap();
    assert_eq!(deleted.protocol, before[1].protocol);
    assert_eq!(deleted.source.ip, before[1].source.ip);
    assert_eq!(deleted.dest.port, before[1].dest.port);
    let after = rules.list_rules();
    assert_eq!(after.len(), 2);
    assert_eq!(after[0].protocol, ip_protocol::TCP);
    assert_eq!(after[1].protocol, ip_protocol::ICMP);
    assert!(rules.delete_rule(2).is_none());
    assert_eq!(rules.list_rules().len(), 2);
}

#[test]
fn delete_undoes_add() {
    let mut rules = FirewallRules::new();
    rules.add_rule(rule(ip_protocol::TCP, 1, 80, RuleAction::Permit), 0);
    rules.add_rule(rule(ip_protocol::UDP, 2, 53, RuleAction::Drop), 0);
    rules.add_rule(rule(ip_protocol::UDP, 5, 7, RuleAction::Permit), 0);
    // The new UDP rule sits first in the UDP table, after the one TCP rule.
    let deleted = rules.delete_rule(1).unwrap();
    assert_eq!(deleted.protocol, ip_protocol::UDP);
    assert_eq!(deleted.source.ip, 5);
    assert_eq!(deleted.dest.port, 7);
    let listed = rules.list_rules();
    assert_eq!(listed.len(), 2);
    assert_eq!(listed[1].source.ip, 2);
}

#[test]
fn connection_state_tracks_sessions() {
    let mut state = ConnectionState::new();
    let out = header(1, 2);
    let back = header(2, 1);
    let syn = tcp_header(1000, 80);
    let reply = tcp_header(80, 1000);
    assert!(!state.check_tcp(&out, &syn));
    state.establish_tcp(&out, &syn);
    assert!(state.check_tcp(&out, &syn));
    assert!(state.check_tcp(&back, &reply));
    assert!(!state.check_tcp(&out, &tcp_header(1001, 80)));
    state.close_tcp(&back, &reply);
    assert!(!state.check_tcp(&out, &syn));

    let udp = udp_header(5000, 53);
    assert!(!state.check_udp(&out, &udp));
    state.establish_udp(&out, &udp);
    assert!(state.check_udp(&out, &udp));

    let icmp = IcmpHeader { type_: 8, code: 0, checksum: 0, un: 0 };
    assert!(!state.check_icmp(&out, &icmp));
    state.establish_icmp(&out, &icmp);
    assert!(state.check_icmp(&out, &icmp));
    assert!(state.check_icmp(&back, &icmp));
    assert!(!state.check_icmp(&header(3, 1), &icmp));
}

#[test]
fn kernel_addresses_are_written_first_byte_lowest() {
    assert_eq!(ipv4_addr(0x0100_007f), "127.0.0.1");
    assert_eq!(ipv4_addr(0), "0.0.0.0");
    assert_eq!(ipv4_addr(0xffff_ffff), "255.255.255.255");
}

#[test]
fn client_addresses_are_written_first_byte_highest() {
    assert_eq!(client_ipv4_addr(0x7f00_0001), "127.0.0.1");
    assert_eq!(client_ipv4_addr(0xc0a8_0a0b), "192.168.10.11");
}

#[test]
fn rule_line_columns() {
    let r = FirewallRule {
        source_ip: 0x7f00_0001,
        source_mask: 0xffff_ffff,
        dest_ip: 0xc0a8_0000,
        dest_mask: 0xffff_ff00,
        source_port: 0,
        dest_port: 80,
        protocol: ip_protocol::TCP,
        priority: 0,
        action: FirewallAction::Allow,
    };
    let expected = format!(
        "{}\t\t{:<16} {:<16} {:<12} {:<16} {:<16} {:<10} {}",
        "TCP", "127.0.0.1", "255.255.255.255", 0, "192.168.0.0", "255.255.255.0", 80, "Allow"
    );
    assert_eq!(format_rule(&r), expected);
    let other = FirewallRule { protocol: 47, action: FirewallAction::Deny, ..r };
    assert!(format_rule(&other).starts_with("UNKOWN\t\t"));
    assert!(format_rule(&other).ends_with(" Deny"));
}

#[test]
fn endpoints_are_read() {
    assert_eq!(parse_endpoint("127.0.0.1/32:0"), Ok((0x7f00_0001, 0xffff_ffff, 0)));
    assert_eq!(parse_endpoint("192.168.0.0/24:80"), Ok((0xc0a8_0000, 0xffff_ff00, 80)));
    assert_eq!(parse_endpoint("0.0.0.0"), Ok((0, 0, 0)));
    assert_eq!(parse_endpoint("10.1.2.3"), Ok((0x0a01_0203, 0xffff_ffff, 0)));
    assert_eq!(parse_endpoint("10.1.2.3:8080"), Ok((0x0a01_0203, 0xffff_ffff, 8080)));
    assert_eq!(parse_endpoint("10.1.2.3/0"), Ok((0x0a01_0203, 0, 0)));
    assert_eq!(parse_endpoint("10.1.2.3/x:5"), Ok((0x0a01_0203, 0xffff_ffff, 0)));
}

#[test]
fn endpoint_errors() {
    assert_eq!(parse_endpoint("localhost"), Err(EndpointError::NoAddress));
    assert_eq!(parse_endpoint("1.2.3"), Err(EndpointError::NoAddress));
    assert_eq!(parse_endpoint("256.1.1.1"), Err(EndpointError::BadAddress));
    assert_eq!(parse_endpoint("01.1.1.1"), Err(EndpointError::BadAddress));
    assert_eq!(parse_endpoint("1.2.3.4/33"), Err(EndpointError::BadMask));
    assert_eq!(parse_endpoint("1.2.3.4:65536"), Err(EndpointError::BadPort));
}

#[test]
fn protocol_names_in_any_case() {
    assert_eq!(parse_protocol("tcp"), Some(ip_protocol::TCP));
    assert_eq!(parse_protocol("Udp"), Some(ip_protocol::UDP));
    assert_eq!(parse_protocol("icmp"), Some(ip_protocol::ICMP));
    assert_eq!(parse_protocol("sctp"), None);
    assert_eq!(protocol_by_name("tcp"), None);
    assert_eq!(protocol_by_name("TCP"), Some(ip_protocol::TCP));
}

#[test]
fn rule_commands() {
    let args: Vec<String> = vec!["tcp".into(), "127.0.0.1/32:0".into(), "192.168.0.0/24:80".into()];
    let r = rule_from_args(&args, FirewallAction::Deny).unwrap();
    assert_eq!(
        r,
        FirewallMessage::SetRule(FirewallRule {
            source_ip: 0x7f00_0001,
            source_mask: 0xffff_ffff,
            dest_ip: 0xc0a8_0000,
            dest_mask: 0xffff_ff00,
            source_port: 0,
            dest_port: 80,
            protocol: ip_protocol::TCP,
            priority: 0,
            action: FirewallAction::Deny,
        })
    );
    assert_eq!(rule_from_args(&args[..2], FirewallAction::Allow), Err(CommandError::TooFewArguments));
    assert_eq!(rule_from_args(&args[..1], FirewallAction::Allow), Err(CommandError::TooFewArguments));
    let bad: Vec<String> = vec!["gre".into(), "1.1.1.1".into(), "2.2.2.2".into()];
    assert_eq!(rule_from_args(&bad, FirewallAction::Allow), Err(CommandError::UnknownProtocol));
    let bad: Vec<String> = vec!["udp".into(), "1.1.1".into(), "2.2.2.2".into()];
    assert_eq!(
        rule_from_args(&bad, FirewallAction::Allow),
        Err(CommandError::Source(EndpointError::NoAddress))
    );
    let bad: Vec<String> = vec!["udp".into(), "1.1.1.1".into(), "2.2.2.2/40".into()];
    assert_eq!(rule_from_args(&bad, FirewallAction::Allow), Err(CommandError::Dest(EndpointError::BadMask)));
}

#[test]
fn log_lines() {
    let mut w = LogWriter::new();
    assert_eq!(w.to_str(), "");
    w.write_str("init module!");
    w.write_str(" 1 + 1 = 2 ✓");
    assert_eq!(w.to_str(), "init module! 1 + 1 = 2 ✓");
}

#[test]
fn strings_are_read_into_allocated_storage() {
    let mut buffer = vec![0u8; 64];
    let mut s = Serializer::new(BinaryWriter::from(vec![0u8; 64]));
    s = s.serialize(&b"hello".to_vec());
    let n = s.length();
    buffer.copy_from_slice(&s.into_writer().into_buffer());
    let mut d = Deserializer::new(BinaryReader::from(&buffer[..n]));
    assert_eq!(d.deserialize_str(|size| Some(vec![0u8; size])), Ok("hello".to_string()));
    let mut d = Deserializer::new(BinaryReader::from(&buffer[..n]));
    assert_eq!(d.deserialize_str(|_| None), Err(DeserializeError::AllocationFaild));
    let mut d = Deserializer::new(BinaryReader::from(&buffer[..3]));
    assert_eq!(d.deserialize_str(|size| Some(vec![0u8; size])), Err(DeserializeError::InvalidSize));
}

#[test]
fn byte_arrays_are_copied_into_allocated_storage() {
    let mut buffer = [0u8; 32];
    let n = serialize(&vec![1u8, 2, 3], &mut buffer);
    assert_eq!(n, 11);
    let mut d = Deserializer::new(BinaryReader::from(&buffer[..n]));
    assert_eq!(d.deserialize_u8_array_alloc(|size| Some(vec![9u8; size + 2])), Ok(vec![1, 2, 3, 9, 9]));
    let mut d = Deserializer::new(BinaryReader::from(&buffer[..n]));
    assert_eq!(d.deserialize_u8_array_alloc(|size| Some(vec![0u8; size - 1])), Err(DeserializeError::InvalidSize));
}

#[test]
fn short_buffers_cut_the_encoding_off() {
    let mut buffer = [0xaau8; 3];
    let n = serialize(&0x0102_0304u32, &mut buffer);
    assert_eq!(n, 3);
    assert_eq!(buffer, [4, 3, 2]);
}

#[test]
fn little_endian_codec() {
    assert_eq!(le_encode(0x0102_0304, 4), vec![4, 3, 2, 1]);
    assert_eq!(le_decode(&[4, 3, 2, 1]), 0x0102_0304);
    assert_eq!(le_decode(&[]), 0);
}

#[test]
fn spin_lock() {
    let mut lock = SpinLock::new();
    lock.lock();
    lock.unlock();
    lock.lock();
    lock.unlock();
}

#[test]
fn raw_data() {
    let data = RawData::from_raw(0x1000, 64);
    assert_eq!(data.len(), 64);
    assert_eq!(RawData::default().len(), 0);
}

#[test]
fn netlink_message() {
    let m = Message::new(&[1, 2, 3]);
    assert_eq!(m.size, 3);
    assert_eq!(m.data, vec![1, 2, 3]);
}

#[test]
fn netfilter_hooks() {
    let mut hook = NetfilterHook::new();
    hook.hook_input(HookPoint::PreRouting).hook_output(HookPoint::PostRouting).priority(-1);
    assert!(!hook.active);
    assert_eq!(HookResponse::Accept.verdict(), 1);
    assert_eq!(HookResponse::Drop.verdict(), 0);
    assert_eq!(HookPoint::PostRouting.number(), 4);
}

#[test]
fn readme_rule_commands() {
    let rule_of = |args: Vec<String>, action| match rule_from_args(&args, action).unwrap() {
        FirewallMessage::SetRule(rule) => rule,
        other => panic!("not a rule: {:?}", other),
    };
    let r = rule_of(vec!["UDP".into(), "0.0.0.0".into(), "8.8.8.8:53".into()], FirewallAction::Allow);
    assert_eq!((r.protocol, r.source_ip, r.source_mask, r.source_port), (ip_protocol::UDP, 0, 0, 0));
    assert_eq!((r.dest_ip, r.dest_mask, r.dest_port), (0x0808_0808, 0xffff_ffff, 53));
    assert_eq!(r.action, FirewallAction::Allow);

    let r = rule_of(vec!["TCP".into(), "192.168.1.0/24".into(), "0.0.0.0:80".into()], FirewallAction::Allow);
    assert_eq!((r.source_ip, r.source_mask, r.source_port), (0xc0a8_0100, 0xffff_ff00, 0));
    assert_eq!((r.dest_ip, r.dest_mask, r.dest_port), (0, 0, 80));

    let args: Vec<String> = vec!["UDP".into(), "default".into()];
    assert_eq!(
        rule_from_args(&args, FirewallAction::Deny),
        Ok(FirewallMessage::SetDefault(FirewallRule {
            protocol: ip_protocol::UDP,
            action: FirewallAction::Deny,
            ..Default::default()
        }))
    );
}

#[test]
fn tables_of_other_protocols_are_untouched() {
    let mut rules = FirewallRules::new();
    let udp = udp_header(1, 2);
    let icmp = IcmpHeader { type_: 8, code: 0, checksum: 0, un: 0 };
    rules.add_rule(rule(ip_protocol::TCP, 7, 0, RuleAction::Drop), 0);
    assert!(!rules.permit_tcp(&header(7, 2), &tcp_header(1, 2)));
    assert!(rules.permit_udp(&header(7, 2), &udp));
    assert!(rules.permit_icmp(&header(7, 2), &icmp));
}

#[test]
fn priority_is_capped_by_the_rules_own_table() {
    let mut rules = FirewallRules::new();
    for ip in 1..4u32 {
        rules.add_rule(rule(ip_protocol::UDP, ip, 0, RuleAction::Permit), 100);
    }
    rules.add_rule(rule(ip_protocol::UDP, 9, 0, RuleAction::Drop), 2);
    let listed = rules.list_rules();
    let ips: Vec<u32> = listed.iter().map(|r| r.source.ip).collect();
    assert_eq!(ips, vec![1, 2, 9, 3]);
    rules.add_rule(rule(ip_protocol::ICMP, 5, 0, RuleAction::Drop), 7);
    assert_eq!(rules.list_rules()[4].source.ip, 5);
}

#[test]
fn readme_rules_match_traffic_in_network_order() {
    let mut rules = FirewallRules::new();
    rules.set_default(rule(ip_protocol::TCP, 0, 0, RuleAction::Drop));
    rules.add_rule(
        GeneralFirewallRule {
            protocol: ip_protocol::TCP,
            source: Endpoint { ip: 0xC0A8_0100, mask: 0xFFFF_FF00, port: 0 },
            dest: Endpoint { ip: 0, mask: 0, port: 80 },
            action: RuleAction::Permit,
        },
        0,
    );
    let to_web = |saddr: [u8; 4], dport: u16| {
        let mut ip = header(0, 0);
        ip.saddr = u32::from_ne_bytes(saddr);
        let mut tcp = tcp_header(4000, 0);
        tcp.dest = u16::from_ne_bytes(dport.to_be_bytes());
        (ip, tcp)
    };
    let (ip, tcp) = to_web([192, 168, 1, 5], 80);
    assert!(rules.permit_tcp(&ip, &tcp));
    let (ip, tcp) = to_web([10, 0, 0, 5], 80);
    assert!(!rules.permit_tcp(&ip, &tcp));
    let (ip, tcp) = to_web([192, 168, 1, 5], 81);
    assert!(!rules.permit_tcp(&ip, &tcp));

    let mut rules = FirewallRules::new();
    rules.set_default(rule(ip_protocol::UDP, 0, 0, RuleAction::Drop));
    rules.add_rule(
        GeneralFirewallRule {
            protocol: ip_protocol::UDP,
            source: Endpoint { ip: 0, mask: 0, port: 0 },
            dest: Endpoint { ip: 0x0808_0808, mask: 0xFFFF_FFFF, port: 53 },
            action: RuleAction::Permit,
        },
        0,
    );
    let mut ip = header(0x0a00_0001, 0);
    ip.daddr = u32::from_ne_bytes([8, 8, 8, 8]);
    let dns = UdpHeader { source: 1234, dest: u16::from_ne_bytes([0, 53]), len: 8, check: 0 };
    assert!(rules.permit_udp(&ip, &dns));
    let other = UdpHeader { dest: u16::from_ne_bytes([0, 54]), ..dns };
    assert!(!rules.permit_udp(&ip, &other));
}

#[test]
fn pings_to_two_hosts_are_tracked_apart() {
    let mut state = ConnectionState::new();
    let icmp = IcmpHeader { type_: 8, code: 0, checksum: 0, un: 0 };
    state.establish_icmp(&header(1, 2), &icmp);
    state.establish_icmp(&header(1, 3), &icmp);
    assert!(state.check_icmp(&header(2, 1), &icmp));
    assert!(state.check_icmp(&header(3, 1), &icmp));
    assert!(!state.check_icmp(&header(4, 1), &icmp));
}

#[test]
fn udp_datagram_is_read_from_the_start_of_the_ip_payload() {
    let mut bytes = vec![0u8; 20 + 8 + 4];
    bytes[0] = 0x45;
    bytes[9] = ip_protocol::UDP;
    bytes[20..22].copy_from_slice(&5000u16.to_be_bytes());
    bytes[22..24].copy_from_slice(&53u16.to_be_bytes());
    bytes[24..26].copy_from_slice(&12u16.to_be_bytes());
    bytes[28..32].copy_from_slice(&[1, 2, 3, 4]);
    let ip = NetPacket::<IPv4Header>::from_buf(&bytes);
    let udp = NetPacket::<UdpHeader>::from_lower(&ip).unwrap();
    assert_eq!(udp.header.source, 5000u16.to_be());
    assert_eq!(udp.header.dest, 53u16.to_be());
    assert_eq!(udp.header.len, 12u16.to_be());
    assert_eq!(udp.payload, &[1, 2, 3, 4]);
    assert!(NetPacket::<TcpHeader>::from_lower(&ip).is_none());
}

#[test]
fn closing_a_connection_untracks_both_directions() {
    let mut state = ConnectionState::new();
    let out = header(1, 2);
    let back = header(2, 1);
    state.establish_tcp(&out, &tcp_header(1000, 80));
    state.close_tcp(&out, &tcp_header(1000, 80));
    assert!(!state.check_tcp(&out, &tcp_header(1000, 80)));
    assert!(!state.check_tcp(&back, &tcp_header(80, 1000)));
    // Closing what is not tracked changes nothing.
    state.establish_tcp(&out, &tcp_header(1001, 80));
    state.close_tcp(&out, &tcp_header(1002, 80));
    assert!(state.check_tcp(&out, &tcp_header(1001, 80)));
}

#[test]
fn captured_packet_size() {
    let packet = CapturedPacket { payload: vec![7u8; 10], ..Default::default() };
    assert_eq!(packet.total_size(), 31);
}
