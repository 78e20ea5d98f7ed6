use stateful_firewall::packet::deserialize::{deserialize, BinaryReader, DeserializeError, Deserializer};
use stateful_firewall::packet::packets::{
    CapturedPacket, EvalSize, FilterRule, FirewallAction, FirewallMessage, FirewallRule, NetlinkHeader,
    NetlinkMessage,
};
use stateful_firewall::packet::serialize::{serialize, BinaryWriter, Serializer};

use rand::{Rng, SeedableRng};

#[derive(Debug, PartialEq)]
struct Message {
    is_true: bool,
    num: i32,
    float: f64,
    str: String,
}

fn serialize_message(msg: &Message, buffer: &mut [u8]) -> usize {
    let serializer = Serializer::new(BinaryWriter::from(buffer.to_vec()))
        .serialize(&msg.is_true)
        .serialize(&msg.num)
        .serialize(&msg.float.to_bits())
        .serialize(&msg.str.as_bytes().to_vec());
    let size = serializer.length();
    let written = serializer.into_writer().into_buffer();
    buffer.copy_from_slice(&written);
    size
}

fn deserialize_message(data: &[u8]) -> Result<Message, DeserializeError> {
    let mut deserializer = Deserializer::new(BinaryReader::from(data));
    let is_true = deserializer.deserialize_bool()?;
    let num = deserializer.deserialize_i32()?;
    let float = f64::from_bits(deserializer.deserialize_u64()?);
    let str = deserializer.deserialize_str(|size| Some(vec![0u8; size]))?;
    Ok(Message { is_true, num, float, str })
}

const TEST_STRING: &str = "A dog jump out of a lazy fox.";

fn test_message() -> Message {
    Message { is_true: true, num: 5, float: 3.1415, str: TEST_STRING.to_string() }
}

const TEST_MESSAGE_SIZE: usize = std::mem::size_of::<bool>()
    + std::mem::size_of::<i32>()
    + std::mem::size_of::<f64>()
    + std::mem::size_of::<usize>()
    + TEST_STRING.len();

#[test]
fn test_serialize() {
    let mut buf: [u8; 1024] = [0; 1024];
    let size = serialize_message(&test_message(), &mut buf);

    assert_eq!(size, TEST_MESSAGE_SIZE);
}

#[test]
fn test_deserialize() {
    let mut buf: [u8; 1024] = [0; 1024];

    let size = serialize_message(&test_message(), &mut buf);

    let data = &buf[..size];
    let msg = deserialize_message(data).unwrap();
    assert_eq!(msg, test_message());
}

#[test]
fn test_captured_packet() {
    let mut rng = rand::thread_rng();

    let mut payload = vec![0u8; rng.gen_range(64..1024)];
    for element in &mut payload {
        *element = rng.gen();
    }

    let packet = CapturedPacket {
        source_ip: rng.gen(),
        dest_ip: rng.gen(),
        source_port: rng.gen(),
        dest_port: rng.gen(),
        protocol: rng.gen(),
        payload: payload,
    };

    let mut buffer = vec![0u8; packet.total_size()];
    let serialized_size = serialize(&packet, &mut buffer);

    assert_eq!(packet.total_size(), serialized_size);

    let deserialized_packet = deserialize::<CapturedPacket>(&buffer).unwrap();

    assert_eq!(packet, deserialized_packet);
}

#[test]
fn test_captured_packet_zero_payload() {
    let packet: CapturedPacket = Default::default();

    let mut buffer = [0u8; 8192];
    serialize(&packet, &mut buffer);
    let deserialized_packet = deserialize::<CapturedPacket>(&buffer).unwrap();

    assert_eq!(deserialized_packet.payload.len(), 0);
    assert_eq!(deserialized_packet, packet);
}

#[test]
fn test_filter_rule() {
    let mut rng = rand::thread_rng();

    let packet = FilterRule {
        source_ip: rng.gen(),
        source_mask: rng.gen(),
        dest_ip: rng.gen(),
        dest_mask: rng.gen(),
        source_port: rng.gen(),
        dest_port: rng.gen(),
        protocol: rng.gen(),
    };

    let mut buffer = [0u8; 8192];
    serialize(&packet, &mut buffer);
    let deserialized_packet = deserialize::<FilterRule>(&buffer).unwrap();

    assert_eq!(deserialized_packet, packet);
}

fn rand_firewall_rule(rng: &mut rand::rngs::ThreadRng) -> FirewallRule {
    FirewallRule {
        source_ip: rng.gen(),
        source_mask: rng.gen(),
        dest_ip: rng.gen(),
        dest_mask: rng.gen(),
        source_port: rng.gen(),
        dest_port: rng.gen(),
        protocol: rng.gen(),
        priority: rng.gen(),
        action: FirewallAction::from(rng.gen::<u8>()),
    }
}

#[test]
fn test_firewall_rules() {
    let mut rng = rand::thread_rng();

    let mut rules: Vec<FirewallRule> = vec![];

    let len = rng.gen_range(2..8usize);

    for _ in 0..len {
        rules.push(rand_firewall_rule(&mut rng));
    }

    let msg = FirewallMessage::RuleList(rules);

    let mut buffer = [0u8; 8192];
    let size = serialize(&msg, &mut buffer);
    assert_eq!(size, msg.eval_size());
    let deserialized_msg = deserialize::<FirewallMessage>(&buffer).unwrap();
    assert_eq!(deserialized_msg, msg);

    let rule = rand_firewall_rule(&mut rng);
    let msg = FirewallMessage::SetRule(rule);
    serialize(&msg, &mut buffer);
    let deserialized_msg = deserialize::<FirewallMessage>(&buffer).unwrap();
    assert_eq!(msg, deserialized_msg);

    let rule = rand_firewall_rule(&mut rng);
    let msg = FirewallMessage::SetDefault(rule);
    let size = serialize(&msg, &mut buffer);
    assert_eq!(size, msg.eval_size());
    let deserialized_msg = deserialize::<FirewallMessage>(&buffer).unwrap();
    assert_eq!(msg, deserialized_msg);

    let msg = FirewallMessage::QueryRules;
    let size = serialize(&msg, &mut buffer);
    assert_eq!(size, msg.eval_size());
    let deserialized_msg = deserialize::<FirewallMessage>(&buffer).unwrap();
    assert_eq!(msg, deserialized_msg);
}

#[test]
fn seeded_captured_packet_roundtrip() {
    let mut rng = rand::rngs::StdRng::seed_from_u64(12345);
    let mut payload = vec![0u8; 34];
    for element in &mut payload {
        *element = rng.gen();
    }
    let packet = CapturedPacket {
        source_ip: rng.gen(),
        dest_ip: rng.gen(),
        source_port: rng.gen(),
        dest_port: rng.gen(),
        protocol: rng.gen(),
        payload: payload,
    };

    let mut buffer = [0u8; 8192];
    serialize(&packet, &mut buffer);
    let deserialized_packet = deserialize::<CapturedPacket>(&buffer).unwrap();

    assert_eq!(packet, deserialized_packet);
}

#[test]
fn netlink_messages_pack_and_unpack_their_payload() {
    let rule = FirewallRule { priority: 3, ..Default::default() };
    let msg = NetlinkMessage { header: NetlinkHeader::default(), payload: FirewallMessage::SetRule(rule) };
    let mut buffer = [0u8; 64];
    let n = msg.pack(&mut buffer);
    assert_eq!(n, 4 + 30);
    let back = NetlinkMessage::<FirewallMessage>::from(NetlinkHeader::default(), &buffer[..n]);
    assert_eq!(back.payload, FirewallMessage::SetRule(FirewallRule { priority: 3, ..Default::default() }));
}

#[test]
fn truncated_input_is_refused() {
    let mut buffer = [0u8; 64];
    let n = serialize(&FirewallMessage::RuleList(vec![FirewallRule::default()]), &mut buffer);
    assert_eq!(n, 4 + 8 + 30);
    assert_eq!(deserialize::<FirewallMessage>(&buffer[..n - 1]), Err(DeserializeError::InvalidSize));
    assert_eq!(deserialize::<FirewallRule>(&buffer[..3]), Err(DeserializeError::InvalidSize));
}

#[test]
fn unknown_message_tags_read_as_error_messages() {
    let buffer = [9u8, 0, 0, 0];
    assert_eq!(deserialize::<FirewallMessage>(&buffer), Ok(FirewallMessage::Error));
}

#[test]
fn action_codes() {
    assert_eq!(FirewallAction::from(0u8), FirewallAction::Deny);
    assert_eq!(FirewallAction::from(1u8), FirewallAction::Allow);
    assert_eq!(FirewallAction::from(7u8), FirewallAction::Allow);
    assert_eq!(FirewallAction::default(), FirewallAction::Allow);
}
