//! What the control client computes: the listing of a rule as a line of
//! text, and the rule that its command line asks for.

use vstd::prelude::*;
use vstd::string::{StringExecFns, StrSliceExecFns, StringSliceAdditionalSpecFns};
use vstd::utf8::encode_utf8;
use crate::net::ip_protocol;
use crate::packet::packets::{FirewallAction, FirewallRule, FirewallMessage, FirewallMessageView};
use crate::utils::{decimal, dotted, dotted_quad, push_decimal};

verus! {

/// An address held with its first byte highest, as the client holds
/// addresses on a little-endian host, written as a dotted quad.
pub open spec fn client_address(addr: u32) -> Seq<char> {
    dotted(
        (addr / 16777216) as nat,
        (addr / 65536 % 256) as nat,
        (addr / 256 % 256) as nat,
        (addr % 256) as nat,
    )
}

/// `text` followed by as many spaces as bring it to `width` characters.
pub open spec fn padded(text: Seq<char>, width: nat) -> Seq<char> {
    if text.len() >= width {
        text
    } else {
        text + Seq::new((width - text.len()) as nat, |i: int| ' ')
    }
}

/// The name under which a protocol is listed.
pub open spec fn protocol_name(protocol: u8) -> Seq<char> {
    if protocol == ip_protocol::TCP {
        "TCP"@
    } else if protocol == ip_protocol::UDP {
        "UDP"@
    } else if protocol == ip_protocol::ICMP {
        "ICMP"@
    } else {
        "UNKOWN"@
    }
}

/// The name under which an action is listed.
pub open spec fn action_name(action: FirewallAction) -> Seq<char> {
    match action {
        FirewallAction::Allow => "Allow"@,
        FirewallAction::Deny => "Deny"@,
    }
}

/// The line that lists `rule`: its protocol, two tabs, then its source
/// address, mask and port and its destination address, mask and port in
/// columns of 16, 16, 12, 16, 16 and 10 characters, each followed by a
/// space, and its action.
pub open spec fn rule_line(rule: FirewallRule) -> Seq<char> {
    protocol_name(rule.protocol) + seq!['\t', '\t'] + padded(client_address(rule.source_ip), 16)
        + seq![' '] + padded(client_address(rule.source_mask), 16) + seq![' '] + padded(
        decimal(rule.source_port as nat),
        12,
    ) + seq![' '] + padded(client_address(rule.dest_ip), 16) + seq![' '] + padded(
        client_address(rule.dest_mask),
        16,
    ) + seq![' '] + padded(decimal(rule.dest_port as nat), 10) + seq![' '] + action_name(rule.action)
}

/// An address held with its first byte highest, written as a dotted quad.
pub fn ipv4_addr(addr: u32) -> (s: String)
    ensures
        s@ == client_address(addr),
{
    dotted_quad(addr / 16777216, addr / 65536 % 256, addr / 256 % 256, addr % 256)
}

/// Appends `text` to `out`, then spaces up to `width` characters.
fn push_padded(out: &mut String, text: &str, width: usize)
    ensures
        final(out)@ == old(out)@ + padded(text@, width as nat),
{
    proof { reveal_strlit(" "); }
    out.append(text);
    let mut n = text.unicode_len();
    let ghost start = old(out)@ + text@;
    while n < width
        invariant
            text@.len() <= n,
            n <= width || n == text@.len(),
            out@ == start + Seq::new((n - text@.len()) as nat, |i: int| ' '),
        decreases width - n,
    {
        proof { reveal_strlit(" "); }
        out.append(" ");
        n = n + 1;
        proof {
            assert(out@ =~= start + Seq::new((n - text@.len()) as nat, |i: int| ' '));
        }
    }
    proof {
        if text@.len() >= width {
            assert(out@ =~= old(out)@ + text@);
        } else {
            assert(out@ =~= old(out)@ + padded(text@, width as nat));
        }
    }
}

/// Appends `text` to `out`.
fn push_str(out: &mut String, text: &str)
    ensures
        final(out)@ == old(out)@ + text@,
{
    out.append(text);
}

/// Appends a space to `out`.
fn push_space(out: &mut String)
    ensures
        final(out)@ == old(out)@ + seq![' '],
{
    proof { reveal_strlit(" "); }
    out.append(" ");
}

/// The name under which a protocol is listed.
fn protocol_text(protocol: u8) -> (s: &'static str)
    ensures
        s@ == protocol_name(protocol),
{
    if protocol == ip_protocol::TCP {
        "TCP"
    } else if protocol == ip_protocol::UDP {
        "UDP"
    } else if protocol == ip_protocol::ICMP {
        "ICMP"
    } else {
        "UNKOWN"
    }
}

/// The line that lists `rule`.
pub fn format_rule(rule: &FirewallRule) -> (line: String)
    ensures
        line@ == rule_line(*rule),
{
    let action = match rule.action {
        FirewallAction::Allow => "Allow",
        FirewallAction::Deny => "Deny",
    };
    let mut line = String::new();
    push_str(&mut line, protocol_text(rule.protocol));
    proof { reveal_strlit("\t\t"); }
    push_str(&mut line, "\t\t");
    push_padded(&mut line, ipv4_addr(rule.source_ip).as_str(), 16);
    push_space(&mut line);
    push_padded(&mut line, ipv4_addr(rule.source_mask).as_str(), 16);
    push_space(&mut line);
    let mut port = String::new();
    push_decimal(&mut port, rule.source_port as u32);
    push_padded(&mut line, port.as_str(), 12);
    push_space(&mut line);
    push_padded(&mut line, ipv4_addr(rule.dest_ip).as_str(), 16);
    push_space(&mut line);
    push_padded(&mut line, ipv4_addr(rule.dest_mask).as_str(), 16);
    push_space(&mut line);
    let mut port = String::new();
    push_decimal(&mut port, rule.dest_port as u32);
    push_padded(&mut line, port.as_str(), 10);
    push_space(&mut line);
    push_str(&mut line, action);
    proof {
        assert(Seq::<char>::empty() + decimal(rule.source_port as nat) =~= decimal(rule.source_port as nat));
        assert(Seq::<char>::empty() + decimal(rule.dest_port as nat) =~= decimal(rule.dest_port as nat));
        assert(line@ =~= rule_line(*rule));
    }
    line
}

} // verus!

verus! {

/// Why an endpoint's text could not be read.
#[derive(Debug, PartialEq, Eq, Structural, Clone, Copy)]
pub enum EndpointError {
    /// The text does not start with four dot-separated runs of digits.
    NoAddress,
    /// The address is not a valid IPv4 address.
    BadAddress,
    /// The mask's bit count is over 32.
    BadMask,
    /// The port does not fit in 16 bits.
    BadPort,
}

/// Whether `c` is an ASCII decimal digit.
pub open spec fn is_digit(c: u8) -> bool {
    48 <= c <= 57
}

/// How many digits `b` holds from `i` on, up to its first non-digit.
pub open spec fn digit_run(b: Seq<u8>, i: int) -> nat
    decreases b.len() - i,
{
    if 0 <= i < b.len() && is_digit(b[i]) {
        1 + digit_run(b, i + 1)
    } else {
        0
    }
}

/// The value of the `n` decimal digits of `b` from `i` on.
pub open spec fn digits_value(b: Seq<u8>, i: int, n: nat) -> nat
    decreases n,
{
    if n == 0 {
        0
    } else {
        digits_value(b, i, (n - 1) as nat) * 10 + (b[i + n - 1] - 48) as nat
    }
}

/// Whether the `n` digits from `i` on are an octet as IPv4 addresses are
/// written: one to three digits, no leading zero, at most 255.
pub open spec fn octet_ok(b: Seq<u8>, i: int, n: nat) -> bool {
    &&& 1 <= n <= 3
    &&& (n == 1 || b[i] != 48)
    &&& digits_value(b, i, n) <= 255
}

/// The netmask with `bits` leading one bits.
pub open spec fn mask_of(bits: nat) -> u32 {
    if bits == 0 {
        0
    } else {
        (0xFFFF_FFFFu32 << ((32 - bits) as u32)) as u32
    }
}

/// The address, netmask and port that the text `b` gives, in the form
/// `a.b.c.d`, then optionally `/bits`, then optionally `:port`; anything
/// after that is ignored. Without a mask, the address 0.0.0.0 gets mask 0
/// and any other address the mask of all 32 bits; without a port, the
/// port is 0.
pub open spec fn endpoint_of(b: Seq<u8>) -> Result<(u32, u32, u16), EndpointError> {
    let n1 = digit_run(b, 0);
    let p2: int = n1 as int + 1;
    let n2 = digit_run(b, p2);
    let p3: int = p2 + n2 + 1;
    let n3 = digit_run(b, p3);
    let p4: int = p3 + n3 + 1;
    let n4 = digit_run(b, p4);
    let end: int = p4 + n4;
    if !(n1 > 0 && n1 < b.len() && b[n1 as int] == 46 && n2 > 0 && p2 + n2 < b.len() && b[p2 + n2]
        == 46 && n3 > 0 && p3 + n3 < b.len() && b[p3 + n3] == 46 && n4 > 0) {
        Err(EndpointError::NoAddress)
    } else if !(octet_ok(b, 0, n1) && octet_ok(b, p2, n2) && octet_ok(b, p3, n3) && octet_ok(b, p4, n4)) {
        Err(EndpointError::BadAddress)
    } else {
        let ip = digits_value(b, 0, n1) * 16777216 + digits_value(b, p2, n2) * 65536 + digits_value(
            b,
            p3,
            n3,
        ) * 256 + digits_value(b, p4, n4);
        let mask_digits = digit_run(b, end + 1);
        let has_mask = end < b.len() && b[end] == 47 && mask_digits > 0;
        let port_at: int = if has_mask {
            end + 1 + mask_digits
        } else {
            end
        };
        let port_digits = digit_run(b, port_at + 1);
        let has_port = port_at < b.len() && b[port_at] == 58 && port_digits > 0;
        let bits = if has_mask {
            digits_value(b, end + 1, mask_digits)
        } else if ip == 0 {
            0
        } else {
            32
        };
        let port = if has_port {
            digits_value(b, port_at + 1, port_digits)
        } else {
            0
        };
        if bits > 32 {
            Err(EndpointError::BadMask)
        } else if port > 65535 {
            Err(EndpointError::BadPort)
        } else {
            Ok((ip as u32, mask_of(bits), port as u16))
        }
    }
}

/// A run of digits followed by one more digit is one longer.
proof fn lemma_digit_run_step(b: Seq<u8>, i: int)
    requires
        0 <= i < b.len(),
        is_digit(b[i]),
    ensures
        digit_run(b, i) == 1 + digit_run(b, i + 1),
{
}

/// Taking more digits never gives a smaller value.
proof fn lemma_digits_value_grows(b: Seq<u8>, i: int, k: nat, n: nat)
    requires
        k <= n,
        forall|j: int| i <= j < i + n ==> is_digit(#[trigger] b[j]),
    ensures
        digits_value(b, i, k) <= digits_value(b, i, n),
    decreases n - k,
{
    if k < n {
        lemma_digits_value_grows(b, i, k, (n - 1) as nat);
        assert(is_digit(b[i + n - 1]));
    }
}

/// Every byte of a run of digits is a digit.
proof fn lemma_digit_run_digits(b: Seq<u8>, i: int)
    requires
        0 <= i,
    ensures
        i + digit_run(b, i) <= b.len() || digit_run(b, i) == 0,
        forall|j: int| i <= j < i + digit_run(b, i) ==> is_digit(#[trigger] b[j]),
    decreases b.len() - i,
{
    if 0 <= i < b.len() && is_digit(b[i]) {
        lemma_digit_run_digits(b, i + 1);
    }
}

/// The number of digits in `b` from `i` on.
fn digits_at(b: &[u8], i: usize) -> (n: usize)
    requires
        i <= b@.len(),
    ensures
        n == digit_run(b@, i as int),
        i + n <= b@.len(),
{
    let mut j = i;
    while j < b.len() && 48 <= b[j] && b[j] <= 57
        invariant
            i <= j <= b@.len(),
            digit_run(b@, i as int) == (j - i) + digit_run(b@, j as int),
        decreases b.len() - j,
    {
        proof {
            lemma_digit_run_step(b@, j as int);
        }
        j = j + 1;
    }
    j - i
}

/// The value of the `n` digits of `b` from `i` on, if it is at most `bound`.
fn bounded_value(b: &[u8], i: usize, n: usize, bound: u32) -> (v: Option<u32>)
    requires
        i + n <= b@.len(),
        forall|j: int| i <= j < i + n ==> is_digit(#[trigger] b@[j]),
    ensures
        v == (if digits_value(b@, i as int, n as nat) <= bound {
            Some(digits_value(b@, i as int, n as nat) as u32)
        } else {
            None
        }),
{
    let mut value: u64 = 0;
    let mut k: usize = 0;
    while k < n
        invariant
            k <= n,
            i + n <= b.len(),
            forall|j: int| i <= j < i + n ==> is_digit(#[trigger] b@[j]),
            value == digits_value(b@, i as int, k as nat),
            value <= bound,
        decreases n - k,
    {
        assert(is_digit(b@[i + k]));
        value = value * 10 + (b[i + k] - 48) as u64;
        k = k + 1;
        if value > bound as u64 {
            proof {
                lemma_digits_value_grows(b@, i as int, k as nat, n as nat);
            }
            return None;
        }
    }
    Some(value as u32)
}

/// The octet that the `n` digits of `b` from `i` on give, if they are one.
fn octet_at(b: &[u8], i: usize, n: usize) -> (v: Option<u32>)
    requires
        i + n <= b@.len(),
        forall|j: int| i <= j < i + n ==> is_digit(#[trigger] b@[j]),
    ensures
        v == (if octet_ok(b@, i as int, n as nat) {
            Some(digits_value(b@, i as int, n as nat) as u32)
        } else {
            None
        }),
{
    if n < 1 || n > 3 || (n > 1 && b[i] == 48) {
        None
    } else {
        bounded_value(b, i, n, 255)
    }
}

/// The address, netmask and port that `endpoint` gives, as
/// [`endpoint_of`] reads its bytes.
pub fn parse_endpoint(endpoint: &str) -> (r: Result<(u32, u32, u16), EndpointError>)
    ensures
        r == endpoint_of(endpoint.spec_bytes()),
{
    let b = endpoint.as_bytes();
    let ghost bs = b@;
    let n1 = digits_at(b, 0);
    if n1 == 0 || n1 >= b.len() || b[n1] != 46 {
        return Err(EndpointError::NoAddress);
    }
    let p2 = n1 + 1;
    let n2 = digits_at(b, p2);
    if n2 == 0 || p2 + n2 >= b.len() || b[p2 + n2] != 46 {
        return Err(EndpointError::NoAddress);
    }
    let p3 = p2 + n2 + 1;
    let n3 = digits_at(b, p3);
    if n3 == 0 || p3 + n3 >= b.len() || b[p3 + n3] != 46 {
        return Err(EndpointError::NoAddress);
    }
    let p4 = p3 + n3 + 1;
    let n4 = digits_at(b, p4);
    if n4 == 0 {
        return Err(EndpointError::NoAddress);
    }
    proof {
        lemma_digit_run_digits(bs, 0);
        lemma_digit_run_digits(bs, p2 as int);
        lemma_digit_run_digits(bs, p3 as int);
        lemma_digit_run_digits(bs, p4 as int);
    }
    let o1 = octet_at(b, 0, n1);
    let o2 = octet_at(b, p2, n2);
    let o3 = octet_at(b, p3, n3);
    let o4 = octet_at(b, p4, n4);
    let (a1, a2, a3, a4) = match (o1, o2, o3, o4) {
        (Some(a1), Some(a2), Some(a3), Some(a4)) => (a1, a2, a3, a4),
        _ => {
            return Err(EndpointError::BadAddress);
        },
    };
    let ip: u32 = a1 * 16777216 + a2 * 65536 + a3 * 256 + a4;
    let end = p4 + n4;
    let mask_digits = if end < b.len() && b[end] == 47 {
        digits_at(b, end + 1)
    } else {
        0
    };
    let has_mask = end < b.len() && b[end] == 47 && mask_digits > 0;
    let port_at = if has_mask {
        end + 1 + mask_digits
    } else {
        end
    };
    let port_digits = if port_at < b.len() && b[port_at] == 58 {
        digits_at(b, port_at + 1)
    } else {
        0
    };
    let has_port = port_at < b.len() && b[port_at] == 58 && port_digits > 0;
    proof {
        lemma_digit_run_digits(bs, end + 1);
        lemma_digit_run_digits(bs, port_at + 1);
    }
    let bits: u32 = if has_mask {
        match bounded_value(b, end + 1, mask_digits, 32) {
            Some(v) => v,
            None => {
                return Err(EndpointError::BadMask);
            },
        }
    } else if ip == 0 {
        0
    } else {
        32
    };
    let port: u32 = if has_port {
        match bounded_value(b, port_at + 1, port_digits, 65535) {
            Some(v) => v,
            None => {
                return Err(EndpointError::BadPort);
            },
        }
    } else {
        0
    };
    let mask: u32 = if bits == 0 {
        0
    } else {
        0xFFFF_FFFFu32 << (32 - bits)
    };
    Ok((ip, mask, port as u16))
}

/// What `str::to_uppercase` returns for a text: each character replaced
/// by its Unicode uppercase form.
pub uninterp spec fn uppercase(text: Seq<char>) -> Seq<char>;

/// Calls `str::to_uppercase`; its result is named [`uppercase`].
#[verifier::external_body]
fn to_uppercase(text: &str) -> (upper: String)
    ensures
        upper@ == uppercase(text@),
{
    text.to_uppercase()
}

/// The protocol that an uppercase protocol name stands for.
pub open spec fn protocol_named(upper: Seq<char>) -> Option<u8> {
    if upper == "TCP"@ {
        Some(ip_protocol::TCP)
    } else if upper == "UDP"@ {
        Some(ip_protocol::UDP)
    } else if upper == "ICMP"@ {
        Some(ip_protocol::ICMP)
    } else {
        None
    }
}

/// Whether two texts hold the same characters.
fn same_text(a: &str, b: &str) -> (same: bool)
    ensures
        same == (a@ == b@),
{
    let n = a.unicode_len();
    if n != b.unicode_len() {
        return false;
    }
    let mut i: usize = 0;
    while i < n
        invariant
            n == a@.len(),
            n == b@.len(),
            i <= n,
            forall|k: int| 0 <= k < i ==> a@[k] == b@[k],
        decreases n - i,
    {
        if a.get_char(i) != b.get_char(i) {
            return false;
        }
        i = i + 1;
    }
    proof {
        assert(a@ =~= b@);
    }
    true
}

/// The protocol that an uppercase protocol name stands for.
pub fn protocol_by_name(upper: &str) -> (protocol: Option<u8>)
    ensures
        protocol == protocol_named(upper@),
{
    if same_text(upper, "TCP") {
        Some(ip_protocol::TCP)
    } else if same_text(upper, "UDP") {
        Some(ip_protocol::UDP)
    } else if same_text(upper, "ICMP") {
        Some(ip_protocol::ICMP)
    } else {
        None
    }
}

/// The protocol that a protocol name stands for, in any case.
pub fn parse_protocol(name: &str) -> (protocol: Option<u8>)
    ensures
        protocol == protocol_named(uppercase(name@)),
{
    let upper = to_uppercase(name);
    protocol_by_name(upper.as_str())
}

/// Why a rule command could not be turned into a message.
#[derive(Debug, PartialEq, Eq, Structural, Clone, Copy)]
pub enum CommandError {
    /// Too few arguments: a protocol and `default`, or a protocol, a
    /// source and a destination.
    TooFewArguments,
    /// The protocol is none of TCP, UDP and ICMP.
    UnknownProtocol,
    /// The source endpoint could not be read.
    Source(EndpointError),
    /// The destination endpoint could not be read.
    Dest(EndpointError),
}

/// The rule of `protocol` with `action` whose endpoints are all zero: the
/// form in which a default is sent.
pub open spec fn default_rule(protocol: u8, action: FirewallAction) -> FirewallRule {
    FirewallRule {
        source_ip: 0,
        source_mask: 0,
        source_port: 0,
        dest_ip: 0,
        dest_mask: 0,
        dest_port: 0,
        protocol,
        action,
        priority: 0,
    }
}

/// The message that the command arguments `args` ask for, with `action`:
/// for a protocol followed by `default`, the new default of that protocol;
/// for a protocol, a source endpoint and a destination endpoint, the rule
/// between them, with priority 0.
pub open spec fn command_message(args: Seq<String>, action: FirewallAction) -> Result<FirewallMessageView, CommandError> {
    if args.len() < 2 {
        Err(CommandError::TooFewArguments)
    } else {
        match protocol_named(uppercase(args[0]@)) {
            None => Err(CommandError::UnknownProtocol),
            Some(protocol) => if args[1]@ == "default"@ {
                Ok(FirewallMessageView::SetDefault(default_rule(protocol, action)))
            } else if args.len() < 3 {
                Err(CommandError::TooFewArguments)
            } else {
                match endpoint_of(encode_utf8(args[1]@)) {
                    Err(e) => Err(CommandError::Source(e)),
                    Ok((source_ip, source_mask, source_port)) => match endpoint_of(encode_utf8(args[2]@)) {
                        Err(e) => Err(CommandError::Dest(e)),
                        Ok((dest_ip, dest_mask, dest_port)) => Ok(
                            FirewallMessageView::SetRule(
                                FirewallRule {
                                    source_ip,
                                    source_mask,
                                    source_port,
                                    dest_ip,
                                    dest_mask,
                                    dest_port,
                                    protocol,
                                    action,
                                    priority: 0,
                                },
                            ),
                        ),
                    },
                }
            },
        }
    }
}

/// A result holding a message, with the message replaced by its view.
pub open spec fn command_view(r: Result<FirewallMessage, CommandError>) -> Result<FirewallMessageView, CommandError> {
    match r {
        Ok(m) => Ok(m@),
        Err(e) => Err(e),
    }
}

/// The message that the command arguments ask for, as [`command_message`]
/// says.
pub fn rule_from_args(args: &[String], action: FirewallAction) -> (r: Result<FirewallMessage, CommandError>)
    ensures
        command_view(r) == command_message(args@, action),
{
    if args.len() < 2 {
        return Err(CommandError::TooFewArguments);
    }
    let protocol = match parse_protocol(args[0].as_str()) {
        Some(p) => p,
        None => {
            return Err(CommandError::UnknownProtocol);
        },
    };
    if same_text(args[1].as_str(), "default") {
        return Ok(
            FirewallMessage::SetDefault(
                FirewallRule {
                    source_ip: 0,
                    source_mask: 0,
                    source_port: 0,
                    dest_ip: 0,
                    dest_mask: 0,
                    dest_port: 0,
                    protocol,
                    action,
                    priority: 0,
                },
            ),
        );
    }
    if args.len() < 3 {
        return Err(CommandError::TooFewArguments);
    }
    let (source_ip, source_mask, source_port) = match parse_endpoint(args[1].as_str()) {
        Ok(e) => e,
        Err(e) => {
            return Err(CommandError::Source(e));
        },
    };
    let (dest_ip, dest_mask, dest_port) = match parse_endpoint(args[2].as_str()) {
        Ok(e) => e,
        Err(e) => {
            return Err(CommandError::Dest(e));
        },
    };
    Ok(
        FirewallMessage::SetRule(
            FirewallRule {
                source_ip,
                source_mask,
                source_port,
                dest_ip,
                dest_mask,
                dest_port,
                protocol,
                action,
                priority: 0,
            },
        ),
    )
}

/// A netlink payload: its bytes and their count.
#[derive(Debug, PartialEq, Eq, Clone)]
pub struct Message {
    pub size: usize,
    pub data: Vec<u8>,
}

impl Message {
    /// The payload holding a copy of `data`.
    pub fn new(data: &[u8]) -> (m: Message)
        ensures
            m.size == data@.len(),
            m.data@ == data@,
    {
        Message { size: data.len(), data: vstd::slice::slice_to_vec(data) }
    }
}

/// A netmask of `bits` bits has exactly its `bits` most significant bits
/// set: bit `i`, counted from the least significant (0 to 31), is set just
/// when `i >= 32 - bits`. So `/12` gives 255.240.0.0 and `/0` no bit at
/// all.
pub proof fn lemma_mask_has_prefix_bits(bits: nat)
    requires
        bits <= 32,
    ensures
        forall|i: u32| i < 32 ==> ((#[trigger] (mask_of(bits) >> i)) & 1 == 1) == (i >= 32 - bits),
{
    if bits == 0 {
        assert(forall|i: u32| i < 32 ==> ((#[trigger] (0u32 >> i)) & 1 == 1) == false) by (bit_vector);
    } else {
        let s: u32 = (32 - bits) as u32;
        assert(forall|i: u32|
            s < 32 && i < 32 ==> ((#[trigger] (((0xFFFF_FFFFu32 << s) as u32) >> i)) & 1 == 1) == (i >= s))
            by (bit_vector);
        assert(mask_of(bits) == (0xFFFF_FFFFu32 << s) as u32);
    }
}

}
