//! The rule tables: one ordered list of rules per protocol, each with a
//! default action for the traffic that no rule matches.

use vstd::prelude::*;
use crate::net::{
    IPv4Header, TcpHeader, UdpHeader, IcmpHeader, IpProtocol, ip_protocol, swap16, swap32, u16_to_be,
    u32_to_be, lemma_swap_involution, lemma_swap_and,
};

verus! {

/// The addresses an ICMP rule applies to.
#[derive(Default, Clone, Copy, PartialEq, Eq, Structural)]
pub struct IcmpEndpoint {
    pub ip: u32,
    pub mask: u32,
}

/// The addresses and port a rule applies to: the address `ip` under
/// `mask`, and `port`, where port 0 stands for every port.
#[derive(Default, Clone, Copy, PartialEq, Eq, Structural)]
pub struct Endpoint {
    pub ip: u32,
    pub mask: u32,
    pub port: u16,
}

impl Endpoint {
    /// The endpoint with each field in network byte order.
    pub open spec fn spec_to_be(self) -> Endpoint {
        Endpoint { ip: swap32(self.ip), mask: swap32(self.mask), port: swap16(self.port) }
    }

    /// Converts each field from host to network byte order.
    pub fn to_be(self) -> (e: Endpoint)
        ensures
            e == self.spec_to_be(),
    {
        Endpoint { ip: u32_to_be(self.ip), mask: u32_to_be(self.mask), port: u16_to_be(self.port) }
    }
}

/// Converting twice to network order gives the endpoint back.
pub proof fn lemma_to_be_involution(e: Endpoint)
    ensures
        e.spec_to_be().spec_to_be() == e,
{
    lemma_swap_involution(e.ip, e.port);
    lemma_swap_involution(e.mask, e.port);
}

/// What a rule does with the traffic it matches.
#[derive(Debug, Eq, PartialEq, Structural, Copy, Clone)]
pub enum RuleAction {
    Permit,
    Drop,
}

impl Default for RuleAction {
    fn default() -> (a: RuleAction)
        ensures
            a == RuleAction::Permit,
    {
        RuleAction::Permit
    }
}

/// A rule for any protocol, as it is added to and listed from the tables.
#[derive(Clone, Copy, PartialEq, Eq, Structural)]
pub struct GeneralFirewallRule {
    pub protocol: IpProtocol,
    pub source: Endpoint,
    pub dest: Endpoint,
    pub action: RuleAction,
}

/// A rule in the ICMP table.
#[derive(Default, Clone, Copy, PartialEq, Eq, Structural)]
pub struct IcmpRuleEntry {
    pub source: IcmpEndpoint,
    pub dest: IcmpEndpoint,
    pub action: RuleAction,
}

/// A rule in the TCP or UDP table.
#[derive(Default, Clone, Copy, PartialEq, Eq, Structural)]
pub struct TcpRuleEntry {
    pub source: Endpoint,
    pub dest: Endpoint,
    pub action: RuleAction,
}

pub type UdpRuleEntry = TcpRuleEntry;

/// `i` as a position in a sequence.
#[verifier::inline]
pub open spec fn idx(i: usize) -> int {
    i as int
}

/// The length of `s`, as an integer.
#[verifier::inline]
pub open spec fn count<T>(s: Seq<T>) -> int {
    s.len() as int
}

/// `i` as a machine index.
#[verifier::inline]
pub open spec fn index_at(i: int) -> usize {
    i as usize
}

/// An address matches `ip` under `mask` when they agree on the mask's bits.
pub open spec fn addr_matches(addr: u32, ip: u32, mask: u32) -> bool {
    (addr & mask) == (ip & mask)
}

/// Port 0 in a rule matches every port.
pub open spec fn port_matches(port: u16, rule_port: u16) -> bool {
    rule_port == 0 || rule_port == port
}

impl TcpRuleEntry {
    /// Whether the rule applies to traffic between these addresses and ports.
    pub open spec fn matches(self, saddr: u32, daddr: u32, sport: u16, dport: u16) -> bool {
        &&& addr_matches(saddr, self.source.ip, self.source.mask)
        &&& addr_matches(daddr, self.dest.ip, self.dest.mask)
        &&& port_matches(sport, self.source.port)
        &&& port_matches(dport, self.dest.port)
    }
}

impl IcmpRuleEntry {
    /// Whether the rule applies to traffic between these addresses.
    pub open spec fn matches(self, saddr: u32, daddr: u32) -> bool {
        &&& addr_matches(saddr, self.source.ip, self.source.mask)
        &&& addr_matches(daddr, self.dest.ip, self.dest.mask)
    }
}

/// Whether the first of `rules` that matches permits the traffic, or the
/// default does when none matches.
pub open spec fn first_match_permits(
    rules: Seq<TcpRuleEntry>,
    saddr: u32,
    daddr: u32,
    sport: u16,
    dport: u16,
    default: RuleAction,
) -> bool
    decreases rules.len(),
{
    if rules.len() == 0 {
        default == RuleAction::Permit
    } else if rules[0].matches(saddr, daddr, sport, dport) {
        rules[0].action == RuleAction::Permit
    } else {
        first_match_permits(rules.drop_first(), saddr, daddr, sport, dport, default)
    }
}

/// Whether the first of the ICMP `rules` that matches permits the traffic,
/// or the default does when none matches.
pub open spec fn first_icmp_match_permits(
    rules: Seq<IcmpRuleEntry>,
    saddr: u32,
    daddr: u32,
    default: RuleAction,
) -> bool
    decreases rules.len(),
{
    if rules.len() == 0 {
        default == RuleAction::Permit
    } else if rules[0].matches(saddr, daddr) {
        rules[0].action == RuleAction::Permit
    } else {
        first_icmp_match_permits(rules.drop_first(), saddr, daddr, default)
    }
}

/// The rule with its endpoints converted to network byte order.
pub open spec fn spec_handle_byte_order(rule: GeneralFirewallRule) -> GeneralFirewallRule {
    GeneralFirewallRule {
        source: rule.source.spec_to_be(),
        dest: rule.dest.spec_to_be(),
        ..rule
    }
}

fn handle_byte_order(rule: GeneralFirewallRule) -> (r: GeneralFirewallRule)
    ensures
        r == spec_handle_byte_order(rule),
{
    GeneralFirewallRule {
        source: rule.source.to_be(),
        dest: rule.dest.to_be(),
        protocol: rule.protocol,
        action: rule.action,
    }
}

impl From<GeneralFirewallRule> for TcpRuleEntry {
    /// The entry for a rule, its endpoints converted to network order.
    fn from(rule: GeneralFirewallRule) -> (e: TcpRuleEntry) {
        let rule = handle_byte_order(rule);
        TcpRuleEntry { source: rule.source, dest: rule.dest, action: rule.action }
    }
}

impl vstd::std_specs::convert::FromSpecImpl<GeneralFirewallRule> for TcpRuleEntry {
    open spec fn obeys_from_spec() -> bool {
        true
    }

    open spec fn from_spec(rule: GeneralFirewallRule) -> TcpRuleEntry {
        TcpRuleEntry {
            source: rule.source.spec_to_be(),
            dest: rule.dest.spec_to_be(),
            action: rule.action,
        }
    }
}

impl From<TcpRuleEntry> for GeneralFirewallRule {
    /// The rule for an entry, its endpoints turned back from network byte
    /// order and its protocol left as IP.
    fn from(rule: TcpRuleEntry) -> (r: GeneralFirewallRule) {
        GeneralFirewallRule {
            source: rule.source.to_be(),
            dest: rule.dest.to_be(),
            action: rule.action,
            protocol: ip_protocol::IP,
        }
    }
}

impl vstd::std_specs::convert::FromSpecImpl<TcpRuleEntry> for GeneralFirewallRule {
    open spec fn obeys_from_spec() -> bool {
        true
    }

    open spec fn from_spec(rule: TcpRuleEntry) -> GeneralFirewallRule {
        GeneralFirewallRule {
            source: rule.source.spec_to_be(),
            dest: rule.dest.spec_to_be(),
            action: rule.action,
            protocol: ip_protocol::IP,
        }
    }
}

impl TcpRuleEntry {
    /// The entry as it is listed among rules of `protocol`: its endpoints
    /// turned back from network byte order.
    pub open spec fn listed(self, protocol: IpProtocol) -> GeneralFirewallRule {
        GeneralFirewallRule {
            protocol,
            source: self.source.spec_to_be(),
            dest: self.dest.spec_to_be(),
            action: self.action,
        }
    }

    fn into_tcp_rule(self) -> (r: GeneralFirewallRule)
        ensures
            r == self.listed(ip_protocol::TCP),
    {
        let r = GeneralFirewallRule::from(self);
        GeneralFirewallRule { protocol: ip_protocol::TCP, ..r }
    }

    fn into_udp_rule(self) -> (r: GeneralFirewallRule)
        ensures
            r == self.listed(ip_protocol::UDP),
    {
        let r = GeneralFirewallRule::from(self);
        GeneralFirewallRule { protocol: ip_protocol::UDP, ..r }
    }
}

impl From<GeneralFirewallRule> for IcmpRuleEntry {
    /// The entry for a rule, its addresses converted to network order and
    /// its ports dropped.
    fn from(rule: GeneralFirewallRule) -> (e: IcmpRuleEntry) {
        let rule = handle_byte_order(rule);
        IcmpRuleEntry {
            source: IcmpEndpoint { ip: rule.source.ip, mask: rule.source.mask },
            dest: IcmpEndpoint { ip: rule.dest.ip, mask: rule.dest.mask },
            action: rule.action,
        }
    }
}

impl vstd::std_specs::convert::FromSpecImpl<GeneralFirewallRule> for IcmpRuleEntry {
    open spec fn obeys_from_spec() -> bool {
        true
    }

    open spec fn from_spec(rule: GeneralFirewallRule) -> IcmpRuleEntry {
        IcmpRuleEntry {
            source: IcmpEndpoint { ip: swap32(rule.source.ip), mask: swap32(rule.source.mask) },
            dest: IcmpEndpoint { ip: swap32(rule.dest.ip), mask: swap32(rule.dest.mask) },
            action: rule.action,
        }
    }
}

impl IcmpRuleEntry {
    /// The entry as it is listed: an ICMP rule with ports 0, its addresses
    /// turned back from network byte order.
    pub open spec fn listed(self) -> GeneralFirewallRule {
        GeneralFirewallRule {
            source: Endpoint { ip: swap32(self.source.ip), mask: swap32(self.source.mask), port: 0 },
            dest: Endpoint { ip: swap32(self.dest.ip), mask: swap32(self.dest.mask), port: 0 },
            action: self.action,
            protocol: ip_protocol::ICMP,
        }
    }
}

impl From<IcmpRuleEntry> for GeneralFirewallRule {
    /// The rule for an entry: an ICMP rule with ports 0, its addresses
    /// turned back from network byte order.
    fn from(rule: IcmpRuleEntry) -> (r: GeneralFirewallRule) {
        GeneralFirewallRule {
            source: Endpoint { ip: u32_to_be(rule.source.ip), mask: u32_to_be(rule.source.mask), port: 0 },
            dest: Endpoint { ip: u32_to_be(rule.dest.ip), mask: u32_to_be(rule.dest.mask), port: 0 },
            action: rule.action,
            protocol: ip_protocol::ICMP,
        }
    }
}

impl vstd::std_specs::convert::FromSpecImpl<IcmpRuleEntry> for GeneralFirewallRule {
    open spec fn obeys_from_spec() -> bool {
        true
    }

    open spec fn from_spec(rule: IcmpRuleEntry) -> GeneralFirewallRule {
        rule.listed()
    }
}

/// The TCP or UDP entry stored for a rule: its endpoints in network byte
/// order.
pub open spec fn stored_entry(rule: GeneralFirewallRule) -> TcpRuleEntry {
    TcpRuleEntry { source: rule.source.spec_to_be(), dest: rule.dest.spec_to_be(), action: rule.action }
}

/// The ICMP entry stored for a rule: its addresses in network byte order.
pub open spec fn stored_icmp_entry(rule: GeneralFirewallRule) -> IcmpRuleEntry {
    IcmpRuleEntry {
        source: IcmpEndpoint { ip: swap32(rule.source.ip), mask: swap32(rule.source.mask) },
        dest: IcmpEndpoint { ip: swap32(rule.dest.ip), mask: swap32(rule.dest.mask) },
        action: rule.action,
    }
}

/// Whether a rule, its endpoints taken in network byte order, applies to
/// traffic with these addresses and ports as they stand in the packet.
pub open spec fn rule_matches(rule: GeneralFirewallRule, saddr: u32, daddr: u32, sport: u16, dport: u16) -> bool {
    if rule.protocol == ip_protocol::ICMP {
        stored_icmp_entry(rule).matches(saddr, daddr)
    } else {
        stored_entry(rule).matches(saddr, daddr, sport, dport)
    }
}

/// The contents of the rule tables.
pub struct FirewallRulesView {
    pub tcp: Seq<TcpRuleEntry>,
    pub udp: Seq<UdpRuleEntry>,
    pub icmp: Seq<IcmpRuleEntry>,
    pub tcp_default: RuleAction,
    pub udp_default: RuleAction,
    pub icmp_default: RuleAction,
}

impl FirewallRulesView {
    /// Whether TCP traffic between these addresses and ports is permitted.
    pub open spec fn permits_tcp(self, saddr: u32, daddr: u32, sport: u16, dport: u16) -> bool {
        first_match_permits(self.tcp, saddr, daddr, sport, dport, self.tcp_default)
    }

    /// Whether UDP traffic between these addresses and ports is permitted.
    pub open spec fn permits_udp(self, saddr: u32, daddr: u32, sport: u16, dport: u16) -> bool {
        first_match_permits(self.udp, saddr, daddr, sport, dport, self.udp_default)
    }

    /// Whether ICMP traffic between these addresses is permitted.
    pub open spec fn permits_icmp(self, saddr: u32, daddr: u32) -> bool {
        first_icmp_match_permits(self.icmp, saddr, daddr, self.icmp_default)
    }

    /// Every rule, TCP first, then UDP, then ICMP, each table in order.
    pub open spec fn listed(self) -> Seq<GeneralFirewallRule> {
        self.tcp.map_values(|e: TcpRuleEntry| e.listed(ip_protocol::TCP)) + self.udp.map_values(
            |e: TcpRuleEntry| e.listed(ip_protocol::UDP),
        ) + self.icmp.map_values(|e: IcmpRuleEntry| e.listed())
    }

    /// The number of rules in the table of `protocol`; 0 for a protocol
    /// that has no table.
    pub open spec fn table_len(self, protocol: IpProtocol) -> int {
        if protocol == ip_protocol::TCP {
            count(self.tcp)
        } else if protocol == ip_protocol::UDP {
            count(self.udp)
        } else if protocol == ip_protocol::ICMP {
            count(self.icmp)
        } else {
            0
        }
    }

    /// Where in its protocol's table a rule added with `priority` goes:
    /// there, or at the end of the table if that is shorter.
    pub open spec fn insert_position(self, protocol: IpProtocol, priority: usize) -> int {
        if priority >= self.table_len(protocol) {
            self.table_len(protocol)
        } else {
            priority as int
        }
    }

    /// The tables after `rule` has been added at `priority`: its endpoints
    /// are stored in network byte order.
    pub open spec fn add(self, rule: GeneralFirewallRule, priority: usize) -> FirewallRulesView {
        let pos = self.insert_position(rule.protocol, priority);
        if rule.protocol == ip_protocol::TCP {
            FirewallRulesView { tcp: self.tcp.insert(pos, stored_entry(rule)), ..self }
        } else if rule.protocol == ip_protocol::UDP {
            FirewallRulesView { udp: self.udp.insert(pos, stored_entry(rule)), ..self }
        } else if rule.protocol == ip_protocol::ICMP {
            FirewallRulesView { icmp: self.icmp.insert(pos, stored_icmp_entry(rule)), ..self }
        } else {
            self
        }
    }

    /// The tables after the default of `protocol` has been set to `action`.
    pub open spec fn set_default(self, protocol: IpProtocol, action: RuleAction) -> FirewallRulesView {
        if protocol == ip_protocol::TCP {
            FirewallRulesView { tcp_default: action, ..self }
        } else if protocol == ip_protocol::UDP {
            FirewallRulesView { udp_default: action, ..self }
        } else if protocol == ip_protocol::ICMP {
            FirewallRulesView { icmp_default: action, ..self }
        } else {
            self
        }
    }

    /// The tables after the rule at `index` in the listing is deleted, and
    /// that rule; the tables unchanged and nothing if there is no such rule.
    pub open spec fn delete(self, index: usize) -> (FirewallRulesView, Option<GeneralFirewallRule>) {
        let t = self.tcp.len();
        let u = self.udp.len();
        if index < t {
            (
                FirewallRulesView { tcp: self.tcp.remove(idx(index)), ..self },
                Some(self.tcp[idx(index)].listed(ip_protocol::TCP)),
            )
        } else if index - t < u {
            (
                FirewallRulesView { udp: self.udp.remove(index - t), ..self },
                Some(self.udp[index - t].listed(ip_protocol::UDP)),
            )
        } else if index - t - u < self.icmp.len() {
            (
                FirewallRulesView { icmp: self.icmp.remove(index - t - u), ..self },
                Some(self.icmp[index - t - u].listed()),
            )
        } else {
            (self, None)
        }
    }
}

/// The rule tables of the firewall.
pub struct FirewallRules {
    tcp_rules: Vec<TcpRuleEntry>,
    udp_rules: Vec<UdpRuleEntry>,
    icmp_rules: Vec<IcmpRuleEntry>,
    tcp_default: RuleAction,
    udp_default: RuleAction,
    icmp_default: RuleAction,
}

impl View for FirewallRules {
    type V = FirewallRulesView;

    closed spec fn view(&self) -> FirewallRulesView {
        FirewallRulesView {
            tcp: self.tcp_rules@,
            udp: self.udp_rules@,
            icmp: self.icmp_rules@,
            tcp_default: self.tcp_default,
            udp_default: self.udp_default,
            icmp_default: self.icmp_default,
        }
    }
}

impl FirewallRules {
    /// Empty tables that permit everything.
    pub fn new() -> (r: FirewallRules)
        ensures
            r@.tcp == Seq::<TcpRuleEntry>::empty(),
            r@.udp == Seq::<TcpRuleEntry>::empty(),
            r@.icmp == Seq::<IcmpRuleEntry>::empty(),
            r@.tcp_default == RuleAction::Permit,
            r@.udp_default == RuleAction::Permit,
            r@.icmp_default == RuleAction::Permit,
    {
        FirewallRules {
            tcp_rules: Vec::new(),
            udp_rules: Vec::new(),
            icmp_rules: Vec::new(),
            tcp_default: RuleAction::Permit,
            udp_default: RuleAction::Permit,
            icmp_default: RuleAction::Permit,
        }
    }

    fn first_match(
        rules: &Vec<TcpRuleEntry>,
        default: RuleAction,
        saddr: u32,
        daddr: u32,
        sport: u16,
        dport: u16,
    ) -> (permit: bool)
        ensures
            permit == first_match_permits(rules@, saddr, daddr, sport, dport, default),
    {
        let mut i: usize = 0;
        assert(rules@.skip(0) =~= rules@);
        while i < rules.len()
            invariant
                i <= rules@.len(),
                first_match_permits(rules@, saddr, daddr, sport, dport, default)
                    == first_match_permits(rules@.skip(i as int), saddr, daddr, sport, dport, default),
            decreases rules.len() - i,
        {
            let rule = &rules[i];
            let src_match = (saddr & rule.source.mask) == (rule.source.ip & rule.source.mask);
            let dst_match = (daddr & rule.dest.mask) == (rule.dest.ip & rule.dest.mask);
            let src_port_match = rule.source.port == 0 || (rule.source.port == sport);
            let dst_port_match = rule.dest.port == 0 || (rule.dest.port == dport);
            assert(rules@.skip(i as int)[0] == rules@[i as int]);
            if src_match && dst_match && src_port_match && dst_port_match {
                return rule.action == RuleAction::Permit;
            }
            assert(rules@.skip(i as int).drop_first() =~= rules@.skip(i + 1));
            i = i + 1;
        }
        default == RuleAction::Permit
    }

    /// Whether the TCP rules permit this segment.
    pub fn permit_tcp(&self, iphdr: &IPv4Header, tcphdr: &TcpHeader) -> (permit: bool)
        ensures
            permit == self@.permits_tcp(iphdr.saddr, iphdr.daddr, tcphdr.source, tcphdr.dest),
    {
        Self::first_match(&self.tcp_rules, self.tcp_default, iphdr.saddr, iphdr.daddr, tcphdr.source, tcphdr.dest)
    }

    /// Whether the UDP rules permit this datagram.
    pub fn permit_udp(&self, iphdr: &IPv4Header, udphdr: &UdpHeader) -> (permit: bool)
        ensures
            permit == self@.permits_udp(iphdr.saddr, iphdr.daddr, udphdr.source, udphdr.dest),
    {
        Self::first_match(&self.udp_rules, self.udp_default, iphdr.saddr, iphdr.daddr, udphdr.source, udphdr.dest)
    }

    /// Whether the ICMP rules permit this message.
    pub fn permit_icmp(&self, iphdr: &IPv4Header, icmphdr: &IcmpHeader) -> (permit: bool)
        ensures
            permit == self@.permits_icmp(iphdr.saddr, iphdr.daddr),
    {
        let rules = &self.icmp_rules;
        let mut i: usize = 0;
        assert(rules@.skip(0) =~= rules@);
        while i < rules.len()
            invariant
                rules == &self.icmp_rules,
                i <= rules@.len(),
                self@.permits_icmp(iphdr.saddr, iphdr.daddr) == first_icmp_match_permits(
                    rules@.skip(idx(i)),
                    iphdr.saddr,
                    iphdr.daddr,
                    self.icmp_default,
                ),
            decreases rules.len() - i,
        {
            let rule = &rules[i];
            let src_match = (iphdr.saddr & rule.source.mask) == (rule.source.ip & rule.source.mask);
            let dst_match = (iphdr.daddr & rule.dest.mask) == (rule.dest.ip & rule.dest.mask);
            assert(rules@.skip(idx(i))[0] == rules@[idx(i)]);
            if src_match && dst_match {
                return rule.action == RuleAction::Permit;
            }
            assert(rules@.skip(idx(i)).drop_first() =~= rules@.skip(i + 1));
            i = i + 1;
        }
        self.icmp_default == RuleAction::Permit
    }

    /// Adds a rule to the table of its protocol at `priority`, or at the end
    /// of that table if it is shorter, with its endpoints in network byte
    /// order; a rule of another protocol is ignored.
    pub fn add_rule(&mut self, rule: GeneralFirewallRule, priority: usize)
        ensures
            final(self)@ == old(self)@.add(rule, priority),
    {
        if rule.protocol == ip_protocol::TCP {
            let priority = if priority >= self.tcp_rules.len() {
                self.tcp_rules.len()
            } else {
                priority
            };
            self.tcp_rules.insert(priority, TcpRuleEntry::from(rule));
        } else if rule.protocol == ip_protocol::UDP {
            let priority = if priority >= self.udp_rules.len() {
                self.udp_rules.len()
            } else {
                priority
            };
            self.udp_rules.insert(priority, TcpRuleEntry::from(rule));
        } else if rule.protocol == ip_protocol::ICMP {
            let priority = if priority >= self.icmp_rules.len() {
                self.icmp_rules.len()
            } else {
                priority
            };
            self.icmp_rules.insert(priority, IcmpRuleEntry::from(rule));
        }
    }

    /// Sets the default action of the rule's protocol to the rule's action;
    /// a rule of another protocol is ignored.
    pub fn set_default(&mut self, rule: GeneralFirewallRule)
        ensures
            final(self)@ == old(self)@.set_default(rule.protocol, rule.action),
    {
        let rule = handle_byte_order(rule);
        if rule.protocol == ip_protocol::TCP {
            self.tcp_default = rule.action;
        } else if rule.protocol == ip_protocol::UDP {
            self.udp_default = rule.action;
        } else if rule.protocol == ip_protocol::ICMP {
            self.icmp_default = rule.action;
        }
    }

    /// Deletes the rule at `index` in the listing and returns it, or returns
    /// nothing if there is no such rule.
    pub fn delete_rule(&mut self, index: usize) -> (r: Option<GeneralFirewallRule>)
        ensures
            (final(self)@, r) == old(self)@.delete(index),
    {
        let mut index = index;
        if index < self.tcp_rules.len() {
            return Some(self.tcp_rules.remove(index).into_tcp_rule());
        }
        index = index - self.tcp_rules.len();
        if index < self.udp_rules.len() {
            return Some(self.udp_rules.remove(index).into_udp_rule());
        }
        index = index - self.udp_rules.len();
        if index < self.icmp_rules.len() {
            return Some(GeneralFirewallRule::from(self.icmp_rules.remove(index)));
        }
        None
    }

    /// Every rule, TCP first, then UDP, then ICMP, each table in order.
    pub fn list_rules(&self) -> (list: Vec<GeneralFirewallRule>)
        ensures
            list@ == self@.listed(),
    {
        let mut list: Vec<GeneralFirewallRule> = Vec::new();
        let ghost tcp_part = self@.tcp.map_values(|e: TcpRuleEntry| e.listed(ip_protocol::TCP));
        let ghost udp_part = self@.udp.map_values(|e: TcpRuleEntry| e.listed(ip_protocol::UDP));
        let ghost icmp_part = self@.icmp.map_values(|e: IcmpRuleEntry| e.listed());
        let mut i: usize = 0;
        while i < self.tcp_rules.len()
            invariant
                i <= self.tcp_rules@.len(),
                tcp_part == self@.tcp.map_values(|e: TcpRuleEntry| e.listed(ip_protocol::TCP)),
                list@ =~= tcp_part.take(idx(i)),
            decreases self.tcp_rules.len() - i,
        {
            list.push(self.tcp_rules[i].into_tcp_rule());
            i = i + 1;
        }
        let mut i: usize = 0;
        while i < self.udp_rules.len()
            invariant
                i <= self.udp_rules@.len(),
                tcp_part == self@.tcp.map_values(|e: TcpRuleEntry| e.listed(ip_protocol::TCP)),
                udp_part == self@.udp.map_values(|e: TcpRuleEntry| e.listed(ip_protocol::UDP)),
                list@ =~= tcp_part + udp_part.take(idx(i)),
            decreases self.udp_rules.len() - i,
        {
            list.push(self.udp_rules[i].into_udp_rule());
            i = i + 1;
        }
        let mut i: usize = 0;
        while i < self.icmp_rules.len()
            invariant
                i <= self.icmp_rules@.len(),
                tcp_part == self@.tcp.map_values(|e: TcpRuleEntry| e.listed(ip_protocol::TCP)),
                udp_part == self@.udp.map_values(|e: TcpRuleEntry| e.listed(ip_protocol::UDP)),
                icmp_part == self@.icmp.map_values(|e: IcmpRuleEntry| e.listed()),
                list@ =~= tcp_part + udp_part + icmp_part.take(idx(i)),
            decreases self.icmp_rules.len() - i,
        {
            list.push(GeneralFirewallRule::from(self.icmp_rules[i]));
            i = i + 1;
        }
        list
    }
}

/// How a rule added to the tables shows in the listing: as it was added,
/// save that an ICMP rule has ports 0.
pub open spec fn listed_form(rule: GeneralFirewallRule) -> GeneralFirewallRule {
    if rule.protocol == ip_protocol::ICMP {
        GeneralFirewallRule {
            source: Endpoint { port: 0, ..rule.source },
            dest: Endpoint { port: 0, ..rule.dest },
            ..rule
        }
    } else {
        rule
    }
}

impl FirewallRulesView {
    /// Where in the listing a rule of `protocol` added at `priority` goes.
    pub open spec fn listed_position(self, protocol: IpProtocol, priority: usize) -> int {
        if protocol == ip_protocol::TCP {
            self.insert_position(protocol, priority)
        } else if protocol == ip_protocol::UDP {
            self.tcp.len() + self.insert_position(protocol, priority)
        } else {
            self.tcp.len() + self.udp.len() + self.insert_position(protocol, priority)
        }
    }
}

/// A stored entry lists as the rule it was stored for.
pub proof fn lemma_stored_entry_lists(rule: GeneralFirewallRule)
    ensures
        rule.protocol == ip_protocol::TCP ==> stored_entry(rule).listed(ip_protocol::TCP) == listed_form(rule),
        rule.protocol == ip_protocol::UDP ==> stored_entry(rule).listed(ip_protocol::UDP) == listed_form(rule),
        rule.protocol == ip_protocol::ICMP ==> stored_icmp_entry(rule).listed() == listed_form(rule),
{
    lemma_to_be_involution(rule.source);
    lemma_to_be_involution(rule.dest);
    lemma_swap_involution(rule.source.ip, rule.source.port);
    lemma_swap_involution(rule.source.mask, rule.source.port);
    lemma_swap_involution(rule.dest.ip, rule.dest.port);
    lemma_swap_involution(rule.dest.mask, rule.dest.port);
}

/// The first rule of a table that matches the traffic decides it.
pub proof fn lemma_first_match_decides(
    rules: Seq<TcpRuleEntry>,
    i: int,
    saddr: u32,
    daddr: u32,
    sport: u16,
    dport: u16,
    default: RuleAction,
)
    requires
        0 <= i < rules.len(),
        rules[i].matches(saddr, daddr, sport, dport),
        forall|j: int| 0 <= j < i ==> !(#[trigger] rules[j]).matches(saddr, daddr, sport, dport),
    ensures
        first_match_permits(rules, saddr, daddr, sport, dport, default) == (rules[i].action
            == RuleAction::Permit),
    decreases i,
{
    if i > 0 {
        assert(!rules[0].matches(saddr, daddr, sport, dport));
        let rest = rules.drop_first();
        assert forall|j: int| 0 <= j < i - 1 implies !(#[trigger] rest[j]).matches(
            saddr,
            daddr,
            sport,
            dport,
        ) by {
            assert(rest[j] == rules[j + 1]);
        }
        lemma_first_match_decides(rest, i - 1, saddr, daddr, sport, dport, default);
    }
}

/// Traffic that no rule of a table matches is decided by the default.
pub proof fn lemma_unmatched_gets_default(
    rules: Seq<TcpRuleEntry>,
    saddr: u32,
    daddr: u32,
    sport: u16,
    dport: u16,
    default: RuleAction,
)
    requires
        forall|j: int| 0 <= j < rules.len() ==> !(#[trigger] rules[j]).matches(saddr, daddr, sport, dport),
    ensures
        first_match_permits(rules, saddr, daddr, sport, dport, default) == (default == RuleAction::Permit),
    decreases rules.len(),
{
    if rules.len() > 0 {
        assert(!rules[0].matches(saddr, daddr, sport, dport));
        let rest = rules.drop_first();
        assert forall|j: int| 0 <= j < rest.len() implies !(#[trigger] rest[j]).matches(
            saddr,
            daddr,
            sport,
            dport,
        ) by {
            assert(rest[j] == rules[j + 1]);
        }
        lemma_unmatched_gets_default(rest, saddr, daddr, sport, dport, default);
    }
}

/// The first ICMP rule that matches the traffic decides it.
pub proof fn lemma_first_icmp_match_decides(
    rules: Seq<IcmpRuleEntry>,
    i: int,
    saddr: u32,
    daddr: u32,
    default: RuleAction,
)
    requires
        0 <= i < rules.len(),
        rules[i].matches(saddr, daddr),
        forall|j: int| 0 <= j < i ==> !(#[trigger] rules[j]).matches(saddr, daddr),
    ensures
        first_icmp_match_permits(rules, saddr, daddr, default) == (rules[i].action == RuleAction::Permit),
    decreases i,
{
    if i > 0 {
        assert(!rules[0].matches(saddr, daddr));
        let rest = rules.drop_first();
        assert forall|j: int| 0 <= j < i - 1 implies !(#[trigger] rest[j]).matches(saddr, daddr) by {
            assert(rest[j] == rules[j + 1]);
        }
        lemma_first_icmp_match_decides(rest, i - 1, saddr, daddr, default);
    }
}

/// ICMP traffic that no ICMP rule matches is decided by the default.
pub proof fn lemma_unmatched_icmp_gets_default(
    rules: Seq<IcmpRuleEntry>,
    saddr: u32,
    daddr: u32,
    default: RuleAction,
)
    requires
        forall|j: int| 0 <= j < rules.len() ==> !(#[trigger] rules[j]).matches(saddr, daddr),
    ensures
        first_icmp_match_permits(rules, saddr, daddr, default) == (default == RuleAction::Permit),
    decreases rules.len(),
{
    if rules.len() > 0 {
        assert(!rules[0].matches(saddr, daddr));
        let rest = rules.drop_first();
        assert forall|j: int| 0 <= j < rest.len() implies !(#[trigger] rest[j]).matches(saddr, daddr) by {
            assert(rest[j] == rules[j + 1]);
        }
        lemma_unmatched_icmp_gets_default(rest, saddr, daddr, default);
    }
}

/// A rule added at `priority` decides the traffic of its protocol that it
/// matches, unless a rule ahead of its place matches that traffic too; at
/// priority 0 nothing is ahead of it.
pub proof fn lemma_added_rule_decides(
    rules: FirewallRulesView,
    rule: GeneralFirewallRule,
    priority: usize,
    saddr: u32,
    daddr: u32,
    sport: u16,
    dport: u16,
)
    requires
        rule_matches(rule, saddr, daddr, sport, dport),
        rule.protocol == ip_protocol::TCP ==> forall|j: int|
            0 <= j < rules.insert_position(rule.protocol, priority) ==> !(#[trigger] rules.tcp[j]).matches(
                saddr,
                daddr,
                sport,
                dport,
            ),
        rule.protocol == ip_protocol::UDP ==> forall|j: int|
            0 <= j < rules.insert_position(rule.protocol, priority) ==> !(#[trigger] rules.udp[j]).matches(
                saddr,
                daddr,
                sport,
                dport,
            ),
        rule.protocol == ip_protocol::ICMP ==> forall|j: int|
            0 <= j < rules.insert_position(rule.protocol, priority) ==> !(#[trigger] rules.icmp[j]).matches(
                saddr,
                daddr,
            ),
    ensures
        rule.protocol == ip_protocol::TCP ==> rules.add(rule, priority).permits_tcp(saddr, daddr, sport, dport)
            == (rule.action == RuleAction::Permit),
        rule.protocol == ip_protocol::UDP ==> rules.add(rule, priority).permits_udp(saddr, daddr, sport, dport)
            == (rule.action == RuleAction::Permit),
        rule.protocol == ip_protocol::ICMP ==> rules.add(rule, priority).permits_icmp(saddr, daddr) == (
        rule.action == RuleAction::Permit),
{
    let pos = rules.insert_position(rule.protocol, priority);
    if rule.protocol == ip_protocol::TCP || rule.protocol == ip_protocol::UDP {
        let table = if rule.protocol == ip_protocol::TCP {
            rules.tcp
        } else {
            rules.udp
        };
        let after = table.insert(pos, stored_entry(rule));
        assert(after[pos] == stored_entry(rule));
        assert forall|j: int| 0 <= j < pos implies !(#[trigger] after[j]).matches(saddr, daddr, sport, dport) by {
            assert(after[j] == table[j]);
        }
        lemma_first_match_decides(
            after,
            pos,
            saddr,
            daddr,
            sport,
            dport,
            if rule.protocol == ip_protocol::TCP {
                rules.tcp_default
            } else {
                rules.udp_default
            },
        );
    } else if rule.protocol == ip_protocol::ICMP {
        let after = rules.icmp.insert(pos, stored_icmp_entry(rule));
        assert(after[pos] == stored_icmp_entry(rule));
        assert forall|j: int| 0 <= j < pos implies !(#[trigger] after[j]).matches(saddr, daddr) by {
            assert(after[j] == rules.icmp[j]);
        }
        lemma_first_icmp_match_decides(after, pos, saddr, daddr, rules.icmp_default);
    }
}

/// Traffic that no rule of its protocol matches is permitted exactly when
/// that protocol's default is to permit.
pub proof fn lemma_default_decides_unmatched(
    rules: FirewallRulesView,
    saddr: u32,
    daddr: u32,
    sport: u16,
    dport: u16,
)
    ensures
        (forall|j: int| 0 <= j < rules.tcp.len() ==> !(#[trigger] rules.tcp[j]).matches(saddr, daddr, sport, dport))
            ==> rules.permits_tcp(saddr, daddr, sport, dport) == (rules.tcp_default == RuleAction::Permit),
        (forall|j: int| 0 <= j < rules.udp.len() ==> !(#[trigger] rules.udp[j]).matches(saddr, daddr, sport, dport))
            ==> rules.permits_udp(saddr, daddr, sport, dport) == (rules.udp_default == RuleAction::Permit),
        (forall|j: int| 0 <= j < rules.icmp.len() ==> !(#[trigger] rules.icmp[j]).matches(saddr, daddr))
            ==> rules.permits_icmp(saddr, daddr) == (rules.icmp_default == RuleAction::Permit),
{
    if forall|j: int| 0 <= j < rules.tcp.len() ==> !(#[trigger] rules.tcp[j]).matches(saddr, daddr, sport, dport) {
        lemma_unmatched_gets_default(rules.tcp, saddr, daddr, sport, dport, rules.tcp_default);
    }
    if forall|j: int| 0 <= j < rules.udp.len() ==> !(#[trigger] rules.udp[j]).matches(saddr, daddr, sport, dport) {
        lemma_unmatched_gets_default(rules.udp, saddr, daddr, sport, dport, rules.udp_default);
    }
    if forall|j: int| 0 <= j < rules.icmp.len() ==> !(#[trigger] rules.icmp[j]).matches(saddr, daddr) {
        lemma_unmatched_icmp_gets_default(rules.icmp, saddr, daddr, rules.icmp_default);
    }
}

/// Setting a protocol's default leaves every table, and so the listing, as
/// it was; traffic of that protocol that no rule matches then gets the new
/// default.
pub proof fn lemma_set_default_decides_unmatched(
    rules: FirewallRulesView,
    protocol: IpProtocol,
    action: RuleAction,
    saddr: u32,
    daddr: u32,
    sport: u16,
    dport: u16,
)
    ensures
        rules.set_default(protocol, action).listed() == rules.listed(),
        protocol == ip_protocol::TCP && (forall|j: int|
            0 <= j < rules.tcp.len() ==> !(#[trigger] rules.tcp[j]).matches(saddr, daddr, sport, dport))
            ==> rules.set_default(protocol, action).permits_tcp(saddr, daddr, sport, dport) == (action
            == RuleAction::Permit),
        protocol == ip_protocol::UDP && (forall|j: int|
            0 <= j < rules.udp.len() ==> !(#[trigger] rules.udp[j]).matches(saddr, daddr, sport, dport))
            ==> rules.set_default(protocol, action).permits_udp(saddr, daddr, sport, dport) == (action
            == RuleAction::Permit),
        protocol == ip_protocol::ICMP && (forall|j: int|
            0 <= j < rules.icmp.len() ==> !(#[trigger] rules.icmp[j]).matches(saddr, daddr))
            ==> rules.set_default(protocol, action).permits_icmp(saddr, daddr) == (action == RuleAction::Permit),
{
    lemma_default_decides_unmatched(rules.set_default(protocol, action), saddr, daddr, sport, dport);
}

/// Adding a rule puts it, as it was added (an ICMP rule with ports 0), at
/// its listed position and leaves the rest of the listing in order; a rule
/// of another protocol changes nothing.
pub proof fn lemma_add_lists_rule(rules: FirewallRulesView, rule: GeneralFirewallRule, priority: usize)
    ensures
        rule.protocol == ip_protocol::TCP || rule.protocol == ip_protocol::UDP || rule.protocol
            == ip_protocol::ICMP ==> rules.add(rule, priority).listed() == rules.listed().insert(
            rules.listed_position(rule.protocol, priority),
            listed_form(rule),
        ),
        !(rule.protocol == ip_protocol::TCP || rule.protocol == ip_protocol::UDP || rule.protocol
            == ip_protocol::ICMP) ==> rules.add(rule, priority) == rules,
{
    let after = rules.add(rule, priority);
    let pos = rules.insert_position(rule.protocol, priority);
    let ft = |e: TcpRuleEntry| e.listed(ip_protocol::TCP);
    let fu = |e: TcpRuleEntry| e.listed(ip_protocol::UDP);
    let fi = |e: IcmpRuleEntry| e.listed();
    let t = rules.tcp.map_values(ft);
    let u = rules.udp.map_values(fu);
    let c = rules.icmp.map_values(fi);
    lemma_stored_entry_lists(rule);
    if rule.protocol == ip_protocol::TCP {
        assert(after.tcp.map_values(ft) =~= t.insert(pos, listed_form(rule)));
        assert(after.listed() =~= rules.listed().insert(pos, listed_form(rule)));
    } else if rule.protocol == ip_protocol::UDP {
        assert(after.udp.map_values(fu) =~= u.insert(pos, listed_form(rule)));
        assert(after.listed() =~= rules.listed().insert(t.len() + pos, listed_form(rule)));
    } else if rule.protocol == ip_protocol::ICMP {
        assert(after.icmp.map_values(fi) =~= c.insert(pos, listed_form(rule)));
        assert(after.listed() =~= rules.listed().insert(t.len() + u.len() + pos, listed_form(rule)));
    }
}

/// Deleting the rule at a position of the listing returns that rule and
/// removes it from the listing; at a position past the listing's end
/// nothing is deleted.
pub proof fn lemma_delete_takes_listed(rules: FirewallRulesView, index: usize)
    ensures
        index < rules.listed().len() ==> rules.delete(index).1 == Some(rules.listed()[idx(index)]),
        index < rules.listed().len() ==> rules.delete(index).0.listed() == rules.listed().remove(idx(index)),
        index >= rules.listed().len() ==> rules.delete(index) == (rules, None::<GeneralFirewallRule>),
{
    let ft = |e: TcpRuleEntry| e.listed(ip_protocol::TCP);
    let fu = |e: TcpRuleEntry| e.listed(ip_protocol::UDP);
    let fi = |e: IcmpRuleEntry| e.listed();
    let t = rules.tcp.map_values(ft);
    let u = rules.udp.map_values(fu);
    let c = rules.icmp.map_values(fi);
    let i = idx(index);
    let after = rules.delete(index).0;
    if i < t.len() {
        assert(after.tcp.map_values(ft) =~= t.remove(i));
        assert(after.listed() =~= rules.listed().remove(i));
    } else if i - t.len() < u.len() {
        assert(after.udp.map_values(fu) =~= u.remove(i - t.len()));
        assert(after.listed() =~= rules.listed().remove(i));
    } else if i - t.len() - u.len() < c.len() {
        assert(after.icmp.map_values(fi) =~= c.remove(i - t.len() - u.len()));
        assert(after.listed() =~= rules.listed().remove(i));
    }
}

/// Deleting, at its listed position, a rule that was just added restores
/// the tables as they were and returns the rule as it was added (an ICMP
/// rule with ports 0).
pub proof fn lemma_delete_undoes_add(rules: FirewallRulesView, rule: GeneralFirewallRule, priority: usize)
    requires
        rule.protocol == ip_protocol::TCP || rule.protocol == ip_protocol::UDP || rule.protocol
            == ip_protocol::ICMP,
        rules.listed_position(rule.protocol, priority) < usize::MAX,
    ensures
        rules.add(rule, priority).delete(index_at(rules.listed_position(rule.protocol, priority))) == (
            rules,
            Some(listed_form(rule)),
        ),
{
    let pos = rules.insert_position(rule.protocol, priority);
    let after = rules.add(rule, priority);
    lemma_stored_entry_lists(rule);
    if rule.protocol == ip_protocol::TCP {
        assert(after.tcp.remove(pos) =~= rules.tcp);
    } else if rule.protocol == ip_protocol::UDP {
        assert(after.udp.remove(pos) =~= rules.udp);
    } else {
        assert(after.icmp.remove(pos) =~= rules.icmp);
    }
}

/// The tables are separate: adding a rule of one protocol leaves the rules,
/// the default and so the verdicts of every other protocol as they were.
pub proof fn lemma_add_keeps_other_protocols(
    rules: FirewallRulesView,
    rule: GeneralFirewallRule,
    priority: usize,
    saddr: u32,
    daddr: u32,
    sport: u16,
    dport: u16,
)
    ensures
        rule.protocol != ip_protocol::TCP ==> rules.add(rule, priority).permits_tcp(saddr, daddr, sport, dport)
            == rules.permits_tcp(saddr, daddr, sport, dport),
        rule.protocol != ip_protocol::UDP ==> rules.add(rule, priority).permits_udp(saddr, daddr, sport, dport)
            == rules.permits_udp(saddr, daddr, sport, dport),
        rule.protocol != ip_protocol::ICMP ==> rules.add(rule, priority).permits_icmp(saddr, daddr)
            == rules.permits_icmp(saddr, daddr),
{
}

/// The verdict that a listing gives traffic of `protocol`: the action of
/// the first listed rule of that protocol that matches it, else `default`.
pub open spec fn listing_verdict(
    listed: Seq<GeneralFirewallRule>,
    protocol: IpProtocol,
    saddr: u32,
    daddr: u32,
    sport: u16,
    dport: u16,
    default: RuleAction,
) -> bool
    decreases listed.len(),
{
    if listed.len() == 0 {
        default == RuleAction::Permit
    } else if listed[0].protocol == protocol && rule_matches(listed[0], saddr, daddr, sport, dport) {
        listed[0].action == RuleAction::Permit
    } else {
        listing_verdict(listed.drop_first(), protocol, saddr, daddr, sport, dport, default)
    }
}

/// Rules of other protocols ahead in a listing do not change its verdict.
proof fn lemma_verdict_skips_other_protocols(
    a: Seq<GeneralFirewallRule>,
    b: Seq<GeneralFirewallRule>,
    protocol: IpProtocol,
    saddr: u32,
    daddr: u32,
    sport: u16,
    dport: u16,
    default: RuleAction,
)
    requires
        forall|i: int| 0 <= i < a.len() ==> (#[trigger] a[i]).protocol != protocol,
    ensures
        listing_verdict(a + b, protocol, saddr, daddr, sport, dport, default) == listing_verdict(
            b,
            protocol,
            saddr,
            daddr,
            sport,
            dport,
            default,
        ),
    decreases a.len(),
{
    if a.len() == 0 {
        assert(a + b =~= b);
    } else {
        assert((a + b)[0] == a[0]);
        assert((a + b).drop_first() =~= a.drop_first() + b);
        assert forall|i: int| 0 <= i < a.drop_first().len() implies (#[trigger] a.drop_first()[i]).protocol
            != protocol by {
            assert(a.drop_first()[i] == a[i + 1]);
        }
        lemma_verdict_skips_other_protocols(a.drop_first(), b, protocol, saddr, daddr, sport, dport, default);
    }
}

/// The listing of a TCP or UDP table, followed by rules whose verdict is
/// the default, decides as the table does.
proof fn lemma_verdict_of_table(
    table: Seq<TcpRuleEntry>,
    b: Seq<GeneralFirewallRule>,
    protocol: IpProtocol,
    saddr: u32,
    daddr: u32,
    sport: u16,
    dport: u16,
    default: RuleAction,
)
    requires
        protocol == ip_protocol::TCP || protocol == ip_protocol::UDP,
        listing_verdict(b, protocol, saddr, daddr, sport, dport, default) == (default == RuleAction::Permit),
    ensures
        listing_verdict(
            table.map_values(|e: TcpRuleEntry| e.listed(protocol)) + b,
            protocol,
            saddr,
            daddr,
            sport,
            dport,
            default,
        ) == first_match_permits(table, saddr, daddr, sport, dport, default),
    decreases table.len(),
{
    let t = table.map_values(|e: TcpRuleEntry| e.listed(protocol));
    if table.len() == 0 {
        assert(t + b =~= b);
    } else {
        let e = table[0];
        assert((t + b)[0] == e.listed(protocol));
        lemma_to_be_involution(e.source);
        lemma_to_be_involution(e.dest);
        assert(stored_entry(e.listed(protocol)) == e);
        assert((t + b).drop_first() =~= table.drop_first().map_values(|e: TcpRuleEntry| e.listed(protocol)) + b);
        lemma_verdict_of_table(table.drop_first(), b, protocol, saddr, daddr, sport, dport, default);
    }
}

/// The listing of the ICMP table decides ICMP traffic as the table does.
proof fn lemma_verdict_of_icmp_table(
    table: Seq<IcmpRuleEntry>,
    saddr: u32,
    daddr: u32,
    sport: u16,
    dport: u16,
    default: RuleAction,
)
    ensures
        listing_verdict(
            table.map_values(|e: IcmpRuleEntry| e.listed()),
            ip_protocol::ICMP,
            saddr,
            daddr,
            sport,
            dport,
            default,
        ) == first_icmp_match_permits(table, saddr, daddr, default),
    decreases table.len(),
{
    let c = table.map_values(|e: IcmpRuleEntry| e.listed());
    if table.len() > 0 {
        let e = table[0];
        assert(c[0] == e.listed());
        lemma_swap_involution(e.source.ip, 0);
        lemma_swap_involution(e.source.mask, 0);
        lemma_swap_involution(e.dest.ip, 0);
        lemma_swap_involution(e.dest.mask, 0);
        assert(stored_icmp_entry(e.listed()) == e);
        assert(c.drop_first() =~= table.drop_first().map_values(|e: IcmpRuleEntry| e.listed()));
        lemma_verdict_of_icmp_table(table.drop_first(), saddr, daddr, sport, dport, default);
    }
}

/// The rules decide as their listing reads: traffic of a protocol gets the
/// action of the first listed rule of that protocol that matches it, its
/// endpoints taken in network byte order, and the protocol's default when
/// none does. ICMP rules list with ports 0, so any ports match them.
pub proof fn lemma_listing_decides(rules: FirewallRulesView, saddr: u32, daddr: u32, sport: u16, dport: u16)
    ensures
        rules.permits_tcp(saddr, daddr, sport, dport) == listing_verdict(
            rules.listed(),
            ip_protocol::TCP,
            saddr,
            daddr,
            sport,
            dport,
            rules.tcp_default,
        ),
        rules.permits_udp(saddr, daddr, sport, dport) == listing_verdict(
            rules.listed(),
            ip_protocol::UDP,
            saddr,
            daddr,
            sport,
            dport,
            rules.udp_default,
        ),
        rules.permits_icmp(saddr, daddr) == listing_verdict(
            rules.listed(),
            ip_protocol::ICMP,
            saddr,
            daddr,
            sport,
            dport,
            rules.icmp_default,
        ),
{
    let t = rules.tcp.map_values(|e: TcpRuleEntry| e.listed(ip_protocol::TCP));
    let u = rules.udp.map_values(|e: TcpRuleEntry| e.listed(ip_protocol::UDP));
    let c = rules.icmp.map_values(|e: IcmpRuleEntry| e.listed());
    let empty = Seq::<GeneralFirewallRule>::empty();
    assert(rules.listed() =~= t + (u + c));
    assert forall|i: int| 0 <= i < t.len() implies (#[trigger] t[i]).protocol == ip_protocol::TCP by {}
    assert forall|i: int| 0 <= i < u.len() implies (#[trigger] u[i]).protocol == ip_protocol::UDP by {}
    assert forall|i: int| 0 <= i < c.len() implies (#[trigger] c[i]).protocol == ip_protocol::ICMP by {}
    assert forall|i: int| 0 <= i < (u + c).len() implies (#[trigger] (u + c)[i]).protocol != ip_protocol::TCP by {
        if i < u.len() {
            assert((u + c)[i] == u[i]);
        } else {
            assert((u + c)[i] == c[i - u.len()]);
        }
    }
    assert forall|i: int| 0 <= i < (t + u).len() implies (#[trigger] (t + u)[i]).protocol != ip_protocol::ICMP by {
        if i < t.len() {
            assert((t + u)[i] == t[i]);
        } else {
            assert((t + u)[i] == u[i - t.len()]);
        }
    }
    // TCP
    lemma_verdict_skips_other_protocols(u + c, empty, ip_protocol::TCP, saddr, daddr, sport, dport, rules.tcp_default);
    assert(u + c + empty =~= u + c);
    lemma_verdict_of_table(rules.tcp, u + c, ip_protocol::TCP, saddr, daddr, sport, dport, rules.tcp_default);
    // UDP
    lemma_verdict_skips_other_protocols(t, u + c, ip_protocol::UDP, saddr, daddr, sport, dport, rules.udp_default);
    lemma_verdict_skips_other_protocols(c, empty, ip_protocol::UDP, saddr, daddr, sport, dport, rules.udp_default);
    assert(c + empty =~= c);
    lemma_verdict_of_table(rules.udp, c, ip_protocol::UDP, saddr, daddr, sport, dport, rules.udp_default);
    // ICMP
    assert(rules.listed() =~= (t + u) + c);
    lemma_verdict_skips_other_protocols(t + u, c, ip_protocol::ICMP, saddr, daddr, sport, dport, rules.icmp_default);
    lemma_verdict_of_icmp_table(rules.icmp, saddr, daddr, sport, dport, rules.icmp_default);
}

/// Whether a listed rule applies to traffic with these addresses and ports
/// as they stand in the packet: each address, under the rule's mask in
/// network byte order, equals the rule's masked address in network byte
/// order, and each port of the rule is 0 or, in network byte order, the
/// packet's port.
pub open spec fn listed_rule_applies(rule: GeneralFirewallRule, saddr: u32, daddr: u32, sport: u16, dport: u16) -> bool {
    &&& saddr & swap32(rule.source.mask) == swap32(rule.source.ip & rule.source.mask)
    &&& daddr & swap32(rule.dest.mask) == swap32(rule.dest.ip & rule.dest.mask)
    &&& (rule.source.port == 0 || swap16(rule.source.port) == sport)
    &&& (rule.dest.port == 0 || swap16(rule.dest.port) == dport)
}

/// Whether a listed ICMP rule applies to traffic between these addresses,
/// as [`listed_rule_applies`] compares them; ports play no part.
pub open spec fn listed_icmp_rule_applies(rule: GeneralFirewallRule, saddr: u32, daddr: u32) -> bool {
    &&& saddr & swap32(rule.source.mask) == swap32(rule.source.ip & rule.source.mask)
    &&& daddr & swap32(rule.dest.mask) == swap32(rule.dest.ip & rule.dest.mask)
}

/// [`listed_rule_applies`] for this traffic, as a predicate on rules.
pub open spec fn applies_to(saddr: u32, daddr: u32, sport: u16, dport: u16) -> spec_fn(GeneralFirewallRule) -> bool {
    |r: GeneralFirewallRule| listed_rule_applies(r, saddr, daddr, sport, dport)
}

/// [`listed_icmp_rule_applies`] for this traffic, as a predicate on rules.
pub open spec fn icmp_applies_to(saddr: u32, daddr: u32) -> spec_fn(GeneralFirewallRule) -> bool {
    |r: GeneralFirewallRule| listed_icmp_rule_applies(r, saddr, daddr)
}

/// Whether `i` is the first position of `listed` that holds a rule of
/// `protocol` for which `applies` holds.
pub open spec fn first_applying(
    listed: Seq<GeneralFirewallRule>,
    protocol: IpProtocol,
    applies: spec_fn(GeneralFirewallRule) -> bool,
    i: int,
) -> bool {
    &&& 0 <= i < listed.len()
    &&& listed[i].protocol == protocol
    &&& applies(listed[i])
    &&& forall|j: int| 0 <= j < i ==> !(listed[j].protocol == protocol && applies(#[trigger] listed[j]))
}

/// The first applying rule of the protocol decides a listing's verdict.
proof fn lemma_verdict_at_first(
    s: Seq<GeneralFirewallRule>,
    protocol: IpProtocol,
    applies: spec_fn(GeneralFirewallRule) -> bool,
    i: int,
    saddr: u32,
    daddr: u32,
    sport: u16,
    dport: u16,
    default: RuleAction,
)
    requires
        first_applying(s, protocol, applies, i),
        forall|k: int|
            0 <= k < s.len() && (#[trigger] s[k]).protocol == protocol ==> rule_matches(s[k], saddr, daddr, sport, dport)
                == applies(s[k]),
    ensures
        listing_verdict(s, protocol, saddr, daddr, sport, dport, default) == (s[i].action == RuleAction::Permit),
    decreases i,
{
    if i > 0 {
        let rest = s.drop_first();
        assert(!(s[0].protocol == protocol && applies(s[0])));
        assert(rest[i - 1] == s[i]);
        assert forall|j: int| 0 <= j < i - 1 implies !(rest[j].protocol == protocol && applies(
            #[trigger] rest[j],
        )) by {
            assert(rest[j] == s[j + 1]);
        }
        assert forall|k: int|
            0 <= k < rest.len() && (#[trigger] rest[k]).protocol == protocol implies rule_matches(
            rest[k],
            saddr,
            daddr,
            sport,
            dport,
        ) == applies(rest[k]) by {
            assert(rest[k] == s[k + 1]);
        }
        lemma_verdict_at_first(rest, protocol, applies, i - 1, saddr, daddr, sport, dport, default);
    }
}

/// Without an applying rule of the protocol, a listing gives the default.
proof fn lemma_verdict_without_applying(
    s: Seq<GeneralFirewallRule>,
    protocol: IpProtocol,
    applies: spec_fn(GeneralFirewallRule) -> bool,
    saddr: u32,
    daddr: u32,
    sport: u16,
    dport: u16,
    default: RuleAction,
)
    requires
        forall|k: int| 0 <= k < s.len() ==> !((#[trigger] s[k]).protocol == protocol && applies(s[k])),
        forall|k: int|
            0 <= k < s.len() && (#[trigger] s[k]).protocol == protocol ==> rule_matches(s[k], saddr, daddr, sport, dport)
                == applies(s[k]),
    ensures
        listing_verdict(s, protocol, saddr, daddr, sport, dport, default) == (default == RuleAction::Permit),
    decreases s.len(),
{
    if s.len() > 0 {
        let rest = s.drop_first();
        assert(!(s[0].protocol == protocol && applies(s[0])));
        assert forall|k: int| 0 <= k < rest.len() implies !((#[trigger] rest[k]).protocol == protocol && applies(
            rest[k],
        )) by {
            assert(rest[k] == s[k + 1]);
        }
        assert forall|k: int|
            0 <= k < rest.len() && (#[trigger] rest[k]).protocol == protocol implies rule_matches(
            rest[k],
            saddr,
            daddr,
            sport,
            dport,
        ) == applies(rest[k]) by {
            assert(rest[k] == s[k + 1]);
        }
        lemma_verdict_without_applying(rest, protocol, applies, saddr, daddr, sport, dport, default);
    }
}

/// A listed rule applies to traffic exactly when the entry stored for it
/// matches that traffic.
proof fn lemma_listed_rule_applies(rule: GeneralFirewallRule, saddr: u32, daddr: u32, sport: u16, dport: u16)
    ensures
        rule.protocol != ip_protocol::ICMP ==> rule_matches(rule, saddr, daddr, sport, dport)
            == listed_rule_applies(rule, saddr, daddr, sport, dport),
        rule.protocol == ip_protocol::ICMP ==> rule_matches(rule, saddr, daddr, sport, dport)
            == listed_icmp_rule_applies(rule, saddr, daddr),
{
    lemma_swap_and(rule.source.ip, rule.source.mask, rule.source.port);
    lemma_swap_and(rule.dest.ip, rule.dest.mask, rule.dest.port);
}

/// The rule tables decide as their listing reads, in the listing's own
/// terms: TCP or UDP traffic gets the action of the first listed rule of
/// its protocol that applies to it ([`listed_rule_applies`]), and ICMP
/// traffic that of the first listed ICMP rule that applies to its
/// addresses, whatever its ports ([`listed_icmp_rule_applies`]); traffic
/// that no listed rule of its protocol applies to gets the protocol's
/// default.
pub proof fn lemma_first_listed_rule_decides(rules: FirewallRulesView, saddr: u32, daddr: u32, sport: u16, dport: u16)
    ensures
        forall|i: int|
            #[trigger] first_applying(
                rules.listed(),
                ip_protocol::TCP,
                applies_to(saddr, daddr, sport, dport),
                i,
            ) ==> rules.permits_tcp(saddr, daddr, sport, dport) == (rules.listed()[i].action == RuleAction::Permit),
        (forall|i: int|
            0 <= i < rules.listed().len() ==> !((#[trigger] rules.listed()[i]).protocol == ip_protocol::TCP
                && listed_rule_applies(rules.listed()[i], saddr, daddr, sport, dport))) ==> rules.permits_tcp(
            saddr,
            daddr,
            sport,
            dport,
        ) == (rules.tcp_default == RuleAction::Permit),
        forall|i: int|
            #[trigger] first_applying(
                rules.listed(),
                ip_protocol::UDP,
                applies_to(saddr, daddr, sport, dport),
                i,
            ) ==> rules.permits_udp(saddr, daddr, sport, dport) == (rules.listed()[i].action == RuleAction::Permit),
        (forall|i: int|
            0 <= i < rules.listed().len() ==> !((#[trigger] rules.listed()[i]).protocol == ip_protocol::UDP
                && listed_rule_applies(rules.listed()[i], saddr, daddr, sport, dport))) ==> rules.permits_udp(
            saddr,
            daddr,
            sport,
            dport,
        ) == (rules.udp_default == RuleAction::Permit),
        forall|i: int|
            #[trigger] first_applying(
                rules.listed(),
                ip_protocol::ICMP,
                icmp_applies_to(saddr, daddr),
                i,
            ) ==> rules.permits_icmp(saddr, daddr) == (rules.listed()[i].action == RuleAction::Permit),
        (forall|i: int|
            0 <= i < rules.listed().len() ==> !((#[trigger] rules.listed()[i]).protocol == ip_protocol::ICMP
                && listed_icmp_rule_applies(rules.listed()[i], saddr, daddr))) ==> rules.permits_icmp(saddr, daddr)
            == (rules.icmp_default == RuleAction::Permit),
{
    let l = rules.listed();
    let at = applies_to(saddr, daddr, sport, dport);
    let ai = icmp_applies_to(saddr, daddr);
    lemma_listing_decides(rules, saddr, daddr, sport, dport);
    assert forall|k: int| 0 <= k < l.len() && (#[trigger] l[k]).protocol == ip_protocol::TCP implies rule_matches(
        l[k],
        saddr,
        daddr,
        sport,
        dport,
    ) == at(l[k]) by {
        lemma_listed_rule_applies(l[k], saddr, daddr, sport, dport);
    }
    assert forall|k: int| 0 <= k < l.len() && (#[trigger] l[k]).protocol == ip_protocol::UDP implies rule_matches(
        l[k],
        saddr,
        daddr,
        sport,
        dport,
    ) == at(l[k]) by {
        lemma_listed_rule_applies(l[k], saddr, daddr, sport, dport);
    }
    assert forall|k: int| 0 <= k < l.len() && (#[trigger] l[k]).protocol == ip_protocol::ICMP implies rule_matches(
        l[k],
        saddr,
        daddr,
        sport,
        dport,
    ) == ai(l[k]) by {
        lemma_listed_rule_applies(l[k], saddr, daddr, sport, dport);
    }
    assert forall|i: int| #[trigger] first_applying(l, ip_protocol::TCP, at, i) implies rules.permits_tcp(
        saddr,
        daddr,
        sport,
        dport,
    ) == (l[i].action == RuleAction::Permit) by {
        lemma_verdict_at_first(l, ip_protocol::TCP, at, i, saddr, daddr, sport, dport, rules.tcp_default);
    }
    assert forall|i: int| #[trigger] first_applying(l, ip_protocol::UDP, at, i) implies rules.permits_udp(
        saddr,
        daddr,
        sport,
        dport,
    ) == (l[i].action == RuleAction::Permit) by {
        lemma_verdict_at_first(l, ip_protocol::UDP, at, i, saddr, daddr, sport, dport, rules.udp_default);
    }
    assert forall|i: int| #[trigger] first_applying(l, ip_protocol::ICMP, ai, i) implies rules.permits_icmp(
        saddr,
        daddr,
    ) == (l[i].action == RuleAction::Permit) by {
        lemma_verdict_at_first(l, ip_protocol::ICMP, ai, i, saddr, daddr, sport, dport, rules.icmp_default);
    }
    if forall|i: int| 0 <= i < l.len() ==> !((#[trigger] l[i]).protocol == ip_protocol::TCP && at(l[i])) {
        lemma_verdict_without_applying(l, ip_protocol::TCP, at, saddr, daddr, sport, dport, rules.tcp_default);
    }
    if forall|i: int| 0 <= i < l.len() ==> !((#[trigger] l[i]).protocol == ip_protocol::UDP && at(l[i])) {
        lemma_verdict_without_applying(l, ip_protocol::UDP, at, saddr, daddr, sport, dport, rules.udp_default);
    }
    if forall|i: int| 0 <= i < l.len() ==> !((#[trigger] l[i]).protocol == ip_protocol::ICMP && ai(l[i])) {
        lemma_verdict_without_applying(l, ip_protocol::ICMP, ai, saddr, daddr, sport, dport, rules.icmp_default);
    }
}

} // verus!
