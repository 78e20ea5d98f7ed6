# stateful_firewall

A stateful IPv4 firewall, verified with Verus: the rule tables and the
connection tracking that decide the fate of each TCP, UDP and ICMP echo
packet, the binary message format spoken between the kernel module and its
control client, and the client's command-line parsing and rule listing.

## Layout

- `src/packet/` — the binary format: little-endian integers, serializers and
  deserializers with exact byte-level contracts, and the firewall messages
  (`FirewallMessage`, `FirewallRule`, `FilterRule`, `CapturedPacket`), each
  proved to read back what it writes.
- `src/net/` — IPv4, TCP, UDP and ICMP headers read from packet bytes.
- `src/firewall/` — the rule tables (`rule.rs`), connection tracking
  (`state.rs`) and the verdict on each packet (`firewall.rs`), with the laws
  that tie them together: the first matching rule decides, unmatched traffic
  gets the protocol's default, deleting undoes adding, and an accepted
  session keeps passing whatever the rules become.
- `src/netfilter.rs`, `src/netlink.rs`, `src/memory.rs`, `src/printk.rs`,
  `src/spinlock.rs` — the kernel-side settings and helpers that hold plain
  data.
- `src/client.rs`, `src/utils.rs` — endpoint and protocol parsing, and the
  text of addresses and rule listings.
- `app/` — the control client program: argument handling and the netlink
  socket.
- `tests/` — tests run against the compiled library.
