# xarxa

The logic of a small TCP/IP stack, with contracts that Verus proves.

The library takes frames and packets as octets and says what is to be done about them. It owns
no device, no clock and no random number generator: what those give is an argument, and what
is to be sent is a result.

- `src/wire/` reads and writes packets: addresses and networks, IPv4, IPv6, TCP, UDP, ICMP, ARP,
  and the Internet checksum. The model of a header is a struct of integers. A law for each
  setter says that it changes its field and no other.
- `src/stack.rs` holds the interfaces and sockets of a stack, and makes routing decisions.
- `src/ingress.rs`, `src/control.rs` and `src/discovery.rs` process what is received.
- `src/egress.rs`, `src/link.rs` and `src/reply.rs` build what is sent, and resolve neighbors.
- `src/pending.rs` keeps packets while their neighbor is being resolved.
- `src/poll.rs` says in what order a stack is polled.
- `src/endian.rs` and `src/hostname.rs` hold the calls into `byteorder` and `heapless`. Their
  contracts are trusted.
- `app/` is ordinary Rust around the library: text and serde forms of the addresses, the traits
  of a device and of the tables that a stack consults, and the loop that polls.
