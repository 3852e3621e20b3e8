# patchbay

Network labs on Linux namespaces: routers with NAT and firewalls, devices with
impaired links, regions with latency between them, DNS, port mapping, NAT64 and
load balancers.

- `src/` is the library: addresses and pools, the topology and its changes,
  nftables and `tc` rules, the port mapping protocols, NAT64, DNS answers, lab
  configurations, events and the state they add up to. Every function has a
  contract, and Verus proves it. What the library takes from other crates is
  stated beside the few functions that call them.
- `tests/` runs the library on concrete values.
- `app/` is the rest: namespaces, netlink, sockets, files, containers and the
  handles that users hold. It asks the library what to do and does it.

A lab is a `NetworkCore` (`src/topology/`). Builders and handles change it and get
plans back: which links to lay, which addresses and routes to set, which rules to
load. `src/topology/laws.rs` states what every change keeps: identifiers and
namespaces are unique, interfaces of a device have names of their own, addresses
lie in their subnets and differ.
