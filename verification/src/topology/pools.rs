//! The address pools.
use vstd::prelude::*;

use crate::addr::{Ipv4Addr, Ipv4Net, Ipv6Addr, Ipv6Net};
use crate::text::{dec, push_dec};
use crate::topology::regions::{region_base, region_net};
use crate::topology::types::{CoreError, CoreView, NetworkCore, NodeId, SwitchView};

verus! {

/// The link-local address whose interface part is `seed`.
pub open spec fn link_local(seed: u64) -> Ipv6Addr {
    Ipv6Addr { bits: (0xfe80_0000_0000_0000_0000_0000_0000_0000 + seed as int) as u128 }
}

/// The link-local address whose interface part is `seed`.
pub fn link_local_from_seed(seed: u64) -> (r: Ipv6Addr)
    ensures
        r == link_local(seed),
{
    Ipv6Addr { bits: 0xfe80_0000_0000_0000_0000_0000_0000_0000 + seed as u128 }
}

/// A seed from two numbers below 2^32.
pub open spec fn seed_of_two(a: u64, b: u64) -> u64 {
    ((a as int % 0x1_0000_0000) * 0x1_0000_0000 + b as int % 0x1_0000_0000) as u64
}

/// A seed from two numbers; numbers below 2^32 give different seeds.
pub fn seed2(a: u64, b: u64) -> (r: u64)
    ensures
        r == seed_of_two(a, b),
{
    (a % 0x1_0000_0000) * 0x1_0000_0000 + b % 0x1_0000_0000
}

/// A seed from two numbers below 2^24 and a tag.
pub open spec fn seed_of_three(a: u64, b: u64, c: u16) -> u64 {
    ((a as int % 0x100_0000) * 0x100_0000_0000 + (b as int % 0x100_0000) * 0x1_0000
        + c as int) as u64
}

/// A seed from two numbers and a tag; numbers below 2^24 give different seeds.
pub fn seed3(a: u64, b: u64, c: u16) -> (r: u64)
    ensures
        r == seed_of_three(a, b, c),
{
    (a % 0x100_0000) * 0x100_0000_0000 + (b % 0x100_0000) * 0x1_0000 + c as u64
}

/// The tag of a router's downstream link-local address.
pub const DOWNSTREAM_TAG: u16 = 0xa5a5;

/// The host with that number in a subnet: 0 and 255 are no hosts.
pub open spec fn subnet_host(cidr: Ipv4Net, host: u8) -> Result<Ipv4Addr, CoreError> {
    if host == 0 || host == 255 {
        Err(CoreError::HostPoolExhausted)
    } else {
        Ok(cidr.addr.host(host as int))
    }
}

/// The host with that number in a subnet.
pub fn add_host(cidr: Ipv4Net, host: u8) -> (r: Result<Ipv4Addr, CoreError>)
    ensures
        r == subnet_host(cidr, host),
{
    if host == 0 || host == 255 {
        Err(CoreError::HostPoolExhausted)
    } else {
        Ok(cidr.addr.with_host(host))
    }
}

/// The network of an address with a prefix.
pub open spec fn net4(addr: Ipv4Addr, prefix_len: u8) -> Ipv4Net {
    Ipv4Net { addr, prefix_len }
}

/// The network of an IPv6 address with a prefix.
pub open spec fn net6(addr: Ipv6Addr, prefix_len: u8) -> Ipv6Net {
    Ipv6Net { addr, prefix_len }
}

impl CoreView {
    /// The topology after the next identifier was handed out.
    pub open spec fn took_id(self) -> CoreView {
        CoreView { next_id: (self.next_id + 1) as u64, ..self }
    }

    /// Handing out an address of the exchange: numbers up to 254.
    pub open spec fn alloc_ix(self) -> (CoreView, Result<Ipv4Addr, CoreError>) {
        let host = self.next_ix_low;
        if host == 0 || host == 255 {
            (self, Err(CoreError::IxPoolExhausted))
        } else {
            (
                CoreView { next_ix_low: (host + 1) as u8, ..self },
                Ok(self.cfg.ix_gw.host(host as int)),
            )
        }
    }

    /// Handing out an IPv6 address of the exchange.
    pub open spec fn alloc_ix_v6(self) -> (CoreView, Result<Ipv6Addr, CoreError>) {
        let host = self.next_ix_low_v6;
        if host == u16::MAX {
            (self, Err(CoreError::IxPoolExhausted))
        } else {
            (
                CoreView { next_ix_low_v6: (host + 1) as u16, ..self },
                Ok(self.cfg.ix_gw_v6.host(host as int)),
            )
        }
    }

    /// Handing out a private /24.
    pub open spec fn alloc_private(self) -> (CoreView, Result<Ipv4Net, CoreError>) {
        let n = self.next_private_subnet;
        if n == u16::MAX {
            (self, Err(CoreError::SubnetPoolExhausted))
        } else {
            (
                CoreView { next_private_subnet: (n + 1) as u16, ..self },
                Ok(net4(self.cfg.private_cidr.addr.block(n as int % 256), 24)),
            )
        }
    }

    /// Handing out a public /24.
    pub open spec fn alloc_public(self) -> (CoreView, Result<Ipv4Net, CoreError>) {
        let n = self.next_public_subnet;
        if n == u16::MAX {
            (self, Err(CoreError::SubnetPoolExhausted))
        } else {
            (
                CoreView { next_public_subnet: (n + 1) as u16, ..self },
                Ok(net4(self.cfg.public_cidr.addr.block(n as int % 256), 24)),
            )
        }
    }

    /// Handing out a private /64.
    pub open spec fn alloc_private_v6(self) -> (CoreView, Result<Ipv6Net, CoreError>) {
        let n = self.next_private_subnet_v6;
        if n == u16::MAX {
            (self, Err(CoreError::SubnetPoolExhausted))
        } else {
            (
                CoreView { next_private_subnet_v6: (n + 1) as u16, ..self },
                Ok(net6(self.cfg.private_cidr_v6.addr.subnet(n as int), 64)),
            )
        }
    }

    /// Handing out a public /64.
    pub open spec fn alloc_public_v6(self) -> (CoreView, Result<Ipv6Net, CoreError>) {
        let n = self.next_public_subnet_v6;
        if n == u16::MAX {
            (self, Err(CoreError::SubnetPoolExhausted))
        } else {
            (
                CoreView { next_public_subnet_v6: (n + 1) as u16, ..self },
                Ok(net6(self.cfg.public_cidr_v6.addr.subnet(n as int), 64)),
            )
        }
    }

    /// The topology with one switch replaced.
    pub open spec fn with_switch(self, id: NodeId, sw: SwitchView) -> CoreView {
        CoreView { switches: self.switches.insert(id, sw), ..self }
    }

    /// Handing out a host address of a switch.
    pub open spec fn alloc_host(self, id: NodeId) -> (CoreView, Result<Ipv4Addr, CoreError>) {
        if !self.switches.contains_key(id) {
            (self, Err(CoreError::UnknownSwitch))
        } else {
            let sw = self.switches[id];
            match sw.cidr {
                None => (self, Err(CoreError::NoCidr)),
                Some(cidr) => match subnet_host(cidr, sw.next_host) {
                    Err(e) => (self, Err(e)),
                    Ok(ip) => (
                        self.with_switch(
                            id,
                            SwitchView { next_host: (sw.next_host + 1) as u8, ..sw },
                        ),
                        Ok(ip),
                    ),
                },
            }
        }
    }

    /// Handing out an IPv6 host address of a switch.
    pub open spec fn alloc_host_v6(self, id: NodeId) -> (CoreView, Result<Ipv6Addr, CoreError>) {
        if !self.switches.contains_key(id) {
            (self, Err(CoreError::UnknownSwitch))
        } else {
            let sw = self.switches[id];
            match sw.cidr_v6 {
                None => (self, Err(CoreError::NoCidrV6)),
                Some(cidr) => if sw.next_host_v6 == u8::MAX {
                    (self, Err(CoreError::HostPoolExhausted))
                } else {
                    (
                        self.with_switch(
                            id,
                            SwitchView { next_host_v6: (sw.next_host_v6 + 1) as u8, ..sw },
                        ),
                        Ok(cidr.addr.host(sw.next_host_v6 as int)),
                    )
                },
            }
        }
    }

    /// Handing out a region index, 1 to 16.
    pub open spec fn alloc_region(self) -> (CoreView, Result<u8, CoreError>) {
        let idx = self.next_region_idx;
        if idx > 16 {
            (self, Err(CoreError::RegionPoolExhausted))
        } else {
            (CoreView { next_region_idx: (idx + 1) as u8, ..self }, Ok(idx))
        }
    }

    /// Handing out a public /24 of a region's block: one after the other.
    pub open spec fn alloc_region_public(self, name: Seq<char>) -> (
        CoreView,
        Result<Ipv4Net, CoreError>,
    ) {
        if !self.regions.contains_key(name) {
            (self, Err(CoreError::UnknownRegion))
        } else {
            let region = self.regions[name];
            let n = region.next_downstream;
            if n > 15 {
                (self, Err(CoreError::SubnetPoolExhausted))
            } else {
                let next = crate::topology::types::RegionInfo {
                    next_downstream: (n + 1) as u8,
                    ..region
                };
                (
                    CoreView { regions: self.regions.insert(name, next), ..self },
                    Ok(net4(Ipv4Addr { bits: (region_net(region.idx).bits + n * 256) as u32 }, 24)),
                )
            }
        }
    }

    /// Handing out the two addresses of a link between regions, out of
    /// `203.0.113.0/24`.
    pub open spec fn alloc_link(self) -> (CoreView, Result<(Ipv4Addr, Ipv4Addr), CoreError>) {
        let n = self.next_interregion_subnet;
        if n >= 64 {
            (self, Err(CoreError::LinkPoolExhausted))
        } else {
            (
                CoreView { next_interregion_subnet: (n + 1) as u8, ..self },
                Ok((Ipv4Addr::of(203, 0, 113, n * 4 + 1), Ipv4Addr::of(203, 0, 113, n * 4 + 2))),
            )
        }
    }

    /// Handing out the two IPv6 addresses of a link between regions, out of
    /// `fd11::/48`.
    pub open spec fn alloc_link_v6(self) -> (CoreView, Result<(Ipv6Addr, Ipv6Addr), CoreError>) {
        let n = self.next_interregion_subnet_v6;
        if n >= 64 {
            (self, Err(CoreError::LinkPoolExhausted))
        } else {
            (
                CoreView { next_interregion_subnet_v6: (n + 1) as u8, ..self },
                Ok(
                    (
                        Ipv6Addr::of(0xfd11, 0, 0, n as int, 0, 0, 0, 1),
                        Ipv6Addr::of(0xfd11, 0, 0, n as int, 0, 0, 0, 2),
                    ),
                ),
            )
        }
    }

    /// The name of the next bridge.
    pub open spec fn bridge_name(self) -> Seq<char> {
        "br-"@ + self.cfg.bridge_tag@ + "-"@ + dec(self.bridge_counter as nat)
    }

    /// The topology after a bridge name was handed out.
    pub open spec fn took_bridge(self) -> CoreView {
        CoreView {
            bridge_counter: if self.bridge_counter < u32::MAX {
                (self.bridge_counter + 1) as u32
            } else {
                u32::MAX
            },
            ..self
        }
    }
}

impl NetworkCore {
    /// Hands out the next identifier.
    pub fn alloc_id(&mut self) -> (r: u64)
        requires
            old(self).wf(),
            old(self).next_id < u64::MAX,
        ensures
            final(self).wf(),
            r == old(self)@.next_id,
            final(self)@ == old(self)@.took_id(),
    {
        let id = self.next_id;
        self.next_id = id + 1;
        id
    }

    /// Hands out the next bridge name.
    pub fn next_bridge_name(&mut self) -> (r: String)
        requires
            old(self).wf(),
        ensures
            final(self).wf(),
            r@ == old(self)@.bridge_name(),
            final(self)@ == old(self)@.took_bridge(),
    {
        let mut name = "br-".to_owned();
        name.append(self.cfg.bridge_tag.as_str());
        name.append("-");
        push_dec(&mut name, self.bridge_counter as u64);
        if self.bridge_counter < u32::MAX {
            self.bridge_counter = self.bridge_counter + 1;
        }
        name
    }

    /// Hands out the next address of the exchange.
    pub fn alloc_ix_ip_low(&mut self) -> (r: Result<Ipv4Addr, CoreError>)
        requires
            old(self).wf(),
        ensures
            final(self).wf(),
            (final(self)@, r) == old(self)@.alloc_ix(),
    {
        let host = self.next_ix_low;
        if host == 0 || host == 255 {
            return Err(CoreError::IxPoolExhausted);
        }
        self.next_ix_low = host + 1;
        Ok(self.cfg.ix_gw.with_host(host))
    }

    /// Hands out the next IPv6 address of the exchange.
    pub fn alloc_ix_ip_v6_low(&mut self) -> (r: Result<Ipv6Addr, CoreError>)
        requires
            old(self).wf(),
        ensures
            final(self).wf(),
            (final(self)@, r) == old(self)@.alloc_ix_v6(),
    {
        let host = self.next_ix_low_v6;
        if host == u16::MAX {
            return Err(CoreError::IxPoolExhausted);
        }
        self.next_ix_low_v6 = host + 1;
        Ok(self.cfg.ix_gw_v6.with_host(host))
    }

    /// Hands out the next private /24.
    pub fn alloc_private_cidr(&mut self) -> (r: Result<Ipv4Net, CoreError>)
        requires
            old(self).wf(),
        ensures
            final(self).wf(),
            (final(self)@, r) == old(self)@.alloc_private(),
    {
        let n = self.next_private_subnet;
        if n == u16::MAX {
            return Err(CoreError::SubnetPoolExhausted);
        }
        self.next_private_subnet = n + 1;
        let addr = self.cfg.private_cidr.addr.with_block((n % 256) as u8);
        Ok(Ipv4Net { addr, prefix_len: 24 })
    }

    /// Hands out the next public /24.
    pub fn alloc_public_cidr(&mut self) -> (r: Result<Ipv4Net, CoreError>)
        requires
            old(self).wf(),
        ensures
            final(self).wf(),
            (final(self)@, r) == old(self)@.alloc_public(),
    {
        let n = self.next_public_subnet;
        if n == u16::MAX {
            return Err(CoreError::SubnetPoolExhausted);
        }
        self.next_public_subnet = n + 1;
        let addr = self.cfg.public_cidr.addr.with_block((n % 256) as u8);
        Ok(Ipv4Net { addr, prefix_len: 24 })
    }

    /// Hands out the next private /64.
    pub fn alloc_private_cidr_v6(&mut self) -> (r: Result<Ipv6Net, CoreError>)
        requires
            old(self).wf(),
        ensures
            final(self).wf(),
            (final(self)@, r) == old(self)@.alloc_private_v6(),
    {
        let n = self.next_private_subnet_v6;
        if n == u16::MAX {
            return Err(CoreError::SubnetPoolExhausted);
        }
        self.next_private_subnet_v6 = n + 1;
        let addr = self.cfg.private_cidr_v6.addr.with_subnet(n);
        Ok(Ipv6Net { addr, prefix_len: 64 })
    }

    /// Hands out the next public /64.
    pub fn alloc_public_cidr_v6(&mut self) -> (r: Result<Ipv6Net, CoreError>)
        requires
            old(self).wf(),
        ensures
            final(self).wf(),
            (final(self)@, r) == old(self)@.alloc_public_v6(),
    {
        let n = self.next_public_subnet_v6;
        if n == u16::MAX {
            return Err(CoreError::SubnetPoolExhausted);
        }
        self.next_public_subnet_v6 = n + 1;
        let addr = self.cfg.public_cidr_v6.addr.with_subnet(n);
        Ok(Ipv6Net { addr, prefix_len: 64 })
    }

    /// Hands out the next host address of a switch.
    pub fn alloc_from_switch(&mut self, sw: NodeId) -> (r: Result<Ipv4Addr, CoreError>)
        requires
            old(self).wf(),
        ensures
            final(self).wf(),
            (final(self)@, r) == old(self)@.alloc_host(sw),
    {
        let (cidr, host) = match self.switches.get(&sw) {
            None => {
                return Err(CoreError::UnknownSwitch);
            },
            Some(entry) => match entry.cidr {
                None => {
                    return Err(CoreError::NoCidr);
                },
                Some(cidr) => (cidr, entry.next_host),
            },
        };
        let ip = match add_host(cidr, host) {
            Err(e) => {
                return Err(e);
            },
            Ok(ip) => ip,
        };
        if let Some(entry) = self.switches.get_mut(&sw) {
            entry.next_host = host + 1;
        }
        Ok(ip)
    }

    /// Hands out the next IPv6 host address of a switch.
    pub fn alloc_from_switch_v6(&mut self, sw: NodeId) -> (r: Result<Ipv6Addr, CoreError>)
        requires
            old(self).wf(),
        ensures
            final(self).wf(),
            (final(self)@, r) == old(self)@.alloc_host_v6(sw),
    {
        let (cidr, host) = match self.switches.get(&sw) {
            None => {
                return Err(CoreError::UnknownSwitch);
            },
            Some(entry) => match entry.cidr_v6 {
                None => {
                    return Err(CoreError::NoCidrV6);
                },
                Some(cidr) => (cidr, entry.next_host_v6),
            },
        };
        if host == u8::MAX {
            return Err(CoreError::HostPoolExhausted);
        }
        if let Some(entry) = self.switches.get_mut(&sw) {
            entry.next_host_v6 = host + 1;
        }
        Ok(cidr.addr.with_host(host as u16))
    }

    /// Hands out the next region index, 1 to 16.
    pub fn alloc_region_idx(&mut self) -> (r: Result<u8, CoreError>)
        requires
            old(self).wf(),
        ensures
            final(self).wf(),
            (final(self)@, r) == old(self)@.alloc_region(),
    {
        let idx = self.next_region_idx;
        if idx > 16 {
            return Err(CoreError::RegionPoolExhausted);
        }
        self.next_region_idx = idx + 1;
        Ok(idx)
    }

    /// Hands out the next public /24 of a region's block.
    pub fn alloc_region_public_cidr(&mut self, region_name: &str) -> (r: Result<Ipv4Net, CoreError>)
        requires
            old(self).wf(),
        ensures
            final(self).wf(),
            (final(self)@, r) == old(self)@.alloc_region_public(region_name@),
    {
        let key = region_name.to_owned();
        let region = match self.regions.get(&key) {
            None => {
                return Err(CoreError::UnknownRegion);
            },
            Some(region) => *region,
        };
        let offset = region.next_downstream;
        if offset > 15 {
            return Err(CoreError::SubnetPoolExhausted);
        }
        self.regions.insert(
            key,
            crate::topology::types::RegionInfo { next_downstream: offset + 1, ..region },
        );
        let base = region_base(region.idx);
        Ok(Ipv4Net { addr: Ipv4Addr { bits: base.bits + offset as u32 * 256 }, prefix_len: 24 })
    }

    /// Hands out the two addresses of a link between regions.
    pub fn alloc_interregion_ips(&mut self) -> (r: Result<(Ipv4Addr, Ipv4Addr), CoreError>)
        requires
            old(self).wf(),
        ensures
            final(self).wf(),
            (final(self)@, r) == old(self)@.alloc_link(),
    {
        let offset = self.next_interregion_subnet;
        if offset >= 64 {
            return Err(CoreError::LinkPoolExhausted);
        }
        self.next_interregion_subnet = offset + 1;
        let base: u8 = offset * 4;
        Ok((Ipv4Addr::new(203, 0, 113, base + 1), Ipv4Addr::new(203, 0, 113, base + 2)))
    }

    /// Hands out the two IPv6 addresses of a link between regions.
    pub fn alloc_interregion_ips_v6(&mut self) -> (r: Result<(Ipv6Addr, Ipv6Addr), CoreError>)
        requires
            old(self).wf(),
        ensures
            final(self).wf(),
            (final(self)@, r) == old(self)@.alloc_link_v6(),
    {
        let offset = self.next_interregion_subnet_v6;
        if offset >= 64 {
            return Err(CoreError::LinkPoolExhausted);
        }
        self.next_interregion_subnet_v6 = offset + 1;
        let n: u16 = offset as u16;
        Ok(
            (
                Ipv6Addr::new(0xfd11, 0, 0, n, 0, 0, 0, 1),
                Ipv6Addr::new(0xfd11, 0, 0, n, 0, 0, 0, 2),
            ),
        )
    }
}

/// Two addresses handed out by one switch, one after the other, are different.
pub proof fn switch_hosts_differ(c: CoreView, sw: NodeId)
    requires
        c.alloc_host(sw).1 is Ok,
        c.alloc_host(sw).0.alloc_host(sw).1 is Ok,
    ensures
        c.alloc_host(sw).1 != c.alloc_host(sw).0.alloc_host(sw).1,
{
    let cidr = c.switches[sw].cidr->0;
    let n = c.switches[sw].next_host as int;
    assert(cidr.addr.host(n).bits != cidr.addr.host(n + 1).bits);
}

/// Two links between regions, handed out one after the other, share no
/// address.
pub proof fn link_addresses_differ(c: CoreView)
    requires
        c.alloc_link().1 is Ok,
        c.alloc_link().0.alloc_link().1 is Ok,
    ensures
        ({
            let x = c.alloc_link().1->Ok_0;
            let y = c.alloc_link().0.alloc_link().1->Ok_0;
            x.0 != x.1 && x.0 != y.0 && x.0 != y.1 && x.1 != y.0 && x.1 != y.1
        }),
{
}

} // verus!
