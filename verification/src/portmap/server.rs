//! What the port mapping protocols share: the router's addresses, the clock,
//! and which protocol a datagram belongs to.
use vstd::prelude::*;

use crate::addr::{Ipv4Addr, Ipv4Net};
use crate::portmap::config::PortmapConfig;

verus! {

/// Longest lifetime that a client is granted, in seconds.
pub const MAX_LIFETIME_SECS: u64 = 7200;

/// What a server needs to know of its router.
#[derive(Clone, Copy, Debug)]
pub struct ServerContext {
    /// The router's external address.
    pub wan_ip: Ipv4Addr,
    /// The network that clients must belong to.
    pub downstream_cidr: Ipv4Net,
    /// Longest lifetime granted, in seconds.
    pub max_lifetime_secs: u64,
}

impl ServerContext {
    /// The client network is a network, and a deadline counted from `now`
    /// milliseconds on fits the clock.
    pub open spec fn wf(self, now: u64) -> bool {
        self.downstream_cidr.wf() && now + self.max_lifetime_secs * 1000 <= u64::MAX
    }

    /// The lifetime granted for a request, in seconds.
    pub open spec fn grant(self, requested: u64) -> u64 {
        if requested <= self.max_lifetime_secs {
            requested
        } else {
            self.max_lifetime_secs
        }
    }

    /// The lifetime granted for a request, in seconds.
    pub fn granted(&self, requested: u64) -> (r: u64)
        ensures
            r == self.grant(requested),
    {
        if requested <= self.max_lifetime_secs {
            requested
        } else {
            self.max_lifetime_secs
        }
    }

    /// The context of a router with the standard limit on lifetimes.
    pub fn new(wan_ip: Ipv4Addr, downstream_cidr: Ipv4Net) -> (r: ServerContext)
        ensures
            r.wan_ip == wan_ip,
            r.downstream_cidr == downstream_cidr,
            r.max_lifetime_secs == MAX_LIFETIME_SECS,
    {
        ServerContext { wan_ip, downstream_cidr, max_lifetime_secs: MAX_LIFETIME_SECS }
    }
}

/// Seconds since the server started, as 32 bits that wrap.
pub open spec fn epoch(now: u64) -> u32 {
    ((now / 1000) as int % 0x1_0000_0000) as u32
}

/// Seconds since the server started, as 32 bits that wrap.
pub fn epoch_time(now: u64) -> (r: u32)
    ensures
        r == epoch(now),
{
    ((now / 1000) % 0x1_0000_0000) as u32
}

/// The protocol that a datagram on UDP 5351 belongs to.
#[derive(Clone, Copy, Debug, PartialEq, Eq, Structural)]
pub enum Dispatch {
    /// NAT-PMP, version 0.
    NatPmp,
    /// PCP, version 2.
    Pcp,
    /// Neither, or the protocol is switched off.
    Ignore,
}

/// Picks the protocol by the version byte, among those that are enabled.
pub fn dispatch(packet: &[u8], cfg: PortmapConfig) -> (r: Dispatch)
    ensures
        r is NatPmp == (packet@.len() > 0 && packet@[0] == 0 && cfg.enable_nat_pmp),
        r is Pcp == (packet@.len() > 0 && packet@[0] == 2 && cfg.enable_pcp),
{
    if packet.len() == 0 {
        Dispatch::Ignore
    } else if packet[0] == crate::portmap::nat_pmp::VERSION && cfg.enable_nat_pmp {
        Dispatch::NatPmp
    } else if packet[0] == crate::portmap::pcp::VERSION && cfg.enable_pcp {
        Dispatch::Pcp
    } else {
        Dispatch::Ignore
    }
}

} // verus!
