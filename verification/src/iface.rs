//! Configuration of a device interface.
use vstd::prelude::*;

use crate::addr::{Ipv4Net, Ipv6Net};
use crate::profile::LinkDirection;
use crate::qdisc::LinkCondition;
use crate::topology::types::NodeId;

verus! {

/// Configuration of a device network interface.
///
/// A routed interface connects to a router's downstream bridge; its addresses
/// come from the router's pool unless they are set here. A dummy interface has
/// no gateway and only the addresses that are set here.
#[derive(Clone, Copy, Debug)]
pub struct IfaceConfig {
    /// Router whose downstream bridge this interface connects to. `None` for
    /// dummy interfaces.
    pub gateway: Option<NodeId>,
    /// Explicit IPv4 address with prefix length.
    pub addr: Option<Ipv4Net>,
    /// Explicit IPv6 address with prefix length.
    pub addr_v6: Option<Ipv6Net>,
    /// Initial egress impairment.
    pub egress: Option<LinkCondition>,
    /// Initial ingress impairment. Ignored for dummy interfaces.
    pub ingress: Option<LinkCondition>,
    /// If true, the interface is created in link-down state.
    pub start_down: bool,
}

/// An interface with a gateway, or none, and nothing else set.
pub open spec fn bare_config(gateway: Option<NodeId>) -> IfaceConfig {
    IfaceConfig {
        gateway,
        addr: None,
        addr_v6: None,
        egress: None,
        ingress: None,
        start_down: false,
    }
}

impl IfaceConfig {
    /// Routed interface connected to a router's downstream bridge.
    pub fn routed(router: NodeId) -> (r: IfaceConfig)
        ensures
            r == bare_config(Some(router)),
    {
        IfaceConfig {
            gateway: Some(router),
            addr: None,
            addr_v6: None,
            egress: None,
            ingress: None,
            start_down: false,
        }
    }

    /// Dummy interface, not connected to any bridge.
    pub fn dummy() -> (r: IfaceConfig)
        ensures
            r == bare_config(None),
    {
        IfaceConfig {
            gateway: None,
            addr: None,
            addr_v6: None,
            egress: None,
            ingress: None,
            start_down: false,
        }
    }

    /// Sets an explicit IPv4 address with prefix length.
    pub fn addr(self, addr: Ipv4Net) -> (r: IfaceConfig)
        ensures
            r == (IfaceConfig { addr: Some(addr), ..self }),
    {
        IfaceConfig { addr: Some(addr), ..self }
    }

    /// Sets an explicit IPv6 address with prefix length.
    pub fn addr_v6(self, addr: Ipv6Net) -> (r: IfaceConfig)
        ensures
            r == (IfaceConfig { addr_v6: Some(addr), ..self }),
    {
        IfaceConfig { addr_v6: Some(addr), ..self }
    }

    /// Sets a link condition for the given direction. Each call replaces the
    /// condition for the direction it names.
    pub fn condition(self, condition: LinkCondition, direction: LinkDirection) -> (r: IfaceConfig)
        ensures
            r == (IfaceConfig {
                egress: if direction.spec_egress() {
                    Some(condition)
                } else {
                    self.egress
                },
                ingress: if direction.spec_ingress() {
                    Some(condition)
                } else {
                    self.ingress
                },
                ..self
            }),
    {
        let mut out = self;
        match direction {
            LinkDirection::Egress => {
                out.egress = Some(condition);
            },
            LinkDirection::Ingress => {
                out.ingress = Some(condition);
            },
            LinkDirection::Both => {
                out.egress = Some(condition);
                out.ingress = Some(condition);
            },
        }
        out
    }

    /// Creates the interface in link-down state.
    pub fn down(self) -> (r: IfaceConfig)
        ensures
            r == (IfaceConfig { start_down: true, ..self }),
    {
        IfaceConfig { start_down: true, ..self }
    }
}

impl From<NodeId> for IfaceConfig {
    fn from(router: NodeId) -> (r: IfaceConfig) {
        IfaceConfig::routed(router)
    }
}

impl vstd::std_specs::convert::FromSpecImpl<NodeId> for IfaceConfig {
    open spec fn obeys_from_spec() -> bool {
        true
    }

    open spec fn from_spec(router: NodeId) -> IfaceConfig {
        bare_config(Some(router))
    }
}

} // verus!
