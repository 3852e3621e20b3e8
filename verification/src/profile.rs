//! Lab-wide choices: link directions, IPv6 behavior, output directory.
use vstd::prelude::*;

verus! {

/// Direction for applying link impairment.
///
/// `Egress` affects outgoing traffic of a device interface, `Ingress` incoming
/// traffic, `Both` the two.
#[derive(Clone, Copy, Debug, PartialEq, Eq, Structural)]
pub enum LinkDirection {
    /// Both sides.
    Both,
    /// Only the device side (outgoing traffic).
    Egress,
    /// Only the bridge side (incoming traffic).
    Ingress,
}

impl Default for LinkDirection {
    fn default() -> (r: LinkDirection)
        ensures
            r == LinkDirection::Both,
    {
        LinkDirection::Both
    }
}

impl LinkDirection {
    /// Whether outgoing traffic is affected.
    pub open spec fn spec_egress(self) -> bool {
        self is Egress || self is Both
    }

    /// Whether incoming traffic is affected.
    pub open spec fn spec_ingress(self) -> bool {
        self is Ingress || self is Both
    }

    /// Whether outgoing traffic is affected.
    pub fn egress(self) -> (r: bool)
        ensures
            r == self.spec_egress(),
    {
        matches!(self, LinkDirection::Egress | LinkDirection::Both)
    }

    /// Whether incoming traffic is affected.
    pub fn ingress(self) -> (r: bool)
        ensures
            r == self.spec_ingress(),
    {
        matches!(self, LinkDirection::Ingress | LinkDirection::Both)
    }
}

/// Where the lab writes event logs and state files.
#[derive(Debug)]
pub enum OutDir {
    /// Parent directory: the lab creates a timestamped subdirectory in it.
    Nested(String),
    /// Exact directory: the lab writes directly here.
    Exact(String),
}

/// Controls IPv6 duplicate address detection in created namespaces.
#[derive(Clone, Copy, Debug, PartialEq, Eq, Structural)]
pub enum Ipv6DadMode {
    /// Keep kernel default behavior.
    Enabled,
    /// Disable it for deterministic fast tests.
    Disabled,
}

impl Default for Ipv6DadMode {
    fn default() -> (r: Ipv6DadMode)
        ensures
            r == Ipv6DadMode::Disabled,
    {
        Ipv6DadMode::Disabled
    }
}

/// Controls how IPv6 routes are provisioned for hosts and routers.
#[derive(Clone, Copy, Debug, PartialEq, Eq, Structural)]
pub enum Ipv6ProvisioningMode {
    /// Install routes directly.
    Static,
    /// Follow router advertisements.
    RaDriven,
}

impl Default for Ipv6ProvisioningMode {
    fn default() -> (r: Ipv6ProvisioningMode)
        ensures
            r == Ipv6ProvisioningMode::Static,
    {
        Ipv6ProvisioningMode::Static
    }
}

/// IPv6 behavior profile for a lab, controlling address detection and route
/// provisioning.
#[derive(Clone, Copy, Debug, PartialEq, Eq, Structural)]
pub enum Ipv6Profile {
    /// No detection, static routes. Fast and reproducible.
    Deterministic,
    /// Detection enabled, routes from advertisements.
    Realistic,
}

impl Ipv6Profile {
    /// The two modes that the profile stands for.
    pub fn modes(self) -> (r: (Ipv6DadMode, Ipv6ProvisioningMode))
        ensures
            self is Deterministic ==> r == (Ipv6DadMode::Disabled, Ipv6ProvisioningMode::Static),
            self is Realistic ==> r == (Ipv6DadMode::Enabled, Ipv6ProvisioningMode::RaDriven),
    {
        match self {
            Ipv6Profile::Deterministic => (Ipv6DadMode::Disabled, Ipv6ProvisioningMode::Static),
            Ipv6Profile::Realistic => (Ipv6DadMode::Enabled, Ipv6ProvisioningMode::RaDriven),
        }
    }
}

} // verus!
