//! Which port mapping protocols a router offers.
use vstd::prelude::*;

verus! {

/// Which port mapping protocols a router advertises.
///
/// Maps to a [`PortmapConfig`]; `Off` leaves the server off.
#[derive(Clone, Copy, Debug, PartialEq, Eq, Structural)]
pub enum PortmapMode {
    /// No port mapping server.
    Off,
    /// NAT-PMP only (UDP 5351, RFC 6886).
    NatPmpOnly,
    /// PCP only (UDP 5351, RFC 6887).
    PcpOnly,
    /// UPnP IGD:1 only (SSDP + HTTP/SOAP).
    UpnpOnly,
    /// NAT-PMP and PCP sharing UDP 5351, no UPnP.
    NatPmpAndPcp,
    /// All three protocols enabled.
    All,
}

impl Default for PortmapMode {
    fn default() -> (r: PortmapMode)
        ensures
            r == PortmapMode::Off,
    {
        PortmapMode::Off
    }
}

/// Per-router port mapping server configuration.
///
/// Each flag toggles one protocol. Several may be on at the same time; NAT-PMP
/// and PCP then share UDP 5351.
#[derive(Clone, Copy, Debug, PartialEq, Eq, Structural)]
pub struct PortmapConfig {
    /// Advertise NAT-PMP on UDP 5351.
    pub enable_nat_pmp: bool,
    /// Advertise PCP on UDP 5351.
    pub enable_pcp: bool,
    /// Advertise UPnP IGD via SSDP and HTTP/SOAP.
    pub enable_upnp: bool,
}

impl Default for PortmapConfig {
    fn default() -> (r: PortmapConfig)
        ensures
            r == (PortmapConfig { enable_nat_pmp: false, enable_pcp: false, enable_upnp: false }),
    {
        PortmapConfig { enable_nat_pmp: false, enable_pcp: false, enable_upnp: false }
    }
}

impl PortmapConfig {
    /// Returns the config corresponding to `mode`.
    pub fn from_mode(mode: PortmapMode) -> (r: PortmapConfig)
        ensures
            r.enable_nat_pmp == (mode is NatPmpOnly || mode is NatPmpAndPcp || mode is All),
            r.enable_pcp == (mode is PcpOnly || mode is NatPmpAndPcp || mode is All),
            r.enable_upnp == (mode is UpnpOnly || mode is All),
    {
        let off = PortmapConfig {
            enable_nat_pmp: false,
            enable_pcp: false,
            enable_upnp: false,
        };
        match mode {
            PortmapMode::Off => off,
            PortmapMode::NatPmpOnly => PortmapConfig { enable_nat_pmp: true, ..off },
            PortmapMode::PcpOnly => PortmapConfig { enable_pcp: true, ..off },
            PortmapMode::UpnpOnly => PortmapConfig { enable_upnp: true, ..off },
            PortmapMode::NatPmpAndPcp => PortmapConfig {
                enable_nat_pmp: true,
                enable_pcp: true,
                enable_upnp: false,
            },
            PortmapMode::All => PortmapConfig {
                enable_nat_pmp: true,
                enable_pcp: true,
                enable_upnp: true,
            },
        }
    }

    /// Returns `true` if any protocol is enabled.
    pub fn any_enabled(&self) -> (r: bool)
        ensures
            r == (self.enable_nat_pmp || self.enable_pcp || self.enable_upnp),
    {
        self.enable_nat_pmp || self.enable_pcp || self.enable_upnp
    }
}

} // verus!
