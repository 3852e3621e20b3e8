//! NAT behavior presets and configuration.
use vstd::prelude::*;

verus! {

/// NAT behavior for IPv4.
///
/// The variants form a gradient of hole-punching difficulty. `Easiest` and
/// `Easy` are reachable with standard UDP hole-punching. `Hard` requires a
/// relay. Each preset expands to a [`NatConfig`] via [`Nat::to_config`].
#[derive(Clone, Copy, Debug, PartialEq, Eq, Structural)]
pub enum Nat {
    /// No NAT. The device has a publicly routable address.
    Off,
    /// Most permissive NAT: Endpoint-Independent Mapping and Filtering.
    Easiest,
    /// Moderately restrictive NAT: Endpoint-Independent Mapping,
    /// Address-and-Port-Dependent Filtering.
    Easy,
    /// Most restrictive NAT: Endpoint-Dependent Mapping with random ports,
    /// Address-and-Port-Dependent Filtering.
    Hard,
    /// Fully custom NAT configuration.
    Custom(NatConfig),
}

impl Default for Nat {
    fn default() -> (r: Nat)
        ensures
            r == Nat::Off,
    {
        Nat::Off
    }
}

/// NAT mapping behavior (RFC 4787, section 4.1).
#[derive(Clone, Copy, Debug, PartialEq, Eq, Structural)]
pub enum NatMapping {
    /// Same external port for all destinations.
    EndpointIndependent,
    /// Different external port per destination.
    EndpointDependent,
}

/// NAT filtering behavior (RFC 4787, section 5).
#[derive(Clone, Copy, Debug, PartialEq, Eq, Structural)]
pub enum NatFiltering {
    /// Any external host can send to the mapped port.
    EndpointIndependent,
    /// Only external hosts the internal endpoint has contacted can reply, from
    /// any port. Only supported with [`NatMapping::EndpointIndependent`].
    AddressDependent,
    /// Only the exact address and port the internal endpoint contacted can
    /// reply.
    AddressAndPortDependent,
}

/// Conntrack timeouts of a NAT profile, in seconds.
#[derive(Clone, Copy, Debug, PartialEq, Eq, Structural)]
pub struct ConntrackTimeouts {
    /// Timeout for a single unreplied UDP packet.
    pub udp: u32,
    /// Timeout for a UDP stream (traffic seen both ways).
    pub udp_stream: u32,
    /// Timeout for an established TCP connection.
    pub tcp_established: u32,
}

/// The timeouts of a home router.
pub open spec fn default_timeouts() -> ConntrackTimeouts {
    ConntrackTimeouts { udp: 30, udp_stream: 300, tcp_established: 7200 }
}

impl Default for ConntrackTimeouts {
    fn default() -> (r: ConntrackTimeouts)
        ensures
            r == default_timeouts(),
    {
        ConntrackTimeouts { udp: 30, udp_stream: 300, tcp_established: 7200 }
    }
}

/// Why a combination cannot be expressed in nftables.
#[derive(Clone, Copy, Debug, PartialEq, Eq, Structural)]
pub enum NatConfigError {
    /// Address-Dependent filtering requires Endpoint-Independent mapping: it
    /// relies on the fullcone map to deliver inbound packets from any port.
    AdfRequiresEim,
    /// Hairpin requires Endpoint-Independent mapping: it rewrites traffic to the
    /// WAN address with the fullcone map.
    HairpinRequiresEim,
}

impl NatConfigError {
    /// The error in words.
    pub open spec fn spec_message(self) -> Seq<char> {
        match self {
            NatConfigError::AdfRequiresEim =>
                "NatFiltering::AddressDependent requires NatMapping::EndpointIndependent; Endpoint-Dependent mapping has no way to deliver inbound packets from unsolicited ports"@,
            NatConfigError::HairpinRequiresEim =>
                "hairpin requires NatMapping::EndpointIndependent; Endpoint-Dependent mapping has no fullcone map to DNAT hairpin traffic"@,
        }
    }

    /// The error in words.
    pub fn message(self) -> (r: &'static str)
        ensures
            r@ == self.spec_message(),
    {
        match self {
            NatConfigError::AdfRequiresEim =>
                "NatFiltering::AddressDependent requires NatMapping::EndpointIndependent; Endpoint-Dependent mapping has no way to deliver inbound packets from unsolicited ports",
            NatConfigError::HairpinRequiresEim =>
                "hairpin requires NatMapping::EndpointIndependent; Endpoint-Dependent mapping has no fullcone map to DNAT hairpin traffic",
        }
    }
}

/// Expanded NAT configuration produced from a [`Nat`] preset or the builder.
///
/// Fields are public, so a caller can turn a valid configuration into one that
/// cannot be expressed; [`NatConfig::validate`] tells.
#[derive(Clone, Copy, Debug, PartialEq, Eq, Structural)]
pub struct NatConfig {
    /// How outbound port mapping works.
    pub mapping: NatMapping,
    /// Which inbound packets are forwarded.
    pub filtering: NatFiltering,
    /// Conntrack timeout settings.
    pub timeouts: ConntrackTimeouts,
    /// Whether LAN devices can reach each other via the router's public IP.
    pub hairpin: bool,
}

impl Nat {
    /// The configuration that a preset stands for.
    pub open spec fn spec_config(self) -> Option<NatConfig> {
        let preset = |mapping: NatMapping, filtering: NatFiltering|
            Some(NatConfig { mapping, filtering, timeouts: default_timeouts(), hairpin: false });
        match self {
            Nat::Off => None,
            Nat::Easiest => preset(
                NatMapping::EndpointIndependent,
                NatFiltering::EndpointIndependent,
            ),
            Nat::Easy => preset(
                NatMapping::EndpointIndependent,
                NatFiltering::AddressAndPortDependent,
            ),
            Nat::Hard => preset(
                NatMapping::EndpointDependent,
                NatFiltering::AddressAndPortDependent,
            ),
            Nat::Custom(config) => Some(config),
        }
    }

    /// Expands this preset into a [`NatConfig`], or `None` for [`Nat::Off`].
    pub fn to_config(self) -> (r: Option<NatConfig>)
        ensures
            r == self.spec_config(),
    {
        let (mapping, filtering) = match self {
            Nat::Off => {
                return None;
            },
            Nat::Easiest => (NatMapping::EndpointIndependent, NatFiltering::EndpointIndependent),
            Nat::Easy => (NatMapping::EndpointIndependent, NatFiltering::AddressAndPortDependent),
            Nat::Hard => (NatMapping::EndpointDependent, NatFiltering::AddressAndPortDependent),
            Nat::Custom(config) => {
                return Some(config);
            },
        };
        Some(
            NatConfig { mapping, filtering, timeouts: ConntrackTimeouts::default(), hairpin: false },
        )
    }
}

impl From<NatConfig> for Nat {
    fn from(config: NatConfig) -> (r: Nat) {
        Nat::Custom(config)
    }
}

impl vstd::std_specs::convert::FromSpecImpl<NatConfig> for Nat {
    open spec fn obeys_from_spec() -> bool {
        true
    }

    open spec fn from_spec(config: NatConfig) -> Nat {
        Nat::Custom(config)
    }
}

impl NatConfig {
    /// What stands in the way of expressing the configuration: first the
    /// filtering, then the hairpin.
    pub open spec fn problem(self) -> Option<NatConfigError> {
        let eim = self.mapping is EndpointIndependent;
        if !eim && self.filtering is AddressDependent {
            Some(NatConfigError::AdfRequiresEim)
        } else if !eim && self.hairpin {
            Some(NatConfigError::HairpinRequiresEim)
        } else {
            None
        }
    }

    /// Returns a builder for constructing a custom NAT configuration.
    pub fn builder() -> (r: NatConfigBuilder)
        ensures
            r@ == (NatConfig {
                mapping: NatMapping::EndpointIndependent,
                filtering: NatFiltering::AddressAndPortDependent,
                timeouts: default_timeouts(),
                hairpin: false,
            }),
    {
        NatConfigBuilder::default()
    }

    /// Checks that the configuration can be expressed.
    pub fn validate(&self) -> (r: Result<(), NatConfigError>)
        ensures
            match self.problem() {
                Some(e) => r == Err::<(), NatConfigError>(e),
                None => r is Ok,
            },
    {
        let eim = matches!(self.mapping, NatMapping::EndpointIndependent);
        if !eim && matches!(self.filtering, NatFiltering::AddressDependent) {
            return Err(NatConfigError::AdfRequiresEim);
        }
        if !eim && self.hairpin {
            return Err(NatConfigError::HairpinRequiresEim);
        }
        Ok(())
    }
}

/// Every preset can be expressed.
pub proof fn presets_are_valid(preset: Nat)
    requires
        !(preset is Custom),
        preset.spec_config() is Some,
    ensures
        preset.spec_config()->0.problem() is None,
{
}

/// Builder for [`NatConfig`].
///
/// Defaults to Endpoint-Independent Mapping with Address-and-Port-Dependent
/// Filtering and home-router timeouts.
#[derive(Debug)]
pub struct NatConfigBuilder {
    cfg: NatConfig,
}

impl View for NatConfigBuilder {
    type V = NatConfig;

    closed spec fn view(&self) -> NatConfig {
        self.cfg
    }
}

impl Default for NatConfigBuilder {
    fn default() -> (r: NatConfigBuilder)
        ensures
            r@ == (NatConfig {
                mapping: NatMapping::EndpointIndependent,
                filtering: NatFiltering::AddressAndPortDependent,
                timeouts: default_timeouts(),
                hairpin: false,
            }),
    {
        NatConfigBuilder {
            cfg: NatConfig {
                mapping: NatMapping::EndpointIndependent,
                filtering: NatFiltering::AddressAndPortDependent,
                timeouts: ConntrackTimeouts::default(),
                hairpin: false,
            },
        }
    }
}

impl NatConfigBuilder {
    /// Sets the mapping behavior.
    pub fn mapping(self, mapping: NatMapping) -> (r: NatConfigBuilder)
        ensures
            r@ == (NatConfig { mapping, ..self@ }),
    {
        NatConfigBuilder { cfg: NatConfig { mapping, ..self.cfg } }
    }

    /// Sets the filtering behavior.
    pub fn filtering(self, filtering: NatFiltering) -> (r: NatConfigBuilder)
        ensures
            r@ == (NatConfig { filtering, ..self@ }),
    {
        NatConfigBuilder { cfg: NatConfig { filtering, ..self.cfg } }
    }

    /// Sets the UDP single-packet timeout (seconds). Default: 30.
    pub fn udp_timeout(self, secs: u32) -> (r: NatConfigBuilder)
        ensures
            r@ == (NatConfig {
                timeouts: ConntrackTimeouts { udp: secs, ..self@.timeouts },
                ..self@
            }),
    {
        let timeouts = ConntrackTimeouts { udp: secs, ..self.cfg.timeouts };
        NatConfigBuilder { cfg: NatConfig { timeouts, ..self.cfg } }
    }

    /// Sets the UDP stream timeout (seconds). Default: 300.
    pub fn udp_stream_timeout(self, secs: u32) -> (r: NatConfigBuilder)
        ensures
            r@ == (NatConfig {
                timeouts: ConntrackTimeouts { udp_stream: secs, ..self@.timeouts },
                ..self@
            }),
    {
        let timeouts = ConntrackTimeouts { udp_stream: secs, ..self.cfg.timeouts };
        NatConfigBuilder { cfg: NatConfig { timeouts, ..self.cfg } }
    }

    /// Sets the TCP established timeout (seconds). Default: 7200.
    pub fn tcp_established_timeout(self, secs: u32) -> (r: NatConfigBuilder)
        ensures
            r@ == (NatConfig {
                timeouts: ConntrackTimeouts { tcp_established: secs, ..self@.timeouts },
                ..self@
            }),
    {
        let timeouts = ConntrackTimeouts { tcp_established: secs, ..self.cfg.timeouts };
        NatConfigBuilder { cfg: NatConfig { timeouts, ..self.cfg } }
    }

    /// Enables or disables NAT hairpinning. Default: false.
    ///
    /// When enabled, LAN devices can reach each other via the router's public
    /// IP. Only supported with [`NatMapping::EndpointIndependent`].
    pub fn hairpin(self, enabled: bool) -> (r: NatConfigBuilder)
        ensures
            r@ == (NatConfig { hairpin: enabled, ..self@ }),
    {
        NatConfigBuilder { cfg: NatConfig { hairpin: enabled, ..self.cfg } }
    }

    /// Validates the configuration and returns the [`NatConfig`].
    pub fn build(self) -> (r: Result<NatConfig, NatConfigError>)
        ensures
            match self@.problem() {
                Some(e) => r == Err::<NatConfig, NatConfigError>(e),
                None => r == Ok::<NatConfig, NatConfigError>(self@),
            },
    {
        match self.cfg.validate() {
            Ok(()) => Ok(self.cfg),
            Err(e) => Err(e),
        }
    }
}

/// IPv6 NAT mode for a router.
#[derive(Clone, Copy, Debug, PartialEq, Eq, Structural)]
pub enum NatV6Mode {
    /// No translation; devices use global unicast directly.
    Off,
    /// Stateless prefix translation (RFC 6296).
    Nptv6,
    /// Stateful masquerade.
    Masquerade,
    /// IPv6-only devices reach IPv4 hosts via the prefix `64:ff9b::/96`.
    Nat64,
}

impl Default for NatV6Mode {
    fn default() -> (r: NatV6Mode)
        ensures
            r == NatV6Mode::Off,
    {
        NatV6Mode::Off
    }
}

/// Selects which IP address families a router supports.
#[derive(Clone, Copy, Debug, PartialEq, Eq, Structural)]
pub enum IpSupport {
    /// IPv4 only (default).
    V4Only,
    /// IPv6 only.
    V6Only,
    /// Both IPv4 and IPv6.
    DualStack,
}

impl Default for IpSupport {
    fn default() -> (r: IpSupport)
        ensures
            r == IpSupport::V4Only,
    {
        IpSupport::V4Only
    }
}

impl IpSupport {
    /// Whether IPv4 is enabled.
    pub open spec fn v4(self) -> bool {
        self is V4Only || self is DualStack
    }

    /// Whether IPv6 is enabled.
    pub open spec fn v6(self) -> bool {
        self is V6Only || self is DualStack
    }

    /// Returns `true` when IPv4 is enabled.
    pub fn has_v4(self) -> (r: bool)
        ensures
            r == self.v4(),
    {
        matches!(self, IpSupport::V4Only | IpSupport::DualStack)
    }

    /// Returns `true` when IPv6 is enabled.
    pub fn has_v6(self) -> (r: bool)
        ensures
            r == self.v6(),
    {
        matches!(self, IpSupport::V6Only | IpSupport::DualStack)
    }
}

} // verus!
