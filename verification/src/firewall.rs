//! Firewall presets and configuration.
use vstd::prelude::*;

verus! {

/// Firewall preset for a router's forward chain.
///
/// All presets expand to a [`FirewallConfig`] via [`Firewall::to_config`].
#[derive(Debug)]
pub enum Firewall {
    /// No filtering beyond NAT (default).
    Off,
    /// Block unsolicited inbound traffic on the WAN interface (RFC 6092).
    BlockInbound,
    /// Blocks unsolicited inbound. Outbound allows TCP 80, 443 and UDP 53 only.
    Corporate,
    /// Blocks unsolicited inbound. Outbound allows TCP on any port and UDP 53.
    CaptivePortal,
    /// Fully custom firewall configuration.
    Custom(FirewallConfig),
}

impl Default for Firewall {
    fn default() -> (r: Firewall)
        ensures
            r == Firewall::Off,
    {
        Firewall::Off
    }
}

/// Outbound port policy for a protocol.
#[derive(Debug)]
pub enum PortPolicy {
    /// All destination ports are allowed.
    AllowAll,
    /// Only the listed destination ports are allowed.
    Allow(Vec<u16>),
    /// All destination ports are blocked.
    BlockAll,
}

impl Default for PortPolicy {
    fn default() -> (r: PortPolicy)
        ensures
            r == PortPolicy::AllowAll,
    {
        PortPolicy::AllowAll
    }
}

/// Outbound port policy for a protocol.
pub enum PolicyView {
    /// All destination ports are allowed.
    AllowAll,
    /// Only the listed destination ports are allowed.
    Allow(Seq<u16>),
    /// All destination ports are blocked.
    BlockAll,
}

impl View for PortPolicy {
    type V = PolicyView;

    open spec fn view(&self) -> PolicyView {
        match self {
            PortPolicy::AllowAll => PolicyView::AllowAll,
            PortPolicy::Allow(ports) => PolicyView::Allow(ports@),
            PortPolicy::BlockAll => PolicyView::BlockAll,
        }
    }
}

impl PolicyView {
    /// Whether a destination port may be used.
    pub open spec fn allows(self, port: u16) -> bool {
        match self {
            PolicyView::AllowAll => true,
            PolicyView::Allow(ports) => ports.contains(port),
            PolicyView::BlockAll => false,
        }
    }
}

impl PortPolicy {
    /// A policy with the same ports.
    pub fn copy(&self) -> (r: PortPolicy)
        ensures
            r@ == self@,
    {
        match self {
            PortPolicy::AllowAll => PortPolicy::AllowAll,
            PortPolicy::Allow(ports) => PortPolicy::Allow(ports.clone()),
            PortPolicy::BlockAll => PortPolicy::BlockAll,
        }
    }
}

/// Firewall configuration controlling inbound and outbound traffic.
#[derive(Debug)]
pub struct FirewallConfig {
    /// Block unsolicited inbound traffic on the WAN interface.
    pub block_inbound: bool,
    /// Outbound TCP port policy.
    pub outbound_tcp: PortPolicy,
    /// Outbound UDP port policy.
    pub outbound_udp: PortPolicy,
}

/// Firewall configuration controlling inbound and outbound traffic.
pub struct FirewallView {
    /// Block unsolicited inbound traffic on the WAN interface.
    pub block_inbound: bool,
    /// Outbound TCP port policy.
    pub outbound_tcp: PolicyView,
    /// Outbound UDP port policy.
    pub outbound_udp: PolicyView,
}

impl View for FirewallConfig {
    type V = FirewallView;

    open spec fn view(&self) -> FirewallView {
        FirewallView {
            block_inbound: self.block_inbound,
            outbound_tcp: self.outbound_tcp@,
            outbound_udp: self.outbound_udp@,
        }
    }
}

/// A preset, or the content of a custom configuration.
pub enum PresetView {
    /// No filtering.
    Off,
    /// Unsolicited inbound traffic is blocked.
    BlockInbound,
    /// Only web and name service traffic.
    Corporate,
    /// Only TCP and name service traffic.
    CaptivePortal,
    /// Custom.
    Custom(FirewallView),
}

impl View for Firewall {
    type V = PresetView;

    open spec fn view(&self) -> PresetView {
        match self {
            Firewall::Off => PresetView::Off,
            Firewall::BlockInbound => PresetView::BlockInbound,
            Firewall::Corporate => PresetView::Corporate,
            Firewall::CaptivePortal => PresetView::CaptivePortal,
            Firewall::Custom(cfg) => PresetView::Custom(cfg@),
        }
    }
}

impl Firewall {
    /// The configuration that a preset stands for.
    pub open spec fn spec_config(self) -> Option<FirewallView> {
        let blocking = |outbound_tcp: PolicyView, outbound_udp: PolicyView|
            Some(FirewallView { block_inbound: true, outbound_tcp, outbound_udp });
        match self {
            Firewall::Off => None,
            Firewall::BlockInbound => blocking(PolicyView::AllowAll, PolicyView::AllowAll),
            Firewall::Corporate => blocking(
                PolicyView::Allow(seq![80u16, 443u16]),
                PolicyView::Allow(seq![53u16]),
            ),
            Firewall::CaptivePortal => blocking(
                PolicyView::AllowAll,
                PolicyView::Allow(seq![53u16]),
            ),
            Firewall::Custom(cfg) => Some(cfg@),
        }
    }

    /// Expands a preset to a [`FirewallConfig`], or returns `None` for
    /// [`Firewall::Off`].
    pub fn to_config(&self) -> (r: Option<FirewallConfig>)
        ensures
            r is Some == self.spec_config() is Some,
            r is Some ==> Some(r->0@) == self.spec_config(),
    {
        match self {
            Firewall::Off => None,
            Firewall::BlockInbound => Some(
                FirewallConfig {
                    block_inbound: true,
                    outbound_tcp: PortPolicy::AllowAll,
                    outbound_udp: PortPolicy::AllowAll,
                },
            ),
            Firewall::Corporate => {
                let tcp: Vec<u16> = vec![80, 443];
                let udp: Vec<u16> = vec![53];
                assert(tcp@ =~= seq![80u16, 443u16]);
                assert(udp@ =~= seq![53u16]);
                Some(
                    FirewallConfig {
                        block_inbound: true,
                        outbound_tcp: PortPolicy::Allow(tcp),
                        outbound_udp: PortPolicy::Allow(udp),
                    },
                )
            },
            Firewall::CaptivePortal => {
                let udp: Vec<u16> = vec![53];
                assert(udp@ =~= seq![53u16]);
                Some(
                    FirewallConfig {
                        block_inbound: true,
                        outbound_tcp: PortPolicy::AllowAll,
                        outbound_udp: PortPolicy::Allow(udp),
                    },
                )
            },
            Firewall::Custom(cfg) => Some(cfg.copy()),
        }
    }

    /// The same firewall.
    pub fn copy(&self) -> (r: Firewall)
        ensures
            r@ == self@,
            r.spec_config() == self.spec_config(),
    {
        match self {
            Firewall::Off => Firewall::Off,
            Firewall::BlockInbound => Firewall::BlockInbound,
            Firewall::Corporate => Firewall::Corporate,
            Firewall::CaptivePortal => Firewall::CaptivePortal,
            Firewall::Custom(cfg) => Firewall::Custom(cfg.copy()),
        }
    }
}

impl FirewallConfig {
    /// Returns a builder for constructing a custom firewall configuration.
    pub fn builder() -> (r: FirewallConfigBuilder)
        ensures
            r@ == (FirewallView {
                block_inbound: false,
                outbound_tcp: PolicyView::AllowAll,
                outbound_udp: PolicyView::AllowAll,
            }),
    {
        FirewallConfigBuilder {
            block_inbound: false,
            outbound_tcp: PortPolicy::AllowAll,
            outbound_udp: PortPolicy::AllowAll,
        }
    }

    /// A configuration with the same content.
    pub fn copy(&self) -> (r: FirewallConfig)
        ensures
            r@ == self@,
    {
        FirewallConfig {
            block_inbound: self.block_inbound,
            outbound_tcp: self.outbound_tcp.copy(),
            outbound_udp: self.outbound_udp.copy(),
        }
    }
}

/// Builder for [`FirewallConfig`].
#[derive(Debug)]
pub struct FirewallConfigBuilder {
    block_inbound: bool,
    outbound_tcp: PortPolicy,
    outbound_udp: PortPolicy,
}

impl View for FirewallConfigBuilder {
    type V = FirewallView;

    closed spec fn view(&self) -> FirewallView {
        FirewallView {
            block_inbound: self.block_inbound,
            outbound_tcp: self.outbound_tcp@,
            outbound_udp: self.outbound_udp@,
        }
    }
}

impl FirewallConfigBuilder {
    /// Block unsolicited inbound traffic on the WAN interface.
    pub fn block_inbound(&mut self) -> (r: &mut FirewallConfigBuilder)
        ensures
            r@ == (FirewallView { block_inbound: true, ..old(self)@ }),
            *final(self) == *final(r),
    {
        self.block_inbound = true;
        self
    }

    /// Set outbound TCP port policy.
    pub fn outbound_tcp(&mut self, policy: PortPolicy) -> (r: &mut FirewallConfigBuilder)
        ensures
            r@ == (FirewallView { outbound_tcp: policy@, ..old(self)@ }),
            *final(self) == *final(r),
    {
        self.outbound_tcp = policy;
        self
    }

    /// Set outbound UDP port policy.
    pub fn outbound_udp(&mut self, policy: PortPolicy) -> (r: &mut FirewallConfigBuilder)
        ensures
            r@ == (FirewallView { outbound_udp: policy@, ..old(self)@ }),
            *final(self) == *final(r),
    {
        self.outbound_udp = policy;
        self
    }

    /// Convenience: allow only these outbound TCP destination ports.
    pub fn allow_tcp(&mut self, ports: &[u16]) -> (r: &mut FirewallConfigBuilder)
        ensures
            r@ == (FirewallView { outbound_tcp: PolicyView::Allow(ports@), ..old(self)@ }),
            *final(self) == *final(r),
    {
        self.outbound_tcp = PortPolicy::Allow(vstd::slice::slice_to_vec(ports));
        self
    }

    /// Convenience: allow only these outbound UDP destination ports.
    pub fn allow_udp(&mut self, ports: &[u16]) -> (r: &mut FirewallConfigBuilder)
        ensures
            r@ == (FirewallView { outbound_udp: PolicyView::Allow(ports@), ..old(self)@ }),
            *final(self) == *final(r),
    {
        self.outbound_udp = PortPolicy::Allow(vstd::slice::slice_to_vec(ports));
        self
    }

    /// Convenience: block all outbound TCP.
    pub fn block_tcp(&mut self) -> (r: &mut FirewallConfigBuilder)
        ensures
            r@ == (FirewallView { outbound_tcp: PolicyView::BlockAll, ..old(self)@ }),
            *final(self) == *final(r),
    {
        self.outbound_tcp = PortPolicy::BlockAll;
        self
    }

    /// Convenience: block all outbound UDP.
    pub fn block_udp(&mut self) -> (r: &mut FirewallConfigBuilder)
        ensures
            r@ == (FirewallView { outbound_udp: PolicyView::BlockAll, ..old(self)@ }),
            *final(self) == *final(r),
    {
        self.outbound_udp = PortPolicy::BlockAll;
        self
    }

    /// Builds the [`FirewallConfig`].
    pub fn build(&self) -> (r: FirewallConfig)
        ensures
            r@ == self@,
    {
        FirewallConfig {
            block_inbound: self.block_inbound,
            outbound_tcp: self.outbound_tcp.copy(),
            outbound_udp: self.outbound_udp.copy(),
        }
    }
}

/// What the presets let out: the corporate one TCP to ports 80 and 443 and UDP
/// to port 53, that of a captive portal all TCP and UDP to port 53, and the one
/// that blocks inbound traffic everything. All of them block inbound traffic.
pub proof fn presets_let_out(port: u16)
    ensures
        Firewall::Corporate.spec_config()->0.outbound_tcp.allows(port) == (port == 80 || port == 443),
        Firewall::Corporate.spec_config()->0.outbound_udp.allows(port) == (port == 53),
        Firewall::CaptivePortal.spec_config()->0.outbound_tcp.allows(port),
        Firewall::CaptivePortal.spec_config()->0.outbound_udp.allows(port) == (port == 53),
        Firewall::BlockInbound.spec_config()->0.outbound_tcp.allows(port),
        Firewall::BlockInbound.spec_config()->0.outbound_udp.allows(port),
        Firewall::Corporate.spec_config()->0.block_inbound,
        Firewall::CaptivePortal.spec_config()->0.block_inbound,
        Firewall::BlockInbound.spec_config()->0.block_inbound,
{
    let tcp = seq![80u16, 443u16];
    let udp = seq![53u16];
    assert(tcp[0] == 80 && tcp[1] == 443 && udp[0] == 53);
}

} // verus!
