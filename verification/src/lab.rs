//! A lab as a whole: options, names, reserved names, environment variables.
use vstd::prelude::*;

use crate::addr::{Ipv4Addr, Ipv4Net, Ipv6Addr, Ipv6Net};
use crate::profile::{Ipv6DadMode, Ipv6Profile, Ipv6ProvisioningMode, OutDir};
use crate::limits::LinkLimits;
use crate::qdisc::{unimpaired, LinkCondition, WidePercent};
use crate::text::{
    chars_of, dec, digit_char, hex, hex_string, push_dec, starts_with, str_starts_with,
    trim_start_char, trim_start_matches,
};
use crate::topology::types::{
    CoreConfig, CoreError, CoreView, DeviceData, DeviceView, NetworkCore, NodeId,
};

verus! {

// ── names and addresses ──────────────────────────────────────────────

/// The tag that tells the labs of one process, and of several, apart.
pub open spec fn lab_tag(pid: u32, lab_seq: u64) -> Seq<char> {
    "p"@ + dec((pid % 9999 + 1) as nat) + hex(lab_seq as nat)
}

proof fn hex_length(n: nat)
    ensures
        hex(n).len() >= 1,
    decreases n,
{
    if n >= 16 {
        hex_length(n / 16);
    }
}

proof fn hex_is_injective(a: nat, b: nat)
    requires
        hex(a) == hex(b),
    ensures
        a == b,
    decreases a,
{
    hex_length(a / 16);
    hex_length(b / 16);
    assert(hex(a).last() == digit_char((a % 16) as int));
    assert(hex(b).last() == digit_char((b % 16) as int));
    assert(a % 16 == b % 16);
    if a >= 16 && b >= 16 {
        assert(hex(a).drop_last() =~= hex(a / 16));
        assert(hex(b).drop_last() =~= hex(b / 16));
        hex_is_injective(a / 16, b / 16);
    }
}

/// The labs of one process have different tags.
pub proof fn lab_tags_differ(pid: u32, a: u64, b: u64)
    requires
        a != b,
    ensures
        lab_tag(pid, a) != lab_tag(pid, b),
{
    let head = "p"@ + dec((pid % 9999 + 1) as nat);
    let n = head.len() as int;
    assert(lab_tag(pid, a).skip(n) =~= hex(a as nat));
    assert(lab_tag(pid, b).skip(n) =~= hex(b as nat));
    if lab_tag(pid, a) == lab_tag(pid, b) {
        hex_is_injective(a as nat, b as nat);
    }
}

fn lab_tag_string(pid: u32, lab_seq: u64) -> (r: String)
    ensures
        r@ == lab_tag(pid, lab_seq),
{
    let mut s = "p".to_owned();
    push_dec(&mut s, (pid % 9999 + 1) as u64);
    s.append(hex_string(lab_seq).as_str());
    s
}

/// Names and address ranges of a new lab.
pub fn default_config(pid: u32, lab_seq: u64) -> (r: CoreConfig)
    ensures
        r.lab_id == lab_seq,
        r.prefix@ == "lab-"@ + lab_tag(pid, lab_seq),
        r.root_ns@ == "lab"@ + dec(lab_seq as nat) + "-root"@,
        r.bridge_tag@ == lab_tag(pid, lab_seq),
        r.ix_br@ == "br-"@ + lab_tag(pid, lab_seq) + "-1"@,
        r.ix_gw == Ipv4Addr::of(198, 18, 0, 1),
        r.ix_cidr == (Ipv4Net { addr: Ipv4Addr::of(198, 18, 0, 0), prefix_len: 24 }),
        r.private_cidr == (Ipv4Net { addr: Ipv4Addr::of(10, 0, 0, 0), prefix_len: 16 }),
        r.public_cidr == (Ipv4Net { addr: Ipv4Addr::of(198, 18, 1, 0), prefix_len: 24 }),
        r.ix_gw_v6 == Ipv6Addr::of(0x2001, 0xdb8, 0, 0, 0, 0, 0, 1),
        r.ix_cidr_v6 == (Ipv6Net {
            addr: Ipv6Addr::of(0x2001, 0xdb8, 0, 0, 0, 0, 0, 0),
            prefix_len: 64,
        }),
        r.private_cidr_v6 == (Ipv6Net {
            addr: Ipv6Addr::of(0xfd10, 0, 0, 0, 0, 0, 0, 0),
            prefix_len: 48,
        }),
        r.public_cidr_v6 == (Ipv6Net {
            addr: Ipv6Addr::of(0x2001, 0xdb8, 1, 0, 0, 0, 0, 0),
            prefix_len: 48,
        }),
{
    let tag = lab_tag_string(pid, lab_seq);
    let mut prefix = "lab-".to_owned();
    prefix.append(tag.as_str());
    let mut root_ns = "lab".to_owned();
    push_dec(&mut root_ns, lab_seq);
    root_ns.append("-root");
    let mut ix_br = "br-".to_owned();
    ix_br.append(tag.as_str());
    ix_br.append("-1");
    CoreConfig {
        lab_id: lab_seq,
        prefix,
        root_ns,
        bridge_tag: tag,
        ix_br,
        ix_gw: Ipv4Addr::new(198, 18, 0, 1),
        ix_cidr: Ipv4Net { addr: Ipv4Addr::new(198, 18, 0, 0), prefix_len: 24 },
        private_cidr: Ipv4Net { addr: Ipv4Addr::new(10, 0, 0, 0), prefix_len: 16 },
        public_cidr: Ipv4Net { addr: Ipv4Addr::new(198, 18, 1, 0), prefix_len: 24 },
        ix_gw_v6: Ipv6Addr::new(0x2001, 0xdb8, 0, 0, 0, 0, 0, 1),
        ix_cidr_v6: Ipv6Net {
            addr: Ipv6Addr::new(0x2001, 0xdb8, 0, 0, 0, 0, 0, 0),
            prefix_len: 64,
        },
        private_cidr_v6: Ipv6Net {
            addr: Ipv6Addr::new(0xfd10, 0, 0, 0, 0, 0, 0, 0),
            prefix_len: 48,
        },
        public_cidr_v6: Ipv6Net {
            addr: Ipv6Addr::new(0x2001, 0xdb8, 1, 0, 0, 0, 0, 0),
            prefix_len: 48,
        },
    }
}

/// The directory of a run inside its parent: the time, then the label or, where
/// there is none, the lab's prefix.
pub fn run_dir_name(timestamp: &str, label: Option<&str>, prefix: &str) -> (r: String)
    ensures
        r@ == timestamp@ + "-"@ + (match label {
            Some(l) => l@,
            None => prefix@,
        }),
{
    let mut s = timestamp.to_owned();
    s.append("-");
    match label {
        Some(l) => {
            s.append(l);
        },
        None => {
            s.append(prefix);
        },
    }
    s
}

/// The file of a node in the run directory, whether or not the suffix starts
/// with dots.
pub fn node_path(kind: &str, name: &str, suffix: &str) -> (r: String)
    ensures
        r@ == kind@ + "."@ + name@ + "."@ + trim_start_char(suffix@, '.'),
{
    crate::consts::node_file(kind, name, trim_start_matches(suffix, '.'))
}

/// Outcome of the test that a lab belongs to.
#[derive(Clone, Copy, Debug, PartialEq, Eq, Structural)]
pub enum TestStatus {
    /// Nothing was said.
    Unknown,
    /// The test passed.
    Success,
    /// The test failed.
    Failed,
}

impl TestStatus {
    /// The status that the final state carries.
    pub fn final_status(self) -> (r: &'static str)
        ensures
            r@ == (match self {
                TestStatus::Unknown => "stopped"@,
                TestStatus::Success => "success"@,
                TestStatus::Failed => "failed"@,
            }),
    {
        match self {
            TestStatus::Unknown => "stopped",
            TestStatus::Success => "success",
            TestStatus::Failed => "failed",
        }
    }

    /// The status when the guard of a test is gone: success counts only where
    /// it was marked.
    pub fn when_guard_drops(self, marked: bool) -> (r: TestStatus)
        ensures
            r == (if marked {
                self
            } else {
                TestStatus::Failed
            }),
    {
        if marked {
            self
        } else {
            TestStatus::Failed
        }
    }
}

// ── options ──────────────────────────────────────────────────────────

/// Options of a lab.
#[derive(Debug)]
pub struct LabBuilder {
    /// Output directory.
    pub outdir: Option<OutDir>,
    /// Human-readable label.
    pub label: Option<String>,
    /// IPv6 duplicate address detection.
    pub ipv6_dad_mode: Ipv6DadMode,
    /// IPv6 provisioning.
    pub ipv6_provisioning_mode: Ipv6ProvisioningMode,
    /// Whether real root is allowed.
    pub allow_real_root: bool,
}

impl Default for LabBuilder {
    fn default() -> (r: LabBuilder)
        ensures
            r == (LabBuilder {
                outdir: None,
                label: None,
                ipv6_dad_mode: Ipv6DadMode::Disabled,
                ipv6_provisioning_mode: Ipv6ProvisioningMode::Static,
                allow_real_root: false,
            }),
    {
        LabBuilder {
            outdir: None,
            label: None,
            ipv6_dad_mode: Ipv6DadMode::Disabled,
            ipv6_provisioning_mode: Ipv6ProvisioningMode::Static,
            allow_real_root: false,
        }
    }
}

impl LabBuilder {
    /// Sets the output directory for event log and state files.
    pub fn outdir(self, outdir: OutDir) -> (r: LabBuilder)
        ensures
            r == (LabBuilder { outdir: Some(outdir), ..self }),
    {
        let mut out = self;
        out.outdir = Some(outdir);
        out
    }

    /// Sets a human-readable label.
    pub fn label(self, label: String) -> (r: LabBuilder)
        ensures
            r == (LabBuilder { label: Some(label), ..self }),
    {
        let mut out = self;
        out.label = Some(label);
        out
    }

    /// Takes the value of `PATCHBAY_OUTDIR` as the parent of the output
    /// directory. Does nothing if the variable is absent.
    pub fn outdir_from_env(self, value: Option<String>) -> (r: LabBuilder)
        ensures
            r == (match value {
                Some(v) => LabBuilder { outdir: Some(OutDir::Nested(v)), ..self },
                None => self,
            }),
    {
        match value {
            Some(v) => {
                let mut out = self;
                out.outdir = Some(OutDir::Nested(v));
                out
            },
            None => self,
        }
    }

    /// Sets IPv6 duplicate address detection.
    pub fn ipv6_dad_mode(self, mode: Ipv6DadMode) -> (r: LabBuilder)
        ensures
            r == (LabBuilder { ipv6_dad_mode: mode, ..self }),
    {
        let mut out = self;
        out.ipv6_dad_mode = mode;
        out
    }

    /// Allows running as real root without a user namespace.
    pub fn allow_real_root(self) -> (r: LabBuilder)
        ensures
            r == (LabBuilder { allow_real_root: true, ..self }),
    {
        let mut out = self;
        out.allow_real_root = true;
        out
    }

    /// Sets IPv6 provisioning.
    pub fn ipv6_provisioning_mode(self, mode: Ipv6ProvisioningMode) -> (r: LabBuilder)
        ensures
            r == (LabBuilder { ipv6_provisioning_mode: mode, ..self }),
    {
        let mut out = self;
        out.ipv6_provisioning_mode = mode;
        out
    }

    /// Applies a profile that sets both detection and provisioning.
    pub fn ipv6_profile(self, profile: Ipv6Profile) -> (r: LabBuilder)
        ensures
            r == (LabBuilder {
                ipv6_dad_mode: if profile is Deterministic {
                    Ipv6DadMode::Disabled
                } else {
                    Ipv6DadMode::Enabled
                },
                ipv6_provisioning_mode: if profile is Deterministic {
                    Ipv6ProvisioningMode::Static
                } else {
                    Ipv6ProvisioningMode::RaDriven
                },
                ..self
            }),
    {
        let (dad, provisioning) = profile.modes();
        let mut out = self;
        out.ipv6_dad_mode = dad;
        out.ipv6_provisioning_mode = provisioning;
        out
    }
}

// ── nodes ────────────────────────────────────────────────────────────

/// Checks that a router may have a name: names that start with `region_` are
/// reserved, and a router of that name must not exist.
pub fn check_router_name(core: &NetworkCore, name: &str) -> (r: Result<(), CoreError>)
    requires
        core.wf(),
    ensures
        r == (if starts_with(name@, "region_"@) {
            Err::<(), CoreError>(CoreError::ReservedName)
        } else if core@.router_named(name@) is Some {
            Err::<(), CoreError>(CoreError::NameTaken)
        } else {
            Ok::<(), CoreError>(())
        }),
{
    if str_starts_with(name, "region_") {
        return Err(CoreError::ReservedName);
    }
    if core.router_id_by_name(name).is_some() {
        return Err(CoreError::NameTaken);
    }
    Ok(())
}

/// Adds a device, unless one of that name exists.
pub fn add_device(core: &mut NetworkCore, name: &str) -> (r: Result<NodeId, CoreError>)
    requires
        old(core).wf(),
        old(core)@.device_named(name@) is None ==> old(core).next_id < u64::MAX,
    ensures
        final(core).wf(),
        old(core)@.device_named(name@) is Some ==> r == Err::<NodeId, CoreError>(
            CoreError::NameTaken,
        ) && final(core)@ == old(core)@,
        old(core)@.device_named(name@) is None ==> r == Ok::<NodeId, CoreError>(
            NodeId(old(core)@.next_id),
        ) && final(core)@ == old(core)@.added_device(name@),
{
    if core.device_id_by_name(name).is_some() {
        return Err(CoreError::NameTaken);
    }
    Ok(core.add_device(name))
}

/// A device that was added is found under its name.
pub proof fn added_device_is_found(c: CoreView, name: Seq<char>)
    ensures
        c.added_device(name).device_named(name) == Some(NodeId(c.next_id)),
{
}

/// The local port of a device's mapping probe.
pub fn probe_port(id: NodeId) -> (r: u16)
    ensures
        r == 40000 + id.0 % 20000,
{
    40000 + (id.0 % 20000) as u16
}

/// The name of the next interface that is named by itself: `eth{n}`.
pub fn auto_iface_name(interfaces: usize) -> (r: String)
    ensures
        r@ == "eth"@ + dec(interfaces as nat),
{
    let mut s = "eth".to_owned();
    push_dec(&mut s, interfaces as u64);
    s
}

// ── links between regions ────────────────────────────────────────────

/// Parameters for a link between regions.
#[derive(Clone, Copy, Debug)]
pub struct RegionLink {
    /// One-way latency in milliseconds.
    pub latency_ms: u32,
    /// Jitter in milliseconds.
    pub jitter_ms: u32,
    /// Packet loss percentage.
    pub loss_pct: WidePercent,
    /// Rate limit in Mbit/s, 0 for none.
    pub rate_mbit: u32,
}

impl RegionLink {
    /// Good link: only latency.
    pub open spec fn spec_good(latency_ms: u32) -> RegionLink {
        RegionLink { latency_ms, jitter_ms: 0, loss_pct: WidePercent { bits: 0 }, rate_mbit: 0 }
    }

    /// Good link: only latency.
    pub fn good(latency_ms: u32) -> (r: RegionLink)
        ensures
            r == Self::spec_good(latency_ms),
    {
        RegionLink { latency_ms, jitter_ms: 0, loss_pct: WidePercent { bits: 0 }, rate_mbit: 0 }
    }

    /// Degraded link: a tenth of the latency as jitter, 0.5 % loss.
    pub fn degraded(latency_ms: u32) -> (r: RegionLink)
        ensures
            r == (RegionLink {
                latency_ms,
                jitter_ms: latency_ms / 10,
                loss_pct: WidePercent { bits: 0x3fe0_0000_0000_0000 },
                rate_mbit: 0,
            }),
    {
        RegionLink {
            latency_ms,
            jitter_ms: latency_ms / 10,
            loss_pct: WidePercent { bits: 0x3fe0_0000_0000_0000 },
            rate_mbit: 0,
        }
    }

    /// Whether the link delays, varies, loses or slows down what it carries.
    pub open spec fn impaired(self) -> bool {
        self.latency_ms > 0 || self.jitter_ms > 0 || self.loss_pct.spec_positive()
            || self.rate_mbit > 0
    }

    /// The impairment of both ends of the link, where there is any.
    pub fn condition(&self) -> (r: Option<LinkCondition>)
        requires
            self.rate_mbit * 1000 <= u32::MAX,
        ensures
            r == (if self.impaired() {
                Some(
                    LinkCondition {
                        latency_ms: self.latency_ms,
                        jitter_ms: self.jitter_ms,
                        loss_pct: self.loss_pct.spec_narrow(),
                        rate_kbit: if self.rate_mbit > 0 {
                            Some((self.rate_mbit * 1000) as u32)
                        } else {
                            None
                        },
                        ..unimpaired()
                    },
                )
            } else {
                None
            }),
    {
        if self.latency_ms > 0 || self.jitter_ms > 0 || self.loss_pct.positive() || self.rate_mbit
            > 0 {
            let limits = LinkLimits {
                latency_ms: self.latency_ms,
                jitter_ms: self.jitter_ms,
                loss_pct: self.loss_pct.narrow(),
                rate_kbit: self.rate_mbit * 1000,
                ..LinkLimits::default()
            };
            Some(limits.condition())
        } else {
            None
        }
    }
}

// ── environment variables ────────────────────────────────────────────

/// The text in capital letters, by the rules of Unicode.
pub uninterp spec fn upper_case(s: Seq<char>) -> Seq<char>;

/// `str::to_uppercase`: the text in capital letters, by the rules of Unicode.
/// It is a function of the text alone; the rules are not spelled out.
#[verifier::external_body]
fn to_upper_case(s: &str) -> (r: String)
    ensures
        r@ == upper_case(s@),
{
    s.to_uppercase()
}

/// A text with its hyphens made underscores.
pub open spec fn no_hyphens(s: Seq<char>) -> Seq<char> {
    s.map_values(
        |c: char|
            if c == '-' {
                '_'
            } else {
                c
            },
    )
}

/// A text with its hyphens made underscores.
pub fn replace_hyphens(s: &str) -> (r: String)
    ensures
        r@ == no_hyphens(s@),
{
    let v = chars_of(s);
    let mut out = String::new();
    let mut i: usize = 0;
    while i < v.len()
        invariant
            i <= v.len(),
            out@ == no_hyphens(v@.take(i as int)),
        decreases v.len() - i,
    {
        out.push(
            if v[i] == '-' {
                '_'
            } else {
                v[i]
            },
        );
        assert(out@ =~= no_hyphens(v@.take(i as int + 1)));
        i += 1;
    }
    assert(v@.take(v.len() as int) =~= v@);
    out
}

/// Normalizes a name for use in the name of an environment variable: capital
/// letters, and underscores for hyphens.
pub fn normalize_env_name(s: &str) -> (r: String)
    ensures
        r@ == env_name(s@),
{
    replace_hyphens(to_upper_case(s).as_str())
}

/// A name as it stands in the name of an environment variable: capital letters,
/// and underscores for hyphens.
pub open spec fn env_name(s: Seq<char>) -> Seq<char> {
    no_hyphens(upper_case(s))
}

/// The variables of the first `n` interfaces of a device.
pub open spec fn iface_vars(d: DeviceView, n: int) -> Seq<(Seq<char>, Seq<char>)>
    decreases n,
{
    if n <= 0 {
        Seq::empty()
    } else {
        let before = iface_vars(d, n - 1);
        let i = d.interfaces[n - 1];
        match i.ip {
            Some(ip) => before.push(
                (
                    "NETSIM_IP_"@ + env_name(d.name) + "_"@ + env_name(i.ifname),
                    ip.spec_text(),
                ),
            ),
            None => before,
        }
    }
}

/// The variables of a device: its default address, then the address of each
/// interface.
pub open spec fn device_vars(d: DeviceView) -> Seq<(Seq<char>, Seq<char>)> {
    let first = match d.iface(d.default_via)->0.ip {
        Some(ip) => seq![("NETSIM_IP_"@ + env_name(d.name), ip.spec_text())],
        None => Seq::empty(),
    };
    first + iface_vars(d, d.interfaces.len() as int)
}

/// The variables of the first `n` devices.
pub open spec fn all_vars(devices: Seq<(NodeId, DeviceView)>, n: int) -> Seq<(Seq<char>, Seq<char>)>
    decreases n,
{
    if n <= 0 {
        Seq::empty()
    } else {
        all_vars(devices, n - 1) + device_vars(devices[n - 1].1)
    }
}

/// The views of a list of pairs.
pub open spec fn pair_views(v: Seq<(String, String)>) -> Seq<(Seq<char>, Seq<char>)> {
    Seq::new(v.len(), |i: int| (v[i].0@, v[i].1@))
}

fn push_device_vars(out: &mut Vec<(String, String)>, dev: &DeviceData)
    requires
        dev@.wf(),
        dev@.interfaces.len() > 0,
    ensures
        pair_views(final(out)@) == pair_views(old(out)@) + device_vars(dev@),
{
    let norm = normalize_env_name(dev.name.as_str());
    let ghost before = pair_views(out@);
    let ghost first = match dev@.iface(dev@.default_via)->0.ip {
        Some(ip) => seq![("NETSIM_IP_"@ + env_name(dev@.name), ip.spec_text())],
        None => Seq::empty(),
    };
    if let Some(ip) = dev.default_iface().ip {
        let mut key = "NETSIM_IP_".to_owned();
        key.append(norm.as_str());
        out.push((key, ip.text()));
    }
    assert(pair_views(out@) =~= before + first + iface_vars(dev@, 0));
    let mut i: usize = 0;
    while i < dev.interfaces.len()
        invariant
            i <= dev.interfaces.len(),
            norm@ == env_name(dev@.name),
            pair_views(out@) == before + first + iface_vars(dev@, i as int),
        decreases dev.interfaces.len() - i,
    {
        let iface = &dev.interfaces[i];
        let ghost done = pair_views(out@);
        assert(dev@.interfaces[i as int] == iface@);
        if let Some(ip) = iface.ip {
            let mut key = "NETSIM_IP_".to_owned();
            key.append(norm.as_str());
            key.append("_");
            key.append(normalize_env_name(iface.ifname.as_str()).as_str());
            let value = ip.text();
            out.push((key, value));
            assert(pair_views(out@) =~= done.push((key@, value@)));
        }
        assert(pair_views(out@) =~= before + first + iface_vars(dev@, i as int + 1));
        i += 1;
    }
    assert(pair_views(out@) =~= before + device_vars(dev@));
}

/// Lists the `NETSIM_IP_*` variables of a lab, device by device. Where two have
/// the same name, the later one counts.
pub fn env_vars(core: &NetworkCore) -> (r: Vec<(String, String)>)
    requires
        core.wf(),
        forall|id: NodeId| #[trigger]
            core@.devices.contains_key(id) ==> core@.devices[id].interfaces.len() > 0,
    ensures
        pair_views(r@) == all_vars(core.devices.pairs(), core.devices.pairs().len() as int),
{
    let mut out: Vec<(String, String)> = Vec::new();
    let n = core.devices.len();
    let mut i: usize = 0;
    assert(pair_views(out@) =~= Seq::<(Seq<char>, Seq<char>)>::empty());
    while i < n
        invariant
            core.wf(),
            forall|id: NodeId| #[trigger]
                core@.devices.contains_key(id) ==> core@.devices[id].interfaces.len() > 0,
            i <= n == core.devices.pairs().len(),
            pair_views(out@) == all_vars(core.devices.pairs(), i as int),
        decreases n - i,
    {
        let (id, dev) = core.devices.at(i);
        assert(core@.devices.contains_key(*id));
        push_device_vars(&mut out, dev);
        i += 1;
    }
    out
}

} // verus!
