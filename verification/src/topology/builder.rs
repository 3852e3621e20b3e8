//! Building a device step by step.
use vstd::prelude::*;

use crate::iface::IfaceConfig;
use crate::lab::{add_device, auto_iface_name};
use crate::profile::Ipv6ProvisioningMode;
use crate::text::dec;
use crate::topology::ifaces::{build_views, device_builds};
use crate::topology::types::{CoreError, CoreView, DeviceView, IfaceBuild, NetworkCore, NodeId};

verus! {

/// Options of a device that is being built. The first step that fails counts;
/// those after it do nothing.
#[derive(Clone, Copy, Debug)]
pub struct DeviceBuilder {
    /// The device.
    pub id: NodeId,
    /// MTU of all interfaces.
    pub mtu: Option<u32>,
    /// IPv6 provisioning of this device only.
    pub provisioning_mode: Option<Ipv6ProvisioningMode>,
    /// What came of the steps so far.
    pub result: Result<(), CoreError>,
}

impl CoreView {
    /// The number of interfaces that a device has; none where it is gone.
    pub open spec fn iface_count(self, device: NodeId) -> nat {
        if self.devices.contains_key(device) {
            self.devices[device].interfaces.len()
        } else {
            0
        }
    }
}

impl DeviceBuilder {
    /// A builder without options.
    pub fn new(id: NodeId) -> (r: DeviceBuilder)
        ensures
            r == (DeviceBuilder {
                id,
                mtu: None,
                provisioning_mode: None,
                result: Ok::<(), CoreError>(()),
            }),
    {
        DeviceBuilder { id, mtu: None, provisioning_mode: None, result: Ok(()) }
    }

    /// Adds a device and starts to build it. Where the name is taken nothing is
    /// added, and every later step leaves it at that.
    pub fn start(core: &mut NetworkCore, name: &str) -> (r: DeviceBuilder)
        requires
            old(core).wf(),
            old(core)@.device_named(name@) is None ==> old(core).next_id < u64::MAX,
        ensures
            final(core).wf(),
            match old(core)@.device_named(name@) {
                Some(_) => final(core)@ == old(core)@ && r == (DeviceBuilder {
                    id: NodeId(u64::MAX),
                    mtu: None,
                    provisioning_mode: None,
                    result: Err::<(), CoreError>(CoreError::NameTaken),
                }),
                None => final(core)@ == old(core)@.added_device(name@) && r == (DeviceBuilder {
                    id: NodeId(old(core)@.next_id),
                    mtu: None,
                    provisioning_mode: None,
                    result: Ok::<(), CoreError>(()),
                }),
            },
    {
        match add_device(core, name) {
            Ok(id) => DeviceBuilder::new(id),
            Err(e) => DeviceBuilder {
                id: NodeId(u64::MAX),
                mtu: None,
                provisioning_mode: None,
                result: Err(e),
            },
        }
    }

    /// Sets the MTU on all interfaces of this device.
    pub fn mtu(self, mtu: u32) -> (r: DeviceBuilder)
        ensures
            r == (if self.result is Ok {
                DeviceBuilder { mtu: Some(mtu), ..self }
            } else {
                self
            }),
    {
        if self.result.is_ok() {
            DeviceBuilder { mtu: Some(mtu), ..self }
        } else {
            self
        }
    }

    /// Overrides the IPv6 provisioning mode for this device only.
    pub fn ipv6_provisioning_mode(self, mode: Ipv6ProvisioningMode) -> (r: DeviceBuilder)
        ensures
            r == (if self.result is Ok {
                DeviceBuilder { provisioning_mode: Some(mode), ..self }
            } else {
                self
            }),
    {
        if self.result.is_ok() {
            DeviceBuilder { provisioning_mode: Some(mode), ..self }
        } else {
            self
        }
    }

    /// Adds a named interface with the given configuration.
    pub fn iface(self, core: &mut NetworkCore, ifname: &str, config: IfaceConfig) -> (r:
        DeviceBuilder)
        requires
            old(core).wf(),
            self.result is Ok ==> old(core).next_id < u64::MAX,
        ensures
            final(core).wf(),
            self.result is Err ==> r == self && final(core)@ == old(core)@,
            self.result is Ok ==> {
                let (c, result) = old(core)@.add_configured(self.id, ifname@, config);
                final(core)@ == c && r == (DeviceBuilder { result, ..self })
            },
    {
        if self.result.is_ok() {
            let result = core.add_device_iface_from_config(self.id, ifname, config);
            DeviceBuilder { result, ..self }
        } else {
            self
        }
    }

    /// Adds an interface that is named by its number: `eth0`, `eth1`, ...
    pub fn uplink(self, core: &mut NetworkCore, config: IfaceConfig) -> (r: DeviceBuilder)
        requires
            old(core).wf(),
            self.result is Ok ==> old(core).next_id < u64::MAX,
        ensures
            final(core).wf(),
            self.result is Err ==> r == self && final(core)@ == old(core)@,
            self.result is Ok ==> {
                let name = "eth"@ + dec(old(core)@.iface_count(self.id));
                let (c, result) = old(core)@.add_configured(self.id, name, config);
                final(core)@ == c && r == (DeviceBuilder { result, ..self })
            },
    {
        let n: usize = match core.devices.get(&self.id) {
            Some(d) => d.interfaces.len(),
            None => 0,
        };
        self.iface(core, auto_iface_name(n).as_str(), config)
    }

    /// Overrides which interface carries the default route.
    pub fn default_via(self, core: &mut NetworkCore, ifname: &str) -> (r: DeviceBuilder)
        requires
            old(core).wf(),
        ensures
            final(core).wf(),
            self.result is Err ==> r == self && final(core)@ == old(core)@,
            self.result is Ok ==> {
                let (c, result) = old(core)@.routed_through(self.id, ifname@);
                final(core)@ == c && r == (DeviceBuilder { result, ..self })
            },
    {
        if self.result.is_ok() {
            let result = core.set_device_default_via(self.id, ifname);
            DeviceBuilder { result, ..self }
        } else {
            self
        }
    }

    /// Stores the options and returns what wires the interfaces, with the
    /// provisioning mode; the first step that failed counts.
    pub fn build(self, core: &mut NetworkCore, lab_mode: Ipv6ProvisioningMode) -> (r: Result<
        (Vec<IfaceBuild>, Ipv6ProvisioningMode),
        CoreError,
    >)
        requires
            old(core).wf(),
            self.result is Ok && old(core)@.devices.contains_key(self.id) ==> old(
                core,
            )@.owners_known(old(core)@.devices[self.id]),
        ensures
            final(core).wf(),
            match self.result {
                Err(e) => r is Err && r->Err_0 == e && final(core)@ == old(core)@,
                Ok(()) => if !old(core)@.devices.contains_key(self.id) {
                    r is Err && r->Err_0 == CoreError::UnknownDevice && final(core)@
                        == old(core)@
                } else {
                    let d = DeviceView {
                        mtu: self.mtu,
                        provisioning_mode: self.provisioning_mode,
                        ..old(core)@.devices[self.id]
                    };
                    let c = old(core)@.with_device(self.id, d);
                    let mode = match self.provisioning_mode {
                        Some(m) => m,
                        None => lab_mode,
                    };
                    &&& final(core)@ == c
                    &&& match device_builds(c, d, mode, d.interfaces.len() as int) {
                        Ok(b) => r is Ok && build_views(r->Ok_0.0@) == b && r->Ok_0.1 == mode,
                        Err(e) => r is Err && r->Err_0 == e,
                    }
                },
            },
    {
        match self.result {
            Err(e) => Err(e),
            Ok(()) => core.build_device(self.id, self.mtu, self.provisioning_mode, lab_mode),
        }
    }
}

} // verus!
