//! What a lab's state says after an event, in terms of what it said before.
use vstd::prelude::*;

use crate::event::{
    counted_all, counter_views, counters_differ, counters_of, counting_replaces, data_lines,
    delisted_all, delisting_removes, enlisted_all, enlisting_lists, line_counters, lines_counters,
    numbers, reduce, snapshot_of, CountersView, LabEvent, LabEventKind, LabStateView,
    RouterStateView, SnapshotView,
};
use crate::text::{parse_number, split, split_once, trim, words};
use crate::topology::types::{opt_view, CoreView, IfaceView};

verus! {

// ── what stays ───────────────────────────────────────────────────────

/// Whether two states differ at most in the number of the last event and the
/// routers.
pub open spec fn same_but_routers(a: LabStateView, b: LabStateView) -> bool {
    a == (LabStateView { opid: a.opid, routers: a.routers, ..b })
}

/// Whether two states differ at most in the number of the last event and the
/// devices.
pub open spec fn same_but_devices(a: LabStateView, b: LabStateView) -> bool {
    a == (LabStateView { opid: a.opid, devices: a.devices, ..b })
}

/// Whether every router but one is as it was.
pub open spec fn others_stay(a: LabStateView, b: LabStateView, router: Seq<char>) -> bool {
    &&& a.routers.dom() == b.routers.dom()
    &&& forall|r: Seq<char>|
        r != router && b.routers.contains_key(r) ==> #[trigger] a.routers[r] == b.routers[r]
}

/// Whether every device but one is as it was.
pub open spec fn other_devices_stay(a: LabStateView, b: LabStateView, device: Seq<char>) -> bool {
    &&& a.devices.dom() == b.devices.dom()
    &&& forall|d: Seq<char>|
        d != device && b.devices.contains_key(d) ==> #[trigger] a.devices[d] == b.devices[d]
}

// ── the lab as a whole ───────────────────────────────────────────────

/// A lab that is created is running, under its prefix and label, from the time of
/// the event on; one that is stopping says so; a whole state takes the place of what
/// was known, under the number of the event.
pub proof fn labs_start_and_stop(s: LabStateView, e: LabEvent)
    ensures
        ({
            let t = reduce(s, e);
            &&& e.kind is LabCreated ==> {
                &&& t.lab_prefix == e.kind->lab_prefix@
                &&& t.label == opt_view(e.kind->label)
                &&& t.status == "running"@
                &&& t.created_at == Some(e.timestamp)
                &&& t.routers == s.routers && t.devices == s.devices && t.regions == s.regions
                    && t.region_links == s.region_links && t.ix == s.ix
            }
            &&& e.kind is LabStopping ==> t.status == "stopping"@ && t == (LabStateView {
                opid: t.opid,
                status: t.status,
                ..s
            })
            &&& e.kind matches LabEventKind::InitialState { state: Some(x) } ==> t == (
            LabStateView { opid: e.opid, ..(*x)@ })
            &&& e.kind matches LabEventKind::InitialState { state: None } ==> t == (LabStateView {
                opid: e.opid,
                ..s
            })
            &&& e.kind matches LabEventKind::IxCreated { bridge, cidr, gw, cidr_v6, gw_v6 } ==> {
                &&& t.ix is Some
                &&& t.ix->0.bridge == bridge@
                &&& t.ix->0.cidr == cidr && t.ix->0.gw == gw
                &&& t.ix->0.cidr_v6 == cidr_v6 && t.ix->0.gw_v6 == gw_v6
                &&& t == (LabStateView { opid: t.opid, ix: t.ix, ..s })
            }
        }),
{
}

/// Events that report without changing the topology leave the state as it was.
pub proof fn reports_change_nothing(s: LabStateView, e: LabEvent)
    requires
        e.kind is NatStateFlushed || e.kind is LinkUp || e.kind is LinkDown || e.kind
            is CommandSpawned || e.kind is CommandExited,
    ensures
        reduce(s, e) == (LabStateView { opid: e.opid, ..s }),
{
}

// ── routers and regions ──────────────────────────────────────────────

/// A router that was added is there with its state; one that was removed is gone.
/// Every other router stays.
pub proof fn routers_come_and_go(s: LabStateView, e: LabEvent, other: Seq<char>)
    ensures
        ({
            let t = reduce(s, e);
            &&& e.kind matches LabEventKind::RouterAdded { name, state } ==> {
                &&& t.routers.contains_key(name@) && t.routers[name@] == (*state)@
                &&& other != name@ ==> (t.routers.contains_key(other) <==> s.routers.contains_key(
                    other,
                )) && (s.routers.contains_key(other) ==> t.routers[other] == s.routers[other])
                &&& same_but_routers(t, s)
            }
            &&& e.kind matches LabEventKind::RouterRemoved { name } ==> {
                &&& !t.routers.contains_key(name@)
                &&& other != name@ ==> (t.routers.contains_key(other) <==> s.routers.contains_key(
                    other,
                )) && (s.routers.contains_key(other) ==> t.routers[other] == s.routers[other])
                &&& same_but_routers(t, s)
            }
            &&& e.kind matches LabEventKind::RegionAdded { name, router } ==> {
                &&& t.regions.contains_key(name@) && t.regions[name@] == router@
                &&& other != name@ ==> (t.regions.contains_key(other) <==> s.regions.contains_key(
                    other,
                )) && (s.regions.contains_key(other) ==> t.regions[other] == s.regions[other])
                &&& t == (LabStateView { opid: t.opid, regions: t.regions, ..s })
            }
        }),
{
}

/// Links between regions, in the order they were added: a new one is up and
/// unimpaired; breaking one marks every link between the two routers, in whichever
/// order they are named, and restoring one clears the mark and the condition. Links
/// between other routers stay.
pub proof fn links_are_tracked(s: LabStateView, e: LabEvent, k: int)
    requires
        0 <= k < s.region_links.len() || e.kind is RegionLinkAdded,
    ensures
        ({
            let t = reduce(s, e);
            let old = s.region_links[k];
            let new = t.region_links[k];
            &&& e.kind matches LabEventKind::RegionLinkAdded { router_a, router_b } ==> {
                let n = s.region_links.len() as int;
                &&& t.region_links.len() == n + 1
                &&& t.region_links[n].a == router_a@ && t.region_links[n].b == router_b@
                &&& !t.region_links[n].broken && t.region_links[n].condition is None
                &&& 0 <= k < n ==> new == old
            }
            &&& e.kind matches LabEventKind::RegionLinkBroken { router_a, router_b, condition }
                ==> {
                &&& t.region_links.len() == s.region_links.len()
                &&& new.a == old.a && new.b == old.b
                &&& (old.a == router_a@ && old.b == router_b@) || (old.a == router_b@ && old.b
                    == router_a@) ==> new.broken && new.condition == condition
                &&& !((old.a == router_a@ && old.b == router_b@) || (old.a == router_b@ && old.b
                    == router_a@)) ==> new == old
            }
            &&& e.kind matches LabEventKind::RegionLinkRestored { router_a, router_b } ==> {
                &&& t.region_links.len() == s.region_links.len()
                &&& new.a == old.a && new.b == old.b
                &&& (old.a == router_a@ && old.b == router_b@) || (old.a == router_b@ && old.b
                    == router_a@) ==> !new.broken && new.condition is None
                &&& !((old.a == router_a@ && old.b == router_b@) || (old.a == router_b@ && old.b
                    == router_a@)) ==> new == old
            }
            &&& e.kind is RegionLinkAdded || e.kind is RegionLinkBroken || e.kind
                is RegionLinkRestored ==> t == (LabStateView {
                opid: t.opid,
                region_links: t.region_links,
                ..s
            })
        }),
{
}

/// A change of a router's NAT, IPv6 NAT, firewall or downlink condition is on that
/// router, in that field, and nowhere else.
pub proof fn router_settings_are_tracked(s: LabStateView, e: LabEvent)
    ensures
        ({
            let t = reduce(s, e);
            &&& e.kind matches LabEventKind::NatChanged { router, nat: mode } ==> {
                &&& same_but_routers(t, s) && others_stay(t, s, router@)
                &&& s.routers.contains_key(router@) ==> t.routers[router@].nat == mode
                    && t.routers[router@] == (RouterStateView {
                    nat: t.routers[router@].nat,
                    ..s.routers[router@]
                })
            }
            &&& e.kind matches LabEventKind::NatV6Changed { router, nat_v6 } ==> {
                &&& same_but_routers(t, s) && others_stay(t, s, router@)
                &&& s.routers.contains_key(router@) ==> t.routers[router@].nat_v6 == nat_v6
                    && t.routers[router@] == (RouterStateView {
                    nat_v6: t.routers[router@].nat_v6,
                    ..s.routers[router@]
                })
            }
            &&& e.kind matches LabEventKind::FirewallChanged { router, firewall } ==> {
                &&& same_but_routers(t, s) && others_stay(t, s, router@)
                &&& s.routers.contains_key(router@) ==> t.routers[router@].firewall == firewall@
                    && t.routers[router@] == (RouterStateView {
                    firewall: t.routers[router@].firewall,
                    ..s.routers[router@]
                })
            }
            &&& e.kind matches LabEventKind::DownlinkConditionChanged { router, condition } ==> {
                &&& same_but_routers(t, s) && others_stay(t, s, router@)
                &&& s.routers.contains_key(router@) ==> t.routers[router@].downlink_condition
                    == condition && t.routers[router@] == (RouterStateView {
                    downlink_condition: t.routers[router@].downlink_condition,
                    ..s.routers[router@]
                })
            }
        }),
{
    let t = reduce(s, e);
    if e.kind is NatChanged || e.kind is NatV6Changed || e.kind is FirewallChanged || e.kind
        is DownlinkConditionChanged {
        assert(t.routers.dom() =~= s.routers.dom());
    }
}

// ── interfaces ───────────────────────────────────────────────────────

/// A change of an interface's condition or addresses, or its move to another router,
/// is on that interface of that device, in those fields, and nowhere else.
pub proof fn interfaces_are_tracked(s: LabStateView, e: LabEvent, device: Seq<char>, k: int)
    requires
        s.devices.contains_key(device),
        0 <= k < s.devices[device].interfaces.len(),
    ensures
        ({
            let t = reduce(s, e);
            let old = s.devices[device].interfaces[k];
            let new = t.devices[device].interfaces[k];
            &&& e.kind matches LabEventKind::LinkConditionChanged {
                device: named,
                iface,
                condition,
            } ==> {
                &&& t.devices[device].interfaces.len() == s.devices[device].interfaces.len()
                &&& device == named@ && old.name == iface@ ==> new.link_condition == condition
                    && new == (SnapshotView { link_condition: new.link_condition, ..old })
                &&& device != named@ || old.name != iface@ ==> new == old
                &&& same_but_devices(t, s)
            }
            &&& e.kind matches LabEventKind::DeviceIpChanged {
                device: named,
                iface_name,
                new_ip,
                new_ip_v6,
            } ==> {
                &&& t.devices[device].interfaces.len() == s.devices[device].interfaces.len()
                &&& device == named@ && old.name == iface_name@ ==> new.ip == new_ip && new.ip_v6
                    == new_ip_v6 && new == (SnapshotView { ip: new.ip, ip_v6: new.ip_v6, ..old })
                &&& device != named@ || old.name != iface_name@ ==> new == old
                &&& same_but_devices(t, s)
            }
            &&& e.kind matches LabEventKind::InterfaceReplugged {
                device: named,
                iface_name,
                to_router,
                new_ip,
                new_ip_v6,
                ..
            } ==> {
                &&& t.devices[device].interfaces.len() == s.devices[device].interfaces.len()
                &&& device == named@ && old.name == iface_name@ ==> new.router == to_router@
                    && new.ip == new_ip && new.ip_v6 == new_ip_v6 && new.name == old.name
                    && new.link_condition == old.link_condition
                &&& device != named@ || old.name != iface_name@ ==> new == old
            }
            &&& e.kind is LinkConditionChanged || e.kind is DeviceIpChanged || e.kind
                is InterfaceReplugged ==> t.devices[device].ns == s.devices[device].ns
                && t.devices[device].default_via == s.devices[device].default_via
                && t.devices[device].mtu == s.devices[device].mtu && t.devices[device].counters
                == s.devices[device].counters && t.devices.dom() == s.devices.dom()
        }),
{
    let t = reduce(s, e);
    if e.kind is LinkConditionChanged || e.kind is DeviceIpChanged || e.kind
        is InterfaceReplugged {
        assert(t.devices.dom() =~= s.devices.dom());
    }
}

/// An interface that was added is the device's last one, and its router lists the
/// device; the other interfaces, devices and routers stay.
pub proof fn added_interfaces_are_listed(s: LabStateView, e: LabEvent)
    requires
        e.kind is InterfaceAdded,
    ensures
        ({
            let t = reduce(s, e);
            let device = e.kind->InterfaceAdded_device@;
            let iface = e.kind->InterfaceAdded_iface@;
            &&& s.devices.contains_key(device) ==> {
                let n = s.devices[device].interfaces.len() as int;
                &&& t.devices[device].interfaces.len() == n + 1
                &&& t.devices[device].interfaces[n] == iface
                &&& forall|j: int|
                    0 <= j < n ==> #[trigger] t.devices[device].interfaces[j]
                        == s.devices[device].interfaces[j]
            }
            &&& other_devices_stay(t, s, device)
            &&& others_stay(t, s, iface.router)
            &&& s.routers.contains_key(iface.router) ==> t.routers[iface.router].devices.contains(
                device,
            ) && t.routers[iface.router] == (RouterStateView {
                devices: t.routers[iface.router].devices,
                ..s.routers[iface.router]
            })
        }),
{
    let t = reduce(s, e);
    let device = e.kind->InterfaceAdded_device@;
    let iface = e.kind->InterfaceAdded_iface@;
    assert(t.devices.dom() =~= s.devices.dom());
    assert(t.routers.dom() =~= s.routers.dom());
    enlisting_lists(s.routers[iface.router].devices, device);
}

/// An interface that was removed is gone from the device, and every other one stays.
/// Its router no longer lists the device where no other interface of the device is
/// on it, and does where one is.
pub proof fn removed_interfaces_are_gone(s: LabStateView, e: LabEvent, k: int)
    requires
        e.kind is InterfaceRemoved,
        s.devices.contains_key(e.kind->InterfaceRemoved_device@),
        0 <= k < s.devices[e.kind->InterfaceRemoved_device@].interfaces.len(),
        s.devices[e.kind->InterfaceRemoved_device@].interfaces[k].name
            == e.kind->InterfaceRemoved_iface_name@,
        forall|j: int|
            0 <= j < s.devices[e.kind->InterfaceRemoved_device@].interfaces.len() && j != k
                ==> (#[trigger] s.devices[e.kind->InterfaceRemoved_device@].interfaces[j]).name
                != e.kind->InterfaceRemoved_iface_name@,
    ensures
        ({
            let t = reduce(s, e);
            let device = e.kind->InterfaceRemoved_device@;
            let name = e.kind->InterfaceRemoved_iface_name@;
            let ifs = s.devices[device].interfaces;
            let router = ifs[k].router;
            &&& forall|i: SnapshotView| #[trigger]
                t.devices[device].interfaces.contains(i) <==> ifs.contains(i) && i.name != name
            &&& other_devices_stay(t, s, device)
            &&& others_stay(t, s, router)
            &&& s.routers.contains_key(router) && (forall|j: int|
                0 <= j < ifs.len() && j != k ==> (#[trigger] ifs[j]).router != router)
                ==> !t.routers[router].devices.contains(device)
            &&& s.routers.contains_key(router) && (exists|j: int|
                0 <= j < ifs.len() && j != k && (#[trigger] ifs[j]).router == router)
                ==> t.routers[router] == s.routers[router]
        }),
{
    let t = reduce(s, e);
    let device = e.kind->InterfaceRemoved_device@;
    let name = e.kind->InterfaceRemoved_iface_name@;
    let ifs = s.devices[device].interfaces;
    let router = ifs[k].router;
    let keep = |i: SnapshotView| i.name != name;
    let left = t.devices[device].interfaces;
    assert(left == ifs.filter(keep));
    assert(t.devices.dom() =~= s.devices.dom());
    first_of_name(ifs, name, 0, k);
    assert forall|i: SnapshotView| #[trigger]
        left.contains(i) <==> ifs.contains(i) && i.name != name by {
        filtered(ifs, keep, i);
    }
    let d = s.routers[router].devices;
    let extra = device.push('x');
    assert(extra.len() != device.len());
    delisting_removes(d, device, extra);
    if exists|j: int| 0 <= j < ifs.len() && j != k && (#[trigger] ifs[j]).router == router {
        let j = choose|j: int|
            0 <= j < ifs.len() && j != k && (#[trigger] ifs[j]).router == router;
        assert(ifs.contains(ifs[j]));
        assert(left.contains(ifs[j]));
        let p = left.index_of(ifs[j]);
        assert(left[p].router == router);
    } else {
        assert forall|p: int| 0 <= p < left.len() implies (#[trigger] left[p]).router
            != router by {
            assert(left.contains(left[p]));
            let j = ifs.index_of(left[p]);
            assert(ifs[j] == left[p]);
        }
    }
    assert(t.routers.dom() =~= s.routers.dom());
}

proof fn first_of_name(ifs: Seq<SnapshotView>, name: Seq<char>, i: int, k: int)
    requires
        0 <= i <= k < ifs.len(),
        ifs[k].name == name,
        forall|j: int| 0 <= j < ifs.len() && j != k ==> (#[trigger] ifs[j]).name != name,
    ensures
        crate::event::router_of(ifs, name, i) == Some(ifs[k].router),
    decreases k - i,
{
    if i < k {
        first_of_name(ifs, name, i + 1, k);
    }
}

proof fn filtered(s: Seq<SnapshotView>, keep: spec_fn(SnapshotView) -> bool, x: SnapshotView)
    ensures
        s.filter(keep).contains(x) <==> s.contains(x) && keep(x),
{
    broadcast use vstd::seq_lib::group_filter_ensures;

    if s.filter(keep).contains(x) {
        s.lemma_filter_contains_rev(keep, x);
        let i = s.filter(keep).index_of(x);
        assert(keep(s.filter(keep)[i]));
    }
    if s.contains(x) && keep(x) {
        let i = s.index_of(x);
        assert(keep(s[i]));
    }
}

/// An interface that moved leaves the list of the router it was on where no
/// interface of the device is left there, and joins that of the router it went to.
pub proof fn moved_interfaces_change_lists(s: LabStateView, e: LabEvent)
    requires
        e.kind is InterfaceReplugged,
    ensures
        ({
            let t = reduce(s, e);
            let device = e.kind->InterfaceReplugged_device@;
            let from = e.kind->from_router@;
            let to = e.kind->to_router@;
            let stays = t.devices.contains_key(device) && exists|j: int|
                0 <= j < t.devices[device].interfaces.len() && (
                #[trigger] t.devices[device].interfaces[j]).router == from;
            &&& s.routers.contains_key(to) ==> t.routers[to].devices.contains(device)
            &&& s.routers.contains_key(from) && from != to && !stays
                ==> !t.routers[from].devices.contains(device)
            &&& s.routers.contains_key(from) && from != to && stays ==> t.routers[from]
                == s.routers[from]
            &&& t.routers.dom() == s.routers.dom()
            &&& forall|r: Seq<char>|
                r != from && r != to && s.routers.contains_key(r) ==> #[trigger] t.routers[r]
                    == s.routers[r]
        }),
{
    let t = reduce(s, e);
    let device = e.kind->InterfaceReplugged_device@;
    let from = e.kind->from_router@;
    let to = e.kind->to_router@;
    let extra = device.push('x');
    assert(extra.len() != device.len());
    delisting_removes(s.routers[from].devices, device, extra);
    if s.routers.contains_key(to) {
        crate::event::replugging_moves_the_device(s, e);
    }
    assert(t.routers.dom() =~= s.routers.dom());
}

/// A device that was added is there with its state, and every router that one of its
/// interfaces is on lists it; no other router changes.
pub proof fn added_devices_are_listed(s: LabStateView, e: LabEvent, router: Seq<char>)
    requires
        e.kind is DeviceAdded,
        s.routers.contains_key(router),
    ensures
        ({
            let t = reduce(s, e);
            let name = e.kind->DeviceAdded_name@;
            let state = e.kind->DeviceAdded_state@;
            let on_it = exists|j: int|
                0 <= j < state.interfaces.len() && (#[trigger] state.interfaces[j]).router
                    == router;
            &&& t.devices.contains_key(name) && t.devices[name] == state
            &&& forall|d: Seq<char>|
                d != name && s.devices.contains_key(d) ==> #[trigger] t.devices[d]
                    == s.devices[d]
            &&& t.routers.contains_key(router)
            &&& on_it ==> t.routers[router].devices.contains(name)
            &&& !on_it ==> t.routers[router] == s.routers[router]
        }),
{
    let name = e.kind->DeviceAdded_name@;
    let state = e.kind->DeviceAdded_state@;
    enlisting_everywhere(s.routers, state.interfaces, name, state.interfaces.len() as int, router);
}

proof fn enlisting_everywhere(
    routers: Map<Seq<char>, RouterStateView>,
    ifs: Seq<SnapshotView>,
    device: Seq<char>,
    n: int,
    router: Seq<char>,
)
    requires
        0 <= n <= ifs.len(),
        routers.contains_key(router),
    ensures
        ({
            let out = enlisted_all(routers, ifs, device, n);
            &&& out.contains_key(router)
            &&& (exists|j: int| 0 <= j < n && (#[trigger] ifs[j]).router == router)
                ==> out[router].devices.contains(device)
            &&& (forall|j: int| 0 <= j < n ==> (#[trigger] ifs[j]).router != router)
                ==> out[router] == routers[router]
        }),
    decreases n,
{
    if n > 0 {
        enlisting_everywhere(routers, ifs, device, n - 1, router);
        let before = enlisted_all(routers, ifs, device, n - 1);
        enlisting_lists(before[router].devices, device);
        assert(ifs[n - 1].router == router || ifs[n - 1].router != router);
    }
}

/// A device that was removed is gone, and no router that one of its interfaces was
/// on lists it; no other router changes.
pub proof fn removed_devices_are_gone(s: LabStateView, e: LabEvent, router: Seq<char>)
    requires
        e.kind is DeviceRemoved,
        s.routers.contains_key(router),
    ensures
        ({
            let t = reduce(s, e);
            let name = e.kind->DeviceRemoved_name@;
            let ifs = s.devices[name].interfaces;
            let on_it = s.devices.contains_key(name) && exists|j: int|
                0 <= j < ifs.len() && (#[trigger] ifs[j]).router == router;
            &&& !t.devices.contains_key(name)
            &&& forall|d: Seq<char>|
                d != name && s.devices.contains_key(d) ==> #[trigger] t.devices[d]
                    == s.devices[d]
            &&& t.routers.contains_key(router)
            &&& on_it ==> !t.routers[router].devices.contains(name)
            &&& !on_it ==> t.routers[router] == s.routers[router]
        }),
{
    let name = e.kind->DeviceRemoved_name@;
    if s.devices.contains_key(name) {
        let ifs = s.devices[name].interfaces;
        delisting_everywhere(s.routers, ifs, name, ifs.len() as int, router);
    }
}

proof fn delisting_everywhere(
    routers: Map<Seq<char>, RouterStateView>,
    ifs: Seq<SnapshotView>,
    device: Seq<char>,
    n: int,
    router: Seq<char>,
)
    requires
        0 <= n <= ifs.len(),
        routers.contains_key(router),
    ensures
        ({
            let out = delisted_all(routers, ifs, device, n);
            &&& out.contains_key(router)
            &&& (exists|j: int| 0 <= j < n && (#[trigger] ifs[j]).router == router)
                ==> !out[router].devices.contains(device)
            &&& (forall|j: int| 0 <= j < n ==> (#[trigger] ifs[j]).router != router)
                ==> out[router] == routers[router]
        }),
    decreases n,
{
    if n > 0 {
        delisting_everywhere(routers, ifs, device, n - 1, router);
        let before = delisted_all(routers, ifs, device, n - 1);
        let extra = device.push('x');
        assert(extra.len() != device.len());
        delisting_removes(before[router].devices, device, extra);
        assert(ifs[n - 1].router == router || ifs[n - 1].router != router);
    }
}

// ── counters ─────────────────────────────────────────────────────────

/// Counters that were reported are on the node they were reported for, the last
/// report of an interface being the one that counts; those of interfaces that were
/// not reported, and those of other nodes, stay.
pub proof fn reported_counters_are_kept(s: LabStateView, e: LabEvent, iface: Seq<char>, k: int)
    requires
        e.kind is PacketCounters,
        s.routers.contains_key(e.kind->PacketCounters_node@) ==> counters_differ(
            s.routers[e.kind->PacketCounters_node@].counters,
        ),
        s.devices.contains_key(e.kind->PacketCounters_node@) ==> counters_differ(
            s.devices[e.kind->PacketCounters_node@].counters,
        ),
    ensures
        ({
            let t = reduce(s, e);
            let node = e.kind->PacketCounters_node@;
            let new = counter_views(e.kind->counters@);
            let last = 0 <= k < new.len() && new[k].iface == iface && forall|j: int|
                k < j < new.len() ==> (#[trigger] new[j]).iface != iface;
            let silent = forall|j: int| 0 <= j < new.len() ==> (#[trigger] new[j]).iface != iface;
            &&& s.routers.contains_key(node) ==> {
                &&& last ==> counters_of(t.routers[node].counters, iface) == Some(new[k])
                &&& silent ==> counters_of(t.routers[node].counters, iface) == counters_of(
                    s.routers[node].counters,
                    iface,
                )
                &&& t.devices == s.devices
                &&& others_stay(t, s, node)
            }
            &&& !s.routers.contains_key(node) && s.devices.contains_key(node) ==> {
                &&& last ==> counters_of(t.devices[node].counters, iface) == Some(new[k])
                &&& silent ==> counters_of(t.devices[node].counters, iface) == counters_of(
                    s.devices[node].counters,
                    iface,
                )
                &&& t.routers == s.routers
                &&& other_devices_stay(t, s, node)
            }
            &&& !s.routers.contains_key(node) && !s.devices.contains_key(node) ==> t == (
            LabStateView { opid: e.opid, ..s })
        }),
{
    let t = reduce(s, e);
    let node = e.kind->PacketCounters_node@;
    let new = counter_views(e.kind->counters@);
    if s.routers.contains_key(node) {
        last_report_counts(s.routers[node].counters, new, new.len() as int, iface, k);
        assert(t.routers.dom() =~= s.routers.dom());
    } else if s.devices.contains_key(node) {
        last_report_counts(s.devices[node].counters, new, new.len() as int, iface, k);
        assert(t.devices.dom() =~= s.devices.dom());
    }
}

proof fn last_report_counts(
    cs: Seq<CountersView>,
    new: Seq<CountersView>,
    n: int,
    iface: Seq<char>,
    k: int,
)
    requires
        counters_differ(cs),
        0 <= n <= new.len(),
    ensures
        counters_differ(counted_all(cs, new, n)),
        0 <= k < n && new[k].iface == iface && (forall|j: int|
            k < j < n ==> (#[trigger] new[j]).iface != iface) ==> counters_of(
            counted_all(cs, new, n),
            iface,
        ) == Some(new[k]),
        (forall|j: int| 0 <= j < n ==> (#[trigger] new[j]).iface != iface) ==> counters_of(
            counted_all(cs, new, n),
            iface,
        ) == counters_of(cs, iface),
    decreases n,
{
    if n > 0 {
        last_report_counts(cs, new, n - 1, iface, k);
        let before = counted_all(cs, new, n - 1);
        let c = new[n - 1];
        if c.iface == iface {
            let extra = iface.push('x');
            assert(extra.len() != iface.len());
            counting_replaces(before, c, extra);
        } else {
            counting_replaces(before, c, iface);
        }
    }
}

/// A line of `/proc/net/dev` behind its colon lists what was received first: bytes
/// and packets come first and second, and sent bytes and packets ninth and tenth.
/// The loopback is left out, and so is a line with fewer than ten numbers.
pub proof fn counter_lines_are_read(line: Seq<char>, name: Seq<char>, rest: Seq<char>)
    requires
        split_once(trim(line), ":"@) == Some((name, rest)),
    ensures
        ({
            let f = numbers(words(rest));
            let c = line_counters(line);
            &&& c is Some <==> trim(name) != "lo"@ && f.len() >= 10
            &&& c is Some ==> {
                &&& c->0.iface == trim(name)
                &&& c->0.rx_bytes == f[0] && c->0.rx_packets == f[1]
                &&& c->0.tx_bytes == f[8] && c->0.tx_packets == f[9]
            }
        }),
{
}

/// The numbers among words are read in order.
pub proof fn numbers_are_read_in_order(ws: Seq<Seq<char>>, w: Seq<char>)
    ensures
        numbers(Seq::empty()).len() == 0,
        parse_number(w, 10, u64::MAX as int) is Some ==> numbers(ws.push(w)) == numbers(ws).push(
            parse_number(w, 10, u64::MAX as int)->0 as u64,
        ),
        parse_number(w, 10, u64::MAX as int) is None ==> numbers(ws.push(w)) == numbers(ws),
{
    assert(ws.push(w).drop_last() =~= ws);
}

/// The counters of `/proc/net/dev` are those of its lines, in order, behind the two
/// lines of its heading.
pub proof fn counter_files_are_read(content: Seq<char>, lines: Seq<Seq<char>>, line: Seq<char>)
    ensures
        lines_counters(Seq::empty()).len() == 0,
        line_counters(line) is Some ==> lines_counters(lines.push(line)) == lines_counters(
            lines,
        ).push(line_counters(line)->0),
        line_counters(line) is None ==> lines_counters(lines.push(line)) == lines_counters(lines),
        split(content, "\n"@).len() >= 2 ==> data_lines(content) == split(content, "\n"@).subrange(
            2,
            split(content, "\n"@).len() as int,
        ),
        split(content, "\n"@).len() < 2 ==> data_lines(content).len() == 0,
{
    assert(lines.push(line).drop_last() =~= lines);
}

// ── snapshots ────────────────────────────────────────────────────────

/// A snapshot of an interface names the router that owns the switch it is attached
/// to, and none for a dummy; it has the interface's name, addresses and egress
/// condition.
pub proof fn snapshots_name_their_router(c: CoreView, i: IfaceView)
    ensures
        ({
            let n = snapshot_of(c, i);
            let sw = c.switches[i.attachment->Routed_0];
            let owned = i.attachment is Routed && c.switches.contains_key(i.attachment->Routed_0)
                && sw.owner_router is Some && c.routers.contains_key(sw.owner_router->0);
            &&& n.name == i.ifname
            &&& n.ip == i.ip && n.ip_v6 == i.ip_v6
            &&& n.link_condition == i.egress
            &&& owned ==> n.router == c.routers[sw.owner_router->0].name
            &&& !owned ==> n.router.len() == 0
        }),
{
}

} // verus!
