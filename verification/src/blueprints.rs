//! What a configuration asks for: which entries count, in which order routers are
//! built, which latencies join regions, and which devices there are.
use vstd::prelude::*;

use crate::config::{
    by_name, by_name_is_sorted, entry_names_region, expanded, expanded_all, has_entry, is_good_link,
    is_target, latency_between, latency_from, latency_in, names_entry, names_region, one_iface,
    ready, ready_now, region_entries, resolved_ifaces, rounds, waiting, DeviceEntry, DeviceProblem,
    IfaceEntry, ImpairEntry, LabConfig, ParsedView, RegionConfig, RegionConfigPlan,
};
use crate::lab::RegionLink;
use crate::qdisc::{read_condition, LinkCondition};
use crate::text::{dec, text_lt, text_lt_is_total, views};
use crate::topology::types::{opt_view, CoreView, NodeId};

verus! {

// ── entries ──────────────────────────────────────────────────────────

/// Of entries with one name the last one counts, and every name has its entry.
pub proof fn last_entry_of_a_name_counts(names: Seq<Seq<char>>, n: int, x: int)
    requires
        0 <= n <= names.len(),
    ensures
        by_name(names, n).contains(x) <==> 0 <= x < n && forall|j: int|
            x < j < n ==> #[trigger] names[j] != names[x],
    decreases n,
{
    if n > 0 {
        let before = by_name(names, n - 1);
        let after = by_name(names, n);
        last_entry_of_a_name_counts(names, n - 1, x);
        by_name_is_sorted(names, n - 1);
        let p = crate::config::place_for(names, before, names[n - 1], 0);
        place_is_found(names, before, names[n - 1], 0);
        if p < before.len() && names[before[p]] == names[n - 1] {
            assert(after == before.update(p, n - 1));
            let old = before[p];
            if after.contains(x) {
                let i = after.index_of(x);
                if i != p {
                    assert(before[i] == x);
                    if names[x] == names[n - 1] {
                        if i < p {
                            assert(text_lt(names[before[i]], names[before[p]]));
                        } else {
                            assert(text_lt(names[before[p]], names[before[i]]));
                        }
                        text_lt_is_total(names[n - 1], names[n - 1]);
                    }
                }
            }
            assert(after[p] == n - 1);
            if 0 <= x < n - 1 && (forall|j: int| x < j < n ==> #[trigger] names[j] != names[x]) {
                assert(names[n - 1] != names[x]);
                assert(before.contains(x));
                let i = before.index_of(x);
                assert(after[i] == x);
            }
        } else {
            assert(after == before.insert(p, n - 1));
            if after.contains(x) {
                let i = after.index_of(x);
                if i < p {
                    assert(before[i] == x);
                } else if i > p {
                    assert(before[i - 1] == x);
                }
                if x != n - 1 {
                    assert(before.contains(x));
                    let k = before.index_of(x);
                    if names[x] == names[n - 1] {
                        if k < p {
                            assert(text_lt(names[before[k]], names[n - 1]));
                            text_lt_is_total(names[n - 1], names[n - 1]);
                        } else if k > p {
                            assert(text_lt(names[before[p]], names[before[k]]));
                        }
                    }
                }
            }
            assert(after[p] == n - 1);
            if 0 <= x < n - 1 && (forall|j: int| x < j < n ==> #[trigger] names[j] != names[x]) {
                assert(before.contains(x));
                let i = before.index_of(x);
                if i < p {
                    assert(after[i] == x);
                } else {
                    assert(after[i + 1] == x);
                }
            }
        }
    }
}

proof fn place_is_found(names: Seq<Seq<char>>, s: Seq<int>, name: Seq<char>, k: int)
    requires
        0 <= k <= s.len(),
    ensures
        ({
            let p = crate::config::place_for(names, s, name, k);
            &&& k <= p <= s.len()
            &&& forall|i: int| k <= i < p ==> text_lt(names[#[trigger] s[i]], name)
            &&& p < s.len() ==> !text_lt(names[s[p]], name)
        }),
    decreases s.len() - k,
{
    if k < s.len() && text_lt(names[s[k]], name) {
        place_is_found(names, s, name, k + 1);
    }
}

// ── routers ──────────────────────────────────────────────────────────

/// Every router is either built or stuck.
pub proof fn every_router_is_built_or_stuck(
    names: Seq<Seq<char>>,
    ups: Seq<Option<Seq<char>>>,
    pending: Seq<int>,
    fuel: nat,
    x: int,
)
    ensures
        ({
            let (order, stuck) = rounds(names, ups, pending, fuel);
            &&& order.contains(x) || stuck.contains(x) <==> pending.contains(x)
            &&& order.len() + stuck.len() == pending.len()
        }),
    decreases fuel,
{
    let now = ready_now(names, ups, pending);
    if fuel > 0 && now.len() > 0 {
        let later = waiting(names, ups, pending);
        every_router_is_built_or_stuck(names, ups, later, (fuel - 1) as nat, x);
        let p = |i: int| ready(names, ups, pending, i);
        let q = |i: int| !ready(names, ups, pending, i);
        assert(now == pending.filter(p));
        assert(later == pending.filter(q));
        chosen(pending, p, x);
        chosen(pending, q, x);
        parts(pending, p, q);
        let (rest, stuck) = rounds(names, ups, later, (fuel - 1) as nat);
        let order = now + rest;
        if now.contains(x) {
            assert(order[now.index_of(x)] == x);
        }
        if rest.contains(x) {
            assert(order[now.len() + rest.index_of(x)] == x);
        }
        if order.contains(x) {
            let i = order.index_of(x);
            if i < now.len() {
                assert(now[i] == x);
            } else {
                assert(rest[i - now.len()] == x);
            }
        }
    }
}

proof fn chosen(s: Seq<int>, p: spec_fn(int) -> bool, x: int)
    ensures
        s.filter(p).contains(x) <==> s.contains(x) && p(x),
{
    broadcast use vstd::seq_lib::group_filter_ensures;

    if s.filter(p).contains(x) {
        s.lemma_filter_contains_rev(p, x);
        let i = s.filter(p).index_of(x);
        assert(p(s.filter(p)[i]));
    }
    if s.contains(x) && p(x) {
        let i = s.index_of(x);
        assert(p(s[i]));
    }
}

proof fn parts(s: Seq<int>, p: spec_fn(int) -> bool, q: spec_fn(int) -> bool)
    requires
        forall|i: int| #[trigger] q(i) == !p(i),
    ensures
        s.filter(p).len() + s.filter(q).len() == s.len(),
    decreases s.len(),
{
    reveal(Seq::filter);
    if s.len() > 0 {
        parts(s.drop_last(), p, q);
        assert(q(s.last()) == !p(s.last()));
    }
}

/// A round builds the routers that can be built in their order: where none waits for
/// another, all are built as they stand.
pub proof fn independent_routers_keep_their_order(
    names: Seq<Seq<char>>,
    ups: Seq<Option<Seq<char>>>,
    pending: Seq<int>,
    fuel: nat,
)
    requires
        fuel > 0,
        forall|k: int|
            0 <= k < pending.len() ==> ups[#[trigger] pending[k]] is None || !names_entry(
                names,
                pending,
                ups[pending[k]]->0,
            ),
    ensures
        rounds(names, ups, pending, fuel).0 == pending,
        rounds(names, ups, pending, fuel).1.len() == 0,
{
    let p = |i: int| ready(names, ups, pending, i);
    let q = |i: int| !ready(names, ups, pending, i);
    all_chosen(pending, p);
    none_chosen(pending, q);
    let later = waiting(names, ups, pending);
    assert(ready_now(names, ups, pending) == pending);
    assert(later.len() == 0);
    if pending.len() > 0 {
        reveal(Seq::filter);
        let now2 = ready_now(names, ups, later);
        assert(now2.len() == 0);
        assert(rounds(names, ups, later, (fuel - 1) as nat).0.len() == 0);
        assert(pending + Seq::<int>::empty() =~= pending);
        assert(rounds(names, ups, later, (fuel - 1) as nat).0 =~= Seq::<int>::empty());
    } else {
        assert(pending =~= Seq::<int>::empty());
    }
}

proof fn all_chosen(s: Seq<int>, p: spec_fn(int) -> bool)
    requires
        forall|k: int| 0 <= k < s.len() ==> p(#[trigger] s[k]),
    ensures
        s.filter(p) == s,
    decreases s.len(),
{
    reveal(Seq::filter);
    if s.len() > 0 {
        assert forall|k: int| 0 <= k < s.drop_last().len() implies p(
            #[trigger] s.drop_last()[k],
        ) by {
            assert(s[k] == s.drop_last()[k]);
        }
        all_chosen(s.drop_last(), p);
        assert(p(s[s.len() - 1]));
        assert(s.drop_last().push(s.last()) =~= s);
    } else {
        assert(s.filter(p) =~= s);
    }
}

proof fn none_chosen(s: Seq<int>, p: spec_fn(int) -> bool)
    requires
        forall|k: int| 0 <= k < s.len() ==> !p(#[trigger] s[k]),
    ensures
        s.filter(p).len() == 0,
    decreases s.len(),
{
    reveal(Seq::filter);
    if s.len() > 0 {
        assert forall|k: int| 0 <= k < s.drop_last().len() implies !p(
            #[trigger] s.drop_last()[k],
        ) by {
            assert(s[k] == s.drop_last()[k]);
        }
        none_chosen(s.drop_last(), p);
        assert(!p(s[s.len() - 1]));
    }
}

// ── latencies ────────────────────────────────────────────────────────

/// Of several latencies to a region the last one counts.
pub proof fn last_latency_counts(l: Seq<(String, u32)>, to: Seq<char>, n: int, k: int)
    requires
        0 <= n <= l.len(),
    ensures
        0 <= k < n && l[k].0@ == to && (forall|j: int| k < j < n ==> (#[trigger] l[j]).0@ != to)
            ==> latency_in(l, to, n) == Some(l[k].1),
        (forall|j: int| 0 <= j < n ==> (#[trigger] l[j]).0@ != to) ==> latency_in(l, to, n) is None,
    decreases n,
{
    if n > 0 {
        last_latency_counts(l, to, n - 1, k);
    }
}

/// Whether an entry is that of a region and gives a latency to another.
pub open spec fn gives_latency(
    e: (String, RegionConfig),
    from: Seq<char>,
    to: Seq<char>,
) -> bool {
    e.0@ == from && latency_in(e.1.latencies@, to, e.1.latencies@.len() as int) is Some
}

/// Of several entries of a region the last one that gives a latency counts.
pub proof fn last_region_entry_counts(
    rs: Seq<(String, RegionConfig)>,
    from: Seq<char>,
    to: Seq<char>,
    n: int,
    k: int,
)
    requires
        0 <= n <= rs.len(),
    ensures
        0 <= k < n && gives_latency(rs[k], from, to) && (forall|j: int|
            k < j < n ==> !gives_latency(#[trigger] rs[j], from, to)) ==> latency_from(
            rs,
            from,
            to,
            n,
        ) == latency_in(rs[k].1.latencies@, to, rs[k].1.latencies@.len() as int),
        (forall|j: int| 0 <= j < n ==> !gives_latency(#[trigger] rs[j], from, to))
            ==> latency_from(rs, from, to, n) is None,
    decreases n,
{
    if n > 0 {
        last_region_entry_counts(rs, from, to, n - 1, k);
        assert(gives_latency(rs[n - 1], from, to) || !gives_latency(rs[n - 1], from, to));
    }
}

/// The latency between two regions is the one from the first to the second where there
/// is one, and else the one the other way.
pub proof fn latencies_go_both_ways(cfg: LabConfig, a: Seq<char>, b: Seq<char>)
    ensures
        ({
            let rs = match cfg.region {
                Some(v) => v@,
                None => Seq::empty(),
            };
            let n = rs.len() as int;
            &&& latency_from(rs, a, b, n) is Some ==> latency_between(cfg, a, b) == latency_from(
                rs,
                a,
                b,
                n,
            )
            &&& latency_from(rs, a, b, n) is None ==> latency_between(cfg, a, b) == latency_from(
                rs,
                b,
                a,
                n,
            )
        }),
{
}

// ── devices ──────────────────────────────────────────────────────────

/// What an interface entry needs: a gateway, one that is a router, and an impairment
/// that can be read, or none. It then stands for an interface of that name at that
/// router.
pub proof fn interface_entries_are_read(c: CoreView, e: IfaceEntry, at: usize)
    ensures
        ({
            let r = one_iface(c, e, at);
            let id = c.router_named((e.gateway->0)@);
            &&& e.gateway is None ==> r->Err_0 == DeviceProblem::MissingGateway(at) && r is Err
            &&& e.gateway is Some && id is None ==> r->Err_0 == DeviceProblem::UnknownRouter(at)
                && r is Err
            &&& e.gateway is Some && id is Some ==> {
                &&& e.impair is Malformed ==> r->Err_0 == DeviceProblem::InvalidImpair(at) && r
                    is Err
                &&& e.impair is Absent ==> r == Ok::<
                    (Seq<char>, NodeId, Option<LinkCondition>),
                    DeviceProblem,
                >((e.name@, id->0, None))
                &&& e.impair matches ImpairEntry::Given(l) ==> match read_condition(l) {
                    Ok(x) => r == Ok::<
                        (Seq<char>, NodeId, Option<LinkCondition>),
                        DeviceProblem,
                    >((e.name@, id->0, Some(x))),
                    Err(_) => r is Err && r->Err_0 == DeviceProblem::InvalidImpair(at),
                }
            }
        }),
{
}

/// The interfaces of a device are those of its entries, in the order given, each read on
/// its own; they are there where every entry can be read.
pub proof fn interfaces_follow_their_entries(
    c: CoreView,
    es: Seq<IfaceEntry>,
    order: Seq<int>,
    n: int,
    k: int,
)
    requires
        0 <= n <= order.len(),
    ensures
        ({
            let r = resolved_ifaces(c, es, order, n);
            &&& r is Ok ==> r->Ok_0.len() == n
            &&& r is Ok && 0 <= k < n ==> Ok::<
                (Seq<char>, NodeId, Option<LinkCondition>),
                DeviceProblem,
            >(r->Ok_0[k]) == one_iface(c, es[order[k]], order[k] as usize)
            &&& (forall|j: int|
                0 <= j < n ==> one_iface(c, es[#[trigger] order[j]], order[j] as usize) is Ok)
                ==> r is Ok
            &&& 0 <= k < n && one_iface(c, es[order[k]], order[k] as usize) is Err && (forall|j: int|
                0 <= j < k ==> one_iface(c, es[#[trigger] order[j]], order[j] as usize) is Ok)
                ==> r is Err && r->Err_0 == one_iface(c, es[order[k]], order[k] as usize)->Err_0
        }),
    decreases n,
{
    if n > 0 {
        interfaces_follow_their_entries(c, es, order, n - 1, k);
        if forall|j: int|
            0 <= j < n ==> one_iface(c, es[#[trigger] order[j]], order[j] as usize) is Ok {
            assert(one_iface(c, es[order[n - 1]], order[n - 1] as usize) is Ok);
        }
    }
}

/// What a device entry stands for: with a count that many devices, numbered from 0 on
/// behind the name and a hyphen, without one the device of that name; all with the
/// interfaces and the default route of the entry. The count is an integer of at least 1,
/// and there is an interface.
pub proof fn device_entries_stand_for_devices(c: CoreView, e: DeviceEntry, k: int)
    ensures
        ({
            let r = expanded(c, e);
            let names = Seq::new(e.ifaces@.len(), |i: int| e.ifaces@[i].name@);
            let order = by_name(names, names.len() as int);
            let ifaces = resolved_ifaces(c, e.ifaces@, order, order.len() as int);
            let sound = e.is_table && !(e.count is NotInteger) && !(e.count is Given
                && e.count->Given_0 < 1) && e.ifaces@.len() > 0;
            &&& !e.is_table ==> r is Err && r->Err_0 == DeviceProblem::NotATable
            &&& e.is_table && e.count is NotInteger ==> r is Err && r->Err_0
                == DeviceProblem::CountNotInteger
            &&& e.is_table && e.count is Given && e.count->Given_0 < 1 ==> r is Err && r->Err_0
                == DeviceProblem::CountTooSmall
            &&& e.is_table && !(e.count is NotInteger) && !(e.count is Given && e.count->Given_0
                < 1) && e.ifaces@.len() == 0 ==> r is Err && r->Err_0
                == DeviceProblem::NoInterfaces
            &&& sound && ifaces is Err ==> r is Err && r->Err_0 == ifaces->Err_0
            &&& sound && ifaces is Ok ==> {
                &&& r is Ok
                &&& e.count is Absent ==> r->Ok_0.len() == 1 && r->Ok_0[0].name == e.name@
                &&& e.count is Given ==> r->Ok_0.len() == e.count->Given_0
                &&& e.count is Given && 0 <= k < e.count->Given_0 ==> r->Ok_0[k].name == e.name@
                    + "-"@ + dec(k as nat)
                &&& 0 <= k < r->Ok_0.len() ==> r->Ok_0[k].ifaces == ifaces->Ok_0
                    && r->Ok_0[k].default_via == opt_view(e.default_via)
            }
        }),
{
    let names = Seq::new(e.ifaces@.len(), |i: int| e.ifaces@[i].name@);
    assert(names =~= crate::config::entry_names(e.ifaces@));
}

/// The devices of a configuration are those of its entries, one entry after the other;
/// the first entry with a problem counts.
pub proof fn devices_follow_their_entries(
    c: CoreView,
    es: Seq<DeviceEntry>,
    order: Seq<int>,
    n: int,
)
    requires
        0 <= n < order.len(),
    ensures
        expanded_all(c, es, order, 0) == Ok::<Seq<ParsedView>, (int, DeviceProblem)>(Seq::empty()),
        ({
            let before = expanded_all(c, es, order, n);
            let next = expanded(c, es[order[n]]);
            let r = expanded_all(c, es, order, n + 1);
            &&& before is Err ==> r == before
            &&& before is Ok && next is Err ==> r == Err::<
                Seq<ParsedView>,
                (int, DeviceProblem),
            >((order[n], next->Err_0))
            &&& before is Ok && next is Ok ==> r == Ok::<Seq<ParsedView>, (int, DeviceProblem)>(
                before->Ok_0 + next->Ok_0,
            )
        }),
{
}

// ── regions ──────────────────────────────────────────────────────────

/// A region is planned where a router is said to stand in it, where it has an entry of its
/// own, or where an entry gives the latency to it; each once.
pub proof fn planned_regions_are_the_named_ones(cfg: LabConfig, plan: RegionConfigPlan, name: Seq<char>)
    requires
        plan.has_regions_of(cfg),
    ensures
        views(plan.regions@).contains(name) <==> {
            ||| exists|i: int|
                0 <= i < cfg.router@.len() && opt_view((#[trigger] cfg.router@[i]).region) == Some(
                    name,
                )
            ||| cfg.region is Some && exists|i: int|
                0 <= i < cfg.region->0@.len() && (#[trigger] cfg.region->0@[i]).0@ == name
            ||| cfg.region is Some && exists|i: int, j: int|
                0 <= i < cfg.region->0@.len() && 0 <= j < cfg.region->0@[i].1.latencies@.len()
                    && (#[trigger] cfg.region->0@[i].1.latencies@[j]).0@ == name
        },
        views(plan.regions@).no_duplicates(),
{
    let names = views(plan.regions@);
    assert(names.contains(name) <==> names_region(cfg, name));
    let es = region_entries(cfg);
    if has_entry(es, name, es.len() as int) {
        let i = choose|i: int| 0 <= i < es.len() && entry_names_region(#[trigger] es[i], name);
        assert(cfg.region->0@[i] == es[i]);
        if es[i].0@ != name {
            let l = es[i].1.latencies@;
            let j = choose|j: int| 0 <= j < l.len() && (#[trigger] l[j]).0@ == name;
            assert(cfg.region->0@[i].1.latencies@[j].0@ == name);
        }
    }
    if cfg.region is Some {
        let rs = cfg.region->0@;
        if exists|i: int| 0 <= i < rs.len() && (#[trigger] rs[i]).0@ == name {
            let i = choose|i: int| 0 <= i < rs.len() && (#[trigger] rs[i]).0@ == name;
            assert(entry_names_region(es[i], name));
        }
        if exists|i: int, j: int|
            0 <= i < rs.len() && 0 <= j < rs[i].1.latencies@.len() && (
            #[trigger] rs[i].1.latencies@[j]).0@ == name {
            let (i, j) = choose|i: int, j: int|
                0 <= i < rs.len() && 0 <= j < rs[i].1.latencies@.len() && (
                #[trigger] rs[i].1.latencies@[j]).0@ == name;
            assert(is_target(rs[i].1.latencies@, name, rs[i].1.latencies@.len() as int));
            assert(entry_names_region(es[i], name));
        }
    }
    assert forall|a: int, b: int| 0 <= a < names.len() && 0 <= b < names.len() && a != b implies
        names[a] != names[b] by {
        if a < b {
            text_lt_is_total(names[a], names[b]);
        } else {
            text_lt_is_total(names[b], names[a]);
        }
    }
}

/// A planned link delays by the latency that the configuration gives, and does nothing
/// else; without a latency it leaves what it carries alone.
pub proof fn planned_links_only_delay(cfg: LabConfig, plan: RegionConfigPlan, k: int)
    requires
        plan.has_links_of(cfg),
        0 <= k < plan.links@.len(),
    ensures
        ({
            let (a, b, l) = plan.links@[k];
            &&& latency_between(cfg, a@, b@) == Some(l.latency_ms)
            &&& l.jitter_ms == 0 && l.loss_pct.bits == 0 && l.rate_mbit == 0
            &&& l.impaired() <==> l.latency_ms > 0
            &&& a@ != b@
        }),
{
    let (a, b, l) = plan.links@[k];
    assert(is_good_link(cfg, plan.links@[k]));
    text_lt_is_total(a@, b@);
}

/// A link impairs what it carries where it delays, varies, loses or slows down: loss
/// counts where it is above nothing and a number.
pub proof fn impaired_links(l: RegionLink)
    ensures
        l.latency_ms > 0 ==> l.impaired(),
        l.jitter_ms > 0 ==> l.impaired(),
        l.rate_mbit > 0 ==> l.impaired(),
        0 < l.loss_pct.bits <= 0x7ff0_0000_0000_0000 ==> l.impaired(),
        l.latency_ms == 0 && l.jitter_ms == 0 && l.rate_mbit == 0 && l.loss_pct.bits == 0
            ==> !l.impaired(),
{
}

} // verus!
