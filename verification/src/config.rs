//! Lab configurations: the order in which routers are built, and the regions and
//! devices that a configuration stands for.
use vstd::prelude::*;

use crate::iface::IfaceConfig;
use crate::lab::RegionLink;
use crate::nat_config::{IpSupport, Nat, NatV6Mode};
use crate::profile::LinkDirection;
use crate::qdisc::{read_condition, ConditionEntry, LinkCondition};
use crate::text::{
    dec, join, join_strings, push_dec, str_eq, str_lt, text_lt, text_lt_is_total, views,
};
use crate::topology::types::{opt_view, CoreView, NetworkCore, NodeId};

verus! {

/// Per-region latencies.
#[derive(Debug)]
pub struct RegionConfig {
    /// Target region and one-way latency in ms.
    pub latencies: Vec<(String, u32)>,
}

/// Router configuration entry.
#[derive(Debug)]
pub struct RouterConfig {
    /// Router name.
    pub name: String,
    /// Name of the region that the router is in.
    pub region: Option<String>,
    /// Name of the upstream router. If absent the router attaches to the
    /// exchange.
    pub upstream: Option<String>,
    /// NAT mode.
    pub nat: Nat,
    /// IP address family support.
    pub ip_support: IpSupport,
    /// IPv6 NAT mode.
    pub nat_v6: NatV6Mode,
    /// Whether the router advertises itself, where that is set.
    pub ra_enabled: Option<bool>,
    /// Seconds between advertisements, where that is set.
    pub ra_interval_secs: Option<u64>,
    /// Seconds that an advertisement is good for, where that is set.
    pub ra_lifetime_secs: Option<u64>,
}

/// A lab configuration.
#[derive(Debug)]
pub struct LabConfig {
    /// Region latencies.
    pub region: Option<Vec<(String, RegionConfig)>>,
    /// Router entries.
    pub router: Vec<RouterConfig>,
    /// Device entries.
    pub device: Vec<DeviceEntry>,
}

impl RouterConfig {
    /// The upstream router, where one with that name has been built.
    pub fn upstream_id(&self, core: &NetworkCore) -> (r: Option<NodeId>)
        requires
            core.wf(),
        ensures
            r == match self.upstream {
                Some(up) => core@.router_named(up@),
                None => None,
            },
    {
        match &self.upstream {
            Some(up) => core.router_id_by_name(up.as_str()),
            None => None,
        }
    }
}

/// The configuration of an interface with an impairment in both directions.
pub fn iface_config(router: NodeId, impair: Option<LinkCondition>) -> (r: IfaceConfig)
    ensures
        r == (IfaceConfig {
            gateway: Some(router),
            addr: None,
            addr_v6: None,
            egress: impair,
            ingress: impair,
            start_down: false,
        }),
{
    let config = IfaceConfig::routed(router);
    match impair {
        Some(condition) => config.condition(condition, LinkDirection::Both),
        None => config,
    }
}

// ── sorting by name ──────────────────────────────────────────────────

/// The first place from `k` on whose name does not come before `name`.
pub open spec fn place_for(names: Seq<Seq<char>>, sorted: Seq<int>, name: Seq<char>, k: int) -> int
    decreases sorted.len() - k,
{
    if k < 0 || k >= sorted.len() || !text_lt(names[sorted[k]], name) {
        k
    } else {
        place_for(names, sorted, name, k + 1)
    }
}

/// The sorted entries with entry `i` put in its place. An entry of the same
/// name is replaced.
pub open spec fn put_entry(names: Seq<Seq<char>>, sorted: Seq<int>, i: int) -> Seq<int> {
    let p = place_for(names, sorted, names[i], 0);
    if p < sorted.len() && names[sorted[p]] == names[i] {
        sorted.update(p, i)
    } else {
        sorted.insert(p, i)
    }
}

/// The first `n` entries by name; of entries with one name the last counts.
pub open spec fn by_name(names: Seq<Seq<char>>, n: int) -> Seq<int>
    decreases n,
{
    if n <= 0 {
        Seq::empty()
    } else {
        put_entry(names, by_name(names, n - 1), n - 1)
    }
}

/// Whether a name is among those of the entries.
pub open spec fn names_entry(names: Seq<Seq<char>>, s: Seq<int>, name: Seq<char>) -> bool {
    exists|k: int| 0 <= k < s.len() && names[#[trigger] s[k]] == name
}

/// Whether the entries are in strictly increasing order of their names.
pub open spec fn increasing(names: Seq<Seq<char>>, s: Seq<int>) -> bool {
    forall|a: int, b: int|
        0 <= a < b < s.len() ==> text_lt(names[#[trigger] s[a]], names[#[trigger] s[b]])
}

/// The order of texts is transitive.
pub proof fn text_lt_is_transitive(a: Seq<char>, b: Seq<char>, c: Seq<char>)
    requires
        text_lt(a, b),
        text_lt(b, c),
    ensures
        text_lt(a, c),
    decreases a.len(),
{
    if a.len() > 0 {
        if a[0] == b[0] && b[0] == c[0] {
            text_lt_is_transitive(a.drop_first(), b.drop_first(), c.drop_first());
        }
    }
}

/// What `place_for` gives: all before it come before the name, and the one at
/// it does not.
proof fn place_for_is_exact(names: Seq<Seq<char>>, s: Seq<int>, name: Seq<char>, k: int)
    requires
        0 <= k <= s.len(),
    ensures
        k <= place_for(names, s, name, k) <= s.len(),
        forall|j: int|
            k <= j < place_for(names, s, name, k) ==> text_lt(names[#[trigger] s[j]], name),
        place_for(names, s, name, k) < s.len() ==> !text_lt(
            names[s[place_for(names, s, name, k)]],
            name,
        ),
    decreases s.len() - k,
{
    if k < s.len() && text_lt(names[s[k]], name) {
        place_for_is_exact(names, s, name, k + 1);
    }
}

/// Putting an entry in its place keeps the entries in strictly increasing
/// order, and the names among them, with the one of the new entry.
proof fn put_entry_keeps_order(names: Seq<Seq<char>>, s: Seq<int>, i: int)
    requires
        increasing(names, s),
    ensures
        increasing(names, put_entry(names, s, i)),
        names_entry(names, put_entry(names, s, i), names[i]),
        forall|name: Seq<char>|
            names_entry(names, s, name) ==> #[trigger] names_entry(
                names,
                put_entry(names, s, i),
                name,
            ),
{
    let name = names[i];
    let p = place_for(names, s, name, 0);
    place_for_is_exact(names, s, name, 0);
    let t = put_entry(names, s, i);
    assert(names[t[p]] == name);
    if p < s.len() && names[s[p]] == name {
        assert(t == s.update(p, i));
        assert forall|a: int| 0 <= a < t.len() implies names[#[trigger] t[a]] == names[s[a]] by {}
        assert forall|x: Seq<char>| names_entry(names, s, x) implies #[trigger] names_entry(
            names,
            t,
            x,
        ) by {
            let k = choose|k: int| 0 <= k < s.len() && names[#[trigger] s[k]] == x;
            assert(names[t[k]] == x);
        }
    } else {
        assert(t == s.insert(p, i));
        if p < s.len() {
            text_lt_is_total(names[s[p]], name);
        }
        assert forall|a: int, b: int| 0 <= a < b < t.len() implies text_lt(
            names[#[trigger] t[a]],
            names[#[trigger] t[b]],
        ) by {
            if b < p {
                assert(t[a] == s[a] && t[b] == s[b]);
            } else if b == p {
                assert(t[a] == s[a]);
            } else if a == p {
                assert(t[b] == s[b - 1]);
                if p < b - 1 {
                    text_lt_is_transitive(name, names[s[p]], names[s[b - 1]]);
                }
            } else if a < p {
                assert(t[a] == s[a] && t[b] == s[b - 1]);
            } else {
                assert(t[a] == s[a - 1] && t[b] == s[b - 1]);
            }
        }
        assert forall|x: Seq<char>| names_entry(names, s, x) implies #[trigger] names_entry(
            names,
            t,
            x,
        ) by {
            let k = choose|k: int| 0 <= k < s.len() && names[#[trigger] s[k]] == x;
            let k2 = if k < p {
                k
            } else {
                k + 1
            };
            assert(t[k2] == s[k]);
        }
    }
}

/// Entries sorted by name are in strictly increasing order, and every name is
/// among them.
pub proof fn by_name_is_sorted(names: Seq<Seq<char>>, n: int)
    ensures
        increasing(names, by_name(names, n)),
        forall|j: int| 0 <= j < n ==> names_entry(names, by_name(names, n), #[trigger] names[j]),
    decreases n,
{
    if n > 0 {
        by_name_is_sorted(names, n - 1);
        put_entry_keeps_order(names, by_name(names, n - 1), n - 1);
    }
}

/// The entries as mathematical integers.
pub open spec fn ints(v: Seq<usize>) -> Seq<int> {
    Seq::new(v.len(), |i: int| v[i] as int)
}

/// The entries by name; of entries with one name the last counts.
pub fn sort_by_name(names: &Vec<String>) -> (r: Vec<usize>)
    ensures
        ints(r@) == by_name(views(names@), names@.len() as int),
        forall|k: int| 0 <= k < r@.len() ==> (#[trigger] r@[k]) < names@.len(),
{
    let ghost all = views(names@);
    let mut out: Vec<usize> = Vec::new();
    let mut i: usize = 0;
    assert(ints(out@) =~= by_name(all, 0));
    while i < names.len()
        invariant
            i <= names.len(),
            all == views(names@),
            ints(out@) == by_name(all, i as int),
            forall|k: int| 0 <= k < out@.len() ==> (#[trigger] out@[k]) < i,
        decreases names.len() - i,
    {
        let ghost before = ints(out@);
        let mut p: usize = 0;
        while p < out.len() && str_lt(names[out[p]].as_str(), names[i].as_str())
            invariant
                i < names.len(),
                all == views(names@),
                p <= out.len(),
                before == ints(out@),
                forall|k: int| 0 <= k < out@.len() ==> (#[trigger] out@[k]) < i,
                place_for(all, before, all[i as int], 0) == place_for(
                    all,
                    before,
                    all[i as int],
                    p as int,
                ),
            decreases out.len() - p,
        {
            assert(before[p as int] == out@[p as int]);
            p += 1;
        }
        assert(p < out.len() ==> before[p as int] == out@[p as int]);
        assert(place_for(all, before, all[i as int], 0) == p);
        if p < out.len() && names[out[p]] == names[i] {
            out.set(p, i);
            assert(ints(out@) =~= before.update(p as int, i as int));
        } else {
            out.insert(p, i);
            assert(ints(out@) =~= before.insert(p as int, i as int));
        }
        i += 1;
    }
    out
}

// ── routers ──────────────────────────────────────────────────────────

/// Whether a router can be built: its upstream is not among those pending.
pub open spec fn ready(
    names: Seq<Seq<char>>,
    ups: Seq<Option<Seq<char>>>,
    pending: Seq<int>,
    i: int,
) -> bool {
    ups[i] is None || !names_entry(names, pending, ups[i]->0)
}

/// The routers that can be built now, in order.
pub open spec fn ready_now(
    names: Seq<Seq<char>>,
    ups: Seq<Option<Seq<char>>>,
    pending: Seq<int>,
) -> Seq<int> {
    pending.filter(|i: int| ready(names, ups, pending, i))
}

/// The routers that have to wait, in order.
pub open spec fn waiting(
    names: Seq<Seq<char>>,
    ups: Seq<Option<Seq<char>>>,
    pending: Seq<int>,
) -> Seq<int> {
    pending.filter(|i: int| !ready(names, ups, pending, i))
}

/// Building the routers in rounds: each round builds those whose upstream is
/// built. Gives the order, and the routers that are left when a round builds
/// none. There are at most `fuel` rounds.
pub open spec fn rounds(
    names: Seq<Seq<char>>,
    ups: Seq<Option<Seq<char>>>,
    pending: Seq<int>,
    fuel: nat,
) -> (Seq<int>, Seq<int>)
    decreases fuel,
{
    let now = ready_now(names, ups, pending);
    if fuel == 0 || now.len() == 0 {
        (Seq::empty(), pending)
    } else {
        let (rest, stuck) = rounds(
            names,
            ups,
            waiting(names, ups, pending),
            (fuel - 1) as nat,
        );
        (now + rest, stuck)
    }
}

/// The names of the routers.
pub open spec fn router_names(v: Seq<RouterConfig>) -> Seq<Seq<char>> {
    Seq::new(v.len(), |i: int| v[i].name@)
}

/// The upstreams of the routers.
pub open spec fn router_ups(v: Seq<RouterConfig>) -> Seq<Option<Seq<char>>> {
    Seq::new(v.len(), |i: int| opt_view(v[i].upstream))
}

/// The order in which routers are built, and the names of those that cannot
/// be.
#[derive(Debug)]
pub struct RouterOrder {
    /// Entries in the order they are built.
    pub order: Vec<usize>,
    /// Names of the routers that wait for one another, in order.
    pub stuck: Vec<String>,
}

fn is_ready(routers: &Vec<RouterConfig>, pending: &Vec<usize>, i: usize) -> (r: bool)
    requires
        i < routers@.len(),
        forall|k: int| 0 <= k < pending@.len() ==> (#[trigger] pending@[k]) < routers@.len(),
    ensures
        r == ready(
            router_names(routers@),
            router_ups(routers@),
            ints(pending@),
            i as int,
        ),
{
    let ghost names = router_names(routers@);
    let ghost p = ints(pending@);
    let up = match &routers[i].upstream {
        None => {
            return true;
        },
        Some(u) => u,
    };
    let mut k: usize = 0;
    while k < pending.len()
        invariant
            forall|k: int| 0 <= k < pending@.len() ==> (#[trigger] pending@[k]) < routers@.len(),
            names == router_names(routers@),
            p == ints(pending@),
            i < routers@.len(),
            routers@[i as int].upstream == Some(*up),
            k <= pending.len(),
            forall|j: int| 0 <= j < k ==> names[#[trigger] p[j]] != up@,
        decreases pending.len() - k,
    {
        if routers[pending[k]].name == *up {
            assert(names[p[k as int]] == up@);
            return false;
        }
        assert(names[p[k as int]] != up@);
        k += 1;
    }
    true
}

/// Decides the order in which routers are built: a router comes after its
/// upstream, and routers of one round in the order of their names.
pub fn router_order(routers: &Vec<RouterConfig>) -> (r: RouterOrder)
    ensures
        ({
            let names = router_names(routers@);
            let first = by_name(names, names.len() as int);
            let (order, stuck) = rounds(names, router_ups(routers@), first, first.len());
            &&& ints(r.order@) == order
            &&& views(r.stuck@) == stuck.map_values(|i: int| names[i])
            &&& forall|k: int| 0 <= k < r.order@.len() ==> (#[trigger] r.order@[k])
                < routers@.len()
        }),
{
    let ghost names = router_names(routers@);
    let ghost ups = router_ups(routers@);
    let mut texts: Vec<String> = Vec::new();
    let mut i: usize = 0;
    while i < routers.len()
        invariant
            i <= routers.len(),
            texts.len() == i,
            forall|j: int| 0 <= j < i ==> (#[trigger] texts@[j])@ == routers@[j].name@,
        decreases routers.len() - i,
    {
        texts.push(routers[i].name.clone());
        i += 1;
    }
    assert(views(texts@) =~= names);
    let mut pending = sort_by_name(&texts);
    let ghost first = ints(pending@);
    let mut order: Vec<usize> = Vec::new();
    let ghost mut fuel: nat = first.len();
    assert(ints(order@) =~= Seq::<int>::empty());
    assert(Seq::<int>::empty() + rounds(names, ups, first, fuel).0 =~= rounds(
        names,
        ups,
        first,
        fuel,
    ).0);
    loop
        invariant
            names == router_names(routers@),
            ups == router_ups(routers@),
            fuel >= pending@.len(),
            forall|k: int| 0 <= k < pending@.len() ==> (#[trigger] pending@[k]) < routers@.len(),
            forall|k: int| 0 <= k < order@.len() ==> (#[trigger] order@[k]) < routers@.len(),
            ints(order@) + rounds(names, ups, ints(pending@), fuel).0 == rounds(
                names,
                ups,
                first,
                first.len(),
            ).0,
            rounds(names, ups, ints(pending@), fuel).1 == rounds(
                names,
                ups,
                first,
                first.len(),
            ).1,
            first == by_name(names, names.len() as int),
        decreases pending@.len(),
    {
        let ghost p = ints(pending@);
        let mut now: Vec<usize> = Vec::new();
        let mut later: Vec<usize> = Vec::new();
        let mut k: usize = 0;
        proof {
            reveal(Seq::filter);
            assert(ints(now@) =~= p.take(0).filter(|i: int| ready(names, ups, p, i)));
            assert(ints(later@) =~= p.take(0).filter(|i: int| !ready(names, ups, p, i)));
        }
        while k < pending.len()
            invariant
                names == router_names(routers@),
                ups == router_ups(routers@),
                k <= pending.len(),
                p == ints(pending@),
                forall|k: int|
                    0 <= k < pending@.len() ==> (#[trigger] pending@[k]) < routers@.len(),
                forall|k: int| 0 <= k < now@.len() ==> (#[trigger] now@[k]) < routers@.len(),
                forall|k: int| 0 <= k < later@.len() ==> (#[trigger] later@[k]) < routers@.len(),
                ints(now@) == p.take(k as int).filter(|i: int| ready(names, ups, p, i)),
                ints(later@) == p.take(k as int).filter(|i: int| !ready(names, ups, p, i)),
                now@.len() + later@.len() == k,
            decreases pending.len() - k,
        {
            let i = pending[k];
            let ghost a = ints(now@);
            let ghost b = ints(later@);
            proof {
                reveal(Seq::filter);
                assert(p.take(k as int + 1).drop_last() =~= p.take(k as int));
                assert(p.take(k as int + 1).last() == i);
            }
            if is_ready(routers, &pending, i) {
                now.push(i);
                assert(ints(now@) =~= a.push(i as int));
            } else {
                later.push(i);
                assert(ints(later@) =~= b.push(i as int));
            }
            k += 1;
        }
        assert(p.take(pending.len() as int) =~= p);
        assert(ints(now@) == ready_now(names, ups, p));
        assert(ints(later@) == waiting(names, ups, p));
        assert(ints(now@).len() == now@.len() && ints(later@).len() == later@.len());
        if now.len() == 0 {
            assert(ints(order@) + Seq::<int>::empty() =~= ints(order@));
            let mut stuck: Vec<String> = Vec::new();
            let mut m: usize = 0;
            while m < pending.len()
                invariant
                    names == router_names(routers@),
                    m <= pending.len(),
                    p == ints(pending@),
                    stuck.len() == m,
                    forall|k: int|
                        0 <= k < pending@.len() ==> (#[trigger] pending@[k]) < routers@.len(),
                    forall|j: int| 0 <= j < m ==> (#[trigger] stuck@[j])@ == names[p[j]],
                decreases pending.len() - m,
            {
                stuck.push(routers[pending[m]].name.clone());
                m += 1;
            }
            assert(views(stuck@) =~= p.map_values(|i: int| names[i]));
            return RouterOrder { order, stuck };
        }
        let ghost done = ints(order@);
        let ghost add = ints(now@);
        let ghost rest = rounds(names, ups, ints(later@), (fuel - 1) as nat).0;
        order.append(&mut now);
        assert(ints(order@) =~= done + add);
        assert(done + add + rest =~= done + (add + rest));
        proof {
            fuel = (fuel - 1) as nat;
        }
        pending = later;
    }
}

/// A router comes after its upstream, where the configuration has that: the
/// upstream of a router in the order is either none of those to be built or
/// stands before it.
pub proof fn upstream_comes_first(
    names: Seq<Seq<char>>,
    ups: Seq<Option<Seq<char>>>,
    pending: Seq<int>,
    fuel: nat,
    a: int,
)
    requires
        0 <= a < rounds(names, ups, pending, fuel).0.len(),
        ups[rounds(names, ups, pending, fuel).0[a]] is Some,
    ensures
        ({
            let order = rounds(names, ups, pending, fuel).0;
            let up = ups[order[a]]->0;
            !names_entry(names, pending, up) || exists|b: int|
                0 <= b < a && names[#[trigger] order[b]] == up
        }),
    decreases fuel,
{
    let now = ready_now(names, ups, pending);
    let order = rounds(names, ups, pending, fuel).0;
    let up = ups[order[a]]->0;
    let f = |i: int| ready(names, ups, pending, i);
    let g = |i: int| !ready(names, ups, pending, i);
    broadcast use vstd::seq_lib::group_filter_ensures;

    if a < now.len() {
        assert(order[a] == now[a]);
        assert(f(now[a]));
    } else {
        let later = waiting(names, ups, pending);
        let rest = rounds(names, ups, later, (fuel - 1) as nat).0;
        let a2 = a - now.len();
        assert(order[a] == rest[a2]);
        upstream_comes_first(names, ups, later, (fuel - 1) as nat, a2);
        if exists|b: int| 0 <= b < a2 && names[#[trigger] rest[b]] == up {
            let b = choose|b: int| 0 <= b < a2 && names[#[trigger] rest[b]] == up;
            assert(order[b + now.len()] == rest[b]);
        } else if names_entry(names, pending, up) {
            let k = choose|k: int| 0 <= k < pending.len() && names[#[trigger] pending[k]] == up;
            if f(pending[k]) {
                assert(now.contains(pending[k]));
                let b = choose|b: int| 0 <= b < now.len() && now[b] == pending[k];
                assert(order[b] == now[b]);
            } else {
                assert(later.contains(pending[k]));
                let b = choose|b: int| 0 <= b < later.len() && later[b] == pending[k];
                assert(names[later[b]] == up);
                assert(names_entry(names, later, up));
            }
        }
    }
}

/// Fewer routers wait than were pending where one could be built.
proof fn waiting_is_shorter(names: Seq<Seq<char>>, ups: Seq<Option<Seq<char>>>, pending: Seq<int>)
    ensures
        ready_now(names, ups, pending).len() + waiting(names, ups, pending).len()
            == pending.len(),
{
    partition_lens(pending, |i: int| ready(names, ups, pending, i));
    assert(waiting(names, ups, pending) =~= pending.filter(
        |i: int| !(|i: int| ready(names, ups, pending, i))(i),
    )) by {
        same_filter(
            pending,
            |i: int| !ready(names, ups, pending, i),
            |i: int| !(|i: int| ready(names, ups, pending, i))(i),
        );
    }
}

proof fn same_filter(s: Seq<int>, f: spec_fn(int) -> bool, g: spec_fn(int) -> bool)
    requires
        forall|i: int| #[trigger] f(i) == g(i),
    ensures
        s.filter(f) == s.filter(g),
    decreases s.len(),
{
    reveal(Seq::filter);
    if s.len() > 0 {
        same_filter(s.drop_last(), f, g);
        assert(f(s.last()) == g(s.last()));
    }
}

proof fn partition_lens(s: Seq<int>, f: spec_fn(int) -> bool)
    ensures
        s.filter(f).len() + s.filter(|i: int| !f(i)).len() == s.len(),
    decreases s.len(),
{
    reveal(Seq::filter);
    if s.len() > 0 {
        partition_lens(s.drop_last(), f);
    }
}

/// Routers that are not built wait for one another: the upstream of each is
/// among them.
pub proof fn stuck_routers_wait_for_each_other(
    names: Seq<Seq<char>>,
    ups: Seq<Option<Seq<char>>>,
    pending: Seq<int>,
    fuel: nat,
    k: int,
)
    requires
        fuel >= pending.len(),
        0 <= k < rounds(names, ups, pending, fuel).1.len(),
    ensures
        ({
            let stuck = rounds(names, ups, pending, fuel).1;
            ups[stuck[k]] is Some && names_entry(names, stuck, ups[stuck[k]]->0)
        }),
    decreases fuel,
{
    let now = ready_now(names, ups, pending);
    let f = |i: int| ready(names, ups, pending, i);
    if fuel == 0 || now.len() == 0 {
        broadcast use vstd::seq_lib::group_filter_ensures;

        if f(pending[k]) {
            assert(now.contains(pending[k]));
        }
    } else {
        waiting_is_shorter(names, ups, pending);
        stuck_routers_wait_for_each_other(
            names,
            ups,
            waiting(names, ups, pending),
            (fuel - 1) as nat,
            k,
        );
    }
}

/// The message that names routers that wait for one another.
pub fn stuck_message(stuck: &Vec<String>) -> (r: String)
    ensures
        r@ == "unresolvable router upstreams (cycle?): "@ + join(views(stuck@), ", "@),
{
    let mut s = "unresolvable router upstreams (cycle?): ".to_owned();
    s.append(join_strings(stuck, ", ").as_str());
    s
}

// ── regions ──────────────────────────────────────────────────────────

/// The regions that a configuration asks for.
#[derive(Debug)]
pub struct RegionConfigPlan {
    /// Names of the regions to add, in order.
    pub regions: Vec<String>,
    /// The routers in the order they are built, each with its region.
    pub routers: Vec<(usize, Option<String>)>,
    /// The links between regions in order, the smaller name of each first.
    pub links: Vec<(String, String, RegionLink)>,
}

/// The latencies that a configuration gives, by region.
pub open spec fn region_entries(cfg: LabConfig) -> Seq<(String, RegionConfig)> {
    match cfg.region {
        Some(v) => v@,
        None => Seq::empty(),
    }
}

/// The last of the first `n` latencies to a region.
pub open spec fn latency_in(l: Seq<(String, u32)>, to: Seq<char>, n: int) -> Option<u32>
    decreases n,
{
    if n <= 0 {
        None
    } else if l[n - 1].0@ == to {
        Some(l[n - 1].1)
    } else {
        latency_in(l, to, n - 1)
    }
}

/// The last latency from one region to another among the first `n` entries.
pub open spec fn latency_from(
    rs: Seq<(String, RegionConfig)>,
    from: Seq<char>,
    to: Seq<char>,
    n: int,
) -> Option<u32>
    decreases n,
{
    if n <= 0 {
        None
    } else {
        let l = rs[n - 1].1.latencies@;
        let here = latency_in(l, to, l.len() as int);
        if rs[n - 1].0@ == from && here is Some {
            here
        } else {
            latency_from(rs, from, to, n - 1)
        }
    }
}

/// The latency between two regions: the one from the first to the second, else
/// the one the other way.
pub open spec fn latency_between(cfg: LabConfig, a: Seq<char>, b: Seq<char>) -> Option<u32> {
    let rs = region_entries(cfg);
    match latency_from(rs, a, b, rs.len() as int) {
        Some(ms) => Some(ms),
        None => latency_from(rs, b, a, rs.len() as int),
    }
}

/// Whether one of the first `n` routers is in the region.
pub open spec fn houses_router(v: Seq<RouterConfig>, name: Seq<char>, n: int) -> bool {
    exists|i: int| 0 <= i < n && opt_view((#[trigger] v[i]).region) == Some(name)
}

/// Whether one of the first `n` latencies leads to the region.
pub open spec fn is_target(l: Seq<(String, u32)>, name: Seq<char>, n: int) -> bool {
    exists|j: int| 0 <= j < n && (#[trigger] l[j]).0@ == name
}

/// Whether an entry is that of the region or gives a latency to it.
pub open spec fn entry_names_region(e: (String, RegionConfig), name: Seq<char>) -> bool {
    e.0@ == name || is_target(e.1.latencies@, name, e.1.latencies@.len() as int)
}

/// Whether one of the first `n` entries is that of the region or gives a
/// latency to it.
pub open spec fn has_entry(rs: Seq<(String, RegionConfig)>, name: Seq<char>, n: int) -> bool {
    exists|i: int| 0 <= i < n && entry_names_region(#[trigger] rs[i], name)
}

/// Whether a configuration names the region, in a router or in a latency.
pub open spec fn names_region(cfg: LabConfig, name: Seq<char>) -> bool {
    houses_router(cfg.router@, name, cfg.router@.len() as int) || has_entry(
        region_entries(cfg),
        name,
        region_entries(cfg).len() as int,
    )
}

/// The order in which a configuration's routers are built.
pub open spec fn build_order(v: Seq<RouterConfig>) -> Seq<int> {
    let names = router_names(v);
    let first = by_name(names, names.len() as int);
    rounds(names, router_ups(v), first, first.len()).0
}

/// Whether a link joins two regions, the smaller name first, with nothing but
/// the latency between them.
pub open spec fn is_good_link(cfg: LabConfig, l: (String, String, RegionLink)) -> bool {
    text_lt(l.0@, l.1@) && match latency_between(cfg, l.0@, l.1@) {
        Some(ms) => l.2 == RegionLink::spec_good(ms),
        None => false,
    }
}

/// Whether a link comes before another by its first name, then by its second.
pub open spec fn link_before(
    l: (String, String, RegionLink),
    m: (String, String, RegionLink),
) -> bool {
    text_lt(l.0@, m.0@) || (l.0@ == m.0@ && text_lt(l.1@, m.1@))
}

impl RegionConfigPlan {
    /// The regions are those that the configuration names, each once, in order.
    pub open spec fn has_regions_of(self, cfg: LabConfig) -> bool {
        let names = views(self.regions@);
        &&& forall|a: int, b: int|
            0 <= a < b < names.len() ==> text_lt(#[trigger] names[a], #[trigger] names[b])
        &&& forall|name: Seq<char>| #[trigger] names.contains(name) <==> names_region(cfg, name)
    }

    /// The routers are those of the configuration in the order they are built,
    /// each with the region it is in.
    pub open spec fn has_routers_of(self, cfg: LabConfig) -> bool {
        let order = build_order(cfg.router@);
        &&& self.routers@.len() == order.len()
        &&& forall|k: int|
            0 <= k < order.len() ==> (#[trigger] self.routers@[k]).0 == order[k] && order[k]
                < cfg.router@.len() && opt_view(self.routers@[k].1) == opt_view(
                cfg.router@[order[k]].region,
            )
    }

    /// There is one link, in order, for each pair of regions with a latency.
    pub open spec fn has_links_of(self, cfg: LabConfig) -> bool {
        let links = self.links@;
        &&& forall|k: int| 0 <= k < links.len() ==> is_good_link(cfg, #[trigger] links[k])
        &&& forall|k: int, m: int|
            0 <= k < m < links.len() ==> link_before(#[trigger] links[k], #[trigger] links[m])
        &&& forall|a: Seq<char>, b: Seq<char>|
            text_lt(a, b) && (#[trigger] latency_between(cfg, a, b)) is Some ==> exists|k: int|
                0 <= k < links.len() && (#[trigger] links[k]).0@ == a && links[k].1@ == b
    }
}

proof fn pushed_contains(s: Seq<Seq<char>>, x: Seq<char>)
    ensures
        forall|name: Seq<char>| #[trigger]
            s.push(x).contains(name) <==> s.contains(name) || name == x,
{
    let t = s.push(x);
    assert forall|name: Seq<char>| #[trigger] t.contains(name) <==> s.contains(name) || name == x by {
        if s.contains(name) {
            let i = choose|i: int| 0 <= i < s.len() && s[i] == name;
            assert(t[i] == name);
        }
        assert(t[s.len() as int] == x);
        if t.contains(name) && name != x {
            let i = choose|i: int| 0 <= i < t.len() && t[i] == name;
            assert(s[i] == name);
        }
    }
}

fn latency_to(l: &Vec<(String, u32)>, to: &str) -> (r: Option<u32>)
    ensures
        r == latency_in(l@, to@, l@.len() as int),
{
    let mut n: usize = l.len();
    while n > 0
        invariant
            n <= l.len(),
            latency_in(l@, to@, n as int) == latency_in(l@, to@, l@.len() as int),
        decreases n,
    {
        if str_eq(l[n - 1].0.as_str(), to) {
            return Some(l[n - 1].1);
        }
        n -= 1;
    }
    None
}

fn one_way_latency(rs: &Vec<(String, RegionConfig)>, from: &str, to: &str) -> (r: Option<u32>)
    ensures
        r == latency_from(rs@, from@, to@, rs@.len() as int),
{
    let mut n: usize = rs.len();
    while n > 0
        invariant
            n <= rs.len(),
            latency_from(rs@, from@, to@, n as int) == latency_from(
                rs@,
                from@,
                to@,
                rs@.len() as int,
            ),
        decreases n,
    {
        if str_eq(rs[n - 1].0.as_str(), from) {
            let here = latency_to(&rs[n - 1].1.latencies, to);
            if here.is_some() {
                return here;
            }
        }
        n -= 1;
    }
    None
}

fn pair_latency(cfg: &LabConfig, a: &str, b: &str) -> (r: Option<u32>)
    ensures
        r == latency_between(*cfg, a@, b@),
{
    match &cfg.region {
        None => None,
        Some(rs) => match one_way_latency(rs, a, b) {
            Some(ms) => Some(ms),
            None => one_way_latency(rs, b, a),
        },
    }
}

fn push_targets(out: &mut Vec<String>, l: &Vec<(String, u32)>)
    ensures
        forall|name: Seq<char>| #[trigger]
            views(final(out)@).contains(name) <==> views(old(out)@).contains(name) || is_target(
                l@,
                name,
                l@.len() as int,
            ),
{
    let ghost before = views(out@);
    let mut j: usize = 0;
    while j < l.len()
        invariant
            j <= l.len(),
            forall|name: Seq<char>| #[trigger]
                views(out@).contains(name) <==> before.contains(name) || is_target(
                    l@,
                    name,
                    j as int,
                ),
        decreases l.len() - j,
    {
        let ghost was = views(out@);
        out.push(l[j].0.clone());
        proof {
            pushed_contains(was, l@[j as int].0@);
            assert(views(out@) =~= was.push(l@[j as int].0@));
            assert forall|name: Seq<char>| #[trigger]
                views(out@).contains(name) <==> before.contains(name) || is_target(
                    l@,
                    name,
                    j as int + 1,
                ) by {
                assert(is_target(l@, name, j as int + 1) <==> is_target(l@, name, j as int)
                    || l@[j as int].0@ == name);
            }
        }
        j += 1;
    }
}

/// The names of the regions that a configuration names, as often as it does.
fn region_mentions(cfg: &LabConfig) -> (r: Vec<String>)
    ensures
        forall|name: Seq<char>| #[trigger]
            views(r@).contains(name) <==> names_region(*cfg, name),
{
    let mut out: Vec<String> = Vec::new();
    let ghost rs = region_entries(*cfg);
    let mut i: usize = 0;
    while i < cfg.router.len()
        invariant
            i <= cfg.router.len(),
            forall|name: Seq<char>| #[trigger]
                views(out@).contains(name) <==> houses_router(cfg.router@, name, i as int),
        decreases cfg.router.len() - i,
    {
        let ghost was = views(out@);
        let ghost here = opt_view(cfg.router@[i as int].region);
        if let Some(tag) = &cfg.router[i].region {
            out.push(tag.clone());
            proof {
                pushed_contains(was, tag@);
                assert(views(out@) =~= was.push(tag@));
            }
        }
        assert forall|name: Seq<char>| #[trigger]
            views(out@).contains(name) <==> houses_router(cfg.router@, name, i as int + 1) by {
            assert(houses_router(cfg.router@, name, i as int + 1) <==> houses_router(
                cfg.router@,
                name,
                i as int,
            ) || here == Some(name));
        }
        i += 1;
    }
    if let Some(entries) = &cfg.region {
        let mut k: usize = 0;
        while k < entries.len()
            invariant
                k <= entries.len(),
                rs == entries@,
                rs == region_entries(*cfg),
                forall|name: Seq<char>| #[trigger]
                    views(out@).contains(name) <==> houses_router(
                        cfg.router@,
                        name,
                        cfg.router@.len() as int,
                    ) || has_entry(rs, name, k as int),
            decreases entries.len() - k,
        {
            let ghost was = views(out@);
            let ghost e = rs[k as int];
            out.push(entries[k].0.clone());
            proof {
                pushed_contains(was, e.0@);
                assert(views(out@) =~= was.push(e.0@));
            }
            push_targets(&mut out, &entries[k].1.latencies);
            assert forall|name: Seq<char>| #[trigger]
                views(out@).contains(name) <==> houses_router(
                    cfg.router@,
                    name,
                    cfg.router@.len() as int,
                ) || has_entry(rs, name, k as int + 1) by {
                assert(has_entry(rs, name, k as int + 1) <==> has_entry(rs, name, k as int)
                    || entry_names_region(e, name));
                assert(was.push(e.0@).contains(name) <==> was.contains(name) || name == e.0@);
            }
            k += 1;
        }
    }
    out
}

/// The given names in order, each once.
fn names_in_order(names: &Vec<String>) -> (r: Vec<String>)
    ensures
        forall|a: int, b: int|
            0 <= a < b < r@.len() ==> text_lt(#[trigger] views(r@)[a], #[trigger] views(r@)[b]),
        forall|name: Seq<char>| #[trigger]
            views(r@).contains(name) <==> views(names@).contains(name),
{
    let order = sort_by_name(names);
    let ghost all = views(names@);
    let ghost sorted = ints(order@);
    let mut out: Vec<String> = Vec::new();
    let mut k: usize = 0;
    while k < order.len()
        invariant
            k <= order.len(),
            all == views(names@),
            sorted == ints(order@),
            forall|j: int| 0 <= j < order@.len() ==> (#[trigger] order@[j]) < names@.len(),
            out@.len() == k,
            forall|j: int| 0 <= j < k ==> #[trigger] views(out@)[j] == all[sorted[j]],
        decreases order.len() - k,
    {
        let ghost was = views(out@);
        out.push(names[order[k]].clone());
        assert(views(out@) =~= was.push(all[sorted[k as int]]));
        k += 1;
    }
    proof {
        by_name_is_sorted(all, all.len() as int);
        let made = views(out@);
        assert forall|name: Seq<char>| #[trigger] made.contains(name) <==> all.contains(name) by {
            if made.contains(name) {
                let j = choose|j: int| 0 <= j < made.len() && made[j] == name;
                assert(order@[j] < names@.len());
                assert(all[sorted[j]] == name);
            }
            if all.contains(name) {
                let j = choose|j: int| 0 <= j < all.len() && all[j] == name;
                assert(names_entry(all, sorted, all[j]));
                let m = choose|m: int| 0 <= m < sorted.len() && all[#[trigger] sorted[m]] == name;
                assert(made[m] == name);
            }
        }
        assert forall|a: int, b: int| 0 <= a < b < made.len() implies text_lt(
            #[trigger] made[a],
            #[trigger] made[b],
        ) by {
            assert(text_lt(all[sorted[a]], all[sorted[b]]));
        }
    }
    out
}

proof fn latency_has_target(l: Seq<(String, u32)>, to: Seq<char>, n: int)
    requires
        latency_in(l, to, n) is Some,
        n <= l.len(),
    ensures
        is_target(l, to, n),
    decreases n,
{
    if l[n - 1].0@ != to {
        latency_has_target(l, to, n - 1);
    }
}

proof fn latency_has_entry(
    rs: Seq<(String, RegionConfig)>,
    from: Seq<char>,
    to: Seq<char>,
    n: int,
)
    requires
        latency_from(rs, from, to, n) is Some,
        n <= rs.len(),
    ensures
        has_entry(rs, from, n),
        has_entry(rs, to, n),
    decreases n,
{
    let l = rs[n - 1].1.latencies@;
    let here = latency_in(l, to, l.len() as int);
    if rs[n - 1].0@ == from && here is Some {
        latency_has_target(l, to, l.len() as int);
        assert(entry_names_region(rs[n - 1], from));
        assert(entry_names_region(rs[n - 1], to));
    } else {
        latency_has_entry(rs, from, to, n - 1);
        let i = choose|i: int| 0 <= i < n - 1 && entry_names_region(#[trigger] rs[i], from);
        let j = choose|j: int| 0 <= j < n - 1 && entry_names_region(#[trigger] rs[j], to);
        assert(entry_names_region(rs[i], from) && entry_names_region(rs[j], to));
    }
}

/// Regions with a latency between them are regions of the configuration.
pub proof fn linked_regions_are_named(cfg: LabConfig, a: Seq<char>, b: Seq<char>)
    requires
        latency_between(cfg, a, b) is Some,
    ensures
        names_region(cfg, a),
        names_region(cfg, b),
{
    let rs = region_entries(cfg);
    if latency_from(rs, a, b, rs.len() as int) is Some {
        latency_has_entry(rs, a, b, rs.len() as int);
    } else {
        latency_has_entry(rs, b, a, rs.len() as int);
    }
}

/// A place in the list of pairs before another.
spec fn place_before(p: (int, int), q: (int, int)) -> bool {
    p.0 < q.0 || (p.0 == q.0 && p.1 < q.1)
}

fn region_links(cfg: &LabConfig, regions: &Vec<String>) -> (r: Vec<(String, String, RegionLink)>)
    requires
        forall|a: int, b: int|
            0 <= a < b < regions@.len() ==> text_lt(
                #[trigger] views(regions@)[a],
                #[trigger] views(regions@)[b],
            ),
        forall|name: Seq<char>| #[trigger]
            views(regions@).contains(name) <==> names_region(*cfg, name),
    ensures
        forall|k: int| 0 <= k < r@.len() ==> is_good_link(*cfg, #[trigger] r@[k]),
        forall|k: int, m: int|
            0 <= k < m < r@.len() ==> link_before(#[trigger] r@[k], #[trigger] r@[m]),
        forall|a: Seq<char>, b: Seq<char>|
            text_lt(a, b) && (#[trigger] latency_between(*cfg, a, b)) is Some ==> exists|k: int|
                0 <= k < r@.len() && (#[trigger] r@[k]).0@ == a && r@[k].1@ == b,
{
    let ghost names = views(regions@);
    let mut out: Vec<(String, String, RegionLink)> = Vec::new();
    let ghost mut at: Seq<(int, int)> = Seq::empty();
    let mut i: usize = 0;
    while i < regions.len()
        invariant
            i <= regions.len(),
            names == views(regions@),
            forall|a: int, b: int|
                0 <= a < b < names.len() ==> text_lt(#[trigger] names[a], #[trigger] names[b]),
            out@.len() == at.len(),
            forall|k: int| 0 <= k < out@.len() ==> is_good_link(*cfg, #[trigger] out@[k]),
            forall|k: int|
                0 <= k < at.len() ==> 0 <= (#[trigger] at[k]).0 < at[k].1 < names.len()
                    && at[k].0 < i && out@[k].0@ == names[at[k].0] && out@[k].1@ == names[at[k].1],
            forall|k: int, m: int|
                0 <= k < m < at.len() ==> place_before(#[trigger] at[k], #[trigger] at[m]),
            forall|p: int, q: int|
                0 <= p < i && p < q < names.len() && (#[trigger] latency_between(
                    *cfg,
                    names[p],
                    names[q],
                )) is Some ==> at.contains((p, q)),
        decreases regions.len() - i,
    {
        let mut j: usize = i + 1;
        while j < regions.len()
            invariant
                i < j <= regions.len(),
                names == views(regions@),
                forall|a: int, b: int|
                    0 <= a < b < names.len() ==> text_lt(#[trigger] names[a], #[trigger] names[b]),
                out@.len() == at.len(),
                forall|k: int| 0 <= k < out@.len() ==> is_good_link(*cfg, #[trigger] out@[k]),
                forall|k: int|
                    0 <= k < at.len() ==> 0 <= (#[trigger] at[k]).0 < at[k].1 < names.len()
                        && place_before(at[k], (i as int, j as int)) && out@[k].0@
                        == names[at[k].0] && out@[k].1@ == names[at[k].1],
                forall|k: int, m: int|
                    0 <= k < m < at.len() ==> place_before(#[trigger] at[k], #[trigger] at[m]),
                forall|p: int, q: int|
                    0 <= p && p < q < names.len() && place_before((p, q), (i as int, j as int))
                        && (#[trigger] latency_between(*cfg, names[p], names[q])) is Some
                        ==> at.contains((p, q)),
            decreases regions.len() - j,
        {
            let ghost was = at;
            if let Some(ms) = pair_latency(cfg, regions[i].as_str(), regions[j].as_str()) {
                out.push((regions[i].clone(), regions[j].clone(), RegionLink::good(ms)));
                proof {
                    assert(text_lt(names[i as int], names[j as int]));
                    at = at.push((i as int, j as int));
                    assert(at[was.len() as int] == (i as int, j as int));
                }
            }
            proof {
                assert forall|p: int, q: int|
                    0 <= p && p < q < names.len() && place_before((p, q), (i as int, j as int + 1))
                        && (#[trigger] latency_between(*cfg, names[p], names[q])) is Some
                    implies at.contains((p, q)) by {
                    if place_before((p, q), (i as int, j as int)) {
                        let k = choose|k: int| 0 <= k < was.len() && was[k] == (p, q);
                        assert(at[k] == (p, q));
                    }
                }
            }
            j += 1;
        }
        i += 1;
    }
    proof {
        assert forall|k: int, m: int| 0 <= k < m < out@.len() implies link_before(
            #[trigger] out@[k],
            #[trigger] out@[m],
        ) by {
            assert(place_before(at[k], at[m]));
        }
        assert forall|a: Seq<char>, b: Seq<char>|
            text_lt(a, b) && (#[trigger] latency_between(*cfg, a, b)) is Some implies exists|k: int|
            0 <= k < out@.len() && (#[trigger] out@[k]).0@ == a && out@[k].1@ == b by {
            linked_regions_are_named(*cfg, a, b);
            assert(names.contains(a) && names.contains(b));
            let p = choose|p: int| 0 <= p < names.len() && names[p] == a;
            let q = choose|q: int| 0 <= q < names.len() && names[q] == b;
            text_lt_is_total(a, b);
            assert(p < q);
            assert(latency_between(*cfg, names[p], names[q]) is Some);
            assert(at.contains((p, q)));
            let k = choose|k: int| 0 <= k < at.len() && at[k] == (p, q);
            assert(out@[k].0@ == a && out@[k].1@ == b);
        }
    }
    out
}

fn routers_with_regions(cfg: &LabConfig) -> (r: Vec<(usize, Option<String>)>)
    ensures
        r@.len() == build_order(cfg.router@).len(),
        forall|k: int|
            0 <= k < r@.len() ==> (#[trigger] r@[k]).0 == build_order(cfg.router@)[k] && r@[k].0
                < cfg.router@.len() && opt_view(r@[k].1) == opt_view(
                cfg.router@[build_order(cfg.router@)[k]].region,
            ),
{
    let order = router_order(&cfg.router).order;
    let ghost all = build_order(cfg.router@);
    let mut out: Vec<(usize, Option<String>)> = Vec::new();
    let mut k: usize = 0;
    while k < order.len()
        invariant
            k <= order.len(),
            all == ints(order@),
            forall|j: int| 0 <= j < order@.len() ==> (#[trigger] order@[j]) < cfg.router@.len(),
            out@.len() == k,
            forall|j: int|
                0 <= j < k ==> (#[trigger] out@[j]).0 == all[j] && out@[j].0 < cfg.router@.len()
                    && opt_view(out@[j].1) == opt_view(cfg.router@[all[j]].region),
        decreases order.len() - k,
    {
        let i = order[k];
        assert(all[k as int] == i);
        out.push((i, copy_option(&cfg.router[i].region)));
        k += 1;
    }
    out
}

/// Decides what a configuration asks for regions: which to add, which router is
/// in which, and how they are linked.
pub fn region_plan(cfg: &LabConfig) -> (r: RegionConfigPlan)
    ensures
        r.has_regions_of(*cfg),
        r.has_routers_of(*cfg),
        r.has_links_of(*cfg),
{
    let regions = names_in_order(&region_mentions(cfg));
    let links = region_links(cfg, &regions);
    RegionConfigPlan { regions, routers: routers_with_regions(cfg), links }
}

/// The region of each router and both ends of each link are among the regions
/// to add.
pub proof fn plans_use_their_own_regions(cfg: LabConfig, plan: RegionConfigPlan)
    requires
        plan.has_regions_of(cfg),
        plan.has_routers_of(cfg),
        plan.has_links_of(cfg),
    ensures
        forall|k: int|
            0 <= k < plan.routers@.len() && (#[trigger] plan.routers@[k]).1 is Some ==> views(
                plan.regions@,
            ).contains((plan.routers@[k].1->0)@),
        forall|k: int|
            0 <= k < plan.links@.len() ==> views(plan.regions@).contains(
                (#[trigger] plan.links@[k]).0@,
            ) && views(plan.regions@).contains(plan.links@[k].1@),
{
    let names = views(plan.regions@);
    assert forall|k: int|
        0 <= k < plan.routers@.len() && (#[trigger] plan.routers@[k]).1 is Some implies names.contains(
        (plan.routers@[k].1->0)@,
    ) by {
        let i = plan.routers@[k].0 as int;
        let name = (plan.routers@[k].1->0)@;
        assert(opt_view(cfg.router@[i].region) == Some(name));
        assert(houses_router(cfg.router@, name, cfg.router@.len() as int));
        assert(names_region(cfg, name));
    }
    assert forall|k: int| 0 <= k < plan.links@.len() implies names.contains(
        (#[trigger] plan.links@[k]).0@,
    ) && names.contains(plan.links@[k].1@) by {
        assert(is_good_link(cfg, plan.links@[k]));
        linked_regions_are_named(cfg, plan.links@[k].0@, plan.links@[k].1@);
    }
}

// ── devices ──────────────────────────────────────────────────────────

/// The `count` of a device entry.
#[derive(Clone, Copy, Debug, PartialEq, Eq, Structural)]
pub enum CountEntry {
    /// There is none.
    Absent,
    /// It is no integer.
    NotInteger,
    /// An integer.
    Given(i64),
}

/// The impairment of an interface entry.
#[derive(Debug)]
pub enum ImpairEntry {
    /// There is none.
    Absent,
    /// It has not the form of a link condition.
    Malformed,
    /// It has the form of a link condition.
    Given(ConditionEntry),
}

/// An interface of a device entry.
#[derive(Debug)]
pub struct IfaceEntry {
    /// Interface name.
    pub name: String,
    /// Name of the router, where there is one.
    pub gateway: Option<String>,
    /// Impairment.
    pub impair: ImpairEntry,
}

/// A device entry.
#[derive(Debug)]
pub struct DeviceEntry {
    /// Device name.
    pub name: String,
    /// Whether the entry is a table at all.
    pub is_table: bool,
    /// Interface of the default route.
    pub default_via: Option<String>,
    /// How many devices the entry stands for.
    pub count: CountEntry,
    /// Interfaces.
    pub ifaces: Vec<IfaceEntry>,
}

/// A device to be built.
#[derive(Debug)]
pub struct ParsedDev {
    /// Device name.
    pub name: String,
    /// Interface of the default route.
    pub default_via: Option<String>,
    /// Interfaces: name, router, impairment.
    pub ifaces: Vec<(String, NodeId, Option<LinkCondition>)>,
}

/// A device to be built.
pub struct ParsedView {
    /// Device name.
    pub name: Seq<char>,
    /// Interface of the default route.
    pub default_via: Option<Seq<char>>,
    /// Interfaces: name, router, impairment.
    pub ifaces: Seq<(Seq<char>, NodeId, Option<LinkCondition>)>,
}

/// The views of a list of interfaces.
pub open spec fn parsed_ifaces(v: Seq<(String, NodeId, Option<LinkCondition>)>) -> Seq<
    (Seq<char>, NodeId, Option<LinkCondition>),
> {
    Seq::new(v.len(), |i: int| (v[i].0@, v[i].1, v[i].2))
}

impl View for ParsedDev {
    type V = ParsedView;

    open spec fn view(&self) -> ParsedView {
        ParsedView {
            name: self.name@,
            default_via: opt_view(self.default_via),
            ifaces: parsed_ifaces(self.ifaces@),
        }
    }
}

/// The views of a list of devices.
pub open spec fn parsed_views(v: Seq<ParsedDev>) -> Seq<ParsedView> {
    Seq::new(v.len(), |i: int| v[i]@)
}

/// What is wrong with a device entry.
#[derive(Clone, Copy, Debug, PartialEq, Eq, Structural)]
pub enum DeviceProblem {
    /// The device must be a table.
    NotATable,
    /// The count must be an integer.
    CountNotInteger,
    /// The count must be at least 1.
    CountTooSmall,
    /// The device has no interface.
    NoInterfaces,
    /// The interface at this place has no gateway.
    MissingGateway(usize),
    /// The interface at this place names an unknown router.
    UnknownRouter(usize),
    /// The interface at this place has an invalid impairment.
    InvalidImpair(usize),
}

/// The names of the interface entries.
pub open spec fn entry_names(v: Seq<IfaceEntry>) -> Seq<Seq<char>> {
    Seq::new(v.len(), |i: int| v[i].name@)
}

/// One interface entry resolved.
pub open spec fn one_iface(c: CoreView, e: IfaceEntry, at: usize) -> Result<
    (Seq<char>, NodeId, Option<LinkCondition>),
    DeviceProblem,
> {
    match e.gateway {
        None => Err(DeviceProblem::MissingGateway(at)),
        Some(g) => match c.router_named(g@) {
            None => Err(DeviceProblem::UnknownRouter(at)),
            Some(id) => match e.impair {
                ImpairEntry::Malformed => Err(DeviceProblem::InvalidImpair(at)),
                ImpairEntry::Absent => Ok((e.name@, id, None)),
                ImpairEntry::Given(l) => match read_condition(l) {
                    Err(_) => Err(DeviceProblem::InvalidImpair(at)),
                    Ok(c) => Ok((e.name@, id, Some(c))),
                },
            },
        },
    }
}

/// The first `n` interfaces in the given order resolved; the first problem
/// counts.
pub open spec fn resolved_ifaces(c: CoreView, es: Seq<IfaceEntry>, order: Seq<int>, n: int) -> Result<
    Seq<(Seq<char>, NodeId, Option<LinkCondition>)>,
    DeviceProblem,
>
    decreases n,
{
    if n <= 0 {
        Ok(Seq::empty())
    } else {
        match resolved_ifaces(c, es, order, n - 1) {
            Err(e) => Err(e),
            Ok(before) => match one_iface(c, es[order[n - 1]], order[n - 1] as usize) {
                Err(e) => Err(e),
                Ok(i) => Ok(before.push(i)),
            },
        }
    }
}

/// The devices numbered 0 to `n`.
pub open spec fn numbered(
    name: Seq<char>,
    default_via: Option<Seq<char>>,
    ifaces: Seq<(Seq<char>, NodeId, Option<LinkCondition>)>,
    n: int,
) -> Seq<ParsedView> {
    Seq::new(
        n as nat,
        |i: int|
            ParsedView { name: name + "-"@ + dec(i as nat), default_via, ifaces },
    )
}

/// The devices that an entry stands for. Interfaces come in the order of their
/// names; with a count the devices are numbered.
pub open spec fn expanded(c: CoreView, e: DeviceEntry) -> Result<Seq<ParsedView>, DeviceProblem> {
    let names = entry_names(e.ifaces@);
    let order = by_name(names, names.len() as int);
    if !e.is_table {
        Err(DeviceProblem::NotATable)
    } else if e.count is NotInteger {
        Err(DeviceProblem::CountNotInteger)
    } else if e.count is Given && e.count->Given_0 < 1 {
        Err(DeviceProblem::CountTooSmall)
    } else if e.ifaces@.len() == 0 {
        Err(DeviceProblem::NoInterfaces)
    } else {
        match resolved_ifaces(c, e.ifaces@, order, order.len() as int) {
            Err(p) => Err(p),
            Ok(ifaces) => Ok(
                match e.count {
                    CountEntry::Given(n) => numbered(
                        e.name@,
                        opt_view(e.default_via),
                        ifaces,
                        n as int,
                    ),
                    _ => seq![
                        ParsedView { name: e.name@, default_via: opt_view(e.default_via), ifaces },
                    ],
                },
            ),
        }
    }
}

proof fn iface_problem_stays(c: CoreView, es: Seq<IfaceEntry>, order: Seq<int>, n: int, m: int)
    requires
        0 <= n <= m,
        resolved_ifaces(c, es, order, n) is Err,
    ensures
        resolved_ifaces(c, es, order, m) == resolved_ifaces(c, es, order, n),
    decreases m - n,
{
    if n < m {
        iface_problem_stays(c, es, order, n, m - 1);
    }
}

fn resolve_iface(core: &NetworkCore, e: &IfaceEntry, at: usize) -> (r: Result<
    (String, NodeId, Option<LinkCondition>),
    DeviceProblem,
>)
    requires
        core.wf(),
    ensures
        match r {
            Ok((name, id, l)) => one_iface(core@, *e, at) == Ok::<
                (Seq<char>, NodeId, Option<LinkCondition>),
                DeviceProblem,
            >((name@, id, l)),
            Err(p) => one_iface(core@, *e, at) == Err::<
                (Seq<char>, NodeId, Option<LinkCondition>),
                DeviceProblem,
            >(p),
        },
{
    match &e.gateway {
        None => Err(DeviceProblem::MissingGateway(at)),
        Some(g) => match core.router_id_by_name(g.as_str()) {
            None => Err(DeviceProblem::UnknownRouter(at)),
            Some(id) => match &e.impair {
                ImpairEntry::Malformed => Err(DeviceProblem::InvalidImpair(at)),
                ImpairEntry::Absent => Ok((e.name.clone(), id, None)),
                ImpairEntry::Given(l) => match LinkCondition::from_entry(l) {
                    Err(_) => Err(DeviceProblem::InvalidImpair(at)),
                    Ok(c) => Ok((e.name.clone(), id, Some(c))),
                },
            },
        },
    }
}

fn copy_ifaces(v: &Vec<(String, NodeId, Option<LinkCondition>)>) -> (r: Vec<
    (String, NodeId, Option<LinkCondition>),
>)
    ensures
        parsed_ifaces(r@) == parsed_ifaces(v@),
{
    let mut out: Vec<(String, NodeId, Option<LinkCondition>)> = Vec::new();
    let mut i: usize = 0;
    while i < v.len()
        invariant
            i <= v.len(),
            out.len() == i,
            forall|j: int|
                0 <= j < i ==> (#[trigger] out@[j]).0@ == v@[j].0@ && out@[j].1 == v@[j].1
                    && out@[j].2 == v@[j].2,
        decreases v.len() - i,
    {
        out.push((v[i].0.clone(), v[i].1, v[i].2));
        i += 1;
    }
    assert(parsed_ifaces(out@) =~= parsed_ifaces(v@));
    out
}

fn copy_option(s: &Option<String>) -> (r: Option<String>)
    ensures
        opt_view(r) == opt_view(*s),
{
    match s {
        Some(t) => Some(t.clone()),
        None => None,
    }
}

/// The devices that an entry stands for.
pub fn expand_device(core: &NetworkCore, e: &DeviceEntry) -> (r: Result<
    Vec<ParsedDev>,
    DeviceProblem,
>)
    requires
        core.wf(),
    ensures
        match expanded(core@, *e) {
            Ok(v) => r is Ok && parsed_views(r->Ok_0@) == v,
            Err(p) => r is Err && r->Err_0 == p,
        },
{
    if !e.is_table {
        return Err(DeviceProblem::NotATable);
    }
    match e.count {
        CountEntry::NotInteger => {
            return Err(DeviceProblem::CountNotInteger);
        },
        CountEntry::Given(n) => {
            if n < 1 {
                return Err(DeviceProblem::CountTooSmall);
            }
        },
        CountEntry::Absent => {},
    }
    if e.ifaces.len() == 0 {
        return Err(DeviceProblem::NoInterfaces);
    }
    let ghost names = entry_names(e.ifaces@);
    let mut texts: Vec<String> = Vec::new();
    let mut i: usize = 0;
    while i < e.ifaces.len()
        invariant
            i <= e.ifaces.len(),
            texts.len() == i,
            forall|j: int| 0 <= j < i ==> (#[trigger] texts@[j])@ == e.ifaces@[j].name@,
        decreases e.ifaces.len() - i,
    {
        texts.push(e.ifaces[i].name.clone());
        i += 1;
    }
    assert(views(texts@) =~= names);
    let order = sort_by_name(&texts);
    let ghost o = ints(order@);
    let mut ifaces: Vec<(String, NodeId, Option<LinkCondition>)> = Vec::new();
    let mut k: usize = 0;
    assert(parsed_ifaces(ifaces@) =~= Seq::<(Seq<char>, NodeId, Option<LinkCondition>)>::empty());
    while k < order.len()
        invariant
            core.wf(),
            k <= order.len(),
            o == ints(order@),
            o == by_name(entry_names(e.ifaces@), e.ifaces@.len() as int),
            e.is_table,
            !(e.count is NotInteger),
            e.count is Given ==> e.count->Given_0 >= 1,
            e.ifaces@.len() > 0,
            forall|j: int| 0 <= j < order@.len() ==> (#[trigger] order@[j]) < e.ifaces@.len(),
            resolved_ifaces(core@, e.ifaces@, o, k as int) == Ok::<
                Seq<(Seq<char>, NodeId, Option<LinkCondition>)>,
                DeviceProblem,
            >(parsed_ifaces(ifaces@)),
        decreases order.len() - k,
    {
        let at = order[k];
        let ghost done = parsed_ifaces(ifaces@);
        assert(o[k as int] == at);
        match resolve_iface(core, &e.ifaces[at], at) {
            Ok(x) => {
                ifaces.push(x);
                assert(parsed_ifaces(ifaces@) =~= done.push((x.0@, x.1, x.2)));
            },
            Err(p) => {
                proof {
                    assert(resolved_ifaces(core@, e.ifaces@, o, k as int + 1) is Err);
                    iface_problem_stays(
                        core@,
                        e.ifaces@,
                        o,
                        k as int + 1,
                        o.len() as int,
                    );
                }
                return Err(p);
            },
        }
        k += 1;
    }
    let ghost all = parsed_ifaces(ifaces@);
    let ghost def_via = opt_view(e.default_via);
    let mut out: Vec<ParsedDev> = Vec::new();
    match e.count {
        CountEntry::Given(count) => {
            let mut n: i64 = 0;
            while n < count
                invariant
                    0 <= n <= count,
                    all == parsed_ifaces(ifaces@),
                    def_via == opt_view(e.default_via),
                    out.len() == n,
                    forall|j: int|
                        0 <= j < n ==> (#[trigger] out@[j])@ == numbered(
                            e.name@,
                            def_via,
                            all,
                            count as int,
                        )[j],
                decreases count - n,
            {
                let mut name = e.name.clone();
                name.append("-");
                push_dec(&mut name, n as u64);
                out.push(
                    ParsedDev {
                        name,
                        default_via: copy_option(&e.default_via),
                        ifaces: copy_ifaces(&ifaces),
                    },
                );
                n += 1;
            }
            assert(parsed_views(out@) =~= numbered(e.name@, def_via, all, count as int));
        },
        _ => {
            let dev = ParsedDev {
                name: e.name.clone(),
                default_via: copy_option(&e.default_via),
                ifaces,
            };
            out.push(dev);
            assert(parsed_views(out@) =~= seq![dev@]);
        },
    }
    Ok(out)
}

/// The names of the device entries.
pub open spec fn device_names(v: Seq<DeviceEntry>) -> Seq<Seq<char>> {
    Seq::new(v.len(), |i: int| v[i].name@)
}

/// The devices of the first `n` entries in the given order; the first problem
/// counts, with its entry.
pub open spec fn expanded_all(c: CoreView, es: Seq<DeviceEntry>, order: Seq<int>, n: int) -> Result<
    Seq<ParsedView>,
    (int, DeviceProblem),
>
    decreases n,
{
    if n <= 0 {
        Ok(Seq::empty())
    } else {
        match expanded_all(c, es, order, n - 1) {
            Err(e) => Err(e),
            Ok(before) => match expanded(c, es[order[n - 1]]) {
                Err(p) => Err((order[n - 1], p)),
                Ok(v) => Ok(before + v),
            },
        }
    }
}

proof fn device_problem_stays(c: CoreView, es: Seq<DeviceEntry>, order: Seq<int>, n: int, m: int)
    requires
        0 <= n <= m,
        expanded_all(c, es, order, n) is Err,
    ensures
        expanded_all(c, es, order, m) == expanded_all(c, es, order, n),
    decreases m - n,
{
    if n < m {
        device_problem_stays(c, es, order, n, m - 1);
    }
}

/// The devices that a configuration stands for, in the order of their names,
/// or the first entry with a problem.
pub fn expand_devices(core: &NetworkCore, entries: &Vec<DeviceEntry>) -> (r: Result<
    Vec<ParsedDev>,
    (usize, DeviceProblem),
>)
    requires
        core.wf(),
    ensures
        ({
            let names = device_names(entries@);
            let order = by_name(names, names.len() as int);
            match expanded_all(core@, entries@, order, order.len() as int) {
                Ok(v) => r is Ok && parsed_views(r->Ok_0@) == v,
                Err((i, p)) => r is Err && (r->Err_0).0 == i && (r->Err_0).1 == p,
            }
        }),
{
    let ghost names = device_names(entries@);
    let mut texts: Vec<String> = Vec::new();
    let mut i: usize = 0;
    while i < entries.len()
        invariant
            i <= entries.len(),
            texts.len() == i,
            forall|j: int| 0 <= j < i ==> (#[trigger] texts@[j])@ == entries@[j].name@,
        decreases entries.len() - i,
    {
        texts.push(entries[i].name.clone());
        i += 1;
    }
    assert(views(texts@) =~= names);
    let order = sort_by_name(&texts);
    let ghost o = ints(order@);
    let mut out: Vec<ParsedDev> = Vec::new();
    let mut k: usize = 0;
    assert(parsed_views(out@) =~= Seq::<ParsedView>::empty());
    while k < order.len()
        invariant
            core.wf(),
            k <= order.len(),
            o == ints(order@),
            o == by_name(device_names(entries@), entries@.len() as int),
            forall|j: int| 0 <= j < order@.len() ==> (#[trigger] order@[j]) < entries@.len(),
            expanded_all(core@, entries@, o, k as int) == Ok::<
                Seq<ParsedView>,
                (int, DeviceProblem),
            >(parsed_views(out@)),
        decreases order.len() - k,
    {
        let at = order[k];
        assert(o[k as int] == at);
        let ghost done = parsed_views(out@);
        match expand_device(core, &entries[at]) {
            Ok(v) => {
                let mut v = v;
                let ghost more = parsed_views(v@);
                out.append(&mut v);
                assert(parsed_views(out@) =~= done + more);
            },
            Err(p) => {
                proof {
                    assert(expanded_all(core@, entries@, o, k as int + 1) is Err);
                    device_problem_stays(
                        core@,
                        entries@,
                        o,
                        k as int + 1,
                        o.len() as int,
                    );
                }
                return Err((at, p));
            },
        }
        k += 1;
    }
    Ok(out)
}

} // verus!
