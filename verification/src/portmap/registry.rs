//! Registry of active port mappings.
//!
//! One registry per router tracks every mapping granted by any protocol. An
//! external port is held by at most one internal socket per protocol, and an
//! internal socket holds at most one external port: asking again for the same
//! socket renews the mapping that is there.
use vstd::prelude::*;

use crate::addr::Ipv4Addr;

verus! {

/// IP transport protocol a mapping applies to.
#[derive(Clone, Copy, Debug, PartialEq, Eq, Hash, Structural)]
pub enum MapProto {
    /// UDP.
    Udp,
    /// TCP.
    Tcp,
}

/// External-side key of a mapping.
#[derive(Clone, Copy, Debug, PartialEq, Eq, Hash, Structural)]
pub struct MappingKey {
    /// The protocol.
    pub proto: MapProto,
    /// The external port.
    pub external_port: u16,
}

/// A single active port mapping.
#[derive(Clone, Copy, Debug)]
pub struct Mapping {
    /// The protocol.
    pub proto: MapProto,
    /// The port on the router's WAN address, never 0.
    pub external_port: u16,
    /// The client's address.
    pub internal_ip: Ipv4Addr,
    /// The client's port, never 0.
    pub internal_port: u16,
    /// When the mapping expires, in milliseconds.
    pub deadline: u64,
    /// The nonce of the PCP client that made it, if one did.
    pub pcp_nonce: Option<[u8; 12]>,
}

/// Outcome of an allocation request.
#[derive(Clone, Copy, Debug)]
pub enum AllocOutcome {
    /// A new mapping was created.
    Created(Mapping),
    /// The mapping of this internal socket was renewed, with its port.
    Renewed(Mapping),
    /// The external port asked for is held by another client.
    Conflict,
    /// Every external port of the pool is taken.
    NoPortsAvailable,
}

/// First external port of the pool.
pub const EXTERNAL_PORT_LOW: u16 = 1024;

/// Last external port of the pool.
pub const EXTERNAL_PORT_HIGH: u16 = 32767;

/// The registry.
#[derive(Debug)]
pub struct PortmapRegistry {
    entries: Vec<Mapping>,
    cursor: u16,
}

/// What a registry holds: the mappings in the order they were made, and the
/// port that the next search starts from.
pub struct RegistryView {
    /// The mappings.
    pub entries: Seq<Mapping>,
    /// Where the next search starts.
    pub cursor: int,
}

impl Mapping {
    /// Whether the mapping holds the external slot.
    pub open spec fn holds(self, proto: MapProto, port: int) -> bool {
        self.proto == proto && self.external_port == port
    }

    /// Whether the mapping belongs to the internal socket.
    pub open spec fn serves(self, proto: MapProto, ip: Ipv4Addr, port: u16) -> bool {
        self.proto == proto && self.internal_ip == ip && self.internal_port == port
    }
}

/// The number of ports in the pool.
pub open spec fn pool_size() -> int {
    EXTERNAL_PORT_HIGH - EXTERNAL_PORT_LOW + 1
}

/// Port `i` of a walk through the pool that starts at `start` and wraps.
pub open spec fn pool_port(start: int, i: int) -> int {
    EXTERNAL_PORT_LOW + (start - EXTERNAL_PORT_LOW + i) % pool_size()
}

/// The port after `p` in the pool.
pub open spec fn next_port(p: int) -> int {
    if p >= EXTERNAL_PORT_HIGH {
        EXTERNAL_PORT_LOW as int
    } else {
        p + 1
    }
}

impl RegistryView {
    /// The mapping of an internal socket, from index `i` on.
    pub open spec fn serving_from(
        self,
        proto: MapProto,
        ip: Ipv4Addr,
        port: u16,
        i: int,
    ) -> Option<int>
        decreases self.entries.len() - i,
    {
        if i < 0 || i >= self.entries.len() {
            None
        } else if self.entries[i].serves(proto, ip, port) {
            Some(i)
        } else {
            self.serving_from(proto, ip, port, i + 1)
        }
    }

    /// The index of the mapping of an internal socket.
    pub open spec fn serving(self, proto: MapProto, ip: Ipv4Addr, port: u16) -> Option<int> {
        self.serving_from(proto, ip, port, 0)
    }

    /// The mapping of an external slot, from index `i` on.
    pub open spec fn holding_from(self, proto: MapProto, port: int, i: int) -> Option<int>
        decreases self.entries.len() - i,
    {
        if i < 0 || i >= self.entries.len() {
            None
        } else if self.entries[i].holds(proto, port) {
            Some(i)
        } else {
            self.holding_from(proto, port, i + 1)
        }
    }

    /// The index of the mapping of an external slot.
    pub open spec fn holding(self, proto: MapProto, port: int) -> Option<int> {
        self.holding_from(proto, port, 0)
    }

    /// The first free port of the pool, from step `i` of the walk on.
    pub open spec fn first_free(self, proto: MapProto, i: int) -> Option<int>
        decreases pool_size() - i,
    {
        if i < 0 || i >= pool_size() {
            None
        } else if self.holding(proto, pool_port(self.start(), i)) is None {
            Some(pool_port(self.start(), i))
        } else {
            self.first_free(proto, i + 1)
        }
    }

    /// The port that a walk starts at.
    pub open spec fn start(self) -> int {
        if self.cursor < EXTERNAL_PORT_LOW {
            EXTERNAL_PORT_LOW as int
        } else {
            self.cursor
        }
    }

    /// No external slot and no internal socket occurs twice, and no port is 0.
    pub open spec fn wf(self) -> bool {
        &&& 0 <= self.cursor <= EXTERNAL_PORT_HIGH
        &&& forall|i: int|
            0 <= i < self.entries.len() ==> (#[trigger] self.entries[i]).external_port != 0
                && self.entries[i].internal_port != 0
        &&& forall|i: int, j: int|
            0 <= i < j < self.entries.len() ==> !(#[trigger] self.entries[i]).holds(
                (#[trigger] self.entries[j]).proto,
                self.entries[j].external_port as int,
            )
        &&& forall|i: int, j: int|
            0 <= i < j < self.entries.len() ==> !(#[trigger] self.entries[i]).serves(
                (#[trigger] self.entries[j]).proto,
                self.entries[j].internal_ip,
                self.entries[j].internal_port,
            )
    }

    /// The registry with a mapping added.
    pub open spec fn with(self, m: Mapping) -> RegistryView {
        RegistryView { entries: self.entries.push(m), cursor: self.cursor }
    }

    /// The registry without the mapping at `i`.
    pub open spec fn without(self, i: int) -> RegistryView {
        RegistryView { entries: self.entries.remove(i), cursor: self.cursor }
    }

    /// What an allocation does and returns.
    ///
    /// The mapping of the same internal socket is renewed, whatever port is
    /// asked for. Otherwise the port asked for is granted if it is free.
    /// Without a wish, the first free port of the pool from the cursor on is
    /// granted and the cursor moves behind it.
    pub open spec fn allocate(
        self,
        proto: MapProto,
        ip: Ipv4Addr,
        port: u16,
        preferred: Option<u16>,
        deadline: u64,
        nonce: Option<[u8; 12]>,
    ) -> (RegistryView, AllocOutcome) {
        let fresh = |ext: int|
            Mapping {
                proto,
                external_port: ext as u16,
                internal_ip: ip,
                internal_port: port,
                deadline,
                pcp_nonce: nonce,
            };
        match self.serving(proto, ip, port) {
            Some(i) => {
                let old_nonce = self.entries[i].pcp_nonce;
                let m = Mapping {
                    deadline,
                    pcp_nonce: if nonce is Some {
                        nonce
                    } else {
                        old_nonce
                    },
                    ..self.entries[i]
                };
                (
                    RegistryView { entries: self.entries.update(i, m), cursor: self.cursor },
                    AllocOutcome::Renewed(m),
                )
            },
            None => match preferred {
                Some(p) => if self.holding(proto, p as int) is Some {
                    (self, AllocOutcome::Conflict)
                } else {
                    (self.with(fresh(p as int)), AllocOutcome::Created(fresh(p as int)))
                },
                None => match self.first_free(proto, 0) {
                    Some(p) => (
                        RegistryView {
                            entries: self.entries.push(fresh(p)),
                            cursor: next_port(p),
                        },
                        AllocOutcome::Created(fresh(p)),
                    ),
                    None => (self, AllocOutcome::NoPortsAvailable),
                },
            },
        }
    }
}

impl RegistryView {
    /// Both registries hold the same mappings of all hosts but one.
    pub open spec fn same_but_for(self, after: RegistryView, ip: Ipv4Addr) -> bool {
        forall|m: Mapping|
            #![trigger self.entries.contains(m)]
            #![trigger after.entries.contains(m)]
            m.internal_ip != ip ==> self.entries.contains(m) == after.entries.contains(m)
    }
}

/// An allocation leaves the mappings of other hosts alone.
pub proof fn allocating_spares_others(
    r: RegistryView,
    proto: MapProto,
    ip: Ipv4Addr,
    port: u16,
    wish: Option<u16>,
    deadline: u64,
    nonce: Option<[u8; 12]>,
)
    ensures
        r.same_but_for(r.allocate(proto, ip, port, wish, deadline, nonce).0, ip),
{
    let after = r.allocate(proto, ip, port, wish, deadline, nonce).0;
    serving_is_exact(r, proto, ip, port, 0);
    let at = match r.serving(proto, ip, port) {
        Some(k) => k,
        None => r.entries.len() as int,
    };
    assert(forall|i: int|
        0 <= i < r.entries.len() && i != at ==> i < after.entries.len() && #[trigger] r.entries[i]
            == after.entries[i]);
    assert forall|m: Mapping| m.internal_ip != ip implies r.entries.contains(m)
        == after.entries.contains(m) by {
        if r.entries.contains(m) {
            let i = r.entries.index_of(m);
            assert(after.entries[i] == m);
        }
        if after.entries.contains(m) {
            let i = after.entries.index_of(m);
            assert(r.entries[i] == m);
        }
    }
}

/// Taking out a mapping of a host leaves the mappings of other hosts alone.
pub proof fn removing_spares_others(r: RegistryView, i: int)
    requires
        0 <= i < r.entries.len(),
    ensures
        r.same_but_for(r.without(i), r.entries[i].internal_ip),
{
    let after = r.without(i);
    assert forall|m: Mapping| m.internal_ip != r.entries[i].internal_ip implies r.entries.contains(
        m,
    ) == after.entries.contains(m) by {
        if r.entries.contains(m) {
            let k = r.entries.index_of(m);
            assert(after.entries[if k < i { k } else { k - 1 }] == m);
        }
        if after.entries.contains(m) {
            let k = after.entries.index_of(m);
            assert(r.entries[if k < i { k } else { k + 1 }] == m);
        }
    }
}

/// `serving` gives the one mapping of an internal socket, or there is none.
pub proof fn serving_is_exact(r: RegistryView, proto: MapProto, ip: Ipv4Addr, port: u16, i: int)
    requires
        0 <= i,
    ensures
        match r.serving_from(proto, ip, port, i) {
            Some(k) => i <= k < r.entries.len() && r.entries[k].serves(proto, ip, port)
                && forall|j: int|
                i <= j < k ==> !(#[trigger] r.entries[j]).serves(proto, ip, port),
            None => forall|j: int|
                i <= j < r.entries.len() ==> !(#[trigger] r.entries[j]).serves(proto, ip, port),
        },
    decreases r.entries.len() - i,
{
    if i < r.entries.len() && !r.entries[i].serves(proto, ip, port) {
        serving_is_exact(r, proto, ip, port, i + 1);
    }
}

/// `holding` gives the one mapping of an external slot, or there is none.
pub proof fn holding_is_exact(r: RegistryView, proto: MapProto, port: int, i: int)
    requires
        0 <= i,
    ensures
        match r.holding_from(proto, port, i) {
            Some(k) => i <= k < r.entries.len() && r.entries[k].holds(proto, port) && forall|
                j: int,
            |
                i <= j < k ==> !(#[trigger] r.entries[j]).holds(proto, port),
            None => forall|j: int|
                i <= j < r.entries.len() ==> !(#[trigger] r.entries[j]).holds(proto, port),
        },
    decreases r.entries.len() - i,
{
    if i < r.entries.len() && !r.entries[i].holds(proto, port) {
        holding_is_exact(r, proto, port, i + 1);
    }
}

/// A free port lies in the pool and no mapping holds it.
pub proof fn first_free_is_free(r: RegistryView, proto: MapProto, i: int)
    requires
        0 <= i,
    ensures
        match r.first_free(proto, i) {
            Some(p) => EXTERNAL_PORT_LOW <= p <= EXTERNAL_PORT_HIGH && r.holding(proto, p) is None,
            None => forall|j: int|
                i <= j < pool_size() ==> r.holding(proto, #[trigger] pool_port(r.start(), j))
                    is Some,
        },
    decreases pool_size() - i,
{
    if i < pool_size() && r.holding(proto, pool_port(r.start(), i)) is Some {
        first_free_is_free(r, proto, i + 1);
    }
}

/// An allocation keeps every mapping unique.
pub proof fn allocate_keeps_wf(
    r: RegistryView,
    proto: MapProto,
    ip: Ipv4Addr,
    port: u16,
    preferred: Option<u16>,
    deadline: u64,
    nonce: Option<[u8; 12]>,
)
    requires
        r.wf(),
        port != 0,
        preferred != Some(0u16),
    ensures
        r.allocate(proto, ip, port, preferred, deadline, nonce).0.wf(),
{
    serving_is_exact(r, proto, ip, port, 0);
    if preferred is Some {
        holding_is_exact(r, proto, preferred->0 as int, 0);
    }
    first_free_is_free(r, proto, 0);
    if r.first_free(proto, 0) is Some {
        holding_is_exact(r, proto, r.first_free(proto, 0)->0, 0);
    }
}

/// Asking again for the same internal socket gives the same external port and
/// adds no mapping, whichever port is asked for.
pub proof fn allocating_again_renews(
    r: RegistryView,
    proto: MapProto,
    ip: Ipv4Addr,
    port: u16,
    wish: Option<u16>,
    deadline: u64,
    nonce: Option<[u8; 12]>,
    wish2: Option<u16>,
    deadline2: u64,
    nonce2: Option<[u8; 12]>,
)
    requires
        r.wf(),
        port != 0,
        wish != Some(0u16),
        r.allocate(proto, ip, port, wish, deadline, nonce).1 is Created || r.allocate(
            proto,
            ip,
            port,
            wish,
            deadline,
            nonce,
        ).1 is Renewed,
    ensures
        ({
            let (r1, first) = r.allocate(proto, ip, port, wish, deadline, nonce);
            let (r2, second) = r1.allocate(proto, ip, port, wish2, deadline2, nonce2);
            let port1 = match first {
                AllocOutcome::Created(m) => m.external_port,
                AllocOutcome::Renewed(m) => m.external_port,
                _ => 0u16,
            };
            &&& second is Renewed
            &&& second->Renewed_0.external_port == port1
            &&& r2.entries.len() == r1.entries.len()
        }),
{
    let (r1, first) = r.allocate(proto, ip, port, wish, deadline, nonce);
    allocate_keeps_wf(r, proto, ip, port, wish, deadline, nonce);
    serving_is_exact(r, proto, ip, port, 0);
    serving_is_exact(r1, proto, ip, port, 0);
    let k = match r.serving(proto, ip, port) {
        Some(i) => i,
        None => r.entries.len() as int,
    };
    assert(r1.entries[k].serves(proto, ip, port));
    let k2 = r1.serving(proto, ip, port)->0;
    if k2 < k {
        assert(!r1.entries[k2].serves(
            r1.entries[k].proto,
            r1.entries[k].internal_ip,
            r1.entries[k].internal_port,
        ));
    }
}

/// A port that another client holds is never handed out: the request is
/// refused and the registry stays as it is.
pub proof fn held_port_conflicts(
    r: RegistryView,
    proto: MapProto,
    ip: Ipv4Addr,
    port: u16,
    wish: u16,
    deadline: u64,
    nonce: Option<[u8; 12]>,
)
    requires
        r.serving(proto, ip, port) is None,
        exists|i: int| 0 <= i < r.entries.len() && (#[trigger] r.entries[i]).holds(
            proto,
            wish as int,
        ),
    ensures
        r.allocate(proto, ip, port, Some(wish), deadline, nonce) == (r, AllocOutcome::Conflict),
{
    holding_is_exact(r, proto, wish as int, 0);
}

/// Removing the mapping that an allocation added restores the mappings.
pub proof fn removing_undoes_creating(
    r: RegistryView,
    proto: MapProto,
    ip: Ipv4Addr,
    port: u16,
    wish: Option<u16>,
    deadline: u64,
    nonce: Option<[u8; 12]>,
)
    requires
        r.wf(),
        port != 0,
        wish != Some(0u16),
        r.allocate(proto, ip, port, wish, deadline, nonce).1 is Created,
    ensures
        ({
            let (r1, out) = r.allocate(proto, ip, port, wish, deadline, nonce);
            let m = out->Created_0;
            &&& r1.holding(proto, m.external_port as int) == Some(r.entries.len() as int)
            &&& r1.serving(proto, ip, port) == Some(r.entries.len() as int)
            &&& r1.without(r.entries.len() as int).entries == r.entries
        }),
{
    let (r1, out) = r.allocate(proto, ip, port, wish, deadline, nonce);
    let m = out->Created_0;
    let n = r.entries.len() as int;
    allocate_keeps_wf(r, proto, ip, port, wish, deadline, nonce);
    serving_is_exact(r, proto, ip, port, 0);
    first_free_is_free(r, proto, 0);
    assert(r1.entries[n] == m);
    serving_is_exact(r1, proto, ip, port, 0);
    holding_is_exact(r1, proto, m.external_port as int, 0);
    let a = r1.serving(proto, ip, port)->0;
    let b = r1.holding(proto, m.external_port as int)->0;
    if a < n {
        assert(!r1.entries[a].serves(
            r1.entries[n].proto,
            r1.entries[n].internal_ip,
            r1.entries[n].internal_port,
        ));
    }
    if b < n {
        assert(!r1.entries[b].holds(r1.entries[n].proto, r1.entries[n].external_port as int));
    }
    assert(r1.entries.remove(n) =~= r.entries);
}

/// The mappings that have not expired at `now`.
pub open spec fn alive(entries: Seq<Mapping>, now: u64) -> Seq<Mapping> {
    entries.filter(|m: Mapping| m.deadline > now)
}

/// The mappings that have expired at `now`.
pub open spec fn expired(entries: Seq<Mapping>, now: u64) -> Seq<Mapping> {
    entries.filter(|m: Mapping| m.deadline <= now)
}

/// Every kept mapping has its place among all of them, in the same order.
proof fn filter_keeps_order(s: Seq<Mapping>, p: spec_fn(Mapping) -> bool) -> (f: spec_fn(
    int,
) -> int)
    ensures
        forall|i: int|
            0 <= i < s.filter(p).len() ==> 0 <= #[trigger] f(i) < s.len() && s.filter(p)[i]
                == s[f(i)],
        forall|i: int, j: int|
            0 <= i < j < s.filter(p).len() ==> #[trigger] f(i) < #[trigger] f(j),
    decreases s.len(),
{
    reveal(Seq::filter);
    if s.len() == 0 {
        |i: int| i
    } else {
        let g = filter_keeps_order(s.drop_last(), p);
        let n = s.drop_last().filter(p).len() as int;
        let f = |i: int|
            if i < n {
                g(i)
            } else {
                s.len() - 1
            };
        assert forall|i: int| 0 <= i < s.filter(p).len() implies 0 <= #[trigger] f(i) < s.len()
            && s.filter(p)[i] == s[f(i)] by {
            if i < n {
                assert(0 <= g(i) < s.drop_last().len());
            }
        }
        assert forall|i: int, j: int| 0 <= i < j < s.filter(p).len() implies #[trigger] f(i)
            < #[trigger] f(j) by {
            if j < n {
                assert(g(i) < g(j));
            } else {
                assert(0 <= g(i) < s.drop_last().len());
            }
        }
        f
    }
}

/// Dropping mappings keeps the rest unique.
proof fn filter_keeps_wf(r: RegistryView, p: spec_fn(Mapping) -> bool)
    requires
        r.wf(),
    ensures
        (RegistryView { entries: r.entries.filter(p), cursor: r.cursor }).wf(),
{
    let f = filter_keeps_order(r.entries, p);
    let e = r.entries.filter(p);
    assert forall|i: int| 0 <= i < e.len() implies (#[trigger] e[i]).external_port != 0
        && e[i].internal_port != 0 by {
        assert(e[i] == r.entries[f(i)]);
    }
    assert forall|i: int, j: int| 0 <= i < j < e.len() implies !(#[trigger] e[i]).holds(
        (#[trigger] e[j]).proto,
        e[j].external_port as int,
    ) && !e[i].serves(e[j].proto, e[j].internal_ip, e[j].internal_port) by {
        assert(f(i) < f(j));
        assert(e[i] == r.entries[f(i)] && e[j] == r.entries[f(j)]);
    }
}

impl View for PortmapRegistry {
    type V = RegistryView;

    closed spec fn view(&self) -> RegistryView {
        RegistryView { entries: self.entries@, cursor: self.cursor as int }
    }
}

impl PortmapRegistry {
    /// No external slot and no internal socket occurs twice.
    pub open spec fn wf(self) -> bool {
        self@.wf()
    }

    /// Creates an empty registry.
    pub fn new() -> (r: PortmapRegistry)
        ensures
            r.wf(),
            r@.entries == Seq::<Mapping>::empty(),
            r@.cursor == EXTERNAL_PORT_LOW,
    {
        PortmapRegistry { entries: Vec::new(), cursor: EXTERNAL_PORT_LOW }
    }

    /// Returns the current mapping count.
    pub fn len(&self) -> (r: usize)
        ensures
            r == self@.entries.len(),
    {
        self.entries.len()
    }

    /// The mappings, in the order they were made.
    pub fn iter(&self) -> (r: Vec<Mapping>)
        ensures
            r@ == self@.entries,
    {
        let mut out: Vec<Mapping> = Vec::new();
        let mut i: usize = 0;
        while i < self.entries.len()
            invariant
                i <= self.entries.len(),
                out@ == self.entries@.take(i as int),
            decreases self.entries.len() - i,
        {
            out.push(self.entries[i]);
            assert(out@ =~= self.entries@.take(i as int + 1));
            i += 1;
        }
        assert(out@ =~= self.entries@);
        out
    }

    fn find_serving(&self, proto: MapProto, ip: Ipv4Addr, port: u16) -> (r: Option<usize>)
        ensures
            match r {
                Some(i) => self@.serving(proto, ip, port) == Some(i as int) && i
                    < self.entries.len(),
                None => self@.serving(proto, ip, port) is None,
            },
    {
        let mut i: usize = 0;
        while i < self.entries.len()
            invariant
                i <= self.entries.len(),
                self@.serving(proto, ip, port) == self@.serving_from(proto, ip, port, i as int),
            decreases self.entries.len() - i,
        {
            let m = self.entries[i];
            if m.proto == proto && m.internal_ip == ip && m.internal_port == port {
                return Some(i);
            }
            i += 1;
        }
        None
    }

    fn find_holding(&self, proto: MapProto, port: u16) -> (r: Option<usize>)
        ensures
            match r {
                Some(i) => self@.holding(proto, port as int) == Some(i as int) && i
                    < self.entries.len(),
                None => self@.holding(proto, port as int) is None,
            },
    {
        let mut i: usize = 0;
        while i < self.entries.len()
            invariant
                i <= self.entries.len(),
                self@.holding(proto, port as int) == self@.holding_from(
                    proto,
                    port as int,
                    i as int,
                ),
            decreases self.entries.len() - i,
        {
            let m = self.entries[i];
            if m.proto == proto && m.external_port == port {
                return Some(i);
            }
            i += 1;
        }
        None
    }

    /// Looks up a mapping by its external slot.
    pub fn get(&self, key: MappingKey) -> (r: Option<Mapping>)
        ensures
            match self@.holding(key.proto, key.external_port as int) {
                Some(i) => r == Some(self@.entries[i]),
                None => r is None,
            },
    {
        match self.find_holding(key.proto, key.external_port) {
            Some(i) => Some(self.entries[i]),
            None => None,
        }
    }

    /// Looks up a mapping by its internal socket.
    pub fn get_by_internal(&self, proto: MapProto, ip: Ipv4Addr, port: u16) -> (r: Option<Mapping>)
        ensures
            match self@.serving(proto, ip, port) {
                Some(i) => r == Some(self@.entries[i]),
                None => r is None,
            },
    {
        match self.find_serving(proto, ip, port) {
            Some(i) => Some(self.entries[i]),
            None => None,
        }
    }

    /// Requests a mapping for `(internal_ip, internal_port, proto)`.
    ///
    /// `preferred_external` is the client's wish: `Some(p)` asks for a specific
    /// port, `None` lets the server pick any. The mapping expires `lifetime`
    /// milliseconds after `now`.
    pub fn allocate(
        &mut self,
        proto: MapProto,
        internal_ip: Ipv4Addr,
        internal_port: u16,
        preferred_external: Option<u16>,
        now: u64,
        lifetime: u64,
        pcp_nonce: Option<[u8; 12]>,
    ) -> (r: AllocOutcome)
        requires
            old(self).wf(),
            internal_port != 0,
            preferred_external != Some(0u16),
            now + lifetime <= u64::MAX,
        ensures
            final(self).wf(),
            (final(self)@, r) == old(self)@.allocate(
                proto,
                internal_ip,
                internal_port,
                preferred_external,
                (now + lifetime) as u64,
                pcp_nonce,
            ),
            match r {
                AllocOutcome::Created(m) => m.deadline == now + lifetime,
                AllocOutcome::Renewed(m) => m.deadline == now + lifetime,
                _ => true,
            },
    {
        let deadline: u64 = now + lifetime;
        let ghost before = self@;
        proof {
            allocate_keeps_wf(
                before,
                proto,
                internal_ip,
                internal_port,
                preferred_external,
                deadline,
                pcp_nonce,
            );
        }
        if let Some(i) = self.find_serving(proto, internal_ip, internal_port) {
            let mut m = self.entries[i];
            m.deadline = deadline;
            if pcp_nonce.is_some() {
                m.pcp_nonce = pcp_nonce;
            }
            self.entries.set(i, m);
            return AllocOutcome::Renewed(m);
        }
        let mut m = Mapping {
            proto,
            external_port: 0,
            internal_ip,
            internal_port,
            deadline,
            pcp_nonce,
        };
        if let Some(ext) = preferred_external {
            if self.find_holding(proto, ext).is_some() {
                return AllocOutcome::Conflict;
            }
            m.external_port = ext;
            self.entries.push(m);
            return AllocOutcome::Created(m);
        }
        let start: u16 = if self.cursor < EXTERNAL_PORT_LOW {
            EXTERNAL_PORT_LOW
        } else {
            self.cursor
        };
        let span: u32 = (EXTERNAL_PORT_HIGH - EXTERNAL_PORT_LOW + 1) as u32;
        let mut i: u32 = 0;
        while i < span
            invariant
                before.wf(),
                self@ == before,
                start as int == before.start(),
                span as int == pool_size(),
                i <= span,
                before.first_free(proto, 0) == before.first_free(proto, i as int),
                before.serving(proto, internal_ip, internal_port) is None,
                preferred_external is None,
                m == (Mapping {
                    proto,
                    external_port: 0,
                    internal_ip,
                    internal_port,
                    deadline,
                    pcp_nonce,
                }),
                deadline == now + lifetime,
                before == old(self)@,
                before.allocate(
                    proto,
                    internal_ip,
                    internal_port,
                    preferred_external,
                    deadline,
                    pcp_nonce,
                ).0.wf(),
            decreases span - i,
        {
            let raw: u16 = EXTERNAL_PORT_LOW + ((start as u32 - EXTERNAL_PORT_LOW as u32 + i)
                % span) as u16;
            assert(raw as int == pool_port(before.start(), i as int));
            if self.find_holding(proto, raw).is_none() {
                self.cursor = if raw >= EXTERNAL_PORT_HIGH {
                    EXTERNAL_PORT_LOW
                } else {
                    raw + 1
                };
                m.external_port = raw;
                self.entries.push(m);
                return AllocOutcome::Created(m);
            }
            i += 1;
        }
        AllocOutcome::NoPortsAvailable
    }

    /// Removes a mapping by external key and returns it, or `None` if there was
    /// none.
    pub fn remove(&mut self, key: MappingKey) -> (r: Option<Mapping>)
        requires
            old(self).wf(),
        ensures
            final(self).wf(),
            match old(self)@.holding(key.proto, key.external_port as int) {
                Some(i) => r == Some(old(self)@.entries[i]) && final(self)@ == old(self)@.without(
                    i,
                ),
                None => r is None && final(self)@ == old(self)@,
            },
    {
        match self.find_holding(key.proto, key.external_port) {
            Some(i) => Some(self.entries.remove(i)),
            None => None,
        }
    }

    /// Removes the mapping of an internal socket and returns it, or `None` if
    /// there was none.
    pub fn remove_by_internal(
        &mut self,
        proto: MapProto,
        internal_ip: Ipv4Addr,
        internal_port: u16,
    ) -> (r: Option<Mapping>)
        requires
            old(self).wf(),
        ensures
            final(self).wf(),
            match old(self)@.serving(proto, internal_ip, internal_port) {
                Some(i) => r == Some(old(self)@.entries[i]) && final(self)@ == old(self)@.without(
                    i,
                ),
                None => r is None && final(self)@ == old(self)@,
            },
    {
        match self.find_serving(proto, internal_ip, internal_port) {
            Some(i) => Some(self.entries.remove(i)),
            None => None,
        }
    }

    /// Removes and returns every mapping whose deadline is at or before `now`.
    pub fn reap_expired(&mut self, now: u64) -> (r: Vec<Mapping>)
        requires
            old(self).wf(),
        ensures
            final(self).wf(),
            final(self)@.entries == alive(old(self)@.entries, now),
            final(self)@.cursor == old(self)@.cursor,
            r@ == expired(old(self)@.entries, now),
    {
        let ghost all = self.entries@;
        let mut kept: Vec<Mapping> = Vec::new();
        let mut gone: Vec<Mapping> = Vec::new();
        let mut i: usize = 0;
        proof {
            reveal(Seq::filter);
        }
        while i < self.entries.len()
            invariant
                i <= self.entries.len(),
                self.entries@ == all,
                self@ == old(self)@,
                kept@ == alive(all.take(i as int), now),
                gone@ == expired(all.take(i as int), now),
            decreases self.entries.len() - i,
        {
            let m = self.entries[i];
            proof {
                reveal(Seq::filter);
                assert(all.take(i as int + 1).drop_last() =~= all.take(i as int));
            }
            if m.deadline <= now {
                gone.push(m);
            } else {
                kept.push(m);
            }
            i += 1;
        }
        proof {
            assert(all.take(all.len() as int) =~= all);
            filter_keeps_wf(self@, |m: Mapping| m.deadline > now);
        }
        self.entries = kept;
        gone
    }

    /// Removes every mapping and returns them.
    pub fn drain(&mut self) -> (r: Vec<Mapping>)
        requires
            old(self).wf(),
        ensures
            final(self).wf(),
            final(self)@.entries == Seq::<Mapping>::empty(),
            final(self)@.cursor == old(self)@.cursor,
            r@ == old(self)@.entries,
    {
        let all = self.iter();
        self.entries.clear();
        all
    }
}

} // verus!
