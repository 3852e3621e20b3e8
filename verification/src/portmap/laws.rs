//! What the port mapping registry promises its clients.
use vstd::prelude::*;

use crate::addr::Ipv4Addr;
use crate::portmap::registry::{
    alive, expired, first_free_is_free, holding_is_exact, pool_port, pool_size, serving_is_exact,
    AllocOutcome, MapProto, Mapping, RegistryView,
};

verus! {

/// The mapping that an allocation granted, new or renewed.
pub open spec fn granted(out: AllocOutcome) -> Option<Mapping> {
    match out {
        AllocOutcome::Created(m) => Some(m),
        AllocOutcome::Renewed(m) => Some(m),
        _ => None,
    }
}

/// A mapping that an allocation granted is the client's, is the one that the
/// registry then holds for the client's socket, and expires exactly `lifetime`
/// after `now`: it is alive at every moment before that, and at none after.
pub proof fn granted_mapping_lives_for_its_lifetime(
    r: RegistryView,
    proto: MapProto,
    ip: Ipv4Addr,
    port: u16,
    wish: Option<u16>,
    now: u64,
    lifetime: u64,
    nonce: Option<[u8; 12]>,
    then: u64,
)
    requires
        r.wf(),
        now + lifetime <= u64::MAX,
        granted(r.allocate(proto, ip, port, wish, (now + lifetime) as u64, nonce).1) is Some,
    ensures
        ({
            let (after, out) = r.allocate(proto, ip, port, wish, (now + lifetime) as u64, nonce);
            let m = granted(out)->0;
            &&& m.proto == proto && m.internal_ip == ip && m.internal_port == port
            &&& m.deadline == now + lifetime
            &&& after.entries.contains(m)
            &&& forall|x: Mapping| #[trigger]
                after.entries.contains(x) && x.proto == proto && x.internal_ip == ip
                    && x.internal_port == port ==> x == m
            &&& then < now + lifetime ==> alive(after.entries, then).contains(m) && !expired(
                after.entries,
                then,
            ).contains(m)
            &&& then >= now + lifetime ==> expired(after.entries, then).contains(m) && !alive(
                after.entries,
                then,
            ).contains(m)
        }),
{
    let deadline = (now + lifetime) as u64;
    let (after, out) = r.allocate(proto, ip, port, wish, deadline, nonce);
    let m = granted(out)->0;
    serving_is_exact(r, proto, ip, port, 0);
    let k = match r.serving(proto, ip, port) {
        Some(i) => i,
        None => r.entries.len() as int,
    };
    assert(after.entries[k] == m);
    assert(forall|i: int| 0 <= i < r.entries.len() && i != k ==> after.entries[i] == #[trigger] r.entries[i]);
    assert forall|x: Mapping| #[trigger]
        after.entries.contains(x) && x.proto == proto && x.internal_ip == ip && x.internal_port
            == port implies x == m by {
        let i = after.entries.index_of(x);
        if i < k {
            assert(r.entries[i] == x);
            assert(!r.entries[i].serves(proto, ip, port));
        } else if i > k {
            assert(r.entries[i] == x);
            assert(!r.entries[k].serves(r.entries[i].proto, r.entries[i].internal_ip, r.entries[i].internal_port));
        }
    }
    expiry_splits(after.entries, then, m);
}

/// At any moment every mapping is either alive or expired: alive where its
/// deadline is still to come. Nothing else is either.
pub proof fn expiry_splits(entries: Seq<Mapping>, now: u64, m: Mapping)
    ensures
        alive(entries, now).contains(m) == (entries.contains(m) && now < m.deadline),
        expired(entries, now).contains(m) == (entries.contains(m) && m.deadline <= now),
        alive(entries, now).len() + expired(entries, now).len() == entries.len(),
    decreases entries.len(),
{
    reveal(Seq::filter);
    if entries.len() > 0 {
        let front = entries.drop_last();
        let last = entries.last();
        expiry_splits(front, now, m);
        assert(entries =~= front.push(last));
        let (a, b) = (alive(front, now), expired(front, now));
        pushed_is_there(front, last, m);
        pushed_is_there(a, last, m);
        pushed_is_there(b, last, m);
        assert(alive(entries, now) == (if last.deadline > now {
            a.push(last)
        } else {
            a
        }));
        assert(expired(entries, now) == (if last.deadline <= now {
            b.push(last)
        } else {
            b
        }));
    }
}

proof fn pushed_is_there(s: Seq<Mapping>, x: Mapping, m: Mapping)
    ensures
        s.push(x).contains(m) == (s.contains(m) || m == x),
{
    let t = s.push(x);
    assert(t[s.len() as int] == x);
    if s.contains(m) {
        assert(t[s.index_of(m)] == m);
    }
    if t.contains(m) && m != x {
        assert(s[t.index_of(m)] == m);
    }
}

/// A new mapping holds the port that was asked for, or one of the pool, which no
/// mapping of that protocol held before. It carries the client's nonce.
pub proof fn created_mapping_gets_a_free_port(
    r: RegistryView,
    proto: MapProto,
    ip: Ipv4Addr,
    port: u16,
    wish: Option<u16>,
    deadline: u64,
    nonce: Option<[u8; 12]>,
)
    requires
        r.allocate(proto, ip, port, wish, deadline, nonce).1 is Created,
    ensures
        ({
            let m = r.allocate(proto, ip, port, wish, deadline, nonce).1->Created_0;
            &&& wish is Some ==> m.external_port == wish->0
            &&& wish is None ==> 1024 <= m.external_port <= 32767
            &&& m.pcp_nonce == nonce
            &&& forall|x: Mapping| #[trigger]
                r.entries.contains(x) ==> !(x.proto == proto && x.external_port
                    == m.external_port) && !(x.proto == proto && x.internal_ip == ip
                    && x.internal_port == port)
        }),
{
    let m = r.allocate(proto, ip, port, wish, deadline, nonce).1->Created_0;
    serving_is_exact(r, proto, ip, port, 0);
    first_free_is_free(r, proto, 0);
    holding_is_exact(r, proto, m.external_port as int, 0);
    assert forall|x: Mapping| #[trigger] r.entries.contains(x) implies !(x.proto == proto
        && x.external_port == m.external_port) && !(x.proto == proto && x.internal_ip == ip
        && x.internal_port == port) by {
        let i = r.entries.index_of(x);
        assert(!r.entries[i].holds(proto, m.external_port as int));
        assert(!r.entries[i].serves(proto, ip, port));
    }
}

/// A socket that has a mapping keeps its port when it asks again, and its nonce
/// unless it sends another.
pub proof fn renewed_mapping_keeps_its_port(
    r: RegistryView,
    proto: MapProto,
    ip: Ipv4Addr,
    port: u16,
    wish: Option<u16>,
    deadline: u64,
    nonce: Option<[u8; 12]>,
    m: Mapping,
)
    requires
        r.wf(),
        r.entries.contains(m),
        m.proto == proto,
        m.internal_ip == ip,
        m.internal_port == port,
    ensures
        ({
            let out = r.allocate(proto, ip, port, wish, deadline, nonce).1;
            &&& out is Renewed
            &&& out->Renewed_0.external_port == m.external_port
            &&& out->Renewed_0.pcp_nonce == (if nonce is Some {
                nonce
            } else {
                m.pcp_nonce
            })
        }),
{
    serving_is_exact(r, proto, ip, port, 0);
    let i = r.entries.index_of(m);
    assert(r.entries[i].serves(proto, ip, port));
    let k = r.serving(proto, ip, port)->0;
    if k < i {
        assert(!r.entries[k].serves(r.entries[i].proto, r.entries[i].internal_ip, r.entries[i].internal_port));
    }
}

proof fn walk_reaches_every_port(start: int, p: int) -> (i: int)
    requires
        1024 <= start <= 32767,
        1024 <= p <= 32767,
    ensures
        0 <= i < pool_size(),
        pool_port(start, i) == p,
{
    walk_wraps_at_the_end(start, p - start);
    walk_wraps_at_the_end(start, p - start + 31744);
    if p >= start {
        p - start
    } else {
        p - start + 31744
    }
}

proof fn walk_wraps_at_the_end(start: int, i: int)
    requires
        1024 <= start <= 32767,
    ensures
        pool_size() == 31744,
        0 <= i && start + i <= 32767 ==> pool_port(start, i) == start + i,
        32767 < start + i < 32768 + 31744 ==> pool_port(start, i) == start + i - 31744,
{
    assert(pool_size() == 31744);
    let x = start - 1024 + i;
    assert(pool_port(start, i) == 1024 + x % 31744);
}

/// A socket without a mapping gets one: on the port that it asks for where no
/// mapping of that protocol holds it, and otherwise nothing; on some port of the
/// pool where it asks for none and one of the pool is free, and otherwise
/// nothing. A request that gets nothing changes nothing.
pub proof fn new_sockets_are_served_while_ports_last(
    r: RegistryView,
    proto: MapProto,
    ip: Ipv4Addr,
    port: u16,
    wish: Option<u16>,
    deadline: u64,
    nonce: Option<[u8; 12]>,
    free: u16,
)
    requires
        r.wf(),
        forall|x: Mapping| #[trigger]
            r.entries.contains(x) ==> !(x.proto == proto && x.internal_ip == ip && x.internal_port
                == port),
    ensures
        ({
            let (after, out) = r.allocate(proto, ip, port, wish, deadline, nonce);
            let held = exists|x: Mapping| #[trigger]
                r.entries.contains(x) && x.proto == proto && x.external_port == free;
            &&& wish == Some(free) && !held ==> out is Created
            &&& wish == Some(free) && held ==> out is Conflict
            &&& wish is None && 1024 <= free <= 32767 && !held ==> out is Created
            &&& wish is None && out is NoPortsAvailable && 1024 <= free <= 32767 ==> held
            &&& out is Created || (after == r && (out is Conflict || out is NoPortsAvailable))
        }),
{
    let (after, out) = r.allocate(proto, ip, port, wish, deadline, nonce);
    serving_is_exact(r, proto, ip, port, 0);
    assert(r.serving(proto, ip, port) is None) by {
        if r.serving(proto, ip, port) is Some {
            let k = r.serving(proto, ip, port)->0;
            assert(r.entries.contains(r.entries[k]));
        }
    }
    holding_is_exact(r, proto, free as int, 0);
    let held = exists|x: Mapping| #[trigger]
        r.entries.contains(x) && x.proto == proto && x.external_port == free;
    assert(held == (r.holding(proto, free as int) is Some)) by {
        if r.holding(proto, free as int) is Some {
            let k = r.holding(proto, free as int)->0;
            assert(r.entries.contains(r.entries[k]));
        } else if held {
            let x = choose|x: Mapping| #[trigger]
                r.entries.contains(x) && x.proto == proto && x.external_port == free;
            assert(!r.entries[r.entries.index_of(x)].holds(proto, free as int));
        }
    }
    first_free_is_free(r, proto, 0);
    if 1024 <= free <= 32767 {
        let i = walk_reaches_every_port(r.start(), free as int);
        assert(pool_port(r.start(), i) == free);
    }
}

/// Two allocations that each got a new mapping for different sockets hold
/// different external ports of a protocol.
pub proof fn external_ports_are_not_shared(r: RegistryView, a: Mapping, b: Mapping)
    requires
        r.wf(),
        r.entries.contains(a),
        r.entries.contains(b),
        a.proto == b.proto,
        a.external_port == b.external_port || (a.internal_ip == b.internal_ip && a.internal_port
            == b.internal_port),
    ensures
        a == b,
{
    let i = r.entries.index_of(a);
    let j = r.entries.index_of(b);
    if i < j {
        assert(!r.entries[i].holds(r.entries[j].proto, r.entries[j].external_port as int));
        assert(!r.entries[i].serves(r.entries[j].proto, r.entries[j].internal_ip, r.entries[j].internal_port));
    } else if j < i {
        assert(!r.entries[j].holds(r.entries[i].proto, r.entries[i].external_port as int));
        assert(!r.entries[j].serves(r.entries[i].proto, r.entries[i].internal_ip, r.entries[i].internal_port));
    }
}

/// A lookup by external port finds the mapping that holds it, and a lookup by
/// internal socket the one that belongs to it, wherever there is one.
pub proof fn lookups_find_the_mapping(r: RegistryView, m: Mapping)
    requires
        r.wf(),
        r.entries.contains(m),
    ensures
        r.holding(m.proto, m.external_port as int) is Some,
        r.entries[r.holding(m.proto, m.external_port as int)->0] == m,
        r.serving(m.proto, m.internal_ip, m.internal_port) is Some,
        r.entries[r.serving(m.proto, m.internal_ip, m.internal_port)->0] == m,
{
    let i = r.entries.index_of(m);
    holding_is_exact(r, m.proto, m.external_port as int, 0);
    serving_is_exact(r, m.proto, m.internal_ip, m.internal_port, 0);
    assert(r.entries[i].holds(m.proto, m.external_port as int));
    assert(r.entries[i].serves(m.proto, m.internal_ip, m.internal_port));
    let a = r.entries[r.holding(m.proto, m.external_port as int)->0];
    let b = r.entries[r.serving(m.proto, m.internal_ip, m.internal_port)->0];
    assert(r.entries.contains(a) && r.entries.contains(b));
    external_ports_are_not_shared(r, a, m);
    external_ports_are_not_shared(r, b, m);
}

/// A lookup finds nothing but a mapping of that port, or of that socket.
pub proof fn lookups_find_nothing_else(
    r: RegistryView,
    proto: MapProto,
    ip: Ipv4Addr,
    port: u16,
)
    ensures
        match r.holding(proto, port as int) {
            Some(i) => 0 <= i < r.entries.len() && r.entries[i].proto == proto
                && r.entries[i].external_port == port,
            None => true,
        },
        match r.serving(proto, ip, port) {
            Some(i) => 0 <= i < r.entries.len() && r.entries[i].proto == proto
                && r.entries[i].internal_ip == ip && r.entries[i].internal_port == port,
            None => true,
        },
{
    holding_is_exact(r, proto, port as int, 0);
    serving_is_exact(r, proto, ip, port, 0);
}

/// A mapping that is removed is gone, and every other one stays.
pub proof fn removing_takes_one_mapping(r: RegistryView, i: int, m: Mapping)
    requires
        r.wf(),
        0 <= i < r.entries.len(),
    ensures
        r.without(i).entries.contains(m) == (r.entries.contains(m) && m != r.entries[i]),
{
    let s = r.entries;
    let t = r.without(i).entries;
    if t.contains(m) {
        let k = t.index_of(m);
        let j = if k < i {
            k
        } else {
            k + 1
        };
        assert(s[j] == m);
        if s[i] == m {
            if j < i {
                assert(!s[j].holds(s[i].proto, s[i].external_port as int));
            } else {
                assert(!s[i].holds(s[j].proto, s[j].external_port as int));
            }
        }
    }
    if s.contains(m) && m != s[i] {
        let j = s.index_of(m);
        assert(t[if j < i {
            j
        } else {
            j - 1
        }] == m);
    }
}

/// Ports are handed out in turn: the next one without a wish comes after the
/// last, unless it is taken, and the first of the pool comes after its end.
pub proof fn ports_are_handed_out_in_turn(
    r: RegistryView,
    proto: MapProto,
    ip: Ipv4Addr,
    port: u16,
    deadline: u64,
    nonce: Option<[u8; 12]>,
    x: u16,
)
    requires
        r.wf(),
        r.allocate(proto, ip, port, None, deadline, nonce).1 is Created,
    ensures
        ({
            let (after, out) = r.allocate(proto, ip, port, None, deadline, nonce);
            let p = out->Created_0.external_port;
            &&& after.cursor == (if p == 32767 {
                1024
            } else {
                p + 1
            })
            &&& r.cursor <= x < p && 1024 <= x ==> exists|m: Mapping| #[trigger]
                r.entries.contains(m) && m.proto == proto && m.external_port == x
        }),
{
    let p = r.allocate(proto, ip, port, None, deadline, nonce).1->Created_0.external_port as int;
    serving_is_exact(r, proto, ip, port, 0);
    first_free_is_free(r, proto, 0);
    let step = steps_to_first_free(r, proto, 0);
    if r.cursor <= x < p && 1024 <= x {
        let j = x - r.start();
        walk_wraps_at_the_end(r.start(), j);
        walk_wraps_at_the_end(r.start(), step);
        assert(pool_port(r.start(), j) == x);
        holding_is_exact(r, proto, x as int, 0);
        let k = r.holding(proto, x as int)->0;
        assert(r.entries.contains(r.entries[k]));
    }
}

proof fn steps_to_first_free(r: RegistryView, proto: MapProto, i: int) -> (k: int)
    requires
        0 <= i,
        r.first_free(proto, i) is Some,
    ensures
        i <= k < pool_size(),
        r.first_free(proto, i)->0 == pool_port(r.start(), k),
        forall|j: int| i <= j < k ==> r.holding(proto, #[trigger] pool_port(r.start(), j)) is Some,
    decreases pool_size() - i,
{
    if r.holding(proto, pool_port(r.start(), i)) is None {
        i
    } else {
        steps_to_first_free(r, proto, i + 1)
    }
}

} // verus!
