//! What a client's packet says, what the server answers, and what the registry
//! holds afterwards, byte by byte.
use vstd::prelude::*;

use crate::addr::Ipv4Addr;
use crate::bytes::{
    be128, be16, be32, big_endian, reading_is_big_endian, same_bytes_same_number,
    writing_is_big_endian,
};
use crate::portmap::laws::{granted, granted_mapping_lives_for_its_lifetime, removing_takes_one_mapping};
use crate::portmap::nat_pmp;
use crate::portmap::pcp;
use crate::portmap::registry::{serving_is_exact, MapProto, Mapping, RegistryView};
use crate::portmap::server::{epoch, ServerContext};

verus! {

/// The number in a field that was written with sixteen, 32 or 128 bits.
proof fn field16(s: Seq<u8>, i: int, x: int)
    requires
        0 <= x <= 0xffff,
        0 <= i,
        i + 2 <= s.len(),
        s.subrange(i, i + 2) == be16(x),
    ensures
        big_endian(s, i, i + 2) == x,
{
    writing_is_big_endian(x);
    let t = s.subrange(i, i + 2);
    assert forall|k: int| 0 <= k < 2 implies #[trigger] s[i + k] == t[0 + k] by {}
    same_bytes_same_number(s, i, t, 0, 2);
}

proof fn field32(s: Seq<u8>, i: int, x: int)
    requires
        0 <= x <= 0xffff_ffff,
        0 <= i,
        i + 4 <= s.len(),
        s.subrange(i, i + 4) == be32(x),
    ensures
        big_endian(s, i, i + 4) == x,
{
    writing_is_big_endian(x);
    let t = s.subrange(i, i + 4);
    assert forall|k: int| 0 <= k < 4 implies #[trigger] s[i + k] == t[0 + k] by {}
    same_bytes_same_number(s, i, t, 0, 4);
}

proof fn field128(s: Seq<u8>, i: int, x: int)
    requires
        0 <= x <= u128::MAX,
        0 <= i,
        i + 16 <= s.len(),
        s.subrange(i, i + 16) == be128(x),
    ensures
        big_endian(s, i, i + 16) == x,
{
    writing_is_big_endian(x);
    let t = s.subrange(i, i + 16);
    assert forall|k: int| 0 <= k < 16 implies #[trigger] s[i + k] == t[0 + k] by {}
    same_bytes_same_number(s, i, t, 0, 16);
}

/// The seconds that a server tells are whole seconds of its clock, which counts
/// milliseconds, modulo 2^32.
pub proof fn clocks_tell_seconds(now: u64)
    ensures
        epoch(now) as int == (now as int / 1000) % 0x1_0000_0000,
        now < 4_294_967_296_000 ==> epoch(now) as int * 1000 <= now < (epoch(now) + 1) * 1000,
{
}

/// A lifetime is granted as it was asked for, up to the longest that the server
/// grants.
pub proof fn lifetimes_are_capped(ctx: ServerContext, requested: u64)
    ensures
        ctx.grant(requested) <= requested,
        ctx.grant(requested) <= ctx.max_lifetime_secs,
        ctx.grant(requested) == requested || ctx.grant(requested) == ctx.max_lifetime_secs,
        crate::portmap::server::MAX_LIFETIME_SECS == 7200,
{
}

// ── NAT-PMP ──────────────────────────────────────────────────────────

/// A NAT-PMP packet is a request where its version is 0 and its opcode is 0, which
/// asks for the address, or 1 or 2, for UDP or TCP, in twelve bytes or more: the
/// client's port in bytes 4 and 5, the port it wishes for in 6 and 7, and the
/// lifetime from 8 on.
pub proof fn pmp_requests_are_read(s: Seq<u8>)
    ensures
        nat_pmp::decoded(s) == Some(nat_pmp::Request::ExternalAddress) <==> s.len() >= 2 && s[0]
            == 0 && s[1] == 0,
        nat_pmp::decoded(s) is Some && nat_pmp::decoded(s)->0 is MapPort <==> s.len() >= 12 && s[0]
            == 0 && (s[1] == 1 || s[1] == 2),
        nat_pmp::decoded(s) is Some && nat_pmp::decoded(s)->0 is MapPort ==> ({
            let q = nat_pmp::decoded(s)->0;
            &&& s[1] == 1 ==> q->proto == MapProto::Udp
            &&& s[1] == 2 ==> q->proto == MapProto::Tcp
            &&& q->local_port == big_endian(s, 4, 6)
            &&& q->external_port == big_endian(s, 6, 8)
            &&& q->lifetime_seconds == big_endian(s, 8, 12)
        }),
{
    reading_is_big_endian(s, 4);
    reading_is_big_endian(s, 6);
    reading_is_big_endian(s, 8);
}

/// A NAT-PMP reply on the address: twelve bytes, version 0, opcode 128, the result,
/// the seconds since the start, the address.
pub proof fn pmp_address_replies_are_written(
    result: nat_pmp::ResultCode,
    seconds: u32,
    ip: Ipv4Addr,
)
    ensures
        ({
            let b = nat_pmp::external_reply(result, seconds, ip);
            &&& b.len() == 12
            &&& b[0] == 0 && b[1] == 128
            &&& big_endian(b, 2, 4) == pmp_code(result)
            &&& big_endian(b, 4, 8) == seconds
            &&& big_endian(b, 8, 12) == ip.bits
        }),
{
    let b = nat_pmp::external_reply(result, seconds, ip);
    assert(b.subrange(2, 4) =~= be16(pmp_code(result)));
    assert(b.subrange(4, 8) =~= be32(seconds as int));
    assert(b.subrange(8, 12) =~= be32(ip.bits as int));
    field16(b, 2, pmp_code(result));
    field32(b, 4, seconds as int);
    field32(b, 8, ip.bits as int);
}

/// The NAT-PMP result codes.
pub open spec fn pmp_code(result: nat_pmp::ResultCode) -> int {
    match result {
        nat_pmp::ResultCode::Success => 0,
        nat_pmp::ResultCode::UnsupportedVersion => 1,
        nat_pmp::ResultCode::NotAuthorizedOrRefused => 2,
        nat_pmp::ResultCode::OutOfResources => 4,
        nat_pmp::ResultCode::UnsupportedOpcode => 5,
    }
}

/// A NAT-PMP reply on a mapping: sixteen bytes, version 0, opcode 129 for UDP and
/// 130 for TCP, the result, the seconds since the start, the client's port, the
/// external port, the lifetime.
pub proof fn pmp_map_replies_are_written(
    proto: MapProto,
    result: nat_pmp::ResultCode,
    seconds: u32,
    port: u16,
    external: u16,
    lifetime: u32,
)
    ensures
        ({
            let b = nat_pmp::map_reply(proto, result, seconds, port, external, lifetime);
            &&& b.len() == 16
            &&& b[0] == 0
            &&& proto == MapProto::Udp ==> b[1] == 129
            &&& proto == MapProto::Tcp ==> b[1] == 130
            &&& big_endian(b, 2, 4) == pmp_code(result)
            &&& big_endian(b, 4, 8) == seconds
            &&& big_endian(b, 8, 10) == port
            &&& big_endian(b, 10, 12) == external
            &&& big_endian(b, 12, 16) == lifetime
        }),
{
    let b = nat_pmp::map_reply(proto, result, seconds, port, external, lifetime);
    assert(b.subrange(2, 4) =~= be16(pmp_code(result)));
    assert(b.subrange(4, 8) =~= be32(seconds as int));
    assert(b.subrange(8, 10) =~= be16(port as int));
    assert(b.subrange(10, 12) =~= be16(external as int));
    assert(b.subrange(12, 16) =~= be32(lifetime as int));
    field16(b, 2, pmp_code(result));
    field32(b, 4, seconds as int);
    field16(b, 8, port as int);
    field16(b, 10, external as int);
    field32(b, 12, lifetime as int);
}

/// What NAT-PMP answers a client on the downstream network that asks for the
/// address: the router's external address, with success.
pub proof fn pmp_tells_the_address(
    ctx: ServerContext,
    reg: RegistryView,
    client: Ipv4Addr,
    s: Seq<u8>,
    now: u64,
)
    requires
        ctx.downstream_cidr.holds(client),
        s.len() >= 2,
        s[0] == 0,
        s[1] == 0,
    ensures
        ({
            let (after, r) = nat_pmp::step(ctx, reg, client, s, now);
            let b = r->0->Reply_0;
            &&& after == reg
            &&& r is Some && r->0 is Reply
            &&& big_endian(b, 2, 4) == 0
            &&& big_endian(b, 8, 12) == ctx.wan_ip.bits
        }),
{
    pmp_address_replies_are_written(nat_pmp::ResultCode::Success, epoch(now), ctx.wan_ip);
}

/// NAT-PMP turns a request for port 0 down, and changes nothing.
pub proof fn pmp_refuses_port_zero(
    ctx: ServerContext,
    reg: RegistryView,
    client: Ipv4Addr,
    proto: MapProto,
    wish: u16,
    requested: u32,
    now: u64,
)
    ensures
        ({
            let (after, r) = nat_pmp::map_step(ctx, reg, client, proto, 0, wish, requested, now);
            after == reg && r is Reply && big_endian(r->Reply_0, 2, 4) == 5
        }),
{
    pmp_map_replies_are_written(
        proto,
        nat_pmp::ResultCode::UnsupportedOpcode,
        epoch(now),
        0,
        0,
        0,
    );
}

/// A NAT-PMP request for a lifetime of 0 ends the mapping of the client's socket,
/// and touches no other.
pub proof fn pmp_ends_mappings(
    ctx: ServerContext,
    reg: RegistryView,
    client: Ipv4Addr,
    proto: MapProto,
    port: u16,
    wish: u16,
    now: u64,
)
    requires
        reg.wf(),
        port != 0,
    ensures
        ({
            let (after, r) = nat_pmp::map_step(ctx, reg, client, proto, port, wish, 0, now);
            let p = r->Apply_0;
            &&& r is Apply && p.external_port == 0 && p.lifetime_seconds == 0
            &&& p.created is None && p.proto == proto && p.local_port == port
            &&& forall|x: Mapping| #[trigger]
                after.entries.contains(x) <==> reg.entries.contains(x) && !(x.proto == proto
                    && x.internal_ip == client && x.internal_port == port)
        }),
{
    let after = nat_pmp::map_step(ctx, reg, client, proto, port, wish, 0, now).0;
    ended_mapping_is_gone(reg, proto, client, port, after);
}

/// A NAT-PMP request for a mapping that is granted leaves a mapping of the client's
/// socket that lives for the lifetime told to the client, on the port told to the
/// client; the wish is granted or nothing is. A request that cannot be granted
/// changes nothing and is answered with "out of resources".
pub proof fn pmp_grants_mappings(
    ctx: ServerContext,
    reg: RegistryView,
    client: Ipv4Addr,
    proto: MapProto,
    port: u16,
    wish: u16,
    requested: u32,
    now: u64,
) -> (m: Mapping)
    requires
        reg.wf(),
        ctx.wf(now),
        port != 0,
        requested != 0,
    ensures
        ({
            let (after, r) = nat_pmp::map_step(
                ctx,
                reg,
                client,
                proto,
                port,
                wish,
                requested,
                now,
            );
            let p = r->Apply_0;
            let seconds = if requested <= ctx.max_lifetime_secs {
                requested as int
            } else {
                ctx.max_lifetime_secs as int
            };
            &&& r is Reply ==> after == reg && big_endian(r->Reply_0, 2, 4) == 4 && big_endian(
                r->Reply_0,
                12,
                16,
            ) == 0
            &&& r is Apply ==> {
                &&& p.proto == proto && p.local_port == port
                &&& p.lifetime_seconds == seconds
                &&& after.entries.contains(m)
                &&& m.proto == proto && m.internal_ip == client && m.internal_port == port
                &&& m.external_port == p.external_port
                &&& m.deadline == now + seconds * 1000
                &&& p.created is Some ==> p.created->0.proto == proto
                    && p.created->0.external_port == m.external_port
                &&& p.created is Some && wish != 0 ==> m.external_port == wish
            }
        }),
{
    let (after, r) = nat_pmp::map_step(ctx, reg, client, proto, port, wish, requested, now);
    let seconds = ctx.grant(requested as u64);
    let w = if wish == 0 {
        None
    } else {
        Some(wish)
    };
    let lifetime = (seconds * 1000) as u64;
    assert(lifetime == seconds * 1000);
    let out = reg.allocate(proto, client, port, w, (now + seconds * 1000) as u64, None).1;
    if granted(out) is Some {
        granted_mapping_lives_for_its_lifetime(
            reg,
            proto,
            client,
            port,
            w,
            now,
            lifetime,
            None,
            now,
        );
        granted(out)->0
    } else {
        pmp_map_replies_are_written(
            proto,
            nat_pmp::ResultCode::OutOfResources,
            epoch(now),
            port,
            0,
            0,
        );
        arbitrary()
    }
}

spec fn ended(reg: RegistryView, proto: MapProto, client: Ipv4Addr, port: u16) -> RegistryView {
    match reg.serving(proto, client, port) {
        Some(i) => reg.without(i),
        None => reg,
    }
}

/// Where the mapping of a socket is ended, none of that socket is left, and every
/// other one stays.
proof fn ended_mapping_is_gone(
    reg: RegistryView,
    proto: MapProto,
    client: Ipv4Addr,
    port: u16,
    after: RegistryView,
)
    requires
        reg.wf(),
        after == ended(reg, proto, client, port),
    ensures
        forall|x: Mapping| #[trigger]
            after.entries.contains(x) <==> reg.entries.contains(x) && !(x.proto == proto
                && x.internal_ip == client && x.internal_port == port),
{
    assert forall|x: Mapping| #[trigger]
        after.entries.contains(x) <==> reg.entries.contains(x) && !(x.proto == proto
            && x.internal_ip == client && x.internal_port == port) by {
        one_mapping_is_gone(reg, proto, client, port, x);
    }
}

proof fn one_mapping_is_gone(
    reg: RegistryView,
    proto: MapProto,
    client: Ipv4Addr,
    port: u16,
    x: Mapping,
)
    requires
        reg.wf(),
    ensures
        ended(reg, proto, client, port).entries.contains(x) <==> reg.entries.contains(x) && !(
        x.proto == proto && x.internal_ip == client && x.internal_port == port),
{
    serving_is_exact(reg, proto, client, port, 0);
    match reg.serving(proto, client, port) {
        Some(i) => {
            removing_takes_one_mapping(reg, i, x);
            if reg.entries.contains(x) && x.proto == proto && x.internal_ip == client
                && x.internal_port == port {
                assert(reg.entries.contains(reg.entries[i]));
                crate::portmap::laws::external_ports_are_not_shared(reg, x, reg.entries[i]);
            }
        },
        None => {
            if reg.entries.contains(x) {
                let j = reg.entries.index_of(x);
                assert(!reg.entries[j].serves(proto, client, port));
            }
        },
    }
}

// ── PCP ──────────────────────────────────────────────────────────────

/// A PCP packet is a request where it has 24 bytes, version 2, and opcode 0, an
/// announcement, or opcode 1, a mapping, and then 60 bytes. What it says: the
/// lifetime in bytes 4 to 7, the client's address in 8 to 23, and for a mapping the
/// nonce in 24 to 35, the protocol in 36 (17 for UDP, 6 for TCP), the client's port
/// in 40 and 41, the port wished for in 42 and 43.
pub proof fn pcp_requests_are_read(s: Seq<u8>, d: pcp::Decoded)
    requires
        pcp::is_decoding(s, d),
    ensures
        s.len() >= 24 && s[0] == 2 && (s[1] == 0 || (s[1] == 1 && s.len() >= 60)),
        d.client_addr.bits == big_endian(s, 8, 24),
        d.request is Announce <==> s[1] == 0,
        d.request is MapPort <==> s[1] == 1 && (s[36] == 17 || s[36] == 6),
        d.request is UnsupportedProtocol <==> s[1] == 1 && s[36] != 17 && s[36] != 6,
        d.request matches pcp::Request::MapPort { lifetime_seconds, data } ==> {
            &&& lifetime_seconds == big_endian(s, 4, 8)
            &&& data.nonce@ == s.subrange(24, 36)
            &&& s[36] == 17 ==> data.protocol == MapProto::Udp
            &&& s[36] == 6 ==> data.protocol == MapProto::Tcp
            &&& data.local_port == big_endian(s, 40, 42)
            &&& data.external_port == big_endian(s, 42, 44)
            &&& data.external_address.bits == big_endian(s, 44, 60)
        },
        d.request matches pcp::Request::UnsupportedProtocol { data } ==> {
            &&& data.nonce@ == s.subrange(24, 36)
            &&& data.local_port == big_endian(s, 40, 42)
        },
{
    reading_is_big_endian(s, 4);
    reading_is_big_endian(s, 8);
    reading_is_big_endian(s, 40);
    reading_is_big_endian(s, 42);
    reading_is_big_endian(s, 44);
}

/// Which packets are PCP requests.
pub proof fn pcp_requests_are_recognised(s: Seq<u8>)
    ensures
        pcp::decoded(s) is Some <==> s.len() >= 24 && s[0] == 2 && (s[1] == 0 || (s[1] == 1
            && s.len() >= 60)),
{
}

/// The PCP result codes.
pub open spec fn pcp_code(result: pcp::ResultCode) -> int {
    match result {
        pcp::ResultCode::Success => 0,
        pcp::ResultCode::UnsuppVersion => 1,
        pcp::ResultCode::NotAuthorized => 2,
        pcp::ResultCode::MalformedRequest => 3,
        pcp::ResultCode::UnsuppOpcode => 4,
        pcp::ResultCode::NoResources => 8,
        pcp::ResultCode::UnsuppProtocol => 9,
        pcp::ResultCode::CannotProvideExternal => 11,
        pcp::ResultCode::AddressMismatch => 12,
    }
}

/// A PCP response starts with 24 bytes: version 2, the opcode with its highest bit
/// set, a zero, the result, the lifetime, the seconds since the start, and zeros.
pub proof fn pcp_headers_are_written(
    opcode: u8,
    result: pcp::ResultCode,
    lifetime: u32,
    seconds: u32,
)
    ensures
        ({
            let b = pcp::header(opcode, result, lifetime, seconds);
            &&& b.len() == 24
            &&& b[0] == 2
            &&& opcode < 128 ==> b[1] == opcode + 128
            &&& b[2] == 0
            &&& b[3] == pcp_code(result)
            &&& big_endian(b, 4, 8) == lifetime
            &&& big_endian(b, 8, 12) == seconds
            &&& forall|i: int| 12 <= i < 24 ==> #[trigger] b[i] == 0
        }),
{
    let b = pcp::header(opcode, result, lifetime, seconds);
    assert(b.subrange(4, 8) =~= be32(lifetime as int));
    assert(b.subrange(8, 12) =~= be32(seconds as int));
    field32(b, 4, lifetime as int);
    field32(b, 8, seconds as int);
    assert(be32(0) =~= seq![0u8, 0u8, 0u8, 0u8]);
}

/// A PCP response on a mapping: the header with opcode 1, then the nonce, the
/// protocol (17 for UDP, 6 for TCP) and three zeros, the client's port, the external
/// port, and the external address as an IPv4-mapped one.
pub proof fn pcp_map_responses_are_written(r: pcp::MapResponse)
    ensures
        ({
            let b = pcp::map_response(r);
            &&& b.len() == 60
            &&& b[0] == 2 && b[1] == 129 && b[2] == 0
            &&& b[3] == pcp_code(r.result)
            &&& big_endian(b, 4, 8) == r.lifetime_seconds
            &&& big_endian(b, 8, 12) == r.epoch_time
            &&& b.subrange(24, 36) == r.nonce@
            &&& r.protocol == MapProto::Udp ==> b[36] == 17
            &&& r.protocol == MapProto::Tcp ==> b[36] == 6
            &&& b[37] == 0 && b[38] == 0 && b[39] == 0
            &&& big_endian(b, 40, 42) == r.local_port
            &&& big_endian(b, 42, 44) == r.external_port
            &&& big_endian(b, 44, 60) == 0xffff_0000_0000 + r.external_address.bits
        }),
{
    let b = pcp::map_response(r);
    let h = pcp::header(pcp::OP_MAP, r.result, r.lifetime_seconds, r.epoch_time);
    pcp_headers_are_written(pcp::OP_MAP, r.result, r.lifetime_seconds, r.epoch_time);
    let mapped = r.external_address.mapped().bits as int;
    assert(be128(mapped).len() == 16) by {
        writing_is_big_endian(mapped);
    }
    assert forall|k: int| 0 <= k < 24 implies #[trigger] b[k] == h[k] by {}
    assert forall|k: int| 0 <= k < 4 implies #[trigger] b[4 + k] == h[4 + k] by {}
    assert forall|k: int| 0 <= k < 4 implies #[trigger] b[8 + k] == h[8 + k] by {}
    same_bytes_same_number(b, 4, h, 4, 4);
    same_bytes_same_number(b, 8, h, 8, 4);
    assert(b.subrange(24, 36) =~= r.nonce@);
    assert(b.subrange(40, 42) =~= be16(r.local_port as int));
    assert(b.subrange(42, 44) =~= be16(r.external_port as int));
    assert(b.subrange(44, 60) =~= be128(mapped));
    field16(b, 40, r.local_port as int);
    field16(b, 42, r.external_port as int);
    field128(b, 44, mapped);
}

/// What PCP answers before it looks at the registry: a packet whose address is not
/// the one it came from is told so, a client outside the downstream network is
/// refused, an announcement is granted, and a protocol other than UDP and TCP is not
/// supported. None of these changes anything.
pub proof fn pcp_turns_down(
    ctx: ServerContext,
    reg: RegistryView,
    client: Ipv4Addr,
    d: pcp::Decoded,
    now: u64,
)
    requires
        d.client_addr.bits != 0xffff_0000_0000 + client.bits || !ctx.downstream_cidr.holds(client)
            || !(d.request is MapPort),
    ensures
        ({
            let (after, r) = pcp::request_step(ctx, reg, client, d, now);
            &&& after == reg
            &&& !r.apply
            &&& r.reply.len() >= 24
            &&& big_endian(r.reply, 4, 8) == 0
            &&& big_endian(r.reply, 8, 12) == epoch(now)
            &&& d.request is Announce ==> r.reply.len() == 24 && r.reply[1] == 128
            &&& !(d.request is Announce) ==> r.reply.len() == 60 && r.reply[1] == 129
            &&& r.reply[3] == (if d.client_addr.bits != 0xffff_0000_0000 + client.bits {
                12int
            } else if !ctx.downstream_cidr.holds(client) {
                2
            } else if d.request is Announce {
                0
            } else {
                9
            })
        }),
{
    let r = pcp::request_step(ctx, reg, client, d, now).1;
    let result = if d.client_addr != client.mapped() {
        pcp::ResultCode::AddressMismatch
    } else if !ctx.downstream_cidr.holds(client) {
        pcp::ResultCode::NotAuthorized
    } else if d.request is Announce {
        pcp::ResultCode::Success
    } else {
        pcp::ResultCode::UnsuppProtocol
    };
    match d.request {
        pcp::Request::Announce => {
            pcp_headers_are_written(pcp::OP_ANNOUNCE, result, 0, epoch(now));
        },
        pcp::Request::MapPort { data, .. } => {
            refusals_are_written(result, data, epoch(now));
        },
        pcp::Request::UnsupportedProtocol { data } => {
            refusals_are_written(result, data, epoch(now));
        },
    }
}

/// A refusal carries the result and the client's nonce, protocol and port, and
/// grants nothing.
pub proof fn refusals_are_written(result: pcp::ResultCode, data: pcp::MapData, seconds: u32)
    ensures
        ({
            let b = pcp::refusal(result, data, seconds);
            &&& b.len() == 60
            &&& b[1] == 129
            &&& b[3] == pcp_code(result)
            &&& big_endian(b, 4, 8) == 0
            &&& big_endian(b, 8, 12) == seconds
            &&& b.subrange(24, 36) == data.nonce@
            &&& big_endian(b, 40, 42) == data.local_port
            &&& big_endian(b, 42, 44) == 0
        }),
{
    pcp_map_responses_are_written(
        pcp::MapResponse {
            result,
            lifetime_seconds: 0,
            epoch_time: seconds,
            nonce: data.nonce,
            protocol: data.protocol,
            local_port: data.local_port,
            external_port: 0,
            external_address: Ipv4Addr { bits: 0 },
        },
    );
}

/// Every PCP answer on a mapping carries the client's nonce and port. Port 0 cannot
/// be provided, and a socket whose mapping carries another nonce is left alone: not
/// authorized. Neither changes anything.
pub proof fn pcp_protects_mappings(
    ctx: ServerContext,
    reg: RegistryView,
    client: Ipv4Addr,
    requested: u32,
    data: pcp::MapData,
    now: u64,
    x: Mapping,
)
    requires
        reg.wf(),
        data.local_port == 0 || {
            &&& reg.entries.contains(x)
            &&& x.proto == data.protocol && x.internal_ip == client && x.internal_port
                == data.local_port
            &&& x.pcp_nonce is Some && x.pcp_nonce->0 != data.nonce
        },
    ensures
        ({
            let (after, r) = pcp::map_step(ctx, reg, client, requested, data, now);
            &&& after == reg
            &&& !r.apply
            &&& r.reply == pcp::refusal(
                if data.local_port == 0 {
                    pcp::ResultCode::CannotProvideExternal
                } else {
                    pcp::ResultCode::NotAuthorized
                },
                data,
                epoch(now),
            )
            &&& r.reply[3] == (if data.local_port == 0 {
                11int
            } else {
                2
            })
        }),
{
    nonce_clash_is_exact(reg, client, data);
    if data.local_port == 0 {
        refusals_are_written(pcp::ResultCode::CannotProvideExternal, data, epoch(now));
    } else {
        refusals_are_written(pcp::ResultCode::NotAuthorized, data, epoch(now));
    }
}

/// Whether every mapping of the client's socket was made without a nonce or with the
/// same one.
pub open spec fn may_touch(reg: RegistryView, client: Ipv4Addr, data: pcp::MapData) -> bool {
    forall|x: Mapping| #[trigger]
        reg.entries.contains(x) && x.proto == data.protocol && x.internal_ip == client
            && x.internal_port == data.local_port ==> x.pcp_nonce is None || x.pcp_nonce->0
            == data.nonce
}

/// A PCP request for a lifetime of 0 ends the mapping of the client's socket, and
/// touches no other.
pub proof fn pcp_ends_mappings(
    ctx: ServerContext,
    reg: RegistryView,
    client: Ipv4Addr,
    data: pcp::MapData,
    now: u64,
)
    requires
        reg.wf(),
        data.local_port != 0,
        may_touch(reg, client, data),
    ensures
        ({
            let (after, r) = pcp::map_step(ctx, reg, client, 0, data, now);
            let b = r.reply;
            &&& r.apply
            &&& b.len() == 60 && b[1] == 129 && b[3] == 0
            &&& big_endian(b, 4, 8) == 0 && big_endian(b, 42, 44) == 0
            &&& b.subrange(24, 36) == data.nonce@
            &&& big_endian(b, 40, 42) == data.local_port
            &&& forall|x: Mapping| #[trigger]
                after.entries.contains(x) <==> reg.entries.contains(x) && !(x.proto
                    == data.protocol && x.internal_ip == client && x.internal_port
                    == data.local_port)
        }),
{
    nonce_clash_is_exact(reg, client, data);
    let after = pcp::map_step(ctx, reg, client, 0, data, now).0;
    ended_mapping_is_gone(reg, data.protocol, client, data.local_port, after);
    pcp_map_responses_are_written(
        pcp::MapResponse {
            result: pcp::ResultCode::Success,
            lifetime_seconds: 0,
            epoch_time: epoch(now),
            nonce: data.nonce,
            protocol: data.protocol,
            local_port: data.local_port,
            external_port: 0,
            external_address: ctx.wan_ip,
        },
    );
}

/// A PCP request for a mapping that is granted leaves a mapping of the client's
/// socket, under the client's nonce, that lives for the lifetime told to the client,
/// on the port told to the client at the router's external address. A request that
/// is not granted changes nothing: the port wished for is taken, or no port is left.
pub proof fn pcp_grants_mappings(
    ctx: ServerContext,
    reg: RegistryView,
    client: Ipv4Addr,
    requested: u32,
    data: pcp::MapData,
    now: u64,
) -> (m: Mapping)
    requires
        reg.wf(),
        ctx.wf(now),
        data.local_port != 0,
        requested != 0,
        may_touch(reg, client, data),
    ensures
        ({
            let (after, r) = pcp::map_step(ctx, reg, client, requested, data, now);
            let b = r.reply;
            let seconds = if requested <= ctx.max_lifetime_secs {
                requested as int
            } else {
                ctx.max_lifetime_secs as int
            };
            &&& b.len() == 60 && b[1] == 129
            &&& b.subrange(24, 36) == data.nonce@
            &&& big_endian(b, 40, 42) == data.local_port
            &&& !r.apply ==> {
                &&& after == reg
                &&& data.external_port != 0 ==> b[3] == 11
                &&& data.external_port == 0 ==> b[3] == 8
                &&& big_endian(b, 4, 8) == 0 && big_endian(b, 42, 44) == 0
            }
            &&& r.apply ==> {
                &&& b[3] == 0
                &&& big_endian(b, 4, 8) == seconds
                &&& big_endian(b, 8, 12) == epoch(now)
                &&& big_endian(b, 44, 60) == 0xffff_0000_0000 + ctx.wan_ip.bits
                &&& after.entries.contains(m)
                &&& m.proto == data.protocol && m.internal_ip == client && m.internal_port
                    == data.local_port
                &&& m.external_port == big_endian(b, 42, 44)
                &&& m.deadline == now + seconds * 1000
                &&& m.pcp_nonce == Some(data.nonce)
            }
        }),
{
    let (after, r) = pcp::map_step(ctx, reg, client, requested, data, now);
    nonce_clash_is_exact(reg, client, data);
    let seconds = ctx.grant(requested as u64);
    let w = if data.external_port == 0 {
        None
    } else {
        Some(data.external_port)
    };
    let nonce = Some(data.nonce);
    let lifetime = (seconds * 1000) as u64;
    assert(lifetime == seconds * 1000);
    let deadline = (now + seconds * 1000) as u64;
    let out = reg.allocate(data.protocol, client, data.local_port, w, deadline, nonce).1;
    if granted(out) is Some {
        granted_mapping_lives_for_its_lifetime(
            reg,
            data.protocol,
            client,
            data.local_port,
            w,
            now,
            lifetime,
            nonce,
            now,
        );
        let m = granted(out)->0;
        pcp_map_responses_are_written(
            pcp::MapResponse {
                result: pcp::ResultCode::Success,
                lifetime_seconds: seconds as u32,
                epoch_time: epoch(now),
                nonce: data.nonce,
                protocol: data.protocol,
                local_port: data.local_port,
                external_port: m.external_port,
                external_address: ctx.wan_ip,
            },
        );
        m
    } else {
        refusals_are_written(pcp::ResultCode::CannotProvideExternal, data, epoch(now));
        refusals_are_written(pcp::ResultCode::NoResources, data, epoch(now));
        arbitrary()
    }
}

proof fn nonce_clash_is_exact(reg: RegistryView, client: Ipv4Addr, data: pcp::MapData)
    requires
        reg.wf(),
    ensures
        pcp::nonce_clashes(reg, client, data) <==> exists|x: Mapping|
            #![trigger reg.entries.contains(x)]
            reg.entries.contains(x) && x.proto == data.protocol && x.internal_ip == client
                && x.internal_port == data.local_port && x.pcp_nonce is Some && x.pcp_nonce->0
                != data.nonce,
{
    serving_is_exact(reg, data.protocol, client, data.local_port, 0);
    match reg.serving(data.protocol, client, data.local_port) {
        Some(i) => {
            let e = reg.entries[i];
            assert(reg.entries.contains(e));
            assert forall|x: Mapping|
                #![trigger reg.entries.contains(x)]
                reg.entries.contains(x) && x.proto == data.protocol && x.internal_ip == client
                    && x.internal_port == data.local_port implies x == e by {
                crate::portmap::laws::external_ports_are_not_shared(reg, x, e);
            }
        },
        None => {
            assert forall|x: Mapping|
                #![trigger reg.entries.contains(x)]
                reg.entries.contains(x) implies !(x.proto == data.protocol && x.internal_ip
                == client && x.internal_port == data.local_port) by {
                let j = reg.entries.index_of(x);
                assert(!reg.entries[j].serves(data.protocol, client, data.local_port));
            }
        },
    }
}

} // verus!
