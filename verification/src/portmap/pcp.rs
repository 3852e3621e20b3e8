//! PCP (RFC 6887): the `Announce` and `Map` opcodes.
//!
//! Once a mapping exists for a client's socket, a further request for it must
//! present the same nonce. A lifetime of 0 deletes the mapping.
use vstd::prelude::*;

use crate::addr::{Ipv4Addr, Ipv6Addr};
use crate::bytes::{
    be128, be16, be32, get128, get16, get32, push128, push16, push32, read128, read16, read32,
};
use crate::portmap::registry;
use crate::portmap::registry::{AllocOutcome, MapProto, PortmapRegistry, RegistryView};
use crate::portmap::server::{epoch, epoch_time, ServerContext};

verus! {

/// PCP wire-format version byte.
pub const VERSION: u8 = 2;

/// Added to the opcode in a response.
pub const RESPONSE_INDICATOR: u8 = 128;

/// Size of the fixed header.
pub const HEADER_SIZE: usize = 24;

/// Size of the data of the `Map` opcode.
pub const MAP_DATA_SIZE: usize = 36;

/// Opcode `Announce`.
pub const OP_ANNOUNCE: u8 = 0;

/// Opcode `Map`.
pub const OP_MAP: u8 = 1;

/// IANA number of TCP.
pub const PROTO_TCP: u8 = 6;

/// IANA number of UDP.
pub const PROTO_UDP: u8 = 17;

/// Result codes.
#[derive(Clone, Copy, Debug, PartialEq, Eq, Structural)]
pub enum ResultCode {
    /// The request was granted.
    Success,
    /// The version is not supported.
    UnsuppVersion,
    /// The client may not ask for this.
    NotAuthorized,
    /// The packet is malformed.
    MalformedRequest,
    /// The opcode is not supported.
    UnsuppOpcode,
    /// No port is left.
    NoResources,
    /// The transport protocol is not supported.
    UnsuppProtocol,
    /// The port asked for cannot be granted.
    CannotProvideExternal,
    /// The address in the packet is not the one it came from.
    AddressMismatch,
}

impl ResultCode {
    /// The code on the wire.
    pub open spec fn spec_code(self) -> u8 {
        match self {
            ResultCode::Success => 0,
            ResultCode::UnsuppVersion => 1,
            ResultCode::NotAuthorized => 2,
            ResultCode::MalformedRequest => 3,
            ResultCode::UnsuppOpcode => 4,
            ResultCode::NoResources => 8,
            ResultCode::UnsuppProtocol => 9,
            ResultCode::CannotProvideExternal => 11,
            ResultCode::AddressMismatch => 12,
        }
    }

    /// The code on the wire.
    pub fn code(self) -> (r: u8)
        ensures
            r == self.spec_code(),
    {
        match self {
            ResultCode::Success => 0,
            ResultCode::UnsuppVersion => 1,
            ResultCode::NotAuthorized => 2,
            ResultCode::MalformedRequest => 3,
            ResultCode::UnsuppOpcode => 4,
            ResultCode::NoResources => 8,
            ResultCode::UnsuppProtocol => 9,
            ResultCode::CannotProvideExternal => 11,
            ResultCode::AddressMismatch => 12,
        }
    }
}

/// The data of a `Map` request.
#[derive(Clone, Copy, Debug)]
pub struct MapData {
    /// The client's nonce.
    pub nonce: [u8; 12],
    /// The protocol; UDP where the packet names one that is not supported.
    pub protocol: MapProto,
    /// The client's port.
    pub local_port: u16,
    /// The port wished for, or 0.
    pub external_port: u16,
    /// The address wished for.
    pub external_address: Ipv6Addr,
}

/// What a packet asks for.
#[derive(Clone, Copy, Debug)]
pub enum Request {
    /// The server's state.
    Announce,
    /// A mapping, or its end where the lifetime is 0.
    MapPort {
        /// The lifetime asked for.
        lifetime_seconds: u32,
        /// The opcode's data.
        data: MapData,
    },
    /// A mapping for a protocol that is not supported.
    UnsupportedProtocol {
        /// The opcode's data.
        data: MapData,
    },
}

/// A decoded packet.
#[derive(Clone, Copy, Debug)]
pub struct Decoded {
    /// The client's address as the packet states it.
    pub client_addr: Ipv6Addr,
    /// What it asks for.
    pub request: Request,
}

/// Whether `d` is the opcode data of the packet.
pub open spec fn is_map_data(s: Seq<u8>, d: MapData) -> bool {
    &&& d.nonce@ == s.subrange(24, 36)
    &&& d.protocol == (if s[36] == PROTO_TCP {
        MapProto::Tcp
    } else {
        MapProto::Udp
    })
    &&& d.local_port == get16(s, 40)
    &&& d.external_port == get16(s, 42)
    &&& d.external_address.bits == get128(s, 44)
}

/// Whether the packet is a request at all.
pub open spec fn is_request(s: Seq<u8>) -> bool {
    s.len() >= HEADER_SIZE && s[0] == VERSION && (s[1] == OP_ANNOUNCE || (s[1] == OP_MAP && s.len()
        >= HEADER_SIZE + MAP_DATA_SIZE))
}

/// Whether `d` is what the packet says.
pub open spec fn is_decoding(s: Seq<u8>, d: Decoded) -> bool {
    &&& is_request(s)
    &&& d.client_addr.bits == get128(s, 8)
    &&& match d.request {
        Request::Announce => s[1] == OP_ANNOUNCE,
        Request::MapPort { lifetime_seconds, data } => s[1] == OP_MAP && (s[36] == PROTO_UDP || s[36]
            == PROTO_TCP) && lifetime_seconds == get32(s, 4) && is_map_data(s, data),
        Request::UnsupportedProtocol { data } => s[1] == OP_MAP && s[36] != PROTO_UDP && s[36]
            != PROTO_TCP && is_map_data(s, data),
    }
}

/// What the packet says, if it is a request.
pub open spec fn decoded(s: Seq<u8>) -> Option<Decoded> {
    if is_request(s) {
        Some(choose|d: Decoded| is_decoding(s, d))
    } else {
        None
    }
}

/// A packet says one thing only.
pub proof fn decoding_is_unique(s: Seq<u8>, a: Decoded, b: Decoded)
    requires
        is_decoding(s, a),
        is_decoding(s, b),
    ensures
        a == b,
{
    match (a.request, b.request) {
        (Request::MapPort { data: x, .. }, Request::MapPort { data: y, .. }) => {
            assert(x.nonce =~= y.nonce);
        },
        (
            Request::UnsupportedProtocol { data: x },
            Request::UnsupportedProtocol { data: y },
        ) => {
            assert(x.nonce =~= y.nonce);
        },
        _ => {},
    }
}

/// Decodes a request. `None` means that the packet is malformed and dropped.
pub fn decode(buf: &[u8]) -> (r: Option<Decoded>)
    ensures
        r == decoded(buf@),
        r is Some ==> is_decoding(buf@, r->0),
{
    if buf.len() < HEADER_SIZE || buf[0] != VERSION {
        return None;
    }
    let lifetime_seconds: u32 = read32(buf, 4);
    let client_addr = Ipv6Addr { bits: read128(buf, 8) };
    let op = buf[1];
    let request = if op == OP_ANNOUNCE {
        Request::Announce
    } else if op == OP_MAP && buf.len() >= HEADER_SIZE + MAP_DATA_SIZE {
        let nonce: [u8; 12] = [
            buf[24],
            buf[25],
            buf[26],
            buf[27],
            buf[28],
            buf[29],
            buf[30],
            buf[31],
            buf[32],
            buf[33],
            buf[34],
            buf[35],
        ];
        assert(nonce@ =~= buf@.subrange(24, 36));
        let proto_byte = buf[36];
        let data = MapData {
            nonce,
            protocol: if proto_byte == PROTO_TCP {
                MapProto::Tcp
            } else {
                MapProto::Udp
            },
            local_port: read16(buf, 40),
            external_port: read16(buf, 42),
            external_address: Ipv6Addr { bits: read128(buf, 44) },
        };
        if proto_byte == PROTO_UDP || proto_byte == PROTO_TCP {
            Request::MapPort { lifetime_seconds, data }
        } else {
            Request::UnsupportedProtocol { data }
        }
    } else {
        return None;
    };
    let d = Decoded { client_addr, request };
    assert(is_decoding(buf@, d));
    proof {
        decoding_is_unique(buf@, d, decoded(buf@)->0);
    }
    Some(d)
}

/// The bytes of a response header.
pub open spec fn header(
    opcode: u8,
    result: ResultCode,
    lifetime_seconds: u32,
    epoch_time: u32,
) -> Seq<u8> {
    let response = (RESPONSE_INDICATOR + opcode % RESPONSE_INDICATOR) as u8;
    seq![VERSION, response, 0u8, result.spec_code()] + be32(
        lifetime_seconds as int,
    ) + be32(epoch_time as int) + be32(0) + be32(0) + be32(0)
}

/// Encodes a response header: the opcode with the response indicator set.
pub fn encode_header(
    opcode_byte: u8,
    result: ResultCode,
    lifetime_seconds: u32,
    epoch_time: u32,
) -> (r: Vec<u8>)
    ensures
        r@ == header(opcode_byte, result, lifetime_seconds, epoch_time),
        r@.len() == HEADER_SIZE,
{
    let mut buf: Vec<u8> = Vec::new();
    buf.push(VERSION);
    buf.push(RESPONSE_INDICATOR | opcode_byte);
    buf.push(0);
    buf.push(result.code());
    assert(128u8 | opcode_byte == 128 + opcode_byte % 128) by (bit_vector);
    assert(buf@ =~= seq![
        VERSION,
        (RESPONSE_INDICATOR + opcode_byte % RESPONSE_INDICATOR) as u8,
        0u8,
        result.spec_code(),
    ]);
    push32(&mut buf, lifetime_seconds);
    push32(&mut buf, epoch_time);
    push32(&mut buf, 0);
    push32(&mut buf, 0);
    push32(&mut buf, 0);
    buf
}

/// Encodes the response to an announcement request.
pub fn encode_announce_response(result: ResultCode, epoch_time: u32) -> (r: Vec<u8>)
    ensures
        r@ == header(OP_ANNOUNCE, result, 0, epoch_time),
{
    encode_header(OP_ANNOUNCE, result, 0, epoch_time)
}

/// The content of a `Map` response.
#[derive(Clone, Copy, Debug)]
pub struct MapResponse {
    /// The result.
    pub result: ResultCode,
    /// The lifetime granted.
    pub lifetime_seconds: u32,
    /// Seconds since the server started.
    pub epoch_time: u32,
    /// The client's nonce.
    pub nonce: [u8; 12],
    /// The protocol.
    pub protocol: MapProto,
    /// The client's port.
    pub local_port: u16,
    /// The port granted, or 0.
    pub external_port: u16,
    /// The address granted.
    pub external_address: Ipv4Addr,
}

/// The bytes of a `Map` response.
pub open spec fn map_response(r: MapResponse) -> Seq<u8> {
    let proto = match r.protocol {
        MapProto::Udp => PROTO_UDP,
        MapProto::Tcp => PROTO_TCP,
    };
    header(OP_MAP, r.result, r.lifetime_seconds, r.epoch_time) + r.nonce@ + seq![
        proto,
        0u8,
        0u8,
        0u8,
    ] + be16(r.local_port as int) + be16(r.external_port as int) + be128(
        r.external_address.mapped().bits as int,
    )
}

/// Encodes a `Map` response.
pub fn encode_map_response(r: MapResponse) -> (out: Vec<u8>)
    ensures
        out@ == map_response(r),
{
    let mut buf = encode_header(OP_MAP, r.result, r.lifetime_seconds, r.epoch_time);
    let ghost head = buf@;
    let mut i: usize = 0;
    while i < 12
        invariant
            i <= 12,
            buf@ == head + r.nonce@.take(i as int),
        decreases 12 - i,
    {
        buf.push(r.nonce[i]);
        assert(buf@ =~= head + r.nonce@.take(i as int + 1));
        i += 1;
    }
    assert(r.nonce@.take(12) =~= r.nonce@);
    let proto: u8 = match r.protocol {
        MapProto::Udp => PROTO_UDP,
        MapProto::Tcp => PROTO_TCP,
    };
    let ghost before = buf@;
    buf.push(proto);
    buf.push(0);
    buf.push(0);
    buf.push(0);
    assert(buf@ =~= before + seq![proto, 0u8, 0u8, 0u8]);
    push16(&mut buf, r.local_port);
    push16(&mut buf, r.external_port);
    push128(&mut buf, r.external_address.to_ipv6_mapped().bits);
    buf
}

/// A `Map` response that grants nothing.
pub open spec fn refusal(result: ResultCode, data: MapData, epoch_time: u32) -> Seq<u8> {
    map_response(
        MapResponse {
            result,
            lifetime_seconds: 0,
            epoch_time,
            nonce: data.nonce,
            protocol: data.protocol,
            local_port: data.local_port,
            external_port: 0,
            external_address: Ipv4Addr { bits: 0 },
        },
    )
}

fn encode_refusal(result: ResultCode, data: MapData, epoch_time: u32) -> (r: Vec<u8>)
    ensures
        r@ == refusal(result, data, epoch_time),
{
    encode_map_response(
        MapResponse {
            result,
            lifetime_seconds: 0,
            epoch_time,
            nonce: data.nonce,
            protocol: data.protocol,
            local_port: data.local_port,
            external_port: 0,
            external_address: Ipv4Addr::unspecified(),
        },
    )
}

/// What to do about a packet: where `apply` is set, the rules of the registry
/// are applied before the reply is sent.
#[derive(Debug)]
pub struct Step {
    /// The reply.
    pub reply: Vec<u8>,
    /// Whether the registry has changed.
    pub apply: bool,
}

/// What to do about a packet.
pub struct StepView {
    /// The reply.
    pub reply: Seq<u8>,
    /// Whether the registry has changed.
    pub apply: bool,
}

impl View for Step {
    type V = StepView;

    open spec fn view(&self) -> StepView {
        StepView { reply: self.reply@, apply: self.apply }
    }
}

/// Whether a mapping of the client's socket was made with another nonce.
pub open spec fn nonce_clashes(reg: RegistryView, client_ip: Ipv4Addr, data: MapData) -> bool {
    match reg.serving(data.protocol, client_ip, data.local_port) {
        Some(i) => reg.entries[i].pcp_nonce is Some && reg.entries[i].pcp_nonce->0 != data.nonce,
        None => false,
    }
}

/// What a map request of a client on the downstream network does.
pub open spec fn map_step(
    ctx: ServerContext,
    reg: RegistryView,
    client_ip: Ipv4Addr,
    requested: u32,
    data: MapData,
    now: u64,
) -> (RegistryView, StepView) {
    let epoch_time = epoch(now);
    let refuse = |result: ResultCode|
        StepView { reply: refusal(result, data, epoch_time), apply: false };
    if data.local_port == 0 {
        (reg, refuse(ResultCode::CannotProvideExternal))
    } else if nonce_clashes(reg, client_ip, data) {
        (reg, refuse(ResultCode::NotAuthorized))
    } else if requested == 0 {
        let after = match reg.serving(data.protocol, client_ip, data.local_port) {
            Some(i) => reg.without(i),
            None => reg,
        };
        (
            after,
            StepView {
                reply: map_response(
                    MapResponse {
                        result: ResultCode::Success,
                        lifetime_seconds: 0,
                        epoch_time,
                        nonce: data.nonce,
                        protocol: data.protocol,
                        local_port: data.local_port,
                        external_port: 0,
                        external_address: ctx.wan_ip,
                    },
                ),
                apply: true,
            },
        )
    } else {
        let lifetime = ctx.grant(requested as u64);
        let wish = if data.external_port == 0 {
            None
        } else {
            Some(data.external_port)
        };
        let (after, outcome) = reg.allocate(
            data.protocol,
            client_ip,
            data.local_port,
            wish,
            (now + lifetime * 1000) as u64,
            Some(data.nonce),
        );
        let granted = |port: u16|
            StepView {
                reply: map_response(
                    MapResponse {
                        result: ResultCode::Success,
                        lifetime_seconds: lifetime as u32,
                        epoch_time,
                        nonce: data.nonce,
                        protocol: data.protocol,
                        local_port: data.local_port,
                        external_port: port,
                        external_address: ctx.wan_ip,
                    },
                ),
                apply: true,
            };
        match outcome {
            AllocOutcome::Created(m) => (after, granted(m.external_port)),
            AllocOutcome::Renewed(m) => (after, granted(m.external_port)),
            AllocOutcome::Conflict => (after, refuse(ResultCode::CannotProvideExternal)),
            AllocOutcome::NoPortsAvailable => (after, refuse(ResultCode::NoResources)),
        }
    }
}

/// What a decoded packet does.
pub open spec fn request_step(
    ctx: ServerContext,
    reg: RegistryView,
    client_ip: Ipv4Addr,
    d: Decoded,
    now: u64,
) -> (RegistryView, StepView) {
    let refuse = |result: ResultCode|
        StepView {
            reply: match d.request {
                Request::Announce => header(OP_ANNOUNCE, result, 0, epoch(now)),
                Request::MapPort { data, .. } => refusal(result, data, epoch(now)),
                Request::UnsupportedProtocol { data } => refusal(result, data, epoch(now)),
            },
            apply: false,
        };
    if d.client_addr != client_ip.mapped() {
        (reg, refuse(ResultCode::AddressMismatch))
    } else if !ctx.downstream_cidr.holds(client_ip) {
        (reg, refuse(ResultCode::NotAuthorized))
    } else {
        match d.request {
            Request::Announce => (reg, refuse(ResultCode::Success)),
            Request::UnsupportedProtocol { .. } => (reg, refuse(ResultCode::UnsuppProtocol)),
            Request::MapPort { lifetime_seconds, data } => map_step(
                ctx,
                reg,
                client_ip,
                lifetime_seconds,
                data,
                now,
            ),
        }
    }
}

fn nonces_differ(a: [u8; 12], b: [u8; 12]) -> (r: bool)
    ensures
        r == (a != b),
{
    let mut i: usize = 0;
    while i < 12
        invariant
            i <= 12,
            forall|j: int| 0 <= j < i ==> a@[j] == b@[j],
        decreases 12 - i,
    {
        if a[i] != b[i] {
            return true;
        }
        i += 1;
    }
    assert(a@ =~= b@);
    assert(a =~= b);
    false
}

fn handle_map(
    ctx: &ServerContext,
    registry: &mut PortmapRegistry,
    client_ip: Ipv4Addr,
    lifetime_seconds: u32,
    data: MapData,
    now: u64,
) -> (r: Step)
    requires
        old(registry).wf(),
        ctx.wf(now),
    ensures
        final(registry).wf(),
        (final(registry)@, r@) == map_step(
            *ctx,
            old(registry)@,
            client_ip,
            lifetime_seconds,
            data,
            now,
        ),
{
    let epoch: u32 = epoch_time(now);
    if data.local_port == 0 {
        return Step {
            reply: encode_refusal(ResultCode::CannotProvideExternal, data, epoch),
            apply: false,
        };
    }
    if let Some(m) = registry.get_by_internal(data.protocol, client_ip, data.local_port) {
        if let Some(existing) = m.pcp_nonce {
            if nonces_differ(existing, data.nonce) {
                return Step {
                    reply: encode_refusal(ResultCode::NotAuthorized, data, epoch),
                    apply: false,
                };
            }
        }
    }
    if lifetime_seconds == 0 {
        registry.remove_by_internal(data.protocol, client_ip, data.local_port);
        return Step {
            reply: encode_map_response(
                MapResponse {
                    result: ResultCode::Success,
                    lifetime_seconds: 0,
                    epoch_time: epoch,
                    nonce: data.nonce,
                    protocol: data.protocol,
                    local_port: data.local_port,
                    external_port: 0,
                    external_address: ctx.wan_ip,
                },
            ),
            apply: true,
        };
    }
    let lifetime: u64 = ctx.granted(lifetime_seconds as u64);
    let preferred: Option<u16> = if data.external_port == 0 {
        None
    } else {
        Some(data.external_port)
    };
    let outcome = registry.allocate(
        data.protocol,
        client_ip,
        data.local_port,
        preferred,
        now,
        lifetime * 1000,
        Some(data.nonce),
    );
    let granted: u16 = match outcome {
        AllocOutcome::Created(m) => m.external_port,
        AllocOutcome::Renewed(m) => m.external_port,
        AllocOutcome::Conflict => {
            return Step {
                reply: encode_refusal(ResultCode::CannotProvideExternal, data, epoch),
                apply: false,
            };
        },
        AllocOutcome::NoPortsAvailable => {
            return Step {
                reply: encode_refusal(ResultCode::NoResources, data, epoch),
                apply: false,
            };
        },
    };
    Step {
        reply: encode_map_response(
            MapResponse {
                result: ResultCode::Success,
                lifetime_seconds: lifetime as u32,
                epoch_time: epoch,
                nonce: data.nonce,
                protocol: data.protocol,
                local_port: data.local_port,
                external_port: granted,
                external_address: ctx.wan_ip,
            },
        ),
        apply: true,
    }
}

/// Handles a single PCP packet: changes the registry and says what to reply.
/// `None` means that the packet is malformed and dropped.
pub fn handle_request(
    ctx: &ServerContext,
    registry: &mut PortmapRegistry,
    client_ip: Ipv4Addr,
    packet: &[u8],
    now: u64,
) -> (r: Option<Step>)
    requires
        old(registry).wf(),
        ctx.wf(now),
    ensures
        final(registry).wf(),
        match decoded(packet@) {
            Some(d) => r is Some && (final(registry)@, r->0@) == request_step(
                *ctx,
                old(registry)@,
                client_ip,
                d,
                now,
            ),
            None => r is None && final(registry)@ == old(registry)@,
        },
{
    let d = match decode(packet) {
        Some(d) => d,
        None => {
            return None;
        },
    };
    let epoch: u32 = epoch_time(now);
    let refused: Option<ResultCode> = if d.client_addr != client_ip.to_ipv6_mapped() {
        Some(ResultCode::AddressMismatch)
    } else if !ctx.downstream_cidr.contains(client_ip) {
        Some(ResultCode::NotAuthorized)
    } else {
        None
    };
    let reply = match (refused, d.request) {
        (Some(code), Request::Announce) => encode_announce_response(code, epoch),
        (Some(code), Request::MapPort { data, .. }) => encode_refusal(code, data, epoch),
        (Some(code), Request::UnsupportedProtocol { data }) => encode_refusal(code, data, epoch),
        (None, Request::Announce) => encode_announce_response(ResultCode::Success, epoch),
        (None, Request::UnsupportedProtocol { data }) => encode_refusal(
            ResultCode::UnsuppProtocol,
            data,
            epoch,
        ),
        (None, Request::MapPort { lifetime_seconds, data }) => {
            return Some(handle_map(ctx, registry, client_ip, lifetime_seconds, data, now));
        },
    };
    Some(Step { reply, apply: false })
}

/// A mapping that was made with one nonce is out of reach of a request with
/// another: it is refused and the registry stays as it is.
pub proof fn wrong_nonce_changes_nothing(
    ctx: ServerContext,
    reg: RegistryView,
    client_ip: Ipv4Addr,
    requested: u32,
    data: MapData,
    now: u64,
)
    requires
        data.local_port != 0,
        nonce_clashes(reg, client_ip, data),
    ensures
        map_step(ctx, reg, client_ip, requested, data, now).0 == reg,
        map_step(ctx, reg, client_ip, requested, data, now).1.reply == refusal(
            ResultCode::NotAuthorized,
            data,
            epoch(now),
        ),
{
}

/// A packet changes no mapping of any host but the one that sent it.
pub proof fn clients_touch_only_their_own(
    ctx: ServerContext,
    reg: RegistryView,
    client_ip: Ipv4Addr,
    d: Decoded,
    now: u64,
)
    ensures
        reg.same_but_for(request_step(ctx, reg, client_ip, d, now).0, client_ip),
{
    if let Request::MapPort { lifetime_seconds, data } = d.request {
        let (proto, port) = (data.protocol, data.local_port);
        registry::serving_is_exact(reg, proto, client_ip, port, 0);
        if reg.serving(proto, client_ip, port) is Some {
            registry::removing_spares_others(reg, reg.serving(proto, client_ip, port)->0);
        }
        let lifetime = ctx.grant(lifetime_seconds as u64);
        let wish = if data.external_port == 0 {
            None
        } else {
            Some(data.external_port)
        };
        let deadline = (now + lifetime * 1000) as u64;
        registry::allocating_spares_others(
            reg,
            proto,
            client_ip,
            port,
            wish,
            deadline,
            Some(data.nonce),
        );
    }
}

} // verus!
