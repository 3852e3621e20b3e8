//! NAT-PMP (RFC 6886): decoding requests, deciding, encoding replies.
use vstd::prelude::*;

use crate::addr::Ipv4Addr;
use crate::bytes::{be16, be32, get16, get32, push16, push32, read16, read32};
use crate::portmap::registry;
use crate::portmap::registry::{
    AllocOutcome, MapProto, MappingKey, PortmapRegistry, RegistryView,
};
use crate::portmap::server::{epoch, epoch_time, ServerContext};

verus! {

/// NAT-PMP wire-format version byte.
pub const VERSION: u8 = 0;

/// Server port, shared with PCP.
pub const SERVER_PORT: u16 = 5351;

/// Added to the opcode in a response.
pub const RESPONSE_INDICATOR: u8 = 0x80;

/// Result codes.
#[derive(Clone, Copy, Debug, PartialEq, Eq, Structural)]
pub enum ResultCode {
    /// The request was granted.
    Success,
    /// The version is not supported.
    UnsupportedVersion,
    /// The client may not ask for this.
    NotAuthorizedOrRefused,
    /// No port could be granted.
    OutOfResources,
    /// The request makes no sense.
    UnsupportedOpcode,
}

impl ResultCode {
    /// The code on the wire.
    pub open spec fn spec_code(self) -> int {
        match self {
            ResultCode::Success => 0,
            ResultCode::UnsupportedVersion => 1,
            ResultCode::NotAuthorizedOrRefused => 2,
            ResultCode::OutOfResources => 4,
            ResultCode::UnsupportedOpcode => 5,
        }
    }

    /// The code on the wire.
    pub fn code(self) -> (r: u16)
        ensures
            r as int == self.spec_code(),
    {
        match self {
            ResultCode::Success => 0,
            ResultCode::UnsupportedVersion => 1,
            ResultCode::NotAuthorizedOrRefused => 2,
            ResultCode::OutOfResources => 4,
            ResultCode::UnsupportedOpcode => 5,
        }
    }
}

/// Parsed NAT-PMP request.
#[derive(Clone, Copy, Debug, PartialEq, Eq, Structural)]
pub enum Request {
    /// Which address the router has outside.
    ExternalAddress,
    /// A mapping, or its end where the lifetime is 0.
    MapPort {
        /// The protocol.
        proto: MapProto,
        /// The client's port.
        local_port: u16,
        /// The port wished for, or 0.
        external_port: u16,
        /// The lifetime asked for.
        lifetime_seconds: u32,
    },
}

/// The request that a packet holds: opcode 0 asks for the address, 1 and 2 for
/// a UDP and a TCP mapping, which take twelve bytes.
pub open spec fn decoded(s: Seq<u8>) -> Option<Request> {
    if s.len() < 2 || s[0] != VERSION {
        None
    } else if s[1] == 0 {
        Some(Request::ExternalAddress)
    } else if (s[1] == 1 || s[1] == 2) && s.len() >= 12 {
        Some(
            Request::MapPort {
                proto: if s[1] == 1 {
                    MapProto::Udp
                } else {
                    MapProto::Tcp
                },
                local_port: get16(s, 4) as u16,
                external_port: get16(s, 6) as u16,
                lifetime_seconds: get32(s, 8) as u32,
            },
        )
    } else {
        None
    }
}

impl Request {
    /// Decodes a request; `None` where the packet holds none.
    pub fn decode(buf: &[u8]) -> (r: Option<Request>)
        ensures
            r == decoded(buf@),
    {
        if buf.len() < 2 || buf[0] != VERSION {
            return None;
        }
        let op = buf[1];
        if op == 0 {
            return Some(Request::ExternalAddress);
        }
        if (op == 1 || op == 2) && buf.len() >= 12 {
            let proto = if op == 1 {
                MapProto::Udp
            } else {
                MapProto::Tcp
            };
            return Some(
                Request::MapPort {
                    proto,
                    local_port: read16(buf, 4),
                    external_port: read16(buf, 6),
                    lifetime_seconds: read32(buf, 8),
                },
            );
        }
        None
    }
}

/// The bytes of a reply that tells the external address.
pub open spec fn external_reply(result: ResultCode, epoch_time: u32, ip: Ipv4Addr) -> Seq<u8> {
    seq![VERSION, 0x80u8] + be16(result.spec_code()) + be32(epoch_time as int) + be32(ip.bits as int)
}

/// The bytes of a reply to a map request.
pub open spec fn map_reply(
    proto: MapProto,
    result: ResultCode,
    epoch_time: u32,
    private_port: u16,
    external_port: u16,
    lifetime_seconds: u32,
) -> Seq<u8> {
    let op: u8 = match proto {
        MapProto::Udp => 0x81,
        MapProto::Tcp => 0x82,
    };
    seq![VERSION, op] + be16(result.spec_code()) + be32(epoch_time as int) + be16(
        private_port as int,
    ) + be16(external_port as int) + be32(lifetime_seconds as int)
}

/// Encodes the reply that tells the external address.
pub fn encode_external_response(
    result: ResultCode,
    epoch_time: u32,
    public_ip: Ipv4Addr,
) -> (r: Vec<u8>)
    ensures
        r@ == external_reply(result, epoch_time, public_ip),
{
    let mut buf: Vec<u8> = Vec::new();
    buf.push(VERSION);
    buf.push(RESPONSE_INDICATOR);
    assert(buf@ =~= seq![VERSION, 0x80u8]);
    push16(&mut buf, result.code());
    push32(&mut buf, epoch_time);
    push32(&mut buf, public_ip.bits);
    buf
}

/// Encodes the reply to a map request.
pub fn encode_map_response(
    proto: MapProto,
    result: ResultCode,
    epoch_time: u32,
    private_port: u16,
    external_port: u16,
    lifetime_seconds: u32,
) -> (r: Vec<u8>)
    ensures
        r@ == map_reply(
            proto,
            result,
            epoch_time,
            private_port,
            external_port,
            lifetime_seconds,
        ),
{
    let mut buf: Vec<u8> = Vec::new();
    let op: u8 = match proto {
        MapProto::Udp => 1,
        MapProto::Tcp => 2,
    };
    buf.push(VERSION);
    buf.push(RESPONSE_INDICATOR + op);
    assert(buf@ =~= seq![VERSION, (0x80 + op) as u8]);
    push16(&mut buf, result.code());
    push32(&mut buf, epoch_time);
    push16(&mut buf, private_port);
    push16(&mut buf, external_port);
    push32(&mut buf, lifetime_seconds);
    buf
}

/// A change of the registry whose rules have yet to be applied, with what the
/// client is told afterwards.
#[derive(Clone, Copy, Debug, PartialEq, Eq, Structural)]
pub struct PendingMap {
    /// The protocol.
    pub proto: MapProto,
    /// The client's port.
    pub local_port: u16,
    /// The port granted, or 0 for a mapping that was deleted.
    pub external_port: u16,
    /// The lifetime granted.
    pub lifetime_seconds: u32,
    /// The mapping that was added, to be taken back where the rules fail.
    pub created: Option<MappingKey>,
}

/// What to do about a packet.
#[derive(Debug)]
pub enum Step {
    /// Send the reply.
    Reply(Vec<u8>),
    /// Apply the rules of the registry, then finish.
    Apply(PendingMap),
}

/// What to do about a packet.
pub enum StepView {
    /// Send the reply.
    Reply(Seq<u8>),
    /// Apply the rules of the registry, then finish.
    Apply(PendingMap),
}

impl View for Step {
    type V = StepView;

    open spec fn view(&self) -> StepView {
        match self {
            Step::Reply(b) => StepView::Reply(b@),
            Step::Apply(p) => StepView::Apply(*p),
        }
    }
}

/// What a map request of a client on the downstream network does.
pub open spec fn map_step(
    ctx: ServerContext,
    reg: RegistryView,
    client_ip: Ipv4Addr,
    proto: MapProto,
    local_port: u16,
    external_port: u16,
    requested: u32,
    now: u64,
) -> (RegistryView, StepView) {
    if local_port == 0 {
        (
            reg,
            StepView::Reply(
                map_reply(proto, ResultCode::UnsupportedOpcode, epoch(now), local_port, 0, 0),
            ),
        )
    } else if requested == 0 {
        let after = match reg.serving(proto, client_ip, local_port) {
            Some(i) => reg.without(i),
            None => reg,
        };
        (
            after,
            StepView::Apply(
                PendingMap {
                    proto,
                    local_port,
                    external_port: 0,
                    lifetime_seconds: 0,
                    created: None,
                },
            ),
        )
    } else {
        let lifetime = ctx.grant(requested as u64);
        let wish = if external_port == 0 {
            None
        } else {
            Some(external_port)
        };
        let (after, outcome) = reg.allocate(
            proto,
            client_ip,
            local_port,
            wish,
            (now + lifetime * 1000) as u64,
            None,
        );
        match outcome {
            AllocOutcome::Created(m) => (
                after,
                StepView::Apply(
                    PendingMap {
                        proto,
                        local_port,
                        external_port: m.external_port,
                        lifetime_seconds: lifetime as u32,
                        created: Some(
                            MappingKey { proto: m.proto, external_port: m.external_port },
                        ),
                    },
                ),
            ),
            AllocOutcome::Renewed(m) => (
                after,
                StepView::Apply(
                    PendingMap {
                        proto,
                        local_port,
                        external_port: m.external_port,
                        lifetime_seconds: lifetime as u32,
                        created: None,
                    },
                ),
            ),
            _ => (
                after,
                StepView::Reply(
                    map_reply(proto, ResultCode::OutOfResources, epoch(now), local_port, 0, 0),
                ),
            ),
        }
    }
}

/// What a packet does: nothing where it holds no request, a refusal where the
/// client is not on the downstream network, the request otherwise.
pub open spec fn step(
    ctx: ServerContext,
    reg: RegistryView,
    client_ip: Ipv4Addr,
    packet: Seq<u8>,
    now: u64,
) -> (RegistryView, Option<StepView>) {
    match decoded(packet) {
        None => (reg, None),
        Some(request) => if !ctx.downstream_cidr.holds(client_ip) {
            let refused = ResultCode::NotAuthorizedOrRefused;
            let reply = match request {
                Request::ExternalAddress => external_reply(
                    refused,
                    epoch(now),
                    Ipv4Addr { bits: 0 },
                ),
                Request::MapPort { proto, .. } => map_reply(proto, refused, epoch(now), 0, 0, 0),
            };
            (reg, Some(StepView::Reply(reply)))
        } else {
            match request {
                Request::ExternalAddress => (
                    reg,
                    Some(
                        StepView::Reply(
                            external_reply(ResultCode::Success, epoch(now), ctx.wan_ip),
                        ),
                    ),
                ),
                Request::MapPort { proto, local_port, external_port, lifetime_seconds } => {
                    let (after, s) = map_step(
                        ctx,
                        reg,
                        client_ip,
                        proto,
                        local_port,
                        external_port,
                        lifetime_seconds,
                        now,
                    );
                    (after, Some(s))
                },
            }
        },
    }
}

fn handle_map(
    ctx: &ServerContext,
    registry: &mut PortmapRegistry,
    client_ip: Ipv4Addr,
    proto: MapProto,
    local_port: u16,
    external_port: u16,
    requested_lifetime: u32,
    now: u64,
) -> (r: Step)
    requires
        old(registry).wf(),
        ctx.wf(now),
    ensures
        final(registry).wf(),
        (final(registry)@, r@) == map_step(
            *ctx,
            old(registry)@,
            client_ip,
            proto,
            local_port,
            external_port,
            requested_lifetime,
            now,
        ),
{
    if local_port == 0 {
        return Step::Reply(
            encode_map_response(
                proto,
                ResultCode::UnsupportedOpcode,
                epoch_time(now),
                local_port,
                0,
                0,
            ),
        );
    }
    if requested_lifetime == 0 {
        registry.remove_by_internal(proto, client_ip, local_port);
        return Step::Apply(
            PendingMap { proto, local_port, external_port: 0, lifetime_seconds: 0, created: None },
        );
    }
    let lifetime: u64 = ctx.granted(requested_lifetime as u64);
    let preferred: Option<u16> = if external_port == 0 {
        None
    } else {
        Some(external_port)
    };
    let outcome = registry.allocate(
        proto,
        client_ip,
        local_port,
        preferred,
        now,
        lifetime * 1000,
        None,
    );
    match outcome {
        AllocOutcome::Created(m) => Step::Apply(
            PendingMap {
                proto,
                local_port,
                external_port: m.external_port,
                lifetime_seconds: lifetime as u32,
                created: Some(MappingKey { proto: m.proto, external_port: m.external_port }),
            },
        ),
        AllocOutcome::Renewed(m) => Step::Apply(
            PendingMap {
                proto,
                local_port,
                external_port: m.external_port,
                lifetime_seconds: lifetime as u32,
                created: None,
            },
        ),
        _ => Step::Reply(
            encode_map_response(
                proto,
                ResultCode::OutOfResources,
                epoch_time(now),
                local_port,
                0,
                0,
            ),
        ),
    }
}

/// Handles a single NAT-PMP packet: changes the registry and says what to do
/// next. `None` means that the packet is dropped.
pub fn handle_request(
    ctx: &ServerContext,
    registry: &mut PortmapRegistry,
    client_ip: Ipv4Addr,
    packet: &[u8],
    now: u64,
) -> (r: Option<Step>)
    requires
        old(registry).wf(),
        ctx.wf(now),
    ensures
        final(registry).wf(),
        final(registry)@ == step(*ctx, old(registry)@, client_ip, packet@, now).0,
        match r {
            Some(s) => step(*ctx, old(registry)@, client_ip, packet@, now).1 == Some(s@),
            None => step(*ctx, old(registry)@, client_ip, packet@, now).1 is None,
        },
{
    let request = match Request::decode(packet) {
        Some(q) => q,
        None => {
            return None;
        },
    };
    if !ctx.downstream_cidr.contains(client_ip) {
        return Some(
            match request {
                Request::ExternalAddress => Step::Reply(
                    encode_external_response(
                        ResultCode::NotAuthorizedOrRefused,
                        epoch_time(now),
                        Ipv4Addr::unspecified(),
                    ),
                ),
                Request::MapPort { proto, .. } => Step::Reply(
                    encode_map_response(
                        proto,
                        ResultCode::NotAuthorizedOrRefused,
                        epoch_time(now),
                        0,
                        0,
                        0,
                    ),
                ),
            },
        );
    }
    match request {
        Request::ExternalAddress => Some(
            Step::Reply(
                encode_external_response(ResultCode::Success, epoch_time(now), ctx.wan_ip),
            ),
        ),
        Request::MapPort { proto, local_port, external_port, lifetime_seconds } => Some(
            handle_map(
                ctx,
                registry,
                client_ip,
                proto,
                local_port,
                external_port,
                lifetime_seconds,
                now,
            ),
        ),
    }
}

/// Ends a change once its rules were applied or failed to be. A mapping that
/// was added is taken back where they failed, and the client is told to try
/// later.
pub fn finish(
    pending: PendingMap,
    registry: &mut PortmapRegistry,
    applied: bool,
    now: u64,
) -> (r: Vec<u8>)
    requires
        old(registry).wf(),
    ensures
        final(registry).wf(),
        !applied && pending.created is Some ==> {
            &&& r@ == map_reply(
                pending.proto,
                ResultCode::OutOfResources,
                epoch(now),
                pending.local_port,
                0,
                0,
            )
            &&& match old(registry)@.holding(
                pending.created->0.proto,
                pending.created->0.external_port as int,
            ) {
                Some(i) => final(registry)@ == old(registry)@.without(i),
                None => final(registry)@ == old(registry)@,
            }
        },
        applied || pending.created is None ==> {
            &&& r@ == map_reply(
                pending.proto,
                ResultCode::Success,
                epoch(now),
                pending.local_port,
                pending.external_port,
                pending.lifetime_seconds,
            )
            &&& final(registry)@ == old(registry)@
        },
{
    if !applied {
        if let Some(key) = pending.created {
            registry.remove(key);
            return encode_map_response(
                pending.proto,
                ResultCode::OutOfResources,
                epoch_time(now),
                pending.local_port,
                0,
                0,
            );
        }
    }
    encode_map_response(
        pending.proto,
        ResultCode::Success,
        epoch_time(now),
        pending.local_port,
        pending.external_port,
        pending.lifetime_seconds,
    )
}

/// A client outside the downstream network changes nothing and is refused.
pub proof fn outsider_is_refused(
    ctx: ServerContext,
    reg: RegistryView,
    client_ip: Ipv4Addr,
    packet: Seq<u8>,
    now: u64,
)
    requires
        !ctx.downstream_cidr.holds(client_ip),
    ensures
        step(ctx, reg, client_ip, packet, now).0 == reg,
        decoded(packet) is Some ==> {
            let s = step(ctx, reg, client_ip, packet, now).1;
            &&& s is Some
            &&& s->0 is Reply
            &&& get16(s->0->Reply_0, 2) == ResultCode::NotAuthorizedOrRefused.spec_code()
        },
{
    if decoded(packet) is Some {
        let b = step(ctx, reg, client_ip, packet, now).1->0->Reply_0;
        assert(b[2] == 0 && b[3] == 2);
    }
}

/// A packet changes no mapping of any host but the one that sent it.
pub proof fn clients_touch_only_their_own(
    ctx: ServerContext,
    reg: RegistryView,
    client_ip: Ipv4Addr,
    packet: Seq<u8>,
    now: u64,
)
    ensures
        reg.same_but_for(step(ctx, reg, client_ip, packet, now).0, client_ip),
{
    if let Some(Request::MapPort { proto, local_port, external_port, lifetime_seconds }) = decoded(
        packet,
    ) {
        registry::serving_is_exact(reg, proto, client_ip, local_port, 0);
        if reg.serving(proto, client_ip, local_port) is Some {
            registry::removing_spares_others(reg, reg.serving(proto, client_ip, local_port)->0);
        }
        let lifetime = ctx.grant(lifetime_seconds as u64);
        let wish = if external_port == 0 {
            None
        } else {
            Some(external_port)
        };
        let deadline = (now + lifetime * 1000) as u64;
        registry::allocating_spares_others(reg, proto, client_ip, local_port, wish, deadline, None);
    }
}

/// A mapping that a packet has added is found under the key that is kept for
/// the case of failure, and without it the registry holds what it held before.
pub proof fn failing_takes_back(
    ctx: ServerContext,
    reg: RegistryView,
    client_ip: Ipv4Addr,
    packet: Seq<u8>,
    now: u64,
)
    requires
        reg.wf(),
        step(ctx, reg, client_ip, packet, now).1 matches Some(StepView::Apply(p))
            && p.created is Some,
    ensures
        ({
            let (after, s) = step(ctx, reg, client_ip, packet, now);
            let key = s->0->Apply_0.created->0;
            let i = after.holding(key.proto, key.external_port as int);
            i is Some && after.without(i->0).entries == reg.entries
        }),
{
    if let Some(Request::MapPort { proto, local_port, external_port, lifetime_seconds }) = decoded(
        packet,
    ) {
        let lifetime = ctx.grant(lifetime_seconds as u64);
        let wish = if external_port == 0 {
            None
        } else {
            Some(external_port)
        };
        let deadline = (now + lifetime * 1000) as u64;
        registry::removing_undoes_creating(reg, proto, client_ip, local_port, wish, deadline, None);
    }
}

} // verus!
