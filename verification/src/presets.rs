//! What the presets stand for, and what the commands ask of the kernel.
use vstd::arithmetic::power2::pow2;
use vstd::prelude::*;

use crate::addr::Ipv6Addr;
use crate::firewall::{Firewall, FirewallConfig};
use crate::limits;
use crate::nat_config::{Nat, NatConfig, NatConfigError, NatFiltering, NatMapping};
use crate::nft::wan_prefix;
use crate::qdisc::{
    netem_command, preset_named, read_condition, rounded, tbf_command, with_buffer, with_rtt,
    ConditionEntry, ConditionError, LinkCondition, NumberField, Percent, PercentTexts, WidePercent,
};
use crate::text::{dec, parse_number};

verus! {

// ── link presets ─────────────────────────────────────────────────────

/// Whether a link has these limits and no impairment besides: the rate in kbit/s, 0
/// for none; the delay and its variation; the loss as the bits of a single; the mean
/// length of a loss burst, and the depth of the queue, 0 for none.
pub open spec fn has_limits(
    c: LinkCondition,
    rate: int,
    latency: int,
    jitter: int,
    loss: int,
    burst: int,
    buffer: int,
) -> bool {
    &&& rate == 0 ==> c.rate_kbit is None
    &&& rate > 0 ==> c.rate_kbit is Some && c.rate_kbit->0 == rate
    &&& c.latency_ms == latency
    &&& c.jitter_ms == jitter
    &&& c.loss_pct.bits == loss
    &&& burst == 0 ==> c.loss_burst_pkts is None
    &&& burst > 0 ==> c.loss_burst_pkts is Some && c.loss_burst_pkts->0 == burst
    &&& buffer == 0 ==> c.buffer_ms is None
    &&& buffer > 0 ==> c.buffer_ms is Some && c.buffer_ms->0 == buffer
    &&& c.reorder_pct.bits == 0
    &&& c.duplicate_pct.bits == 0
    &&& c.corrupt_pct.bits == 0
}

/// The link presets by their names, each with its limits. The losses are 0.1 %, 1.5 %,
/// 0.3 % and 0.5 % as single-precision numbers.
pub proof fn link_presets_have_their_limits(name: Seq<char>)
    ensures
        preset_named(name) is Some <==> name == "lan"@ || name == "wifi"@ || name == "wifi-bad"@
            || name == "mobile-4g"@ || name == "mobile"@ || name == "mobile-3g"@ || name
            == "satellite"@ || name == "satellite-geo"@,
        name == "lan"@ ==> has_limits(preset_named(name)->0, 0, 1, 0, 0, 0, 0),
        name == "wifi"@ ==> has_limits(preset_named(name)->0, 200_000, 4, 2, 0x3dcc_cccd, 5, 15),
        name == "wifi-bad"@ ==> has_limits(
            preset_named(name)->0,
            25_000,
            25,
            15,
            0x3fc0_0000,
            8,
            60,
        ),
        name == "mobile-4g"@ || name == "mobile"@ ==> has_limits(
            preset_named(name)->0,
            40_000,
            25,
            10,
            0x3e99_999a,
            6,
            100,
        ),
        name == "mobile-3g"@ ==> has_limits(
            preset_named(name)->0,
            3_000,
            80,
            25,
            0x3f00_0000,
            6,
            250,
        ),
        name == "satellite"@ ==> has_limits(
            preset_named(name)->0,
            100_000,
            22,
            10,
            0x3f00_0000,
            4,
            50,
        ),
        name == "satellite-geo"@ ==> has_limits(
            preset_named(name)->0,
            25_000,
            300,
            20,
            0x3e99_999a,
            4,
            600,
        ),
{
    names_differ();
}

proof fn names_differ()
    ensures
        "lan"@.len() == 3,
        "wifi"@.len() == 4,
        "mobile"@.len() == 6,
        "wifi-bad"@.len() == 8,
        "mobile-4g"@.len() == 9 && "mobile-4g"@[7] == '4',
        "mobile-3g"@.len() == 9 && "mobile-3g"@[7] == '3',
        "satellite"@.len() == 9 && "satellite"@[7] == 't',
        "satellite-geo"@.len() == 13,
{
    reveal_strlit("lan");
    reveal_strlit("wifi");
    reveal_strlit("mobile");
    reveal_strlit("wifi-bad");
    reveal_strlit("mobile-4g");
    reveal_strlit("mobile-3g");
    reveal_strlit("satellite");
    reveal_strlit("satellite-geo");
}

/// The plain limits of the named link conditions, and the profile that limits stand
/// for: losses come one by one, and a rate of 0 is no cap.
pub proof fn link_limits_are_these(name: Seq<char>, l: limits::LinkLimits)
    ensures
        limits::condition_named(name) is Some <==> preset_named(name) is Some,
        ({
            let p = limits::condition_named(name)->0.limits().profile();
            &&& name == "lan"@ ==> has_limits(p, 0, 0, 0, 0, 0, 0)
            &&& name == "wifi"@ ==> has_limits(p, 0, 5, 2, 0x3dcc_cccd, 0, 0)
            &&& name == "wifi-bad"@ ==> has_limits(p, 20_000, 40, 15, 0x4000_0000, 0, 0)
            &&& name == "mobile-4g"@ || name == "mobile"@ ==> has_limits(
                p,
                0,
                25,
                8,
                0x3f00_0000,
                0,
                0,
            )
            &&& name == "mobile-3g"@ ==> has_limits(p, 2_000, 100, 30, 0x4000_0000, 0, 0)
            &&& name == "satellite"@ ==> has_limits(p, 0, 40, 7, 0x3f80_0000, 0, 0)
            &&& name == "satellite-geo"@ ==> has_limits(p, 25_000, 300, 20, 0x3f00_0000, 0, 0)
        }),
        limits::LinkCondition::Manual(l).limits() == l,
        l.profile().rate_kbit is Some <==> l.rate_kbit != 0,
        l.rate_kbit != 0 ==> l.profile().rate_kbit->0 == l.rate_kbit,
        l.profile().latency_ms == l.latency_ms && l.profile().jitter_ms == l.jitter_ms,
        l.profile().loss_pct == l.loss_pct && l.profile().reorder_pct == l.reorder_pct,
        l.profile().duplicate_pct == l.duplicate_pct && l.profile().corrupt_pct == l.corrupt_pct,
        l.profile().loss_burst_pkts is None && l.profile().buffer_ms is None,
{
    names_differ();
}

/// A round-trip time is halved into the delay of one direction, rounded down, and a
/// queue that was not set before holds a whole round trip. Nothing else changes.
pub proof fn round_trips_are_halved(c: LinkCondition, rtt: u32, ms: u32)
    ensures
        ({
            let d = with_rtt(c, rtt);
            &&& d.latency_ms * 2 == rtt || d.latency_ms * 2 + 1 == rtt
            &&& c.buffer_ms is None ==> d.buffer_ms == Some(rtt)
            &&& c.buffer_ms is Some ==> d.buffer_ms == c.buffer_ms
            &&& d == (LinkCondition { latency_ms: d.latency_ms, buffer_ms: d.buffer_ms, ..c })
            &&& with_buffer(c, ms).buffer_ms == Some(ms)
            &&& with_buffer(c, ms) == (LinkCondition {
                buffer_ms: with_buffer(c, ms).buffer_ms,
                ..c
            })
        }),
{
}

// ── percentages ──────────────────────────────────────────────────────

/// Which bits of a single stand for a number above zero: the sign bit is clear, and
/// the rest is neither zero nor beyond infinity.
pub proof fn positive_percentages(p: Percent, w: WidePercent)
    ensures
        p.spec_positive() <==> ({
            let sign = p.bits as int / 0x8000_0000;
            let exponent = (p.bits as int / 0x80_0000) % 256;
            let fraction = p.bits as int % 0x80_0000;
            sign == 0 && (exponent != 0 || fraction != 0) && !(exponent == 255 && fraction != 0)
        }),
        p.spec_nan() <==> ({
            let exponent = (p.bits as int / 0x80_0000) % 256;
            let fraction = p.bits as int % 0x80_0000;
            exponent == 255 && fraction != 0
        }),
        w.spec_positive() <==> ({
            let sign = w.bits as int / 0x8000_0000_0000_0000;
            let exponent = (w.bits as int / 0x10_0000_0000_0000) % 2048;
            let fraction = w.bits as int % 0x10_0000_0000_0000;
            sign == 0 && (exponent != 0 || fraction != 0) && !(exponent == 2047 && fraction != 0)
        }),
{
}

/// Rounding takes the nearest whole number, and the even one where two are as near.
pub proof fn rounding_is_to_the_nearest(n: nat, k: nat)
    ensures
        ({
            let d = pow2(k) as int;
            let r = rounded(n, k) as int;
            &&& -d <= 2 * (n as int - r * d) <= d
            &&& 2 * (n as int - r * d) == d || 2 * (n as int - r * d) == -d ==> r % 2 == 0
        }),
{
    vstd::arithmetic::power2::lemma_pow2_pos(k);
    let d = pow2(k) as int;
    let q = n as int / d;
    let m = n as int % d;
    vstd::arithmetic::div_mod::lemma_fundamental_div_mod(n as int, d);
    assert(n as int == q * d + m) by (nonlinear_arith)
        requires
            n as int == d * q + m,
    ;
    assert((q + 1) * d == q * d + d) by (nonlinear_arith);
}

/// A double in the range of the normal singles keeps its sign and its exponent, and
/// its fraction is rounded to 23 bits; one that is too large is infinite, and
/// infinity and what is no number stay so.
pub proof fn doubles_are_narrowed(w: WidePercent)
    ensures
        ({
            let sign = w.bits as int / 0x8000_0000_0000_0000;
            let exponent = (w.bits as int / 0x10_0000_0000_0000) % 2048;
            let fraction = w.bits as int % 0x10_0000_0000_0000;
            let p = w.spec_narrow();
            &&& 897 <= exponent <= 1150 ==> p.bits as int == sign * 0x8000_0000 + (exponent - 896)
                * 0x80_0000 + rounded(fraction as nat, 29)
            &&& 1150 < exponent < 2047 || (exponent == 2047 && fraction == 0) ==> p.bits as int
                == sign * 0x8000_0000 + 0x7f80_0000
            &&& exponent == 2047 && fraction != 0 ==> p.spec_nan()
            &&& exponent < 873 ==> p.bits as int == sign * 0x8000_0000
            &&& 873 <= exponent < 897 ==> p.bits as int == sign * 0x8000_0000 + rounded(
                (0x10_0000_0000_0000 + fraction) as nat,
                (926 - exponent) as nat,
            )
        }),
{
    let fraction = w.bits as nat % 0x10_0000_0000_0000;
    let exponent = (w.bits as nat / 0x10_0000_0000_0000) % 0x800;
    assert(rounded(fraction, 29) <= 0x80_0000) by {
        vstd::arithmetic::power2::lemma2_to64();
        vstd::arithmetic::power2::lemma2_to64_rest();
        assert(pow2(29) == 0x2000_0000);
    }
    if 873 <= exponent < 897 {
        let k = (926 - exponent) as nat;
        vstd::arithmetic::power2::lemma2_to64();
        vstd::arithmetic::power2::lemma2_to64_rest();
        vstd::arithmetic::power2::lemma_pow2_pos(k);
        if k > 30 {
            vstd::arithmetic::power2::lemma_pow2_strictly_increases(30, k);
        }
        let n = 0x10_0000_0000_0000 + fraction;
        vstd::arithmetic::div_mod::lemma_div_is_ordered_by_denominator(
            n as int,
            0x4000_0000,
            pow2(k) as int,
        );
        assert(pow2(30) == 0x4000_0000);
        assert(n / 0x4000_0000 <= 0x80_0000);
    }
}

// ── commands ─────────────────────────────────────────────────────────

/// What the command that impairs a link asks for, option by option: a delay where
/// there is latency or jitter, with the jitter where there is any; a loss where there
/// is one, in bursts where the mean burst is two packets or more; and reordering,
/// duplication and corruption where there are any.
pub proof fn impairments_are_asked_for(ifname: Seq<char>, c: LinkCondition, t: PercentTexts)
    ensures
        netem_command(ifname, c, t) == seq![
            "qdisc"@,
            "add"@,
            "dev"@,
            ifname,
            "root"@,
            "handle"@,
            "1:"@,
            "netem"@,
        ] + (if c.latency_ms == 0 && c.jitter_ms == 0 {
            Seq::empty()
        } else if c.jitter_ms == 0 {
            seq!["delay"@, dec(c.latency_ms as nat) + "ms"@]
        } else {
            seq!["delay"@, dec(c.latency_ms as nat) + "ms"@, dec(c.jitter_ms as nat) + "ms"@]
        }) + (if !above_zero(c.loss_pct) {
            Seq::empty()
        } else if c.loss_burst_pkts is None || c.loss_burst_pkts->0 < 2 {
            seq!["loss"@, t.loss@]
        } else {
            seq!["loss"@, "gemodel"@, t.burst_enter@, t.burst_leave@]
        }) + (if above_zero(c.reorder_pct) {
            seq!["reorder"@, t.reorder@]
        } else {
            Seq::empty()
        }) + (if above_zero(c.duplicate_pct) {
            seq!["duplicate"@, t.duplicate@]
        } else {
            Seq::empty()
        }) + (if above_zero(c.corrupt_pct) {
            seq!["corrupt"@, t.corrupt@]
        } else {
            Seq::empty()
        }),
{
}

/// Whether the bits of a single stand for a number above zero.
pub open spec fn above_zero(p: Percent) -> bool {
    p.bits != 0 && p.bits <= 0x7f80_0000
}

/// What the command that caps a link's rate asks for: the rate, and a queue as deep
/// as the buffer, at least 1 ms, or 400 ms where none is set. It hangs below the
/// impairment.
pub proof fn rates_are_capped(ifname: Seq<char>, rate: u32, buffer: Option<u32>)
    ensures
        tbf_command(ifname, rate, buffer) == seq![
            "qdisc"@,
            "add"@,
            "dev"@,
            ifname,
            "parent"@,
            "1:1"@,
            "handle"@,
            "10:"@,
            "tbf"@,
            "rate"@,
            dec(rate as nat) + "kbit"@,
            "burst"@,
            "32kbit"@,
            "latency"@,
            dec(
                match buffer {
                    None => 400,
                    Some(n) => if n == 0 {
                        1
                    } else {
                        n as nat
                    },
                },
            ) + "ms"@,
        ],
{
}

// ── configuration entries ────────────────────────────────────────────

/// A profile in a configuration file is a preset by its name, or a table: what the
/// table leaves out, or gives as an empty text, is 0 or unset; a text that is no
/// number is an error.
pub proof fn profiles_are_read(entry: ConditionEntry)
    ensures
        entry matches ConditionEntry::Preset(name) ==> ({
            &&& preset_named(name@) is Some ==> read_condition(entry) == Ok::<
                LinkCondition,
                ConditionError,
            >(preset_named(name@)->0)
            &&& preset_named(name@) is None ==> read_condition(entry) == Err::<
                LinkCondition,
                ConditionError,
            >(ConditionError::UnknownPreset)
        }),
        entry matches ConditionEntry::Fields(f) ==> ({
            let readable = well_written(f.rate_kbit) && well_written(f.latency_ms) && well_written(
                f.jitter_ms,
            ) && well_written(f.loss_burst_pkts) && well_written(f.buffer_ms);
            let c = read_condition(entry)->Ok_0;
            &&& read_condition(entry) is Ok <==> readable
            &&& !readable ==> read_condition(entry) == Err::<LinkCondition, ConditionError>(
                ConditionError::NotANumber,
            )
            &&& readable ==> {
                &&& c.rate_kbit == value_of(f.rate_kbit)
                &&& c.latency_ms == or_zero(value_of(f.latency_ms))
                &&& c.jitter_ms == or_zero(value_of(f.jitter_ms))
                &&& c.loss_burst_pkts == value_of(f.loss_burst_pkts)
                &&& c.buffer_ms == value_of(f.buffer_ms)
                &&& c.loss_pct == f.loss_pct && c.reorder_pct == f.reorder_pct
                &&& c.duplicate_pct == f.duplicate_pct && c.corrupt_pct == f.corrupt_pct
                &&& c.label is None
            }
        }),
{
}

/// Whether a field can be read: a text that is not empty has to be a number of 32
/// bits.
pub open spec fn well_written(f: NumberField) -> bool {
    f matches NumberField::Text(s) ==> s@.len() == 0 || parse_number(s@, 10, u32::MAX as int)
        is Some
}

/// The number that a field gives, if it gives one.
pub open spec fn value_of(f: NumberField) -> Option<u32> {
    match f {
        NumberField::Absent => None,
        NumberField::Number(n) => Some(n),
        NumberField::Text(s) => if s@.len() == 0 {
            None
        } else {
            Some(parse_number(s@, 10, u32::MAX as int)->0 as u32)
        },
    }
}

/// A number, or 0.
pub open spec fn or_zero(x: Option<u32>) -> u32 {
    match x {
        Some(n) => n,
        None => 0,
    }
}

// ── NAT and firewall presets ─────────────────────────────────────────

/// What the NAT presets stand for: no NAT; open to everyone; open to those that were
/// contacted, on a port that is the same for all; or that on a port of its own for
/// each. All forget UDP packets after 30 seconds, UDP streams after 300 and TCP
/// connections after 7200, and none hairpins.
pub proof fn nat_presets_are_these(custom: NatConfig)
    ensures
        Nat::Off.spec_config() is None,
        Nat::Easiest.spec_config()->0.mapping == NatMapping::EndpointIndependent,
        Nat::Easiest.spec_config()->0.filtering == NatFiltering::EndpointIndependent,
        Nat::Easy.spec_config()->0.mapping == NatMapping::EndpointIndependent,
        Nat::Easy.spec_config()->0.filtering == NatFiltering::AddressAndPortDependent,
        Nat::Hard.spec_config()->0.mapping == NatMapping::EndpointDependent,
        Nat::Hard.spec_config()->0.filtering == NatFiltering::AddressAndPortDependent,
        Nat::Custom(custom).spec_config() == Some(custom),
        forall|n: Nat|
            n == Nat::Easiest || n == Nat::Easy || n == Nat::Hard ==> {
                &&& (#[trigger] n.spec_config()) is Some
                &&& n.spec_config()->0.timeouts.udp == 30
                &&& n.spec_config()->0.timeouts.udp_stream == 300
                &&& n.spec_config()->0.timeouts.tcp_established == 7200
                &&& !n.spec_config()->0.hairpin
            },
{
}

/// Which NAT configurations can be expressed: with endpoint-independent mapping all
/// of them, with endpoint-dependent mapping those that neither filter by address
/// alone nor hairpin.
pub proof fn expressible_nats(c: NatConfig)
    ensures
        c.mapping == NatMapping::EndpointIndependent ==> c.problem() is None,
        c.mapping == NatMapping::EndpointDependent && c.filtering
            == NatFiltering::AddressDependent ==> c.problem() == Some(
            NatConfigError::AdfRequiresEim,
        ),
        c.mapping == NatMapping::EndpointDependent && c.filtering != NatFiltering::AddressDependent
            && c.hairpin ==> c.problem() == Some(NatConfigError::HairpinRequiresEim),
        c.mapping == NatMapping::EndpointDependent && c.filtering != NatFiltering::AddressDependent
            && !c.hairpin ==> c.problem() is None,
{
}

/// A firewall that is off has no rules, and a custom one is as it is given.
pub proof fn firewalls_off_and_custom(cfg: FirewallConfig)
    ensures
        Firewall::Off.spec_config() is None,
        Firewall::Custom(cfg).spec_config() == Some(cfg@),
{
}

/// What the other firewalls let out: one that only blocks what comes in lets everything
/// out, a corporate one TCP to ports 80 and 443 and UDP to port 53, and a captive portal
/// all TCP and UDP to port 53. All of them block what comes in.
pub proof fn firewalls_let_out(port: u16)
    ensures
        ({
            let (b, c, p) = (
                Firewall::BlockInbound.spec_config(),
                Firewall::Corporate.spec_config(),
                Firewall::CaptivePortal.spec_config(),
            );
            &&& b is Some && c is Some && p is Some
            &&& b->0.block_inbound && c->0.block_inbound && p->0.block_inbound
            &&& b->0.outbound_tcp.allows(port) && b->0.outbound_udp.allows(port)
            &&& c->0.outbound_tcp.allows(port) <==> port == 80 || port == 443
            &&& c->0.outbound_udp.allows(port) <==> port == 53
            &&& p->0.outbound_tcp.allows(port)
            &&& p->0.outbound_udp.allows(port) <==> port == 53
        }),
{
    let (web, names) = (seq![80u16, 443u16], seq![53u16]);
    assert(web[0] == 80 && web[1] == 443 && names[0] == 53);
    assert(web.contains(port) <==> port == 80 || port == 443) by {
        if web.contains(port) {
            let i = choose|i: int| 0 <= i < web.len() && web[i] == port;
            assert(i == 0 || i == 1);
        }
    }
    assert(names.contains(port) <==> port == 53);
}

/// Two link conditions are the same where all their limits are, whatever they are called.
/// Percentages are the same as numbers are: zero has two signs, and what is no number is
/// not the same as anything.
pub proof fn sameness_of_conditions(a: LinkCondition, b: LinkCondition, p: Percent, q: Percent)
    ensures
        a.spec_same(b) ==> a.rate_kbit == b.rate_kbit && a.latency_ms == b.latency_ms && a.jitter_ms
            == b.jitter_ms && a.loss_burst_pkts == b.loss_burst_pkts && a.buffer_ms == b.buffer_ms,
        a.spec_same(b) ==> a.loss_pct.spec_same(b.loss_pct) && a.reorder_pct.spec_same(
            b.reorder_pct,
        ) && a.duplicate_pct.spec_same(b.duplicate_pct) && a.corrupt_pct.spec_same(b.corrupt_pct),
        a.spec_same(a) ==> a.spec_same(LinkCondition { label: b.label, ..a }),
        a.spec_same(b) <==> b.spec_same(a),
        !a.loss_pct.spec_nan() && !a.reorder_pct.spec_nan() && !a.duplicate_pct.spec_nan()
            && !a.corrupt_pct.spec_nan() ==> a.spec_same(a),
        p.bits == q.bits && 0 <= p.bits <= 0x7f80_0000 ==> p.spec_same(q),
        p.bits == 0 && q.bits == 0x8000_0000 ==> p.spec_same(q),
        p.bits != q.bits && !(p.bits == 0 && q.bits == 0x8000_0000) && !(p.bits == 0x8000_0000
            && q.bits == 0) ==> !p.spec_same(q),
        0x7f80_0000 < p.bits < 0x8000_0000 || p.bits > 0xff80_0000 ==> !p.spec_same(q),
{
}

/// The prefix that a router maps its LAN prefix to has the first three groups of the
/// router's upstream address, its last group as the fourth, and zeros behind; it is as
/// long as the LAN prefix, or of 64 bits where that has no length that can be.
pub proof fn wan_prefixes_follow_the_router(up: Ipv6Addr, len: u8)
    ensures
        wan_prefix(up, len).addr.bits as int == (up.bits as int / 0x1_0000_0000_0000_0000_0000)
            * 0x1_0000_0000_0000_0000_0000 + (up.bits as int % 0x1_0000) * 0x1_0000_0000_0000_0000,
        len <= 128 ==> wan_prefix(up, len).prefix_len == len,
        len > 128 ==> wan_prefix(up, len).prefix_len == 64,
{
    let top = up.bits as int / 0x1_0000_0000_0000_0000_0000;
    let n = up.bits as int % 0x1_0000;
    assert(top * 0x1_0000_0000_0000_0000_0000 + n * 0x1_0000_0000_0000_0000 <= u128::MAX);
}

/// The rules that keep back "fragmentation needed" messages drop these and nothing
/// else.
pub proof fn fragmentation_messages_are_dropped()
    ensures
        crate::nft::ICMP_FRAG_BLOCK@
            == "\ntable ip filter {\n    chain forward {\n        type filter hook forward priority 0; policy accept;\n        icmp type destination-unreachable icmp code frag-needed drop\n    }\n}\n"@,
{
}

} // verus!
