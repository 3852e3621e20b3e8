//! What translated packets look like on the wire, byte by byte, and where they
//! go.
use vstd::prelude::*;

use crate::addr::{Ipv4Addr, Ipv6Addr};
use crate::bytes::{
    be128, be16, be32, big_endian, get128, get16, get32, reading_is_big_endian,
    same_bytes_same_number, writing_is_big_endian,
};
use crate::nat64::{
    bare_header_v4, body_to_v4, body_to_v6, checksum, checksum_checks_out, echo_v4, echo_v6,
    embedded, embedding, flow_back, flow_out, fold, fold_keeps_remainder, header_len, header_v4,
    one_hop_less, only_the_checksum_changes, packet_v6, protocol_v4, protocol_v6, pseudo_v4,
    pseudo_v6, put16, step, to_v4, to_v6, word_sum, FlowKey,
};

verus! {

// ── checksums ────────────────────────────────────────────────────────

/// The sum of the first `n` bytes where those at even places count 256 times.
pub open spec fn weighed(s: Seq<u8>, n: int) -> int
    decreases n,
{
    if n <= 0 {
        0
    } else if n % 2 == 1 {
        weighed(s, n - 1) + s[n - 1] * 256
    } else {
        weighed(s, n - 1) + s[n - 1]
    }
}

proof fn weighed_from_the_front(s: Seq<u8>, n: int)
    requires
        2 <= n <= s.len(),
    ensures
        weighed(s, n) == s[0] * 256 + s[1] + weighed(s.skip(2), n - 2),
    decreases n,
{
    if n == 2 {
        assert(weighed(s, 1) == s[0] * 256) by {
            reveal_with_fuel(weighed, 2);
        }
        assert(weighed(s.skip(2), 0) == 0);
    } else {
        weighed_from_the_front(s, n - 1);
        assert(s.skip(2)[n - 3] == s[n - 1]);
        assert((n - 2) % 2 == n % 2);
    }
}

/// The words of the data add up to its bytes, those at even places counted 256
/// times.
pub proof fn word_sum_weighs_the_bytes(s: Seq<u8>)
    ensures
        word_sum(s) == weighed(s, s.len() as int),
        0 <= word_sum(s),
    decreases s.len(),
{
    if s.len() == 1 {
        reveal_with_fuel(weighed, 2);
    } else if s.len() >= 2 {
        word_sum_weighs_the_bytes(s.skip(2));
        weighed_from_the_front(s, s.len() as int);
    }
}

/// A checksum completes the sum of the data to a multiple of 65535. Only data
/// that is all zero has the checksum 65535.
pub proof fn checksum_completes_the_sum(s: Seq<u8>)
    ensures
        0 <= checksum(s) <= 0xffff,
        (weighed(s, s.len() as int) + checksum(s)) % 0xffff == 0,
        checksum(s) == 0xffff <==> weighed(s, s.len() as int) == 0,
{
    word_sum_weighs_the_bytes(s);
    let w = word_sum(s);
    fold_keeps_remainder(w);
    let f = fold(w);
    vstd::arithmetic::div_mod::lemma_fundamental_div_mod(w, 0xffff);
    vstd::arithmetic::div_mod::lemma_fundamental_div_mod(f, 0xffff);
    let q = w / 0xffff - f / 0xffff;
    assert(w + 0xffff - f == 0xffff * (q + 1)) by (nonlinear_arith)
        requires
            w == 0xffff * (w / 0xffff) + w % 0xffff,
            f == 0xffff * (f / 0xffff) + f % 0xffff,
            f % 0xffff == w % 0xffff,
            q == w / 0xffff - f / 0xffff,
    ;
    vstd::arithmetic::div_mod::lemma_mod_multiples_basic(q + 1, 0xffff);
    if w == 0 {
        assert(fold(0) == 0);
    }
}

/// What a TCP or UDP checksum covers over IPv4: source, destination, a zero byte
/// and the protocol, the length, and the message.
pub proof fn pseudo_header_v4(src: Ipv4Addr, dst: Ipv4Addr, proto: u8, p: Seq<u8>)
    requires
        p.len() <= 0xffff,
    ensures
        ({
            let s = pseudo_v4(src, dst, proto, p);
            &&& s.len() == 12 + p.len()
            &&& big_endian(s, 0, 4) == src.bits
            &&& big_endian(s, 4, 8) == dst.bits
            &&& s[8] == 0 && s[9] == proto
            &&& big_endian(s, 10, 12) == p.len()
            &&& forall|i: int| 0 <= i < p.len() ==> #[trigger] p[i] == s[12 + i]
        }),
{
    let s = pseudo_v4(src, dst, proto, p);
    writing_is_big_endian(src.bits as int);
    writing_is_big_endian(dst.bits as int);
    writing_is_big_endian(p.len() as int);
    same_bytes_same_number(s, 0, be32(src.bits as int), 0, 4);
    same_bytes_same_number(s, 4, be32(dst.bits as int), 0, 4);
    same_bytes_same_number(s, 10, be16(p.len() as int), 0, 2);
}

/// What a TCP, UDP or ICMPv6 checksum covers over IPv6: source, destination, the
/// length, three zero bytes and the next header, and the message.
pub proof fn pseudo_header_v6(src: Ipv6Addr, dst: Ipv6Addr, next: u8, p: Seq<u8>)
    requires
        p.len() <= 0xffff,
    ensures
        ({
            let s = pseudo_v6(src, dst, next, p);
            &&& s.len() == 40 + p.len()
            &&& big_endian(s, 0, 16) == src.bits
            &&& big_endian(s, 16, 32) == dst.bits
            &&& big_endian(s, 32, 36) == p.len()
            &&& s[36] == 0 && s[37] == 0 && s[38] == 0 && s[39] == next
            &&& forall|i: int| 0 <= i < p.len() ==> #[trigger] p[i] == s[40 + i]
        }),
{
    let s = pseudo_v6(src, dst, next, p);
    writing_is_big_endian(src.bits as int);
    writing_is_big_endian(dst.bits as int);
    writing_is_big_endian(p.len() as int);
    same_bytes_same_number(s, 0, be128(src.bits as int), 0, 16);
    same_bytes_same_number(s, 16, be128(dst.bits as int), 0, 16);
    same_bytes_same_number(s, 32, be32(p.len() as int), 0, 4);
}

/// Whether a receiver takes the checksum of the bytes for right.
pub open spec fn checks_out(s: Seq<u8>) -> bool {
    weighed(s, s.len() as int) % 0xffff == 0 && weighed(s, s.len() as int) > 0
}

proof fn folded_checks_out(s: Seq<u8>)
    requires
        fold(word_sum(s)) == 0xffff,
    ensures
        checks_out(s),
{
    word_sum_weighs_the_bytes(s);
    fold_keeps_remainder(word_sum(s));
}

/// A translated echo passes a receiver's check: over IPv4 the message alone,
/// over IPv6 the message behind the pseudo-header.
pub proof fn translated_echo_checks_out(p: Seq<u8>, src: Ipv6Addr, dst: Ipv6Addr)
    requires
        4 <= p.len() <= 0xffff,
    ensures
        echo_v4(p) is Some ==> weighed(echo_v4(p)->0, p.len() as int) % 0xffff == 0,
        echo_v6(src, dst, p) is Some ==> checks_out(
            pseudo_v6(src, dst, 58, echo_v6(src, dst, p)->0),
        ),
{
    if echo_v4(p) is Some {
        let z = put16(p.update(0, (echo_v4(p)->0)[0]), 2, 0);
        assert(echo_v4(p)->0 == put16(z, 2, checksum(z)));
        assert(z[2] == 0 && z[3] == 0);
        checksum_completes_the_sum(z);
        checksum_checks_out(z, 2);
        let out = echo_v4(p)->0;
        word_sum_weighs_the_bytes(out);
        fold_keeps_remainder(word_sum(out));
    }
    if echo_v6(src, dst, p) is Some {
        let out = echo_v6(src, dst, p)->0;
        let z = put16(p.update(0, out[0]), 2, 0);
        let s = pseudo_v6(src, dst, 58, z);
        let x = if checksum(s) == 0 {
            0xffff
        } else {
            checksum(s)
        };
        assert(out == put16(z, 2, x));
        assert(s[42] == z[2] && s[43] == z[3]);
        checksum_completes_the_sum(s);
        checksum_checks_out(s, 42);
        assert(pseudo_v6(src, dst, 58, out) =~= put16(s, 42, x));
        folded_checks_out(pseudo_v6(src, dst, 58, out));
    }
}

/// Translated TCP segments and UDP datagrams pass a receiver's check in both
/// families.
pub proof fn translated_messages_check_out(
    src: Ipv4Addr,
    dst: Ipv4Addr,
    src6: Ipv6Addr,
    dst6: Ipv6Addr,
    p: Seq<u8>,
)
    requires
        p.len() <= 0xffff,
    ensures
        p.len() >= 20 ==> checks_out(pseudo_v4(src, dst, 6, body_to_v4(6, src, dst, p)->0)),
        p.len() >= 8 ==> checks_out(pseudo_v4(src, dst, 17, body_to_v4(17, src, dst, p)->0)),
        p.len() >= 20 ==> checks_out(pseudo_v6(src6, dst6, 6, body_to_v6(6, src6, dst6, p)->0)),
        p.len() >= 8 ==> checks_out(pseudo_v6(src6, dst6, 17, body_to_v6(17, src6, dst6, p)->0)),
{
    if p.len() >= 20 {
        crate::nat64::translated_tcp_checks_out(src, dst, p);
        crate::nat64::returned_tcp_checks_out(src6, dst6, p);
        folded_checks_out(pseudo_v4(src, dst, 6, body_to_v4(6, src, dst, p)->0));
        folded_checks_out(pseudo_v6(src6, dst6, 6, body_to_v6(6, src6, dst6, p)->0));
    }
    if p.len() >= 8 {
        crate::nat64::translated_udp_checks_out(src, dst, p);
        crate::nat64::returned_udp_checks_out(src6, dst6, p);
        folded_checks_out(pseudo_v4(src, dst, 17, body_to_v4(17, src, dst, p)->0));
        folded_checks_out(pseudo_v6(src6, dst6, 17, body_to_v6(17, src6, dst6, p)->0));
    }
}

/// A translated UDP datagram always carries a checksum: zero would say that it has none.
/// Neither is that of an ICMPv6 echo ever zero. Messages too short to hold a checksum stay
/// as they are.
#[verifier::rlimit(40)]
pub proof fn checksums_are_there(
    src: Ipv4Addr,
    dst: Ipv4Addr,
    src6: Ipv6Addr,
    dst6: Ipv6Addr,
    p: Seq<u8>,
)
    requires
        p.len() <= 0xffff,
    ensures
        ({
            let (tcp, udp) = (body_to_v4(6, src, dst, p)->0, body_to_v4(17, src, dst, p)->0);
            let (tcp6, udp6) = (body_to_v6(6, src6, dst6, p)->0, body_to_v6(17, src6, dst6, p)->0);
            &&& p.len() >= 8 ==> udp[6] * 256 + udp[7] != 0
            &&& p.len() >= 8 ==> udp6[6] * 256 + udp6[7] != 0
            &&& p.len() >= 4 && (p[0] == 8 || p[0] == 0) ==> (body_to_v6(1, src6, dst6, p)->0)[2]
                * 256 + (body_to_v6(1, src6, dst6, p)->0)[3] != 0
            &&& p.len() < 8 ==> udp == p && udp6 == p
            &&& p.len() < 20 ==> tcp == p && tcp6 == p
            &&& p.len() < 4 ==> body_to_v4(58, src, dst, p) == Some(p) && body_to_v6(
                1,
                src6,
                dst6,
                p,
            ) == Some(p)
        }),
{
    if p.len() >= 8 {
        checksum_completes_the_sum(pseudo_v4(src, dst, 17, put16(p, 6, 0)));
        checksum_completes_the_sum(pseudo_v6(src6, dst6, 17, put16(p, 6, 0)));
    }
    if p.len() >= 4 && (p[0] == 8 || p[0] == 0) {
        let t: u8 = if p[0] == 8 {
            128
        } else {
            129
        };
        checksum_completes_the_sum(pseudo_v6(src6, dst6, 58, put16(p.update(0, t), 2, 0)));
    }
}

// ── which packets are translated ─────────────────────────────────────

/// A NAT64 address is the IPv4 address behind `64:ff9b::/96`, and no other
/// address stands for one.
pub proof fn nat64_addresses(v4: Ipv4Addr, addr: Ipv6Addr)
    ensures
        embedding(v4).bits == 0x0064_ff9b_0000_0000_0000_0000_0000_0000 + v4.bits,
        embedded(addr) == Some(v4) <==> addr.bits == 0x0064_ff9b_0000_0000_0000_0000_0000_0000
            + v4.bits,
{
}

proof fn destination_splits(pkt: Seq<u8>)
    ensures
        get128(pkt, 24) == big_endian(pkt, 24, 36) * 0x1_0000_0000 + big_endian(pkt, 36, 40),
        0 <= big_endian(pkt, 36, 40) < 0x1_0000_0000,
        get32(pkt, 36) == big_endian(pkt, 36, 40),
        0 <= big_endian(pkt, 24, 36) < 0x1_0000_0000_0000_0000_0000_0000,
{
    reading_is_big_endian(pkt, 24);
    reading_is_big_endian(pkt, 36);
    reveal_with_fuel(big_endian, 17);
}

/// An IPv6 packet is translated exactly where it is whole, goes to
/// `64:ff9b::/96`, fits into an IPv4 packet, and carries TCP, UDP or an echo.
pub proof fn translated_to_v4(pkt: Seq<u8>, v4_src: Ipv4Addr)
    ensures
        to_v4(pkt, v4_src) is Some <==> {
            let n = pkt[4] * 256 + pkt[5];
            &&& pkt.len() >= 40 + n && pkt.len() >= 40
            &&& 0x60 <= pkt[0] <= 0x6f
            &&& n <= 65515
            &&& big_endian(pkt, 24, 36) == 0x0064_ff9b_0000_0000_0000_0000
            &&& pkt[6] == 6 || pkt[6] == 17 || (pkt[6] == 58 && (n < 4 || pkt[40] == 128
                || pkt[40] == 129))
        },
{
    destination_splits(pkt);
    if pkt.len() >= 40 {
        low_part(big_endian(pkt, 24, 36), big_endian(pkt, 36, 40), get128(pkt, 24));
        let n = get16(pkt, 4);
        if 40 + n <= pkt.len() && n >= 4 {
            assert(pkt.subrange(40, 40 + n)[0] == pkt[40]);
        }
    }
}

/// An IPv4 packet is translated exactly where it is whole, is not shorter than
/// its own header, and carries TCP, UDP or an echo.
pub proof fn translated_to_v6(pkt: Seq<u8>, v6_dst: Ipv6Addr)
    ensures
        to_v6(pkt, v6_dst) is Some <==> {
            let total = pkt[2] * 256 + pkt[3];
            let header = (pkt[0] % 16) * 4;
            &&& pkt.len() >= 20 && pkt.len() >= total
            &&& 0x40 <= pkt[0] <= 0x4f
            &&& header <= total
            &&& pkt[9] == 6 || pkt[9] == 17 || (pkt[9] == 1 && (total - header < 4 || pkt[header]
                == 8 || pkt[header] == 0))
        },
{
    let total = get16(pkt, 2);
    if pkt.len() >= 20 && pkt.len() >= total && header_len(pkt) <= total - 4 {
        assert(pkt.subrange(header_len(pkt), total)[0] == pkt[header_len(pkt)]);
    }
}

// ── what they look like ──────────────────────────────────────────────

/// Whether byte `i` of a message is part of its checksum.
pub open spec fn in_checksum(protocol: u8, i: int) -> bool {
    if protocol == 6 {
        i == 16 || i == 17
    } else if protocol == 17 {
        i == 6 || i == 7
    } else {
        i == 2 || i == 3
    }
}

/// The message of a translated packet keeps its length and every byte but the
/// checksum and, of an echo, the type: a request stays a request and a reply a
/// reply.
proof fn messages_survive(
    protocol: u8,
    src: Ipv4Addr,
    dst: Ipv4Addr,
    src6: Ipv6Addr,
    dst6: Ipv6Addr,
    p: Seq<u8>,
)
    ensures
        body_to_v4(protocol, src, dst, p) is Some ==> {
            let b = body_to_v4(protocol, src, dst, p)->0;
            &&& b.len() == p.len()
            &&& forall|i: int|
                0 <= i < p.len() && !in_checksum(protocol, i) && !(protocol == 58 && i == 0
                    && p.len() >= 4) ==> #[trigger] b[i] == p[i]
            &&& protocol == 58 && p.len() >= 4 ==> (p[0] == 128 && b[0] == 8) || (p[0] == 129
                && b[0] == 0)
        },
        body_to_v6(protocol, src6, dst6, p) is Some ==> {
            let b = body_to_v6(protocol, src6, dst6, p)->0;
            &&& b.len() == p.len()
            &&& forall|i: int|
                0 <= i < p.len() && !in_checksum(protocol, i) && !(protocol == 1 && i == 0
                    && p.len() >= 4) ==> #[trigger] b[i] == p[i]
            &&& protocol == 1 && p.len() >= 4 ==> (p[0] == 8 && b[0] == 128) || (p[0] == 0
                && b[0] == 129)
        },
{
    only_the_checksum_changes(src, dst, src6, dst6, p);
}

/// The header of a translated packet.
proof fn header_fields(total: int, ttl: u8, proto: u8, src: Ipv4Addr, dst: Ipv4Addr)
    requires
        20 <= total <= 0xffff,
    ensures
        ({
            let h = header_v4(total, ttl, proto, src, dst);
            &&& h.len() == 20
            &&& h[0] == 0x45 && h[1] == 0
            &&& big_endian(h, 2, 4) == total
            &&& h[4] == 0 && h[5] == 0 && h[6] == 0x40 && h[7] == 0
            &&& h[8] == ttl && h[9] == proto
            &&& big_endian(h, 12, 16) == src.bits
            &&& big_endian(h, 16, 20) == dst.bits
        }),
{
    let bare = bare_header_v4(total, ttl, proto, src, dst);
    let h = header_v4(total, ttl, proto, src, dst);
    assert(forall|i: int| 0 <= i < 20 && i != 10 && i != 11 ==> h[i] == bare[i]);
    writing_is_big_endian(total);
    writing_is_big_endian(src.bits as int);
    writing_is_big_endian(dst.bits as int);
    same_bytes_same_number(h, 2, be16(total), 0, 2);
    same_bytes_same_number(h, 12, be32(src.bits as int), 0, 4);
    same_bytes_same_number(h, 16, be32(dst.bits as int), 0, 4);
}

/// A packet that is translated to IPv4 has a header of 20 bytes with the right
/// length, may not be fragmented, has one hop less to go but never none, the
/// protocol of the other family, the given source, and the IPv4 address at the
/// end of the IPv6 destination.
#[verifier::rlimit(40)]
pub proof fn translated_header_v4(pkt: Seq<u8>, v4_src: Ipv4Addr)
    requires
        to_v4(pkt, v4_src) is Some,
    ensures
        ({
            let n = pkt[4] * 256 + pkt[5];
            let out = to_v4(pkt, v4_src)->0;
            &&& out.len() == 20 + n
            &&& out[0] == 0x45
            &&& out[2] * 256 + out[3] == 20 + n
            &&& out[6] == 0x40 && out[7] == 0
            &&& pkt[7] >= 2 ==> out[8] == pkt[7] - 1
            &&& pkt[7] < 2 ==> out[8] == 1
            &&& pkt[6] == 58 ==> out[9] == 1
            &&& pkt[6] != 58 ==> out[9] == pkt[6]
            &&& big_endian(out, 12, 16) == v4_src.bits
            &&& forall|i: int| 0 <= i < 4 ==> #[trigger] out[16 + i] == pkt[36 + i]
        }),
{
    let n = get16(pkt, 4);
    let out = to_v4(pkt, v4_src)->0;
    let dst = embedded(Ipv6Addr { bits: get128(pkt, 24) as u128 })->0;
    let p = pkt.subrange(40, 40 + n);
    let ttl = one_hop_less(pkt[7]);
    let h = header_v4(20 + n, ttl, protocol_v4(pkt[6]), v4_src, dst);
    messages_survive(pkt[6], v4_src, dst, embedding(v4_src), embedding(v4_src), p);
    header_fields(20 + n, ttl, protocol_v4(pkt[6]), v4_src, dst);
    let b = body_to_v4(pkt[6], v4_src, dst, p)->0;
    assert(out == h + b);
    assert(forall|i: int| 0 <= i < 20 ==> out[i] == h[i]);
    same_bytes_same_number(out, 2, h, 2, 2);
    same_bytes_same_number(out, 12, h, 12, 4);
    same_bytes_same_number(out, 16, h, 16, 4);
    reading_is_big_endian(out, 2);
    embedded_destination(pkt);
    assert forall|i: int| 0 <= i < 4 implies #[trigger] out[16 + i] == pkt[36 + i] by {
        crate::bytes::same_number_same_bytes(out, 16, pkt, 36, 4, i);
    }
}

proof fn embedded_destination(pkt: Seq<u8>)
    requires
        embedded(Ipv6Addr { bits: get128(pkt, 24) as u128 }) is Some,
    ensures
        embedded(Ipv6Addr { bits: get128(pkt, 24) as u128 })->0.bits == big_endian(pkt, 36, 40),
{
    destination_splits(pkt);
    let (hi, lo) = (big_endian(pkt, 24, 36), big_endian(pkt, 36, 40));
    let x = get128(pkt, 24);
    low_part(hi, lo, x);
}

proof fn low_part(hi: int, lo: int, x: int)
    requires
        x == hi * 0x1_0000_0000 + lo,
        0 <= lo < 0x1_0000_0000,
        0 <= hi < 0x1_0000_0000_0000_0000_0000_0000,
    ensures
        0 <= x <= u128::MAX,
        x % 0x1_0000_0000 == lo,
        x / 0x1_0000_0000 == hi,
{
    vstd::arithmetic::div_mod::lemma_fundamental_div_mod_converse(x, 0x1_0000_0000, hi, lo);
}

/// The header of a packet that is translated to IPv4 passes a receiver's check.
pub proof fn header_v4_checks_out(pkt: Seq<u8>, v4_src: Ipv4Addr)
    requires
        to_v4(pkt, v4_src) is Some,
    ensures
        checks_out(to_v4(pkt, v4_src)->0.take(20)),
{
    crate::nat64::translated_header_checks_out(pkt, v4_src);
    folded_checks_out(to_v4(pkt, v4_src)->0.take(20));
}

/// A message that is translated to IPv4 keeps every byte but its checksum. An
/// echo changes its type as well: 128, a request, becomes 8, and 129, a reply,
/// becomes 0.
pub proof fn translated_message_v4(pkt: Seq<u8>, v4_src: Ipv4Addr)
    requires
        to_v4(pkt, v4_src) is Some,
    ensures
        ({
            let n = pkt[4] * 256 + pkt[5];
            let out = to_v4(pkt, v4_src)->0;
            let echo = pkt[6] == 58 && n >= 4;
            &&& forall|i: int|
                0 <= i < n && !in_checksum(pkt[6], i) && !(echo && i == 0) ==> #[trigger] out[20
                    + i] == pkt[40 + i]
            &&& echo && pkt[40] == 128 ==> out[20] == 8
            &&& echo && pkt[40] == 129 ==> out[20] == 0
        }),
{
    let n = get16(pkt, 4);
    let out = to_v4(pkt, v4_src)->0;
    let dst = embedded(Ipv6Addr { bits: get128(pkt, 24) as u128 })->0;
    let p = pkt.subrange(40, 40 + n);
    let ttl = one_hop_less(pkt[7]);
    messages_survive(pkt[6], v4_src, dst, embedding(v4_src), embedding(v4_src), p);
    header_fields(20 + n, ttl, protocol_v4(pkt[6]), v4_src, dst);
    let b = body_to_v4(pkt[6], v4_src, dst, p)->0;
    assert(forall|i: int| 0 <= i < n ==> out[20 + i] == #[trigger] b[i] && pkt[40 + i] == p[i]);
    assert forall|i: int|
        0 <= i < n && !in_checksum(pkt[6], i) && !(pkt[6] == 58 && n >= 4 && i
            == 0) implies #[trigger] out[20 + i] == pkt[40 + i] by {
        assert(b[i] == p[i]);
    }
    if n >= 4 {
        assert(out[20] == b[0] && pkt[40] == p[0]);
    }
}

/// A packet that is translated to IPv6 has the right length, one hop less to go
/// but never none, the next header of the other family, the NAT64 address of the
/// IPv4 source, and the given destination.
#[verifier::rlimit(40)]
pub proof fn translated_header_v6(pkt: Seq<u8>, v6_dst: Ipv6Addr)
    requires
        to_v6(pkt, v6_dst) is Some,
    ensures
        ({
            let n = pkt[2] * 256 + pkt[3] - (pkt[0] % 16) * 4;
            let out = to_v6(pkt, v6_dst)->0;
            &&& out.len() == 40 + n
            &&& out[0] == 0x60
            &&& out[4] * 256 + out[5] == n
            &&& pkt[9] == 1 ==> out[6] == 58
            &&& pkt[9] != 1 ==> out[6] == pkt[9]
            &&& pkt[8] >= 2 ==> out[7] == pkt[8] - 1
            &&& pkt[8] < 2 ==> out[7] == 1
            &&& big_endian(out, 8, 24) == 0x0064_ff9b_0000_0000_0000_0000_0000_0000 + big_endian(
                pkt,
                12,
                16,
            )
            &&& big_endian(out, 24, 40) == v6_dst.bits
        }),
{
    let out = to_v6(pkt, v6_dst)->0;
    let src4 = Ipv4Addr { bits: get32(pkt, 12) as u32 };
    let src = embedding(src4);
    let p = pkt.subrange(header_len(pkt), get16(pkt, 2));
    messages_survive(pkt[9], src4, src4, src, v6_dst, p);
    let b = body_to_v6(pkt[9], src, v6_dst, p)->0;
    assert(out == packet_v6(protocol_v6(pkt[9]), one_hop_less(pkt[8]), src, v6_dst, b));
    writing_is_big_endian(b.len() as int);
    writing_is_big_endian(src.bits as int);
    writing_is_big_endian(v6_dst.bits as int);
    same_bytes_same_number(out, 4, be16(b.len() as int), 0, 2);
    same_bytes_same_number(out, 8, be128(src.bits as int), 0, 16);
    same_bytes_same_number(out, 24, be128(v6_dst.bits as int), 0, 16);
    reading_is_big_endian(pkt, 12);
    reading_is_big_endian(out, 4);
    assert(0 <= get32(pkt, 12) <= 0xffff_ffff);
}

/// A message that is translated to IPv6 keeps every byte but its checksum. An
/// echo changes its type as well: 8, a request, becomes 128, and 0, a reply,
/// becomes 129.
pub proof fn translated_message_v6(pkt: Seq<u8>, v6_dst: Ipv6Addr)
    requires
        to_v6(pkt, v6_dst) is Some,
    ensures
        ({
            let from = (pkt[0] % 16) * 4;
            let n = pkt[2] * 256 + pkt[3] - from;
            let out = to_v6(pkt, v6_dst)->0;
            let echo = pkt[9] == 1 && n >= 4;
            &&& forall|i: int|
                0 <= i < n && !in_checksum(pkt[9], i) && !(echo && i == 0) ==> #[trigger] out[40
                    + i] == pkt[from + i]
            &&& echo && pkt[from] == 8 ==> out[40] == 128
            &&& echo && pkt[from] == 0 ==> out[40] == 129
        }),
{
    let out = to_v6(pkt, v6_dst)->0;
    let from = header_len(pkt);
    let src4 = Ipv4Addr { bits: get32(pkt, 12) as u32 };
    let src = embedding(src4);
    let p = pkt.subrange(from, get16(pkt, 2));
    let n = p.len() as int;
    messages_survive(pkt[9], src4, src4, src, v6_dst, p);
    let b = body_to_v6(pkt[9], src, v6_dst, p)->0;
    writing_is_big_endian(b.len() as int);
    writing_is_big_endian(src.bits as int);
    writing_is_big_endian(v6_dst.bits as int);
    assert(out == packet_v6(protocol_v6(pkt[9]), one_hop_less(pkt[8]), src, v6_dst, b));
    assert(forall|i: int| 0 <= i < n ==> out[40 + i] == #[trigger] b[i] && pkt[from + i] == p[i]);
    assert forall|i: int|
        0 <= i < n && !in_checksum(pkt[9], i) && !(pkt[9] == 1 && n >= 4 && i
            == 0) implies #[trigger] out[40 + i] == pkt[from + i] by {
        assert(b[i] == p[i]);
    }
    if n >= 4 {
        assert(out[40] == b[0] && pkt[from] == p[0]);
    }
}

// ── the way back ─────────────────────────────────────────────────────

/// A reply to a packet that was translated goes to the host that sent it: one
/// that comes from the address the packet went to, to the pool address and to
/// the port that the packet came from.
#[verifier::rlimit(40)]
pub proof fn replies_reach_the_sender(
    flows: Map<FlowKey, Ipv6Addr>,
    out: Seq<u8>,
    back: Seq<u8>,
    pool: Ipv4Addr,
)
    requires
        to_v4(out, pool) is Some,
        out.len() >= 42,
        back.len() >= 20,
        back.len() >= (back[0] % 16) * 4 + 4,
        0x40 <= back[0] <= 0x4f,
        forall|i: int| 0 <= i < 4 ==> #[trigger] back[12 + i] == out[36 + i],
        big_endian(back, 16, 20) == pool.bits,
        back[(back[0] % 16) * 4 + 2] == out[40],
        back[(back[0] % 16) * 4 + 3] == out[41],
    ensures
        ({
            let after = step(flows, out, pool).0;
            let sender = Ipv6Addr { bits: big_endian(out, 8, 24) as u128 };
            &&& step(flows, out, pool).1 == to_v4(out, pool)
            &&& step(after, back, pool).1 == to_v6(back, sender)
            &&& step(after, back, pool).0 == after
        }),
{
    translated_to_v4(out, pool);
    same_bytes_same_number(back, 12, out, 36, 4);
    reading_is_big_endian(back, 12);
    reading_is_big_endian(back, 16);
    reading_is_big_endian(out, 36);
    reading_is_big_endian(out, 8);
    assert(flow_back(back) == flow_out(out));
}

/// A translated packet changes the way of no packet of another flow: one with
/// another address or port.
pub proof fn flows_do_not_disturb_each_other(
    flows: Map<FlowKey, Ipv6Addr>,
    out: Seq<u8>,
    pool: Ipv4Addr,
    peer: Ipv4Addr,
    port: u16,
)
    requires
        out.len() >= 42,
        peer.bits != big_endian(out, 36, 40) || port != out[40] * 256 + out[41],
    ensures
        ({
            let key = FlowKey { peer, port };
            let after = step(flows, out, pool).0;
            after.contains_key(key) == flows.contains_key(key) && (flows.contains_key(key)
                ==> after[key] == flows[key])
        }),
{
    reading_is_big_endian(out, 36);
}

/// Packets that are not for the translator are dropped and change nothing: what
/// is neither IPv4 nor IPv6, what goes to another IPv4 address than the pool's,
/// and what belongs to no flow.
#[verifier::rlimit(40)]
pub proof fn strangers_are_dropped(flows: Map<FlowKey, Ipv6Addr>, pkt: Seq<u8>, pool: Ipv4Addr)
    ensures
        pkt.len() == 0 ==> step(flows, pkt, pool) == (flows, None::<Seq<u8>>),
        pkt.len() > 0 && !(0x40 <= pkt[0] <= 0x6f && !(0x50 <= pkt[0] <= 0x5f)) ==> step(
            flows,
            pkt,
            pool,
        ) == (flows, None::<Seq<u8>>),
        pkt.len() >= 20 && 0x40 <= pkt[0] <= 0x4f && big_endian(pkt, 16, 20) != pool.bits ==> step(
            flows,
            pkt,
            pool,
        ) == (flows, None::<Seq<u8>>),
        pkt.len() >= 20 && 0x40 <= pkt[0] <= 0x4f && flows == Map::<FlowKey, Ipv6Addr>::empty()
            ==> step(flows, pkt, pool) == (flows, None::<Seq<u8>>),
        pkt.len() > 0 && 0x60 <= pkt[0] <= 0x6f && to_v4(pkt, pool) is None ==> step(
            flows,
            pkt,
            pool,
        ) == (flows, None::<Seq<u8>>),
{
    reading_is_big_endian(pkt, 16);
}

} // verus!
