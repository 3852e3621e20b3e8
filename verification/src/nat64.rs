//! Stateless translation between IPv6 and IPv4 packets for NAT64, and the table
//! that finds the way back.
use vstd::prelude::*;

use crate::addr::{Ipv4Addr, Ipv6Addr};
use crate::bytes::{
    be128, be128_reads_back, be16, be32, be32_reads_back, get128, get16, get32, get32_shift,
    push128, push16, push32, push_range, read128, read16, read32,
};
use crate::table::{Table, TableKey};

verus! {

/// The first 96 bits of the well-known NAT64 prefix `64:ff9b::/96`.
pub const NAT64_PREFIX: u128 = 0x0064_ff9b_0000_0000_0000_0000;

/// IP protocol number of ICMP.
pub const IPPROTO_ICMP: u8 = 1;

/// IP protocol number of TCP.
pub const IPPROTO_TCP: u8 = 6;

/// IP protocol number of UDP.
pub const IPPROTO_UDP: u8 = 17;

/// IP protocol number of ICMPv6.
pub const IPPROTO_ICMPV6: u8 = 58;

/// The source of translated packets: `192.0.2.64`. The router's WAN address
/// takes its place on the way out.
pub fn nat64_v4_pool() -> (r: Ipv4Addr)
    ensures
        r == Ipv4Addr::of(192, 0, 2, 64),
{
    Ipv4Addr::new(192, 0, 2, 64)
}

/// The IPv4 address in the last 32 bits of a NAT64 address.
pub open spec fn embedded(addr: Ipv6Addr) -> Option<Ipv4Addr> {
    if addr.bits as int / 0x1_0000_0000 == NAT64_PREFIX {
        Some(Ipv4Addr { bits: (addr.bits as int % 0x1_0000_0000) as u32 })
    } else {
        None
    }
}

/// The NAT64 address of an IPv4 address.
pub open spec fn embedding(v4: Ipv4Addr) -> Ipv6Addr {
    Ipv6Addr { bits: (NAT64_PREFIX * 0x1_0000_0000 + v4.bits as int) as u128 }
}

/// Extracts the IPv4 address embedded in a NAT64 address.
pub fn extract_v4_from_nat64(addr: Ipv6Addr) -> (r: Option<Ipv4Addr>)
    ensures
        r == embedded(addr),
{
    if addr.bits / 0x1_0000_0000 != NAT64_PREFIX {
        return None;
    }
    Some(Ipv4Addr { bits: (addr.bits % 0x1_0000_0000) as u32 })
}

/// Embeds an IPv4 address into the NAT64 prefix.
pub fn embed_v4_in_nat64(v4: Ipv4Addr) -> (r: Ipv6Addr)
    ensures
        r == embedding(v4),
{
    Ipv6Addr { bits: NAT64_PREFIX * 0x1_0000_0000 + v4.bits as u128 }
}

/// What is embedded comes out again.
pub proof fn extract_undoes_embed(v4: Ipv4Addr)
    ensures
        embedded(embedding(v4)) == Some(v4),
{
}

/// A NAT64 address is the embedding of what it holds.
pub proof fn embed_undoes_extract(addr: Ipv6Addr)
    requires
        embedded(addr) is Some,
    ensures
        embedding(embedded(addr)->0) == addr,
{
}

// ── checksums ────────────────────────────────────────────────────────

/// The sum of the 16-bit words of the data, an odd last byte filled up with a
/// zero byte.
pub open spec fn word_sum(s: Seq<u8>) -> int
    decreases s.len(),
{
    if s.len() == 0 {
        0
    } else if s.len() == 1 {
        s[0] as int * 256
    } else {
        get16(s, 0) + word_sum(s.skip(2))
    }
}

/// A sum with its carries added in until 16 bits are left.
pub open spec fn fold(n: int) -> int
    decreases n,
{
    if n > 0xffff {
        fold(n % 0x1_0000 + n / 0x1_0000)
    } else {
        n
    }
}

/// The internet checksum (RFC 1071).
pub open spec fn checksum(s: Seq<u8>) -> int {
    0xffff - fold(word_sum(s))
}

/// The sum of the words stays below a bound.
proof fn word_sum_bound(s: Seq<u8>)
    ensures
        0 <= word_sum(s),
        2 * word_sum(s) <= 0xffff * (s.len() + 1),
    decreases s.len(),
{
    if s.len() >= 2 {
        word_sum_bound(s.skip(2));
    }
}

/// Folding keeps the remainder by 65535, and only zero folds to zero.
pub proof fn fold_keeps_remainder(n: int)
    requires
        0 <= n,
    ensures
        0 <= fold(n) <= 0xffff,
        fold(n) % 0xffff == n % 0xffff,
        n > 0 ==> fold(n) > 0,
    decreases n,
{
    if n > 0xffff {
        let m = n % 0x1_0000 + n / 0x1_0000;
        let q = n / 0x1_0000;
        assert(n == q * 0x1_0000 + n % 0x1_0000);
        assert(n == m + q * 0xffff);
        vstd::arithmetic::div_mod::lemma_mod_multiples_vanish(q, m, 0xffff);
        assert(q * 0xffff + m == n);
        fold_keeps_remainder(m);
    }
}

/// Putting a 16-bit number in the place of a zero word adds it to the sum.
proof fn sum_with_field(s: Seq<u8>, i: int, x: int)
    requires
        0 <= i,
        i % 2 == 0,
        i + 2 <= s.len(),
        s[i] == 0,
        s[i + 1] == 0,
        0 <= x <= 0xffff,
    ensures
        word_sum(put16(s, i, x)) == word_sum(s) + x,
    decreases s.len(),
{
    let t = put16(s, i, x);
    if i == 0 {
        assert(t.skip(2) =~= s.skip(2));
        assert(get16(t, 0) == x);
    } else {
        assert(t.skip(2) =~= put16(s.skip(2), i - 2, x));
        sum_with_field(s.skip(2), i - 2, x);
        assert(get16(t, 0) == get16(s, 0));
    }
}

/// `s` with the 16-bit number `x` at `i`.
pub open spec fn put16(s: Seq<u8>, i: int, x: int) -> Seq<u8> {
    s.update(i, (x / 256) as u8).update(i + 1, (x % 256) as u8)
}

/// A checksum put in the place of a zero field makes the sum fold to all ones,
/// which is how a receiver checks it. All ones do as well as zero.
pub proof fn checksum_checks_out(s: Seq<u8>, i: int)
    requires
        0 <= i,
        i % 2 == 0,
        i + 2 <= s.len(),
        s[i] == 0,
        s[i + 1] == 0,
    ensures
        checksum(s) > 0 ==> fold(word_sum(put16(s, i, checksum(s)))) == 0xffff,
        checksum(s) == 0 ==> fold(word_sum(put16(s, i, 0xffff))) == 0xffff,
        checksum(s) == 0 ==> fold(word_sum(put16(s, i, 0))) == 0xffff,
{
    let w = word_sum(s);
    word_sum_bound(s);
    fold_keeps_remainder(w);
    let x = checksum(s);
    sum_with_field(s, i, x);
    sum_with_field(s, i, 0xffff);
    sum_with_field(s, i, 0);
    multiple_folds_to_ones(w, x);
    if x == 0 {
        multiple_folds_to_ones(w, 0xffff);
    }
}

/// A positive sum that completes a multiple of 65535 folds to all ones.
proof fn multiple_folds_to_ones(w: int, x: int)
    requires
        0 <= w,
        0 <= x,
        w + x > 0,
        (fold(w) + x) % 0xffff == 0,
    ensures
        fold(w + x) == 0xffff,
{
    fold_keeps_remainder(w);
    fold_keeps_remainder(w + x);
    let f = fold(w);
    let a = w / 0xffff;
    let b = f / 0xffff;
    assert(w == a * 0xffff + w % 0xffff);
    assert(f == b * 0xffff + f % 0xffff);
    assert(w + x == (a - b) * 0xffff + (f + x));
    vstd::arithmetic::div_mod::lemma_mod_multiples_vanish(a - b, f + x, 0xffff);
    let g = fold(w + x);
    assert(g % 0xffff == 0);
    assert(g == (g / 0xffff) * 0xffff);
}

/// The internet checksum (RFC 1071).
pub fn internet_checksum(data: &[u8]) -> (r: u16)
    requires
        data@.len() <= 0x2_0000,
    ensures
        r as int == checksum(data@),
{
    let mut sum: u32 = 0;
    let mut i: usize = 0;
    proof {
        assert(data@.skip(0) =~= data@);
        word_sum_bound(data@);
    }
    while i + 1 < data.len()
        invariant
            i <= data.len() <= 0x2_0000,
            sum as int + word_sum(data@.skip(i as int)) == word_sum(data@),
            2 * word_sum(data@) <= 0xffff * (data@.len() + 1),
        decreases data.len() - i,
    {
        proof {
            word_sum_bound(data@.skip(i as int));
            word_sum_bound(data@.skip(i as int + 2));
            assert(data@.skip(i as int).skip(2) =~= data@.skip(i as int + 2));
            assert(get16(data@.skip(i as int), 0) == get16(data@, i as int));
        }
        sum = sum + read16(data, i) as u32;
        i += 2;
    }
    if i < data.len() {
        assert(data@.skip(i as int).len() == 1);
        assert(data@.skip(i as int)[0] == data@[i as int]);
        sum = sum + data[i] as u32 * 256;
    } else {
        assert(data@.skip(i as int).len() == 0);
    }
    assert(sum as int == word_sum(data@));
    while sum > 0xffff
        invariant
            fold(sum as int) == fold(word_sum(data@)),
        decreases sum,
    {
        sum = sum % 0x1_0000 + sum / 0x1_0000;
    }
    0xffff - sum as u16
}

/// The checksum of an IPv4 header.
pub fn ipv4_header_checksum(hdr: &[u8]) -> (r: u16)
    requires
        hdr@.len() <= 0x2_0000,
    ensures
        r as int == checksum(hdr@),
{
    internet_checksum(hdr)
}

/// A TCP or UDP payload behind the IPv4 pseudo-header.
pub open spec fn pseudo_v4(src: Ipv4Addr, dst: Ipv4Addr, proto: u8, payload: Seq<u8>) -> Seq<u8> {
    be32(src.bits as int) + be32(dst.bits as int) + seq![0u8, proto] + be16(payload.len() as int)
        + payload
}

/// A payload behind the IPv6 pseudo-header.
pub open spec fn pseudo_v6(src: Ipv6Addr, dst: Ipv6Addr, next: u8, payload: Seq<u8>) -> Seq<u8> {
    be128(src.bits as int) + be128(dst.bits as int) + be32(payload.len() as int) + seq![
        0u8,
        0u8,
        0u8,
        next,
    ] + payload
}

/// The TCP or UDP checksum with the IPv4 pseudo-header.
pub fn tcp_udp_checksum_v4(src: Ipv4Addr, dst: Ipv4Addr, proto: u8, payload: &[u8]) -> (r: u16)
    requires
        payload@.len() <= 0xffff,
    ensures
        r as int == checksum(pseudo_v4(src, dst, proto, payload@)),
{
    let mut pseudo: Vec<u8> = Vec::new();
    push32(&mut pseudo, src.bits);
    push32(&mut pseudo, dst.bits);
    let ghost head = pseudo@;
    pseudo.push(0);
    pseudo.push(proto);
    assert(pseudo@ =~= head + seq![0u8, proto]);
    push16(&mut pseudo, payload.len() as u16);
    push_range(&mut pseudo, payload, 0, payload.len());
    assert(payload@.subrange(0, payload@.len() as int) =~= payload@);
    assert(pseudo@ =~= pseudo_v4(src, dst, proto, payload@));
    internet_checksum(pseudo.as_slice())
}

/// The TCP, UDP or ICMPv6 checksum with the IPv6 pseudo-header.
pub fn tcp_udp_checksum_v6(
    src: Ipv6Addr,
    dst: Ipv6Addr,
    next_header: u8,
    payload: &[u8],
) -> (r: u16)
    requires
        payload@.len() <= 0xffff,
    ensures
        r as int == checksum(pseudo_v6(src, dst, next_header, payload@)),
{
    let mut pseudo: Vec<u8> = Vec::new();
    push128(&mut pseudo, src.bits);
    push128(&mut pseudo, dst.bits);
    push32(&mut pseudo, payload.len() as u32);
    let ghost head = pseudo@;
    pseudo.push(0);
    pseudo.push(0);
    pseudo.push(0);
    pseudo.push(next_header);
    assert(pseudo@ =~= head + seq![0u8, 0u8, 0u8, next_header]);
    push_range(&mut pseudo, payload, 0, payload.len());
    assert(payload@.subrange(0, payload@.len() as int) =~= payload@);
    assert(pseudo@ =~= pseudo_v6(src, dst, next_header, payload@));
    internet_checksum(pseudo.as_slice())
}

// ── translation ──────────────────────────────────────────────────────

/// A checksum as UDP and ICMPv6 send it: zero stands for none, so all ones go
/// in its place.
pub open spec fn never_zero(x: int) -> int {
    if x == 0 {
        0xffff
    } else {
        x
    }
}

/// A TCP segment with its checksum for the given addresses. One that is too
/// short to have a checksum stays as it is.
pub open spec fn tcp_v4(src: Ipv4Addr, dst: Ipv4Addr, p: Seq<u8>) -> Seq<u8> {
    if p.len() >= 20 {
        let z = put16(p, 16, 0);
        put16(z, 16, checksum(pseudo_v4(src, dst, IPPROTO_TCP, z)))
    } else {
        p
    }
}

/// A UDP datagram with its checksum for the given addresses.
pub open spec fn udp_v4(src: Ipv4Addr, dst: Ipv4Addr, p: Seq<u8>) -> Seq<u8> {
    if p.len() >= 8 {
        let z = put16(p, 6, 0);
        put16(z, 6, never_zero(checksum(pseudo_v4(src, dst, IPPROTO_UDP, z))))
    } else {
        p
    }
}

/// An ICMPv6 echo as an ICMP echo; other messages are not translated.
pub open spec fn echo_v4(p: Seq<u8>) -> Option<Seq<u8>> {
    if p.len() < 4 {
        Some(p)
    } else if p[0] == 128 || p[0] == 129 {
        let t: u8 = if p[0] == 128 {
            8
        } else {
            0
        };
        let z = put16(p.update(0, t), 2, 0);
        Some(put16(z, 2, checksum(z)))
    } else {
        None
    }
}

/// A TCP segment with its checksum for the given IPv6 addresses.
pub open spec fn tcp_v6(src: Ipv6Addr, dst: Ipv6Addr, p: Seq<u8>) -> Seq<u8> {
    if p.len() >= 20 {
        let z = put16(p, 16, 0);
        put16(z, 16, checksum(pseudo_v6(src, dst, IPPROTO_TCP, z)))
    } else {
        p
    }
}

/// A UDP datagram with its checksum for the given IPv6 addresses.
pub open spec fn udp_v6(src: Ipv6Addr, dst: Ipv6Addr, p: Seq<u8>) -> Seq<u8> {
    if p.len() >= 8 {
        let z = put16(p, 6, 0);
        put16(z, 6, never_zero(checksum(pseudo_v6(src, dst, IPPROTO_UDP, z))))
    } else {
        p
    }
}

/// An ICMP echo as an ICMPv6 echo; other messages are not translated.
pub open spec fn echo_v6(src: Ipv6Addr, dst: Ipv6Addr, p: Seq<u8>) -> Option<Seq<u8>> {
    if p.len() < 4 {
        Some(p)
    } else if p[0] == 8 || p[0] == 0 {
        let t: u8 = if p[0] == 8 {
            128
        } else {
            129
        };
        let z = put16(p.update(0, t), 2, 0);
        Some(put16(z, 2, never_zero(checksum(pseudo_v6(src, dst, IPPROTO_ICMPV6, z)))))
    } else {
        None
    }
}

/// A hop limit one lower, but never below one.
pub open spec fn one_hop_less(n: u8) -> u8 {
    if n <= 2 {
        1
    } else {
        (n - 1) as u8
    }
}

/// An IPv4 header without options and with a zero checksum.
pub open spec fn bare_header_v4(
    total_len: int,
    ttl: u8,
    proto: u8,
    src: Ipv4Addr,
    dst: Ipv4Addr,
) -> Seq<u8> {
    seq![0x45u8, 0u8] + be16(total_len) + seq![0u8, 0u8, 0x40u8, 0u8, ttl, proto, 0u8, 0u8] + be32(
        src.bits as int,
    ) + be32(dst.bits as int)
}

/// An IPv4 header without options.
pub open spec fn header_v4(
    total_len: int,
    ttl: u8,
    proto: u8,
    src: Ipv4Addr,
    dst: Ipv4Addr,
) -> Seq<u8> {
    let bare = bare_header_v4(total_len, ttl, proto, src, dst);
    put16(bare, 10, checksum(bare))
}

/// The payload of an IPv6 packet as that of an IPv4 packet: TCP, UDP and echo
/// messages only.
pub open spec fn body_to_v4(
    next_header: u8,
    src: Ipv4Addr,
    dst: Ipv4Addr,
    p: Seq<u8>,
) -> Option<Seq<u8>> {
    if next_header == IPPROTO_TCP {
        Some(tcp_v4(src, dst, p))
    } else if next_header == IPPROTO_UDP {
        Some(udp_v4(src, dst, p))
    } else if next_header == IPPROTO_ICMPV6 {
        echo_v4(p)
    } else {
        None
    }
}

/// The payload of an IPv4 packet as that of an IPv6 packet: TCP, UDP and echo
/// messages only.
pub open spec fn body_to_v6(
    protocol: u8,
    src: Ipv6Addr,
    dst: Ipv6Addr,
    p: Seq<u8>,
) -> Option<Seq<u8>> {
    if protocol == IPPROTO_TCP {
        Some(tcp_v6(src, dst, p))
    } else if protocol == IPPROTO_UDP {
        Some(udp_v6(src, dst, p))
    } else if protocol == IPPROTO_ICMP {
        echo_v6(src, dst, p)
    } else {
        None
    }
}

/// The IPv4 protocol for an IPv6 next header.
pub open spec fn protocol_v4(next_header: u8) -> u8 {
    if next_header == IPPROTO_ICMPV6 {
        IPPROTO_ICMP
    } else {
        next_header
    }
}

/// The IPv6 next header for an IPv4 protocol.
pub open spec fn protocol_v6(protocol: u8) -> u8 {
    if protocol == IPPROTO_ICMP {
        IPPROTO_ICMPV6
    } else {
        protocol
    }
}

/// The IPv6 packet with the given next header, hop limit, addresses and payload.
pub open spec fn packet_v6(next: u8, hop: u8, src: Ipv6Addr, dst: Ipv6Addr, b: Seq<u8>) -> Seq<u8> {
    seq![0x60u8, 0u8, 0u8, 0u8] + be16(b.len() as int) + seq![next, hop] + be128(src.bits as int)
        + be128(dst.bits as int) + b
}

/// The IPv4 packet for an IPv6 packet to a NAT64 address: TCP, UDP and echo
/// messages only.
pub open spec fn to_v4(pkt: Seq<u8>, v4_src: Ipv4Addr) -> Option<Seq<u8>> {
    if pkt.len() < 40 || pkt[0] / 16 != 6 {
        None
    } else {
        let n = get16(pkt, 4);
        let dst = embedded(Ipv6Addr { bits: get128(pkt, 24) as u128 });
        if dst is None || 40 + n > pkt.len() || 20 + n > 65535 {
            None
        } else {
            let p = pkt.subrange(40, 40 + n);
            let ttl = one_hop_less(pkt[7]);
            match body_to_v4(pkt[6], v4_src, dst->0, p) {
                Some(b) => Some(header_v4(20 + n, ttl, protocol_v4(pkt[6]), v4_src, dst->0) + b),
                None => None,
            }
        }
    }
}

/// The length of the header of an IPv4 packet.
pub open spec fn header_len(pkt: Seq<u8>) -> int {
    (pkt[0] % 16) * 4
}

/// The IPv6 packet for an IPv4 packet: TCP, UDP and echo messages only. There is
/// none for a packet that is cut short, or that claims to be shorter than its
/// own header.
pub open spec fn to_v6(pkt: Seq<u8>, v6_dst: Ipv6Addr) -> Option<Seq<u8>> {
    if pkt.len() < 20 || pkt[0] / 16 != 4 || pkt.len() < get16(pkt, 2) || get16(pkt, 2)
        < header_len(pkt) {
        None
    } else {
        let src = embedding(Ipv4Addr { bits: get32(pkt, 12) as u32 });
        let p = pkt.subrange(header_len(pkt), get16(pkt, 2));
        match body_to_v6(pkt[9], src, v6_dst, p) {
            Some(b) => Some(
                packet_v6(protocol_v6(pkt[9]), one_hop_less(pkt[8]), src, v6_dst, b),
            ),
            None => None,
        }
    }
}

fn set16(v: &mut Vec<u8>, i: usize, x: u16)
    requires
        i + 2 <= old(v)@.len(),
    ensures
        final(v)@ == put16(old(v)@, i as int, x as int),
{
    let n = v.len();
    assert(i + 2 <= n);
    v.set(i, (x / 256) as u8);
    v.set(i + 1, (x % 256) as u8);
    assert(v@ =~= put16(old(v)@, i as int, x as int));
}

fn sub_vec(s: &[u8], from: usize, to: usize) -> (r: Vec<u8>)
    requires
        from <= to <= s.len(),
    ensures
        r@ == s@.subrange(from as int, to as int),
{
    let mut v: Vec<u8> = Vec::new();
    push_range(&mut v, s, from, to);
    assert(v@ =~= s@.subrange(from as int, to as int));
    v
}

fn nonzero(x: u16) -> (r: u16)
    ensures
        r as int == never_zero(x as int),
{
    if x == 0 {
        0xffff
    } else {
        x
    }
}

fn less_hop(n: u8) -> (r: u8)
    ensures
        r == one_hop_less(n),
{
    if n <= 2 {
        1
    } else {
        n - 1
    }
}

fn body_v4(next_header: u8, src: Ipv4Addr, dst: Ipv4Addr, payload: Vec<u8>) -> (r: Option<Vec<u8>>)
    requires
        payload@.len() <= 0xffff,
    ensures
        match r {
            Some(b) => body_to_v4(next_header, src, dst, payload@) == Some(b@) && b@.len()
                == payload@.len(),
            None => body_to_v4(next_header, src, dst, payload@) is None,
        },
{
    let mut p = payload;
    if next_header == IPPROTO_TCP {
        if p.len() >= 20 {
            set16(&mut p, 16, 0);
            let ck: u16 = tcp_udp_checksum_v4(src, dst, IPPROTO_TCP, p.as_slice());
            set16(&mut p, 16, ck);
        }
        Some(p)
    } else if next_header == IPPROTO_UDP {
        if p.len() >= 8 {
            set16(&mut p, 6, 0);
            let ck: u16 = tcp_udp_checksum_v4(src, dst, IPPROTO_UDP, p.as_slice());
            set16(&mut p, 6, nonzero(ck));
        }
        Some(p)
    } else if next_header == IPPROTO_ICMPV6 {
        if p.len() >= 4 {
            let t: u8 = p[0];
            if t == 128 {
                p.set(0, 8);
            } else if t == 129 {
                p.set(0, 0);
            } else {
                return None;
            }
            set16(&mut p, 2, 0);
            let ck: u16 = internet_checksum(p.as_slice());
            set16(&mut p, 2, ck);
        }
        Some(p)
    } else {
        None
    }
}

fn body_v6(protocol: u8, src: Ipv6Addr, dst: Ipv6Addr, payload: Vec<u8>) -> (r: Option<Vec<u8>>)
    requires
        payload@.len() <= 0xffff,
    ensures
        match r {
            Some(b) => body_to_v6(protocol, src, dst, payload@) == Some(b@) && b@.len()
                == payload@.len(),
            None => body_to_v6(protocol, src, dst, payload@) is None,
        },
{
    let mut p = payload;
    if protocol == IPPROTO_TCP {
        if p.len() >= 20 {
            set16(&mut p, 16, 0);
            let ck: u16 = tcp_udp_checksum_v6(src, dst, IPPROTO_TCP, p.as_slice());
            set16(&mut p, 16, ck);
        }
        Some(p)
    } else if protocol == IPPROTO_UDP {
        if p.len() >= 8 {
            set16(&mut p, 6, 0);
            let ck: u16 = tcp_udp_checksum_v6(src, dst, IPPROTO_UDP, p.as_slice());
            set16(&mut p, 6, nonzero(ck));
        }
        Some(p)
    } else if protocol == IPPROTO_ICMP {
        if p.len() >= 4 {
            let t: u8 = p[0];
            if t == 8 {
                p.set(0, 128);
            } else if t == 0 {
                p.set(0, 129);
            } else {
                return None;
            }
            set16(&mut p, 2, 0);
            let ck: u16 = tcp_udp_checksum_v6(src, dst, IPPROTO_ICMPV6, p.as_slice());
            set16(&mut p, 2, nonzero(ck));
        }
        Some(p)
    } else {
        None
    }
}

/// Translates an IPv6 packet to IPv4. Returns `None` if not translatable.
///
/// Handles TCP, UDP, and ICMPv6 echo.
pub fn translate_v6_to_v4(pkt: &[u8], v4_src: Ipv4Addr) -> (r: Option<Vec<u8>>)
    ensures
        match r {
            Some(out) => to_v4(pkt@, v4_src) == Some(out@),
            None => to_v4(pkt@, v4_src) is None,
        },
{
    if pkt.len() < 40 || pkt[0] / 16 != 6 {
        return None;
    }
    let payload_len: usize = read16(pkt, 4) as usize;
    let next_header = pkt[6];
    let v4_dst = match extract_v4_from_nat64(Ipv6Addr { bits: read128(pkt, 24) }) {
        Some(a) => a,
        None => {
            return None;
        },
    };
    if pkt.len() - 40 < payload_len {
        return None;
    }
    let total_len: usize = 20 + payload_len;
    if total_len > 65535 {
        return None;
    }
    let payload = sub_vec(pkt, 40, 40 + payload_len);
    let body = match body_v4(next_header, v4_src, v4_dst, payload) {
        Some(b) => b,
        None => {
            return None;
        },
    };
    let v4_proto: u8 = if next_header == IPPROTO_ICMPV6 {
        IPPROTO_ICMP
    } else {
        next_header
    };
    let ttl: u8 = less_hop(pkt[7]);
    let mut out: Vec<u8> = Vec::new();
    out.push(0x45);
    out.push(0);
    assert(out@ =~= seq![0x45u8, 0u8]);
    push16(&mut out, total_len as u16);
    let ghost head = out@;
    out.push(0);
    out.push(0);
    out.push(0x40);
    out.push(0);
    out.push(ttl);
    out.push(v4_proto);
    out.push(0);
    out.push(0);
    assert(out@ =~= head + seq![0u8, 0u8, 0x40u8, 0u8, ttl, v4_proto, 0u8, 0u8]);
    push32(&mut out, v4_src.bits);
    push32(&mut out, v4_dst.bits);
    assert(out@ =~= bare_header_v4(total_len as int, ttl, v4_proto, v4_src, v4_dst));
    let ck: u16 = ipv4_header_checksum(out.as_slice());
    set16(&mut out, 10, ck);
    push_range(&mut out, body.as_slice(), 0, body.len());
    assert(body@.subrange(0, body@.len() as int) =~= body@);
    Some(out)
}

/// Translates an IPv4 packet to IPv6. Returns `None` if not translatable.
///
/// The source is embedded into the NAT64 prefix.
pub fn translate_v4_to_v6(pkt: &[u8], v6_dst: Ipv6Addr) -> (r: Option<Vec<u8>>)
    ensures
        match r {
            Some(out) => to_v6(pkt@, v6_dst) == Some(out@),
            None => to_v6(pkt@, v6_dst) is None,
        },
{
    if pkt.len() < 20 || pkt[0] / 16 != 4 {
        return None;
    }
    let ihl: usize = (pkt[0] % 16) as usize * 4;
    let total_len: usize = read16(pkt, 2) as usize;
    if pkt.len() < total_len || total_len < ihl {
        return None;
    }
    let protocol = pkt[9];
    let v6_src = embed_v4_in_nat64(Ipv4Addr { bits: read32(pkt, 12) });
    let payload = sub_vec(pkt, ihl, total_len);
    let body = match body_v6(protocol, v6_src, v6_dst, payload) {
        Some(b) => b,
        None => {
            return None;
        },
    };
    let next: u8 = if protocol == IPPROTO_ICMP {
        IPPROTO_ICMPV6
    } else {
        protocol
    };
    let hop: u8 = less_hop(pkt[8]);
    let mut out: Vec<u8> = Vec::new();
    out.push(0x60);
    out.push(0);
    out.push(0);
    out.push(0);
    assert(out@ =~= seq![0x60u8, 0u8, 0u8, 0u8]);
    push16(&mut out, body.len() as u16);
    let ghost head = out@;
    out.push(next);
    out.push(hop);
    assert(out@ =~= head + seq![next, hop]);
    push128(&mut out, v6_src.bits);
    push128(&mut out, v6_dst.bits);
    push_range(&mut out, body.as_slice(), 0, body.len());
    assert(body@.subrange(0, body@.len() as int) =~= body@);
    Some(out)
}

/// The header of a translated packet passes a receiver's check.
pub proof fn translated_header_checks_out(pkt: Seq<u8>, v4_src: Ipv4Addr)
    requires
        to_v4(pkt, v4_src) is Some,
    ensures
        to_v4(pkt, v4_src)->0.len() >= 20,
        fold(word_sum(to_v4(pkt, v4_src)->0.take(20))) == 0xffff,
{
    let out = to_v4(pkt, v4_src)->0;
    let n = get16(pkt, 4);
    let dst = embedded(Ipv6Addr { bits: get128(pkt, 24) as u128 })->0;
    let proto = if pkt[6] == IPPROTO_ICMPV6 {
        IPPROTO_ICMP
    } else {
        pkt[6]
    };
    let bare = bare_header_v4(20 + n, one_hop_less(pkt[7]), proto, v4_src, dst);
    assert(bare.len() == 20);
    assert(bare[10] == 0 && bare[11] == 0);
    word_sum_bound(bare);
    fold_keeps_remainder(word_sum(bare));
    checksum_checks_out(bare, 10);
    assert(out.take(20) =~= put16(bare, 10, checksum(bare)));
}

/// A translated UDP datagram passes a receiver's check against the addresses it
/// travels with.
pub proof fn translated_udp_checks_out(src: Ipv4Addr, dst: Ipv4Addr, p: Seq<u8>)
    requires
        8 <= p.len() <= 0xffff,
    ensures
        fold(word_sum(pseudo_v4(src, dst, IPPROTO_UDP, udp_v4(src, dst, p)))) == 0xffff,
{
    let z = put16(p, 6, 0);
    let s = pseudo_v4(src, dst, IPPROTO_UDP, z);
    let x = never_zero(checksum(s));
    assert(s[18] == z[6] && s[19] == z[7]);
    word_sum_bound(s);
    fold_keeps_remainder(word_sum(s));
    checksum_checks_out(s, 18);
    assert(pseudo_v4(src, dst, IPPROTO_UDP, put16(z, 6, x)) =~= put16(s, 18, x));
}

/// A translated TCP segment passes a receiver's check against the addresses it
/// travels with.
pub proof fn translated_tcp_checks_out(src: Ipv4Addr, dst: Ipv4Addr, p: Seq<u8>)
    requires
        20 <= p.len() <= 0xffff,
    ensures
        fold(word_sum(pseudo_v4(src, dst, IPPROTO_TCP, tcp_v4(src, dst, p)))) == 0xffff,
{
    let z = put16(p, 16, 0);
    let s = pseudo_v4(src, dst, IPPROTO_TCP, z);
    assert(s[28] == z[16] && s[29] == z[17]);
    word_sum_bound(s);
    fold_keeps_remainder(word_sum(s));
    checksum_checks_out(s, 28);
    assert(pseudo_v4(src, dst, IPPROTO_TCP, put16(z, 16, checksum(s))) =~= put16(
        s,
        28,
        checksum(s),
    ));
}

/// A UDP datagram on its way to IPv6 passes a receiver's check against the
/// addresses it travels with.
pub proof fn returned_udp_checks_out(src: Ipv6Addr, dst: Ipv6Addr, p: Seq<u8>)
    requires
        8 <= p.len() <= 0xffff,
    ensures
        fold(word_sum(pseudo_v6(src, dst, IPPROTO_UDP, udp_v6(src, dst, p)))) == 0xffff,
{
    let z = put16(p, 6, 0);
    let s = pseudo_v6(src, dst, IPPROTO_UDP, z);
    let x = never_zero(checksum(s));
    assert(s[46] == z[6] && s[47] == z[7]);
    word_sum_bound(s);
    fold_keeps_remainder(word_sum(s));
    checksum_checks_out(s, 46);
    assert(pseudo_v6(src, dst, IPPROTO_UDP, put16(z, 6, x)) =~= put16(s, 46, x));
}

/// A TCP segment on its way to IPv6 passes a receiver's check against the
/// addresses it travels with.
pub proof fn returned_tcp_checks_out(src: Ipv6Addr, dst: Ipv6Addr, p: Seq<u8>)
    requires
        20 <= p.len() <= 0xffff,
    ensures
        fold(word_sum(pseudo_v6(src, dst, IPPROTO_TCP, tcp_v6(src, dst, p)))) == 0xffff,
{
    let z = put16(p, 16, 0);
    let s = pseudo_v6(src, dst, IPPROTO_TCP, z);
    assert(s[56] == z[16] && s[57] == z[17]);
    word_sum_bound(s);
    fold_keeps_remainder(word_sum(s));
    checksum_checks_out(s, 56);
    assert(pseudo_v6(src, dst, IPPROTO_TCP, put16(z, 16, checksum(s))) =~= put16(
        s,
        56,
        checksum(s),
    ));
}

/// Whether two payloads agree but for two bytes from `at` on.
pub open spec fn agree_but_at(p: Seq<u8>, q: Seq<u8>, at: int) -> bool {
    &&& p.len() == q.len()
    &&& forall|i: int| 0 <= i < p.len() && i != at && i != at + 1 ==> #[trigger] p[i] == q[i]
}

/// Ports and data of TCP and UDP survive in both directions: only the checksum
/// changes.
pub proof fn only_the_checksum_changes(
    src: Ipv4Addr,
    dst: Ipv4Addr,
    src6: Ipv6Addr,
    dst6: Ipv6Addr,
    p: Seq<u8>,
)
    ensures
        agree_but_at(tcp_v4(src, dst, p), p, 16),
        agree_but_at(udp_v4(src, dst, p), p, 6),
        agree_but_at(tcp_v6(src6, dst6, p), p, 16),
        agree_but_at(udp_v6(src6, dst6, p), p, 6),
{
}

/// An echo message has the type it had once it has gone both ways.
pub proof fn echo_types_come_back(src: Ipv6Addr, dst: Ipv6Addr, p: Seq<u8>)
    requires
        p.len() >= 4,
        echo_v4(p) is Some,
    ensures
        echo_v6(src, dst, echo_v4(p)->0) is Some,
        (echo_v6(src, dst, echo_v4(p)->0)->0)[0] == p[0],
{
}

/// Where the checksum of a message stands: of TCP, UDP and ICMPv6.
pub open spec fn checksum_at(next_header: u8) -> int {
    if next_header == IPPROTO_TCP {
        16
    } else if next_header == IPPROTO_UDP {
        6
    } else {
        2
    }
}

/// The payload keeps its length and, but for the checksum, its bytes on the way
/// to IPv4 and back.
proof fn payload_comes_back(
    next_header: u8,
    src: Ipv4Addr,
    dst: Ipv4Addr,
    src6: Ipv6Addr,
    dst6: Ipv6Addr,
    p: Seq<u8>,
)
    requires
        body_to_v4(next_header, src, dst, p) is Some,
    ensures
        ({
            let b = body_to_v4(next_header, src, dst, p)->0;
            let c = body_to_v6(protocol_v4(next_header), src6, dst6, b);
            &&& b.len() == p.len()
            &&& c is Some
            &&& agree_but_at(c->0, p, checksum_at(next_header))
        }),
{
    let b = body_to_v4(next_header, src, dst, p)->0;
    only_the_checksum_changes(src, dst, src6, dst6, p);
    only_the_checksum_changes(src, dst, src6, dst6, b);
    if next_header == IPPROTO_ICMPV6 && p.len() >= 4 {
        let c = echo_v6(src6, dst6, b)->0;
        assert(forall|i: int| 4 <= i < p.len() ==> c[i] == p[i]);
        assert(c[1] == p[1]);
    }
}

/// What stands where in a translated packet.
proof fn parts_of_v4(
    total_len: int,
    ttl: u8,
    proto: u8,
    src: Ipv4Addr,
    dst: Ipv4Addr,
    b: Seq<u8>,
)
    requires
        total_len == 20 + b.len() <= 0xffff,
    ensures
        ({
            let q = header_v4(total_len, ttl, proto, src, dst) + b;
            &&& q.len() == total_len
            &&& q[0] == 0x45
            &&& q[9] == proto
            &&& get16(q, 2) == total_len
            &&& get32(q, 12) == src.bits
            &&& q.subrange(20, total_len) == b
        }),
{
    let bare = bare_header_v4(total_len, ttl, proto, src, dst);
    let q = header_v4(total_len, ttl, proto, src, dst) + b;
    assert(bare.len() == 20);
    assert(forall|i: int| 0 <= i < 20 && i != 10 && i != 11 ==> q[i] == bare[i]);
    assert(bare[2] == be16(total_len)[0] && bare[3] == be16(total_len)[1]);
    assert(get32(q, 12) == src.bits) by {
        be32_reads_back(src.bits as int);
        assert(q.subrange(12, 16) =~= be32(src.bits as int));
        get32_shift(q, 12, 12, 16);
    }
    assert(q.subrange(20, total_len) =~= b);
}

/// What stands where in a packet on its way to IPv6.
proof fn parts_of_v6(next: u8, hop: u8, src: Ipv6Addr, dst: Ipv6Addr, b: Seq<u8>)
    requires
        b.len() <= 0xffff,
    ensures
        ({
            let o = packet_v6(next, hop, src, dst, b);
            &&& o.len() == 40 + b.len()
            &&& get16(o, 4) == b.len()
            &&& o[6] == next
            &&& o.subrange(8, 24) == be128(src.bits as int)
            &&& o.subrange(24, 40) == be128(dst.bits as int)
            &&& o.subrange(40, o.len() as int) == b
        }),
{
    let o = packet_v6(next, hop, src, dst, b);
    be128_reads_back(src.bits as int);
    be128_reads_back(dst.bits as int);
    assert(o[4] == be16(b.len() as int)[0] && o[5] == be16(b.len() as int)[1]);
    assert(o.subrange(8, 24) =~= be128(src.bits as int));
    assert(o.subrange(24, 40) =~= be128(dst.bits as int));
    assert(o.subrange(40, o.len() as int) =~= b);
}

/// A packet that goes to IPv4 and back to IPv6 has the length, the protocol and
/// the payload it had, but for the checksum, and travels from the embedding of
/// the IPv4 source to the given address.
pub proof fn round_trip_keeps_the_payload(pkt: Seq<u8>, v4_src: Ipv4Addr, v6_dst: Ipv6Addr)
    requires
        to_v4(pkt, v4_src) is Some,
    ensures
        ({
            let n = get16(pkt, 4);
            let back = to_v6(to_v4(pkt, v4_src)->0, v6_dst);
            &&& back is Some
            &&& back->0.len() == 40 + n
            &&& get16(back->0, 4) == n
            &&& (back->0)[6] == pkt[6]
            &&& back->0.subrange(8, 24) == be128(embedding(v4_src).bits as int)
            &&& back->0.subrange(24, 40) == be128(v6_dst.bits as int)
            &&& agree_but_at(
                back->0.subrange(40, 40 + n),
                pkt.subrange(40, 40 + n),
                checksum_at(pkt[6]),
            )
        }),
{
    let n = get16(pkt, 4);
    let dst = embedded(Ipv6Addr { bits: get128(pkt, 24) as u128 })->0;
    let p = pkt.subrange(40, 40 + n);
    let proto = protocol_v4(pkt[6]);
    let src = embedding(v4_src);
    payload_comes_back(pkt[6], v4_src, dst, src, v6_dst, p);
    let b = body_to_v4(pkt[6], v4_src, dst, p)->0;
    let ttl = one_hop_less(pkt[7]);
    parts_of_v4(20 + n, ttl, proto, v4_src, dst, b);
    let q = to_v4(pkt, v4_src)->0;
    assert(q == header_v4(20 + n, ttl, proto, v4_src, dst) + b);
    assert(header_len(q) == 20);
    let c = body_to_v6(proto, src, v6_dst, b)->0;
    parts_of_v6(protocol_v6(proto), one_hop_less(q[8]), src, v6_dst, c);
}

// ── the way back ─────────────────────────────────────────────────────

/// What a returning packet is recognized by: where it comes from, and the port
/// it goes to.
#[derive(Clone, Copy, Debug, PartialEq, Eq, Hash, Structural)]
pub struct FlowKey {
    /// The IPv4 peer.
    pub peer: Ipv4Addr,
    /// The port of the IPv6 host.
    pub port: u16,
}

impl View for FlowKey {
    type V = FlowKey;

    open spec fn view(&self) -> FlowKey {
        *self
    }
}

impl TableKey for FlowKey {
    fn same(&self, other: &FlowKey) -> (r: bool) {
        *self == *other
    }
}

impl View for Ipv6Addr {
    type V = Ipv6Addr;

    open spec fn view(&self) -> Ipv6Addr {
        *self
    }
}

/// The flow that an outgoing IPv6 packet belongs to.
pub open spec fn flow_out(pkt: Seq<u8>) -> FlowKey {
    FlowKey {
        peer: Ipv4Addr { bits: get32(pkt, 36) as u32 },
        port: if pkt.len() >= 42 {
            get16(pkt, 40) as u16
        } else {
            0
        },
    }
}

/// The flow that a returning IPv4 packet belongs to.
pub open spec fn flow_back(pkt: Seq<u8>) -> FlowKey {
    FlowKey {
        peer: Ipv4Addr { bits: get32(pkt, 12) as u32 },
        port: if pkt.len() >= header_len(pkt) + 4 {
            get16(pkt, header_len(pkt) + 2) as u16
        } else {
            0
        },
    }
}

/// What happens to a packet: an IPv6 packet is translated and its flow
/// remembered; an IPv4 packet to the pool address goes back along its flow.
/// Other packets are dropped.
pub open spec fn step(flows: Map<FlowKey, Ipv6Addr>, pkt: Seq<u8>, pool: Ipv4Addr) -> (
    Map<FlowKey, Ipv6Addr>,
    Option<Seq<u8>>,
) {
    if pkt.len() > 0 && pkt[0] / 16 == 6 {
        match to_v4(pkt, pool) {
            Some(out) => (
                flows.insert(flow_out(pkt), Ipv6Addr { bits: get128(pkt, 8) as u128 }),
                Some(out),
            ),
            None => (flows, None),
        }
    } else if pkt.len() >= 20 && pkt[0] / 16 == 4 && get32(pkt, 16) == pool.bits
        && flows.contains_key(flow_back(pkt)) {
        (flows, to_v6(pkt, flows[flow_back(pkt)]))
    } else {
        (flows, None)
    }
}

/// The translator: the flows that it has seen.
#[derive(Debug)]
pub struct Translator {
    flows: Table<FlowKey, Ipv6Addr>,
}

impl View for Translator {
    type V = Map<FlowKey, Ipv6Addr>;

    closed spec fn view(&self) -> Map<FlowKey, Ipv6Addr> {
        self.flows@
    }
}

impl Translator {
    /// No flow is kept twice.
    pub closed spec fn wf(self) -> bool {
        self.flows.wf()
    }

    /// A translator that has seen nothing.
    pub fn new() -> (r: Translator)
        ensures
            r.wf(),
            r@ == Map::<FlowKey, Ipv6Addr>::empty(),
    {
        Translator { flows: Table::new() }
    }

    /// Handles one packet and returns the packet to send, if any.
    pub fn handle_packet(&mut self, pkt: &[u8], pool: Ipv4Addr) -> (r: Option<Vec<u8>>)
        requires
            old(self).wf(),
        ensures
            final(self).wf(),
            final(self)@ == step(old(self)@, pkt@, pool).0,
            match r {
                Some(out) => step(old(self)@, pkt@, pool).1 == Some(out@),
                None => step(old(self)@, pkt@, pool).1 is None,
            },
    {
        if pkt.len() == 0 {
            return None;
        }
        let version: u8 = pkt[0] / 16;
        if version == 6 {
            let out = match translate_v6_to_v4(pkt, pool) {
                Some(out) => out,
                None => {
                    return None;
                },
            };
            let src = Ipv6Addr { bits: read128(pkt, 8) };
            let peer = Ipv4Addr { bits: read32(pkt, 36) };
            let port: u16 = if pkt.len() >= 42 {
                read16(pkt, 40)
            } else {
                0
            };
            self.flows.insert(FlowKey { peer, port }, src);
            Some(out)
        } else if version == 4 && pkt.len() >= 20 {
            let ihl: usize = (pkt[0] % 16) as usize * 4;
            if read32(pkt, 16) != pool.bits {
                return None;
            }
            let port: u16 = if pkt.len() >= ihl + 4 {
                read16(pkt, ihl + 2)
            } else {
                0
            };
            let peer = Ipv4Addr { bits: read32(pkt, 12) };
            match self.flows.get(&FlowKey { peer, port }) {
                Some(dst) => translate_v4_to_v6(pkt, *dst),
                None => None,
            }
        } else {
            None
        }
    }
}

/// A packet that comes back from the peer of a flow, to the port of that flow,
/// goes to the host that sent the first one.
pub proof fn reply_finds_the_way_back(
    flows: Map<FlowKey, Ipv6Addr>,
    out: Seq<u8>,
    back: Seq<u8>,
    pool: Ipv4Addr,
)
    requires
        to_v4(out, pool) is Some,
        back.len() >= 20,
        back[0] / 16 == 4,
        get32(back, 16) == pool.bits,
        flow_back(back) == flow_out(out),
    ensures
        ({
            let after = step(flows, out, pool).0;
            step(after, back, pool).1 == to_v6(back, Ipv6Addr { bits: get128(out, 8) as u128 })
        }),
{
}

} // verus!
