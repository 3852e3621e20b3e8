use patchbay::addr::{Ipv4Addr, Ipv6Addr};
use patchbay::nat64::{
    embed_v4_in_nat64, extract_v4_from_nat64, internet_checksum, ipv4_header_checksum,
    nat64_v4_pool, tcp_udp_checksum_v4, tcp_udp_checksum_v6, translate_v4_to_v6,
    translate_v6_to_v4, Translator, IPPROTO_UDP,
};

fn udp(src: u16, dst: u16) -> Vec<u8> {
    let mut udp = vec![0u8; 10];
    udp[0..2].copy_from_slice(&src.to_be_bytes());
    udp[2..4].copy_from_slice(&dst.to_be_bytes());
    udp[4..6].copy_from_slice(&10u16.to_be_bytes());
    udp[8] = b'h';
    udp[9] = b'i';
    udp
}

fn v6_packet(src6: Ipv6Addr, dst6: Ipv6Addr, src: u16, dst: u16) -> Vec<u8> {
    let mut udp = udp(src, dst);
    let cksum = tcp_udp_checksum_v6(src6, dst6, IPPROTO_UDP, &udp);
    let cksum = if cksum == 0 { 0xffff } else { cksum };
    udp[6] = (cksum >> 8) as u8;
    udp[7] = (cksum & 0xff) as u8;
    let mut pkt = Vec::with_capacity(40 + udp.len());
    pkt.push(0x60);
    pkt.extend_from_slice(&[0, 0, 0]);
    pkt.extend_from_slice(&(udp.len() as u16).to_be_bytes());
    pkt.push(IPPROTO_UDP);
    pkt.push(64);
    pkt.extend_from_slice(&src6.bits.to_be_bytes());
    pkt.extend_from_slice(&dst6.bits.to_be_bytes());
    pkt.extend_from_slice(&udp);
    pkt
}

fn v4_packet(src4: Ipv4Addr, dst4: Ipv4Addr, src: u16, dst: u16) -> Vec<u8> {
    let mut udp = udp(src, dst);
    let cksum = tcp_udp_checksum_v4(src4, dst4, IPPROTO_UDP, &udp);
    let cksum = if cksum == 0 { 0xffff } else { cksum };
    udp[6] = (cksum >> 8) as u8;
    udp[7] = (cksum & 0xff) as u8;
    let total_len = 20 + udp.len();
    let mut pkt = vec![0u8; total_len];
    pkt[0] = 0x45;
    pkt[2..4].copy_from_slice(&(total_len as u16).to_be_bytes());
    pkt[6] = 0x40; // DF
    pkt[8] = 64; // TTL
    pkt[9] = IPPROTO_UDP;
    pkt[12..16].copy_from_slice(&src4.octets());
    pkt[16..20].copy_from_slice(&dst4.octets());
    let hdr_cksum = ipv4_header_checksum(&pkt[..20]);
    pkt[10] = (hdr_cksum >> 8) as u8;
    pkt[11] = (hdr_cksum & 0xff) as u8;
    pkt[20..].copy_from_slice(&udp);
    pkt
}

#[test]
fn embed_extract_roundtrip() {
    let v4 = Ipv4Addr::new(203, 0, 113, 1);
    let v6 = embed_v4_in_nat64(v4);
    assert_eq!(v6.text(), "64:ff9b::cb00:7101");
    assert_eq!(extract_v4_from_nat64(v6), Some(v4));
}

#[test]
fn extract_non_nat64_returns_none() {
    let v6 = Ipv6Addr::new(0x2001, 0xdb8, 0, 0, 0, 0, 0, 1);
    assert_eq!(extract_v4_from_nat64(v6), None);
}

#[test]
fn translate_udp_v6_to_v4() {
    let src6 = Ipv6Addr::new(0xfd10, 0, 0, 0, 0, 0, 0, 2);
    let dst6 = embed_v4_in_nat64(Ipv4Addr::new(10, 0, 0, 1));
    let v4_src = Ipv4Addr::new(192, 0, 2, 64);
    let pkt = v6_packet(src6, dst6, 1234, 5000);
    let v4_pkt = translate_v6_to_v4(&pkt, v4_src).expect("translation should succeed");
    assert_eq!(v4_pkt[0] >> 4, 4, "should be IPv4");
    assert_eq!(v4_pkt[9], IPPROTO_UDP, "should be UDP");
    // Dst should be 10.0.0.1
    assert_eq!(&v4_pkt[16..20], &[10, 0, 0, 1]);
    // Src should be our pool address.
    assert_eq!(&v4_pkt[12..16], &v4_src.octets());
}

#[test]
fn translate_udp_v4_to_v6() {
    let src4 = Ipv4Addr::new(10, 0, 0, 1);
    let v6_dst = Ipv6Addr::new(0xfd10, 0, 0, 0, 0, 0, 0, 2);
    let pkt = v4_packet(src4, nat64_v4_pool(), 5000, 1234);
    let v6_pkt = translate_v4_to_v6(&pkt, v6_dst).expect("translation should succeed");
    assert_eq!(v6_pkt[0] >> 4, 6, "should be IPv6");
    assert_eq!(v6_pkt[6], IPPROTO_UDP, "should be UDP");
    // Src should be 64:ff9b::10.0.0.1
    let expected_src = embed_v4_in_nat64(src4);
    assert_eq!(&v6_pkt[8..24], &expected_src.bits.to_be_bytes());
    // Dst should be our v6_dst
    assert_eq!(&v6_pkt[24..40], &v6_dst.bits.to_be_bytes());
}

#[test]
fn checksums_check_out() {
    assert_eq!(internet_checksum(&[]), 0xffff);
    assert_eq!(internet_checksum(&[0x00, 0x01, 0xf2, 0x03]), !0xf204);
    let src = Ipv4Addr::new(10, 0, 0, 1);
    let dst = Ipv4Addr::new(10, 0, 0, 2);
    let pkt = v4_packet(src, dst, 1, 2);
    // A header with its checksum filled in sums to zero.
    assert_eq!(internet_checksum(&pkt[..20]), 0);
    assert_eq!(tcp_udp_checksum_v4(src, dst, IPPROTO_UDP, &pkt[20..]), 0);
}

#[test]
fn translated_packets_check_out() {
    let src6 = Ipv6Addr::new(0xfd10, 0, 0, 0, 0, 0, 0, 2);
    let dst4 = Ipv4Addr::new(10, 0, 0, 1);
    let pool = nat64_v4_pool();
    let out = translate_v6_to_v4(&v6_packet(src6, embed_v4_in_nat64(dst4), 7, 9), pool).unwrap();
    assert_eq!(internet_checksum(&out[..20]), 0);
    assert_eq!(tcp_udp_checksum_v4(pool, dst4, IPPROTO_UDP, &out[20..]), 0);
}

#[test]
fn replies_find_their_way_back() {
    let src6 = Ipv6Addr::new(0xfd10, 0, 0, 0, 0, 0, 0, 2);
    let dst4 = Ipv4Addr::new(10, 0, 0, 1);
    let pool = nat64_v4_pool();
    let mut t = Translator::new();
    let reply = v4_packet(dst4, pool, 5000, 1234);
    assert!(t.handle_packet(&reply, pool).is_none());
    let out = v6_packet(src6, embed_v4_in_nat64(dst4), 1234, 5000);
    assert!(t.handle_packet(&out, pool).is_some());
    let back = t.handle_packet(&reply, pool).unwrap();
    assert_eq!(&back[24..40], &src6.bits.to_be_bytes());
}

#[test]
fn short_and_foreign_packets_are_dropped() {
    let pool = nat64_v4_pool();
    let mut t = Translator::new();
    assert!(t.handle_packet(&[], pool).is_none());
    assert!(translate_v6_to_v4(&[0x60; 12], pool).is_none());
    let src6 = Ipv6Addr::new(0xfd10, 0, 0, 0, 0, 0, 0, 2);
    let not_nat64 = v6_packet(src6, src6, 1, 2);
    assert!(translate_v6_to_v4(&not_nat64, pool).is_none());
    // A total length below that of the header.
    let framed = [
        0x45, 0, 0, 0, 0, 0, 0, 0, 64, 17, 0, 0, 10, 0, 0, 1, 192, 0, 2, 64,
    ];
    assert!(translate_v4_to_v6(&framed, src6).is_none());
    assert!(t.handle_packet(&framed, pool).is_none());
}

#[test]
fn ports_and_data_survive() {
    let src6 = Ipv6Addr::new(0xfd10, 0, 0, 0, 0, 0, 0, 2);
    let dst4 = Ipv4Addr::new(10, 0, 0, 1);
    let pool = nat64_v4_pool();
    let out = translate_v6_to_v4(&v6_packet(src6, embed_v4_in_nat64(dst4), 7, 9), pool).unwrap();
    assert_eq!(&out[20..26], &udp(7, 9)[0..6]);
    assert_eq!(&out[28..], b"hi");
    let back = translate_v4_to_v6(&v4_packet(dst4, pool, 9, 7), src6).unwrap();
    assert_eq!(&back[40..46], &udp(9, 7)[0..6]);
    assert_eq!(&back[48..], b"hi");
    let src = embed_v4_in_nat64(dst4);
    assert_eq!(tcp_udp_checksum_v6(src, src6, IPPROTO_UDP, &back[40..]), 0);
}

#[test]
fn packets_come_back_as_they_were() {
    let src6 = Ipv6Addr::new(0xfd10, 0, 0, 0, 0, 0, 0, 2);
    let dst6 = Ipv6Addr::new(0xfd10, 0, 0, 0, 0, 0, 0, 3);
    let dst4 = Ipv4Addr::new(10, 0, 0, 1);
    let pool = nat64_v4_pool();
    let pkt = v6_packet(src6, embed_v4_in_nat64(dst4), 7, 9);
    let there = translate_v6_to_v4(&pkt, pool).unwrap();
    let back = translate_v4_to_v6(&there, dst6).unwrap();
    assert_eq!(back.len(), pkt.len());
    assert_eq!(&back[4..7], &pkt[4..7]);
    assert_eq!(&back[8..24], &embed_v4_in_nat64(pool).bits.to_be_bytes());
    assert_eq!(&back[24..40], &dst6.bits.to_be_bytes());
    assert_eq!(&back[40..46], &pkt[40..46]);
    assert_eq!(&back[48..], &pkt[48..]);
}
