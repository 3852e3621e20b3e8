//! Internet addresses and networks as plain values.
use vstd::arithmetic::div_mod::lemma_fundamental_div_mod_converse;
use vstd::prelude::*;

use crate::bytes::be32;
use crate::text::{chars_of, dec, parse_number, parse_radix, push_dec, split, split_str, views};

verus! {

/// An IPv4 address.
#[derive(Clone, Copy, Debug, PartialEq, Eq, Hash, Structural)]
pub struct Ipv4Addr {
    /// The address as a 32-bit number.
    pub bits: u32,
}

/// An IPv6 address.
#[derive(Clone, Copy, Debug, PartialEq, Eq, Hash, Structural)]
pub struct Ipv6Addr {
    /// The address as a 128-bit number.
    pub bits: u128,
}

/// An address of either family.
#[derive(Clone, Copy, Debug, PartialEq, Eq, Hash, Structural)]
pub enum IpAddr {
    /// IPv4.
    V4(Ipv4Addr),
    /// IPv6.
    V6(Ipv6Addr),
}

/// An IPv4 address with the length of its network prefix.
#[derive(Clone, Copy, Debug, PartialEq, Eq, Hash, Structural)]
pub struct Ipv4Net {
    /// The address.
    pub addr: Ipv4Addr,
    /// The prefix length, at most 32.
    pub prefix_len: u8,
}

/// An IPv6 address with the length of its network prefix.
#[derive(Clone, Copy, Debug, PartialEq, Eq, Hash, Structural)]
pub struct Ipv6Net {
    /// The address.
    pub addr: Ipv6Addr,
    /// The prefix length, at most 128.
    pub prefix_len: u8,
}

/// `2` to the power `n`.
pub open spec fn pow2(n: int) -> int
    decreases n,
{
    if n <= 0 {
        1
    } else {
        2 * pow2(n - 1)
    }
}

impl Ipv4Addr {
    /// The address `a.b.c.d`.
    pub open spec fn of(a: int, b: int, c: int, d: int) -> Ipv4Addr {
        Ipv4Addr { bits: (a * 0x100_0000 + b * 0x1_0000 + c * 256 + d) as u32 }
    }

    /// The address `a.b.c.d`.
    pub fn new(a: u8, b: u8, c: u8, d: u8) -> (r: Ipv4Addr)
        ensures
            r == Ipv4Addr::of(a as int, b as int, c as int, d as int),
    {
        Ipv4Addr { bits: a as u32 * 0x100_0000 + b as u32 * 0x1_0000 + c as u32 * 256 + d as u32 }
    }

    /// The address with all octets zero.
    pub fn unspecified() -> (r: Ipv4Addr)
        ensures
            r.bits == 0,
    {
        Ipv4Addr { bits: 0 }
    }

    /// Octet `i` of the address, the first one with index 0.
    pub open spec fn octet(self, i: int) -> int {
        if i == 0 {
            self.bits as int / 0x100_0000
        } else if i == 1 {
            (self.bits as int / 0x1_0000) % 256
        } else if i == 2 {
            (self.bits as int / 256) % 256
        } else {
            self.bits as int % 256
        }
    }

    /// The four octets.
    pub fn octets(&self) -> (r: [u8; 4])
        ensures
            r@ == be32(self.bits as int),
            r@ == seq![
                self.octet(0) as u8,
                self.octet(1) as u8,
                self.octet(2) as u8,
                self.octet(3) as u8,
            ],
    {
        let x = self.bits;
        let r = [
            (x / 0x100_0000) as u8,
            ((x / 0x1_0000) % 256) as u8,
            ((x / 256) % 256) as u8,
            (x % 256) as u8,
        ];
        assert(r@ =~= be32(self.bits as int));
        r
    }

    /// The address in dotted decimal.
    pub open spec fn spec_text(self) -> Seq<char> {
        dec(self.octet(0) as nat) + "."@ + dec(self.octet(1) as nat) + "."@ + dec(
            self.octet(2) as nat,
        ) + "."@ + dec(self.octet(3) as nat)
    }

    /// The address in dotted decimal.
    pub fn text(&self) -> (r: String)
        ensures
            r@ == self.spec_text(),
    {
        let o = self.octets();
        let mut s = crate::text::dec_string(o[0] as u64);
        s.append(".");
        push_dec(&mut s, o[1] as u64);
        s.append(".");
        push_dec(&mut s, o[2] as u64);
        s.append(".");
        push_dec(&mut s, o[3] as u64);
        s
    }

    /// The address with its last octet replaced.
    pub open spec fn host(self, h: int) -> Ipv4Addr {
        Ipv4Addr { bits: ((self.bits as int / 256) * 256 + h) as u32 }
    }

    /// The address with its last octet replaced.
    pub fn with_host(&self, h: u8) -> (r: Ipv4Addr)
        ensures
            r == self.host(h as int),
    {
        Ipv4Addr { bits: (self.bits / 256) * 256 + h as u32 }
    }

    /// The first two octets of the address, then `n` and 0.
    pub open spec fn block(self, n: int) -> Ipv4Addr {
        Ipv4Addr { bits: ((self.bits as int / 0x1_0000) * 0x1_0000 + n * 256) as u32 }
    }

    /// The first two octets of the address, then `n` and 0.
    pub fn with_block(&self, n: u8) -> (r: Ipv4Addr)
        ensures
            r == self.block(n as int),
    {
        Ipv4Addr { bits: (self.bits / 0x1_0000) * 0x1_0000 + n as u32 * 256 }
    }

    /// The IPv4-mapped IPv6 address `::ffff:a.b.c.d`.
    pub open spec fn mapped(self) -> Ipv6Addr {
        Ipv6Addr { bits: (0xffff_0000_0000 + self.bits as int) as u128 }
    }

    /// The IPv4-mapped IPv6 address `::ffff:a.b.c.d`.
    pub fn to_ipv6_mapped(&self) -> (r: Ipv6Addr)
        ensures
            r == self.mapped(),
    {
        Ipv6Addr { bits: 0xffff_0000_0000 + self.bits as u128 }
    }
}

/// The octets of `a.b.c.d` are `a`, `b`, `c` and `d`.
pub proof fn octets_of_new(a: u8, b: u8, c: u8, d: u8)
    ensures
        Ipv4Addr::of(a as int, b as int, c as int, d as int).octet(0) == a,
        Ipv4Addr::of(a as int, b as int, c as int, d as int).octet(1) == b,
        Ipv4Addr::of(a as int, b as int, c as int, d as int).octet(2) == c,
        Ipv4Addr::of(a as int, b as int, c as int, d as int).octet(3) == d,
{
    let (a, b, c, d) = (a as int, b as int, c as int, d as int);
    let x = a * 0x100_0000 + b * 0x1_0000 + c * 256 + d;
    lemma_fundamental_div_mod_converse(x, 0x100_0000, a, b * 0x1_0000 + c * 256 + d);
    lemma_fundamental_div_mod_converse(x, 0x1_0000, a * 256 + b, c * 256 + d);
    lemma_fundamental_div_mod_converse(x, 256, a * 0x1_0000 + b * 256 + c, d);
    lemma_fundamental_div_mod_converse(a * 256 + b, 256, a, b);
    lemma_fundamental_div_mod_converse(a * 0x1_0000 + b * 256 + c, 256, a * 256 + b, c);
}

/// One octet of a dotted address: one to three digits, no needless zero in
/// front, at most 255.
pub open spec fn octet_value(s: Seq<char>) -> Option<int> {
    if s.len() == 0 || s.len() > 3 || s[0] == '+' || (s.len() > 1 && s[0] == '0') {
        None
    } else {
        parse_number(s, 10, 255)
    }
}

/// The address that a text in dotted decimal stands for.
pub open spec fn parse_ipv4_spec(s: Seq<char>) -> Option<Ipv4Addr> {
    let p = split(s, "."@);
    if p.len() == 4 && octet_value(p[0]) is Some && octet_value(p[1]) is Some && octet_value(p[2])
        is Some && octet_value(p[3]) is Some {
        Some(
            Ipv4Addr::of(
                octet_value(p[0])->0,
                octet_value(p[1])->0,
                octet_value(p[2])->0,
                octet_value(p[3])->0,
            ),
        )
    } else {
        None
    }
}

fn parse_octet(s: &str) -> (r: Option<u8>)
    ensures
        match r {
            Some(n) => octet_value(s@) == Some(n as int),
            None => octet_value(s@) is None,
        },
{
    let v = chars_of(s);
    if v.len() == 0 || v.len() > 3 || v[0] == '+' || (v.len() > 1 && v[0] == '0') {
        return None;
    }
    match parse_radix(s, 10, 255) {
        Some(n) => Some(n as u8),
        None => None,
    }
}

/// The address that a text in dotted decimal stands for.
pub fn parse_ipv4(s: &str) -> (r: Option<Ipv4Addr>)
    ensures
        match r {
            Some(a) => parse_ipv4_spec(s@) == Some(a),
            None => parse_ipv4_spec(s@) is None,
        },
{
    proof {
        reveal_strlit(".");
    }
    let p = split_str(s, ".");
    assert(views(p@).len() == p.len());
    if p.len() != 4 {
        return None;
    }
    assert(views(p@)[0] == p@[0]@ && views(p@)[1] == p@[1]@ && views(p@)[2] == p@[2]@ && views(
        p@,
    )[3] == p@[3]@);
    match (
        parse_octet(p[0].as_str()),
        parse_octet(p[1].as_str()),
        parse_octet(p[2].as_str()),
        parse_octet(p[3].as_str()),
    ) {
        (Some(a), Some(b), Some(c), Some(d)) => Some(Ipv4Addr::new(a, b, c, d)),
        _ => None,
    }
}

impl Ipv4Net {
    /// A prefix is at most 32 bits long.
    pub open spec fn wf(self) -> bool {
        self.prefix_len <= 32
    }

    /// The network of `addr` with a prefix of `prefix_len` bits, where that is
    /// at most 32.
    pub fn new(addr: Ipv4Addr, prefix_len: u8) -> (r: Option<Ipv4Net>)
        ensures
            match r {
                Some(n) => prefix_len <= 32 && n == (Ipv4Net { addr, prefix_len }),
                None => prefix_len > 32,
            },
    {
        if prefix_len <= 32 {
            Some(Ipv4Net { addr, prefix_len })
        } else {
            None
        }
    }

    /// Whether `ip` agrees with the network's address on the prefix.
    pub open spec fn holds(self, ip: Ipv4Addr) -> bool {
        self.addr.bits as int / pow2(32 - self.prefix_len) == ip.bits as int / pow2(
            32 - self.prefix_len,
        )
    }

    /// Whether `ip` lies in the network.
    pub fn contains(&self, ip: Ipv4Addr) -> (r: bool)
        requires
            self.wf(),
        ensures
            r == self.holds(ip),
    {
        ipv4_net_contains(self.addr.bits, self.prefix_len, ip.bits)
    }

    /// The network as text, `address/length`.
    pub open spec fn spec_text(self) -> Seq<char> {
        self.addr.spec_text() + "/"@ + dec(self.prefix_len as nat)
    }

    /// The network as text, `address/length`.
    pub fn text(&self) -> (r: String)
        ensures
            r@ == self.spec_text(),
    {
        let mut s = self.addr.text();
        s.append("/");
        push_dec(&mut s, self.prefix_len as u64);
        s
    }
}

/// `ipnet::Ipv4Net::contains` on a network given by its address and prefix
/// length: an address is inside where it lies between the network's first and
/// last address, that is where the two agree on the prefix.
#[verifier::external_body]
fn ipv4_net_contains(addr: u32, prefix_len: u8, ip: u32) -> (r: bool)
    requires
        prefix_len <= 32,
    ensures
        r == (addr as int / pow2(32 - prefix_len) == ip as int / pow2(32 - prefix_len)),
{
    let net = ipnet::Ipv4Net::new(addr.into(), prefix_len).expect("prefix length is at most 32");
    let host = ipnet::Ipv4Net::new(ip.into(), 32).expect("32 is a prefix length");
    net.contains(&host.addr())
}

/// The text that the IPv6 address with these bits is printed as.
pub uninterp spec fn ipv6_display(bits: u128) -> Seq<char>;

/// The `Display` text of an IPv6 address, which `ipnet::Ipv6Net::addr` hands
/// out. It is a function of the address alone; that the longest run of zero
/// groups is shortened is not spelled out.
#[verifier::external_body]
fn ipv6_to_text(bits: u128) -> (r: String)
    ensures
        r@ == ipv6_display(bits),
{
    let net = ipnet::Ipv6Net::new(bits.into(), 128).expect("128 is a prefix length");
    net.addr().to_string()
}

impl Ipv6Addr {
    /// The address with the groups `a:b:c:d:e:f:g:h`.
    pub open spec fn of(a: int, b: int, c: int, d: int, e: int, f: int, g: int, h: int) -> Ipv6Addr {
        Ipv6Addr {
            bits: ((((a * 0x1_0000 + b) * 0x1_0000 + c) * 0x1_0000 + d) * 0x1_0000_0000_0000_0000 + ((e
                * 0x1_0000 + f) * 0x1_0000 + g) * 0x1_0000 + h) as u128,
        }
    }

    /// The address with the groups `a:b:c:d:e:f:g:h`.
    pub fn new(a: u16, b: u16, c: u16, d: u16, e: u16, f: u16, g: u16, h: u16) -> (r: Ipv6Addr)
        ensures
            r == Ipv6Addr::of(
                a as int,
                b as int,
                c as int,
                d as int,
                e as int,
                f as int,
                g as int,
                h as int,
            ),
    {
        let hi: u64 = ((a as u64 * 0x1_0000 + b as u64) * 0x1_0000 + c as u64) * 0x1_0000 + d as u64;
        let lo: u64 = ((e as u64 * 0x1_0000 + f as u64) * 0x1_0000 + g as u64) * 0x1_0000 + h as u64;
        Ipv6Addr { bits: hi as u128 * 0x1_0000_0000_0000_0000 + lo as u128 }
    }

    /// The address with all groups zero.
    pub fn unspecified() -> (r: Ipv6Addr)
        ensures
            r.bits == 0,
    {
        Ipv6Addr { bits: 0 }
    }

    /// The address with its last group replaced.
    pub open spec fn host(self, h: int) -> Ipv6Addr {
        Ipv6Addr { bits: ((self.bits as int / 0x1_0000) * 0x1_0000 + h) as u128 }
    }

    /// The address with its last group replaced.
    pub fn with_host(&self, h: u16) -> (r: Ipv6Addr)
        ensures
            r == self.host(h as int),
    {
        Ipv6Addr { bits: (self.bits / 0x1_0000) * 0x1_0000 + h as u128 }
    }

    /// The first three groups of the address, then `n` and zeros.
    pub open spec fn subnet(self, n: int) -> Ipv6Addr {
        Ipv6Addr {
            bits: ((self.bits as int / 0x1_0000_0000_0000_0000_0000) * 0x1_0000_0000_0000_0000_0000
                + n * 0x1_0000_0000_0000_0000) as u128,
        }
    }

    /// The first three groups of the address, then `n` and zeros.
    pub fn with_subnet(&self, n: u16) -> (r: Ipv6Addr)
        ensures
            r == self.subnet(n as int),
    {
        Ipv6Addr {
            bits: (self.bits / 0x1_0000_0000_0000_0000_0000) * 0x1_0000_0000_0000_0000_0000 + n
                as u128 * 0x1_0000_0000_0000_0000,
        }
    }

    /// The address as text.
    pub open spec fn spec_text(self) -> Seq<char> {
        ipv6_display(self.bits)
    }

    /// The address as text.
    pub fn text(&self) -> (r: String)
        ensures
            r@ == self.spec_text(),
    {
        ipv6_to_text(self.bits)
    }
}

impl Ipv6Net {
    /// A prefix is at most 128 bits long.
    pub open spec fn wf(self) -> bool {
        self.prefix_len <= 128
    }

    /// The network of `addr` with a prefix of `prefix_len` bits, where that is
    /// at most 128.
    pub fn new(addr: Ipv6Addr, prefix_len: u8) -> (r: Option<Ipv6Net>)
        ensures
            match r {
                Some(n) => prefix_len <= 128 && n == (Ipv6Net { addr, prefix_len }),
                None => prefix_len > 128,
            },
    {
        if prefix_len <= 128 {
            Some(Ipv6Net { addr, prefix_len })
        } else {
            None
        }
    }

    /// The network as text, `address/length`.
    pub open spec fn spec_text(self) -> Seq<char> {
        self.addr.spec_text() + "/"@ + dec(self.prefix_len as nat)
    }

    /// The network as text, `address/length`.
    pub fn text(&self) -> (r: String)
        ensures
            r@ == self.spec_text(),
    {
        let mut s = self.addr.text();
        s.append("/");
        push_dec(&mut s, self.prefix_len as u64);
        s
    }
}

impl IpAddr {
    /// The address as text.
    pub open spec fn spec_text(self) -> Seq<char> {
        match self {
            IpAddr::V4(a) => a.spec_text(),
            IpAddr::V6(a) => a.spec_text(),
        }
    }

    /// The address as text.
    pub fn text(&self) -> (r: String)
        ensures
            r@ == self.spec_text(),
    {
        match self {
            IpAddr::V4(a) => a.text(),
            IpAddr::V6(a) => a.text(),
        }
    }
}

} // verus!
