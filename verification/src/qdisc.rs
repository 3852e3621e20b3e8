//! Link impairment profiles and the `tc` commands that put them in place.
use vstd::arithmetic::power2::pow2;
use vstd::prelude::*;

use crate::text::{dec, parse_number, parse_radix, str_eq, views};

verus! {

/// Rate-limiter queue depth used when [`LinkCondition::buffer_ms`] is unset.
pub const DEFAULT_BUFFER_MS: u32 = 400;

/// Mean burst length selected by [`LinkCondition::bursty_loss`].
pub const DEFAULT_LOSS_BURST_PKTS: u32 = 5;

/// Retries when a `tc` command cannot be spawned for the moment.
pub const SPAWN_RETRIES: u32 = 3;

/// A percentage as the bits of an IEEE 754 single.
#[derive(Clone, Copy, Debug)]
pub struct Percent {
    /// The bits.
    pub bits: u32,
}

impl Percent {
    /// Whether the number is above zero.
    pub open spec fn spec_positive(self) -> bool {
        0 < self.bits <= 0x7f80_0000
    }

    /// Whether the number is above zero.
    pub fn positive(self) -> (r: bool)
        ensures
            r == self.spec_positive(),
    {
        0 < self.bits && self.bits <= 0x7f80_0000
    }

    /// Whether the bits stand for no number.
    pub open spec fn spec_nan(self) -> bool {
        self.bits % 0x8000_0000 > 0x7f80_0000
    }

    /// Whether two percentages are equal as numbers: both zeros are, and what
    /// is no number equals nothing.
    pub open spec fn spec_same(self, other: Percent) -> bool {
        !self.spec_nan() && !other.spec_nan() && (self.bits == other.bits || (self.bits
            % 0x8000_0000 == 0 && other.bits % 0x8000_0000 == 0))
    }

    /// Whether two percentages are equal as numbers.
    pub fn same(self, other: Percent) -> (r: bool)
        ensures
            r == self.spec_same(other),
    {
        self.bits % 0x8000_0000 <= 0x7f80_0000 && other.bits % 0x8000_0000 <= 0x7f80_0000 && (
        self.bits == other.bits || (self.bits % 0x8000_0000 == 0 && other.bits % 0x8000_0000
            == 0))
    }
}

/// A percentage as the bits of an IEEE 754 double.
#[derive(Clone, Copy, Debug)]
pub struct WidePercent {
    /// The bits.
    pub bits: u64,
}

/// The whole number nearest to `n / 2^k`, the even one of two that are equally
/// near.
pub open spec fn rounded(n: nat, k: nat) -> nat {
    let d = pow2(k);
    let q = n / d;
    if 2 * (n % d) > d || (2 * (n % d) == d && q % 2 == 1) {
        q + 1
    } else {
        q
    }
}

/// The magnitude, as the bits of a single, of the double with that exponent and
/// fraction. What is no number stays none; what is too large for a single is
/// infinite; below the normal singles the fraction has fewer places.
pub open spec fn narrow_magnitude(exponent: nat, fraction: nat) -> nat {
    if exponent == 0x7ff {
        if fraction == 0 {
            0x7f80_0000
        } else {
            0x7fc0_0000 + fraction / 0x2000_0000 % 0x40_0000
        }
    } else if exponent > 1150 {
        0x7f80_0000
    } else if exponent >= 897 {
        ((exponent - 896) as nat) * 0x80_0000 + rounded(fraction, 29)
    } else if exponent >= 873 {
        rounded(0x10_0000_0000_0000 + fraction, (926 - exponent) as nat)
    } else {
        0
    }
}

fn round_off(n: u64, k: u64) -> (r: u64)
    requires
        n < 0x20_0000_0000_0000,
        1 <= k <= 53,
    ensures
        r == rounded(n as nat, k as nat),
        k >= 29 ==> r <= 0x100_0000,
        k == 29 && n < 0x10_0000_0000_0000 ==> r <= 0x80_0000,
{
    proof {
        vstd::bits::lemma_u64_pow2_no_overflow(k as nat);
        vstd::bits::lemma_u64_shl_is_mul(1, k);
        vstd::arithmetic::power2::lemma2_to64();
        vstd::arithmetic::power2::lemma2_to64_rest();
        vstd::arithmetic::power2::lemma_pow2_pos(k as nat);
        if k > 29 {
            vstd::arithmetic::power2::lemma_pow2_strictly_increases(29, k as nat);
        }
        if k < 53 {
            vstd::arithmetic::power2::lemma_pow2_strictly_increases(k as nat, 53);
        }
    }
    let d: u64 = 1u64 << k;
    let q: u64 = n / d;
    let left: u64 = n % d;
    proof {
        vstd::arithmetic::div_mod::lemma_mod_bound(n as int, d as int);
        vstd::arithmetic::div_mod::lemma_div_is_ordered_by_denominator(n as int, 1, d as int);
        if k >= 29 {
            vstd::arithmetic::div_mod::lemma_div_is_ordered_by_denominator(
                n as int,
                0x2000_0000,
                d as int,
            );
        }
    }
    if 2 * left > d || (2 * left == d && q % 2 == 1) {
        q + 1
    } else {
        q
    }
}

impl WidePercent {
    /// Whether the number is above zero.
    pub open spec fn spec_positive(self) -> bool {
        0 < self.bits <= 0x7ff0_0000_0000_0000
    }

    /// Whether the number is above zero.
    pub fn positive(self) -> (r: bool)
        ensures
            r == self.spec_positive(),
    {
        0 < self.bits && self.bits <= 0x7ff0_0000_0000_0000
    }

    /// The single nearest to the number.
    pub open spec fn spec_narrow(self) -> Percent {
        let sign = self.bits as nat / 0x8000_0000_0000_0000;
        let exponent = self.bits as nat / 0x10_0000_0000_0000 % 0x800;
        let fraction = self.bits as nat % 0x10_0000_0000_0000;
        Percent { bits: (sign * 0x8000_0000 + narrow_magnitude(exponent, fraction)) as u32 }
    }

    /// The single nearest to the number.
    pub fn narrow(self) -> (r: Percent)
        ensures
            r == self.spec_narrow(),
    {
        let sign: u64 = self.bits / 0x8000_0000_0000_0000;
        let exponent: u64 = self.bits / 0x10_0000_0000_0000 % 0x800;
        let fraction: u64 = self.bits % 0x10_0000_0000_0000;
        let magnitude: u64 = if exponent == 0x7ff {
            if fraction == 0 {
                0x7f80_0000
            } else {
                0x7fc0_0000 + fraction / 0x2000_0000 % 0x40_0000
            }
        } else if exponent > 1150 {
            0x7f80_0000
        } else if exponent >= 897 {
            (exponent - 896) * 0x80_0000 + round_off(fraction, 29)
        } else if exponent >= 873 {
            round_off(0x10_0000_0000_0000 + fraction, 926 - exponent)
        } else {
            0
        };
        Percent { bits: (sign * 0x8000_0000 + magnitude) as u32 }
    }
}

/// Link impairment profile, applied with `tc netem` and, when a rate cap is
/// set, `tc tbf`.
///
/// Start from a named preset or from an unimpaired link with
/// [`new`](Self::new), then refine with the setters. When two setters touch the
/// same field the later call wins.
#[derive(Clone, Copy, Debug)]
pub struct LinkCondition {
    /// Rate cap in kbit/s. `None` leaves the link uncapped.
    pub rate_kbit: Option<u32>,
    /// One-way latency in milliseconds.
    pub latency_ms: u32,
    /// Jitter in milliseconds.
    pub jitter_ms: u32,
    /// Packet loss percentage.
    pub loss_pct: Percent,
    /// Mean loss-burst length in packets. `None` selects independent loss,
    /// `Some(n)` with `n >= 2` loss in bursts of mean length `n`.
    pub loss_burst_pkts: Option<u32>,
    /// Rate-limiter queue depth in milliseconds.
    pub buffer_ms: Option<u32>,
    /// Packet reordering percentage.
    pub reorder_pct: Percent,
    /// Packet duplication percentage.
    pub duplicate_pct: Percent,
    /// Bit-error corruption percentage.
    pub corrupt_pct: Percent,
    /// Human-readable name, set by the presets and kept by the setters. Not
    /// part of equality.
    pub label: Option<&'static str>,
}

/// An unimpaired link.
pub open spec fn unimpaired() -> LinkCondition {
    LinkCondition {
        rate_kbit: None,
        latency_ms: 0,
        jitter_ms: 0,
        loss_pct: Percent { bits: 0 },
        loss_burst_pkts: None,
        buffer_ms: None,
        reorder_pct: Percent { bits: 0 },
        duplicate_pct: Percent { bits: 0 },
        corrupt_pct: Percent { bits: 0 },
        label: None,
    }
}

/// A capped, lossy preset: the loss is given by its bits.
pub open spec fn lossy_preset(
    rate_kbit: u32,
    latency_ms: u32,
    jitter_ms: u32,
    loss_bits: u32,
    burst: u32,
    buffer_ms: u32,
    name: &'static str,
) -> LinkCondition {
    LinkCondition {
        rate_kbit: Some(rate_kbit),
        latency_ms,
        jitter_ms,
        loss_pct: Percent { bits: loss_bits },
        loss_burst_pkts: Some(burst),
        buffer_ms: Some(buffer_ms),
        label: Some(name),
        ..unimpaired()
    }
}

/// The wired LAN preset.
pub open spec fn lan_preset() -> LinkCondition {
    LinkCondition { latency_ms: 1, label: Some("lan"), ..unimpaired() }
}

/// The good WiFi preset: 0.1 % loss.
pub open spec fn wifi_preset() -> LinkCondition {
    lossy_preset(200_000, 4, 2, 0x3dcc_cccd, 5, 15, "wifi")
}

/// The congested WiFi preset: 1.5 % loss.
pub open spec fn wifi_bad_preset() -> LinkCondition {
    lossy_preset(25_000, 25, 15, 0x3fc0_0000, 8, 60, "wifi-bad")
}

/// The 4G preset: 0.3 % loss.
pub open spec fn mobile_4g_preset() -> LinkCondition {
    lossy_preset(40_000, 25, 10, 0x3e99_999a, 6, 100, "mobile-4g")
}

/// The 3G preset: 0.5 % loss.
pub open spec fn mobile_3g_preset() -> LinkCondition {
    lossy_preset(3_000, 80, 25, 0x3f00_0000, 6, 250, "mobile-3g")
}

/// The low-earth-orbit satellite preset: 0.5 % loss.
pub open spec fn satellite_preset() -> LinkCondition {
    lossy_preset(100_000, 22, 10, 0x3f00_0000, 4, 50, "satellite")
}

/// The geostationary satellite preset: 0.3 % loss.
pub open spec fn satellite_geo_preset() -> LinkCondition {
    lossy_preset(25_000, 300, 20, 0x3e99_999a, 4, 600, "satellite-geo")
}

/// The preset of a name, where there is one.
pub open spec fn preset_named(name: Seq<char>) -> Option<LinkCondition> {
    if name == "lan"@ {
        Some(lan_preset())
    } else if name == "wifi"@ {
        Some(wifi_preset())
    } else if name == "wifi-bad"@ {
        Some(wifi_bad_preset())
    } else if name == "mobile-4g"@ || name == "mobile"@ {
        Some(mobile_4g_preset())
    } else if name == "mobile-3g"@ {
        Some(mobile_3g_preset())
    } else if name == "satellite"@ {
        Some(satellite_preset())
    } else if name == "satellite-geo"@ {
        Some(satellite_geo_preset())
    } else {
        None
    }
}

/// A link with the given round-trip time, whose buffer holds the full round
/// trip unless it was set before.
pub open spec fn with_rtt(c: LinkCondition, rtt: u32) -> LinkCondition {
    LinkCondition {
        latency_ms: rtt / 2,
        buffer_ms: if c.buffer_ms is None {
            Some(rtt)
        } else {
            c.buffer_ms
        },
        ..c
    }
}

/// A link with the given rate-limiter queue depth.
pub open spec fn with_buffer(c: LinkCondition, ms: u32) -> LinkCondition {
    LinkCondition { buffer_ms: Some(ms), ..c }
}

impl Default for LinkCondition {
    fn default() -> (r: LinkCondition)
        ensures
            r == unimpaired(),
    {
        LinkCondition::new()
    }
}

impl LinkCondition {
    /// Creates an unimpaired link: uncapped, no latency, no loss.
    pub fn new() -> (r: LinkCondition)
        ensures
            r == unimpaired(),
    {
        LinkCondition {
            rate_kbit: None,
            latency_ms: 0,
            jitter_ms: 0,
            loss_pct: Percent { bits: 0 },
            loss_burst_pkts: None,
            buffer_ms: None,
            reorder_pct: Percent { bits: 0 },
            duplicate_pct: Percent { bits: 0 },
            corrupt_pct: Percent { bits: 0 },
            label: None,
        }
    }

    fn preset(
        rate_kbit: u32,
        latency_ms: u32,
        jitter_ms: u32,
        loss_bits: u32,
        burst: u32,
        buffer_ms: u32,
        name: &'static str,
    ) -> (r: LinkCondition)
        ensures
            r == lossy_preset(
                rate_kbit,
                latency_ms,
                jitter_ms,
                loss_bits,
                burst,
                buffer_ms,
                name,
            ),
    {
        LinkCondition {
            rate_kbit: Some(rate_kbit),
            latency_ms,
            jitter_ms,
            loss_pct: Percent { bits: loss_bits },
            loss_burst_pkts: Some(burst),
            buffer_ms: Some(buffer_ms),
            label: Some(name),
            ..LinkCondition::new()
        }
    }

    /// Creates a wired LAN link: 1 ms one-way delay, uncapped, no loss.
    pub fn lan() -> (r: LinkCondition)
        ensures
            r == lan_preset(),
    {
        LinkCondition { latency_ms: 1, label: Some("lan"), ..LinkCondition::new() }
    }

    /// Creates a good WiFi link: 200 Mbit, 4 ms one-way delay, 2 ms jitter,
    /// 0.1 % bursty loss, 15 ms buffer.
    pub fn wifi() -> (r: LinkCondition)
        ensures
            r == wifi_preset(),
    {
        LinkCondition::preset(200_000, 4, 2, 0x3dcc_cccd, 5, 15, "wifi")
    }

    /// Creates a congested WiFi link: 25 Mbit, 25 ms one-way delay, 15 ms
    /// jitter, 1.5 % bursty loss, 60 ms buffer.
    pub fn wifi_bad() -> (r: LinkCondition)
        ensures
            r == wifi_bad_preset(),
    {
        LinkCondition::preset(25_000, 25, 15, 0x3fc0_0000, 8, 60, "wifi-bad")
    }

    /// Creates a 4G/LTE link: 40 Mbit, 25 ms one-way delay, 10 ms jitter,
    /// 0.3 % bursty loss, 100 ms buffer.
    pub fn mobile_4g() -> (r: LinkCondition)
        ensures
            r == mobile_4g_preset(),
    {
        LinkCondition::preset(40_000, 25, 10, 0x3e99_999a, 6, 100, "mobile-4g")
    }

    /// Creates a 3G link: 3 Mbit, 80 ms one-way delay, 25 ms jitter, 0.5 %
    /// bursty loss, 250 ms buffer.
    pub fn mobile_3g() -> (r: LinkCondition)
        ensures
            r == mobile_3g_preset(),
    {
        LinkCondition::preset(3_000, 80, 25, 0x3f00_0000, 6, 250, "mobile-3g")
    }

    /// Creates a low-earth-orbit satellite link: 100 Mbit, 22 ms one-way
    /// delay, 10 ms jitter, 0.5 % bursty loss, 50 ms buffer.
    pub fn satellite() -> (r: LinkCondition)
        ensures
            r == satellite_preset(),
    {
        LinkCondition::preset(100_000, 22, 10, 0x3f00_0000, 4, 50, "satellite")
    }

    /// Creates a geostationary satellite link: 25 Mbit, 300 ms one-way delay,
    /// 20 ms jitter, 0.3 % bursty loss, 600 ms buffer.
    pub fn satellite_geo() -> (r: LinkCondition)
        ensures
            r == satellite_geo_preset(),
    {
        LinkCondition::preset(25_000, 300, 20, 0x3e99_999a, 4, 600, "satellite-geo")
    }

    /// Returns the preset matching a preset name, or `None` if unknown.
    pub fn from_preset_name(name: &str) -> (r: Option<LinkCondition>)
        ensures
            r == preset_named(name@),
    {
        if str_eq(name, "lan") {
            Some(LinkCondition::lan())
        } else if str_eq(name, "wifi") {
            Some(LinkCondition::wifi())
        } else if str_eq(name, "wifi-bad") {
            Some(LinkCondition::wifi_bad())
        } else if str_eq(name, "mobile-4g") || str_eq(name, "mobile") {
            Some(LinkCondition::mobile_4g())
        } else if str_eq(name, "mobile-3g") {
            Some(LinkCondition::mobile_3g())
        } else if str_eq(name, "satellite") {
            Some(LinkCondition::satellite())
        } else if str_eq(name, "satellite-geo") {
            Some(LinkCondition::satellite_geo())
        } else {
            None
        }
    }

    /// Sets the rate cap in kbit/s.
    pub fn rate_kbit(self, kbit: u32) -> (r: LinkCondition)
        ensures
            r == (LinkCondition { rate_kbit: Some(kbit), ..self }),
    {
        LinkCondition { rate_kbit: Some(kbit), ..self }
    }

    /// Sets the rate cap in Mbit/s.
    pub fn rate_mbit(self, mbit: u32) -> (r: LinkCondition)
        requires
            mbit * 1_000 <= u32::MAX,
        ensures
            r == (LinkCondition { rate_kbit: Some((mbit * 1_000) as u32), ..self }),
    {
        LinkCondition { rate_kbit: Some(mbit * 1_000), ..self }
    }

    /// Removes the rate cap, leaving the link uncapped.
    pub fn uncapped(self) -> (r: LinkCondition)
        ensures
            r == (LinkCondition { rate_kbit: None, ..self }),
    {
        LinkCondition { rate_kbit: None, ..self }
    }

    /// Sets the one-way latency in milliseconds.
    pub fn latency_ms(self, ms: u32) -> (r: LinkCondition)
        ensures
            r == (LinkCondition { latency_ms: ms, ..self }),
    {
        LinkCondition { latency_ms: ms, ..self }
    }

    /// Sets the jitter in milliseconds.
    pub fn jitter_ms(self, ms: u32) -> (r: LinkCondition)
        ensures
            r == (LinkCondition { jitter_ms: ms, ..self }),
    {
        LinkCondition { jitter_ms: ms, ..self }
    }

    /// Sets the latency from a round-trip time, and sizes the buffer to the
    /// full round trip if no buffer has been set yet.
    pub fn rtt_ms(self, rtt: u32) -> (r: LinkCondition)
        ensures
            r == with_rtt(self, rtt),
    {
        let buffer_ms = if self.buffer_ms.is_none() {
            Some(rtt)
        } else {
            self.buffer_ms
        };
        LinkCondition { latency_ms: rtt / 2, buffer_ms, ..self }
    }

    /// Sets a bursty loss rate with a mean burst of 5 packets.
    pub fn bursty_loss(self, pct: Percent) -> (r: LinkCondition)
        ensures
            r == (LinkCondition {
                loss_pct: pct,
                loss_burst_pkts: Some(DEFAULT_LOSS_BURST_PKTS),
                ..self
            }),
    {
        LinkCondition { loss_pct: pct, loss_burst_pkts: Some(DEFAULT_LOSS_BURST_PKTS), ..self }
    }

    /// Sets an independent per-packet loss rate.
    pub fn random_loss(self, pct: Percent) -> (r: LinkCondition)
        ensures
            r == (LinkCondition { loss_pct: pct, loss_burst_pkts: None, ..self }),
    {
        LinkCondition { loss_pct: pct, loss_burst_pkts: None, ..self }
    }

    /// Sets the packet loss percentage, leaving the loss model unchanged.
    pub fn loss_pct(self, pct: Percent) -> (r: LinkCondition)
        ensures
            r == (LinkCondition { loss_pct: pct, ..self }),
    {
        LinkCondition { loss_pct: pct, ..self }
    }

    /// Sets the mean loss-burst length in packets, selecting bursty loss.
    pub fn loss_burst_pkts(self, pkts: u32) -> (r: LinkCondition)
        ensures
            r == (LinkCondition { loss_burst_pkts: Some(pkts), ..self }),
    {
        LinkCondition { loss_burst_pkts: Some(pkts), ..self }
    }

    /// Sets the rate-limiter queue depth in milliseconds.
    pub fn buffer_ms(self, ms: u32) -> (r: LinkCondition)
        ensures
            r == with_buffer(self, ms),
    {
        LinkCondition { buffer_ms: Some(ms), ..self }
    }

    /// Sets the packet reordering percentage.
    pub fn reorder_pct(self, pct: Percent) -> (r: LinkCondition)
        ensures
            r == (LinkCondition { reorder_pct: pct, ..self }),
    {
        LinkCondition { reorder_pct: pct, ..self }
    }

    /// Sets the packet duplication percentage.
    pub fn duplicate_pct(self, pct: Percent) -> (r: LinkCondition)
        ensures
            r == (LinkCondition { duplicate_pct: pct, ..self }),
    {
        LinkCondition { duplicate_pct: pct, ..self }
    }

    /// Sets the bit-error corruption percentage.
    pub fn corrupt_pct(self, pct: Percent) -> (r: LinkCondition)
        ensures
            r == (LinkCondition { corrupt_pct: pct, ..self }),
    {
        LinkCondition { corrupt_pct: pct, ..self }
    }

    /// Sets the human-readable name.
    pub fn label(self, label: &'static str) -> (r: LinkCondition)
        ensures
            r == (LinkCondition { label: Some(label), ..self }),
    {
        LinkCondition { label: Some(label), ..self }
    }

    /// Whether two links have the same numbers; the names do not count.
    pub open spec fn spec_same(self, other: LinkCondition) -> bool {
        &&& self.rate_kbit == other.rate_kbit
        &&& self.latency_ms == other.latency_ms
        &&& self.jitter_ms == other.jitter_ms
        &&& self.loss_pct.spec_same(other.loss_pct)
        &&& self.loss_burst_pkts == other.loss_burst_pkts
        &&& self.buffer_ms == other.buffer_ms
        &&& self.reorder_pct.spec_same(other.reorder_pct)
        &&& self.duplicate_pct.spec_same(other.duplicate_pct)
        &&& self.corrupt_pct.spec_same(other.corrupt_pct)
    }
}

impl PartialEq for LinkCondition {
    fn eq(&self, other: &LinkCondition) -> (r: bool) {
        self.rate_kbit == other.rate_kbit && self.latency_ms == other.latency_ms && self.jitter_ms
            == other.jitter_ms && self.loss_pct.same(other.loss_pct) && self.loss_burst_pkts
            == other.loss_burst_pkts && self.buffer_ms == other.buffer_ms
            && self.reorder_pct.same(other.reorder_pct) && self.duplicate_pct.same(
            other.duplicate_pct,
        ) && self.corrupt_pct.same(other.corrupt_pct)
    }
}

impl vstd::std_specs::cmp::PartialEqSpecImpl for LinkCondition {
    open spec fn obeys_eq_spec() -> bool {
        true
    }

    open spec fn eq_spec(&self, other: &LinkCondition) -> bool {
        self.spec_same(*other)
    }
}

/// The preset names are pairwise different.
proof fn preset_names_differ()
    ensures
        "lan"@.len() == 3,
        "wifi"@.len() == 4,
        "mobile"@.len() == 6,
        "wifi-bad"@.len() == 8,
        "mobile-4g"@.len() == 9 && "mobile-4g"@[7] == '4',
        "mobile-3g"@.len() == 9 && "mobile-3g"@[7] == '3',
        "satellite"@.len() == 9 && "satellite"@[7] == 't',
        "satellite-geo"@.len() == 13,
{
    reveal_strlit("lan");
    reveal_strlit("wifi");
    reveal_strlit("mobile");
    reveal_strlit("wifi-bad");
    reveal_strlit("mobile-4g");
    reveal_strlit("mobile-3g");
    reveal_strlit("satellite");
    reveal_strlit("satellite-geo");
}

/// A preset is found again by its label, which is the name it was found by but
/// for the short name of the 4G preset.
pub proof fn presets_resolve_by_their_labels(name: Seq<char>)
    requires
        preset_named(name) is Some,
    ensures
        preset_named(name)->0.label is Some,
        preset_named(preset_named(name)->0.label->0@) == preset_named(name),
        preset_named(name)->0.label->0@ == name || name == "mobile"@,
{
    preset_names_differ();
}

/// A buffer that is set explicitly wins over one sized by a round-trip time,
/// whichever is set first.
pub proof fn explicit_buffer_wins(c: LinkCondition, rtt: u32, ms: u32)
    ensures
        with_rtt(with_buffer(c, ms), rtt) == with_buffer(with_rtt(c, rtt), ms),
        with_rtt(with_buffer(c, ms), rtt).buffer_ms == Some(ms),
{
}

/// A number given as text, where the empty text stands for 0.
pub fn u32_from_text(s: &str) -> (r: Option<u32>)
    ensures
        s@.len() == 0 ==> r == Some(0u32),
        s@.len() > 0 ==> match r {
            Some(n) => parse_number(s@, 10, u32::MAX as int) == Some(n as int),
            None => parse_number(s@, 10, u32::MAX as int) is None,
        },
{
    if s.is_empty() {
        return Some(0);
    }
    match parse_radix(s, 10, 0xffff_ffff) {
        Some(n) => Some(n as u32),
        None => None,
    }
}

/// A number given as text, where the empty text stands for no number. The
/// outer `None` means that the text is no number.
pub fn opt_u32_from_text(s: &str) -> (r: Option<Option<u32>>)
    ensures
        s@.len() == 0 ==> r == Some(None::<u32>),
        s@.len() > 0 ==> match r {
            Some(n) => n is Some && parse_number(s@, 10, u32::MAX as int) == Some(n->0 as int),
            None => parse_number(s@, 10, u32::MAX as int) is None,
        },
{
    if s.is_empty() {
        return Some(None);
    }
    match u32_from_text(s) {
        Some(n) => Some(Some(n)),
        None => None,
    }
}

/// A number in the table form of a profile.
#[derive(Debug)]
pub enum NumberField {
    /// It is not given.
    Absent,
    /// A number.
    Number(u32),
    /// A text that stands for a number.
    Text(String),
}

impl NumberField {
    /// The number; the empty text and what is not given stand for 0.
    pub open spec fn number(self) -> Option<u32> {
        match self {
            NumberField::Absent => Some(0u32),
            NumberField::Number(n) => Some(n),
            NumberField::Text(s) => if s@.len() == 0 {
                Some(0u32)
            } else {
                match parse_number(s@, 10, u32::MAX as int) {
                    Some(n) => Some(n as u32),
                    None => None,
                }
            },
        }
    }

    /// Whether there is a number at all.
    pub open spec fn given(self) -> bool {
        match self {
            NumberField::Absent => false,
            NumberField::Number(_) => true,
            NumberField::Text(s) => s@.len() > 0,
        }
    }

    fn read(&self) -> (r: Option<u32>)
        ensures
            r == self.number(),
    {
        match self {
            NumberField::Absent => Some(0),
            NumberField::Number(n) => Some(*n),
            NumberField::Text(s) => u32_from_text(s.as_str()),
        }
    }

    fn read_opt(&self) -> (r: Option<Option<u32>>)
        ensures
            r == match self.number() {
                Some(n) => Some(
                    if self.given() {
                        Some(n)
                    } else {
                        None
                    },
                ),
                None => None,
            },
    {
        match self {
            NumberField::Absent => Some(None),
            NumberField::Number(n) => Some(Some(*n)),
            NumberField::Text(s) => opt_u32_from_text(s.as_str()),
        }
    }
}

/// The table form of a profile: its fields but for the label.
#[derive(Debug)]
pub struct ConditionFields {
    /// Rate cap in kbit/s.
    pub rate_kbit: NumberField,
    /// One-way latency in milliseconds.
    pub latency_ms: NumberField,
    /// Jitter in milliseconds.
    pub jitter_ms: NumberField,
    /// Packet loss percentage.
    pub loss_pct: Percent,
    /// Mean loss-burst length in packets.
    pub loss_burst_pkts: NumberField,
    /// Rate-limiter queue depth in milliseconds.
    pub buffer_ms: NumberField,
    /// Packet reordering percentage.
    pub reorder_pct: Percent,
    /// Packet duplication percentage.
    pub duplicate_pct: Percent,
    /// Bit-error corruption percentage.
    pub corrupt_pct: Percent,
}

/// A profile as configuration files give it.
#[derive(Debug)]
pub enum ConditionEntry {
    /// The name of a preset.
    Preset(String),
    /// A table of fields.
    Fields(ConditionFields),
}

/// What is wrong with a profile in a configuration file.
#[derive(Clone, Copy, Debug, PartialEq, Eq, Structural)]
pub enum ConditionError {
    /// There is no preset of that name.
    UnknownPreset,
    /// A text does not stand for a number.
    NotANumber,
}

/// Whether each text of a table stands for a number.
pub open spec fn numbers_read(f: ConditionFields) -> bool {
    &&& f.rate_kbit.number() is Some
    &&& f.latency_ms.number() is Some
    &&& f.jitter_ms.number() is Some
    &&& f.loss_burst_pkts.number() is Some
    &&& f.buffer_ms.number() is Some
}

/// The number of a field that may be left out.
pub open spec fn optional(f: NumberField) -> Option<u32> {
    if f.given() {
        f.number()
    } else {
        None
    }
}

/// The profile that a configuration file gives. What a table leaves out stays
/// unset.
pub open spec fn read_condition(entry: ConditionEntry) -> Result<LinkCondition, ConditionError> {
    match entry {
        ConditionEntry::Preset(name) => match preset_named(name@) {
            Some(c) => Ok(c),
            None => Err(ConditionError::UnknownPreset),
        },
        ConditionEntry::Fields(f) => if numbers_read(f) {
            Ok(
                LinkCondition {
                    rate_kbit: optional(f.rate_kbit),
                    latency_ms: f.latency_ms.number()->0,
                    jitter_ms: f.jitter_ms.number()->0,
                    loss_pct: f.loss_pct,
                    loss_burst_pkts: optional(f.loss_burst_pkts),
                    buffer_ms: optional(f.buffer_ms),
                    reorder_pct: f.reorder_pct,
                    duplicate_pct: f.duplicate_pct,
                    corrupt_pct: f.corrupt_pct,
                    label: None,
                },
            )
        } else {
            Err(ConditionError::NotANumber)
        },
    }
}

impl LinkCondition {
    /// Reads a profile from a configuration file.
    pub fn from_entry(entry: &ConditionEntry) -> (r: Result<LinkCondition, ConditionError>)
        ensures
            r == read_condition(*entry),
    {
        match entry {
            ConditionEntry::Preset(name) => match LinkCondition::from_preset_name(name.as_str()) {
                Some(c) => Ok(c),
                None => Err(ConditionError::UnknownPreset),
            },
            ConditionEntry::Fields(f) => {
                match (
                    f.rate_kbit.read_opt(),
                    f.latency_ms.read(),
                    f.jitter_ms.read(),
                    f.loss_burst_pkts.read_opt(),
                    f.buffer_ms.read_opt(),
                ) {
                    (
                        Some(rate_kbit),
                        Some(latency_ms),
                        Some(jitter_ms),
                        Some(loss_burst_pkts),
                        Some(buffer_ms),
                    ) => Ok(
                        LinkCondition {
                            rate_kbit,
                            latency_ms,
                            jitter_ms,
                            loss_pct: f.loss_pct,
                            loss_burst_pkts,
                            buffer_ms,
                            reorder_pct: f.reorder_pct,
                            duplicate_pct: f.duplicate_pct,
                            corrupt_pct: f.corrupt_pct,
                            label: None,
                        },
                    ),
                    _ => Err(ConditionError::NotANumber),
                }
            },
        }
    }
}

/// The message for a name that is no preset's.
pub fn unknown_preset_message(name: &str) -> (r: String)
    ensures
        r@ == "unknown link condition preset '"@ + name@ + "'"@,
{
    let mut s = "unknown link condition preset '".to_owned();
    s.append(name);
    s.append("'");
    s
}

/// The percentages of a profile as `tc` takes them.
#[derive(Debug)]
pub struct PercentTexts {
    /// Independent loss.
    pub loss: String,
    /// Bursty loss: the chance to enter a burst.
    pub burst_enter: String,
    /// Bursty loss: the chance to leave a burst.
    pub burst_leave: String,
    /// Reordering.
    pub reorder: String,
    /// Duplication.
    pub duplicate: String,
    /// Corruption.
    pub corrupt: String,
}

/// `n` milliseconds as `tc` takes them.
pub open spec fn ms_text(n: u32) -> Seq<char> {
    dec(n as nat) + "ms"@
}

fn ms_string(n: u32) -> (r: String)
    ensures
        r@ == ms_text(n),
{
    let mut s = crate::text::dec_string(n as u64);
    s.append("ms");
    s
}

/// The arguments that set the delay.
pub open spec fn delay_args(c: LinkCondition) -> Seq<Seq<char>> {
    if c.latency_ms > 0 || c.jitter_ms > 0 {
        if c.jitter_ms > 0 {
            seq!["delay"@, ms_text(c.latency_ms), ms_text(c.jitter_ms)]
        } else {
            seq!["delay"@, ms_text(c.latency_ms)]
        }
    } else {
        Seq::empty()
    }
}

/// The arguments that set the loss.
pub open spec fn loss_args(c: LinkCondition, t: PercentTexts) -> Seq<Seq<char>> {
    if !c.loss_pct.spec_positive() {
        Seq::empty()
    } else if c.loss_burst_pkts is Some && c.loss_burst_pkts->0 >= 2 {
        seq!["loss"@, "gemodel"@, t.burst_enter@, t.burst_leave@]
    } else {
        seq!["loss"@, t.loss@]
    }
}

/// A percentage that is only passed on where it is above zero.
pub open spec fn percent_args(p: Percent, name: Seq<char>, text: Seq<char>) -> Seq<Seq<char>> {
    if p.spec_positive() {
        seq![name, text]
    } else {
        Seq::empty()
    }
}

/// The arguments of the `tc` command that adds the impairment.
pub open spec fn netem_command(ifname: Seq<char>, c: LinkCondition, t: PercentTexts) -> Seq<
    Seq<char>,
> {
    seq!["qdisc"@, "add"@, "dev"@, ifname, "root"@, "handle"@, "1:"@, "netem"@] + delay_args(c)
        + loss_args(c, t) + percent_args(c.reorder_pct, "reorder"@, t.reorder@) + percent_args(
        c.duplicate_pct,
        "duplicate"@,
        t.duplicate@,
    ) + percent_args(c.corrupt_pct, "corrupt"@, t.corrupt@)
}

fn push_arg(args: &mut Vec<String>, s: &str)
    ensures
        views(final(args)@) == views(old(args)@).push(s@),
        final(args)@.len() == old(args)@.len() + 1,
{
    args.push(s.to_owned());
    assert(views(args@) =~= views(old(args)@).push(s@));
}

fn push_percent(args: &mut Vec<String>, p: Percent, name: &str, text: &str)
    ensures
        views(final(args)@) == views(old(args)@) + percent_args(p, name@, text@),
{
    if p.positive() {
        push_arg(args, name);
        push_arg(args, text);
    }
    assert(views(args@) =~= views(old(args)@) + percent_args(p, name@, text@));
}

/// The arguments of the `tc` command that adds the impairment to `ifname`.
pub fn netem_args(ifname: &str, c: LinkCondition, t: &PercentTexts) -> (r: Vec<String>)
    ensures
        views(r@) == netem_command(ifname@, c, *t),
{
    let mut args: Vec<String> = Vec::new();
    push_arg(&mut args, "qdisc");
    push_arg(&mut args, "add");
    push_arg(&mut args, "dev");
    push_arg(&mut args, ifname);
    push_arg(&mut args, "root");
    push_arg(&mut args, "handle");
    push_arg(&mut args, "1:");
    push_arg(&mut args, "netem");
    let ghost head = seq!["qdisc"@, "add"@, "dev"@, ifname@, "root"@, "handle"@, "1:"@, "netem"@];
    assert(views(args@) =~= head);
    if c.latency_ms > 0 || c.jitter_ms > 0 {
        push_arg(&mut args, "delay");
        push_arg(&mut args, ms_string(c.latency_ms).as_str());
        if c.jitter_ms > 0 {
            push_arg(&mut args, ms_string(c.jitter_ms).as_str());
        }
    }
    assert(views(args@) =~= head + delay_args(c));
    if c.loss_pct.positive() {
        push_arg(&mut args, "loss");
        let bursty = match c.loss_burst_pkts {
            Some(burst) => burst >= 2,
            None => false,
        };
        if bursty {
            push_arg(&mut args, "gemodel");
            push_arg(&mut args, t.burst_enter.as_str());
            push_arg(&mut args, t.burst_leave.as_str());
        } else {
            push_arg(&mut args, t.loss.as_str());
        }
    }
    assert(views(args@) =~= head + delay_args(c) + loss_args(c, *t));
    push_percent(&mut args, c.reorder_pct, "reorder", t.reorder.as_str());
    push_percent(&mut args, c.duplicate_pct, "duplicate", t.duplicate.as_str());
    push_percent(&mut args, c.corrupt_pct, "corrupt", t.corrupt.as_str());
    args
}

/// The depth of the rate limiter's queue: at least 1 ms.
pub open spec fn tbf_latency(buffer_ms: Option<u32>) -> u32 {
    match buffer_ms {
        Some(n) => if n >= 1 {
            n
        } else {
            1
        },
        None => DEFAULT_BUFFER_MS,
    }
}

/// The arguments of the `tc` command that adds the rate limiter.
pub open spec fn tbf_command(ifname: Seq<char>, rate_kbit: u32, buffer_ms: Option<u32>) -> Seq<
    Seq<char>,
> {
    seq![
        "qdisc"@,
        "add"@,
        "dev"@,
        ifname,
        "parent"@,
        "1:1"@,
        "handle"@,
        "10:"@,
        "tbf"@,
        "rate"@,
        dec(rate_kbit as nat) + "kbit"@,
        "burst"@,
        "32kbit"@,
        "latency"@,
        ms_text(tbf_latency(buffer_ms)),
    ]
}

/// The arguments of the `tc` command that adds the rate limiter to `ifname`.
pub fn tbf_args(ifname: &str, rate_kbit: u32, buffer_ms: Option<u32>) -> (r: Vec<String>)
    ensures
        views(r@) == tbf_command(ifname@, rate_kbit, buffer_ms),
{
    let latency: u32 = match buffer_ms {
        Some(n) => if n >= 1 {
            n
        } else {
            1
        },
        None => DEFAULT_BUFFER_MS,
    };
    let mut rate = crate::text::dec_string(rate_kbit as u64);
    rate.append("kbit");
    let mut args: Vec<String> = Vec::new();
    push_arg(&mut args, "qdisc");
    push_arg(&mut args, "add");
    push_arg(&mut args, "dev");
    push_arg(&mut args, ifname);
    push_arg(&mut args, "parent");
    push_arg(&mut args, "1:1");
    push_arg(&mut args, "handle");
    push_arg(&mut args, "10:");
    push_arg(&mut args, "tbf");
    push_arg(&mut args, "rate");
    push_arg(&mut args, rate.as_str());
    push_arg(&mut args, "burst");
    push_arg(&mut args, "32kbit");
    push_arg(&mut args, "latency");
    push_arg(&mut args, ms_string(latency).as_str());
    assert(views(args@) =~= tbf_command(ifname@, rate_kbit, buffer_ms));
    args
}

/// A rate cap of zero, which the rate limiter cannot express.
#[derive(Clone, Copy, Debug, PartialEq, Eq, Structural)]
pub struct ZeroRate {}

/// The `tc` commands that put a profile in place, in order: the impairment,
/// then the rate limiter where there is a cap.
///
/// A cap of zero is found out after the first command; the error carries that
/// command.
pub fn impair_commands(ifname: &str, c: LinkCondition, t: &PercentTexts) -> (r: (
    Vec<String>,
    Result<Option<Vec<String>>, ZeroRate>,
))
    ensures
        views(r.0@) == netem_command(ifname@, c, *t),
        c.rate_kbit is None ==> r.1 is Ok && r.1->Ok_0 is None,
        c.rate_kbit == Some(0u32) ==> r.1 is Err,
        c.rate_kbit is Some && c.rate_kbit->0 > 0 ==> {
            &&& r.1 is Ok
            &&& r.1->Ok_0 is Some
            &&& views(r.1->Ok_0->0@) == tbf_command(ifname@, c.rate_kbit->0, c.buffer_ms)
        },
{
    let first = netem_args(ifname, c, t);
    match c.rate_kbit {
        None => (first, Ok(None)),
        Some(rate) => if rate == 0 {
            (first, Err(ZeroRate {  }))
        } else {
            let second = tbf_args(ifname, rate, c.buffer_ms);
            (first, Ok(Some(second)))
        },
    }
}

/// Whether a command that could not be spawned is tried again: only where the
/// system was short of resources for the moment, and three times at most.
pub fn retries(os_error: Option<i32>, attempt: u32) -> (r: bool)
    ensures
        r == (os_error == Some(11i32) && attempt < SPAWN_RETRIES),
{
    match os_error {
        Some(e) => e == 11 && attempt < SPAWN_RETRIES,
        None => false,
    }
}

/// The wait before an attempt, in milliseconds.
pub fn retry_delay_ms(attempt: u32) -> (r: u64)
    ensures
        r == 50 * attempt,
{
    50 * attempt as u64
}

} // verus!
