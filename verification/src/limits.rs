//! Link conditions by name, and the plain limits that each of them stands for.
use crate::qdisc;
use crate::qdisc::Percent;
use crate::text::str_eq;
use vstd::prelude::*;

verus! {

/// Limits of a link. A rate of 0 is no cap.
#[derive(Clone, Copy, Debug)]
pub struct LinkLimits {
    /// Rate cap in kilobits per second, 0 for none.
    pub rate_kbit: u32,
    /// Delay in one direction.
    pub latency_ms: u32,
    /// Variation of the delay.
    pub jitter_ms: u32,
    /// Share of packets lost.
    pub loss_pct: Percent,
    /// Share of packets out of order.
    pub reorder_pct: Percent,
    /// Share of packets sent twice.
    pub duplicate_pct: Percent,
    /// Share of packets damaged.
    pub corrupt_pct: Percent,
}

/// Limits with the given delay, loss and rate, and nothing else.
pub open spec fn limits_of(latency_ms: u32, jitter_ms: u32, loss: u32, rate_kbit: u32) -> LinkLimits {
    LinkLimits {
        rate_kbit,
        latency_ms,
        jitter_ms,
        loss_pct: Percent { bits: loss },
        reorder_pct: Percent { bits: 0 },
        duplicate_pct: Percent { bits: 0 },
        corrupt_pct: Percent { bits: 0 },
    }
}

impl Default for LinkLimits {
    fn default() -> (r: LinkLimits)
        ensures
            r == limits_of(0, 0, 0, 0),
    {
        LinkLimits::plain(0, 0, 0, 0)
    }
}

impl LinkLimits {
    fn plain(latency_ms: u32, jitter_ms: u32, loss: u32, rate_kbit: u32) -> (r: LinkLimits)
        ensures
            r == limits_of(latency_ms, jitter_ms, loss, rate_kbit),
    {
        LinkLimits {
            rate_kbit,
            latency_ms,
            jitter_ms,
            loss_pct: Percent { bits: loss },
            reorder_pct: Percent { bits: 0 },
            duplicate_pct: Percent { bits: 0 },
            corrupt_pct: Percent { bits: 0 },
        }
    }

    /// The profile with these limits: losses come one by one, and the buffer of
    /// a rate cap is the default one.
    pub open spec fn profile(self) -> qdisc::LinkCondition {
        qdisc::LinkCondition {
            rate_kbit: if self.rate_kbit > 0 {
                Some(self.rate_kbit)
            } else {
                None
            },
            latency_ms: self.latency_ms,
            jitter_ms: self.jitter_ms,
            loss_pct: self.loss_pct,
            loss_burst_pkts: None,
            buffer_ms: None,
            reorder_pct: self.reorder_pct,
            duplicate_pct: self.duplicate_pct,
            corrupt_pct: self.corrupt_pct,
            label: None,
        }
    }

    /// The profile with these limits.
    pub fn condition(self) -> (r: qdisc::LinkCondition)
        ensures
            r == self.profile(),
    {
        qdisc::LinkCondition {
            rate_kbit: if self.rate_kbit > 0 {
                Some(self.rate_kbit)
            } else {
                None
            },
            latency_ms: self.latency_ms,
            jitter_ms: self.jitter_ms,
            loss_pct: self.loss_pct,
            loss_burst_pkts: None,
            buffer_ms: None,
            reorder_pct: self.reorder_pct,
            duplicate_pct: self.duplicate_pct,
            corrupt_pct: self.corrupt_pct,
            label: None,
        }
    }
}

/// A link condition: a named one, or limits of one's own.
#[derive(Clone, Copy, Debug)]
pub enum LinkCondition {
    /// Wired LAN, without impairment.
    Lan,
    /// Good WiFi: 5 ms delay, 2 ms jitter, 0.1 % loss.
    Wifi,
    /// Congested WiFi: 40 ms delay, 15 ms jitter, 2 % loss, 20 Mbit.
    WifiBad,
    /// 4G with good signal: 25 ms delay, 8 ms jitter, 0.5 % loss.
    Mobile4G,
    /// 3G or degraded 4G: 100 ms delay, 30 ms jitter, 2 % loss, 2 Mbit.
    Mobile3G,
    /// Satellite in low orbit: 40 ms delay, 7 ms jitter, 1 % loss.
    Satellite,
    /// Geostationary satellite: 300 ms delay, 20 ms jitter, 0.5 % loss, 25 Mbit.
    SatelliteGeo,
    /// Limits of one's own.
    Manual(LinkLimits),
}

/// The condition of that name.
pub open spec fn condition_named(name: Seq<char>) -> Option<LinkCondition> {
    if name == "lan"@ {
        Some(LinkCondition::Lan)
    } else if name == "wifi"@ {
        Some(LinkCondition::Wifi)
    } else if name == "wifi-bad"@ {
        Some(LinkCondition::WifiBad)
    } else if name == "mobile-4g"@ || name == "mobile"@ {
        Some(LinkCondition::Mobile4G)
    } else if name == "mobile-3g"@ {
        Some(LinkCondition::Mobile3G)
    } else if name == "satellite"@ {
        Some(LinkCondition::Satellite)
    } else if name == "satellite-geo"@ {
        Some(LinkCondition::SatelliteGeo)
    } else {
        None
    }
}

impl LinkCondition {
    /// The limits that the condition stands for. A loss of 0.1 % has the bits
    /// `3dcccccd`, of 0.5 % `3f000000`, of 1 % `3f800000` and of 2 % `40000000`.
    pub open spec fn limits(self) -> LinkLimits {
        match self {
            LinkCondition::Lan => limits_of(0, 0, 0, 0),
            LinkCondition::Wifi => limits_of(5, 2, 0x3dcc_cccd, 0),
            LinkCondition::WifiBad => limits_of(40, 15, 0x4000_0000, 20_000),
            LinkCondition::Mobile4G => limits_of(25, 8, 0x3f00_0000, 0),
            LinkCondition::Mobile3G => limits_of(100, 30, 0x4000_0000, 2_000),
            LinkCondition::Satellite => limits_of(40, 7, 0x3f80_0000, 0),
            LinkCondition::SatelliteGeo => limits_of(300, 20, 0x3f00_0000, 25_000),
            LinkCondition::Manual(limits) => limits,
        }
    }

    /// The limits that the condition stands for.
    pub fn to_limits(self) -> (r: LinkLimits)
        ensures
            r == self.limits(),
    {
        match self {
            LinkCondition::Lan => LinkLimits::plain(0, 0, 0, 0),
            LinkCondition::Wifi => LinkLimits::plain(5, 2, 0x3dcc_cccd, 0),
            LinkCondition::WifiBad => LinkLimits::plain(40, 15, 0x4000_0000, 20_000),
            LinkCondition::Mobile4G => LinkLimits::plain(25, 8, 0x3f00_0000, 0),
            LinkCondition::Mobile3G => LinkLimits::plain(100, 30, 0x4000_0000, 2_000),
            LinkCondition::Satellite => LinkLimits::plain(40, 7, 0x3f80_0000, 0),
            LinkCondition::SatelliteGeo => LinkLimits::plain(300, 20, 0x3f00_0000, 25_000),
            LinkCondition::Manual(limits) => limits,
        }
    }

    /// The condition of that name, or `None` where there is none.
    pub fn from_preset_name(name: &str) -> (r: Option<LinkCondition>)
        ensures
            r == condition_named(name@),
    {
        if str_eq(name, "lan") {
            Some(LinkCondition::Lan)
        } else if str_eq(name, "wifi") {
            Some(LinkCondition::Wifi)
        } else if str_eq(name, "wifi-bad") {
            Some(LinkCondition::WifiBad)
        } else if str_eq(name, "mobile-4g") || str_eq(name, "mobile") {
            Some(LinkCondition::Mobile4G)
        } else if str_eq(name, "mobile-3g") {
            Some(LinkCondition::Mobile3G)
        } else if str_eq(name, "satellite") {
            Some(LinkCondition::Satellite)
        } else if str_eq(name, "satellite-geo") {
            Some(LinkCondition::SatelliteGeo)
        } else {
            None
        }
    }
}

/// A name stands for a condition here where it stands for a preset, and the
/// other way round.
pub proof fn names_are_those_of_the_presets(name: Seq<char>)
    ensures
        condition_named(name) is Some == qdisc::preset_named(name) is Some,
{
}

} // verus!
