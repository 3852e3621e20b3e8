use patchbay::limits;
use patchbay::limits::LinkLimits;
use patchbay::qdisc::{
    impair_commands, netem_args, opt_u32_from_text, retries, retry_delay_ms, tbf_args,
    u32_from_text, unknown_preset_message, ConditionEntry, ConditionError, ConditionFields,
    LinkCondition, NumberField, Percent, PercentTexts, DEFAULT_LOSS_BURST_PKTS, SPAWN_RETRIES,
};

fn pct(x: f32) -> Percent {
    Percent { bits: x.to_bits() }
}

fn texts(loss: &str) -> PercentTexts {
    PercentTexts {
        loss: loss.into(),
        burst_enter: "0.3%".into(),
        burst_leave: "20%".into(),
        reorder: "0%".into(),
        duplicate: "0%".into(),
        corrupt: "0%".into(),
    }
}

fn number(t: &toml::Table, key: &str) -> NumberField {
    match t.get(key) {
        None => NumberField::Absent,
        Some(toml::Value::Integer(n)) => NumberField::Number(*n as u32),
        Some(toml::Value::String(s)) => NumberField::Text(s.clone()),
        other => panic!("unexpected value: {other:?}"),
    }
}

fn percent(t: &toml::Table, key: &str) -> Percent {
    match t.get(key) {
        None => pct(0.0),
        Some(v) => pct(v.as_float().unwrap() as f32),
    }
}

fn entry(toml_str: &str) -> ConditionEntry {
    let table = toml_str.parse::<toml::Table>().expect("valid toml");
    match &table["condition"] {
        toml::Value::String(name) => ConditionEntry::Preset(name.clone()),
        toml::Value::Table(t) => ConditionEntry::Fields(ConditionFields {
            rate_kbit: number(t, "rate_kbit"),
            latency_ms: number(t, "latency_ms"),
            jitter_ms: number(t, "jitter_ms"),
            loss_pct: percent(t, "loss_pct"),
            loss_burst_pkts: number(t, "loss_burst_pkts"),
            buffer_ms: number(t, "buffer_ms"),
            reorder_pct: percent(t, "reorder_pct"),
            duplicate_pct: percent(t, "duplicate_pct"),
            corrupt_pct: percent(t, "corrupt_pct"),
        }),
        other => panic!("unexpected value: {other:?}"),
    }
}

fn parse(toml_str: &str) -> LinkCondition {
    LinkCondition::from_entry(&entry(toml_str)).expect("valid link condition")
}

#[test]
fn label_is_excluded_from_equality() {
    // A preset and a hand-built condition with the same numbers compare
    // equal, so tests can assert against `LinkCondition::wifi()`.
    let relabelled = LinkCondition::wifi().label("something else");
    assert_eq!(LinkCondition::wifi(), relabelled);
    assert_eq!(relabelled.label, Some("something else"));
}

#[test]
fn setters_preserve_the_preset_label() {
    let tweaked = LinkCondition::mobile_4g().bursty_loss(pct(5.0));
    assert_eq!(tweaked.label, Some("mobile-4g"));
    assert_eq!(f32::from_bits(tweaked.loss_pct.bits), 5.0);
}

#[test]
fn rtt_ms_halves_latency_and_sizes_the_buffer() {
    let cond = LinkCondition::new().rate_mbit(40).rtt_ms(50);
    assert_eq!(cond.latency_ms, 25);
    assert_eq!(cond.buffer_ms, Some(50));
    assert_eq!(cond.rate_kbit, Some(40_000));
}

#[test]
fn explicit_buffer_wins_over_rtt_in_either_order() {
    let before = LinkCondition::new().buffer_ms(100).rtt_ms(50);
    let after = LinkCondition::new().rtt_ms(50).buffer_ms(100);
    assert_eq!(before.buffer_ms, Some(100));
    assert_eq!(after.buffer_ms, Some(100));
    assert_eq!(before, after);
}

#[test]
fn rtt_ms_keeps_a_preset_buffer() {
    // Presets carry a buffer, so `rtt_ms` only moves the latency.
    let cond = LinkCondition::wifi().rtt_ms(80);
    assert_eq!(cond.latency_ms, 40);
    assert_eq!(cond.buffer_ms, LinkCondition::wifi().buffer_ms);
}

#[test]
fn loss_helpers_select_the_loss_model() {
    assert_eq!(
        LinkCondition::new().bursty_loss(pct(1.5)).loss_burst_pkts,
        Some(DEFAULT_LOSS_BURST_PKTS)
    );
    assert_eq!(LinkCondition::new().random_loss(pct(1.5)).loss_burst_pkts, None);
    // Later call wins: each helper fully specifies the pair.
    assert_eq!(
        LinkCondition::new().bursty_loss(pct(1.5)).random_loss(pct(2.0)),
        LinkCondition::new().random_loss(pct(2.0))
    );
}

#[test]
fn uncapped_clears_a_preset_rate() {
    assert_eq!(LinkCondition::wifi().uncapped().rate_kbit, None);
}

#[test]
fn presets_round_trip_through_their_names() {
    let presets = [
        LinkCondition::lan(),
        LinkCondition::wifi(),
        LinkCondition::wifi_bad(),
        LinkCondition::mobile_4g(),
        LinkCondition::mobile_3g(),
        LinkCondition::satellite(),
        LinkCondition::satellite_geo(),
    ];
    for preset in presets {
        let name = preset.label.expect("preset carries a label");
        let parsed = LinkCondition::from_preset_name(name).expect("name resolves");
        assert_eq!(parsed, preset, "preset '{name}' did not round-trip");
        assert_eq!(parsed.label, Some(name));
    }
}

#[test]
fn deserializes_a_preset_name() {
    assert_eq!(parse(r#"condition = "wifi""#), LinkCondition::wifi());
    // The legacy alias for the 4G preset still resolves.
    assert_eq!(parse(r#"condition = "mobile""#), LinkCondition::mobile_4g());
}

#[test]
fn rejects_an_unknown_preset_name() {
    let err = LinkCondition::from_entry(&entry(r#"condition = "dial-up""#)).unwrap_err();
    assert_eq!(err, ConditionError::UnknownPreset);
    let err = unknown_preset_message("dial-up");
    assert!(
        err.to_string().contains("dial-up"),
        "error should name the bad preset, got: {err}"
    );
}

#[test]
fn deserializes_a_field_table() {
    let cond = parse(r#"condition = { latency_ms = 200, loss_pct = 5.0, rate_kbit = 500 }"#);
    assert_eq!(cond.latency_ms, 200);
    assert_eq!(f32::from_bits(cond.loss_pct.bits), 5.0);
    assert_eq!(cond.rate_kbit, Some(500));
    // Unset optional knobs stay unset rather than becoming zero.
    assert_eq!(cond.buffer_ms, None);
    assert_eq!(cond.loss_burst_pkts, None);
    assert_eq!(cond.label, None);
}

#[test]
fn deserializes_numbers_given_as_strings() {
    // Sim files substitute matrix variables as strings.
    let cond = parse(r#"condition = { latency_ms = "200", rate_kbit = "500" }"#);
    assert_eq!(cond.latency_ms, 200);
    assert_eq!(cond.rate_kbit, Some(500));
}

#[test]
fn netem_args_use_gemodel_only_for_bursty_loss() {
    // Guards the Gilbert-Elliott branch selection without invoking `tc`.
    let bursty = LinkCondition::new().bursty_loss(pct(1.5));
    let random = LinkCondition::new().random_loss(pct(1.5));
    assert!(matches!(bursty.loss_burst_pkts, Some(n) if n >= 2));
    assert!(random.loss_burst_pkts.is_none());
    assert!(netem_args("eth0", bursty, &texts("1.5%")).contains(&"gemodel".to_string()));
    assert!(!netem_args("eth0", random, &texts("1.5%")).contains(&"gemodel".to_string()));
}

#[test]
fn texts_that_are_no_numbers_are_refused() {
    let err = LinkCondition::from_entry(&entry(r#"condition = { latency_ms = "fast" }"#));
    assert_eq!(err.unwrap_err(), ConditionError::NotANumber);
    assert_eq!(u32_from_text(""), Some(0));
    assert_eq!(opt_u32_from_text(""), Some(None));
    assert_eq!(u32_from_text("4294967296"), None);
    assert_eq!(opt_u32_from_text("17"), Some(Some(17)));
}

#[test]
fn presets_have_their_percentages() {
    let loss = |c: LinkCondition| f32::from_bits(c.loss_pct.bits);
    assert_eq!(loss(LinkCondition::wifi()), 0.1);
    assert_eq!(loss(LinkCondition::wifi_bad()), 1.5);
    assert_eq!(loss(LinkCondition::mobile_4g()), 0.3);
    assert_eq!(loss(LinkCondition::mobile_3g()), 0.5);
    assert_eq!(loss(LinkCondition::satellite()), 0.5);
    assert_eq!(loss(LinkCondition::satellite_geo()), 0.3);
}

#[test]
fn delay_and_rate_become_arguments() {
    let cond = LinkCondition::new().latency_ms(20).jitter_ms(5);
    let args = netem_args("eth0", cond, &texts("0%"));
    let at = args.iter().position(|a| a == "delay").unwrap();
    assert_eq!(args[at + 1], "20ms");
    assert_eq!(args[at + 2], "5ms");
    let tbf = tbf_args("eth0", 8_000, Some(50));
    assert!(tbf.contains(&"8000kbit".to_string()));
    assert!(tbf.contains(&"50ms".to_string()));
}

#[test]
fn zero_rate_is_refused_after_netem() {
    let (first, second) = impair_commands("eth0", LinkCondition::new().rate_kbit(0), &texts("0%"));
    assert!(first.contains(&"netem".to_string()));
    assert!(second.is_err());
    let (_, second) = impair_commands("eth0", LinkCondition::new(), &texts("0%"));
    assert!(matches!(second, Ok(None)));
}

#[test]
fn spawning_is_tried_again_when_memory_is_short() {
    assert!(retries(Some(11), 0));
    assert!(!retries(Some(2), 0));
    assert!(!retries(None, 0));
    assert!(!retries(Some(11), SPAWN_RETRIES));
    assert!(retry_delay_ms(1) > retry_delay_ms(0));
}

#[test]
fn named_conditions_stand_for_limits() {
    let bad = limits::LinkCondition::from_preset_name("wifi-bad").unwrap().to_limits();
    assert_eq!((bad.latency_ms, bad.jitter_ms, bad.rate_kbit), (40, 15, 20_000));
    assert_eq!(f32::from_bits(bad.loss_pct.bits), 2.0);
    let wifi = limits::LinkCondition::Wifi.to_limits();
    assert_eq!(f32::from_bits(wifi.loss_pct.bits), 0.1);
    let mobile = limits::LinkCondition::from_preset_name("mobile").unwrap();
    assert!(matches!(mobile, limits::LinkCondition::Mobile4G));
    assert_eq!(f32::from_bits(mobile.to_limits().loss_pct.bits), 0.5);
    let geo = limits::LinkCondition::SatelliteGeo.to_limits();
    assert_eq!((geo.latency_ms, geo.jitter_ms, geo.rate_kbit), (300, 20, 25_000));
    assert_eq!(f32::from_bits(limits::LinkCondition::Satellite.to_limits().loss_pct.bits), 1.0);
    assert_eq!(limits::LinkCondition::Mobile3G.to_limits().latency_ms, 100);
    assert_eq!(limits::LinkCondition::Lan.to_limits().latency_ms, 0);
    assert!(limits::LinkCondition::from_preset_name("dialup").is_none());
}

#[test]
fn limits_become_a_condition() {
    let own = LinkLimits { rate_kbit: 1000, latency_ms: 100, ..LinkLimits::default() };
    let cond = limits::LinkCondition::Manual(own).to_limits().condition();
    assert_eq!((cond.rate_kbit, cond.latency_ms, cond.label), (Some(1000), 100, None));
    assert_eq!(LinkLimits::default().condition().rate_kbit, None);
}
