use patchbay::addr::{IpAddr, Ipv4Addr, Ipv4Net, Ipv6Addr, Ipv6Net, parse_ipv4};
use patchbay::consts::{node_file, KIND_DEVICE};
use patchbay::host::{
    after_cleanup, missing_caps, missing_caps_message, refuses_real_root, thread_name, CapsError,
};
use patchbay::lab::{
    add_device, auto_iface_name, check_router_name, default_config, env_vars, node_path,
    normalize_env_name, probe_port, run_dir_name, LabBuilder, RegionLink, TestStatus,
};
use patchbay::nat_config::{IpSupport, NatV6Mode};
use patchbay::overlay::{host_line, hosts_dir_name, hosts_file_name, resolv_conf, INITIAL_HOSTS};
use patchbay::profile::{Ipv6DadMode, Ipv6Profile, Ipv6ProvisioningMode, OutDir};
use patchbay::qdisc::WidePercent;
use patchbay::text::{join_strings, words_of};
use patchbay::topology::types::{CoreError, DownstreamPool, NetworkCore, NodeId};

#[test]
fn labs_are_told_apart_by_process_and_number() {
    let a = default_config(1, 0);
    let b = default_config(1, 1);
    assert!(a.prefix != b.prefix);
    assert_eq!(b.root_ns, "lab1-root");
    assert_eq!(a.ix_gw, Ipv4Addr::new(198, 18, 0, 1));
    assert_eq!(a.ix_br, ["br-", &a.bridge_tag, "-1"].concat());
}

#[test]
fn names_are_reserved_and_unique() {
    let mut core = NetworkCore::new(default_config(1, 0));
    assert_eq!(check_router_name(&core, "region_eu"), Err(CoreError::ReservedName));
    assert_eq!(check_router_name(&core, "r"), Ok(()));
    core.add_router("r", None, DownstreamPool::Private, None, IpSupport::V4Only, NatV6Mode::Off);
    assert_eq!(check_router_name(&core, "r"), Err(CoreError::NameTaken));
    let id = add_device(&mut core, "d").unwrap();
    assert_eq!(core.device_id_by_name("d"), Some(id));
    assert_eq!(add_device(&mut core, "d"), Err(CoreError::NameTaken));
}

#[test]
fn interfaces_are_named_in_order() {
    assert_eq!(auto_iface_name(0), "eth0");
    assert_eq!(auto_iface_name(12), "eth12");
    assert!(probe_port(NodeId(1)) != probe_port(NodeId(2)));
}

#[test]
fn env_names_are_upper_case() {
    assert_eq!(normalize_env_name("my-device"), "MY_DEVICE");
    assert_eq!(normalize_env_name("straße"), "STRASSE");
}

#[test]
fn env_vars_list_the_addresses() {
    let mut core = NetworkCore::new(default_config(1, 0));
    let r = core.add_router(
        "r",
        None,
        DownstreamPool::Private,
        None,
        IpSupport::V4Only,
        NatV6Mode::Off,
    );
    let sw = core.add_switch("sw", None, None, None, None);
    core.connect_router_downlink(r, sw, None).unwrap();
    let d = core.add_device("my-dev");
    let ip = core.add_device_iface(d, "eth0", r, None).unwrap().unwrap();
    let vars = env_vars(&core);
    assert!(vars.contains(&("NETSIM_IP_MY_DEV".to_string(), ip.text())));
}

#[test]
fn region_links_become_conditions() {
    let good = RegionLink::good(40).condition().unwrap();
    assert_eq!(good.latency_ms, 40);
    assert!(RegionLink::good(0).condition().is_none());
    let bad = RegionLink::degraded(40).condition().unwrap();
    assert_eq!(f32::from_bits(bad.loss_pct.bits), 0.5);
    assert_eq!(bad.jitter_ms, 4);
    let slow = RegionLink { rate_mbit: 10, ..RegionLink::good(0) };
    let condition = slow.condition().unwrap();
    assert_eq!(condition.rate_kbit, Some(10000));
    assert_eq!(condition.latency_ms, 0);
}

#[test]
fn losses_are_rounded_to_singles() {
    let samples = [
        0.0,
        -0.0,
        0.1,
        0.5,
        2.0,
        99.999,
        -3.25,
        1.0 + 1.0 / 16777216.0,
        1.0 + 3.0 / 16777216.0,
        f32::MAX as f64,
        3.5e38,
        1e300,
        1.0e-38,
        1.4e-45,
        7.0e-46,
        7.1e-46,
        3.0e-45,
        1e-310,
        f64::INFINITY,
        f64::NEG_INFINITY,
    ];
    for x in samples {
        let p = WidePercent { bits: x.to_bits() };
        assert_eq!(p.narrow().bits, (x as f32).to_bits(), "{x}");
        assert_eq!(p.positive(), x > 0.0, "{x}");
    }
    let nan = WidePercent { bits: f64::NAN.to_bits() };
    assert!(f32::from_bits(nan.narrow().bits).is_nan());
    assert!(!nan.positive());
    // Below the smallest single, and still a loss.
    let loss_pct = WidePercent { bits: 1e-310f64.to_bits() };
    let faint = RegionLink { loss_pct, ..RegionLink::good(0) };
    assert_eq!(faint.condition().unwrap().loss_pct.bits, 0);
}

#[test]
fn builders_keep_their_settings() {
    let b = LabBuilder::default()
        .label("x".to_string())
        .ipv6_profile(Ipv6Profile::Realistic)
        .outdir_from_env(Some("/tmp/out".to_string()));
    assert_eq!(b.label, Some("x".to_string()));
    assert!(matches!(b.outdir, Some(OutDir::Nested(ref p)) if p == "/tmp/out"));
    let (dad, mode) = Ipv6Profile::Realistic.modes();
    assert!(b.ipv6_dad_mode == dad && b.ipv6_provisioning_mode == mode);
    assert_eq!(dad, Ipv6DadMode::Enabled);
    assert_eq!(mode, Ipv6ProvisioningMode::RaDriven);
}

#[test]
fn test_guards_report_their_status() {
    assert_eq!(TestStatus::Unknown.final_status(), "stopped");
    assert_eq!(TestStatus::Unknown.when_guard_drops(false).final_status(), "failed");
    assert_eq!(TestStatus::Success.when_guard_drops(true).final_status(), "success");
}

#[test]
fn run_directories_are_named() {
    let plain = run_dir_name("20260101-000000", None, "lab-p1");
    let labelled = run_dir_name("20260101-000000", Some("my test"), "lab-p1");
    assert!(plain.starts_with("20260101-000000-"));
    assert!(labelled.starts_with("20260101-000000-"));
    assert!(plain != labelled);
    assert_eq!(node_file(KIND_DEVICE, "d", "log"), "device.d.log");
    assert_eq!(node_path("device", "d", ".ip"), "device.d.ip");
}

#[test]
fn capabilities_are_read_from_the_status() {
    let all = "Name:\tx\nCapEff:\t000001ffffffffff\n";
    assert!(missing_caps(all).unwrap().is_empty());
    let none = "CapEff:\t0000000000000000\n";
    let missing = missing_caps(none).unwrap();
    assert_eq!(missing.len(), 3);
    assert!(missing_caps_message(&missing).contains(&missing[0]));
    assert!(matches!(missing_caps("Name:\tx\n"), Err(CapsError::NoCapEff)));
    assert!(matches!(missing_caps("CapEff:\tzz\n"), Err(CapsError::BadCapEff)));
}

#[test]
fn real_root_is_refused_outside_a_namespace() {
    assert!(refuses_real_root(true, Some("user:[1]"), Some("user:[1]")));
    assert!(!refuses_real_root(true, Some("user:[2]"), Some("user:[1]")));
    assert!(!refuses_real_root(false, Some("user:[1]"), Some("user:[1]")));
}

#[test]
fn thread_names_fit() {
    assert_eq!(thread_name("ns", "rt"), "ns:rt");
    assert_eq!(thread_name("a-very-long-namespace", "rt"), "ng-namespace:rt");
    assert_eq!(thread_name("a-very-long-namespace", "rt").len(), 15);
}

#[test]
fn cleanup_goes_by_prefix() {
    let names = vec!["lab-a".to_string(), "lab-b".to_string(), "other".to_string()];
    assert_eq!(after_cleanup(&names, "lab-"), vec!["other"]);
}

#[test]
fn overlays_list_hosts_and_nameservers() {
    let ip = IpAddr::V4(Ipv4Addr::new(10, 0, 0, 1));
    assert_eq!(host_line("h", ip), "10.0.0.1\th\n");
    let ip6 = IpAddr::V6(Ipv6Addr::new(0x2001, 0xdb8, 0, 0, 0, 0, 0, 1));
    assert_eq!(
        resolv_conf(&vec![ip, ip6]),
        "# generated by patchbay\nnameserver 10.0.0.1\nnameserver 2001:db8::1\n"
    );
    assert!(INITIAL_HOSTS.contains("127.0.0.1"));
    assert!(hosts_dir_name("lab-p1").contains("lab-p1"));
    assert!(hosts_file_name(NodeId(3)).contains("3"));
}

#[test]
fn addresses_are_written_and_read() {
    let a = Ipv4Addr::new(192, 0, 2, 1);
    assert_eq!(a.text(), "192.0.2.1");
    assert_eq!(parse_ipv4("192.0.2.1"), Some(a));
    assert_eq!(parse_ipv4("192.0.2"), None);
    assert_eq!(parse_ipv4("192.0.2.256"), None);
    let net = Ipv4Net::new(Ipv4Addr::new(10, 1, 0, 0), 16).unwrap();
    assert!(net.contains(Ipv4Addr::new(10, 1, 200, 3)));
    assert!(!net.contains(Ipv4Addr::new(10, 2, 0, 0)));
    assert!(Ipv4Net::new(a, 33).is_none());
    assert_eq!(net.text(), "10.1.0.0/16");
    let any = Ipv4Net::new(Ipv4Addr::unspecified(), 0).unwrap();
    assert!(any.contains(a));
    let v6 = Ipv6Addr::new(0x2001, 0xdb8, 0, 0, 0, 0, 0, 1);
    assert_eq!(v6.text(), "2001:db8::1");
    assert_eq!(Ipv6Net::new(v6, 64).unwrap().text(), "2001:db8::1/64");
    assert!(Ipv6Net::new(v6, 129).is_none());
}

#[test]
fn words_are_split_at_spaces() {
    assert_eq!(words_of("  a  bc\td\n"), vec!["a", "bc", "d"]);
    assert_eq!(join_strings(&vec!["a".to_string(), "b".to_string()], ", "), "a, b");
}
