use patchbay::container::{
    after_check, build_run_args, container_name, exec_args, image_exists_args, outer_id,
    remove_args, sanitize_name, Mount, ReadyStep,
};

#[test]
fn run_args_have_the_required_flags() {
    let args = build_run_args(
        "lab-p1-c0",
        "docker.io/library/alpine",
        &[("A".into(), "1".into()), ("B".into(), "2".into())],
        &[],
        &["sleep".into(), "infinity".into()],
        &["--cgroup-manager=cgroupfs".into()],
    );
    // Detached, name, host network, replace.
    assert_eq!(&args[0], "run");
    assert!(args.contains(&"-d".to_string()));
    assert!(args.contains(&"--network=host".to_string()));
    assert!(args.contains(&"--replace".to_string()));
    let name_idx = args.iter().position(|a| a == "--name").unwrap();
    assert_eq!(args[name_idx + 1], "lab-p1-c0");
    // Env pairs.
    assert!(args.windows(2).any(|w| w[0] == "--env" && w[1] == "A=1"));
    assert!(args.windows(2).any(|w| w[0] == "--env" && w[1] == "B=2"));
    // Extra run arg comes before the image.
    let image_idx = args.iter().position(|a| a == "docker.io/library/alpine").unwrap();
    let cgroup_idx = args.iter().position(|a| a == "--cgroup-manager=cgroupfs").unwrap();
    assert!(cgroup_idx < image_idx);
    // Command args come after the image, in order.
    assert_eq!(&args[image_idx + 1], "sleep");
    assert_eq!(&args[image_idx + 2], "infinity");
}

#[test]
fn mounts_render_before_the_image() {
    let mounts = vec![
        Mount::Bind {
            host: "/srv/data".into(),
            container: "/data".into(),
            read_only: false,
        },
        Mount::Bind {
            host: "/etc/conf".into(),
            container: "/conf".into(),
            read_only: true,
        },
        Mount::Tmpfs {
            container: "/scratch".into(),
        },
    ];
    let args = build_run_args("c", "img", &[], &mounts, &[], &[]);
    let image_idx = args.iter().position(|a| a == "img").unwrap();
    assert!(args.windows(2).any(|w| w[0] == "--volume" && w[1] == "/srv/data:/data"));
    assert!(args.windows(2).any(|w| w[0] == "--volume" && w[1] == "/etc/conf:/conf:ro"));
    assert!(args.windows(2).any(|w| w[0] == "--tmpfs" && w[1] == "/scratch"));
    // All mount args precede the image.
    let last_mount = args.iter().rposition(|a| a == "--volume" || a == "--tmpfs").unwrap();
    assert!(last_mount < image_idx);
}

#[test]
fn sanitize_name_replaces_invalid_chars() {
    assert_eq!(sanitize_name("lab-p1/c0"), "lab-p1-c0");
    assert_eq!(sanitize_name("ok_name.1-2"), "ok_name.1-2");
    assert_eq!(sanitize_name("a b:c"), "a-b-c");
}

#[test]
fn other_commands_name_the_container() {
    assert_eq!(exec_args("c", &["ls".to_string()]), vec!["exec", "c", "ls"]);
    assert_eq!(remove_args("c")[0], "rm");
    assert_eq!(image_exists_args("img"), vec!["image", "exists", "img"]);
}

#[test]
fn container_names_carry_the_namespace() {
    let with_ns = container_name("lab-p1", Some("lab-p1-d1"), 3);
    let without = container_name("lab-p1", None, 3);
    assert!(with_ns != without);
    assert!(with_ns.chars().all(|c| c.is_ascii_alphanumeric() || "_.-".contains(c)));
}

#[test]
fn outer_id_reads_the_map() {
    assert_eq!(outer_id("         0       1000          1\n"), 1000);
    assert_eq!(outer_id(""), 0);
}

#[test]
fn readiness_polls_until_the_deadline() {
    assert!(matches!(after_check(true, 5, 0), ReadyStep::Ready));
    assert!(matches!(after_check(false, 5, 10), ReadyStep::CheckAgain(200)));
    assert!(matches!(after_check(false, 10, 10), ReadyStep::TimedOut));
}
