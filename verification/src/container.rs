//! Containers as lab devices: names and arguments for the runtime.
use vstd::prelude::*;

use crate::text::{
    chars_of, dec, dec_reads_back, dec_string, digit_char, parse_number, parse_radix, split,
    split_str, str_eq, views, words, words_of,
};
use crate::topology::nodes::node_ns;

verus! {

/// Default container runtime.
pub const DEFAULT_RUNTIME: &'static str = "podman";

/// How long a readiness check waits by default, in milliseconds.
pub const DEFAULT_READY_TIMEOUT_MS: u64 = 30_000;

/// How long to wait between two readiness checks, in milliseconds.
pub const READY_POLL_MS: u64 = 200;

/// A mount to add to the container.
#[derive(Debug)]
pub enum Mount {
    /// Bind-mount a host path.
    Bind {
        /// Path on the host.
        host: String,
        /// Path in the container.
        container: String,
        /// Whether it is read-only.
        read_only: bool,
    },
    /// Mount a fresh tmpfs.
    Tmpfs {
        /// Path in the container.
        container: String,
    },
}

impl Mount {
    /// The runtime's arguments for the mount.
    pub open spec fn spec_args(self) -> Seq<Seq<char>> {
        match self {
            Mount::Bind { host, container, read_only } => seq![
                "--volume"@,
                if read_only {
                    host@ + ":"@ + container@ + ":ro"@
                } else {
                    host@ + ":"@ + container@
                },
            ],
            Mount::Tmpfs { container } => seq!["--tmpfs"@, container@],
        }
    }

    /// The runtime's arguments for the mount.
    pub fn to_args(&self) -> (r: Vec<String>)
        ensures
            views(r@) == self.spec_args(),
    {
        let mut out: Vec<String> = Vec::new();
        match self {
            Mount::Bind { host, container, read_only } => {
                let mut spec_text = host.clone();
                spec_text.append(":");
                spec_text.append(container.as_str());
                if *read_only {
                    spec_text.append(":ro");
                }
                out.push("--volume".to_owned());
                out.push(spec_text);
            },
            Mount::Tmpfs { container } => {
                out.push("--tmpfs".to_owned());
                out.push(container.clone());
            },
        }
        assert(views(out@) =~= self.spec_args());
        out
    }
}

/// A character as it may stand in a container name.
pub open spec fn name_char(c: char) -> char {
    if ('0' <= c <= '9') || ('a' <= c <= 'z') || ('A' <= c <= 'Z') || c == '_' || c == '.' || c
        == '-' {
        c
    } else {
        '-'
    }
}

/// Replaces characters that the runtime does not accept in a container name
/// with `-`.
pub fn sanitize_name(raw: &str) -> (r: String)
    ensures
        r@ == raw@.map_values(|c: char| name_char(c)),
{
    let v = chars_of(raw);
    let mut out = String::new();
    let mut i: usize = 0;
    while i < v.len()
        invariant
            i <= v.len(),
            out@ == v@.take(i as int).map_values(|c: char| name_char(c)),
        decreases v.len() - i,
    {
        let c = v[i];
        let ok = ('0' <= c && c <= '9') || ('a' <= c && c <= 'z') || ('A' <= c && c <= 'Z') || c
            == '_' || c == '.' || c == '-';
        out.push(
            if ok {
                c
            } else {
                '-'
            },
        );
        assert(out@ =~= v@.take(i as int + 1).map_values(|c: char| name_char(c)));
        i += 1;
    }
    assert(v@.take(v.len() as int) =~= v@);
    out
}

/// A container name from the lab's prefix and the namespace of the device, or
/// the device's number where it has none.
pub fn container_name(prefix: &str, ns: Option<&str>, id: u64) -> (r: String)
    ensures
        ({
            let dev = match ns {
                Some(n) => n@,
                None => "dev"@ + dec(id as nat),
            };
            r@ == (prefix@ + "-"@ + dev).map_values(|c: char| name_char(c))
        }),
{
    let mut raw = prefix.to_owned();
    raw.append("-");
    match ns {
        Some(n) => {
            raw.append(n);
        },
        None => {
            let mut dev = "dev".to_owned();
            dev.append(dec_string(id).as_str());
            raw.append(dev.as_str());
        },
    }
    sanitize_name(raw.as_str())
}

proof fn digits_may_stand(n: nat)
    ensures
        forall|i: int| 0 <= i < dec(n).len() ==> name_char(#[trigger] dec(n)[i]) == dec(n)[i],
    decreases n,
{
    let last = digit_char((n % 10) as int);
    assert('0' <= last <= '9');
    assert(dec(n).last() == last);
    if n >= 10 {
        digits_may_stand(n / 10);
        assert(dec(n).drop_last() =~= dec(n / 10));
    }
    assert forall|i: int| 0 <= i < dec(n).len() implies name_char(#[trigger] dec(n)[i])
        == dec(n)[i] by {
        if i < dec(n).len() - 1 {
            assert(dec(n)[i] == dec(n / 10)[i]);
        }
    }
}

/// The containers of a lab's devices have different names.
pub proof fn container_names_differ(prefix: Seq<char>, lab: u64, a: u64, b: u64)
    requires
        a != b,
    ensures
        (prefix + "-"@ + node_ns(lab, "-d"@, a)).map_values(|c: char| name_char(c)) != (prefix
            + "-"@ + node_ns(lab, "-d"@, b)).map_values(|c: char| name_char(c)),
{
    reveal_strlit("-");
    reveal_strlit("-d");
    reveal_strlit("lab");
    digits_may_stand(a as nat);
    digits_may_stand(b as nat);
    let f = |c: char| name_char(c);
    let n = prefix.len() + 1 + 3 + dec(lab as nat).len() + 2;
    let x = (prefix + "-"@ + node_ns(lab, "-d"@, a)).map_values(f);
    let y = (prefix + "-"@ + node_ns(lab, "-d"@, b)).map_values(f);
    assert(x.skip(n as int) =~= dec(a as nat));
    assert(y.skip(n as int) =~= dec(b as nat));
    if x == y {
        dec_reads_back(a as nat);
        dec_reads_back(b as nat);
    }
}

/// Environment variables as the runtime takes them.
pub open spec fn env_args(env: Seq<(String, String)>) -> Seq<Seq<char>>
    decreases env.len(),
{
    if env.len() == 0 {
        Seq::empty()
    } else {
        env_args(env.drop_last()) + seq!["--env"@, env.last().0@ + "="@ + env.last().1@]
    }
}

/// Mounts as the runtime takes them.
pub open spec fn mount_args(mounts: Seq<Mount>) -> Seq<Seq<char>>
    decreases mounts.len(),
{
    if mounts.len() == 0 {
        Seq::empty()
    } else {
        mount_args(mounts.drop_last()) + mounts.last().spec_args()
    }
}

/// The arguments that start a container: detached, in the caller's network
/// namespace, in place of one of the same name, with an image that is there.
/// Options come before the image, the command behind it.
pub open spec fn run_args(
    name: Seq<char>,
    image: Seq<char>,
    env: Seq<(String, String)>,
    mounts: Seq<Mount>,
    cmd_args: Seq<Seq<char>>,
    extra: Seq<Seq<char>>,
) -> Seq<Seq<char>> {
    seq!["run"@, "-d"@, "--replace"@, "--network=host"@, "--pull=never"@, "--name"@, name] + env_args(
        env,
    ) + mount_args(mounts) + extra + seq![image] + cmd_args
}

fn push_arg(args: &mut Vec<String>, s: &str)
    ensures
        views(final(args)@) == views(old(args)@).push(s@),
{
    args.push(s.to_owned());
    assert(views(args@) =~= views(old(args)@).push(s@));
}

fn push_all(args: &mut Vec<String>, more: &[String])
    ensures
        views(final(args)@) == views(old(args)@) + views(more@),
{
    let mut i: usize = 0;
    assert(views(args@) =~= views(old(args)@) + views(more@).take(0));
    while i < more.len()
        invariant
            i <= more.len(),
            views(args@) == views(old(args)@) + views(more@).take(i as int),
        decreases more.len() - i,
    {
        push_arg(args, more[i].as_str());
        assert(views(args@) =~= views(old(args)@) + views(more@).take(i as int + 1));
        i += 1;
    }
    assert(views(more@).take(more.len() as int) =~= views(more@));
}

/// Builds the arguments that start a container.
pub fn build_run_args(
    name: &str,
    image: &str,
    env: &[(String, String)],
    mounts: &[Mount],
    cmd_args: &[String],
    extra_run_args: &[String],
) -> (r: Vec<String>)
    ensures
        views(r@) == run_args(
            name@,
            image@,
            env@,
            mounts@,
            views(cmd_args@),
            views(extra_run_args@),
        ),
{
    let mut args: Vec<String> = Vec::new();
    push_arg(&mut args, "run");
    push_arg(&mut args, "-d");
    push_arg(&mut args, "--replace");
    push_arg(&mut args, "--network=host");
    push_arg(&mut args, "--pull=never");
    push_arg(&mut args, "--name");
    push_arg(&mut args, name);
    let ghost head = seq![
        "run"@,
        "-d"@,
        "--replace"@,
        "--network=host"@,
        "--pull=never"@,
        "--name"@,
        name@,
    ];
    assert(views(args@) =~= head);
    let mut i: usize = 0;
    assert(views(args@) =~= head + env_args(env@.take(0)));
    while i < env.len()
        invariant
            i <= env.len(),
            views(args@) == head + env_args(env@.take(i as int)),
        decreases env.len() - i,
    {
        let ghost done = views(args@);
        let (k, v) = (&env[i].0, &env[i].1);
        let mut pair = k.clone();
        pair.append("=");
        pair.append(v.as_str());
        push_arg(&mut args, "--env");
        push_arg(&mut args, pair.as_str());
        assert(env@.take(i as int + 1).drop_last() =~= env@.take(i as int));
        assert(views(args@) =~= done + seq!["--env"@, pair@]);
        assert(views(args@) =~= head + env_args(env@.take(i as int + 1)));
        i += 1;
    }
    assert(env@.take(env.len() as int) =~= env@);
    let ghost head2 = views(args@);
    let mut k: usize = 0;
    assert(views(args@) =~= head2 + mount_args(mounts@.take(0)));
    while k < mounts.len()
        invariant
            k <= mounts.len(),
            views(args@) == head2 + mount_args(mounts@.take(k as int)),
        decreases mounts.len() - k,
    {
        let more = mounts[k].to_args();
        push_all(&mut args, more.as_slice());
        assert(mounts@.take(k as int + 1).drop_last() =~= mounts@.take(k as int));
        assert(views(args@) =~= head2 + mount_args(mounts@.take(k as int + 1)));
        k += 1;
    }
    assert(mounts@.take(mounts.len() as int) =~= mounts@);
    push_all(&mut args, extra_run_args);
    let ghost before = views(args@);
    push_arg(&mut args, image);
    assert(views(args@) =~= before + seq![image@]);
    push_all(&mut args, cmd_args);
    args
}

/// The arguments that run a command in a container.
pub fn exec_args(name: &str, cmd: &[String]) -> (r: Vec<String>)
    ensures
        views(r@) == seq!["exec"@, name@] + views(cmd@),
{
    let mut args: Vec<String> = Vec::new();
    push_arg(&mut args, "exec");
    push_arg(&mut args, name);
    assert(views(args@) =~= seq!["exec"@, name@]);
    push_all(&mut args, cmd);
    args
}

/// The arguments that remove a container.
pub fn remove_args(name: &str) -> (r: Vec<String>)
    ensures
        views(r@) == seq!["rm"@, "-f"@, "-t"@, "1"@, name@],
{
    let mut args: Vec<String> = Vec::new();
    push_arg(&mut args, "rm");
    push_arg(&mut args, "-f");
    push_arg(&mut args, "-t");
    push_arg(&mut args, "1");
    push_arg(&mut args, name);
    assert(views(args@) =~= seq!["rm"@, "-f"@, "-t"@, "1"@, name@]);
    args
}

/// The arguments that ask whether an image is there.
pub fn image_exists_args(image: &str) -> (r: Vec<String>)
    ensures
        views(r@) == seq!["image"@, "exists"@, image@],
{
    let mut args: Vec<String> = Vec::new();
    push_arg(&mut args, "image");
    push_arg(&mut args, "exists");
    push_arg(&mut args, image);
    assert(views(args@) =~= seq!["image"@, "exists"@, image@]);
    args
}

/// The identifier outside that a line of an id map maps 0 to.
pub open spec fn line_outer_id(line: Seq<char>) -> Option<int> {
    let w = words(line);
    if w.len() >= 2 && w[0] == "0"@ {
        parse_number(w[1], 10, u32::MAX as int)
    } else {
        None
    }
}

/// The identifier outside of the first line that has one, from line `i` on; 0
/// where none has.
pub open spec fn lines_outer_id(lines: Seq<Seq<char>>, i: int) -> int
    decreases lines.len() - i,
{
    if i < 0 || i >= lines.len() {
        0
    } else {
        match line_outer_id(lines[i]) {
            Some(n) => n,
            None => lines_outer_id(lines, i + 1),
        }
    }
}

/// The identifier outside that an id map (`/proc/self/uid_map`) maps 0 to.
pub fn outer_id(contents: &str) -> (r: u32)
    ensures
        r as int == lines_outer_id(split(contents@, "\n"@), 0),
{
    proof {
        reveal_strlit("\n");
    }
    let lines = split_str(contents, "\n");
    let ghost all = views(lines@);
    let mut i: usize = 0;
    while i < lines.len()
        invariant
            i <= lines.len(),
            all == views(lines@),
            lines_outer_id(all, 0) == lines_outer_id(all, i as int),
            all == split(contents@, "\n"@),
        decreases lines.len() - i,
    {
        assert(all[i as int] == lines@[i as int]@);
        let w = words_of(lines[i].as_str());
        assert(views(w@).len() == w.len());
        if w.len() >= 2 {
            assert(views(w@)[0] == w@[0]@ && views(w@)[1] == w@[1]@);
            if str_eq(w[0].as_str(), "0") {
                if let Some(n) = parse_radix(w[1].as_str(), 10, 0xffff_ffff) {
                    return n as u32;
                }
            }
        }
        i += 1;
    }
    0
}

/// What is waited for once a container has started.
#[derive(Clone, Copy, Debug, PartialEq, Eq, Structural)]
pub enum ReadyGate {
    /// Nothing.
    Nothing,
    /// A TCP connection to this port, for at most so many milliseconds.
    Tcp {
        /// The port.
        port: u16,
        /// The time to wait.
        timeout_ms: u64,
    },
}

/// Options of a container that is being built.
#[derive(Debug)]
pub struct ContainerBuilder {
    /// The image.
    pub image: String,
    /// Arguments of the command.
    pub args: Vec<String>,
    /// Environment variables.
    pub env: Vec<(String, String)>,
    /// Mounts.
    pub mounts: Vec<Mount>,
    /// Extra flags of the runtime.
    pub run_args: Vec<String>,
    /// The runtime binary.
    pub runtime: String,
    /// What is waited for.
    pub ready: ReadyGate,
}

impl ContainerBuilder {
    /// A container without options.
    pub fn new(image: String) -> (r: ContainerBuilder)
        ensures
            r.image == image,
            r.args@.len() == 0 && r.env@.len() == 0 && r.mounts@.len() == 0 && r.run_args@.len()
                == 0,
            r.runtime@ == DEFAULT_RUNTIME@,
            r.ready is Nothing,
    {
        ContainerBuilder {
            image,
            args: Vec::new(),
            env: Vec::new(),
            mounts: Vec::new(),
            run_args: Vec::new(),
            runtime: DEFAULT_RUNTIME.to_owned(),
            ready: ReadyGate::Nothing,
        }
    }

    /// Sets an environment variable inside the container.
    pub fn env(self, key: String, value: String) -> (r: ContainerBuilder)
        ensures
            r == (ContainerBuilder { env: r.env, ..self }),
            r.env@ == self.env@.push((key, value)),
    {
        let mut b = self;
        b.env.push((key, value));
        b
    }

    /// Appends an argument to the container's command.
    pub fn arg(self, arg: String) -> (r: ContainerBuilder)
        ensures
            r == (ContainerBuilder { args: r.args, ..self }),
            r.args@ == self.args@.push(arg),
    {
        let mut b = self;
        b.args.push(arg);
        b
    }

    /// Appends several arguments to the container's command.
    pub fn args(self, args: Vec<String>) -> (r: ContainerBuilder)
        ensures
            r == (ContainerBuilder { args: r.args, ..self }),
            r.args@ == self.args@ + args@,
    {
        let mut b = self;
        let mut more = args;
        b.args.append(&mut more);
        b
    }

    /// Bind-mounts a host path into the container, read-write.
    pub fn volume(self, host: String, container: String) -> (r: ContainerBuilder)
        ensures
            r == (ContainerBuilder { mounts: r.mounts, ..self }),
            r.mounts@ == self.mounts@.push(Mount::Bind { host, container, read_only: false }),
    {
        let mut b = self;
        b.mounts.push(Mount::Bind { host, container, read_only: false });
        b
    }

    /// Bind-mounts a host path into the container, read-only.
    pub fn volume_ro(self, host: String, container: String) -> (r: ContainerBuilder)
        ensures
            r == (ContainerBuilder { mounts: r.mounts, ..self }),
            r.mounts@ == self.mounts@.push(Mount::Bind { host, container, read_only: true }),
    {
        let mut b = self;
        b.mounts.push(Mount::Bind { host, container, read_only: true });
        b
    }

    /// Mounts a fresh tmpfs at a path inside the container.
    pub fn tmpfs(self, container: String) -> (r: ContainerBuilder)
        ensures
            r == (ContainerBuilder { mounts: r.mounts, ..self }),
            r.mounts@ == self.mounts@.push(Mount::Tmpfs { container }),
    {
        let mut b = self;
        b.mounts.push(Mount::Tmpfs { container });
        b
    }

    /// Passes an extra flag to the runtime, before the image name.
    pub fn run_arg(self, arg: String) -> (r: ContainerBuilder)
        ensures
            r == (ContainerBuilder { run_args: r.run_args, ..self }),
            r.run_args@ == self.run_args@.push(arg),
    {
        let mut b = self;
        b.run_args.push(arg);
        b
    }

    /// Overrides the runtime binary.
    pub fn runtime(self, runtime: String) -> (r: ContainerBuilder)
        ensures
            r == (ContainerBuilder { runtime, ..self }),
    {
        ContainerBuilder { runtime, ..self }
    }

    /// Waits, after start, until a TCP connection to a port succeeds.
    pub fn ready_tcp(self, port: u16) -> (r: ContainerBuilder)
        ensures
            r == (ContainerBuilder {
                ready: ReadyGate::Tcp { port, timeout_ms: DEFAULT_READY_TIMEOUT_MS },
                ..self
            }),
    {
        self.ready_tcp_timeout(port, DEFAULT_READY_TIMEOUT_MS)
    }

    /// Waits, after start, for a TCP connection with the given limit.
    pub fn ready_tcp_timeout(self, port: u16, timeout_ms: u64) -> (r: ContainerBuilder)
        ensures
            r == (ContainerBuilder { ready: ReadyGate::Tcp { port, timeout_ms }, ..self }),
    {
        ContainerBuilder { ready: ReadyGate::Tcp { port, timeout_ms }, ..self }
    }

    /// The arguments that start the container under a name.
    pub fn command(&self, name: &str) -> (r: Vec<String>)
        ensures
            views(r@) == run_args(
                name@,
                self.image@,
                self.env@,
                self.mounts@,
                views(self.args@),
                views(self.run_args@),
            ),
    {
        build_run_args(
            name,
            self.image.as_str(),
            self.env.as_slice(),
            self.mounts.as_slice(),
            self.args.as_slice(),
            self.run_args.as_slice(),
        )
    }
}

/// What to do after a readiness check.
#[derive(Clone, Copy, Debug, PartialEq, Eq, Structural)]
pub enum ReadyStep {
    /// The service answers.
    Ready,
    /// The time is up.
    TimedOut,
    /// Check again after this many milliseconds.
    CheckAgain(u64),
}

/// Decides what follows a readiness check.
pub fn after_check(connected: bool, now_ms: u64, deadline_ms: u64) -> (r: ReadyStep)
    ensures
        r == (if connected {
            ReadyStep::Ready
        } else if now_ms >= deadline_ms {
            ReadyStep::TimedOut
        } else {
            ReadyStep::CheckAgain(READY_POLL_MS)
        }),
{
    if connected {
        ReadyStep::Ready
    } else if now_ms >= deadline_ms {
        ReadyStep::TimedOut
    } else {
        ReadyStep::CheckAgain(READY_POLL_MS)
    }
}

} // verus!
