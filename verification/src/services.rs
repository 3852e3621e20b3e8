//! What the lab's name server answers, what containers are started with, and what
//! devices are told of their surroundings.
use vstd::prelude::*;

use crate::addr::IpAddr;
use crate::container::{
    env_args, lines_outer_id, mount_args, name_char, run_args, Mount,
};
use crate::dns::{
    absolute, answers_to, host_record, key_of, name_known, reply_to, resolved, small_name,
    with_record, DataView, NameView, QueryView, QuestionView, Records,
};
use crate::host::{cap_text, effective_caps, missing, not_starting, CapsError};
use crate::lab::{all_vars, device_vars, env_name, iface_vars, lab_tag, upper_case};
use crate::overlay::nameserver_lines;
use crate::text::{dec, hex, parse_number, split, starts_with, trim, words};
use crate::topology::types::{iface_from_is_first, DeviceView, NodeId};

verus! {

// ── names ────────────────────────────────────────────────────────────

/// Names are compared without regard to the size of their letters: a capital letter
/// counts as the small one, and every other byte as itself.
pub proof fn names_ignore_letter_size(n: NameView, i: int, j: int, rtype: u16)
    requires
        0 <= i < n.labels.len(),
        0 <= j < n.labels[i].len(),
    ensures
        ({
            let k = key_of(n, rtype);
            let b = n.labels[i][j];
            &&& k.1 == rtype
            &&& k.0.fqdn == n.fqdn
            &&& k.0.labels.len() == n.labels.len()
            &&& k.0.labels[i].len() == n.labels[i].len()
            &&& 65 <= b <= 90 ==> k.0.labels[i][j] == b + 32
            &&& !(65 <= b <= 90) ==> k.0.labels[i][j] == b
        }),
{
}

/// A name without a dot at its end gets one, and one that has a dot keeps it.
pub proof fn names_are_made_absolute(name: Seq<char>)
    ensures
        absolute(name).last() == '.',
        name.len() > 0 && name.last() == '.' ==> absolute(name) == name,
        !(name.len() > 0 && name.last() == '.') ==> absolute(name) == name.push('.'),
{
    reveal_strlit(".");
    if !(name.len() > 0 && name.last() == '.') {
        assert(absolute(name) =~= name.push('.'));
    }
}

/// A record that was set has the name it was set with, lives for one second, and
/// takes the place of the one of that name and type; every other record stays.
pub proof fn records_are_replaced(
    records: Records,
    name: NameView,
    rtype: u16,
    data: DataView,
    other: (NameView, u16),
)
    ensures
        ({
            let after = with_record(records, name, rtype, data);
            let k = (small_name(name), rtype);
            &&& after.contains_key(k)
            &&& after[k].owner == name && after[k].ttl == 1 && after[k].data == data
            &&& other != k ==> (after.contains_key(other) <==> records.contains_key(other))
            &&& other != k && records.contains_key(other) ==> after[other] == records[other]
        }),
{
}

/// An IPv4 address is kept as a record of type 1, an IPv6 address as one of type 28.
pub proof fn hosts_have_their_types(ip: IpAddr)
    ensures
        ip matches IpAddr::V4(a) ==> host_record(ip).0 == 1 && host_record(ip).1 == DataView::A(a),
        ip matches IpAddr::V6(a) ==> host_record(ip).0 == 28 && host_record(ip).1
            == DataView::Aaaa(a),
        crate::dns::TYPE_TXT == 16,
{
}

/// A name resolves to the address of its record of type 1, else to that of its record
/// of type 28, else to nothing.
pub proof fn names_resolve_to_their_addresses(records: Records, name: NameView)
    ensures
        ({
            let a = (small_name(name), 1u16);
            let b = (small_name(name), 28u16);
            &&& records.contains_key(a) ==> match records[a].data {
                DataView::A(x) => resolved(records, name) == Some(IpAddr::V4(x)),
                DataView::Aaaa(x) => resolved(records, name) == Some(IpAddr::V6(x)),
                DataView::Txt(_) => true,
            }
            &&& !records.contains_key(a) && records.contains_key(b) ==> match records[b].data {
                DataView::A(x) => resolved(records, name) == Some(IpAddr::V4(x)),
                DataView::Aaaa(x) => resolved(records, name) == Some(IpAddr::V6(x)),
                DataView::Txt(_) => resolved(records, name) is None,
            }
            &&& !records.contains_key(a) && !records.contains_key(b) ==> resolved(records, name)
                is None
        }),
{
}

/// A response carries the number, the opcode and the wish for recursion of its query;
/// it is authoritative and offers no recursion. Its code is 0 where one of the names
/// asked for has a record, and 3 where none has. What is no query gets no response.
pub proof fn responses_follow_their_queries(records: Records, q: QueryView)
    ensures
        reply_to(records, q) is Some <==> q.is_query,
        q.is_query ==> ({
            let r = reply_to(records, q)->0;
            let known = exists|i: int|
                0 <= i < q.questions.len() && name_known(
                    records,
                    (#[trigger] q.questions[i]).name,
                );
            &&& r.id == q.id && r.op_code == q.op_code && r.recursion_desired
                == q.recursion_desired
            &&& r.authoritative && !r.recursion_available
            &&& known ==> r.code == 0
            &&& !known ==> r.code == 3
        }),
{
    let n = q.questions.len() as int;
    if answers_to(records, q.questions, n).len() > 0 {
        let i = answered_question(records, q.questions, n, 0);
        assert(records.contains_key(key_of(q.questions[i].name, q.questions[i].qtype)));
        assert(name_known(records, q.questions[i].name));
    }
}

/// A name is known where it has a record of some type.
pub proof fn known_names_have_a_record(records: Records, name: NameView, rtype: u16)
    ensures
        records.contains_key((small_name(name), rtype)) ==> name_known(records, name),
        (forall|t: u16| !records.contains_key(#[trigger] key_of(name, t))) ==> !name_known(
            records,
            name,
        ),
{
    if records.contains_key((small_name(name), rtype)) {
        assert(records.contains_key(key_of(name, rtype)));
    }
}

/// Every answer is the record of a question that was asked.
pub proof fn answered_question(records: Records, qs: Seq<QuestionView>, n: int, j: int) -> (i: int)
    requires
        0 <= n <= qs.len(),
        0 <= j < answers_to(records, qs, n).len(),
    ensures
        0 <= i < n,
        records.contains_key((small_name(qs[i].name), qs[i].qtype)),
        answers_to(records, qs, n)[j] == records[(small_name(qs[i].name), qs[i].qtype)],
    decreases n,
{
    let before = answers_to(records, qs, n - 1);
    if j < before.len() {
        answered_question(records, qs, n - 1, j)
    } else {
        n - 1
    }
}

/// One question gets the record of its name and type, or an empty answer.
pub proof fn one_question_gets_its_record(records: Records, q: QueryView)
    requires
        q.is_query,
        q.questions.len() == 1,
    ensures
        ({
            let k = (small_name(q.questions[0].name), q.questions[0].qtype);
            let answers = reply_to(records, q)->0.answers;
            &&& records.contains_key(k) ==> answers == seq![records[k]]
            &&& !records.contains_key(k) ==> answers.len() == 0
        }),
{
    reveal_with_fuel(answers_to, 2);
    let k = (small_name(q.questions[0].name), q.questions[0].qtype);
    if records.contains_key(k) {
        assert(answers_to(records, q.questions, 1) =~= seq![records[k]]);
    }
}

// ── containers ───────────────────────────────────────────────────────

/// A container is started detached, in the caller's network namespace, in place of one
/// of the same name, from an image that is there: options first, then the image, then
/// the command. Each variable and each mount adds its own option, in order.
pub proof fn containers_are_started_with(
    name: Seq<char>,
    image: Seq<char>,
    env: Seq<(String, String)>,
    mounts: Seq<Mount>,
    cmd: Seq<Seq<char>>,
    extra: Seq<Seq<char>>,
    variable: (String, String),
    mount: Mount,
)
    ensures
        run_args(name, image, env, mounts, cmd, extra) == seq![
            "run"@,
            "-d"@,
            "--replace"@,
            "--network=host"@,
            "--pull=never"@,
            "--name"@,
            name,
        ] + (env_args(env) + mount_args(mounts) + extra) + seq![image] + cmd,
        env_args(Seq::empty()).len() == 0,
        env_args(env.push(variable)) == env_args(env) + seq![
            "--env"@,
            variable.0@ + "="@ + variable.1@,
        ],
        mount_args(Seq::empty()).len() == 0,
        mount_args(mounts.push(mount)) == mount_args(mounts) + (match mount {
            Mount::Bind { host, container, read_only } => seq![
                "--volume"@,
                host@ + ":"@ + container@ + (if read_only {
                    ":ro"@
                } else {
                    Seq::empty()
                }),
            ],
            Mount::Tmpfs { container } => seq!["--tmpfs"@, container@],
        }),
{
    assert(env.push(variable).drop_last() =~= env);
    assert(mounts.push(mount).drop_last() =~= mounts);
    assert(run_args(name, image, env, mounts, cmd, extra) =~= seq![
        "run"@,
        "-d"@,
        "--replace"@,
        "--network=host"@,
        "--pull=never"@,
        "--name"@,
        name,
    ] + (env_args(env) + mount_args(mounts) + extra) + seq![image] + cmd);
    if let Mount::Bind { host, container, read_only } = mount {
        assert(host@ + ":"@ + container@ + Seq::<char>::empty() =~= host@ + ":"@ + container@);
    }
}

/// Which characters stay in a container's name: letters, digits, underscore, dot and
/// hyphen; all others become hyphens.
pub proof fn container_names_are_clean(c: char)
    ensures
        ({
            let d = name_char(c);
            let fine = ('a' <= c <= 'z') || ('A' <= c <= 'Z') || ('0' <= c <= '9') || c == '_' || c
                == '.' || c == '-';
            &&& fine ==> d == c
            &&& !fine ==> d == '-'
        }),
{
}

/// The user outside that root stands for is told by the first line of the id map that
/// begins with 0: its second word. Where no line does, it is root.
pub proof fn outer_ids_are_found(lines: Seq<Seq<char>>, i: int, k: int)
    requires
        0 <= i <= k,
        forall|j: int|
            i <= j < k && j < lines.len() ==> words(#[trigger] lines[j]).len() < 2 || words(
                lines[j],
            )[0] != "0"@ || parse_number(words(lines[j])[1], 10, u32::MAX as int) is None,
    ensures
        k < lines.len() && words(lines[k]).len() >= 2 && words(lines[k])[0] == "0"@ && parse_number(
            words(lines[k])[1],
            10,
            u32::MAX as int,
        ) is Some ==> lines_outer_id(lines, i) == parse_number(
            words(lines[k])[1],
            10,
            u32::MAX as int,
        )->0,
        k >= lines.len() ==> lines_outer_id(lines, i) == 0,
    decreases k - i,
{
    if i < k && i < lines.len() {
        assert(words(lines[i]).len() < 2 || words(lines[i])[0] != "0"@ || parse_number(
            words(lines[i])[1],
            10,
            u32::MAX as int,
        ) is None);
        outer_ids_are_found(lines, i + 1, k);
    }
}

// ── the host ─────────────────────────────────────────────────────────

/// Which capabilities are missing: network administration is bit 12, raw sockets bit
/// 13, system administration bit 21; they are named in that order.
pub proof fn missing_capabilities_are_named(caps: int)
    requires
        0 <= caps,
    ensures
        ({
            let m = missing(caps);
            let holds = |bit: int| (caps / bit) % 2 == 1;
            &&& m.len() == (if holds(4096) {
                0int
            } else {
                1
            }) + (if holds(8192) {
                0int
            } else {
                1
            }) + (if holds(2_097_152) {
                0int
            } else {
                1
            })
            &&& !holds(4096) ==> m[0] == "CAP_NET_ADMIN"@
            &&& !holds(2_097_152) ==> m.last() == "CAP_SYS_ADMIN"@
            &&& !holds(8192) ==> m[if holds(4096) {
                0
            } else {
                1
            }] == "CAP_NET_RAW"@
        }),
{
}

/// The effective capabilities are the hexadecimal number behind the first `CapEff:`
/// and a tab.
pub proof fn capabilities_are_read(status: Seq<char>, k: int)
    requires
        0 <= k < split(status, "\n"@).len(),
        starts_with(split(status, "\n"@)[k], "CapEff:\t"@),
        forall|j: int|
            0 <= j < k ==> !starts_with(#[trigger] split(status, "\n"@)[j], "CapEff:\t"@),
    ensures
        effective_caps(status) == (match parse_number(
            trim(split(status, "\n"@)[k].skip(8)),
            16,
            u64::MAX as int,
        ) {
            Some(n) => Ok::<int, CapsError>(n),
            None => Err::<int, CapsError>(CapsError::BadCapEff),
        }),
{
    capability_line(split(status, "\n"@), 0, k);
}

proof fn capability_line(lines: Seq<Seq<char>>, i: int, k: int)
    requires
        0 <= i <= k < lines.len(),
        starts_with(lines[k], "CapEff:\t"@),
        forall|j: int| i <= j < k ==> !starts_with(#[trigger] lines[j], "CapEff:\t"@),
    ensures
        cap_text(lines, i) == Some(trim(lines[k].skip(8))),
    decreases k - i,
{
    if i < k {
        capability_line(lines, i + 1, k);
    }
}

/// What stays when a lab is cleaned up: exactly the names that do not begin with its
/// prefix.
pub proof fn cleanup_spares_others(names: Seq<Seq<char>>, prefix: Seq<char>, x: Seq<char>)
    ensures
        not_starting(names, prefix).contains(x) <==> names.contains(x) && !starts_with(x, prefix),
{
    broadcast use vstd::seq_lib::group_filter_ensures;

    let keep = |n: Seq<char>| !starts_with(n, prefix);
    if names.filter(keep).contains(x) {
        names.lemma_filter_contains_rev(keep, x);
        let i = names.filter(keep).index_of(x);
        assert(keep(names.filter(keep)[i]));
    }
    if names.contains(x) && keep(x) {
        let i = names.index_of(x);
        assert(keep(names[i]));
    }
}

/// The resolver configuration names the name servers in order, one to a line.
pub proof fn name_servers_are_listed(ips: Seq<IpAddr>, ip: IpAddr)
    ensures
        nameserver_lines(Seq::empty()).len() == 0,
        nameserver_lines(ips.push(ip)) == nameserver_lines(ips) + ("nameserver "@ + ip.spec_text()
            + "\n"@),
{
    assert(ips.push(ip).drop_last() =~= ips);
}

// ── the environment ──────────────────────────────────────────────────

/// A lab's tag: `p`, a number from 1 to 9999 made of the process, and the lab's own
/// number in hexadecimal.
pub proof fn tags_name_process_and_lab(pid: u32, lab: u64)
    ensures
        lab_tag(pid, lab) == "p"@ + dec((pid as int % 9999 + 1) as nat) + hex(lab as nat),
{
}

/// Names of variables hold underscores in place of hyphens, and capital letters.
pub proof fn variable_names_are_normal(s: Seq<char>, i: int)
    requires
        0 <= i < upper_case(s).len(),
    ensures
        env_name(s).len() == upper_case(s).len(),
        upper_case(s)[i] == '-' ==> env_name(s)[i] == '_',
        upper_case(s)[i] != '-' ==> env_name(s)[i] == upper_case(s)[i],
{
}

/// The variables of a device tell the address of the interface that carries its default
/// route first, under the device's name, then the address of each interface, in order,
/// under the device's and the interface's name. An interface without an address has
/// none.
pub proof fn variables_tell_addresses(d: DeviceView, k: int)
    requires
        d.wf(),
        0 <= k < d.interfaces.len(),
        d.interfaces[k].ifname == d.default_via,
    ensures
        ({
            let v = device_vars(d);
            let rest = iface_vars(d, d.interfaces.len() as int);
            let i = d.interfaces[k];
            &&& i.ip is Some ==> v == seq![
                ("NETSIM_IP_"@ + env_name(d.name), i.ip->0.spec_text()),
            ] + rest
            &&& i.ip is None ==> v == rest
        }),
{
    iface_from_is_first(d.interfaces, d.default_via, 0);
    let p = d.place(d.default_via)->0;
    if p < k {
        assert(d.interfaces[p].ifname != d.interfaces[k].ifname);
    }
    assert(p == k);
    let rest = iface_vars(d, d.interfaces.len() as int);
    assert(Seq::<(Seq<char>, Seq<char>)>::empty() + rest =~= rest);
}

/// One more interface adds its own variable, and none where it has no address; one more
/// device adds the variables of that device behind the others.
pub proof fn variables_follow_the_order(
    d: DeviceView,
    n: int,
    devices: Seq<(NodeId, DeviceView)>,
    m: int,
)
    requires
        0 <= n < d.interfaces.len(),
        0 <= m < devices.len(),
    ensures
        iface_vars(d, 0).len() == 0,
        ({
            let i = d.interfaces[n];
            &&& i.ip is Some ==> iface_vars(d, n + 1) == iface_vars(d, n).push(
                (
                    "NETSIM_IP_"@ + env_name(d.name) + "_"@ + env_name(i.ifname),
                    i.ip->0.spec_text(),
                ),
            )
            &&& i.ip is None ==> iface_vars(d, n + 1) == iface_vars(d, n)
        }),
        all_vars(devices, 0).len() == 0,
        all_vars(devices, m + 1) == all_vars(devices, m) + device_vars(devices[m].1),
{
}

} // verus!
