//! What the host must provide, and the names of worker threads.
use vstd::prelude::*;
use vstd::utf8::{decode_utf8, encode_utf8, is_char_boundary};

use crate::text::{
    join, join_strings, parse_number, parse_radix, split, split_str, starts_with, str_starts_with,
    trim, trim_str, views,
};

verus! {

/// Capability bit of network administration.
pub const CAP_NET_ADMIN: u64 = 12;

/// Capability bit of raw sockets.
pub const CAP_NET_RAW: u64 = 13;

/// Capability bit of system administration.
pub const CAP_SYS_ADMIN: u64 = 21;

/// Why the capabilities could not be read.
#[derive(Clone, Copy, Debug, PartialEq, Eq, Structural)]
pub enum CapsError {
    /// The status has no `CapEff` line.
    NoCapEff,
    /// The `CapEff` line holds no number.
    BadCapEff,
}

/// The text behind `CapEff:` in the first such line, from line `i` on.
pub open spec fn cap_text(lines: Seq<Seq<char>>, i: int) -> Option<Seq<char>>
    decreases lines.len() - i,
{
    if i < 0 || i >= lines.len() {
        None
    } else if starts_with(lines[i], "CapEff:\t"@) {
        Some(trim(lines[i].skip(8)))
    } else {
        cap_text(lines, i + 1)
    }
}

/// The effective capabilities that a process status holds.
pub open spec fn effective_caps(status: Seq<char>) -> Result<int, CapsError> {
    match cap_text(split(status, "\n"@), 0) {
        None => Err(CapsError::NoCapEff),
        Some(t) => match parse_number(t, 16, u64::MAX as int) {
            None => Err(CapsError::BadCapEff),
            Some(n) => Ok(n),
        },
    }
}

/// The needed capabilities that are not among `caps`, in order.
pub open spec fn missing(caps: int) -> Seq<Seq<char>> {
    (if (caps / 0x1000) % 2 == 0 {
        seq!["CAP_NET_ADMIN"@]
    } else {
        Seq::empty()
    }) + (if (caps / 0x2000) % 2 == 0 {
        seq!["CAP_NET_RAW"@]
    } else {
        Seq::empty()
    }) + (if (caps / 0x20_0000) % 2 == 0 {
        seq!["CAP_SYS_ADMIN"@]
    } else {
        Seq::empty()
    })
}

fn read_cap_eff(status: &str) -> (r: Result<u64, CapsError>)
    ensures
        match r {
            Ok(n) => effective_caps(status@) == Ok::<int, CapsError>(n as int),
            Err(e) => effective_caps(status@) == Err::<int, CapsError>(e),
        },
{
    proof {
        reveal_strlit("\n");
        reveal_strlit("CapEff:\t");
    }
    let lines = split_str(status, "\n");
    let ghost all = views(lines@);
    let mut i: usize = 0;
    while i < lines.len()
        invariant
            i <= lines.len(),
            all == views(lines@),
            all == split(status@, "\n"@),
            cap_text(all, 0) == cap_text(all, i as int),
            "CapEff:\t"@.len() == 8,
        decreases lines.len() - i,
    {
        let line = lines[i].as_str();
        assert(all[i as int] == line@);
        if str_starts_with(line, "CapEff:\t") {
            let n = line.unicode_len();
            let rest = line.substring_char(8, n);
            assert(rest@ =~= line@.skip(8));
            return match parse_radix(trim_str(rest), 16, u64::MAX) {
                Some(n) => Ok(n),
                None => Err(CapsError::BadCapEff),
            };
        }
        i += 1;
    }
    Err(CapsError::NoCapEff)
}

/// The capabilities that the process lacks: network administration, raw
/// sockets and system administration are needed. `status` is the text of
/// `/proc/self/status`.
pub fn missing_caps(status: &str) -> (r: Result<Vec<String>, CapsError>)
    ensures
        match effective_caps(status@) {
            Ok(n) => r is Ok && views(r->Ok_0@) == missing(n),
            Err(e) => r is Err && r->Err_0 == e,
        },
{
    let caps: u64 = match read_cap_eff(status) {
        Ok(n) => n,
        Err(e) => {
            return Err(e);
        },
    };
    let mut out: Vec<String> = Vec::new();
    if (caps / 0x1000) % 2 == 0 {
        out.push("CAP_NET_ADMIN".to_owned());
    }
    if (caps / 0x2000) % 2 == 0 {
        out.push("CAP_NET_RAW".to_owned());
    }
    if (caps / 0x20_0000) % 2 == 0 {
        out.push("CAP_SYS_ADMIN".to_owned());
    }
    assert(views(out@) =~= missing(caps as int));
    Ok(out)
}

/// The message that names the missing capabilities.
pub fn missing_caps_message(missing: &Vec<String>) -> (r: String)
    ensures
        r@ == "missing capabilities: "@ + join(views(missing@), ", "@),
{
    let mut s = "missing capabilities: ".to_owned();
    s.append(join_strings(missing, ", ").as_str());
    s
}

/// Whether a lab must not run: as real root, outside of a user namespace of its
/// own. The two texts name the user namespaces of this process and of the first
/// one.
pub fn refuses_real_root(is_root: bool, mine: Option<&str>, init: Option<&str>) -> (r: bool)
    ensures
        r == (is_root && mine is Some == init is Some && (mine is Some ==> mine->0@ == init->0@)),
{
    is_root && crate::text::opt_str_eq(mine, init)
}

/// Longest thread name that the system takes, in bytes.
pub const THREAD_NAME_MAX: usize = 15;

/// Builds a thread name like `{ns}:{suffix}` of at most 15 bytes. Where the
/// namespace is too long, its leading bytes are cut off.
pub fn thread_name(ns: &str, suffix: &str) -> (r: String)
    requires
        encode_utf8(suffix@).len() <= 14,
        encode_utf8(ns@).len() > 14 - encode_utf8(suffix@).len() ==> is_char_boundary(
            encode_utf8(ns@),
            encode_utf8(ns@).len() - (14 - encode_utf8(suffix@).len()),
        ),
    ensures
        ({
            let bytes = encode_utf8(ns@);
            let budget = 14 - encode_utf8(suffix@).len();
            if bytes.len() <= budget {
                r@ == ns@ + ":"@ + suffix@
            } else {
                r@ == decode_utf8(bytes.skip(bytes.len() - budget)) + ":"@ + suffix@
            }
        }),
{
    let budget: usize = 14 - suffix.as_bytes().len();
    let n = ns.as_bytes().len();
    let mut name = if n <= budget {
        ns.to_owned()
    } else {
        let (_, tail) = ns.split_at(n - budget);
        proof {
            let bytes = encode_utf8(ns@);
            assert(encode_utf8(tail@) =~= bytes.skip(bytes.len() - budget));
            vstd::utf8::encode_utf8_decode_utf8(tail@);
        }
        tail.to_owned()
    };
    name.append(":");
    name.append(suffix);
    name
}

/// The names that do not begin with a prefix, in order.
pub open spec fn not_starting(names: Seq<Seq<char>>, prefix: Seq<char>) -> Seq<Seq<char>> {
    names.filter(|n: Seq<char>| !starts_with(n, prefix))
}

/// The namespaces that stay when those of a lab's prefix are cleaned up.
pub fn after_cleanup(names: &Vec<String>, prefix: &str) -> (r: Vec<String>)
    ensures
        views(r@) == not_starting(views(names@), prefix@),
{
    let ghost all = views(names@);
    let mut out: Vec<String> = Vec::new();
    let mut i: usize = 0;
    proof {
        reveal(Seq::filter);
        assert(views(out@) =~= not_starting(all.take(0), prefix@));
    }
    while i < names.len()
        invariant
            i <= names.len(),
            all == views(names@),
            views(out@) == not_starting(all.take(i as int), prefix@),
        decreases names.len() - i,
    {
        let ghost done = views(out@);
        proof {
            reveal(Seq::filter);
            assert(all.take(i as int + 1).drop_last() =~= all.take(i as int));
            assert(all.take(i as int + 1).last() == names@[i as int]@);
        }
        if !str_starts_with(names[i].as_str(), prefix) {
            out.push(names[i].clone());
            assert(views(out@) =~= done.push(names@[i as int]@));
        }
        i += 1;
    }
    assert(all.take(names.len() as int) =~= all);
    out
}

} // verus!
