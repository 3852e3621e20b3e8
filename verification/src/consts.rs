//! File names of the run output directory.
//!
//! Per-node files use the pattern `{kind}.{name}.{ext}` to stay clear of
//! lab-level files like `events.jsonl`.
use vstd::prelude::*;

verus! {

/// Lab-level event log (NDJSON).
pub const EVENTS_JSONL: &'static str = "events.jsonl";

/// Accumulated lab state snapshot.
pub const STATE_JSON: &'static str = "state.json";

/// Temporary file for atomic state writes.
pub const STATE_JSON_TMP: &'static str = "state.json.tmp";

/// Per-node full tracing log suffix.
pub const TRACING_JSONL_EXT: &'static str = "tracing.jsonl";

/// Per-node human-readable ANSI tracing log suffix.
pub const TRACING_LOG_EXT: &'static str = "tracing.log";

/// Per-node extracted events suffix.
pub const EVENTS_JSONL_EXT: &'static str = "events.jsonl";

/// Per-node stdout log suffix.
pub const STDOUT_LOG_EXT: &'static str = "stdout.log";

/// Per-node stderr log suffix.
pub const STDERR_LOG_EXT: &'static str = "stderr.log";

/// Node kind prefix for devices.
pub const KIND_DEVICE: &'static str = "device";

/// Node kind prefix for routers.
pub const KIND_ROUTER: &'static str = "router";

/// Constructs a per-node file name: `{kind}.{name}.{ext}`.
pub fn node_file(kind: &str, name: &str, ext: &str) -> (r: String)
    ensures
        r@ == kind@ + "."@ + name@ + "."@ + ext@,
{
    let mut s = kind.to_owned();
    s.append(".");
    s.append(name);
    s.append(".");
    s.append(ext);
    s
}

} // verus!
