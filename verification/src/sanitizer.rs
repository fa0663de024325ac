//! Observational threat scanning: XSS, SQL injection, shell injection and
//! path traversal patterns, plus size limits.  The scan counts what it sees
//! and never rewrites the trace; a detection is advisory.

use vstd::prelude::*;

use crate::canonical::encoded;
use crate::json::{entry_models_of, models_of_seq, Json, JsonModel};
use crate::logging::LogContext;
use crate::pattern::{regex_is_match, regex_match_of};
use crate::pii::{sat_add, usat};
use vstd::string::StringSliceAdditionalSpecFns;
use vstd::utf8::encode_utf8;

verus! {

/// Advisory size limit for one string field, in bytes.
pub const MAX_FIELD_SIZE: usize = 100000;

/// Advisory size limit for one component, in bytes.
pub const MAX_COMPONENT_SIZE: usize = 1000000;

/// Advisory size limit for one trace, in bytes.
pub const MAX_TRACE_SIZE: usize = 10000000;

/// Mathematical form of the scan counters.
#[verifier::ext_equal]
pub struct ScanCounts {
    pub xss: int,
    pub sql: int,
    pub cmd: int,
    pub path: int,
    pub oversized: int,
    pub total: int,
}

/// What the scan saw: per-kind counts, oversized fields, and the total.
#[derive(Debug)]
pub struct SanitizationResult {
    pub xss_detections: usize,
    pub sql_detections: usize,
    pub cmd_detections: usize,
    pub path_detections: usize,
    pub oversized_fields: usize,
    pub total_detections: usize,
}

impl View for SanitizationResult {
    type V = ScanCounts;

    open spec fn view(&self) -> ScanCounts {
        ScanCounts {
            xss: self.xss_detections as int,
            sql: self.sql_detections as int,
            cmd: self.cmd_detections as int,
            path: self.path_detections as int,
            oversized: self.oversized_fields as int,
            total: self.total_detections as int,
        }
    }
}

impl Default for SanitizationResult {
    /// All counters at zero.
    fn default() -> (r: SanitizationResult)
        ensures
            r@ == (ScanCounts { xss: 0, sql: 0, cmd: 0, path: 0, oversized: 0, total: 0 }),
    {
        SanitizationResult {
            xss_detections: 0,
            sql_detections: 0,
            cmd_detections: 0,
            path_detections: 0,
            oversized_fields: 0,
            total_detections: 0,
        }
    }
}

impl SanitizationResult {
    /// Whether anything was seen.
    pub fn has_detections(&self) -> (r: bool)
        ensures
            r == (self@.total > 0),
    {
        self.total_detections > 0
    }
}

/// Whether one pattern matches the text; an invalid pattern never matches.
pub open spec fn hits(p: Seq<char>, s: Seq<char>) -> int {
    if regex_match_of(p, s) == Some(true) {
        1int
    } else {
        0int
    }
}

/// The XSS detections in one string.
pub open spec fn xss_hits(s: Seq<char>) -> int {
    hits(r"(?i)<script[^>]*>"@, s) + hits(r"(?i)javascript:"@, s) + hits(r"(?i)on\w+\s*="@, s)
        + hits(r"(?i)<iframe[^>]*>"@, s) + hits(r"(?i)<object[^>]*>"@, s) + hits(
        r"(?i)<embed[^>]*>"@,
        s,
    )
}

/// The SQL injection detections in one string.
pub open spec fn sql_hits(s: Seq<char>) -> int {
    hits(r"(?i)'\s*(or|and)\s*'?\d"@, s) + hits(r"(?i);\s*(drop|delete|truncate|alter)\s"@, s)
        + hits(r"(?i)union\s+(all\s+)?select"@, s) + hits(r"(?i)/\*.*\*/"@, s)
}

/// The shell injection detections in one string.
pub open spec fn cmd_hits(s: Seq<char>) -> int {
    hits(r";\s*(rm|cat|wget|curl|chmod)\s"@, s) + hits(r"\|\s*(bash|sh|zsh|cmd)"@, s) + hits(
        r"`[^`]+`"@,
        s,
    ) + hits(r"\$\([^)]+\)"@, s)
}

/// The path traversal detections in one string.
pub open spec fn path_hits(s: Seq<char>) -> int {
    hits(r"\.\.[\\/]"@, s) + hits(r"[\\/]etc[\\/](passwd|shadow)"@, s) + hits(
        r"[\\/](proc|sys)[\\/]"@,
        s,
    )
}

/// Whether the string runs over the field size limit, in bytes.
pub open spec fn oversized_hit(s: Seq<char>) -> int {
    if encode_utf8(s).len() as usize > MAX_FIELD_SIZE {
        1int
    } else {
        0int
    }
}

/// One string's contribution to the counters, added on saturating.
pub open spec fn scan_string_of(s: Seq<char>, acc: ScanCounts) -> ScanCounts {
    let x = xss_hits(s);
    let q = sql_hits(s);
    let c = cmd_hits(s);
    let p = path_hits(s);
    let o = oversized_hit(s);
    ScanCounts {
        xss: usat(acc.xss, x),
        sql: usat(acc.sql, q),
        cmd: usat(acc.cmd, c),
        path: usat(acc.path, p),
        oversized: usat(acc.oversized, o),
        total: usat(acc.total, o + x + q + c + p),
    }
}

fn hit(pattern: &str, s: &str) -> (r: usize)
    ensures
        r as int == hits(pattern@, s@),
        r <= 1,
{
    match regex_is_match(pattern, s) {
        Some(true) => 1,
        _ => 0,
    }
}

/// Scan one string, adding what was seen to the counters.
pub fn scan_string(s: &str, result: &mut SanitizationResult)
    ensures
        final(result)@ == scan_string_of(s@, old(result)@),
{
    let o: usize = if s.len() > MAX_FIELD_SIZE {
        1
    } else {
        0
    };
    let x1 = hit(r"(?i)<script[^>]*>", s);
    let x2 = hit(r"(?i)javascript:", s);
    let x3 = hit(r"(?i)on\w+\s*=", s);
    let x4 = hit(r"(?i)<iframe[^>]*>", s);
    let x5 = hit(r"(?i)<object[^>]*>", s);
    let x6 = hit(r"(?i)<embed[^>]*>", s);
    let xs = x1 + x2 + x3 + x4 + x5 + x6;
    let q1 = hit(r"(?i)'\s*(or|and)\s*'?\d", s);
    let q2 = hit(r"(?i);\s*(drop|delete|truncate|alter)\s", s);
    let q3 = hit(r"(?i)union\s+(all\s+)?select", s);
    let q4 = hit(r"(?i)/\*.*\*/", s);
    let qs = q1 + q2 + q3 + q4;
    let c1 = hit(r";\s*(rm|cat|wget|curl|chmod)\s", s);
    let c2 = hit(r"\|\s*(bash|sh|zsh|cmd)", s);
    let c3 = hit(r"`[^`]+`", s);
    let c4 = hit(r"\$\([^)]+\)", s);
    let cs = c1 + c2 + c3 + c4;
    let p1 = hit(r"\.\.[\\/]", s);
    let p2 = hit(r"[\\/]etc[\\/](passwd|shadow)", s);
    let p3 = hit(r"[\\/](proc|sys)[\\/]", s);
    let ps = p1 + p2 + p3;
    result.xss_detections = sat_add(result.xss_detections, xs);
    result.sql_detections = sat_add(result.sql_detections, qs);
    result.cmd_detections = sat_add(result.cmd_detections, cs);
    result.path_detections = sat_add(result.path_detections, ps);
    result.oversized_fields = sat_add(result.oversized_fields, o);
    result.total_detections = sat_add(result.total_detections, o + xs + qs + cs + ps);
}

/// A value's contribution to the counters: every string in it, and every
/// object key, in order.
pub open spec fn scan_model(m: JsonModel, acc: ScanCounts) -> ScanCounts
    decreases m, 0int,
{
    match m {
        JsonModel::Str(s) => scan_string_of(s, acc),
        JsonModel::Arr(items) => scan_items(items, acc, 0),
        JsonModel::Obj(entries) => scan_obj_entries(entries, acc, 0),
        _ => acc,
    }
}

pub open spec fn scan_items(items: Seq<JsonModel>, acc: ScanCounts, i: int) -> ScanCounts
    decreases items, items.len() - i,
{
    if i < 0 || i >= items.len() {
        acc
    } else {
        scan_items(items, scan_model(items[i], acc), i + 1)
    }
}

pub open spec fn scan_obj_entries(
    entries: Seq<(Seq<char>, JsonModel)>,
    acc: ScanCounts,
    i: int,
) -> ScanCounts
    decreases entries, entries.len() - i,
{
    if i < 0 || i >= entries.len() {
        acc
    } else {
        scan_obj_entries(entries, scan_model(entries[i].1, scan_string_of(entries[i].0, acc)), i
            + 1)
    }
}

/// Scan one value, adding what was seen to the counters.
#[verifier::loop_isolation(false)]
pub fn scan_value(value: &Json, result: &mut SanitizationResult)
    ensures
        final(result)@ == scan_model(value@, old(result)@),
    decreases value,
{
    match value {
        Json::Str(s) => {
            scan_string(s.as_str(), result);
        },
        Json::Arr(items) => {
            let ghost ms = models_of_seq(items@);
            let ghost acc0 = result@;
            proof {
                crate::json::lemma_models_of_seq(items@);
            }
            let mut i: usize = 0;
            while i < items.len()
                invariant
                    i <= items@.len(),
                    scan_items(ms, acc0, 0) == scan_items(ms, result@, i as int),
                decreases items@.len() - i,
            {
                scan_value(&items[i], result);
                i = i + 1;
            }
        },
        Json::Obj(entries) => {
            let ghost ms = entry_models_of(entries@);
            let ghost acc0 = result@;
            proof {
                crate::json::lemma_entry_models_of(entries@);
            }
            let mut i: usize = 0;
            while i < entries.len()
                invariant
                    i <= entries@.len(),
                    scan_obj_entries(ms, acc0, 0) == scan_obj_entries(ms, result@, i as int),
                decreases entries@.len() - i,
            {
                scan_string(entries[i].0.as_str(), result);
                scan_value(&entries[i].1, result);
                i = i + 1;
            }
        },
        _ => {},
    }
}

/// What a whole trace's scan reports: an oversized trace counts first, then
/// every string in the trace.
pub open spec fn scan_trace_of(m: JsonModel) -> ScanCounts {
    let base = ScanCounts { xss: 0, sql: 0, cmd: 0, path: 0, oversized: 0, total: 0 };
    let acc = if encode_utf8(encoded(m, false)).len() as usize > MAX_TRACE_SIZE {
        ScanCounts { oversized: 1, ..base }
    } else {
        base
    };
    scan_model(m, acc)
}

/// Scan a trace for threats and size overruns; the trace itself passes
/// through unchanged.
pub fn sanitize_trace(trace: &Json, _ctx: &LogContext) -> (r: Json)
    ensures
        r@ == trace@,
{
    let mut result = SanitizationResult::default();
    let trace_str = crate::canonical::json_to_string(trace);
    if trace_str.as_str().len() > MAX_TRACE_SIZE {
        result.oversized_fields = sat_add(result.oversized_fields, 1);
    }
    scan_value(trace, &mut result);
    trace.clone()
}

/// Scan a trace and report the counters.
pub fn scan_trace(trace: &Json) -> (r: SanitizationResult)
    ensures
        r@ == scan_trace_of(trace@),
{
    let mut result = SanitizationResult::default();
    let trace_str = crate::canonical::json_to_string(trace);
    if trace_str.as_str().len() > MAX_TRACE_SIZE {
        result.oversized_fields = sat_add(result.oversized_fields, 1);
    }
    scan_value(trace, &mut result);
    result
}

} // verus!
