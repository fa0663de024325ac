//! The per-trace state machine and batch driver.
//!
//! A trace is parsed, validated against the schema catalog, and — unless it
//! is a connectivity trace — its signature is verified, it is scrubbed at
//! the strictest tier, scanned, its metadata extracted, and routed.  Every
//! failure yields a malformed verdict for that trace alone; a batch never
//! fails as a whole, and verdicts come back in input order.

use vstd::prelude::*;

use crate::context::BatchContext;
use crate::json::{models_of_seq, Json, JsonModel};
use crate::json_path::{json_field, str_field_of};
use crate::logging::LogContext;
use crate::metadata::{connectivity_md_of, extract_of, extract_connectivity_metadata,
    extract_trace_metadata};
use crate::parse::{parse_err_of, parse_json, parse_of};
use crate::pii::{scrub_model, scrub_pii, PiiCounts};
use crate::routing::{decision_text, determine_routing, routing_of};
use crate::sanitizer::sanitize_trace;
use crate::schema::{detect_of, events_contain, strings_view, SchemaCache, SchemaCacheModel,
    SchemaValidationResult};
use crate::signature::{verify_trace_sig_of, verify_trace_signature, KeyCacheModel,
    PublicKeyCache};
use crate::strmap::StrMap;
use crate::text::{append_chars, chars_to_string, str_eq};

verus! {

// ---------------------------------------------------------------------------
// Event set collection
// ---------------------------------------------------------------------------

/// The event type named by one component.
pub open spec fn comp_ev(m: JsonModel) -> Option<Seq<char>> {
    str_field_of(m, "event_type"@)
}

/// The event types of the components, in order of first appearance.
pub open spec fn comp_events(items: Seq<JsonModel>, i: int) -> Seq<Seq<char>>
    decreases items.len() - i,
{
    if i < 0 || i >= items.len() {
        Seq::empty()
    } else {
        let rest = comp_events(items, i + 1);
        match comp_ev(items[i]) {
            Some(e) => if forall|k: int| 0 <= k < i ==> comp_ev(items[k]) != Some(e) {
                seq![e] + rest
            } else {
                rest
            },
            None => rest,
        }
    }
}

/// The event set of a trace: the components' event types, plus the
/// top-level one when present and new.
pub open spec fn trace_events_of(tm: JsonModel) -> Seq<Seq<char>> {
    let ce = match crate::json_path::field_of(tm, "components"@) {
        Some(c) => match c {
            JsonModel::Arr(items) => comp_events(items, 0),
            _ => Seq::empty(),
        },
        None => Seq::empty(),
    };
    match str_field_of(tm, "event_type"@) {
        Some(e) => if !events_contain(ce, e) {
            ce.push(e)
        } else {
            ce
        },
        None => ce,
    }
}

/// Collect a trace's event types, each once.
fn collect_event_types(trace: &Json) -> (r: Vec<String>)
    ensures
        strings_view(r@) == trace_events_of(trace@),
{
    let mut out: Vec<String> = Vec::new();
    match json_field(trace, "components") {
        Some(c) => match c {
            Json::Arr(items) => {
                let ghost ms = models_of_seq(items@);
                proof {
                    crate::json::lemma_models_of_seq(items@);
                    assert(strings_view(out@) + comp_events(ms, 0) =~= comp_events(ms, 0));
                }
                let mut i: usize = 0;
                while i < items.len()
                    invariant
                        i <= items@.len(),
                        ms == models_of_seq(items@),
                        ms.len() == items@.len(),
                        forall|q: int| 0 <= q < items@.len() ==> ms[q] == items@[q]@,
                        strings_view(out@) + comp_events(ms, i as int) == comp_events(ms, 0),
                        forall|e: Seq<char>|
                            events_contain(strings_view(out@), e) <==> exists|k: int|
                                0 <= k < i && comp_ev(ms[k]) == Some(e),
                    decreases items@.len() - i,
                {
                    let ghost before = strings_view(out@);
                    let ev: Option<&String> = match json_field(&items[i], "event_type") {
                        Some(v) => match v {
                            Json::Str(s) => Some(s),
                            _ => None,
                        },
                        None => None,
                    };
                    match ev {
                        Some(e) => {
                            if !crate::schema::vec_contains_str(&out, e.as_str()) {
                                proof {
                                    assert(forall|k: int|
                                        0 <= k < i ==> comp_ev(ms[k]) != Some(e@));
                                    assert(comp_events(ms, i as int) == seq![e@] + comp_events(
                                        ms,
                                        i as int + 1,
                                    ));
                                }
                                let ghost em = e@;
                                out.push(e.clone());
                                proof {
                                    assert(strings_view(out@) =~= before.push(em));
                                    assert(before.push(em) =~= before + seq![em]);
                                    assert((before + seq![em]) + comp_events(ms, i as int + 1)
                                        =~= before + comp_events(ms, i as int));
                                    assert forall|x: Seq<char>|
                                        events_contain(strings_view(out@), x) <==> exists|k: int|
                                            0 <= k < i + 1 && comp_ev(ms[k]) == Some(x) by {
                                        lemma_events_contain_push(before, em, x);
                                        if x == em {
                                            assert(comp_ev(ms[i as int]) == Some(x));
                                        }
                                        if exists|k: int| 0 <= k < i + 1 && comp_ev(ms[k])
                                            == Some(x) {
                                            let k = choose|k: int|
                                                0 <= k < i + 1 && comp_ev(ms[k]) == Some(x);
                                            if k < i {
                                                assert(events_contain(before, x));
                                            }
                                        }
                                    }
                                }
                            } else {
                                proof {
                                    assert(exists|k: int| 0 <= k < i && comp_ev(ms[k]) == Some(
                                        e@,
                                    ));
                                    assert(comp_events(ms, i as int) == comp_events(
                                        ms,
                                        i as int + 1,
                                    ));
                                    assert forall|x: Seq<char>|
                                        events_contain(strings_view(out@), x) <==> exists|k: int|
                                            0 <= k < i + 1 && comp_ev(ms[k]) == Some(x) by {
                                        if exists|k: int| 0 <= k < i + 1 && comp_ev(ms[k])
                                            == Some(x) {
                                            let k = choose|k: int|
                                                0 <= k < i + 1 && comp_ev(ms[k]) == Some(x);
                                            if k == i {
                                                assert(x == e@);
                                            }
                                        }
                                    }
                                }
                            }
                        },
                        None => {
                            proof {
                                assert(comp_events(ms, i as int) == comp_events(
                                    ms,
                                    i as int + 1,
                                ));
                                assert forall|x: Seq<char>|
                                    events_contain(strings_view(out@), x) <==> exists|k: int|
                                        0 <= k < i + 1 && comp_ev(ms[k]) == Some(x) by {
                                    if exists|k: int| 0 <= k < i + 1 && comp_ev(ms[k]) == Some(
                                        x,
                                    ) {
                                        let k = choose|k: int|
                                            0 <= k < i + 1 && comp_ev(ms[k]) == Some(x);
                                        assert(k < i);
                                    }
                                }
                            }
                        },
                    }
                    i = i + 1;
                }
                proof {
                    assert(comp_events(ms, items@.len() as int) =~= Seq::<Seq<char>>::empty());
                    assert(strings_view(out@) =~= comp_events(ms, 0));
                }
            },
            _ => {
                proof {
                    assert(strings_view(out@) =~= Seq::<Seq<char>>::empty());
                }
            },
        },
        None => {
            proof {
                assert(strings_view(out@) =~= Seq::<Seq<char>>::empty());
            }
        },
    }
    match json_field(trace, "event_type") {
        Some(v) => match v {
            Json::Str(s) => {
                if !crate::schema::vec_contains_str(&out, s.as_str()) {
                    let ghost before = strings_view(out@);
                    out.push(s.clone());
                    proof {
                        assert(strings_view(out@) =~= before.push(s@));
                    }
                }
            },
            _ => {},
        },
        None => {},
    }
    out
}

proof fn lemma_events_contain_push(s: Seq<Seq<char>>, x: Seq<char>, e: Seq<char>)
    ensures
        events_contain(s.push(x), e) == (events_contain(s, e) || e == x),
{
    if events_contain(s.push(x), e) {
        let i = choose|i: int| 0 <= i < s.push(x).len() && s.push(x)[i] == e;
        if i < s.len() {
            assert(s[i] == e);
        }
    }
    if events_contain(s, e) {
        let i = choose|i: int| 0 <= i < s.len() && s[i] == e;
        assert(s.push(x)[i] == e);
    }
    if e == x {
        assert(s.push(x)[s.len() as int] == e);
    }
}

// ---------------------------------------------------------------------------
// Schema validation
// ---------------------------------------------------------------------------

/// Mathematical form of a validation outcome.
#[verifier::ext_equal]
pub struct ValidationModel {
    pub version: Option<Seq<char>>,
    pub valid: bool,
    pub reason: Option<Seq<char>>,
    pub events: Seq<Seq<char>>,
}

/// Validation of one trace: an empty event set is rejected; an unloaded
/// catalog accepts with the `unknown` version; otherwise the first matching
/// schema decides, and no match is rejected.
pub open spec fn validate_of(tm: JsonModel, c: SchemaCacheModel) -> ValidationModel {
    let evs = trace_events_of(tm);
    if evs.len() == 0 {
        ValidationModel {
            version: None,
            valid: false,
            reason: Some("No event_types found"@),
            events: evs,
        }
    } else if !c.loaded {
        ValidationModel { version: Some("unknown"@), valid: true, reason: None, events: evs }
    } else {
        match detect_of(c.schemas, evs) {
            Some(s) => ValidationModel {
                version: Some(s.version),
                valid: true,
                reason: None,
                events: evs,
            },
            None => ValidationModel {
                version: None,
                valid: false,
                reason: Some("No matching schema for events"@),
                events: evs,
            },
        }
    }
}

/// Validate a trace's event set against the catalog.
pub fn validate_schema(trace: &Json, cache: &SchemaCache, ctx: &LogContext) -> (r:
    SchemaValidationResult)
    ensures
        ({
            let v = validate_of(trace@, cache@);
            &&& r.valid == v.valid
            &&& match (r.version, v.version) {
                (Some(a), Some(b)) => a@ == b,
                (None, None) => true,
                _ => false,
            }
            &&& match (r.reason, v.reason) {
                (Some(a), Some(b)) => a@ == b,
                (None, None) => true,
                _ => false,
            }
            &&& strings_view(r.event_types@) == v.events
        }),
{
    let all_events = collect_event_types(trace);
    if all_events.len() == 0 {
        proof {
            assert(strings_view(all_events@).len() == 0);
        }
        return SchemaValidationResult::invalid("No event_types found", all_events);
    }
    if !cache.is_loaded() {
        return SchemaValidationResult::valid("unknown", all_events);
    }
    match cache.detect_schema_version(&all_events, ctx) {
        Some(schema) => {
            let version = schema.version.clone();
            SchemaValidationResult::valid(version.as_str(), all_events)
        },
        None => SchemaValidationResult::invalid("No matching schema for events", all_events),
    }
}

// ---------------------------------------------------------------------------
// One trace
// ---------------------------------------------------------------------------

/// Mathematical form of one trace's verdict.
#[verifier::ext_equal]
pub struct TraceResultModel {
    pub trace_id: Seq<char>,
    pub destination: Seq<char>,
    pub schema_version: Option<Seq<char>>,
    pub accepted: bool,
    pub rejection_reason: Option<Seq<char>>,
    pub extracted_metadata: Map<Seq<char>, Seq<char>>,
}

/// The verdict for one trace.
#[derive(Debug)]
pub struct TraceResult {
    pub trace_id: String,
    pub destination: String,
    pub schema_version: Option<String>,
    pub accepted: bool,
    pub rejection_reason: Option<String>,
    pub extracted_metadata: StrMap,
}

impl View for TraceResult {
    type V = TraceResultModel;

    open spec fn view(&self) -> TraceResultModel {
        TraceResultModel {
            trace_id: self.trace_id@,
            destination: self.destination@,
            schema_version: match self.schema_version {
                Some(v) => Some(v@),
                None => None,
            },
            accepted: self.accepted,
            rejection_reason: match self.rejection_reason {
                Some(m) => Some(m@),
                None => None,
            },
            extracted_metadata: self.extracted_metadata@,
        }
    }
}

/// The counters at zero.
pub open spec fn zero_counts() -> PiiCounts {
    PiiCounts { emails: 0, phones: 0, ips: 0, urls: 0, ssns: 0, ccs: 0, fields_modified: 0 }
}

/// The whole state machine for one trace: parse; validate; connectivity
/// traces are accepted at once; others must carry a verifying signature, are
/// scrubbed at the `full_traces` tier, their metadata extracted and routed.
/// Every rejection is a malformed verdict with its reason.
pub open spec fn process_trace_of(
    text: Seq<char>,
    level: Seq<char>,
    sc: SchemaCacheModel,
    kc: KeyCacheModel,
) -> TraceResultModel {
    match parse_of(text) {
        None => TraceResultModel {
            trace_id: "unknown"@,
            destination: "malformed"@,
            schema_version: None,
            accepted: false,
            rejection_reason: Some("JSON parse error: "@ + parse_err_of(text)),
            extracted_metadata: Map::empty(),
        },
        Some(tm) => {
            let trace_id = match str_field_of(tm, "trace_id"@) {
                Some(t) => t,
                None => "unknown"@,
            };
            let v = validate_of(tm, sc);
            if !v.valid {
                TraceResultModel {
                    trace_id: trace_id,
                    destination: "malformed"@,
                    schema_version: None,
                    accepted: false,
                    rejection_reason: v.reason,
                    extracted_metadata: Map::empty(),
                }
            } else {
                let ver = match v.version {
                    Some(x) => x,
                    None => Seq::empty(),
                };
                if ver == "connectivity"@ {
                    TraceResultModel {
                        trace_id: trace_id,
                        destination: "connectivity"@,
                        schema_version: Some(ver),
                        accepted: true,
                        rejection_reason: None,
                        extracted_metadata: connectivity_md_of(tm),
                    }
                } else {
                    let sig = verify_trace_sig_of(tm, level, kc);
                    if !sig.verified {
                        TraceResultModel {
                            trace_id: trace_id,
                            destination: "malformed"@,
                            schema_version: Some(ver),
                            accepted: false,
                            rejection_reason: sig.error,
                            extracted_metadata: Map::empty(),
                        }
                    } else {
                        let tm2 = if level == "full_traces"@ {
                            scrub_model(tm, false, zero_counts()).0
                        } else {
                            tm
                        };
                        let md0 = extract_of(tm2, ver, sc);
                        let md1 = md0.insert("signature_verified"@, "true"@);
                        let md2 = match sig.key_id {
                            Some(k) => md1.insert("signature_key_id"@, k),
                            None => md1,
                        };
                        TraceResultModel {
                            trace_id: trace_id,
                            destination: decision_text(routing_of(md2, level)),
                            schema_version: Some(ver),
                            accepted: true,
                            rejection_reason: None,
                            extracted_metadata: md2,
                        }
                    }
                }
            }
        },
    }
}

/// Process one trace text into its verdict.
pub fn process_single_trace(
    batch_ctx: &BatchContext,
    schema_cache: &SchemaCache,
    key_cache: &PublicKeyCache,
    event_json: &str,
) -> (r: TraceResult)
    requires
        key_cache.wf(),
    ensures
        r@ == process_trace_of(event_json@, batch_ctx.trace_level@, schema_cache@, key_cache@),
{
    let trace: Json = match parse_json(event_json) {
        Ok(v) => v,
        Err(e) => {
            let mut reason: Vec<char> = Vec::new();
            append_chars(&mut reason, "JSON parse error: ");
            append_chars(&mut reason, e.as_str());
            return TraceResult {
                trace_id: "unknown".to_owned(),
                destination: "malformed".to_owned(),
                schema_version: None,
                accepted: false,
                rejection_reason: Some(chars_to_string(&reason)),
                extracted_metadata: StrMap::new(),
            };
        },
    };
    let trace_id: String = match json_field(&trace, "trace_id") {
        Some(v) => match v {
            Json::Str(s) => s.clone(),
            _ => "unknown".to_owned(),
        },
        None => "unknown".to_owned(),
    };
    let trace_ctx = batch_ctx.trace_context(trace_id.as_str());
    let log_ctx = trace_ctx.log_context();

    let schema_result = validate_schema(&trace, schema_cache, &log_ctx);
    if !schema_result.valid {
        return TraceResult {
            trace_id,
            destination: "malformed".to_owned(),
            schema_version: None,
            accepted: false,
            rejection_reason: schema_result.reason,
            extracted_metadata: StrMap::new(),
        };
    }
    let schema_version: String = match schema_result.version {
        Some(v) => v,
        None => String::new(),
    };

    if str_eq(schema_version.as_str(), "connectivity") {
        return TraceResult {
            trace_id,
            destination: "connectivity".to_owned(),
            schema_version: Some(schema_version),
            accepted: true,
            rejection_reason: None,
            extracted_metadata: extract_connectivity_metadata(&trace),
        };
    }

    let signature_result = verify_trace_signature(
        &trace,
        batch_ctx.trace_level.as_str(),
        key_cache,
        &log_ctx,
    );
    if !signature_result.verified {
        return TraceResult {
            trace_id,
            destination: "malformed".to_owned(),
            schema_version: Some(schema_version),
            accepted: false,
            rejection_reason: signature_result.error,
            extracted_metadata: StrMap::new(),
        };
    }

    let trace_to_process: Json = if str_eq(batch_ctx.trace_level.as_str(), "full_traces") {
        let scrubbed = scrub_pii(&trace, &log_ctx);
        scrubbed.0
    } else {
        trace.clone()
    };

    let sanitized_trace = sanitize_trace(&trace_to_process, &log_ctx);

    let mut extracted_metadata = extract_trace_metadata(
        &sanitized_trace,
        schema_version.as_str(),
        schema_cache,
        &log_ctx,
    );
    extracted_metadata.insert("signature_verified".to_owned(), "true".to_owned());
    match &signature_result.key_id {
        Some(key_id) => {
            extracted_metadata.insert("signature_key_id".to_owned(), key_id.clone());
        },
        None => {},
    }

    let routing = determine_routing(
        &extracted_metadata,
        batch_ctx.trace_level.as_str(),
        &log_ctx,
    );
    let destination = routing.as_str().to_owned();

    TraceResult {
        trace_id,
        destination,
        schema_version: Some(schema_version),
        accepted: true,
        rejection_reason: None,
        extracted_metadata,
    }
}

// ---------------------------------------------------------------------------
// The batch
// ---------------------------------------------------------------------------

/// The verdicts of a batch and its counters.
#[derive(Debug)]
pub struct BatchResult {
    pub received_count: usize,
    pub accepted_count: usize,
    pub rejected_count: usize,
    pub traces: Vec<TraceResult>,
}

/// How many of the first `i` traces are accepted.
pub open spec fn accepted_upto(
    events: Seq<String>,
    level: Seq<char>,
    sc: SchemaCacheModel,
    kc: KeyCacheModel,
    i: int,
) -> int
    decreases i,
{
    if i <= 0 {
        0
    } else {
        accepted_upto(events, level, sc, kc, i - 1) + (
        if process_trace_of(events[i - 1]@, level, sc, kc).accepted {
            1int
        } else {
            0int
        })
    }
}

/// Process a batch: every trace independently, verdicts in input order, and
/// the received count split exactly into accepted and rejected.
pub fn process_batch(
    ctx: &BatchContext,
    schema_cache: &SchemaCache,
    key_cache: &PublicKeyCache,
    events: Vec<String>,
) -> (r: BatchResult)
    requires
        key_cache.wf(),
    ensures
        r.received_count == events@.len(),
        r.accepted_count + r.rejected_count == r.received_count,
        r.accepted_count as int == accepted_upto(
            events@,
            ctx.trace_level@,
            schema_cache@,
            key_cache@,
            events@.len() as int,
        ),
        r.traces@.len() == events@.len(),
        forall|i: int| 0 <= i < events@.len() ==> (#[trigger] r.traces@[i])@
            == process_trace_of(events@[i]@, ctx.trace_level@, schema_cache@, key_cache@),
{
    let mut results: Vec<TraceResult> = Vec::new();
    let mut accepted: usize = 0;
    let mut rejected: usize = 0;
    let mut i: usize = 0;
    while i < events.len()
        invariant
            i <= events@.len(),
            key_cache.wf(),
            results@.len() == i as int,
            accepted + rejected == i,
            accepted as int == accepted_upto(
                events@,
                ctx.trace_level@,
                schema_cache@,
                key_cache@,
                i as int,
            ),
            forall|k: int| 0 <= k < i ==> (#[trigger] results@[k])@ == process_trace_of(
                events@[k]@,
                ctx.trace_level@,
                schema_cache@,
                key_cache@,
            ),
        decreases events@.len() - i,
    {
        let result = process_single_trace(ctx, schema_cache, key_cache, events[i].as_str());
        if result.accepted {
            accepted = accepted + 1;
        } else {
            rejected = rejected + 1;
        }
        results.push(result);
        i = i + 1;
    }
    BatchResult {
        received_count: events.len(),
        accepted_count: accepted,
        rejected_count: rejected,
        traces: results,
    }
}

// ---------------------------------------------------------------------------
// Laws
// ---------------------------------------------------------------------------

/// Determinism: two runs over the same trace texts, the same tier and the
/// same catalog snapshots yield identical verdicts, verdict by verdict.
pub proof fn lemma_processing_deterministic(
    events: Seq<String>,
    level: Seq<char>,
    sc: SchemaCacheModel,
    kc: KeyCacheModel,
    a: Seq<TraceResultModel>,
    b: Seq<TraceResultModel>,
)
    requires
        a.len() == events.len(),
        b.len() == events.len(),
        forall|i: int| 0 <= i < events.len() ==> a[i] == process_trace_of(
            events[i]@,
            level,
            sc,
            kc,
        ),
        forall|i: int| 0 <= i < events.len() ==> b[i] == process_trace_of(
            events[i]@,
            level,
            sc,
            kc,
        ),
    ensures
        a == b,
{
    assert(a =~= b);
}

/// Tier gating: at the `generic` tier the mock destination is never the
/// verdict of any trace, whatever the catalogs hold; scrubbing feeds
/// extraction exactly at the `full_traces` tier.
pub proof fn lemma_tier_gating(text: Seq<char>, sc: SchemaCacheModel, kc: KeyCacheModel)
    ensures
        process_trace_of(text, "generic"@, sc, kc).destination != "mock"@,
{
    reveal_strlit("mock");
    reveal_strlit("malformed");
    reveal_strlit("connectivity");
    reveal_strlit("production");
    assert forall|md: Map<Seq<char>, Seq<char>>|
        #[trigger] decision_text(routing_of(md, "generic"@)) != "mock"@ by {
        crate::routing::lemma_generic_never_mock(md);
        match routing_of(md, "generic"@) {
            crate::routing::RoutingModel::Production => {
                assert("production"@.len() == 10);
            },
            crate::routing::RoutingModel::Mock => {},
            crate::routing::RoutingModel::Connectivity => {
                assert("connectivity"@.len() == 12);
            },
            crate::routing::RoutingModel::Malformed(_) => {
                assert("malformed"@.len() == 9);
            },
        }
    }
    assert("malformed"@.len() == 9);
    assert("connectivity"@.len() == 12);
    assert("mock"@.len() == 4);
}

/// Snapshot isolation: a verdict is a function of the snapshots' contents
/// alone, so two catalogs holding one snapshot decide every trace alike; a
/// refresh can only be seen between whole verdicts, never inside one.
pub proof fn lemma_snapshot_isolation(
    text: Seq<char>,
    level: Seq<char>,
    sc1: SchemaCacheModel,
    sc2: SchemaCacheModel,
    kc1: KeyCacheModel,
    kc2: KeyCacheModel,
)
    requires
        sc1 == sc2,
        kc1 == kc2,
    ensures
        process_trace_of(text, level, sc1, kc1) == process_trace_of(text, level, sc2, kc2),
{
}

} // verus!
