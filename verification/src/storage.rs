//! SQL statement builders and storage-facing record shapes.  The statements
//! are handed to an outside persistence layer; nothing here talks to a
//! database.

use vstd::prelude::*;

use crate::strmap::StrMap;
use crate::text::{append_chars, chars_to_string};

verus! {

/// A trace verdict shaped for storage.
#[derive(Debug)]
pub struct TraceRecord {
    pub trace_id: String,
    pub schema_version: Option<String>,
    pub trace_level: String,
    pub batch_timestamp: String,
    pub consent_timestamp: Option<String>,
    pub metadata: StrMap,
    pub signature: Option<String>,
    pub signature_key_id: Option<String>,
    pub signature_verified: bool,
    pub pii_scrubbed: bool,
    pub original_content_hash: Option<String>,
}

/// A connectivity event shaped for storage.
#[derive(Debug)]
pub struct ConnectivityRecord {
    pub trace_id: String,
    pub event_type: String,
    pub agent_id: Option<String>,
    pub agent_name: Option<String>,
    pub agent_id_hash: Option<String>,
    pub event_data: String,
    pub signature: Option<String>,
    pub signature_key_id: Option<String>,
    pub signature_verified: bool,
    pub consent_timestamp: Option<String>,
    pub trace_level: String,
}

/// A rejected trace shaped for storage.
#[derive(Debug)]
pub struct MalformedRecord {
    pub trace_id: String,
    pub content_hash: String,
    pub rejection_reason: String,
    pub event_types: Vec<String>,
    pub trace_level: String,
    pub received_at: String,
}

/// The column names and statement placeholders of the trace table.
pub open spec fn trace_columns() -> Seq<(Seq<char>, Seq<char>)> {
    seq![
        ("trace_id"@, "$1"@),
        ("timestamp"@, "$2"@),
        ("trace_level"@, "$3"@),
        ("schema_version"@, "$4"@),
        ("batch_timestamp"@, "$5"@),
        ("consent_timestamp"@, "$6"@),
        ("signature"@, "$7"@),
        ("signature_key_id"@, "$8"@),
        ("signature_verified"@, "$9"@),
        ("pii_scrubbed"@, "$10"@),
        ("original_content_hash"@, "$11"@),
        ("thought_id"@, "$12"@),
        ("thought_type"@, "$13"@),
        ("thought_depth"@, "$14"@),
        ("task_id"@, "$15"@),
        ("task_description"@, "$16"@),
        ("started_at"@, "$17"@),
        ("agent_name"@, "$18"@),
        ("cognitive_state"@, "$19"@),
        ("csdma_plausibility"@, "$20"@),
        ("csdma_confidence"@, "$21"@),
        ("dsdma_alignment"@, "$22"@),
        ("dsdma_confidence"@, "$23"@),
        ("pdma_stakeholder_score"@, "$24"@),
        ("pdma_conflict_detected"@, "$25"@),
        ("idma_k_eff"@, "$26"@),
        ("idma_correlation_risk"@, "$27"@),
        ("idma_fragility_flag"@, "$28"@),
        ("idma_phase"@, "$29"@),
        ("idma_confidence"@, "$30"@),
        ("selected_action"@, "$31"@),
        ("action_rationale"@, "$32"@),
        ("aspdma_confidence"@, "$33"@),
        ("tool_name"@, "$34"@),
        ("tool_parameters"@, "$35"@),
        ("tsaspdma_reasoning"@, "$36"@),
        ("tsaspdma_approved"@, "$37"@),
        ("conscience_passed"@, "$38"@),
        ("conscience_override"@, "$39"@),
        ("conscience_override_reason"@, "$40"@),
        ("epistemic_humility"@, "$41"@),
        ("entropy_awareness"@, "$42"@),
        ("coherence_alignment"@, "$43"@),
        ("action_success"@, "$44"@),
        ("action_type"@, "$45"@),
        ("tokens_used"@, "$46"@),
        ("cost_usd"@, "$47"@),
        ("completed_at"@, "$48"@),
        ("positive_moment"@, "$49"@),
        ("models_used"@, "$50"@),
        ("api_bases_used"@, "$51"@),
        ("dma_results"@, "$52"@),
        ("aspdma_result"@, "$53"@),
        ("idma_result"@, "$54"@),
        ("tsaspdma_result"@, "$55"@),
        ("conscience_result"@, "$56"@),
        ("action_result"@, "$57"@),
        ("initial_context"@, "$58"@),
        ("system_snapshot"@, "$59"@),
        ("gathered_context"@, "$60"@)
    ]
}

/// The trace table's columns, paired with their placeholders.
pub fn get_trace_columns() -> (r: Vec<(&'static str, &'static str)>)
    ensures
        r@.len() == 60,
        forall|i: int| 0 <= i < 60 ==> ((#[trigger] r@[i]).0@, r@[i].1@) == trace_columns()[i],
{
    let r: Vec<(&'static str, &'static str)> = vec![
        ("trace_id", "$1"),
        ("timestamp", "$2"),
        ("trace_level", "$3"),
        ("schema_version", "$4"),
        ("batch_timestamp", "$5"),
        ("consent_timestamp", "$6"),
        ("signature", "$7"),
        ("signature_key_id", "$8"),
        ("signature_verified", "$9"),
        ("pii_scrubbed", "$10"),
        ("original_content_hash", "$11"),
        ("thought_id", "$12"),
        ("thought_type", "$13"),
        ("thought_depth", "$14"),
        ("task_id", "$15"),
        ("task_description", "$16"),
        ("started_at", "$17"),
        ("agent_name", "$18"),
        ("cognitive_state", "$19"),
        ("csdma_plausibility", "$20"),
        ("csdma_confidence", "$21"),
        ("dsdma_alignment", "$22"),
        ("dsdma_confidence", "$23"),
        ("pdma_stakeholder_score", "$24"),
        ("pdma_conflict_detected", "$25"),
        ("idma_k_eff", "$26"),
        ("idma_correlation_risk", "$27"),
        ("idma_fragility_flag", "$28"),
        ("idma_phase", "$29"),
        ("idma_confidence", "$30"),
        ("selected_action", "$31"),
        ("action_rationale", "$32"),
        ("aspdma_confidence", "$33"),
        ("tool_name", "$34"),
        ("tool_parameters", "$35"),
        ("tsaspdma_reasoning", "$36"),
        ("tsaspdma_approved", "$37"),
        ("conscience_passed", "$38"),
        ("conscience_override", "$39"),
        ("conscience_override_reason", "$40"),
        ("epistemic_humility", "$41"),
        ("entropy_awareness", "$42"),
        ("coherence_alignment", "$43"),
        ("action_success", "$44"),
        ("action_type", "$45"),
        ("tokens_used", "$46"),
        ("cost_usd", "$47"),
        ("completed_at", "$48"),
        ("positive_moment", "$49"),
        ("models_used", "$50"),
        ("api_bases_used", "$51"),
        ("dma_results", "$52"),
        ("aspdma_result", "$53"),
        ("idma_result", "$54"),
        ("tsaspdma_result", "$55"),
        ("conscience_result", "$56"),
        ("action_result", "$57"),
        ("initial_context", "$58"),
        ("system_snapshot", "$59"),
        ("gathered_context", "$60")
    ];
    proof {
        assert forall|i: int| 0 <= i < 60 implies ((#[trigger] r@[i]).0@, r@[i].1@)
            == trace_columns()[i] by {
            assert(trace_columns()[i] == trace_columns()[i]);
        }
    }
    r
}

/// The parts joined with a comma and a space.
pub open spec fn comma_joined(parts: Seq<Seq<char>>, i: int) -> Seq<char>
    decreases parts.len() - i,
{
    if i < 0 || i >= parts.len() {
        Seq::empty()
    } else {
        (if i == 0 {
            Seq::empty()
        } else {
            seq![',', ' ']
        }) + parts[i] + comma_joined(parts, i + 1)
    }
}

pub open spec fn column_names(cols: Seq<(Seq<char>, Seq<char>)>) -> Seq<Seq<char>> {
    cols.map_values(|c: (Seq<char>, Seq<char>)| c.0)
}

pub open spec fn column_placeholders(cols: Seq<(Seq<char>, Seq<char>)>) -> Seq<Seq<char>> {
    cols.map_values(|c: (Seq<char>, Seq<char>)| c.1)
}

/// The insert statement for the trace table.
pub open spec fn trace_insert_text() -> Seq<char> {
    "INSERT INTO cirislens.accord_traces ("@ + comma_joined(column_names(trace_columns()), 0)
        + ") VALUES ("@ + comma_joined(column_placeholders(trace_columns()), 0)
        + ") ON CONFLICT (trace_id) DO NOTHING"@
}

fn push_joined_names(out: &mut Vec<char>, cols: &Vec<(&'static str, &'static str)>)
    requires
        cols@.len() == 60,
        forall|i: int| 0 <= i < 60 ==> ((#[trigger] cols@[i]).0@, cols@[i].1@)
            == trace_columns()[i],
    ensures
        final(out)@ == old(out)@ + comma_joined(column_names(trace_columns()), 0),
{
    let ghost names = column_names(trace_columns());
    let mut i: usize = 0;
    proof {
        assert(out@ + comma_joined(names, 0) =~= old(out)@ + comma_joined(names, 0));
    }
    while i < cols.len()
        invariant
            i <= cols@.len(),
            cols@.len() == 60,
            names == column_names(trace_columns()),
            forall|q: int| 0 <= q < 60 ==> ((#[trigger] cols@[q]).0@, cols@[q].1@)
                == trace_columns()[q],
            out@ + comma_joined(names, i as int) == old(out)@ + comma_joined(names, 0),
        decreases cols@.len() - i,
    {
        let ghost before = out@;
        let ghost lead: Seq<char> = if i == 0 {
            Seq::empty()
        } else {
            seq![',', ' ']
        };
        if i > 0 {
            out.push(',');
            out.push(' ');
        }
        proof {
            assert(out@ =~= before + lead);
        }
        append_chars(out, cols[i].0);
        proof {
            assert(names[i as int] == trace_columns()[i as int].0);
            assert(out@ + comma_joined(names, i as int + 1) =~= before + comma_joined(
                names,
                i as int,
            ));
        }
        i = i + 1;
    }
    proof {
        assert(comma_joined(names, 60) =~= Seq::<char>::empty());
        assert(out@ =~= old(out)@ + comma_joined(names, 0));
    }
}

fn push_joined_placeholders(out: &mut Vec<char>, cols: &Vec<(&'static str, &'static str)>)
    requires
        cols@.len() == 60,
        forall|i: int| 0 <= i < 60 ==> ((#[trigger] cols@[i]).0@, cols@[i].1@)
            == trace_columns()[i],
    ensures
        final(out)@ == old(out)@ + comma_joined(column_placeholders(trace_columns()), 0),
{
    let ghost phs = column_placeholders(trace_columns());
    let mut i: usize = 0;
    proof {
        assert(out@ + comma_joined(phs, 0) =~= old(out)@ + comma_joined(phs, 0));
    }
    while i < cols.len()
        invariant
            i <= cols@.len(),
            cols@.len() == 60,
            phs == column_placeholders(trace_columns()),
            forall|q: int| 0 <= q < 60 ==> ((#[trigger] cols@[q]).0@, cols@[q].1@)
                == trace_columns()[q],
            out@ + comma_joined(phs, i as int) == old(out)@ + comma_joined(phs, 0),
        decreases cols@.len() - i,
    {
        let ghost before = out@;
        let ghost lead: Seq<char> = if i == 0 {
            Seq::empty()
        } else {
            seq![',', ' ']
        };
        if i > 0 {
            out.push(',');
            out.push(' ');
        }
        proof {
            assert(out@ =~= before + lead);
        }
        append_chars(out, cols[i].1);
        proof {
            assert(phs[i as int] == trace_columns()[i as int].1);
            assert(out@ + comma_joined(phs, i as int + 1) =~= before + comma_joined(
                phs,
                i as int,
            ));
        }
        i = i + 1;
    }
    proof {
        assert(comma_joined(phs, 60) =~= Seq::<char>::empty());
        assert(out@ =~= old(out)@ + comma_joined(phs, 0));
    }
}

/// Build the insert statement for the trace table.
pub fn build_trace_insert() -> (r: String)
    ensures
        r@ == trace_insert_text(),
{
    let columns = get_trace_columns();
    let mut out: Vec<char> = Vec::new();
    append_chars(&mut out, "INSERT INTO cirislens.accord_traces (");
    push_joined_names(&mut out, &columns);
    append_chars(&mut out, ") VALUES (");
    push_joined_placeholders(&mut out, &columns);
    append_chars(&mut out, ") ON CONFLICT (trace_id) DO NOTHING");
    let r = chars_to_string(&out);
    proof {
        assert(r@ =~= trace_insert_text());
    }
    r
}

/// The insert statement for connectivity events.
pub fn build_connectivity_insert() -> (r: &'static str)
    ensures
        r@ == "INSERT INTO cirislens.connectivity_events (trace_id, timestamp, event_type, agent_id, agent_name, agent_id_hash, event_data, signature, signature_key_id, signature_verified, consent_timestamp, trace_level) VALUES ($1, $2, $3, $4, $5, $6, $7, $8, $9, $10, $11, $12)"@,
{
    "INSERT INTO cirislens.connectivity_events (trace_id, timestamp, event_type, agent_id, agent_name, agent_id_hash, event_data, signature, signature_key_id, signature_verified, consent_timestamp, trace_level) VALUES ($1, $2, $3, $4, $5, $6, $7, $8, $9, $10, $11, $12)"
}

/// The insert statement for malformed traces.
pub fn build_malformed_insert() -> (r: &'static str)
    ensures
        r@ == "INSERT INTO cirislens.malformed_traces (trace_id, content_hash, rejection_reason, event_types, trace_level, received_at) VALUES ($1, $2, $3, $4, $5, $6)"@,
{
    "INSERT INTO cirislens.malformed_traces (trace_id, content_hash, rejection_reason, event_types, trace_level, received_at) VALUES ($1, $2, $3, $4, $5, $6)"
}

} // verus!
