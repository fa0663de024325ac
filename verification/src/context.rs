//! Batch and trace context: the generated batch id, the timestamps as given,
//! the privacy tier, and correlation metadata.

use vstd::prelude::*;

use crate::logging::LogContext;
use crate::text::append_chars;
use crate::text::chars_to_string;
use vstd::string::StrSliceExecFns;

verus! {

/// Relies on uuid::Uuid::new_v4 and its hyphenated text: a fresh random
/// identifier of 36 characters; nothing else is promised of its value.
#[verifier::external_body]
fn fresh_uuid_string() -> (r: String)
    ensures
        r@.len() == 36,
{
    uuid::Uuid::new_v4().to_string()
}

/// Context for one batch of traces.
#[derive(Debug)]
pub struct BatchContext {
    pub batch_id: String,
    pub batch_timestamp: String,
    pub consent_timestamp: Option<String>,
    pub trace_level: String,
    pub correlation_metadata: Option<String>,
}

impl BatchContext {
    /// A fresh context: the batch id is `batch-` and eight characters of a
    /// fresh identifier; the timestamps are carried as given.
    pub fn new(
        batch_timestamp: &str,
        consent_timestamp: Option<&str>,
        trace_level: &str,
        correlation_metadata: Option<&str>,
    ) -> (r: BatchContext)
        ensures
            r.batch_id@.len() == 14,
            r.batch_id@.take(6) == "batch-"@,
            r.batch_timestamp@ == batch_timestamp@,
            match (r.consent_timestamp, consent_timestamp) {
                (Some(a), Some(b)) => a@ == b@,
                (None, None) => true,
                _ => false,
            },
            r.trace_level@ == trace_level@,
            match (r.correlation_metadata, correlation_metadata) {
                (Some(a), Some(b)) => a@ == b@,
                (None, None) => true,
                _ => false,
            },
    {
        let uuid_text = fresh_uuid_string();
        let short = uuid_text.as_str().substring_char(0, 8);
        let mut id_chars: Vec<char> = Vec::new();
        append_chars(&mut id_chars, "batch-");
        append_chars(&mut id_chars, short);
        let batch_id = chars_to_string(&id_chars);
        proof {
            reveal_strlit("batch-");
            assert(batch_id@.len() == 14);
            assert(batch_id@.take(6) =~= "batch-"@);
        }
        BatchContext {
            batch_id,
            batch_timestamp: batch_timestamp.to_owned(),
            consent_timestamp: match consent_timestamp {
                Some(t) => Some(t.to_owned()),
                None => None,
            },
            trace_level: trace_level.to_owned(),
            correlation_metadata: match correlation_metadata {
                Some(m) => Some(m.to_owned()),
                None => None,
            },
        }
    }

    /// The context of one trace within this batch.
    pub fn trace_context(&self, trace_id: &str) -> (r: TraceContext)
        ensures
            r.batch_id@ == self.batch_id@,
            r.trace_id@ == trace_id@,
            r.trace_level@ == self.trace_level@,
    {
        TraceContext {
            batch_id: self.batch_id.clone(),
            trace_id: trace_id.to_owned(),
            trace_level: self.trace_level.clone(),
        }
    }
}

/// Context for one trace within a batch.
#[derive(Debug)]
pub struct TraceContext {
    pub batch_id: String,
    pub trace_id: String,
    pub trace_level: String,
}

impl TraceContext {
    /// The logging context of this trace.
    pub fn log_context(&self) -> (r: LogContext)
        ensures
            r.batch_id@ == self.batch_id@,
            r.trace_id matches Some(t) && t@ == self.trace_id@,
    {
        LogContext::new(self.batch_id.as_str()).with_trace(self.trace_id.as_str())
    }
}

} // verus!
