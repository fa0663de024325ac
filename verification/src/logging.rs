//! Context labels carried through a batch: the batch id and, per trace, the
//! trace id, rendered as a bracketed prefix.

use vstd::prelude::*;

use crate::text::{append_chars, chars_to_string};

verus! {

/// Rendered form of a context: `[batch=B]`, with ` [trace=T]` when a trace
/// id is set.
pub open spec fn context_text(batch_id: Seq<char>, trace_id: Option<Seq<char>>) -> Seq<char> {
    let head = "[batch="@ + batch_id + "]"@;
    match trace_id {
        Some(t) => head + " [trace="@ + t + "]"@,
        None => head,
    }
}

/// Logging context for a batch, and optionally one trace within it.
#[derive(Debug)]
pub struct LogContext {
    pub batch_id: String,
    pub trace_id: Option<String>,
}

impl LogContext {
    /// A context naming the batch alone.
    pub fn new(batch_id: &str) -> (r: LogContext)
        ensures
            r.batch_id@ == batch_id@,
            r.trace_id is None,
    {
        LogContext { batch_id: batch_id.to_owned(), trace_id: None }
    }

    /// The same context narrowed to one trace.
    pub fn with_trace(&self, trace_id: &str) -> (r: LogContext)
        ensures
            r.batch_id@ == self.batch_id@,
            r.trace_id matches Some(t) && t@ == trace_id@,
    {
        LogContext { batch_id: self.batch_id.clone(), trace_id: Some(trace_id.to_owned()) }
    }

    /// The bracketed text of this context.
    pub fn render(&self) -> (r: String)
        ensures
            r@ == context_text(
                self.batch_id@,
                match self.trace_id {
                    Some(t) => Some(t@),
                    None => None,
                },
            ),
    {
        let mut out: Vec<char> = Vec::new();
        append_chars(&mut out, "[batch=");
        append_chars(&mut out, self.batch_id.as_str());
        append_chars(&mut out, "]");
        match &self.trace_id {
            Some(t) => {
                append_chars(&mut out, " [trace=");
                append_chars(&mut out, t.as_str());
                append_chars(&mut out, "]");
            },
            None => {},
        }
        let r = chars_to_string(&out);
        proof {
            assert(r@ =~= context_text(
                self.batch_id@,
                match self.trace_id {
                    Some(t) => Some(t@),
                    None => None,
                },
            ));
        }
        r
    }
}

} // verus!
