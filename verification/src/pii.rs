//! PII scrubbing, applied at the strictest privacy tier.
//!
//! Scrubbing walks the trace; under a key on the sensitive-field list the
//! whole subtree is scanned and every string in it is rewritten: emails,
//! phone numbers, IPv4 addresses, URLs, SSNs and credit card numbers each
//! give way to a placeholder.  Strings outside listed fields are left alone,
//! and non-string leaves are never rewritten.

use vstd::prelude::*;

use crate::canonical::{encoded, json_to_string};
use crate::json::{entry_models_of, models_of_seq, Json, JsonModel};
use crate::logging::LogContext;
use crate::pattern::{regex_replace, regex_replace_of};
use crate::text::str_eq;

verus! {

/// The fields scrubbed for PII at the strictest tier.
pub open spec fn is_pii_target(k: Seq<char>) -> bool {
    ||| k == "task_description"@
    ||| k == "initial_context"@
    ||| k == "system_snapshot"@
    ||| k == "gathered_context"@
    ||| k == "relevant_memories"@
    ||| k == "conversation_history"@
    ||| k == "reasoning"@
    ||| k == "prompt_used"@
    ||| k == "combined_analysis"@
    ||| k == "action_rationale"@
    ||| k == "reasoning_summary"@
    ||| k == "action_parameters"@
    ||| k == "aspdma_prompt"@
    ||| k == "conscience_override_reason"@
    ||| k == "epistemic_data"@
    ||| k == "updated_status_content"@
    ||| k == "entropy_reason"@
    ||| k == "coherence_reason"@
    ||| k == "optimization_veto_justification"@
    ||| k == "epistemic_humility_justification"@
    ||| k == "execution_error"@
}

/// Whether a field name is on the sensitive-field list.
pub fn is_pii_target_field(k: &str) -> (r: bool)
    ensures
        r == is_pii_target(k@),
{
    str_eq(k, "task_description") || str_eq(k, "initial_context") || str_eq(k, "system_snapshot")
        || str_eq(k, "gathered_context") || str_eq(k, "relevant_memories") || str_eq(
        k,
        "conversation_history",
    ) || str_eq(k, "reasoning") || str_eq(k, "prompt_used") || str_eq(k, "combined_analysis")
        || str_eq(k, "action_rationale") || str_eq(k, "reasoning_summary") || str_eq(
        k,
        "action_parameters",
    ) || str_eq(k, "aspdma_prompt") || str_eq(k, "conscience_override_reason") || str_eq(
        k,
        "epistemic_data",
    ) || str_eq(k, "updated_status_content") || str_eq(k, "entropy_reason") || str_eq(
        k,
        "coherence_reason",
    ) || str_eq(k, "optimization_veto_justification") || str_eq(
        k,
        "epistemic_humility_justification",
    ) || str_eq(k, "execution_error")
}

// ---------------------------------------------------------------------------
// Counters
// ---------------------------------------------------------------------------

/// Saturating addition at the machine's top.
pub open spec fn usat(a: int, b: int) -> int {
    if a + b > usize::MAX {
        usize::MAX as int
    } else {
        a + b
    }
}

/// Saturating addition of machine counters.
pub fn sat_add(a: usize, b: usize) -> (r: usize)
    ensures
        r as int == usat(a as int, b as int),
{
    if b > usize::MAX - a {
        usize::MAX
    } else {
        a + b
    }
}

/// Mathematical form of the scrub counters.
#[verifier::ext_equal]
pub struct PiiCounts {
    pub emails: int,
    pub phones: int,
    pub ips: int,
    pub urls: int,
    pub ssns: int,
    pub ccs: int,
    pub fields_modified: int,
}

/// How many entities of each kind were scrubbed, and how many listed fields
/// changed.
#[derive(Debug)]
pub struct PiiScrubResult {
    pub emails_found: usize,
    pub phones_found: usize,
    pub ips_found: usize,
    pub urls_found: usize,
    pub ssns_found: usize,
    pub ccs_found: usize,
    pub fields_modified: usize,
}

impl View for PiiScrubResult {
    type V = PiiCounts;

    open spec fn view(&self) -> PiiCounts {
        PiiCounts {
            emails: self.emails_found as int,
            phones: self.phones_found as int,
            ips: self.ips_found as int,
            urls: self.urls_found as int,
            ssns: self.ssns_found as int,
            ccs: self.ccs_found as int,
            fields_modified: self.fields_modified as int,
        }
    }
}

impl Default for PiiScrubResult {
    /// All counters at zero.
    fn default() -> (r: PiiScrubResult)
        ensures
            r@ == (PiiCounts {
                emails: 0,
                phones: 0,
                ips: 0,
                urls: 0,
                ssns: 0,
                ccs: 0,
                fields_modified: 0,
            }),
    {
        PiiScrubResult {
            emails_found: 0,
            phones_found: 0,
            ips_found: 0,
            urls_found: 0,
            ssns_found: 0,
            ccs_found: 0,
            fields_modified: 0,
        }
    }
}

/// Sum of the entity counters, saturating at the machine's top.
pub open spec fn total_of(c: PiiCounts) -> int {
    usat(usat(usat(usat(usat(c.emails, c.phones), c.ips), c.urls), c.ssns), c.ccs)
}

impl PiiScrubResult {
    /// How many entities were scrubbed in all.
    pub fn total_entities(&self) -> (r: usize)
        ensures
            r as int == total_of(self@),
    {
        sat_add(
            sat_add(
                sat_add(sat_add(sat_add(self.emails_found, self.phones_found), self.ips_found),
                self.urls_found),
                self.ssns_found,
            ),
            self.ccs_found,
        )
    }
}

// ---------------------------------------------------------------------------
// Scrubbing one string
// ---------------------------------------------------------------------------

/// One pattern pass: the rewritten text and the number of matches; an
/// invalid pattern changes nothing.
pub open spec fn scrub_one(p: Seq<char>, rep: Seq<char>, s: Seq<char>) -> (Seq<char>, int) {
    match regex_replace_of(p, s, rep) {
        Some(t) => (t.0, t.1 as int),
        None => (s, 0),
    }
}

/// The six passes in order, each over the already-rewritten text, with the
/// counters added on saturating.
pub open spec fn scrub_string_of(s: Seq<char>, acc: PiiCounts) -> (Seq<char>, PiiCounts) {
    let e = scrub_one(r"[a-zA-Z0-9._%+-]+@[a-zA-Z0-9.-]+\.[a-zA-Z]{2,}"@, "[EMAIL]"@, s);
    let p = scrub_one(
        r"(?:\+?1[-.\s]?)?\(?[0-9]{3}\)?[-.\s]?[0-9]{3}[-.\s]?[0-9]{4}"@,
        "[PHONE]"@,
        e.0,
    );
    let i = scrub_one(r"\b(?:\d{1,3}\.){3}\d{1,3}\b"@, "[IP_ADDRESS]"@, p.0);
    let u = scrub_one(r"https?://[^\s<>]+"@, "[URL]"@, i.0);
    let n = scrub_one(r"\b\d{3}-\d{2}-\d{4}\b"@, "[SSN]"@, u.0);
    let c = scrub_one(r"\b(?:\d{4}[-\s]?){3}\d{4}\b"@, "[CREDIT_CARD]"@, n.0);
    (
        c.0,
        PiiCounts {
            emails: usat(acc.emails, e.1),
            phones: usat(acc.phones, p.1),
            ips: usat(acc.ips, i.1),
            urls: usat(acc.urls, u.1),
            ssns: usat(acc.ssns, n.1),
            ccs: usat(acc.ccs, c.1),
            fields_modified: acc.fields_modified,
        },
    )
}

fn scrub_step(pattern: &str, rep: &str, s: String) -> (r: (String, usize))
    ensures
        (r.0@, r.1 as int) == scrub_one(pattern@, rep@, s@),
{
    match regex_replace(pattern, s.as_str(), rep) {
        Some(t) => t,
        None => (s, 0),
    }
}

/// Scrub one string, adding what was found to the counters.
pub fn scrub_string(s: &str, result: &mut PiiScrubResult) -> (r: String)
    ensures
        ({
            let t = scrub_string_of(s@, old(result)@);
            r@ == t.0 && final(result)@ == t.1
        }),
{
    let r1 = scrub_step(r"[a-zA-Z0-9._%+-]+@[a-zA-Z0-9.-]+\.[a-zA-Z]{2,}", "[EMAIL]", s.to_owned());
    result.emails_found = sat_add(result.emails_found, r1.1);
    let r2 = scrub_step(r"(?:\+?1[-.\s]?)?\(?[0-9]{3}\)?[-.\s]?[0-9]{3}[-.\s]?[0-9]{4}", "[PHONE]", r1.0);
    result.phones_found = sat_add(result.phones_found, r2.1);
    let r3 = scrub_step(r"\b(?:\d{1,3}\.){3}\d{1,3}\b", "[IP_ADDRESS]", r2.0);
    result.ips_found = sat_add(result.ips_found, r3.1);
    let r4 = scrub_step(r"https?://[^\s<>]+", "[URL]", r3.0);
    result.urls_found = sat_add(result.urls_found, r4.1);
    let r5 = scrub_step(r"\b\d{3}-\d{2}-\d{4}\b", "[SSN]", r4.0);
    result.ssns_found = sat_add(result.ssns_found, r5.1);
    let r6 = scrub_step(r"\b(?:\d{4}[-\s]?){3}\d{4}\b", "[CREDIT_CARD]", r5.0);
    result.ccs_found = sat_add(result.ccs_found, r6.1);
    r6.0
}

// ---------------------------------------------------------------------------
// Scrubbing a value
// ---------------------------------------------------------------------------

/// Scrub a value: strings are rewritten only while under a listed field;
/// entering a listed field turns scanning on for its whole subtree; a listed
/// field whose serialized value changed counts as modified.
pub open spec fn scrub_model(m: JsonModel, scanning: bool, acc: PiiCounts) -> (
    JsonModel,
    PiiCounts,
)
    decreases m, 0int,
{
    match m {
        JsonModel::Str(s) => {
            if scanning {
                let t = scrub_string_of(s, acc);
                (JsonModel::Str(t.0), t.1)
            } else {
                (m, acc)
            }
        },
        JsonModel::Arr(items) => {
            let t = scrub_items(items, scanning, acc, 0);
            (JsonModel::Arr(t.0), t.1)
        },
        JsonModel::Obj(entries) => {
            let t = scrub_entries(entries, scanning, acc, 0);
            (JsonModel::Obj(t.0), t.1)
        },
        _ => (m, acc),
    }
}

pub open spec fn scrub_items(items: Seq<JsonModel>, scanning: bool, acc: PiiCounts, i: int) -> (
    Seq<JsonModel>,
    PiiCounts,
)
    decreases items, items.len() - i,
{
    if i < 0 || i >= items.len() {
        (Seq::empty(), acc)
    } else {
        let h = scrub_model(items[i], scanning, acc);
        let t = scrub_items(items, scanning, h.1, i + 1);
        (seq![h.0] + t.0, t.1)
    }
}

pub open spec fn scrub_entries(
    entries: Seq<(Seq<char>, JsonModel)>,
    scanning: bool,
    acc: PiiCounts,
    i: int,
) -> (Seq<(Seq<char>, JsonModel)>, PiiCounts)
    decreases entries, entries.len() - i,
{
    if i < 0 || i >= entries.len() {
        (Seq::empty(), acc)
    } else {
        let k = entries[i].0;
        let v = entries[i].1;
        let target = is_pii_target(k);
        let h = scrub_model(v, scanning || target, acc);
        let acc2 = if target && encoded(h.0, false) != encoded(v, false) {
            PiiCounts { fields_modified: usat(h.1.fields_modified, 1), ..h.1 }
        } else {
            h.1
        };
        let t = scrub_entries(entries, scanning, acc2, i + 1);
        (seq![(k, h.0)] + t.0, t.1)
    }
}

/// Scrub one value, adding what was found to the counters.
#[verifier::loop_isolation(false)]
#[verifier::rlimit(50)]
pub fn scrub_value(value: &Json, scanning: bool, result: &mut PiiScrubResult) -> (r: Json)
    ensures
        ({
            let t = scrub_model(value@, scanning, old(result)@);
            r@ == t.0 && final(result)@ == t.1
        }),
    decreases value,
{
    match value {
        Json::Str(s) => {
            if scanning {
                let t = scrub_string(s.as_str(), result);
                Json::Str(t)
            } else {
                value.clone()
            }
        },
        Json::Arr(items) => {
            let ghost ms = models_of_seq(items@);
            let ghost acc0 = result@;
            proof {
                crate::json::lemma_models_of_seq(items@);
            }
            let mut out: Vec<Json> = Vec::new();
            let mut i: usize = 0;
            proof {
                assert(models_of_seq(out@) =~= Seq::<JsonModel>::empty());
            }
            while i < items.len()
                invariant
                    i <= items@.len(),
                    scrub_items(ms, scanning, acc0, 0).0 == models_of_seq(out@) + scrub_items(
                        ms,
                        scanning,
                        result@,
                        i as int,
                    ).0,
                    scrub_items(ms, scanning, acc0, 0).1 == scrub_items(
                        ms,
                        scanning,
                        result@,
                        i as int,
                    ).1,
                decreases items@.len() - i,
            {
                let ghost acc_i = result@;
                let ghost out_before = out@;
                let ghost done = models_of_seq(out@);
                let v2 = scrub_value(&items[i], scanning, result);
                let ghost vm = v2@;
                out.push(v2);
                proof {
                    crate::json::lemma_models_of_seq(out@);
                    crate::json::lemma_models_of_seq(out_before);
                    assert(out@.drop_last() =~= out_before);
                    assert(models_of_seq(out@) =~= done + seq![vm]);
                    assert(scrub_items(ms, scanning, acc_i, i as int).0 == seq![vm]
                        + scrub_items(ms, scanning, result@, i as int + 1).0);
                    assert(done + (seq![vm] + scrub_items(ms, scanning, result@, i as int
                        + 1).0) =~= (done + seq![vm]) + scrub_items(
                        ms,
                        scanning,
                        result@,
                        i as int + 1,
                    ).0);
                }
                i = i + 1;
            }
            proof {
                assert(scrub_items(ms, scanning, result@, items@.len() as int).0
                    =~= Seq::<JsonModel>::empty());
                assert(scrub_items(ms, scanning, acc0, 0).0 =~= models_of_seq(out@));
            }
            Json::Arr(out)
        },
        Json::Obj(entries) => {
            let ghost ms = entry_models_of(entries@);
            let ghost acc0 = result@;
            proof {
                crate::json::lemma_entry_models_of(entries@);
            }
            let mut out: Vec<(String, Json)> = Vec::new();
            let mut i: usize = 0;
            proof {
                assert(entry_models_of(out@) =~= Seq::<(Seq<char>, JsonModel)>::empty());
            }
            while i < entries.len()
                invariant
                    i <= entries@.len(),
                    scrub_entries(ms, scanning, acc0, 0).0 == entry_models_of(out@)
                        + scrub_entries(ms, scanning, result@, i as int).0,
                    scrub_entries(ms, scanning, acc0, 0).1 == scrub_entries(
                        ms,
                        scanning,
                        result@,
                        i as int,
                    ).1,
                decreases entries@.len() - i,
            {
                let ghost acc_i = result@;
                let ghost done = entry_models_of(out@);
                let key = entries[i].0.clone();
                let ghost km = key@;
                let target = is_pii_target_field(key.as_str());
                let v2 = scrub_value(&entries[i].1, scanning || target, result);
                let ghost vm = v2@;
                if target {
                    let before_text = json_to_string(&entries[i].1);
                    let after_text = json_to_string(&v2);
                    if !str_eq(after_text.as_str(), before_text.as_str()) {
                        result.fields_modified = sat_add(result.fields_modified, 1);
                    }
                }
                let ghost out_before = out@;
                out.push((key, v2));
                proof {
                    crate::json::lemma_entry_models_of(out@);
                    crate::json::lemma_entry_models_of(out_before);
                    assert(out@.drop_last() =~= out_before);
                    assert(entry_models_of(out@) =~= done + seq![(km, vm)]);
                    assert(scrub_entries(ms, scanning, acc_i, i as int).0 == seq![(km, vm)]
                        + scrub_entries(ms, scanning, result@, i as int + 1).0);
                    assert(done + (seq![(km, vm)] + scrub_entries(ms, scanning, result@, i as int
                        + 1).0) =~= (done + seq![(km, vm)]) + scrub_entries(
                        ms,
                        scanning,
                        result@,
                        i as int + 1,
                    ).0);
                }
                i = i + 1;
            }
            proof {
                assert(scrub_entries(ms, scanning, result@, entries@.len() as int).0
                    =~= Seq::<(Seq<char>, JsonModel)>::empty());
                assert(scrub_entries(ms, scanning, acc0, 0).0 =~= entry_models_of(out@));
            }
            Json::Obj(out)
        },
        _ => value.clone(),
    }
}

/// Scrub a whole trace; scanning starts off and turns on under listed
/// fields.
pub fn scrub_pii(trace: &Json, _ctx: &LogContext) -> (r: (Json, PiiScrubResult))
    ensures
        ({
            let t = scrub_model(
                trace@,
                false,
                PiiCounts {
                    emails: 0,
                    phones: 0,
                    ips: 0,
                    urls: 0,
                    ssns: 0,
                    ccs: 0,
                    fields_modified: 0,
                },
            );
            r.0@ == t.0 && r.1@ == t.1
        }),
{
    let mut result = PiiScrubResult::default();
    let scrubbed = scrub_value(trace, false, &mut result);
    (scrubbed, result)
}

} // verus!
