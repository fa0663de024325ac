//! Routing: mock detection and the destination decision.
//!
//! A trace goes to `connectivity` when its schema says so, to `mock` when
//! the models it used name a mock model and the tier allows mock routing,
//! and to `production` otherwise.

use vstd::prelude::*;

use crate::json::{models_of_seq, Json, JsonModel};
use crate::parse::{parse_json, parse_of};
use crate::strmap::StrMap;
use crate::text::{ascii_lower, str_eq};
use crate::logging::LogContext;

verus! {

// ---------------------------------------------------------------------------
// Mock detection
// ---------------------------------------------------------------------------

/// The four characters at `i` spell `mock`, letters folded to lower case.
pub open spec fn mock_at(s: Seq<char>, i: int) -> bool {
    &&& ascii_lower(s[i]) == 'm'
    &&& ascii_lower(s[i + 1]) == 'o'
    &&& ascii_lower(s[i + 2]) == 'c'
    &&& ascii_lower(s[i + 3]) == 'k'
}

/// The text contains `mock`, case-insensitively over ASCII letters.
pub open spec fn contains_mock(s: Seq<char>) -> bool {
    exists|i: int| 0 <= i && i + 4 <= s.len() && mock_at(s, i)
}

fn chars_mock_at(cs: &Vec<char>, i: usize) -> (r: bool)
    requires
        i + 4 <= cs@.len(),
        cs@.len() <= usize::MAX,
    ensures
        r == mock_at(cs@, i as int),
{
    let c0 = cs[i];
    let c1 = cs[i + 1];
    let c2 = cs[i + 2];
    let c3 = cs[i + 3];
    (c0 == 'm' || c0 == 'M') && (c1 == 'o' || c1 == 'O') && (c2 == 'c' || c2 == 'C') && (c3
        == 'k' || c3 == 'K')
}

/// Whether a models-used text names a mock model: it contains `mock`,
/// case-insensitively.
pub fn is_mock_trace(models_used: &str) -> (r: bool)
    ensures
        r == contains_mock(models_used@),
{
    let cs = crate::text::str_chars(models_used);
    let n = cs.len();
    if n < 4 {
        return false;
    }
    let mut i: usize = 0;
    while i <= n - 4
        invariant
            cs@ == models_used@,
            n == cs@.len(),
            4 <= n,
            i <= n - 3,
            forall|k: int| 0 <= k < i ==> !mock_at(cs@, k),
        decreases cs@.len() - i,
    {
        if chars_mock_at(&cs, i) {
            return true;
        }
        i = i + 1;
    }
    false
}

/// The strings of a JSON array of strings; `None` when the value is no such
/// array.
pub open spec fn strings_of(m: JsonModel) -> Option<Seq<Seq<char>>> {
    match m {
        JsonModel::Arr(items) => strings_of_items(items, 0),
        _ => None,
    }
}

pub open spec fn strings_of_items(items: Seq<JsonModel>, i: int) -> Option<Seq<Seq<char>>>
    decreases items.len() - i,
{
    if i < 0 || i >= items.len() {
        Some(Seq::empty())
    } else {
        match items[i] {
            JsonModel::Str(s) => match strings_of_items(items, i + 1) {
                Some(rest) => Some(seq![s] + rest),
                None => None,
            },
            _ => None,
        }
    }
}

/// The model names read from a JSON array text; anything else gives none.
pub open spec fn models_used_of(s: Seq<char>) -> Seq<Seq<char>> {
    match parse_of(s) {
        Some(m) => match strings_of(m) {
            Some(v) => v,
            None => Seq::empty(),
        },
        None => Seq::empty(),
    }
}

/// Parse a JSON array of model names; a malformed text yields no names.
pub fn parse_models_used(models_json: &str) -> (r: Vec<String>)
    ensures
        r@.len() == models_used_of(models_json@).len(),
        forall|i: int| 0 <= i < r@.len() ==> r@[i]@ == models_used_of(models_json@)[i],
{
    match parse_json(models_json) {
        Ok(v) => {
            let ghost vm = v@;
            match v {
                Json::Arr(items) => {
                    let ghost ims = models_of_seq(items@);
                    proof {
                        crate::json::lemma_models_of_seq(items@);
                        assert(vm == JsonModel::Arr(ims));
                    }
                    let mut out: Vec<String> = Vec::new();
                    let mut i: usize = items.len();
                    while i > 0
                        invariant
                            i <= items@.len(),
                            vm == JsonModel::Arr(ims),
                            parse_of(models_json@) == Some(vm),
                            ims == models_of_seq(items@),
                            ims.len() == items@.len(),
                            forall|k: int| 0 <= k < items@.len() ==> ims[k] == items@[k]@,
                            strings_of_items(ims, i as int) matches Some(tail)
                                && out@.len() == tail.len() && forall|k: int|
                                0 <= k < out@.len() ==> out@[k]@ == tail[k],
                        decreases i,
                    {
                        i = i - 1;
                        match &items[i] {
                            Json::Str(s) => {
                                let ghost prev = out@;
                                out.insert(0, s.clone());
                                proof {
                                    assert(out@[0] == s);
                                    assert(forall|k: int| 1 <= k < out@.len() ==> out@[k]
                                        == prev[k - 1]);
                                }
                            },
                            _ => {
                                proof {
                                    assert(ims[i as int] == items@[i as int]@);
                                    assert(!(items@[i as int] is Str));
                                    assert(!(ims[i as int] is Str));
                                    assert(strings_of_items(ims, i as int) is None);
                                    lemma_strings_of_items_none(ims, 0, i as int);
                                    assert(strings_of(vm) is None);
                                    assert(models_used_of(models_json@)
                                        =~= Seq::<Seq<char>>::empty());
                                }
                                let empty: Vec<String> = Vec::new();
                                return empty;
                            },
                        }
                    }
                    out
                },
                _ => {
                    let empty: Vec<String> = Vec::new();
                    empty
                },
            }
        },
        Err(_) => {
            let empty: Vec<String> = Vec::new();
            empty
        },
    }
}

/// A non-string member anywhere after `i` makes the whole read fail.
proof fn lemma_strings_of_items_none(items: Seq<JsonModel>, i: int, j: int)
    requires
        0 <= i <= j,
        strings_of_items(items, j) is None,
    ensures
        strings_of_items(items, i) is None,
    decreases j - i,
{
    if i < j {
        lemma_strings_of_items_none(items, i + 1, j);
    }
}

/// Whether any model name in the list names a mock model.
pub fn contains_mock_model(models: &Vec<String>) -> (r: bool)
    ensures
        r == exists|i: int| 0 <= i < models@.len() && contains_mock(models@[i]@),
{
    let mut i: usize = 0;
    while i < models.len()
        invariant
            i <= models@.len(),
            forall|k: int| 0 <= k < i ==> !contains_mock(models@[k]@),
        decreases models@.len() - i,
    {
        if is_mock_trace(models[i].as_str()) {
            return true;
        }
        i = i + 1;
    }
    false
}

// ---------------------------------------------------------------------------
// The routing decision
// ---------------------------------------------------------------------------

/// Mathematical form of a routing decision.
pub enum RoutingModel {
    Production,
    Mock,
    Connectivity,
    Malformed(Seq<char>),
}

/// Where a trace is routed.
#[derive(Debug, PartialEq)]
pub enum RoutingDecision {
    Production,
    Mock,
    Connectivity,
    Malformed(String),
}

impl View for RoutingDecision {
    type V = RoutingModel;

    open spec fn view(&self) -> RoutingModel {
        match self {
            RoutingDecision::Production => RoutingModel::Production,
            RoutingDecision::Mock => RoutingModel::Mock,
            RoutingDecision::Connectivity => RoutingModel::Connectivity,
            RoutingDecision::Malformed(reason) => RoutingModel::Malformed(reason@),
        }
    }
}

/// The destination name of a decision.
pub open spec fn decision_text(m: RoutingModel) -> Seq<char> {
    match m {
        RoutingModel::Production => "production"@,
        RoutingModel::Mock => "mock"@,
        RoutingModel::Connectivity => "connectivity"@,
        RoutingModel::Malformed(_) => "malformed"@,
    }
}

impl RoutingDecision {
    /// The destination name of this decision.
    pub fn as_str(&self) -> (r: &str)
        ensures
            r@ == decision_text(self@),
    {
        match self {
            RoutingDecision::Production => "production",
            RoutingDecision::Mock => "mock",
            RoutingDecision::Connectivity => "connectivity",
            RoutingDecision::Malformed(_) => "malformed",
        }
    }
}

/// The routing rule over extracted metadata: `connectivity` by schema
/// version; `mock` when the models-used text names a mock model, at any tier
/// but `generic`; otherwise `production`.
pub open spec fn routing_of(md: Map<Seq<char>, Seq<char>>, trace_level: Seq<char>)
    -> RoutingModel {
    if md.dom().contains("schema_version"@) && md["schema_version"@] == "connectivity"@ {
        RoutingModel::Connectivity
    } else if trace_level != "generic"@ && contains_mock(
        if md.dom().contains("models_used"@) {
            md["models_used"@]
        } else {
            "[]"@
        },
    ) {
        RoutingModel::Mock
    } else {
        RoutingModel::Production
    }
}

/// Decide where a trace goes, from its extracted metadata and the tier.
pub fn determine_routing(metadata: &StrMap, trace_level: &str, _ctx: &LogContext) -> (r:
    RoutingDecision)
    ensures
        r@ == routing_of(metadata@, trace_level@),
{
    match metadata.get("schema_version") {
        Some(schema) => {
            if str_eq(schema.as_str(), "connectivity") {
                return RoutingDecision::Connectivity;
            }
        },
        None => {},
    }
    if !str_eq(trace_level, "generic") {
        let mock = match metadata.get("models_used") {
            Some(models) => is_mock_trace(models.as_str()),
            None => is_mock_trace("[]"),
        };
        if mock {
            return RoutingDecision::Mock;
        }
    }
    RoutingDecision::Production
}

/// At the `generic` tier the mock destination is never chosen: whatever the
/// metadata says, the decision is connectivity or production.
pub proof fn lemma_generic_never_mock(md: Map<Seq<char>, Seq<char>>)
    ensures
        routing_of(md, "generic"@) != RoutingModel::Mock,
{
}

} // verus!
