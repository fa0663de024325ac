//! Schema-driven metadata extraction: for each component, the rules of the
//! detected schema version are resolved against the component's data and the
//! coerced values land under their database columns; certain event types
//! also store their whole data object.

use vstd::prelude::*;

use crate::canonical::{encoded, json_to_string};
use crate::json::{models_of_seq, Json, JsonModel};
use crate::json_path::{
    field_of, int_dec, json_field, resolve_json_path, resolve_path_of, str_field_of,
    value_bool_of, value_float_text_of, value_int_of, value_string_of, value_to_bool,
    value_to_float_text, value_to_int, value_to_string, i64_to_dec,
};
use crate::logging::LogContext;
use crate::schema::{rules_of_cache, RuleModel, SchemaCache, SchemaCacheModel};
use crate::strmap::StrMap;
use crate::text::str_eq;

verus! {

// ---------------------------------------------------------------------------
// Value conversion
// ---------------------------------------------------------------------------

/// The string form of a value under a rule's data type; a failed numeric or
/// boolean reading gives the empty string.
pub open spec fn convert_of(m: JsonModel, dt: Seq<char>) -> Seq<char> {
    if dt == "float"@ {
        match value_float_text_of(m) {
            Some(t) => t,
            None => Seq::empty(),
        }
    } else if dt == "int"@ {
        match value_int_of(m) {
            Some(v) => int_dec(v),
            None => Seq::empty(),
        }
    } else if dt == "boolean"@ {
        match value_bool_of(m) {
            Some(b) => encoded(JsonModel::Bool(b), false),
            None => Seq::empty(),
        }
    } else if dt == "json"@ {
        encoded(m, false)
    } else {
        value_string_of(m)
    }
}

/// Convert a value to its string form under a rule's data type.
pub fn convert_value(value: &Json, data_type: &str) -> (r: String)
    ensures
        r@ == convert_of(value@, data_type@),
{
    if str_eq(data_type, "float") {
        match value_to_float_text(value) {
            Some(t) => t,
            None => String::new(),
        }
    } else if str_eq(data_type, "int") {
        match value_to_int(value) {
            Some(v) => i64_to_dec(v),
            None => String::new(),
        }
    } else if str_eq(data_type, "boolean") {
        match value_to_bool(value) {
            Some(b) => {
                if b {
                    let t = "true".to_owned();
                    proof {
                        reveal_strlit("true");
                        assert(t@ =~= encoded(JsonModel::Bool(true), false));
                    }
                    t
                } else {
                    let t = "false".to_owned();
                    proof {
                        reveal_strlit("false");
                        assert(t@ =~= encoded(JsonModel::Bool(false), false));
                    }
                    t
                }
            },
            None => String::new(),
        }
    } else if str_eq(data_type, "json") {
        json_to_string(value)
    } else {
        value_to_string(value)
    }
}

// ---------------------------------------------------------------------------
// Full-component storage
// ---------------------------------------------------------------------------

/// The column under which an event type's whole data object is stored.
pub open spec fn full_component_key(ev: Seq<char>) -> Option<Seq<char>> {
    if ev == "DMA_RESULTS"@ {
        Some("dma_results"@)
    } else if ev == "ASPDMA_RESULT"@ {
        Some("aspdma_result"@)
    } else if ev == "IDMA_RESULT"@ {
        Some("idma_result"@)
    } else if ev == "TSASPDMA_RESULT"@ {
        Some("tsaspdma_result"@)
    } else if ev == "CONSCIENCE_RESULT"@ {
        Some("conscience_result"@)
    } else if ev == "ACTION_RESULT"@ {
        Some("action_result"@)
    } else {
        None
    }
}

/// Store the whole data object under the event type's column, unless a rule
/// already wrote that column.
pub open spec fn store_full_of(
    md: Map<Seq<char>, Seq<char>>,
    ev: Seq<char>,
    data: JsonModel,
) -> Map<Seq<char>, Seq<char>> {
    match full_component_key(ev) {
        Some(k) => if !md.dom().contains(k) {
            md.insert(k, encoded(data, false))
        } else {
            md
        },
        None => md,
    }
}

/// Store the whole data object for the event types that keep one.
pub fn store_full_component(metadata: &mut StrMap, event_type: &str, data: &Json)
    ensures
        final(metadata)@ == store_full_of(old(metadata)@, event_type@, data@),
{
    let key: Option<&str> = if str_eq(event_type, "DMA_RESULTS") {
        Some("dma_results")
    } else if str_eq(event_type, "ASPDMA_RESULT") {
        Some("aspdma_result")
    } else if str_eq(event_type, "IDMA_RESULT") {
        Some("idma_result")
    } else if str_eq(event_type, "TSASPDMA_RESULT") {
        Some("tsaspdma_result")
    } else if str_eq(event_type, "CONSCIENCE_RESULT") {
        Some("conscience_result")
    } else if str_eq(event_type, "ACTION_RESULT") {
        Some("action_result")
    } else {
        None
    };
    match key {
        Some(k) => {
            if !metadata.contains_key(k) {
                metadata.insert(k.to_owned(), json_to_string(data));
            }
        },
        None => {},
    }
}

// ---------------------------------------------------------------------------
// Rule-driven extraction
// ---------------------------------------------------------------------------

/// Apply the rules in order: a path that resolves writes its converted value
/// under the rule's column; a missing path writes nothing.
pub open spec fn apply_rules(
    rules: Seq<RuleModel>,
    data: JsonModel,
    md: Map<Seq<char>, Seq<char>>,
    i: int,
) -> Map<Seq<char>, Seq<char>>
    decreases rules.len() - i,
{
    if i < 0 || i >= rules.len() {
        md
    } else {
        let md2 = match resolve_path_of(data, rules[i].json_path) {
            Some(v) => md.insert(rules[i].db_column, convert_of(v, rules[i].data_type)),
            None => md,
        };
        apply_rules(rules, data, md2, i + 1)
    }
}

/// What one component adds: its rules' extractions, then its full data
/// object for the event types that keep one.
pub open spec fn extract_component_of(
    comp: JsonModel,
    ver: Seq<char>,
    c: SchemaCacheModel,
    md: Map<Seq<char>, Seq<char>>,
) -> Map<Seq<char>, Seq<char>> {
    let ev = match str_field_of(comp, "event_type"@) {
        Some(e) => e,
        None => "unknown"@,
    };
    let data = match field_of(comp, "data"@) {
        Some(d) => d,
        None => comp,
    };
    let md2 = apply_rules(rules_of_cache(c, ver, ev), data, md, 0);
    store_full_of(md2, ev, data)
}

pub open spec fn extract_components_of(
    items: Seq<JsonModel>,
    ver: Seq<char>,
    c: SchemaCacheModel,
    md: Map<Seq<char>, Seq<char>>,
    i: int,
) -> Map<Seq<char>, Seq<char>>
    decreases items.len() - i,
{
    if i < 0 || i >= items.len() {
        md
    } else {
        extract_components_of(items, ver, c, extract_component_of(items[i], ver, c, md), i + 1)
    }
}

/// The metadata extracted from a trace: nothing while the catalog is not
/// loaded; else the trace id, the rule-driven extractions of every
/// component in order, and the stored full data objects.
pub open spec fn extract_of(tm: JsonModel, ver: Seq<char>, c: SchemaCacheModel) -> Map<
    Seq<char>,
    Seq<char>,
> {
    if !c.loaded {
        Map::empty()
    } else {
        let base = match str_field_of(tm, "trace_id"@) {
            Some(t) => Map::<Seq<char>, Seq<char>>::empty().insert("trace_id"@, t),
            None => Map::empty(),
        };
        match field_of(tm, "components"@) {
            Some(comps) => match comps {
                JsonModel::Arr(items) => extract_components_of(items, ver, c, base, 0),
                _ => base,
            },
            None => base,
        }
    }
}

/// Extract one component into the map.
fn extract_component(
    component: &Json,
    schema_version: &str,
    cache: &SchemaCache,
    metadata: &mut StrMap,
)
    ensures
        final(metadata)@ == extract_component_of(component@, schema_version@, cache@,
        old(metadata)@),
{
    let event_type: String = match json_field(component, "event_type") {
        Some(v) => match v {
            Json::Str(s) => s.clone(),
            _ => "unknown".to_owned(),
        },
        None => "unknown".to_owned(),
    };
    let data: &Json = match json_field(component, "data") {
        Some(d) => d,
        None => component,
    };
    let rules = cache.get_field_rules(schema_version, event_type.as_str());
    let ghost rms = crate::schema::rules_view(rules@);
    let ghost dm = data@;
    let ghost md0 = metadata@;
    let mut k: usize = 0;
    while k < rules.len()
        invariant
            k <= rules@.len(),
            rms == crate::schema::rules_view(rules@),
            rms.len() == rules@.len(),
            dm == data@,
            apply_rules(rms, dm, md0, 0) == apply_rules(rms, dm, metadata@, k as int),
        decreases rules@.len() - k,
    {
        proof {
            assert(rms[k as int] == rules@[k as int]@);
        }
        match resolve_json_path(data, rules[k].json_path.as_str()) {
            Some(v) => {
                let converted = convert_value(v, rules[k].data_type.as_str());
                metadata.insert(rules[k].db_column.clone(), converted);
            },
            None => {},
        }
        k = k + 1;
    }
    store_full_component(metadata, event_type.as_str(), data);
}

/// Extract a trace's metadata under the detected schema version.
pub fn extract_trace_metadata(
    trace: &Json,
    schema_version: &str,
    cache: &SchemaCache,
    _ctx: &LogContext,
) -> (r: StrMap)
    ensures
        r@ == extract_of(trace@, schema_version@, cache@),
{
    let mut metadata = StrMap::new();
    if !cache.is_loaded() {
        return metadata;
    }
    match json_field(trace, "trace_id") {
        Some(v) => match v {
            Json::Str(s) => {
                metadata.insert("trace_id".to_owned(), s.clone());
            },
            _ => {},
        },
        None => {},
    }
    match json_field(trace, "components") {
        Some(c) => match c {
            Json::Arr(items) => {
                let ghost ms = models_of_seq(items@);
                let ghost md0 = metadata@;
                proof {
                    crate::json::lemma_models_of_seq(items@);
                }
                let mut i: usize = 0;
                while i < items.len()
                    invariant
                        i <= items@.len(),
                        ms == models_of_seq(items@),
                        ms.len() == items@.len(),
                        forall|q: int| 0 <= q < items@.len() ==> ms[q] == items@[q]@,
                        extract_components_of(ms, schema_version@, cache@, md0, 0)
                            == extract_components_of(
                            ms,
                            schema_version@,
                            cache@,
                            metadata@,
                            i as int,
                        ),
                    decreases items@.len() - i,
                {
                    extract_component(&items[i], schema_version, cache, &mut metadata);
                    i = i + 1;
                }
            },
            _ => {},
        },
        None => {},
    }
    metadata
}

// ---------------------------------------------------------------------------
// Models used, and connectivity metadata
// ---------------------------------------------------------------------------

/// The string members of a sequence, others skipped.
pub open spec fn str_items_of(items: Seq<JsonModel>, i: int) -> Seq<Seq<char>>
    decreases items.len() - i,
{
    if i < 0 || i >= items.len() {
        Seq::empty()
    } else {
        let rest = str_items_of(items, i + 1);
        match items[i] {
            JsonModel::Str(s) => seq![s] + rest,
            _ => rest,
        }
    }
}

/// The model names of one component: the string members of
/// `data.models_used`, if that path holds an array.
pub open spec fn comp_models_of(comp: JsonModel) -> Seq<Seq<char>> {
    match field_of(comp, "data"@) {
        Some(d) => match field_of(d, "models_used"@) {
            Some(mu) => match mu {
                JsonModel::Arr(items) => str_items_of(items, 0),
                _ => Seq::empty(),
            },
            None => Seq::empty(),
        },
        None => Seq::empty(),
    }
}

pub open spec fn models_used_from(items: Seq<JsonModel>, i: int) -> Seq<Seq<char>>
    decreases items.len() - i,
{
    if i < 0 || i >= items.len() {
        Seq::empty()
    } else {
        comp_models_of(items[i]) + models_used_from(items, i + 1)
    }
}

/// Every model name the trace's components report having used.
pub open spec fn trace_models_of(tm: JsonModel) -> Seq<Seq<char>> {
    match field_of(tm, "components"@) {
        Some(c) => match c {
            JsonModel::Arr(items) => models_used_from(items, 0),
            _ => Seq::empty(),
        },
        None => Seq::empty(),
    }
}

/// Collect the model names used across all components.
pub fn extract_models_used(trace: &Json) -> (r: Vec<String>)
    ensures
        r@.len() == trace_models_of(trace@).len(),
        forall|i: int| 0 <= i < r@.len() ==> r@[i]@ == trace_models_of(trace@)[i],
{
    let mut out: Vec<String> = Vec::new();
    let ghost total = trace_models_of(trace@);
    match json_field(trace, "components") {
        Some(c) => match c {
            Json::Arr(items) => {
                let ghost ms = models_of_seq(items@);
                proof {
                    crate::json::lemma_models_of_seq(items@);
                }
                let mut i: usize = 0;
                while i < items.len()
                    invariant
                        i <= items@.len(),
                        ms == models_of_seq(items@),
                        ms.len() == items@.len(),
                        forall|q: int| 0 <= q < items@.len() ==> ms[q] == items@[q]@,
                        total == trace_models_of(trace@),
                        total == strings_of_vec(out@) + models_used_from(ms, i as int),
                    decreases items@.len() - i,
                {
                    let ghost before = strings_of_vec(out@);
                    push_component_models(&items[i], &mut out);
                    proof {
                        assert(before + (comp_models_of(ms[i as int]) + models_used_from(
                            ms,
                            i as int + 1,
                        )) =~= (before + comp_models_of(ms[i as int])) + models_used_from(
                            ms,
                            i as int + 1,
                        ));
                    }
                    i = i + 1;
                }
                proof {
                    assert(models_used_from(ms, items@.len() as int)
                        =~= Seq::<Seq<char>>::empty());
                    assert(strings_of_vec(out@) =~= total);
                }
            },
            _ => {},
        },
        None => {},
    }
    proof {
        if !(trace@ matches JsonModel::Obj(_)) {
            assert(total =~= Seq::<Seq<char>>::empty());
        }
    }
    out
}

pub open spec fn strings_of_vec(s: Seq<String>) -> Seq<Seq<char>> {
    s.map_values(|x: String| x@)
}

/// Append one component's model names.
fn push_component_models(component: &Json, out: &mut Vec<String>)
    ensures
        strings_of_vec(final(out)@) == strings_of_vec(old(out)@) + comp_models_of(component@),
{
    let data = match json_field(component, "data") {
        Some(d) => d,
        None => {
            proof {
                assert(strings_of_vec(out@) =~= strings_of_vec(out@) + comp_models_of(
                    component@,
                ));
            }
            return;
        },
    };
    let mu = match json_field(data, "models_used") {
        Some(m) => m,
        None => {
            proof {
                assert(strings_of_vec(out@) =~= strings_of_vec(out@) + comp_models_of(
                    component@,
                ));
            }
            return;
        },
    };
    match mu {
        Json::Arr(items) => {
            let ghost ms = models_of_seq(items@);
            let ghost base = strings_of_vec(out@);
            proof {
                crate::json::lemma_models_of_seq(items@);
            }
            let mut i: usize = 0;
            proof {
                assert(base + Seq::<Seq<char>>::empty() =~= base);
            }
            while i < items.len()
                invariant
                    i <= items@.len(),
                    ms == models_of_seq(items@),
                    ms.len() == items@.len(),
                    forall|q: int| 0 <= q < items@.len() ==> ms[q] == items@[q]@,
                    strings_of_vec(out@) + str_items_of(ms, i as int) == base + str_items_of(
                        ms,
                        0,
                    ),
                decreases items@.len() - i,
            {
                let ghost before = strings_of_vec(out@);
                match &items[i] {
                    Json::Str(s) => {
                        let ghost sv = s@;
                        out.push(s.clone());
                        proof {
                            assert(strings_of_vec(out@) =~= before + seq![sv]);
                            assert((before + seq![sv]) + str_items_of(ms, i as int + 1)
                                =~= before + (seq![sv] + str_items_of(ms, i as int + 1)));
                        }
                    },
                    _ => {},
                }
                i = i + 1;
            }
            proof {
                assert(str_items_of(ms, items@.len() as int) =~= Seq::<Seq<char>>::empty());
                assert(strings_of_vec(out@) =~= base + str_items_of(ms, 0));
            }
        },
        _ => {
            proof {
                assert(strings_of_vec(out@) =~= strings_of_vec(out@) + comp_models_of(
                    component@,
                ));
            }
        },
    }
}

/// The metadata of a connectivity trace: its event type, agent fields when
/// present, and the whole trace as event data.
pub open spec fn connectivity_md_of(tm: JsonModel) -> Map<Seq<char>, Seq<char>> {
    let md0 = Map::<Seq<char>, Seq<char>>::empty();
    let md1 = match str_field_of(tm, "event_type"@) {
        Some(v) => md0.insert("event_type"@, v),
        None => md0,
    };
    let md2 = match str_field_of(tm, "agent_name"@) {
        Some(v) => md1.insert("agent_name"@, v),
        None => md1,
    };
    let md3 = match str_field_of(tm, "agent_id"@) {
        Some(v) => md2.insert("agent_id"@, v),
        None => md2,
    };
    let md4 = match str_field_of(tm, "agent_id_hash"@) {
        Some(v) => md3.insert("agent_id_hash"@, v),
        None => md3,
    };
    md4.insert("event_data"@, encoded(tm, false))
}

/// Extract the fields of a connectivity trace.
pub fn extract_connectivity_metadata(trace: &Json) -> (r: StrMap)
    ensures
        r@ == connectivity_md_of(trace@),
{
    let mut metadata = StrMap::new();
    match json_field(trace, "event_type") {
        Some(v) => match v {
            Json::Str(s) => {
                metadata.insert("event_type".to_owned(), s.clone());
            },
            _ => {},
        },
        None => {},
    }
    match json_field(trace, "agent_name") {
        Some(v) => match v {
            Json::Str(s) => {
                metadata.insert("agent_name".to_owned(), s.clone());
            },
            _ => {},
        },
        None => {},
    }
    match json_field(trace, "agent_id") {
        Some(v) => match v {
            Json::Str(s) => {
                metadata.insert("agent_id".to_owned(), s.clone());
            },
            _ => {},
        },
        None => {},
    }
    match json_field(trace, "agent_id_hash") {
        Some(v) => match v {
            Json::Str(s) => {
                metadata.insert("agent_id_hash".to_owned(), s.clone());
            },
            _ => {},
        },
        None => {},
    }
    metadata.insert("event_data".to_owned(), json_to_string(trace));
    metadata
}

} // verus!
