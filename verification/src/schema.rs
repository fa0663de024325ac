//! The schema catalog: versioned schema definitions, their signature event
//! sets, and per-event field extraction rules, loaded in bulk and read as a
//! snapshot.
//!
//! Detection walks the definitions in status priority order (current,
//! supported, deprecated, anything else) and returns the first whose
//! signature event set matches the trace's events.

use vstd::prelude::*;

use crate::logging::LogContext;
use crate::text::str_eq;

verus! {

// ---------------------------------------------------------------------------
// Data and models
// ---------------------------------------------------------------------------

/// One field extraction rule: where to read, how to coerce, where to write.
#[derive(Debug)]
pub struct FieldExtractionRule {
    pub field_name: String,
    pub json_path: String,
    pub data_type: String,
    pub required: bool,
    pub db_column: String,
}

/// Mathematical form of a rule.
#[verifier::ext_equal]
pub struct RuleModel {
    pub field_name: Seq<char>,
    pub json_path: Seq<char>,
    pub data_type: Seq<char>,
    pub required: bool,
    pub db_column: Seq<char>,
}

impl View for FieldExtractionRule {
    type V = RuleModel;

    open spec fn view(&self) -> RuleModel {
        RuleModel {
            field_name: self.field_name@,
            json_path: self.json_path@,
            data_type: self.data_type@,
            required: self.required,
            db_column: self.db_column@,
        }
    }
}

impl Clone for FieldExtractionRule {
    fn clone(&self) -> (r: FieldExtractionRule)
        ensures
            r@ == self@,
    {
        FieldExtractionRule {
            field_name: self.field_name.clone(),
            json_path: self.json_path.clone(),
            data_type: self.data_type.clone(),
            required: self.required,
            db_column: self.db_column.clone(),
        }
    }
}

pub open spec fn strings_view(s: Seq<String>) -> Seq<Seq<char>> {
    s.map_values(|x: String| x@)
}

pub open spec fn rules_view(s: Seq<FieldExtractionRule>) -> Seq<RuleModel> {
    s.map_values(|r: FieldExtractionRule| r@)
}

/// One schema version: its identity, its signature event set, and its field
/// extraction rules grouped by event type.
#[derive(Debug)]
pub struct SchemaDefinition {
    pub version: String,
    pub description: String,
    pub status: String,
    pub signature_event_types: Vec<String>,
    pub field_extractions: Vec<(String, Vec<FieldExtractionRule>)>,
    pub match_mode: String,
    pub special_handling: bool,
}

/// Mathematical form of a schema definition.
#[verifier::ext_equal]
pub struct SchemaModel {
    pub version: Seq<char>,
    pub description: Seq<char>,
    pub status: Seq<char>,
    pub signature_event_types: Seq<Seq<char>>,
    pub field_extractions: Seq<(Seq<char>, Seq<RuleModel>)>,
    pub match_mode: Seq<char>,
    pub special_handling: bool,
}

impl View for SchemaDefinition {
    type V = SchemaModel;

    open spec fn view(&self) -> SchemaModel {
        SchemaModel {
            version: self.version@,
            description: self.description@,
            status: self.status@,
            signature_event_types: strings_view(self.signature_event_types@),
            field_extractions: self.field_extractions@.map_values(
                |e: (String, Vec<FieldExtractionRule>)| (e.0@, rules_view(e.1@)),
            ),
            match_mode: self.match_mode@,
            special_handling: self.special_handling,
        }
    }
}

// ---------------------------------------------------------------------------
// Matching
// ---------------------------------------------------------------------------

/// The event set contains this event type.
pub open spec fn events_contain(events: Seq<Seq<char>>, e: Seq<char>) -> bool {
    exists|i: int| 0 <= i < events.len() && events[i] == e
}

/// Whether a schema matches an event set: under `any`, one signature event
/// present suffices; otherwise every signature event must be present.
pub open spec fn schema_matches(s: SchemaModel, events: Seq<Seq<char>>) -> bool {
    if s.match_mode == "any"@ {
        exists|i: int|
            0 <= i < s.signature_event_types.len() && events_contain(
                events,
                s.signature_event_types[i],
            )
    } else {
        forall|i: int|
            0 <= i < s.signature_event_types.len() ==> events_contain(
                events,
                s.signature_event_types[i],
            )
    }
}

/// Whether the string vector holds this text.
pub fn vec_contains_str(v: &Vec<String>, s: &str) -> (r: bool)
    ensures
        r == events_contain(strings_view(v@), s@),
{
    let mut i: usize = 0;
    while i < v.len()
        invariant
            i <= v@.len(),
            forall|k: int| 0 <= k < i ==> strings_view(v@)[k] != s@,
        decreases v@.len() - i,
    {
        if str_eq(v[i].as_str(), s) {
            proof {
                assert(strings_view(v@)[i as int] == s@);
            }
            return true;
        }
        i = i + 1;
    }
    false
}

impl SchemaDefinition {
    /// Whether this schema matches the given event types.
    pub fn matches(&self, event_types: &Vec<String>) -> (r: bool)
        ensures
            r == schema_matches(self@, strings_view(event_types@)),
    {
        if str_eq(self.match_mode.as_str(), "any") {
            let mut i: usize = 0;
            while i < self.signature_event_types.len()
                invariant
                    self@.match_mode == "any"@,
                    i <= self.signature_event_types@.len(),
                    forall|k: int| 0 <= k < i ==> !events_contain(
                        strings_view(event_types@),
                        strings_view(self.signature_event_types@)[k],
                    ),
                decreases self.signature_event_types@.len() - i,
            {
                if vec_contains_str(event_types, self.signature_event_types[i].as_str()) {
                    proof {
                        assert(strings_view(self.signature_event_types@)[i as int]
                            == self.signature_event_types@[i as int]@);
                        assert(events_contain(
                            strings_view(event_types@),
                            self@.signature_event_types[i as int],
                        ));
                    }
                    return true;
                }
                i = i + 1;
            }
            false
        } else {
            let mut i: usize = 0;
            while i < self.signature_event_types.len()
                invariant
                    self@.match_mode != "any"@,
                    i <= self.signature_event_types@.len(),
                    forall|k: int| 0 <= k < i ==> events_contain(
                        strings_view(event_types@),
                        strings_view(self.signature_event_types@)[k],
                    ),
                decreases self.signature_event_types@.len() - i,
            {
                if !vec_contains_str(event_types, self.signature_event_types[i].as_str()) {
                    proof {
                        assert(strings_view(self.signature_event_types@)[i as int]
                            == self.signature_event_types@[i as int]@);
                        assert(!events_contain(
                            strings_view(event_types@),
                            self@.signature_event_types[i as int],
                        ));
                    }
                    return false;
                }
                i = i + 1;
            }
            true
        }
    }
}

// ---------------------------------------------------------------------------
// Building definitions from catalog rows
// ---------------------------------------------------------------------------

/// A schema row: version, description, status, signature events.
pub type SchemaRow = (String, String, String, Vec<String>);

/// A field row: schema version, event type, field name, json path, data
/// type, required, db column.
pub type FieldRow = (String, String, String, String, String, bool, String);

/// The rules of the field rows for one schema version and event type, in
/// row order, starting at row `i`.
pub open spec fn rules_for(fields: Seq<FieldRow>, ver: Seq<char>, ev: Seq<char>, i: int) -> Seq<
    RuleModel,
>
    decreases fields.len() - i,
{
    if i < 0 || i >= fields.len() {
        Seq::empty()
    } else {
        let rest = rules_for(fields, ver, ev, i + 1);
        if fields[i].0@ == ver && fields[i].1@ == ev {
            seq![
                RuleModel {
                    field_name: fields[i].2@,
                    json_path: fields[i].3@,
                    data_type: fields[i].4@,
                    required: fields[i].5,
                    db_column: fields[i].6@,
                },
            ] + rest
        } else {
            rest
        }
    }
}

/// The event types of the field rows for one schema version, in order of
/// first appearance, starting at row `i`.
pub open spec fn events_for(fields: Seq<FieldRow>, ver: Seq<char>, i: int) -> Seq<Seq<char>>
    decreases fields.len() - i,
{
    if i < 0 || i >= fields.len() {
        Seq::empty()
    } else {
        let rest = events_for(fields, ver, i + 1);
        if fields[i].0@ == ver && (forall|k: int|
            0 <= k < i ==> !(fields[k].0@ == ver && fields[k].1@ == fields[i].1@)) {
            seq![fields[i].1@] + rest
        } else {
            rest
        }
    }
}

/// The grouped field extractions of one schema version.
pub open spec fn fe_of(fields: Seq<FieldRow>, ver: Seq<char>) -> Seq<(Seq<char>, Seq<RuleModel>)> {
    let evs = events_for(fields, ver, 0);
    Seq::new(evs.len(), |i: int| (evs[i], rules_for(fields, ver, evs[i], 0)))
}

/// The definition built from one schema row and the field rows; the
/// connectivity version carries the `any` match mode and special handling.
pub open spec fn def_model_of(row: SchemaRow, fields: Seq<FieldRow>) -> SchemaModel {
    SchemaModel {
        version: row.0@,
        description: row.1@,
        status: row.2@,
        signature_event_types: strings_view(row.3@),
        field_extractions: fe_of(fields, row.0@),
        match_mode: if row.0@ == "connectivity"@ {
            "any"@
        } else {
            "all"@
        },
        special_handling: row.0@ == "connectivity"@,
    }
}

/// The definitions of all rows, in row order.
pub open spec fn raw_defs_of(rows: Seq<SchemaRow>, fields: Seq<FieldRow>) -> Seq<SchemaModel> {
    Seq::new(rows.len(), |i: int| def_model_of(rows[i], fields))
}

/// Status priority: current before supported before deprecated before
/// anything else.
pub open spec fn status_priority(status: Seq<char>) -> int {
    if status == "current"@ {
        0
    } else if status == "supported"@ {
        1
    } else if status == "deprecated"@ {
        2
    } else {
        3
    }
}

/// Stable order by status priority: the priority buckets, in input order
/// within each.
pub open spec fn by_priority_of(defs: Seq<SchemaModel>) -> Seq<SchemaModel> {
    defs.filter(|d: SchemaModel| status_priority(d.status) == 0) + defs.filter(
        |d: SchemaModel| status_priority(d.status) == 1,
    ) + defs.filter(|d: SchemaModel| status_priority(d.status) == 2) + defs.filter(
        |d: SchemaModel| status_priority(d.status) == 3,
    )
}

// ---------------------------------------------------------------------------
// The catalog
// ---------------------------------------------------------------------------

/// Mathematical form of the catalog: the definitions in priority order, the
/// loaded flag, and the load instant for refresh decisions.
pub struct SchemaCacheModel {
    pub schemas: Seq<SchemaModel>,
    pub loaded: bool,
    pub loaded_at_secs: Option<u64>,
}

/// First definition, in priority order, that matches the event set.
pub open spec fn detect_of(schemas: Seq<SchemaModel>, events: Seq<Seq<char>>) -> Option<
    SchemaModel,
>
    decreases schemas.len(),
{
    if schemas.len() == 0 {
        None
    } else if schema_matches(schemas[0], events) {
        Some(schemas[0])
    } else {
        detect_of(schemas.drop_first(), events)
    }
}

/// First definition with the given version.
pub open spec fn find_schema_of(schemas: Seq<SchemaModel>, version: Seq<char>) -> Option<
    SchemaModel,
>
    decreases schemas.len(),
{
    if schemas.len() == 0 {
        None
    } else if schemas[0].version == version {
        Some(schemas[0])
    } else {
        find_schema_of(schemas.drop_first(), version)
    }
}

/// The rules grouped under an event type, or empty.
pub open spec fn lookup_rules(fe: Seq<(Seq<char>, Seq<RuleModel>)>, ev: Seq<char>) -> Seq<
    RuleModel,
>
    decreases fe.len(),
{
    if fe.len() == 0 {
        Seq::empty()
    } else if fe[0].0 == ev {
        fe[0].1
    } else {
        lookup_rules(fe.drop_first(), ev)
    }
}

/// The rule list for a version and event type in a catalog; empty when the
/// version is unknown or has no rules for the event.
pub open spec fn rules_of_cache(c: SchemaCacheModel, version: Seq<char>, ev: Seq<char>) -> Seq<
    RuleModel,
> {
    match find_schema_of(c.schemas, version) {
        Some(s) => lookup_rules(s.field_extractions, ev),
        None => Seq::empty(),
    }
}

/// In-memory catalog of schema definitions, replaced wholesale by a load.
#[derive(Debug)]
pub struct SchemaCache {
    by_priority: Vec<SchemaDefinition>,
    loaded: bool,
    loaded_at_secs: Option<u64>,
}

pub open spec fn defs_view(s: Seq<SchemaDefinition>) -> Seq<SchemaModel> {
    s.map_values(|d: SchemaDefinition| d@)
}

impl View for SchemaCache {
    type V = SchemaCacheModel;

    closed spec fn view(&self) -> SchemaCacheModel {
        SchemaCacheModel {
            schemas: defs_view(self.by_priority@),
            loaded: self.loaded,
            loaded_at_secs: self.loaded_at_secs,
        }
    }
}

/// How long a loaded catalog stays fresh.
pub const SCHEMA_CACHE_TTL_SECS: u64 = 300;

impl Default for SchemaCache {
    /// An empty, unloaded catalog.
    fn default() -> (r: SchemaCache)
        ensures
            r@.schemas.len() == 0,
            !r@.loaded,
            r@.loaded_at_secs is None,
    {
        SchemaCache { by_priority: Vec::new(), loaded: false, loaded_at_secs: None }
    }
}

impl SchemaCache {
    /// An empty, unloaded catalog.
    pub fn new() -> (r: SchemaCache)
        ensures
            r@.schemas.len() == 0,
            !r@.loaded,
            r@.loaded_at_secs is None,
    {
        SchemaCache { by_priority: Vec::new(), loaded: false, loaded_at_secs: None }
    }

    /// Whether a load has happened.
    pub fn is_loaded(&self) -> (r: bool)
        ensures
            r == self@.loaded,
    {
        self.loaded
    }

    /// The loaded versions, in priority order.
    pub fn schema_versions(&self) -> (r: Vec<String>)
        ensures
            r@.len() == self@.schemas.len(),
            forall|i: int| 0 <= i < r@.len() ==> r@[i]@ == self@.schemas[i].version,
    {
        let mut out: Vec<String> = Vec::new();
        let mut i: usize = 0;
        while i < self.by_priority.len()
            invariant
                i <= self.by_priority@.len(),
                out@.len() == i as int,
                forall|k: int| 0 <= k < i ==> out@[k]@ == defs_view(self.by_priority@)[k].version,
            decreases self.by_priority@.len() - i,
        {
            out.push(self.by_priority[i].version.clone());
            i = i + 1;
        }
        out
    }

    /// The definitions in priority order.
    pub fn schemas_by_priority(&self) -> (r: &Vec<SchemaDefinition>)
        ensures
            defs_view(r@) == self@.schemas,
    {
        &self.by_priority
    }

    /// The definition of one version, if loaded.
    pub fn get_schema(&self, version: &str) -> (r: Option<&SchemaDefinition>)
        ensures
            match r {
                Some(s) => find_schema_of(self@.schemas, version@) == Some(s@),
                None => find_schema_of(self@.schemas, version@) is None,
            },
    {
        let ghost ms = defs_view(self.by_priority@);
        let mut i: usize = 0;
        proof {
            assert(ms.skip(0) =~= ms);
        }
        while i < self.by_priority.len()
            invariant
                i <= self.by_priority@.len(),
                ms == defs_view(self.by_priority@),
                find_schema_of(ms, version@) == find_schema_of(ms.skip(i as int), version@),
            decreases self.by_priority@.len() - i,
        {
            proof {
                assert(ms.skip(i as int)[0] == ms[i as int]);
                assert(ms.skip(i as int).drop_first() =~= ms.skip(i as int + 1));
            }
            if str_eq(self.by_priority[i].version.as_str(), version) {
                return Some(&self.by_priority[i]);
            }
            i = i + 1;
        }
        None
    }

    /// The first definition, in priority order, matching the event set.
    pub fn detect_schema_version(&self, event_types: &Vec<String>, _ctx: &LogContext) -> (r:
        Option<&SchemaDefinition>)
        ensures
            match r {
                Some(s) => detect_of(self@.schemas, strings_view(event_types@)) == Some(s@),
                None => detect_of(self@.schemas, strings_view(event_types@)) is None,
            },
    {
        let ghost ms = defs_view(self.by_priority@);
        let ghost evs = strings_view(event_types@);
        let mut i: usize = 0;
        proof {
            assert(ms.skip(0) =~= ms);
        }
        while i < self.by_priority.len()
            invariant
                i <= self.by_priority@.len(),
                ms == defs_view(self.by_priority@),
                evs == strings_view(event_types@),
                detect_of(ms, evs) == detect_of(ms.skip(i as int), evs),
            decreases self.by_priority@.len() - i,
        {
            proof {
                assert(ms.skip(i as int)[0] == ms[i as int]);
                assert(ms.skip(i as int).drop_first() =~= ms.skip(i as int + 1));
            }
            if self.by_priority[i].matches(event_types) {
                return Some(&self.by_priority[i]);
            }
            i = i + 1;
        }
        None
    }

    /// The extraction rules for one version and event type; empty when none.
    pub fn get_field_rules(&self, version: &str, event_type: &str) -> (r: Vec<
        FieldExtractionRule,
    >)
        ensures
            rules_view(r@) == rules_of_cache(self@, version@, event_type@),
    {
        match self.get_schema(version) {
            Some(schema) => {
                let ghost fe = schema@.field_extractions;
                let mut i: usize = 0;
                proof {
                    assert(fe.skip(0) =~= fe);
                }
                while i < schema.field_extractions.len()
                    invariant
                        i <= schema.field_extractions@.len(),
                        fe == schema@.field_extractions,
                        find_schema_of(self@.schemas, version@) == Some(schema@),
                        fe.len() == schema.field_extractions@.len(),
                        lookup_rules(fe, event_type@) == lookup_rules(
                            fe.skip(i as int),
                            event_type@,
                        ),
                    decreases schema.field_extractions@.len() - i,
                {
                    proof {
                        assert(fe[i as int] == (
                            schema.field_extractions@[i as int].0@,
                            rules_view(schema.field_extractions@[i as int].1@),
                        ));
                        assert(fe.skip(i as int)[0] == fe[i as int]);
                        assert(fe.skip(i as int).drop_first() =~= fe.skip(i as int + 1));
                    }
                    if str_eq(schema.field_extractions[i].0.as_str(), event_type) {
                        let rules = &schema.field_extractions[i].1;
                        let mut out: Vec<FieldExtractionRule> = Vec::new();
                        let mut k: usize = 0;
                        while k < rules.len()
                            invariant
                                k <= rules@.len(),
                                out@.len() == k as int,
                                forall|q: int| 0 <= q < k ==> out@[q]@ == rules@[q]@,
                            decreases rules@.len() - k,
                        {
                            out.push(rules[k].clone());
                            k = k + 1;
                        }
                        proof {
                            assert(rules_view(out@) =~= rules_view(rules@));
                            assert(lookup_rules(fe, event_type@) == fe[i as int].1);
                            assert(fe[i as int].1 == rules_view(rules@));
                        }
                        return out;
                    }
                    i = i + 1;
                }
                let empty: Vec<FieldExtractionRule> = Vec::new();
                proof {
                    assert(fe.skip(fe.len() as int)
                        =~= Seq::<(Seq<char>, Seq<RuleModel>)>::empty());
                    assert(rules_view(empty@) =~= Seq::<RuleModel>::empty());
                }
                empty
            },
            None => {
                let empty: Vec<FieldExtractionRule> = Vec::new();
                proof {
                    assert(rules_view(empty@) =~= Seq::<RuleModel>::empty());
                }
                empty
            },
        }
    }

    /// Forget everything.
    pub fn clear(&mut self)
        ensures
            final(self)@.schemas.len() == 0,
            !final(self)@.loaded,
            final(self)@.loaded_at_secs is None,
    {
        self.by_priority = Vec::new();
        self.loaded = false;
        self.loaded_at_secs = None;
    }

    /// Record the load instant, for refresh decisions.
    pub fn mark_loaded(&mut self, now_secs: u64)
        ensures
            final(self)@.schemas == old(self)@.schemas,
            final(self)@.loaded == old(self)@.loaded,
            final(self)@.loaded_at_secs == Some(now_secs),
    {
        self.loaded_at_secs = Some(now_secs);
    }

    /// Whether the catalog should be reloaded: never loaded, or older than
    /// its time to live.
    pub fn needs_refresh(&self, now_secs: u64) -> (r: bool)
        ensures
            r == (self@.schemas.len() == 0 || match self@.loaded_at_secs {
                Some(t) => now_secs > t && now_secs - t > SCHEMA_CACHE_TTL_SECS,
                None => true,
            }),
    {
        if self.by_priority.len() == 0 {
            return true;
        }
        match self.loaded_at_secs {
            Some(t) => now_secs > t && now_secs - t > SCHEMA_CACHE_TTL_SECS,
            None => true,
        }
    }

    /// Seconds since the load, if one happened and time moved forward.
    pub fn cache_age_secs(&self, now_secs: u64) -> (r: Option<u64>)
        ensures
            r == (match self@.loaded_at_secs {
                Some(t) => if now_secs >= t {
                    Some((now_secs - t) as u64)
                } else {
                    Some(0u64)
                },
                None => None::<u64>,
            }),
    {
        match self.loaded_at_secs {
            Some(t) => {
                if now_secs >= t {
                    Some(now_secs - t)
                } else {
                    Some(0)
                }
            },
            None => None,
        }
    }
}

// ---------------------------------------------------------------------------
// Loading
// ---------------------------------------------------------------------------

/// One bucket of the priority order.
pub open spec fn prio_filter(defs: Seq<SchemaModel>, p: int) -> Seq<SchemaModel> {
    defs.filter(|d: SchemaModel| status_priority(d.status) == p)
}

/// The buckets below `p`, concatenated.
pub open spec fn buckets_upto(defs: Seq<SchemaModel>, p: int) -> Seq<SchemaModel>
    decreases p,
{
    if p <= 0 {
        Seq::empty()
    } else {
        buckets_upto(defs, p - 1) + prio_filter(defs, p - 1)
    }
}

proof fn lemma_by_priority_is_buckets(defs: Seq<SchemaModel>)
    ensures
        by_priority_of(defs) == buckets_upto(defs, 4),
{
    reveal_with_fuel(buckets_upto, 5);
    assert(buckets_upto(defs, 4) =~= by_priority_of(defs));
}

fn status_priority_exec(status: &str) -> (r: u32)
    ensures
        r as int == status_priority(status@),
{
    if str_eq(status, "current") {
        0
    } else if str_eq(status, "supported") {
        1
    } else if str_eq(status, "deprecated") {
        2
    } else {
        3
    }
}

/// The rules of one version and event type, in row order.
fn build_rules(fields: &Vec<FieldRow>, ver: &str, ev: &str) -> (r: Vec<FieldExtractionRule>)
    ensures
        rules_view(r@) == rules_for(fields@, ver@, ev@, 0),
{
    let mut out: Vec<FieldExtractionRule> = Vec::new();
    let mut i: usize = 0;
    proof {
        assert(rules_view(out@) + rules_for(fields@, ver@, ev@, 0) =~= rules_for(
            fields@,
            ver@,
            ev@,
            0,
        ));
    }
    while i < fields.len()
        invariant
            i <= fields@.len(),
            rules_view(out@) + rules_for(fields@, ver@, ev@, i as int) == rules_for(
                fields@,
                ver@,
                ev@,
                0,
            ),
        decreases fields@.len() - i,
    {
        let row = &fields[i];
        let ghost before = rules_view(out@);
        if str_eq(row.0.as_str(), ver) && str_eq(row.1.as_str(), ev) {
            let rule = FieldExtractionRule {
                field_name: row.2.clone(),
                json_path: row.3.clone(),
                data_type: row.4.clone(),
                required: row.5,
                db_column: row.6.clone(),
            };
            let ghost rm = rule@;
            out.push(rule);
            proof {
                assert(rules_view(out@) =~= before + seq![rm]);
                assert(rules_for(fields@, ver@, ev@, i as int) == seq![rm] + rules_for(
                    fields@,
                    ver@,
                    ev@,
                    i as int + 1,
                ));
                assert((before + seq![rm]) + rules_for(fields@, ver@, ev@, i as int + 1)
                    =~= before + rules_for(fields@, ver@, ev@, i as int));
            }
        }
        i = i + 1;
    }
    proof {
        assert(rules_for(fields@, ver@, ev@, fields@.len() as int) =~= Seq::<RuleModel>::empty());
        assert(rules_view(out@) =~= rules_view(out@) + rules_for(
            fields@,
            ver@,
            ev@,
            fields@.len() as int,
        ));
    }
    out
}

proof fn lemma_contain_push(s: Seq<Seq<char>>, x: Seq<char>, e: Seq<char>)
    ensures
        events_contain(s.push(x), e) == (events_contain(s, e) || e == x),
{
    if events_contain(s.push(x), e) {
        let i = choose|i: int| 0 <= i < s.push(x).len() && s.push(x)[i] == e;
        if i < s.len() {
            assert(s[i] == e);
        }
    }
    if events_contain(s, e) {
        let i = choose|i: int| 0 <= i < s.len() && s[i] == e;
        assert(s.push(x)[i] == e);
    }
    if e == x {
        assert(s.push(x)[s.len() as int] == e);
    }
}

/// The event types of one version, in order of first appearance.
fn build_events(fields: &Vec<FieldRow>, ver: &str) -> (r: Vec<String>)
    ensures
        strings_view(r@) == events_for(fields@, ver@, 0),
{
    let mut out: Vec<String> = Vec::new();
    let mut i: usize = 0;
    proof {
        assert(strings_view(out@) + events_for(fields@, ver@, 0) =~= events_for(
            fields@,
            ver@,
            0,
        ));
    }
    while i < fields.len()
        invariant
            i <= fields@.len(),
            strings_view(out@) + events_for(fields@, ver@, i as int) == events_for(
                fields@,
                ver@,
                0,
            ),
            forall|e: Seq<char>| events_contain(strings_view(out@), e) <==> exists|k: int|
                0 <= k < i && fields@[k].0@ == ver@ && fields@[k].1@ == e,
        decreases fields@.len() - i,
    {
        let row = &fields[i];
        let ghost before = strings_view(out@);
        if str_eq(row.0.as_str(), ver) {
            if !vec_contains_str(&out, row.1.as_str()) {
                proof {
                    assert(forall|k: int|
                        0 <= k < i ==> !(fields@[k].0@ == ver@ && fields@[k].1@
                            == fields@[i as int].1@));
                    assert(events_for(fields@, ver@, i as int) == seq![fields@[i as int].1@]
                        + events_for(fields@, ver@, i as int + 1));
                }
                let ev = row.1.clone();
                let ghost em = ev@;
                out.push(ev);
                proof {
                    assert(strings_view(out@) =~= before.push(em));
                    assert((before + seq![em]) + events_for(fields@, ver@, i as int + 1)
                        =~= before + events_for(fields@, ver@, i as int));
                    assert(before.push(em) =~= before + seq![em]);
                    assert forall|e: Seq<char>|
                        events_contain(strings_view(out@), e) <==> exists|k: int|
                            0 <= k < i + 1 && fields@[k].0@ == ver@ && fields@[k].1@ == e by {
                        lemma_contain_push(before, em, e);
                        if e == em {
                            assert(fields@[i as int].0@ == ver@ && fields@[i as int].1@ == e);
                        }
                        if events_contain(before, e) {
                        }
                        if exists|k: int| 0 <= k < i + 1 && fields@[k].0@ == ver@
                            && fields@[k].1@ == e {
                            let k = choose|k: int|
                                0 <= k < i + 1 && fields@[k].0@ == ver@ && fields@[k].1@ == e;
                            if k < i {
                                assert(events_contain(before, e));
                            }
                        }
                    }
                }
            } else {
                proof {
                    assert(exists|k: int|
                        0 <= k < i && fields@[k].0@ == ver@ && fields@[k].1@
                            == fields@[i as int].1@);
                    assert(events_for(fields@, ver@, i as int) == events_for(
                        fields@,
                        ver@,
                        i as int + 1,
                    ));
                    assert forall|e: Seq<char>|
                        events_contain(strings_view(out@), e) <==> exists|k: int|
                            0 <= k < i + 1 && fields@[k].0@ == ver@ && fields@[k].1@ == e by {
                        if exists|k: int| 0 <= k < i + 1 && fields@[k].0@ == ver@
                            && fields@[k].1@ == e {
                            let k = choose|k: int|
                                0 <= k < i + 1 && fields@[k].0@ == ver@ && fields@[k].1@ == e;
                            if k == i && e == fields@[i as int].1@ {
                                assert(events_contain(strings_view(out@), e));
                            }
                        }
                    }
                }
            }
        } else {
            proof {
                assert(events_for(fields@, ver@, i as int) == events_for(
                    fields@,
                    ver@,
                    i as int + 1,
                ));
                assert forall|e: Seq<char>|
                    events_contain(strings_view(out@), e) <==> exists|k: int|
                        0 <= k < i + 1 && fields@[k].0@ == ver@ && fields@[k].1@ == e by {
                    if exists|k: int| 0 <= k < i + 1 && fields@[k].0@ == ver@ && fields@[k].1@
                        == e {
                        let k = choose|k: int|
                            0 <= k < i + 1 && fields@[k].0@ == ver@ && fields@[k].1@ == e;
                        assert(k < i);
                    }
                }
            }
        }
        i = i + 1;
    }
    proof {
        assert(events_for(fields@, ver@, fields@.len() as int) =~= Seq::<Seq<char>>::empty());
        assert(strings_view(out@) =~= strings_view(out@) + events_for(
            fields@,
            ver@,
            fields@.len() as int,
        ));
    }
    out
}

/// Build the definition of one schema row.
fn build_def(row: &SchemaRow, fields: &Vec<FieldRow>) -> (r: SchemaDefinition)
    ensures
        r@ == def_model_of(*row, fields@),
{
    let is_conn = str_eq(row.0.as_str(), "connectivity");
    let mut events_copy: Vec<String> = Vec::new();
    let mut i: usize = 0;
    while i < row.3.len()
        invariant
            i <= row.3@.len(),
            events_copy@.len() == i as int,
            forall|k: int| 0 <= k < i ==> events_copy@[k]@ == row.3@[k]@,
        decreases row.3@.len() - i,
    {
        events_copy.push(row.3[i].clone());
        i = i + 1;
    }
    proof {
        assert(strings_view(events_copy@) =~= strings_view(row.3@));
    }
    let evs = build_events(fields, row.0.as_str());
    let mut fe: Vec<(String, Vec<FieldExtractionRule>)> = Vec::new();
    let mut k: usize = 0;
    while k < evs.len()
        invariant
            k <= evs@.len(),
            strings_view(evs@) == events_for(fields@, row.0@, 0),
            fe@.len() == k as int,
            forall|q: int| 0 <= q < k ==> fe@[q].0@ == evs@[q]@ && rules_view(fe@[q].1@)
                == rules_for(fields@, row.0@, evs@[q]@, 0),
        decreases evs@.len() - k,
    {
        let rules = build_rules(fields, row.0.as_str(), evs[k].as_str());
        fe.push((evs[k].clone(), rules));
        k = k + 1;
    }
    let r = SchemaDefinition {
        version: row.0.clone(),
        description: row.1.clone(),
        status: row.2.clone(),
        signature_event_types: events_copy,
        field_extractions: fe,
        match_mode: if is_conn {
            "any".to_owned()
        } else {
            "all".to_owned()
        },
        special_handling: is_conn,
    };
    proof {
        assert(r@.field_extractions =~= fe_of(fields@, row.0@));
        assert(r@ =~= def_model_of(*row, fields@));
    }
    r
}

impl SchemaCache {
    /// Replace the whole catalog with the definitions built from catalog
    /// rows, ordered by status priority, earlier rows first within one
    /// status.
    pub fn load_from_db_rows(&mut self, schemas: Vec<SchemaRow>, fields: Vec<FieldRow>)
        ensures
            final(self)@.schemas == by_priority_of(raw_defs_of(schemas@, fields@)),
            final(self)@.loaded,
            final(self)@.loaded_at_secs == old(self)@.loaded_at_secs,
    {
        let ghost raw = raw_defs_of(schemas@, fields@);
        let mut out: Vec<SchemaDefinition> = Vec::new();
        let mut p: u32 = 0;
        proof {
            assert(defs_view(out@) =~= buckets_upto(raw, 0));
        }
        while p < 4
            invariant
                p <= 4,
                raw == raw_defs_of(schemas@, fields@),
                defs_view(out@) == buckets_upto(raw, p as int),
            decreases 4 - p,
        {
            let mut i: usize = 0;
            proof {
                assert(raw.take(0) =~= Seq::<SchemaModel>::empty());
                assert(prio_filter(raw.take(0), p as int) =~= Seq::<SchemaModel>::empty());
                assert(defs_view(out@) + prio_filter(raw.take(0), p as int) =~= defs_view(
                    out@,
                ));
            }
            while i < schemas.len()
                invariant
                    i <= schemas@.len(),
                    p < 4,
                    raw == raw_defs_of(schemas@, fields@),
                    raw.len() == schemas@.len(),
                    defs_view(out@) == buckets_upto(raw, p as int) + prio_filter(
                        raw.take(i as int),
                        p as int,
                    ),
                decreases schemas@.len() - i,
            {
                let ghost before = defs_view(out@);
                proof {
                    reveal(Seq::filter);
                    assert(raw.take(i as int + 1).drop_last() =~= raw.take(i as int));
                    assert(raw.take(i as int + 1).last() == raw[i as int]);
                }
                if status_priority_exec(schemas[i].2.as_str()) == p {
                    let d = build_def(&schemas[i], &fields);
                    let ghost dm = d@;
                    out.push(d);
                    proof {
                        reveal(Seq::filter);
                        assert(dm == raw[i as int]);
                        assert(defs_view(out@) =~= before.push(dm));
                        assert(prio_filter(raw.take(i as int + 1), p as int) == prio_filter(
                            raw.take(i as int),
                            p as int,
                        ).push(raw[i as int]));
                        assert(before.push(dm) =~= buckets_upto(raw, p as int) + prio_filter(
                            raw.take(i as int + 1),
                            p as int,
                        ));
                    }
                } else {
                    proof {
                        reveal(Seq::filter);
                        assert(prio_filter(raw.take(i as int + 1), p as int) == prio_filter(
                            raw.take(i as int),
                            p as int,
                        ));
                    }
                }
                i = i + 1;
            }
            proof {
                assert(raw.take(schemas@.len() as int) =~= raw);
                assert(buckets_upto(raw, p as int + 1) == buckets_upto(raw, p as int)
                    + prio_filter(raw, p as int));
            }
            p = p + 1;
        }
        self.by_priority = out;
        self.loaded = true;
        proof {
            lemma_by_priority_is_buckets(raw);
        }
    }
}

/// The outcome of schema validation for one trace.
#[derive(Debug)]
pub struct SchemaValidationResult {
    pub version: Option<String>,
    pub valid: bool,
    pub reason: Option<String>,
    pub event_types: Vec<String>,
}

impl SchemaValidationResult {
    /// A successful validation carrying the matched version.
    pub fn valid(version: &str, event_types: Vec<String>) -> (r: SchemaValidationResult)
        ensures
            r.valid,
            r.version matches Some(v) && v@ == version@,
            r.reason is None,
            r.event_types@ == event_types@,
    {
        SchemaValidationResult {
            version: Some(version.to_owned()),
            valid: true,
            reason: None,
            event_types,
        }
    }

    /// A failed validation carrying the reason.
    pub fn invalid(reason: &str, event_types: Vec<String>) -> (r: SchemaValidationResult)
        ensures
            !r.valid,
            r.version is None,
            r.reason matches Some(m) && m@ == reason@,
            r.event_types@ == event_types@,
    {
        SchemaValidationResult {
            version: None,
            valid: false,
            reason: Some(reason.to_owned()),
            event_types,
        }
    }
}

} // verus!
