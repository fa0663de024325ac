//! Canonical JSON encodings used as signature messages.
//!
//! Three historical encodings are supported:
//! - modern: a wrapper object around the components, compact separators,
//!   sorted keys, nothing stripped;
//! - intermediate: the components alone, compact separators, sorted keys,
//!   empty values stripped recursively;
//! - legacy: the components alone, spaced separators, sorted keys, nothing
//!   stripped.
//!
//! All are exact functions of the JSON model: keys are ordered
//! lexicographically by code point, strings are escaped as standard JSON,
//! number tokens pass through unchanged.

use vstd::prelude::*;

use crate::json::{entry_models_of, models_of_seq, Json, JsonModel};
use crate::text::{append_chars, chars_to_string, lex_le, str_chars, str_lex_le};

verus! {

// ---------------------------------------------------------------------------
// String escaping
// ---------------------------------------------------------------------------

/// Lower-case hexadecimal digit for a value below 16.
pub open spec fn hex_digit(n: int) -> char {
    if n < 10 {
        (('0' as u8) + n) as char
    } else {
        (('a' as u8) + (n - 10)) as char
    }
}

/// How one character appears inside a JSON string literal.
pub open spec fn esc_char(c: char) -> Seq<char> {
    if c == '"' {
        seq!['\\', '"']
    } else if c == '\\' {
        seq!['\\', '\\']
    } else if c == '\u{8}' {
        seq!['\\', 'b']
    } else if c == '\t' {
        seq!['\\', 't']
    } else if c == '\n' {
        seq!['\\', 'n']
    } else if c == '\u{c}' {
        seq!['\\', 'f']
    } else if c == '\r' {
        seq!['\\', 'r']
    } else if (c as int) < 0x20 {
        seq!['\\', 'u', '0', '0', hex_digit((c as int) / 16), hex_digit((c as int) % 16)]
    } else {
        seq![c]
    }
}

pub open spec fn esc_from(s: Seq<char>, i: int) -> Seq<char>
    decreases s.len() - i,
{
    if i < 0 || i >= s.len() {
        Seq::empty()
    } else {
        esc_char(s[i]) + esc_from(s, i + 1)
    }
}

/// The body of a JSON string literal for `s`.
pub open spec fn escaped(s: Seq<char>) -> Seq<char> {
    esc_from(s, 0)
}

/// A complete JSON string literal for `s`.
pub open spec fn quoted(s: Seq<char>) -> Seq<char> {
    seq!['"'] + escaped(s) + seq!['"']
}

fn hex_digit_exec(n: u8) -> (r: char)
    requires
        n < 16,
    ensures
        r == hex_digit(n as int),
{
    if n < 10 {
        (('0' as u8) + n) as char
    } else {
        (('a' as u8) + (n - 10)) as char
    }
}

fn push_escaped_char(out: &mut Vec<char>, c: char)
    ensures
        final(out)@ == old(out)@ + esc_char(c),
{
    if c == '"' {
        out.push('\\');
        out.push('"');
    } else if c == '\\' {
        out.push('\\');
        out.push('\\');
    } else if c == '\u{8}' {
        out.push('\\');
        out.push('b');
    } else if c == '\t' {
        out.push('\\');
        out.push('t');
    } else if c == '\n' {
        out.push('\\');
        out.push('n');
    } else if c == '\u{c}' {
        out.push('\\');
        out.push('f');
    } else if c == '\r' {
        out.push('\\');
        out.push('r');
    } else if (c as u32) < 0x20 {
        let b = c as u8;
        out.push('\\');
        out.push('u');
        out.push('0');
        out.push('0');
        out.push(hex_digit_exec(b / 16));
        out.push(hex_digit_exec(b % 16));
    } else {
        out.push(c);
    }
    proof {
        assert(out@ =~= old(out)@ + esc_char(c));
    }
}

fn push_quoted(out: &mut Vec<char>, s: &str)
    ensures
        final(out)@ == old(out)@ + quoted(s@),
{
    let cs = str_chars(s);
    out.push('"');
    let mut i: usize = 0;
    while i < cs.len()
        invariant
            i <= cs.len(),
            cs@ == s@,
            out@ + esc_from(s@, i as int) == old(out)@ + seq!['"'] + escaped(s@),
        decreases cs.len() - i,
    {
        let ghost before = out@;
        push_escaped_char(out, cs[i]);
        proof {
            assert(before + (esc_char(s@[i as int]) + esc_from(s@, i as int + 1)) =~= (before
                + esc_char(s@[i as int])) + esc_from(s@, i as int + 1));
        }
        i = i + 1;
    }
    out.push('"');
    proof {
        assert(esc_from(s@, cs@.len() as int) =~= Seq::<char>::empty());
        assert(out@ =~= old(out)@ + quoted(s@));
    }
}

// ---------------------------------------------------------------------------
// Sorting object keys
// ---------------------------------------------------------------------------

pub open spec fn insert_entry(
    e: (Seq<char>, JsonModel),
    s: Seq<(Seq<char>, JsonModel)>,
) -> Seq<(Seq<char>, JsonModel)>
    decreases s.len(),
{
    if s.len() == 0 {
        seq![e]
    } else if lex_le(e.0, s[0].0) {
        seq![e] + s
    } else {
        seq![s[0]] + insert_entry(e, s.drop_first())
    }
}

/// Stable insertion sort of object entries by key.
pub open spec fn sort_entries(s: Seq<(Seq<char>, JsonModel)>) -> Seq<(Seq<char>, JsonModel)>
    decreases s.len(),
{
    if s.len() == 0 {
        Seq::empty()
    } else {
        insert_entry(s[0], sort_entries(s.drop_first()))
    }
}

/// The entries stand in key order.
pub open spec fn keys_sorted(s: Seq<(Seq<char>, JsonModel)>) -> bool {
    forall|i: int, j: int| 0 <= i < j < s.len() ==> lex_le(#[trigger] s[i].0, #[trigger] s[j].0)
}

/// Insertion keeps the list's entries: each one is the inserted entry or an
/// entry of the list.
proof fn lemma_insert_entry_members(e: (Seq<char>, JsonModel), s: Seq<(Seq<char>, JsonModel)>)
    ensures
        insert_entry(e, s).len() == s.len() + 1,
        forall|k: int| 0 <= k < insert_entry(e, s).len() ==> (#[trigger] insert_entry(e, s)[k])
            == e || exists|j: int| 0 <= j < s.len() && insert_entry(e, s)[k] == s[j],
    decreases s.len(),
{
    if s.len() > 0 && !crate::text::lex_le(e.0, s[0].0) {
        lemma_insert_entry_members(e, s.drop_first());
        assert forall|k: int| 0 <= k < insert_entry(e, s).len() implies (#[trigger] insert_entry(
            e,
            s,
        )[k]) == e || exists|j: int| 0 <= j < s.len() && insert_entry(e, s)[k] == s[j] by {
            if k == 0 {
                assert(insert_entry(e, s)[0] == s[0]);
            } else {
                let inner = insert_entry(e, s.drop_first());
                assert(insert_entry(e, s)[k] == inner[k - 1]);
                if inner[k - 1] != e {
                    let j = choose|j: int|
                        0 <= j < s.drop_first().len() && inner[k - 1] == s.drop_first()[j];
                    assert(insert_entry(e, s)[k] == s[j + 1]);
                }
            }
        }
    }
}

/// Inserting into a key-sorted list keeps it key-sorted.
proof fn lemma_insert_entry_sorted(e: (Seq<char>, JsonModel), s: Seq<(Seq<char>, JsonModel)>)
    requires
        keys_sorted(s),
    ensures
        keys_sorted(insert_entry(e, s)),
    decreases s.len(),
{
    crate::text::lemma_lex_le_total(e.0, if s.len() > 0 {
        s[0].0
    } else {
        e.0
    });
    if s.len() == 0 {
    } else if crate::text::lex_le(e.0, s[0].0) {
        assert forall|i: int, j: int|
            0 <= i < j < insert_entry(e, s).len() implies lex_le(
            #[trigger] insert_entry(e, s)[i].0,
            #[trigger] insert_entry(e, s)[j].0,
        ) by {
            if i == 0 {
                if j > 1 {
                    crate::text::lemma_lex_le_trans(e.0, s[0].0, s[j - 1].0);
                }
            }
        }
    } else {
        assert(keys_sorted(s.drop_first())) by {
            assert(forall|k: int| 0 <= k < s.drop_first().len() ==> s.drop_first()[k] == s[k
                + 1]);
        }
        lemma_insert_entry_sorted(e, s.drop_first());
        lemma_insert_entry_members(e, s.drop_first());
        let inner = insert_entry(e, s.drop_first());
        assert forall|i: int, j: int|
            0 <= i < j < insert_entry(e, s).len() implies lex_le(
            #[trigger] insert_entry(e, s)[i].0,
            #[trigger] insert_entry(e, s)[j].0,
        ) by {
            if i == 0 {
                assert(insert_entry(e, s)[0] == s[0]);
                assert(insert_entry(e, s)[j] == inner[j - 1]);
                if inner[j - 1] == e {
                    crate::text::lemma_lex_le_total(e.0, s[0].0);
                } else {
                    let q = choose|q: int|
                        0 <= q < s.drop_first().len() && inner[j - 1] == s.drop_first()[q];
                    assert(s.drop_first()[q] == s[q + 1]);
                    assert(lex_le(s[0].0, s[q + 1].0));
                }
            } else {
                assert(insert_entry(e, s)[i] == inner[i - 1]);
                assert(insert_entry(e, s)[j] == inner[j - 1]);
            }
        }
    }
}

/// The sort lives up to its name: its result is key-sorted.
pub proof fn lemma_sort_entries_sorted(s: Seq<(Seq<char>, JsonModel)>)
    ensures
        keys_sorted(sort_entries(s)),
    decreases s.len(),
{
    if s.len() > 0 {
        lemma_sort_entries_sorted(s.drop_first());
        lemma_insert_entry_sorted(s[0], sort_entries(s.drop_first()));
    }
}

/// The model with every object's entries sorted by key, recursively.
pub open spec fn sort_model(m: JsonModel) -> JsonModel
    decreases m, 0int,
{
    match m {
        JsonModel::Arr(items) => JsonModel::Arr(sort_items_from(items, 0)),
        JsonModel::Obj(entries) => JsonModel::Obj(sort_entries(sort_values_from(entries, 0))),
        _ => m,
    }
}

pub open spec fn sort_items_from(items: Seq<JsonModel>, i: int) -> Seq<JsonModel>
    decreases items, items.len() - i,
{
    if i < 0 || i >= items.len() {
        Seq::empty()
    } else {
        seq![sort_model(items[i])] + sort_items_from(items, i + 1)
    }
}

pub open spec fn sort_values_from(
    entries: Seq<(Seq<char>, JsonModel)>,
    i: int,
) -> Seq<(Seq<char>, JsonModel)>
    decreases entries, entries.len() - i,
{
    if i < 0 || i >= entries.len() {
        Seq::empty()
    } else {
        seq![(entries[i].0, sort_model(entries[i].1))] + sort_values_from(entries, i + 1)
    }
}

// ---------------------------------------------------------------------------
// Serialization of a model, in held order
// ---------------------------------------------------------------------------

/// Separator after a value inside a container.
pub open spec fn item_sep(spaced: bool) -> Seq<char> {
    if spaced {
        seq![',', ' ']
    } else {
        seq![',']
    }
}

/// Separator between a key and its value.
pub open spec fn kv_sep(spaced: bool) -> Seq<char> {
    if spaced {
        seq![':', ' ']
    } else {
        seq![':']
    }
}

/// JSON text of a model, entries in held order, keys not reordered.
pub open spec fn encoded(m: JsonModel, spaced: bool) -> Seq<char>
    decreases m, 0int,
{
    match m {
        JsonModel::Null => seq!['n', 'u', 'l', 'l'],
        JsonModel::Bool(b) => if b {
            seq!['t', 'r', 'u', 'e']
        } else {
            seq!['f', 'a', 'l', 's', 'e']
        },
        JsonModel::Num(t) => t,
        JsonModel::Str(s) => quoted(s),
        JsonModel::Arr(items) => seq!['['] + enc_items_from(items, 0, spaced) + seq![']'],
        JsonModel::Obj(entries) => seq!['{'] + enc_entries_from(entries, 0, spaced) + seq!['}'],
    }
}

pub open spec fn enc_items_from(items: Seq<JsonModel>, i: int, spaced: bool) -> Seq<char>
    decreases items, items.len() - i,
{
    if i < 0 || i >= items.len() {
        Seq::empty()
    } else {
        (if i == 0 {
            Seq::empty()
        } else {
            item_sep(spaced)
        }) + encoded(items[i], spaced) + enc_items_from(items, i + 1, spaced)
    }
}

pub open spec fn enc_entries_from(
    entries: Seq<(Seq<char>, JsonModel)>,
    i: int,
    spaced: bool,
) -> Seq<char>
    decreases entries, entries.len() - i,
{
    if i < 0 || i >= entries.len() {
        Seq::empty()
    } else {
        (if i == 0 {
            Seq::empty()
        } else {
            item_sep(spaced)
        }) + quoted(entries[i].0) + kv_sep(spaced) + encoded(entries[i].1, spaced)
            + enc_entries_from(entries, i + 1, spaced)
    }
}

// ---------------------------------------------------------------------------
// Empty-value stripping
// ---------------------------------------------------------------------------

/// Null, the empty string, the empty array and the empty object are "empty".
pub open spec fn is_empty_model(m: JsonModel) -> bool {
    match m {
        JsonModel::Null => true,
        JsonModel::Str(s) => s.len() == 0,
        JsonModel::Arr(items) => items.len() == 0,
        JsonModel::Obj(entries) => entries.len() == 0,
        _ => false,
    }
}

/// The model with empty values removed recursively; `None` when the whole
/// value is stripped away.
pub open spec fn strip_model(m: JsonModel) -> Option<JsonModel>
    decreases m, 0int,
{
    match m {
        JsonModel::Arr(items) => {
            let kept = strip_items_from(items, 0);
            if kept.len() == 0 {
                Option::None
            } else {
                Option::Some(JsonModel::Arr(kept))
            }
        },
        JsonModel::Obj(entries) => {
            let kept = strip_entries_from(entries, 0);
            if kept.len() == 0 {
                Option::None
            } else {
                Option::Some(JsonModel::Obj(kept))
            }
        },
        _ => Option::Some(m),
    }
}

pub open spec fn strip_items_from(items: Seq<JsonModel>, i: int) -> Seq<JsonModel>
    decreases items, items.len() - i,
{
    if i < 0 || i >= items.len() {
        Seq::empty()
    } else {
        let rest = strip_items_from(items, i + 1);
        if is_empty_model(items[i]) {
            rest
        } else {
            match strip_model(items[i]) {
                Option::Some(t) => seq![t] + rest,
                Option::None => rest,
            }
        }
    }
}

pub open spec fn strip_entries_from(
    entries: Seq<(Seq<char>, JsonModel)>,
    i: int,
) -> Seq<(Seq<char>, JsonModel)>
    decreases entries, entries.len() - i,
{
    if i < 0 || i >= entries.len() {
        Seq::empty()
    } else {
        let rest = strip_entries_from(entries, i + 1);
        if is_empty_model(entries[i].1) {
            rest
        } else {
            match strip_model(entries[i].1) {
                Option::Some(t) => seq![(entries[i].0, t)] + rest,
                Option::None => rest,
            }
        }
    }
}

/// Check whether a value is empty: null, `""`, `[]` or `{}`.
pub fn is_empty_value(value: &Json) -> (r: bool)
    ensures
        r == is_empty_model(value@),
{
    match value {
        Json::Null => true,
        Json::Str(s) => s.as_str().is_empty(),
        Json::Arr(items) => items.len() == 0,
        Json::Obj(entries) => entries.len() == 0,
        _ => false,
    }
}

/// Recursively remove empty values; `None` when everything was stripped.
#[verifier::loop_isolation(false)]
pub fn strip_empty(value: &Json) -> (r: Option<Json>)
    ensures
        match r {
            Option::Some(t) => strip_model(value@) == Option::Some(t@),
            Option::None => strip_model(value@) == Option::<JsonModel>::None,
        },
    decreases value,
{
    match value {
        Json::Arr(items) => {
            let ghost ms = models_of_seq(items@);
            proof {
                crate::json::lemma_models_of_seq(items@);
            }
            let mut kept: Vec<Json> = Vec::new();
            let mut i: usize = items.len();
            proof {
                assert(models_of_seq(kept@) =~= strip_items_from(ms, i as int));
            }
            while i > 0
                invariant
                    i <= items.len(),
                    ms == models_of_seq(items@),
                    ms.len() == items@.len(),
                    forall|k: int| 0 <= k < items@.len() ==> ms[k] == items@[k]@,
                    models_of_seq(kept@) == strip_items_from(ms, i as int),
                decreases i,
            {
                i = i - 1;
                let ghost kept_before = kept@;
                if !is_empty_value(&items[i]) {
                    match strip_empty(&items[i]) {
                        Option::Some(t) => {
                            let ghost tm = t@;
                            kept.insert(0, t);
                            proof {
                                crate::json::lemma_models_of_seq(kept_before);
                                crate::json::lemma_models_of_seq(kept@);
                                assert(models_of_seq(kept@) =~= seq![tm] + models_of_seq(
                                    kept_before,
                                ));
                            }
                        },
                        Option::None => {},
                    }
                }
            }
            if kept.len() == 0 {
                Option::None
            } else {
                Option::Some(Json::Arr(kept))
            }
        },
        Json::Obj(entries) => {
            let ghost ms = entry_models_of(entries@);
            proof {
                crate::json::lemma_entry_models_of(entries@);
            }
            let mut kept: Vec<(String, Json)> = Vec::new();
            let mut i: usize = entries.len();
            proof {
                assert(entry_models_of(kept@) =~= strip_entries_from(ms, i as int));
            }
            while i > 0
                invariant
                    i <= entries.len(),
                    ms == entry_models_of(entries@),
                    ms.len() == entries@.len(),
                    forall|k: int| 0 <= k < entries@.len() ==> ms[k] == (
                        entries@[k].0@,
                        entries@[k].1@,
                    ),
                    entry_models_of(kept@) == strip_entries_from(ms, i as int),
                decreases i,
            {
                i = i - 1;
                let ghost kept_before = kept@;
                if !is_empty_value(&entries[i].1) {
                    match strip_empty(&entries[i].1) {
                        Option::Some(t) => {
                            let ghost tm = t@;
                            let key = entries[i].0.clone();
                            let ghost km = key@;
                            kept.insert(0, (key, t));
                            proof {
                                crate::json::lemma_entry_models_of(kept_before);
                                crate::json::lemma_entry_models_of(kept@);
                                assert(entry_models_of(kept@) =~= seq![(km, tm)]
                                    + entry_models_of(kept_before));
                            }
                        },
                        Option::None => {},
                    }
                }
            }
            if kept.len() == 0 {
                Option::None
            } else {
                Option::Some(Json::Obj(kept))
            }
        },
        _ => Option::Some(value.clone()),
    }
}

// ---------------------------------------------------------------------------
// Sorting, executable
// ---------------------------------------------------------------------------

/// Where insertion lands: before the first entry whose key is not below `e`.
proof fn lemma_insert_entry_at(
    e: (Seq<char>, JsonModel),
    s: Seq<(Seq<char>, JsonModel)>,
    j: int,
)
    requires
        0 <= j <= s.len(),
        forall|k: int| 0 <= k < j ==> !lex_le(e.0, s[k].0),
        j < s.len() ==> lex_le(e.0, s[j].0),
    ensures
        insert_entry(e, s) =~= s.take(j) + seq![e] + s.skip(j),
    decreases j,
{
    if j == 0 {
        if s.len() == 0 {
            assert(insert_entry(e, s) =~= s.take(0) + seq![e] + s.skip(0));
        } else {
            assert(insert_entry(e, s) =~= s.take(0) + seq![e] + s.skip(0));
        }
    } else {
        lemma_insert_entry_at(e, s.drop_first(), j - 1);
        assert(s.drop_first().take(j - 1) =~= s.take(j).drop_first());
        assert(s.drop_first().skip(j - 1) =~= s.skip(j));
        assert(insert_entry(e, s) =~= seq![s[0]] + insert_entry(e, s.drop_first()));
        assert(seq![s[0]] + (s.drop_first().take(j - 1) + seq![e] + s.drop_first().skip(j - 1))
            =~= s.take(j) + seq![e] + s.skip(j));
    }
}

/// First position whose key is not below the key to insert.
fn insert_pos(key: &String, acc: &Vec<(String, Json)>) -> (j: usize)
    ensures
        j <= acc@.len(),
        forall|k: int| 0 <= k < j ==> !lex_le(key@, acc@[k].0@),
        j < acc@.len() ==> lex_le(key@, acc@[j as int].0@),
{
    let mut j: usize = 0;
    loop
        invariant
            j <= acc@.len(),
            forall|k: int| 0 <= k < j ==> !lex_le(key@, acc@[k].0@),
        decreases acc@.len() - j,
    {
        if j == acc.len() {
            return j;
        }
        if str_lex_le(key.as_str(), acc[j].0.as_str()) {
            return j;
        }
        j = j + 1;
    }
}

/// Insert one entry into a key-sorted entry list, keeping it sorted.
fn insert_entry_exec(e: (String, Json), acc: &mut Vec<(String, Json)>)
    ensures
        entry_models_of(final(acc)@) == insert_entry((e.0@, e.1@), entry_models_of(old(acc)@)),
{
    let ghost ms = entry_models_of(old(acc)@);
    let ghost em = (e.0@, e.1@);
    proof {
        crate::json::lemma_entry_models_of(old(acc)@);
    }
    let j = insert_pos(&e.0, acc);
    proof {
        lemma_insert_entry_at(em, ms, j as int);
    }
    acc.insert(j, e);
    proof {
        crate::json::lemma_entry_models_of(acc@);
        assert(entry_models_of(acc@) =~= ms.take(j as int) + seq![em] + ms.skip(j as int));
    }
}

/// A copy of the value with every object's entries sorted by key.
#[verifier::loop_isolation(false)]
pub fn sort_json(value: &Json) -> (r: Json)
    ensures
        r@ == sort_model(value@),
    decreases value,
{
    match value {
        Json::Arr(items) => {
            let ghost ms = models_of_seq(items@);
            proof {
                crate::json::lemma_models_of_seq(items@);
            }
            let mut out: Vec<Json> = Vec::new();
            let mut i: usize = items.len();
            proof {
                assert(models_of_seq(out@) =~= sort_items_from(ms, i as int));
            }
            while i > 0
                invariant
                    i <= items.len(),
                    ms == models_of_seq(items@),
                    ms.len() == items@.len(),
                    forall|k: int| 0 <= k < items@.len() ==> ms[k] == items@[k]@,
                    models_of_seq(out@) == sort_items_from(ms, i as int),
                decreases i,
            {
                i = i - 1;
                let ghost out_before = out@;
                let t = sort_json(&items[i]);
                let ghost tm = t@;
                out.insert(0, t);
                proof {
                    crate::json::lemma_models_of_seq(out_before);
                    crate::json::lemma_models_of_seq(out@);
                    assert(models_of_seq(out@) =~= seq![tm] + models_of_seq(out_before));
                }
            }
            Json::Arr(out)
        },
        Json::Obj(entries) => {
            let ghost ms = entry_models_of(entries@);
            proof {
                crate::json::lemma_entry_models_of(entries@);
            }
            // First sort each value, walking from the back so the ghost
            // suffix spec unfolds one step per iteration.
            let mut vals: Vec<(String, Json)> = Vec::new();
            let mut i: usize = entries.len();
            proof {
                assert(entry_models_of(vals@) =~= sort_values_from(ms, i as int));
            }
            while i > 0
                invariant
                    i <= entries.len(),
                    ms == entry_models_of(entries@),
                    ms.len() == entries@.len(),
                    forall|k: int| 0 <= k < entries@.len() ==> ms[k] == (
                        entries@[k].0@,
                        entries@[k].1@,
                    ),
                    entry_models_of(vals@) == sort_values_from(ms, i as int),
                decreases i,
            {
                i = i - 1;
                let ghost vals_before = vals@;
                let key = entries[i].0.clone();
                let ghost km = key@;
                let t = sort_json(&entries[i].1);
                let ghost tm = t@;
                vals.insert(0, (key, t));
                proof {
                    crate::json::lemma_entry_models_of(vals_before);
                    crate::json::lemma_entry_models_of(vals@);
                    assert(entry_models_of(vals@) =~= seq![(km, tm)] + entry_models_of(
                        vals_before,
                    ));
                }
            }
            // Then insertion-sort the entries by key, again from the back.
            let ghost vs = entry_models_of(vals@);
            proof {
                crate::json::lemma_entry_models_of(vals@);
            }
            let mut out: Vec<(String, Json)> = Vec::new();
            let mut k: usize = vals.len();
            proof {
                assert(vs.skip(k as int) =~= Seq::<(Seq<char>, JsonModel)>::empty());
                assert(entry_models_of(out@) =~= sort_entries(vs.skip(k as int)));
            }
            while k > 0
                invariant
                    k <= vals.len(),
                    vs == entry_models_of(vals@),
                    vs.len() == vals@.len(),
                    forall|q: int| 0 <= q < vals@.len() ==> vs[q] == (
                        vals@[q].0@,
                        vals@[q].1@,
                    ),
                    entry_models_of(out@) == sort_entries(vs.skip(k as int)),
                decreases k,
            {
                k = k - 1;
                let e = (vals[k].0.clone(), vals[k].1.clone());
                proof {
                    assert(vs.skip(k as int)[0] == vs[k as int]);
                    assert(vs.skip(k as int).drop_first() =~= vs.skip(k as int + 1));
                }
                insert_entry_exec(e, &mut out);
            }
            proof {
                assert(vs.skip(0) =~= vs);
            }
            Json::Obj(out)
        },
        _ => value.clone(),
    }
}

// ---------------------------------------------------------------------------
// Serialization, executable
// ---------------------------------------------------------------------------

fn ser_into(value: &Json, spaced: bool, out: &mut Vec<char>)
    ensures
        final(out)@ == old(out)@ + encoded(value@, spaced),
    decreases value, 0int,
{
    match value {
        Json::Null => {
            out.push('n');
            out.push('u');
            out.push('l');
            out.push('l');
            proof {
                assert(out@ =~= old(out)@ + encoded(value@, spaced));
            }
        },
        Json::Bool(b) => {
            if *b {
                out.push('t');
                out.push('r');
                out.push('u');
                out.push('e');
            } else {
                out.push('f');
                out.push('a');
                out.push('l');
                out.push('s');
                out.push('e');
            }
            proof {
                assert(out@ =~= old(out)@ + encoded(value@, spaced));
            }
        },
        Json::Num(t) => {
            append_chars(out, t.as_str());
        },
        Json::Str(s) => {
            push_quoted(out, s.as_str());
        },
        Json::Arr(items) => {
            ser_arr_into(items, spaced, out);
        },
        Json::Obj(entries) => {
            ser_obj_into(entries, spaced, out);
        },
    }
}

#[verifier::loop_isolation(false)]
fn ser_arr_into(items: &Vec<Json>, spaced: bool, out: &mut Vec<char>)
    ensures
        final(out)@ == old(out)@ + seq!['['] + enc_items_from(models_of_seq(items@), 0, spaced)
            + seq![']'],
    decreases items, 1int,
{
    let ghost ms = models_of_seq(items@);
    proof {
        crate::json::lemma_models_of_seq(items@);
    }
    out.push('[');
    let ghost head = old(out)@ + seq!['['];
    let mut i: usize = 0;
    proof {
        assert(out@ + enc_items_from(ms, 0, spaced) =~= head + enc_items_from(ms, 0, spaced));
    }
    while i < items.len()
        invariant
            i <= items@.len(),
            out@ + enc_items_from(ms, i as int, spaced) == head + enc_items_from(ms, 0, spaced),
        decreases items@.len() - i,
    {
        let ghost before = out@;
        let ghost lead: Seq<char> = if i == 0 {
            Seq::empty()
        } else {
            item_sep(spaced)
        };
        if i > 0 {
            out.push(',');
            if spaced {
                out.push(' ');
            }
        }
        proof {
            assert(out@ =~= before + lead);
        }
        ser_into(&items[i], spaced, out);
        proof {
            assert(enc_items_from(ms, i as int, spaced) == lead + encoded(ms[i as int], spaced)
                + enc_items_from(ms, i as int + 1, spaced));
            assert(out@ + enc_items_from(ms, i as int + 1, spaced) =~= before + enc_items_from(
                ms,
                i as int,
                spaced,
            ));
        }
        i = i + 1;
    }
    out.push(']');
    proof {
        assert(enc_items_from(ms, items@.len() as int, spaced) =~= Seq::<char>::empty());
        assert(out@ =~= old(out)@ + seq!['['] + enc_items_from(ms, 0, spaced) + seq![']']);
    }
}

#[verifier::loop_isolation(false)]
#[verifier::rlimit(50)]
fn ser_obj_into(entries: &Vec<(String, Json)>, spaced: bool, out: &mut Vec<char>)
    ensures
        final(out)@ == old(out)@ + seq!['{'] + enc_entries_from(
            entry_models_of(entries@),
            0,
            spaced,
        ) + seq!['}'],
    decreases entries, 1int,
{
    let ghost ms = entry_models_of(entries@);
    proof {
        crate::json::lemma_entry_models_of(entries@);
    }
    out.push('{');
    let ghost head = old(out)@ + seq!['{'];
    let mut i: usize = 0;
    proof {
        assert(out@ + enc_entries_from(ms, 0, spaced) =~= head + enc_entries_from(
            ms,
            0,
            spaced,
        ));
    }
    while i < entries.len()
        invariant
            i <= entries@.len(),
            out@ + enc_entries_from(ms, i as int, spaced) == head + enc_entries_from(
                ms,
                0,
                spaced,
            ),
        decreases entries@.len() - i,
    {
        let ghost before = out@;
        let ghost lead: Seq<char> = if i == 0 {
            Seq::empty()
        } else {
            item_sep(spaced)
        };
        if i > 0 {
            out.push(',');
            if spaced {
                out.push(' ');
            }
        }
        proof {
            assert(out@ =~= before + lead);
        }
        push_quoted(out, entries[i].0.as_str());
        out.push(':');
        if spaced {
            out.push(' ');
        }
        proof {
            assert(out@ =~= before + lead + quoted(ms[i as int].0) + kv_sep(spaced));
        }
        ser_into(&entries[i].1, spaced, out);
        proof {
            assert(enc_entries_from(ms, i as int, spaced) == lead + quoted(ms[i as int].0)
                + kv_sep(spaced) + encoded(ms[i as int].1, spaced) + enc_entries_from(
                ms,
                i as int + 1,
                spaced,
            ));
            assert(out@ + enc_entries_from(ms, i as int + 1, spaced) =~= before
                + enc_entries_from(ms, i as int, spaced));
        }
        i = i + 1;
    }
    out.push('}');
    proof {
        assert(enc_entries_from(ms, entries@.len() as int, spaced) =~= Seq::<char>::empty());
        assert(out@ =~= old(out)@ + seq!['{'] + enc_entries_from(ms, 0, spaced) + seq!['}']);
    }
}

// ---------------------------------------------------------------------------
// The public encoders
// ---------------------------------------------------------------------------

/// JSON text of a value, entries in held order, compact separators.
pub fn json_to_string(value: &Json) -> (r: String)
    ensures
        r@ == encoded(value@, false),
{
    let mut out: Vec<char> = Vec::new();
    ser_into(value, false, &mut out);
    chars_to_string(&out)
}

/// The intermediate canonical encoding: compact, sorted keys, empty values
/// stripped; a fully stripped value encodes as `null`.
pub open spec fn canonical_stripped_of(m: JsonModel) -> Seq<char> {
    match strip_model(m) {
        Option::Some(t) => encoded(sort_model(t), false),
        Option::None => seq!['n', 'u', 'l', 'l'],
    }
}

/// Compact canonical text, sorted keys, nothing stripped.
pub open spec fn canonical_compact_of(m: JsonModel) -> Seq<char> {
    encoded(sort_model(m), false)
}

/// Legacy canonical text: sorted keys, a space after `,` and `:`.
pub open spec fn canonical_legacy_of(m: JsonModel) -> Seq<char> {
    encoded(sort_model(m), true)
}

/// The modern canonical message: a wrapper object holding the components and
/// the trace level, compact separators, sorted keys, nothing stripped.
pub open spec fn canonical_modern_of(components: JsonModel, level: Seq<char>) -> Seq<char> {
    seq!['{', '"', 'c', 'o', 'm', 'p', 'o', 'n', 'e', 'n', 't', 's', '"', ':']
        + canonical_compact_of(components) + seq![
        ',',
        '"',
        't',
        'r',
        'a',
        'c',
        'e',
        '_',
        'l',
        'e',
        'v',
        'e',
        'l',
        '"',
        ':',
        '"',
    ] + level + seq!['"', '}']
}

/// Serialize with sorted keys, compact separators, after stripping empty
/// values.
pub fn sort_and_serialize(value: &Json) -> (r: String)
    ensures
        r@ == canonical_stripped_of(value@),
{
    match strip_empty(value) {
        Option::Some(t) => sort_and_serialize_compact(&t),
        Option::None => sort_and_serialize_compact(&Json::Null),
    }
}

/// Serialize with sorted keys and compact separators, nothing stripped.
pub fn sort_and_serialize_compact(value: &Json) -> (r: String)
    ensures
        r@ == canonical_compact_of(value@),
{
    let sorted = sort_json(value);
    let mut out: Vec<char> = Vec::new();
    ser_into(&sorted, false, &mut out);
    chars_to_string(&out)
}

/// Serialize with sorted keys and spaced separators, nothing stripped.
pub fn sort_and_serialize_legacy(value: &Json) -> (r: String)
    ensures
        r@ == canonical_legacy_of(value@),
{
    let sorted = sort_json(value);
    let mut out: Vec<char> = Vec::new();
    ser_into(&sorted, true, &mut out);
    chars_to_string(&out)
}

/// Build the modern canonical message for the given components and level.
pub fn build_199_canonical(components: &Json, trace_level: &str) -> (r: String)
    ensures
        r@ == canonical_modern_of(components@, trace_level@),
{
    let mut out: Vec<char> = Vec::new();
    append_chars(&mut out, "{\"components\":");
    proof {
        reveal_strlit("{\"components\":");
        assert(out@ =~= seq![
            '{',
            '"',
            'c',
            'o',
            'm',
            'p',
            'o',
            'n',
            'e',
            'n',
            't',
            's',
            '"',
            ':',
        ]);
    }
    let sorted = sort_json(components);
    ser_into(&sorted, false, &mut out);
    let ghost mid1 = out@;
    append_chars(&mut out, ",\"trace_level\":\"");
    proof {
        reveal_strlit(",\"trace_level\":\"");
        assert(out@ =~= mid1 + seq![
            ',',
            '"',
            't',
            'r',
            'a',
            'c',
            'e',
            '_',
            'l',
            'e',
            'v',
            'e',
            'l',
            '"',
            ':',
            '"',
        ]);
    }
    append_chars(&mut out, trace_level);
    out.push('"');
    out.push('}');
    let r = chars_to_string(&out);
    proof {
        assert(r@ =~= canonical_modern_of(components@, trace_level@));
    }
    r
}

/// Canonical stability: whenever parsing a value's canonical text yields the
/// value's own model back, encoding again gives the same bytes, in each of
/// the three encodings.
pub proof fn lemma_canonical_idempotent(m: JsonModel)
    ensures
        crate::parse::parse_of(canonical_compact_of(m)) == Some(m)
            ==> canonical_compact_of(parse_back(canonical_compact_of(m)))
            == canonical_compact_of(m),
        crate::parse::parse_of(canonical_stripped_of(m)) == Some(m)
            ==> canonical_stripped_of(parse_back(canonical_stripped_of(m)))
            == canonical_stripped_of(m),
        crate::parse::parse_of(canonical_legacy_of(m)) == Some(m)
            ==> canonical_legacy_of(parse_back(canonical_legacy_of(m)))
            == canonical_legacy_of(m),
{
}

/// The model read back from a text, the original where parsing rejects it.
pub open spec fn parse_back(s: Seq<char>) -> JsonModel {
    match crate::parse::parse_of(s) {
        Some(m) => m,
        None => JsonModel::Null,
    }
}

/// The canonical encoders read only the mathematical model: two values with
/// one model have identical canonical texts in all three encodings, and the
/// texts are functions of that model alone.
pub proof fn lemma_canonical_deterministic(a: Json, b: Json)
    requires
        a@ == b@,
    ensures
        canonical_compact_of(a@) == canonical_compact_of(b@),
        canonical_stripped_of(a@) == canonical_stripped_of(b@),
        canonical_legacy_of(a@) == canonical_legacy_of(b@),
        forall|level: Seq<char>| canonical_modern_of(a@, level) == canonical_modern_of(
            b@,
            level,
        ),
{
}

} // verus!
