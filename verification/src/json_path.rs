//! Dotted-path resolution over JSON values, and coercions to strings.
//!
//! A path like `csdma.plausibility_score` is walked segment by segment: a
//! segment is an object key, or, on an array, a decimal index.  The empty
//! path names the root.  A missing key, an index out of range, or a scalar
//! met before the path ends all yield `None`.

use vstd::prelude::*;

use crate::canonical::encoded;
use crate::json::{entry_models_of, models_of_seq, Json, JsonModel};
use crate::parse::float_form_of;
use crate::text::{ascii_lower_chars, ascii_lower_seq, chars_to_string, str_chars, str_eq};

verus! {

// ---------------------------------------------------------------------------
// Decimal digits
// ---------------------------------------------------------------------------

pub open spec fn is_digit(c: char) -> bool {
    '0' <= c <= '9'
}

pub open spec fn all_digits(s: Seq<char>) -> bool {
    forall|i: int| 0 <= i < s.len() ==> is_digit(s[i])
}

/// Numeric value of a digit string, most significant first.
pub open spec fn digits_val(s: Seq<char>) -> int
    decreases s.len(),
{
    if s.len() == 0 {
        0
    } else {
        digits_val(s.drop_last()) * 10 + (s.last() as int - '0' as int)
    }
}

proof fn lemma_digits_val_nonneg(s: Seq<char>)
    requires
        all_digits(s),
    ensures
        digits_val(s) >= 0,
    decreases s.len(),
{
    if s.len() > 0 {
        assert(all_digits(s.drop_last()));
        lemma_digits_val_nonneg(s.drop_last());
    }
}

/// A digit string is worth at least any of its prefixes.
proof fn lemma_digits_val_prefix(s: Seq<char>, i: int)
    requires
        all_digits(s),
        0 <= i <= s.len(),
    ensures
        digits_val(s) >= digits_val(s.take(i)),
    decreases s.len() - i,
{
    if i < s.len() {
        lemma_digits_val_prefix(s, i + 1);
        assert(s.take(i + 1).drop_last() =~= s.take(i));
        assert(all_digits(s.take(i)));
        lemma_digits_val_nonneg(s.take(i));
        assert(digits_val(s.take(i + 1)) == digits_val(s.take(i)) * 10 + (s[i] as int
            - '0' as int));
    } else {
        assert(s.take(i) =~= s);
    }
}

/// Value of a non-empty digit string, `None` when a character is no digit,
/// the string is empty, or the value does not fit the bound.
pub open spec fn parse_digits_spec(s: Seq<char>, bound: int) -> Option<int> {
    if s.len() == 0 || !all_digits(s) || digits_val(s) > bound {
        None
    } else {
        Some(digits_val(s))
    }
}

fn digit_of(c: char) -> (r: Option<u64>)
    ensures
        r matches Some(d) ==> is_digit(c) && d == c as int - '0' as int && d <= 9,
        r is None ==> !is_digit(c),
{
    if '0' <= c && c <= '9' {
        Some((c as u32 as u64) - ('0' as u32 as u64))
    } else {
        None
    }
}

/// Parse the digits of `cs[from..to]` into a 64-bit value.
fn parse_digits(cs: &Vec<char>, from: usize, to: usize) -> (r: Option<u64>)
    requires
        from <= to <= cs@.len(),
    ensures
        ({
            let s = cs@.subrange(from as int, to as int);
            match r {
                Some(v) => parse_digits_spec(s, u64::MAX as int) == Some(v as int),
                None => parse_digits_spec(s, u64::MAX as int) is None,
            }
        }),
{
    let ghost s = cs@.subrange(from as int, to as int);
    if from == to {
        return None;
    }
    let mut acc: u64 = 0;
    let mut i: usize = from;
    proof {
        assert(s.take(0) =~= Seq::<char>::empty());
    }
    while i < to
        invariant
            from <= i <= to <= cs@.len(),
            s == cs@.subrange(from as int, to as int),
            all_digits(s.take(i - from)),
            acc as int == digits_val(s.take(i - from)),
        decreases to - i,
    {
        let ghost k = i - from;
        match digit_of(cs[i]) {
            Some(d) => {
                proof {
                    assert(s[k as int] == cs@[i as int]);
                    assert(s.take(k + 1).drop_last() =~= s.take(k as int));
                    assert(all_digits(s.take(k + 1)));
                }
                if acc > u64::MAX / 10 {
                    proof {
                        assert(acc * 10 + d > u64::MAX) by (nonlinear_arith)
                            requires
                                acc > u64::MAX / 10,
                                d >= 0,
                                u64::MAX == 18446744073709551615,
                        ;
                        if all_digits(s) {
                            assert(digits_val(s.take(k + 1)) == acc * 10 + d);
                            lemma_digits_val_prefix(s, k + 1);
                        }
                    }
                    return None;
                }
                let acc10 = acc * 10;
                proof {
                    assert(acc * 10 <= (u64::MAX / 10) * 10) by (nonlinear_arith)
                        requires
                            0 <= acc <= u64::MAX / 10,
                    ;
                }
                if d > u64::MAX - acc10 {
                    proof {
                        if all_digits(s) {
                            assert(digits_val(s.take(k + 1)) == acc10 + d);
                            lemma_digits_val_prefix(s, k + 1);
                        }
                    }
                    return None;
                }
                acc = acc10 + d;
            },
            None => {
                proof {
                    assert(s[k as int] == cs@[i as int]);
                }
                return None;
            },
        }
        i = i + 1;
    }
    proof {
        assert(s.take(to - from) =~= s);
    }
    Some(acc)
}

// ---------------------------------------------------------------------------
// Path segments
// ---------------------------------------------------------------------------

/// Index of the first dot, if any.
pub open spec fn first_dot(p: Seq<char>) -> Option<int>
    decreases p.len(),
{
    if p.len() == 0 {
        None
    } else if p[0] == '.' {
        Some(0)
    } else {
        match first_dot(p.drop_first()) {
            Some(i) => Some(i + 1),
            None => None,
        }
    }
}

proof fn lemma_first_dot(p: Seq<char>)
    ensures
        match first_dot(p) {
            Some(i) => 0 <= i < p.len() && p[i] == '.' && forall|k: int|
                0 <= k < i ==> p[k] != '.',
            None => forall|k: int| 0 <= k < p.len() ==> p[k] != '.',
        },
    decreases p.len(),
{
    if p.len() > 0 && p[0] != '.' {
        lemma_first_dot(p.drop_first());
        match first_dot(p) {
            Some(j) => {
                assert(p.drop_first()[j - 1] == p[j]);
                assert forall|k: int| 0 <= k < j implies p[k] != '.' by {
                    if k > 0 {
                        assert(p.drop_first()[k - 1] == p[k]);
                    }
                }
            },
            None => {
                assert forall|k: int| 0 <= k < p.len() implies p[k] != '.' by {
                    if k > 0 {
                        assert(p.drop_first()[k - 1] == p[k]);
                    }
                }
            },
        }
    }
}

/// Index parse for an array segment: an optional `+`, then digits, within
/// the machine's index range.
pub open spec fn parse_index(s: Seq<char>) -> Option<int> {
    let t = if s.len() > 0 && s[0] == '+' {
        s.drop_first()
    } else {
        s
    };
    parse_digits_spec(t, usize::MAX as int)
}

/// First entry with the given key.
pub open spec fn obj_lookup(entries: Seq<(Seq<char>, JsonModel)>, key: Seq<char>) -> Option<
    JsonModel,
>
    decreases entries.len(),
{
    if entries.len() == 0 {
        None
    } else if entries[0].0 == key {
        Some(entries[0].1)
    } else {
        obj_lookup(entries.drop_first(), key)
    }
}

/// One step of resolution: a key on an object, an index on an array.
pub open spec fn resolve_step(m: JsonModel, seg: Seq<char>) -> Option<JsonModel> {
    match m {
        JsonModel::Obj(entries) => obj_lookup(entries, seg),
        JsonModel::Arr(items) => match parse_index(seg) {
            Some(i) => if i < items.len() {
                Some(items[i])
            } else {
                None
            },
            None => None,
        },
        _ => None,
    }
}

/// Resolution over a non-empty path text: segment up to the first dot, then
/// the rest after it.
pub open spec fn resolve_str(m: JsonModel, p: Seq<char>) -> Option<JsonModel>
    decreases p.len(),
{
    match first_dot(p) {
        None => resolve_step(m, p),
        Some(j) => if 0 <= j < p.len() {
            match resolve_step(m, p.take(j)) {
                Some(m2) => resolve_str(m2, p.skip(j + 1)),
                None => None,
            }
        } else {
            None
        },
    }
}

/// Resolution of a dotted path; the empty path names the root.
pub open spec fn resolve_path_of(m: JsonModel, p: Seq<char>) -> Option<JsonModel> {
    if p.len() == 0 {
        Some(m)
    } else {
        resolve_str(m, p)
    }
}

fn obj_get<'a>(entries: &'a Vec<(String, Json)>, cs: &Vec<char>, from: usize, to: usize) -> (r:
    Option<&'a Json>)
    requires
        from <= to <= cs@.len(),
    ensures
        ({
            let key = cs@.subrange(from as int, to as int);
            match r {
                Some(v) => obj_lookup(entry_models_of(entries@), key) == Some(v@),
                None => obj_lookup(entry_models_of(entries@), key) is None,
            }
        }),
{
    let ghost key = cs@.subrange(from as int, to as int);
    let ghost ms = entry_models_of(entries@);
    proof {
        crate::json::lemma_entry_models_of(entries@);
    }
    let mut i: usize = 0;
    proof {
        assert(ms.skip(0) =~= ms);
    }
    while i < entries.len()
        invariant
            i <= entries@.len(),
            key == cs@.subrange(from as int, to as int),
            ms == entry_models_of(entries@),
            ms.len() == entries@.len(),
            forall|k: int| 0 <= k < entries@.len() ==> ms[k] == (
                entries@[k].0@,
                entries@[k].1@,
            ),
            from <= to <= cs@.len(),
            obj_lookup(ms, key) == obj_lookup(ms.skip(i as int), key),
        decreases entries@.len() - i,
    {
        proof {
            assert(ms.skip(i as int)[0] == ms[i as int]);
            assert(ms.skip(i as int).drop_first() =~= ms.skip(i as int + 1));
        }
        if segment_eq(&entries[i].0, cs, from, to) {
            return Some(&entries[i].1);
        }
        i = i + 1;
    }
    proof {
        assert(ms.skip(entries@.len() as int) =~= Seq::<(Seq<char>, JsonModel)>::empty());
    }
    None
}

/// Whether the key equals the path segment `cs[from..to]`.
fn segment_eq(key: &String, cs: &Vec<char>, from: usize, to: usize) -> (r: bool)
    requires
        from <= to <= cs@.len(),
    ensures
        r == (key@ == cs@.subrange(from as int, to as int)),
{
    let kc = str_chars(key.as_str());
    if kc.len() != to - from {
        proof {
            assert(key@ != cs@.subrange(from as int, to as int));
        }
        return false;
    }
    let mut i: usize = 0;
    while i < kc.len()
        invariant
            i <= kc@.len(),
            kc@ == key@,
            from <= to <= cs@.len(),
            kc@.len() == to - from,
            forall|k: int| 0 <= k < i ==> kc@[k] == cs@[from + k],
        decreases kc@.len() - i,
    {
        if kc[i] != cs[from + i] {
            proof {
                assert(cs@.subrange(from as int, to as int)[i as int] == cs@[from + i]);
            }
            return false;
        }
        i = i + 1;
    }
    proof {
        assert(key@ =~= cs@.subrange(from as int, to as int));
    }
    true
}

/// End of the segment that starts at `pos`: the next dot, or the end.
fn seg_end(cs: &Vec<char>, pos: usize) -> (j: usize)
    requires
        pos <= cs@.len(),
    ensures
        pos <= j <= cs@.len(),
        forall|k: int| pos <= k < j ==> cs@[k] != '.',
        j < cs@.len() ==> cs@[j as int] == '.',
{
    let mut j: usize = pos;
    loop
        invariant
            pos <= j <= cs@.len(),
            forall|k: int| pos <= k < j ==> cs@[k] != '.',
        decreases cs@.len() - j,
    {
        if j == cs.len() {
            return j;
        }
        if cs[j] == '.' {
            return j;
        }
        j = j + 1;
    }
}

/// Resolve a dotted path against a JSON value; `None` when any step fails.
pub fn resolve_json_path<'a>(data: &'a Json, path: &str) -> (r: Option<&'a Json>)
    ensures
        match r {
            Some(v) => resolve_path_of(data@, path@) == Some(v@),
            None => resolve_path_of(data@, path@) is None,
        },
{
    let cs = str_chars(path);
    if cs.len() == 0 {
        return Some(data);
    }
    let mut current: &Json = data;
    let mut pos: usize = 0;
    proof {
        assert(cs@.skip(0) =~= cs@);
    }
    loop
        invariant
            pos <= cs@.len(),
            cs@ == path@,
            cs@.len() > 0,
            resolve_str(current@, cs@.skip(pos as int)) == resolve_str(data@, cs@),
        decreases cs@.len() - pos,
    {
        let ghost rest = cs@.skip(pos as int);
        let j = seg_end(&cs, pos);
        proof {
            lemma_first_dot(rest);
            assert(forall|k: int| 0 <= k < rest.len() ==> rest[k] == cs@[pos + k]);
            if j < cs@.len() {
                assert(first_dot(rest) == Some(j - pos)) by {
                    match first_dot(rest) {
                        Some(f) => {
                            if f < j - pos {
                                assert(rest[f] == cs@[pos + f]);
                            } else if f > j - pos {
                                assert(rest[j - pos] == cs@[j as int]);
                            }
                        },
                        None => {
                            assert(rest[j - pos] == cs@[j as int]);
                        },
                    }
                }
            } else {
                assert(first_dot(rest) is None) by {
                    match first_dot(rest) {
                        Some(f) => {
                            assert(rest[f] == cs@[pos + f]);
                        },
                        None => {},
                    }
                }
            }
            assert(rest.take(j - pos) =~= cs@.subrange(pos as int, j as int));
            if j == cs@.len() {
                assert(rest.take(j - pos) =~= rest);
            }
        }
        let ghost seg = cs@.subrange(pos as int, j as int);
        // One resolution step on this segment.
        let stepped: Option<&Json> = match current {
            Json::Obj(entries) => {
                let got = obj_get(entries, &cs, pos, j);
                proof {
                    assert(match got {
                        Some(v) => resolve_step(current@, seg) == Some(v@),
                        None => resolve_step(current@, seg) is None,
                    });
                }
                got
            },
            Json::Arr(items) => {
                let ghost ims = models_of_seq(items@);
                proof {
                    crate::json::lemma_models_of_seq(items@);
                }
                let has_plus = pos < j && cs[pos] == '+';
                let digits_from = if has_plus {
                    pos + 1
                } else {
                    pos
                };
                let ghost t = cs@.subrange(digits_from as int, j as int);
                proof {
                    if has_plus {
                        assert(seg[0] == '+');
                        assert(seg.drop_first() =~= t);
                    } else {
                        assert(seg =~= t);
                    }
                    assert(parse_index(seg) == parse_digits_spec(t, usize::MAX as int));
                }
                match parse_digits(&cs, digits_from, j) {
                    Some(v) => {
                        if v <= usize::MAX as u64 {
                            let idx = v as usize;
                            if idx < items.len() {
                                proof {
                                    assert(resolve_step(current@, seg) == Some(
                                        items@[idx as int]@,
                                    ));
                                }
                                Some(&items[idx])
                            } else {
                                None
                            }
                        } else {
                            None
                        }
                    },
                    None => {
                        proof {
                            if t.len() > 0 && all_digits(t) {
                                assert(digits_val(t) > u64::MAX);
                            }
                            assert(parse_index(seg) is None);
                        }
                        None
                    },
                }
            },
            _ => None,
        };
        match stepped {
            Some(next) => {
                if j == cs.len() {
                    proof {
                        assert(resolve_str(current@, rest) == Some(next@));
                    }
                    return Some(next);
                }
                proof {
                    assert(rest.skip(j - pos + 1) =~= cs@.skip(j + 1));
                    assert(resolve_str(current@, rest) == resolve_str(next@, cs@.skip(j + 1)));
                }
                current = next;
                pos = j + 1;
            },
            None => {
                proof {
                    assert(resolve_str(current@, rest) is None);
                }
                return None;
            },
        }
    }
}

/// The value bound to a key at the top of an object; `None` on any other
/// shape.
pub open spec fn field_of(m: JsonModel, key: Seq<char>) -> Option<JsonModel> {
    match m {
        JsonModel::Obj(entries) => obj_lookup(entries, key),
        _ => None,
    }
}

/// The string bound to a key at the top of an object, if it is a string.
pub open spec fn str_field_of(m: JsonModel, key: Seq<char>) -> Option<Seq<char>> {
    match field_of(m, key) {
        Some(v) => match v {
            JsonModel::Str(s) => Some(s),
            _ => None,
        },
        None => None,
    }
}

/// Look up a top-level object field.
pub fn json_field<'a>(j: &'a Json, key: &str) -> (r: Option<&'a Json>)
    ensures
        match r {
            Some(v) => field_of(j@, key@) == Some(v@),
            None => field_of(j@, key@) is None,
        },
{
    match j {
        Json::Obj(entries) => {
            let ghost ms = entry_models_of(entries@);
            proof {
                crate::json::lemma_entry_models_of(entries@);
                assert(ms.skip(0) =~= ms);
            }
            let mut i: usize = 0;
            while i < entries.len()
                invariant
                    i <= entries@.len(),
                    j@ == JsonModel::Obj(ms),
                    ms == entry_models_of(entries@),
                    ms.len() == entries@.len(),
                    forall|k: int| 0 <= k < entries@.len() ==> ms[k] == (
                        entries@[k].0@,
                        entries@[k].1@,
                    ),
                    obj_lookup(ms, key@) == obj_lookup(ms.skip(i as int), key@),
                decreases entries@.len() - i,
            {
                proof {
                    assert(ms.skip(i as int)[0] == ms[i as int]);
                    assert(ms.skip(i as int).drop_first() =~= ms.skip(i as int + 1));
                }
                if crate::text::str_eq(entries[i].0.as_str(), key) {
                    return Some(&entries[i].1);
                }
                i = i + 1;
            }
            proof {
                assert(ms.skip(entries@.len() as int) =~= Seq::<(
                    Seq<char>,
                    JsonModel,
                )>::empty());
            }
            None
        },
        _ => None,
    }
}

// ---------------------------------------------------------------------------
// Coercions
// ---------------------------------------------------------------------------

/// Signed decimal parse: an optional sign, then digits, within the 64-bit
/// signed range.
pub open spec fn parse_i64_of(s: Seq<char>) -> Option<int> {
    let neg = s.len() > 0 && s[0] == '-';
    let t = if s.len() > 0 && (s[0] == '-' || s[0] == '+') {
        s.drop_first()
    } else {
        s
    };
    if t.len() == 0 || !all_digits(t) {
        None
    } else if neg && digits_val(t) <= 0x8000000000000000 {
        Some(-digits_val(t))
    } else if !neg && digits_val(t) <= 0x7fffffffffffffff {
        Some(digits_val(t))
    } else {
        None
    }
}

fn parse_i64_str(s: &str) -> (r: Option<i64>)
    ensures
        match r {
            Some(v) => parse_i64_of(s@) == Some(v as int),
            None => parse_i64_of(s@) is None,
        },
{
    let cs = str_chars(s);
    let mut neg = false;
    let mut from: usize = 0;
    if cs.len() > 0 {
        let c0 = cs[0];
        if c0 == '-' {
            neg = true;
            from = 1;
        } else if c0 == '+' {
            from = 1;
        }
    }
    let ghost t = if s@.len() > 0 && (s@[0] == '-' || s@[0] == '+') {
        s@.drop_first()
    } else {
        s@
    };
    proof {
        assert(cs@.subrange(from as int, cs@.len() as int) =~= t);
    }
    match parse_digits(&cs, from, cs.len()) {
        Some(v) => {
            if neg {
                if v <= 9223372036854775807u64 {
                    Some(-(v as i64))
                } else if v == 9223372036854775808u64 {
                    Some(i64::MIN)
                } else {
                    None
                }
            } else {
                if v <= 9223372036854775807u64 {
                    Some(v as i64)
                } else {
                    None
                }
            }
        },
        None => {
            proof {
                if t.len() > 0 && all_digits(t) {
                    assert(digits_val(t) > u64::MAX);
                }
            }
            None
        },
    }
}

/// Decimal digits of a non-negative value.
pub open spec fn udec(n: int) -> Seq<char>
    decreases n,
{
    if n < 10 {
        seq![(('0' as u8) + n) as char]
    } else {
        udec(n / 10) + seq![(('0' as u8) + n % 10) as char]
    }
}

/// Signed decimal text of a value.
pub open spec fn int_dec(n: int) -> Seq<char> {
    if n < 0 {
        seq!['-'] + udec(-n)
    } else {
        udec(n)
    }
}

fn push_udec(n: u64, out: &mut Vec<char>)
    ensures
        final(out)@ == old(out)@ + udec(n as int),
    decreases n,
{
    if n < 10 {
        out.push((('0' as u8) + (n as u8)) as char);
        proof {
            assert(out@ =~= old(out)@ + udec(n as int));
        }
    } else {
        push_udec(n / 10, out);
        out.push((('0' as u8) + ((n % 10) as u8)) as char);
        proof {
            assert(out@ =~= old(out)@ + udec(n as int));
        }
    }
}

/// Decimal text of a signed 64-bit value.
pub fn i64_to_dec(n: i64) -> (r: String)
    ensures
        r@ == int_dec(n as int),
{
    let mut out: Vec<char> = Vec::new();
    if n < 0 {
        out.push('-');
        let mag: u64 = if n == i64::MIN {
            9223372036854775808u64
        } else {
            (-n) as u64
        };
        push_udec(mag, &mut out);
        proof {
            assert(out@ =~= int_dec(n as int));
        }
    } else {
        push_udec(n as u64, &mut out);
    }
    chars_to_string(&out)
}

/// String form of a value: strings pass, numbers keep their token, booleans
/// and null have their JSON text (null the empty string), containers their
/// JSON serialization.
pub open spec fn value_string_of(m: JsonModel) -> Seq<char> {
    match m {
        JsonModel::Str(s) => s,
        JsonModel::Num(t) => t,
        JsonModel::Null => Seq::empty(),
        _ => encoded(m, false),
    }
}

/// Convert a JSON value to its string form.
pub fn value_to_string(value: &Json) -> (r: String)
    ensures
        r@ == value_string_of(value@),
{
    match value {
        Json::Str(s) => s.clone(),
        Json::Num(t) => t.clone(),
        Json::Null => String::new(),
        _ => crate::canonical::json_to_string(value),
    }
}

/// Signed 64-bit reading of a value: integer tokens and integer strings
/// parse, everything else is `None`.
pub open spec fn value_int_of(m: JsonModel) -> Option<int> {
    match m {
        JsonModel::Num(t) => parse_i64_of(t),
        JsonModel::Str(s) => parse_i64_of(s),
        _ => None,
    }
}

/// Convert a JSON value to a signed 64-bit integer if possible.
pub fn value_to_int(value: &Json) -> (r: Option<i64>)
    ensures
        match r {
            Some(v) => value_int_of(value@) == Some(v as int),
            None => value_int_of(value@) is None,
        },
{
    match value {
        Json::Num(t) => parse_i64_str(t.as_str()),
        Json::Str(s) => parse_i64_str(s.as_str()),
        _ => None,
    }
}

/// Boolean reading of a value: booleans pass; `true`/`1`/`yes` and
/// `false`/`0`/`no` strings, letters folded to lower case, decide; integers
/// are true when nonzero.
pub open spec fn value_bool_of(m: JsonModel) -> Option<bool> {
    match m {
        JsonModel::Bool(b) => Some(b),
        JsonModel::Str(s) => {
            let low = ascii_lower_seq(s);
            if low == "true"@ || low == "1"@ || low == "yes"@ {
                Some(true)
            } else if low == "false"@ || low == "0"@ || low == "no"@ {
                Some(false)
            } else {
                None
            }
        },
        JsonModel::Num(t) => match parse_i64_of(t) {
            Some(v) => Some(v != 0),
            None => None,
        },
        _ => None,
    }
}

/// Convert a JSON value to a boolean if possible.
pub fn value_to_bool(value: &Json) -> (r: Option<bool>)
    ensures
        r == value_bool_of(value@),
{
    match value {
        Json::Bool(b) => Some(*b),
        Json::Str(s) => {
            let low = chars_to_string(&ascii_lower_chars(s.as_str()));
            if str_eq(low.as_str(), "true") || str_eq(low.as_str(), "1") || str_eq(
                low.as_str(),
                "yes",
            ) {
                Some(true)
            } else if str_eq(low.as_str(), "false") || str_eq(low.as_str(), "0") || str_eq(
                low.as_str(),
                "no",
            ) {
                Some(false)
            } else {
                None
            }
        },
        Json::Num(t) => {
            match parse_i64_str(t.as_str()) {
                Some(v) => Some(v != 0),
                None => None,
            }
        },
        _ => None,
    }
}

/// Double-precision reading of a value, rendered as text: number tokens and
/// numeric strings parse, everything else is `None`.
pub open spec fn value_float_text_of(m: JsonModel) -> Option<Seq<char>> {
    match m {
        JsonModel::Num(t) => float_form_of(t),
        JsonModel::Str(s) => float_form_of(s),
        _ => None,
    }
}

/// Convert a JSON value to the decimal text of its double-precision reading.
pub fn value_to_float_text(value: &Json) -> (r: Option<String>)
    ensures
        match r {
            Some(v) => value_float_text_of(value@) == Some(v@),
            None => value_float_text_of(value@) is None,
        },
{
    match value {
        Json::Num(t) => crate::parse::float_render(t.as_str()),
        Json::Str(s) => crate::parse::float_render(s.as_str()),
        _ => None,
    }
}

} // verus!
