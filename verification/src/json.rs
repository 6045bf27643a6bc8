//! A small JSON document model and a verified parser.
//!
//! The provider's wire format is JSON. This module holds the tree a body is
//! read into (`Json`), its mathematical model (`JsonModel`), a specification
//! parser over character sequences (`spec_parse_json`), and an executable
//! parser proved to return exactly what the specification parser says —
//! `Some(v)` with `v@ == m` when `spec_parse_json(s@) == Some(m)`, `None`
//! when it says `None`. Object lookup and the typed field accessors are
//! specified over the model, so decoding a tree into a typed response is
//! pinned down all the way from the body text.
//!
//! Numbers without a fraction or exponent that fit `i64` are held as
//! integers; every other number (fractional, exponent, out of range) is
//! kept as its lexeme in `BigNum`, so a document stays readable — as under
//! a general JSON reader — and only a typed field that needs an integer
//! rejects such a value. String escapes cover the short forms and `\u`
//! hex escapes, surrogate pairs included.

use vstd::prelude::*;

verus! {

use crate::text::str_eq;
use crate::text::str_to_chars;
use crate::text::chars_to_string;

/// A JSON document: null, a boolean, an integer, a non-integer number kept
/// as its lexeme, a string, an array, or an object held as its members in
/// wire order.
#[derive(Debug, PartialEq)]
pub enum Json {
    Null,
    Bool(bool),
    Int(i64),
    BigNum(String),
    Text(String),
    Arr(Vec<Json>),
    Obj(Vec<(String, Json)>),
}

/// The mathematical model of a JSON document: strings as character
/// sequences, arrays and objects as sequences.
pub enum JsonModel {
    Null,
    Bool(bool),
    Int(i64),
    BigNum(Seq<char>),
    Text(Seq<char>),
    Arr(Seq<JsonModel>),
    Obj(Seq<(Seq<char>, JsonModel)>),
}

/// The models of an array's elements.
pub open spec fn arr_model(v: Seq<Json>) -> Seq<JsonModel>
    decreases v,
{
    Seq::new(
        v.len(),
        |i: int|
            if 0 <= i < v.len() {
                json_model(v[i])
            } else {
                JsonModel::Null
            },
    )
}

/// The models of an object's members.
pub open spec fn obj_model(f: Seq<(String, Json)>) -> Seq<(Seq<char>, JsonModel)>
    decreases f,
{
    Seq::new(
        f.len(),
        |i: int|
            if 0 <= i < f.len() {
                (f[i].0@, json_model(f[i].1))
            } else {
                (Seq::empty(), JsonModel::Null)
            },
    )
}

/// The model of a document.
pub open spec fn json_model(j: Json) -> JsonModel
    decreases j,
{
    match j {
        Json::Null => JsonModel::Null,
        Json::Bool(b) => JsonModel::Bool(b),
        Json::Int(n) => JsonModel::Int(n),
        Json::BigNum(s) => JsonModel::BigNum(s@),
        Json::Text(s) => JsonModel::Text(s@),
        Json::Arr(v) => JsonModel::Arr(arr_model(v@)),
        Json::Obj(f) => JsonModel::Obj(obj_model(f@)),
    }
}

impl View for Json {
    type V = JsonModel;

    open spec fn view(&self) -> JsonModel {
        json_model(*self)
    }
}

/// The value of the first member named `key`, if any.
pub open spec fn spec_lookup(fields: Seq<(Seq<char>, JsonModel)>, key: Seq<char>) -> Option<
    JsonModel,
>
    decreases fields.len(),
{
    if fields.len() == 0 {
        None
    } else if fields[0].0 == key {
        Some(fields[0].1)
    } else {
        spec_lookup(fields.drop_first(), key)
    }
}

/// The string value of member `key`, when present with that type.
pub open spec fn spec_field_str(fields: Seq<(Seq<char>, JsonModel)>, key: Seq<char>) -> Option<
    Seq<char>,
> {
    match spec_lookup(fields, key) {
        Some(JsonModel::Text(s)) => Some(s),
        _ => None,
    }
}

/// The integer value of member `key`, when present with that type.
pub open spec fn spec_field_int(fields: Seq<(Seq<char>, JsonModel)>, key: Seq<char>) -> Option<
    i64,
> {
    match spec_lookup(fields, key) {
        Some(JsonModel::Int(n)) => Some(n),
        _ => None,
    }
}

/// The boolean value of member `key`, when present with that type.
pub open spec fn spec_field_bool(fields: Seq<(Seq<char>, JsonModel)>, key: Seq<char>) -> Option<
    bool,
> {
    match spec_lookup(fields, key) {
        Some(JsonModel::Bool(b)) => Some(b),
        _ => None,
    }
}

/// The array elements of member `key`, when present with that type.
pub open spec fn spec_field_arr(fields: Seq<(Seq<char>, JsonModel)>, key: Seq<char>) -> Option<
    Seq<JsonModel>,
> {
    match spec_lookup(fields, key) {
        Some(JsonModel::Arr(v)) => Some(v),
        _ => None,
    }
}

/// The first member named `key`, by linear search.
pub fn obj_get<'a>(fields: &'a Vec<(String, Json)>, key: &str) -> (r: Option<&'a Json>)
    ensures
        match r {
            Some(j) => spec_lookup(obj_model(fields@), key@) == Some(j@),
            None => spec_lookup(obj_model(fields@), key@) is None,
        },
{
    let ghost om = obj_model(fields@);
    let mut i: usize = 0;
    assert(om.skip(0) =~= om);
    while i < fields.len()
        invariant
            i <= fields@.len(),
            om == obj_model(fields@),
            spec_lookup(om, key@) == spec_lookup(om.skip(i as int), key@),
        decreases fields@.len() - i,
    {
        proof {
            assert(om.skip(i as int)[0] == om[i as int]);
            assert(om.skip(i as int).drop_first() =~= om.skip(i as int + 1));
        }
        if str_eq(fields[i].0.as_str(), key) {
            return Some(&fields[i].1);
        }
        i = i + 1;
    }
    assert(om.skip(i as int) =~= Seq::<(Seq<char>, JsonModel)>::empty());
    None
}

/// The string value of member `key`, cloned out of the tree.
pub fn get_str(fields: &Vec<(String, Json)>, key: &str) -> (r: Option<String>)
    ensures
        match r {
            Some(s) => spec_field_str(obj_model(fields@), key@) == Some(s@),
            None => spec_field_str(obj_model(fields@), key@) is None,
        },
{
    match obj_get(fields, key) {
        Some(j) => match j {
            Json::Text(s) => Some(s.clone()),
            _ => None,
        },
        None => None,
    }
}

/// The integer value of member `key`.
pub fn get_int(fields: &Vec<(String, Json)>, key: &str) -> (r: Option<i64>)
    ensures
        r == spec_field_int(obj_model(fields@), key@),
{
    match obj_get(fields, key) {
        Some(j) => match j {
            Json::Int(n) => Some(*n),
            _ => None,
        },
        None => None,
    }
}

/// Whether a wire integer fits the platform's signed word.
pub open spec fn spec_in_isize(n: i64) -> bool {
    isize::MIN as int <= n as int <= isize::MAX as int
}

/// The integer value of member `key`, when present, of that type, and
/// within `isize`.
pub fn get_isize(fields: &Vec<(String, Json)>, key: &str) -> (r: Option<isize>)
    ensures
        match r {
            Some(v) => spec_field_int(obj_model(fields@), key@) matches Some(n) && spec_in_isize(n)
                && v as int == n as int,
            None => !(spec_field_int(obj_model(fields@), key@) matches Some(n) && spec_in_isize(
                n,
            )),
        },
{
    match get_int(fields, key) {
        Some(n) => {
            if isize::MIN as i64 <= n && n <= isize::MAX as i64 {
                Some(n as isize)
            } else {
                None
            }
        },
        None => None,
    }
}

/// The boolean value of member `key`.
pub fn get_bool(fields: &Vec<(String, Json)>, key: &str) -> (r: Option<bool>)
    ensures
        r == spec_field_bool(obj_model(fields@), key@),
{
    match obj_get(fields, key) {
        Some(j) => match j {
            Json::Bool(b) => Some(*b),
            _ => None,
        },
        None => None,
    }
}

/// The array elements of member `key`, borrowed from the tree.
pub fn get_arr<'a>(fields: &'a Vec<(String, Json)>, key: &str) -> (r: Option<&'a Vec<Json>>)
    ensures
        match r {
            Some(v) => spec_field_arr(obj_model(fields@), key@) == Some(arr_model(v@)),
            None => spec_field_arr(obj_model(fields@), key@) is None,
        },
{
    match obj_get(fields, key) {
        Some(j) => match j {
            Json::Arr(v) => Some(v),
            _ => None,
        },
        None => None,
    }
}

/// True when every element is a string.
pub open spec fn spec_all_texts(elems: Seq<JsonModel>) -> bool {
    forall|i: int| 0 <= i < elems.len() ==> elems[i] is Text
}

/// The character sequences of a sequence of string elements.
pub open spec fn spec_texts_of(elems: Seq<JsonModel>) -> Seq<Seq<char>> {
    elems.map_values(|e: JsonModel| e->Text_0)
}

/// The strings of an all-string array, cloned out of the tree; `None` when
/// some element is not a string.
pub fn get_text_items(elems: &Vec<Json>) -> (r: Option<Vec<String>>)
    ensures
        match r {
            Some(v) => spec_all_texts(arr_model(elems@)) && v@.map_values(|s: String| s@)
                == spec_texts_of(arr_model(elems@)),
            None => !spec_all_texts(arr_model(elems@)),
        },
{
    let mut out: Vec<String> = Vec::new();
    let mut i: usize = 0;
    while i < elems.len()
        invariant
            i <= elems@.len(),
            out@.len() == i,
            forall|j: int|
                0 <= j < i ==> (#[trigger] json_model(elems@[j])) is Text && out@[j]@
                    == json_model(elems@[j])->Text_0,
        decreases elems@.len() - i,
    {
        match &elems[i] {
            Json::Text(s) => {
                proof {
                    assert(json_model(elems@[i as int]) matches JsonModel::Text(t) && t == s@);
                }
                out.push(s.clone());
            },
            _ => {
                proof {
                    assert(!(json_model(elems@[i as int]) is Text));
                    assert(arr_model(elems@)[i as int] == json_model(elems@[i as int]));
                    assert(!spec_all_texts(arr_model(elems@)));
                }
                return None;
            },
        }
        i = i + 1;
    }
    proof {
        let lhs = out@.map_values(|s: String| s@);
        let rhs = spec_texts_of(arr_model(elems@));
        assert forall|j: int| 0 <= j < lhs.len() implies lhs[j] == rhs[j] by {
            assert(arr_model(elems@)[j] == json_model(elems@[j]));
            assert(lhs[j] == out@[j]@);
            assert(rhs[j] == arr_model(elems@)[j]->Text_0);
        }
        assert(lhs =~= rhs);
        assert forall|j: int| 0 <= j < arr_model(elems@).len() implies arr_model(elems@)[j]
            is Text by {
            assert(arr_model(elems@)[j] == json_model(elems@[j]));
        }
    }
    Some(out)
}

/// The whitespace JSON allows between tokens.
pub open spec fn spec_is_ws(c: char) -> bool {
    c == ' ' || c == '\n' || c == '\r' || c == '\t'
}

/// The position of the first non-whitespace character at or after `i`.
pub open spec fn spec_skip_ws(s: Seq<char>, i: int) -> int
    decreases s.len() - i,
{
    if 0 <= i < s.len() && spec_is_ws(s[i]) {
        spec_skip_ws(s, i + 1)
    } else {
        i
    }
}

/// Whether `c` is a decimal digit.
pub open spec fn spec_is_digit(c: char) -> bool {
    48 <= (c as u32) <= 57
}

/// The position of the first non-digit character at or after `i`.
pub open spec fn spec_scan_digits(s: Seq<char>, i: int) -> int
    decreases s.len() - i,
{
    if 0 <= i < s.len() && spec_is_digit(s[i]) {
        spec_scan_digits(s, i + 1)
    } else {
        i
    }
}

/// The value of a digit string, most significant first.
pub open spec fn spec_digits_val(s: Seq<char>) -> nat
    decreases s.len(),
{
    if s.len() == 0 {
        0
    } else {
        spec_digits_val(s.drop_last()) * 10 + (if s.last() as u32 >= 48 {
            (s.last() as u32 - 48) as nat
        } else {
            0
        })
    }
}

/// The value of a hexadecimal digit, if `c` is one.
pub open spec fn spec_hex_val(c: char) -> Option<u32> {
    let u = c as u32;
    if 48 <= u && u <= 57 {
        Some((u - 48) as u32)
    } else if 65 <= u && u <= 70 {
        Some((u - 55) as u32)
    } else if 97 <= u && u <= 102 {
        Some((u - 87) as u32)
    } else {
        None
    }
}

/// The value of the four hex digits at `i`, if they are there.
pub open spec fn spec_hex4(s: Seq<char>, i: int) -> Option<u32> {
    if 0 <= i && i + 4 <= s.len() {
        match (spec_hex_val(s[i]), spec_hex_val(s[i + 1]), spec_hex_val(s[i + 2]), spec_hex_val(
            s[i + 3],
        )) {
            (Some(a), Some(b), Some(c), Some(d)) => Some(
                (a * 4096 + b * 256 + c * 16 + d) as u32,
            ),
            _ => None,
        }
    } else {
        None
    }
}

/// The character a short escape stands for, if `e` names one.
pub open spec fn spec_esc_short(e: char) -> Option<char> {
    if e == '"' {
        Some('"')
    } else if e == '\\' {
        Some('\\')
    } else if e == '/' {
        Some('/')
    } else if e == 'n' {
        Some('\n')
    } else if e == 'r' {
        Some('\r')
    } else if e == 't' {
        Some('\t')
    } else if e == 'b' {
        Some((8 as u8) as char)
    } else if e == 'f' {
        Some((12 as u8) as char)
    } else {
        None
    }
}

/// Prepends `prefix` to the characters of a string-body result.
pub open spec fn spec_prepend(prefix: Seq<char>, r: Option<(Seq<char>, int)>) -> Option<
    (Seq<char>, int),
> {
    match r {
        Some(p) => Some((prefix + p.0, p.1)),
        None => None,
    }
}

/// Parses the body of a string literal from `i` (just after the opening
/// quote) to just after the closing quote; the unescaped characters and the
/// position after the quote.
pub open spec fn spec_parse_string_body(s: Seq<char>, i: int) -> Option<(Seq<char>, int)>
    decreases s.len() - i,
{
    if !(0 <= i < s.len()) {
        None
    } else if s[i] == '"' {
        Some((Seq::empty(), i + 1))
    } else if s[i] == '\\' {
        if i + 1 >= s.len() {
            None
        } else if s[i + 1] == 'u' {
            match spec_hex4(s, i + 2) {
                None => None,
                Some(v) => if 0xD800 <= v && v < 0xDC00 {
                    if i + 12 <= s.len() && s[i + 6] == '\\' && s[i + 7] == 'u' {
                        match spec_hex4(s, i + 8) {
                            Some(w) => if 0xDC00 <= w && w < 0xE000 {
                                spec_prepend(
                                    seq![
                                        ((0x10000 + (v - 0xD800) * 0x400 + (w
                                            - 0xDC00)) as u32) as char,
                                    ],
                                    spec_parse_string_body(s, i + 12),
                                )
                            } else {
                                None
                            },
                            None => None,
                        }
                    } else {
                        None
                    }
                } else if 0xDC00 <= v && v < 0xE000 {
                    None
                } else {
                    spec_prepend(seq![v as char], spec_parse_string_body(s, i + 6))
                },
            }
        } else {
            match spec_esc_short(s[i + 1]) {
                None => None,
                Some(c) => spec_prepend(seq![c], spec_parse_string_body(s, i + 2)),
            }
        }
    } else {
        spec_prepend(seq![s[i]], spec_parse_string_body(s, i + 1))
    }
}

/// Parses a number from `i`: JSON's grammar (no leading zeros; optional
/// fraction and exponent). Without fraction or exponent, and within `i64`,
/// the value is an integer; otherwise the lexeme is kept as `BigNum`.
pub open spec fn spec_parse_number(s: Seq<char>, i: int) -> Option<(JsonModel, int)> {
    let neg = 0 <= i < s.len() && s[i] == '-';
    let p = if neg {
        i + 1
    } else {
        i
    };
    let dend = spec_scan_digits(s, p);
    if dend == p {
        None
    } else if s[p] == '0' && dend > p + 1 {
        None
    } else {
        let fend = if dend < s.len() && s[dend] == '.' {
            spec_scan_digits(s, dend + 1)
        } else {
            dend
        };
        if dend < s.len() && s[dend] == '.' && fend == dend + 1 {
            None
        } else {
            let estart = if fend < s.len() && (s[fend] == 'e' || s[fend] == 'E') {
                if fend + 1 < s.len() && (s[fend + 1] == '+' || s[fend + 1] == '-') {
                    fend + 2
                } else {
                    fend + 1
                }
            } else {
                fend
            };
            let end = if estart == fend {
                fend
            } else {
                spec_scan_digits(s, estart)
            };
            if estart != fend && end == estart {
                None
            } else {
                let v = spec_digits_val(s.subrange(p, dend));
                if fend == dend && end == fend && (v <= 0x7fffffffffffffff || (neg && v
                    == 0x8000000000000000)) {
                    Some(
                        (
                            JsonModel::Int(
                                (if neg {
                                    0 - v as int
                                } else {
                                    v as int
                                }) as i64,
                            ),
                            end,
                        ),
                    )
                } else {
                    Some((JsonModel::BigNum(s.subrange(i, end)), end))
                }
            }
        }
    }
}

/// Parses one value from `i`, whitespace before it allowed; the value and
/// the position just after it.
pub open spec fn spec_parse_value(s: Seq<char>, i: int) -> Option<(JsonModel, int)>
    decreases s.len() - i, 0int,
{
    let i0 = spec_skip_ws(s, i);
    if !(i <= i0 < s.len()) {
        None
    } else if s[i0] == 'n' {
        if i0 + 4 <= s.len() && s[i0 + 1] == 'u' && s[i0 + 2] == 'l' && s[i0 + 3] == 'l' {
            Some((JsonModel::Null, i0 + 4))
        } else {
            None
        }
    } else if s[i0] == 't' {
        if i0 + 4 <= s.len() && s[i0 + 1] == 'r' && s[i0 + 2] == 'u' && s[i0 + 3] == 'e' {
            Some((JsonModel::Bool(true), i0 + 4))
        } else {
            None
        }
    } else if s[i0] == 'f' {
        if i0 + 5 <= s.len() && s[i0 + 1] == 'a' && s[i0 + 2] == 'l' && s[i0 + 3] == 's' && s[i0
            + 4] == 'e' {
            Some((JsonModel::Bool(false), i0 + 5))
        } else {
            None
        }
    } else if s[i0] == '"' {
        match spec_parse_string_body(s, i0 + 1) {
            Some(p) => Some((JsonModel::Text(p.0), p.1)),
            None => None,
        }
    } else if s[i0] == '-' || spec_is_digit(s[i0]) {
        spec_parse_number(s, i0)
    } else if s[i0] == '[' {
        let p = spec_skip_ws(s, i0 + 1);
        if p < s.len() && s[p] == ']' {
            Some((JsonModel::Arr(Seq::empty()), p + 1))
        } else if i0 < p <= s.len() {
            match spec_parse_elements(s, p) {
                Some(q) => Some((JsonModel::Arr(q.0), q.1)),
                None => None,
            }
        } else {
            None
        }
    } else if s[i0] == '{' {
        let p = spec_skip_ws(s, i0 + 1);
        if p < s.len() && s[p] == '}' {
            Some((JsonModel::Obj(Seq::empty()), p + 1))
        } else if i0 < p <= s.len() {
            match spec_parse_members(s, p) {
                Some(q) => Some((JsonModel::Obj(q.0), q.1)),
                None => None,
            }
        } else {
            None
        }
    } else {
        None
    }
}

/// Parses `value (, value)* ]` from `i`; the elements and the position
/// after the closing bracket.
pub open spec fn spec_parse_elements(s: Seq<char>, i: int) -> Option<(Seq<JsonModel>, int)>
    decreases s.len() - i, 1int,
{
    match spec_parse_value(s, i) {
        None => None,
        Some(p) => {
            let p2 = spec_skip_ws(s, p.1);
            if p2 < s.len() && s[p2] == ',' && p2 + 1 > i {
                match spec_parse_elements(s, p2 + 1) {
                    Some(q) => Some((seq![p.0] + q.0, q.1)),
                    None => None,
                }
            } else if p2 < s.len() && s[p2] == ']' {
                Some((seq![p.0], p2 + 1))
            } else {
                None
            }
        },
    }
}

/// Parses `"key" : value (, "key" : value)* }` from `i`; the members and
/// the position after the closing brace.
pub open spec fn spec_parse_members(s: Seq<char>, i: int) -> Option<
    (Seq<(Seq<char>, JsonModel)>, int),
>
    decreases s.len() - i, 1int,
{
    if !(0 <= i < s.len() && s[i] == '"') {
        None
    } else {
        match spec_parse_string_body(s, i + 1) {
            None => None,
            Some(k) => {
                let p2 = spec_skip_ws(s, k.1);
                if p2 < s.len() && s[p2] == ':' && p2 + 1 > i {
                    match spec_parse_value(s, p2 + 1) {
                        None => None,
                        Some(v) => {
                            let p3 = spec_skip_ws(s, v.1);
                            if p3 < s.len() && s[p3] == ',' && i < spec_skip_ws(s, p3 + 1)
                                <= s.len() {
                                match spec_parse_members(s, spec_skip_ws(s, p3 + 1)) {
                                    Some(q) => Some((seq![(k.0, v.0)] + q.0, q.1)),
                                    None => None,
                                }
                            } else if p3 < s.len() && s[p3] == '}' {
                                Some((seq![(k.0, v.0)], p3 + 1))
                            } else {
                                None
                            }
                        },
                    }
                } else {
                    None
                }
            },
        }
    }
}

/// Parses a whole document: one value with nothing but whitespace after it.
pub open spec fn spec_parse_json(s: Seq<char>) -> Option<JsonModel> {
    match spec_parse_value(s, 0) {
        None => None,
        Some(p) => if spec_skip_ws(s, p.1) == s.len() {
            Some(p.0)
        } else {
            None
        },
    }
}

spec fn rel_string(r: Option<(String, usize)>, m: Option<(Seq<char>, int)>) -> bool {
    match (r, m) {
        (None, None) => true,
        (Some(a), Some(b)) => a.0@ == b.0 && a.1 as int == b.1,
        _ => false,
    }
}

spec fn rel_value(r: Option<(Json, usize)>, m: Option<(JsonModel, int)>) -> bool {
    match (r, m) {
        (None, None) => true,
        (Some(a), Some(b)) => a.0@ == b.0 && a.1 as int == b.1,
        _ => false,
    }
}

spec fn rel_elements(r: Option<(Vec<Json>, usize)>, m: Option<(Seq<JsonModel>, int)>) -> bool {
    match (r, m) {
        (None, None) => true,
        (Some(a), Some(b)) => arr_model(a.0@) == b.0 && a.1 as int == b.1,
        _ => false,
    }
}

spec fn rel_members(
    r: Option<(Vec<(String, Json)>, usize)>,
    m: Option<(Seq<(Seq<char>, JsonModel)>, int)>,
) -> bool {
    match (r, m) {
        (None, None) => true,
        (Some(a), Some(b)) => obj_model(a.0@) == b.0 && a.1 as int == b.1,
        _ => false,
    }
}

proof fn lemma_prepend_empty(r: Option<(Seq<char>, int)>)
    ensures
        spec_prepend(Seq::empty(), r) == r,
{
    match r {
        Some(p) => {
            assert(Seq::<char>::empty() + p.0 =~= p.0);
            assert(p == (p.0, p.1));
        },
        None => {},
    }
}

proof fn lemma_prepend_assoc(a: Seq<char>, b: Seq<char>, r: Option<(Seq<char>, int)>)
    ensures
        spec_prepend(a, spec_prepend(b, r)) == spec_prepend(a + b, r),
{
    match r {
        Some(p) => {
            assert(a + (b + p.0) =~= (a + b) + p.0);
        },
        None => {},
    }
}

/// Ten to the power `n`.
pub open spec fn pow10(n: nat) -> nat
    decreases n,
{
    if n == 0 {
        1
    } else {
        10 * pow10((n - 1) as nat)
    }
}

proof fn lemma_pow10_mono(a: nat, b: nat)
    requires
        a <= b,
    ensures
        pow10(a) <= pow10(b),
    decreases b,
{
    if a < b {
        lemma_pow10_mono(a, (b - 1) as nat);
    }
}

proof fn lemma_digits_val_lower(s: Seq<char>)
    requires
        s.len() >= 1,
        s[0] != '0',
        forall|k: int| 0 <= k < s.len() ==> spec_is_digit(#[trigger] s[k]),
    ensures
        spec_digits_val(s) >= pow10((s.len() - 1) as nat),
    decreases s.len(),
{
    if s.len() == 1 {
        assert(s.last() == s[0]);
        if s[0] as u32 == 48 {
            vstd::utf8::char_u32_cast(s[0], 48);
            vstd::utf8::char_u32_cast('0', 48);
            assert(s[0] == '0');
        }
        assert(s.last() as u32 >= 49);
    } else {
        assert(s.drop_last()[0] == s[0]);
        lemma_digits_val_lower(s.drop_last());
    }
}

fn skip_ws(s: &Vec<char>, i: usize) -> (r: usize)
    requires
        i <= s@.len(),
    ensures
        i <= r <= s@.len(),
        r as int == spec_skip_ws(s@, i as int),
{
    let mut p: usize = i;
    while p < s.len() && (s[p] == ' ' || s[p] == '\n' || s[p] == '\r' || s[p] == '\t')
        invariant
            i <= p <= s@.len(),
            spec_skip_ws(s@, i as int) == spec_skip_ws(s@, p as int),
        decreases s@.len() - p,
    {
        p = p + 1;
    }
    assert(spec_skip_ws(s@, p as int) == p as int);
    p
}

fn scan_digits(s: &Vec<char>, i: usize) -> (r: usize)
    requires
        i <= s@.len(),
    ensures
        i <= r <= s@.len(),
        r as int == spec_scan_digits(s@, i as int),
        forall|k: int| i <= k < r ==> spec_is_digit(#[trigger] s@[k]),
{
    let mut p: usize = i;
    while p < s.len() && 48 <= (s[p] as u32) && (s[p] as u32) <= 57
        invariant
            i <= p <= s@.len(),
            spec_scan_digits(s@, i as int) == spec_scan_digits(s@, p as int),
            forall|k: int| i <= k < p ==> spec_is_digit(#[trigger] s@[k]),
        decreases s@.len() - p,
    {
        p = p + 1;
    }
    assert(spec_scan_digits(s@, p as int) == p as int);
    p
}

fn hex_val(c: char) -> (r: Option<u32>)
    ensures
        r == spec_hex_val(c),
        r matches Some(v) ==> v < 16,
{
    let u = c as u32;
    if 48 <= u && u <= 57 {
        Some(u - 48)
    } else if 65 <= u && u <= 70 {
        Some(u - 55)
    } else if 97 <= u && u <= 102 {
        Some(u - 87)
    } else {
        None
    }
}

fn hex4(s: &Vec<char>, i: usize) -> (r: Option<u32>)
    requires
        i <= s@.len(),
    ensures
        r == spec_hex4(s@, i as int),
        r matches Some(v) ==> v < 0x10000,
{
    if s.len() >= 4 && i <= s.len() - 4 {
        let a = hex_val(s[i]);
        let b = hex_val(s[i + 1]);
        let c = hex_val(s[i + 2]);
        let d = hex_val(s[i + 3]);
        match (a, b, c, d) {
            (Some(a), Some(b), Some(c), Some(d)) => {
                let v: u32 = a * 4096 + b * 256 + c * 16 + d;
                Some(v)
            },
            _ => None,
        }
    } else {
        None
    }
}

/// Relies on char::from_u32: `Some` exactly for Unicode scalar values — not
/// a surrogate, at most 0x10FFFF — and the returned character carries
/// exactly that code point.
#[verifier::external_body]
fn char_from_u32(v: u32) -> (r: Option<char>)
    ensures
        r matches Some(c) ==> c as u32 == v,
        r is Some <==> (v < 0xD800 || (0xE000 <= v && v <= 0x10FFFF)),
{
    char::from_u32(v)
}

fn copy_range(s: &Vec<char>, a: usize, b: usize) -> (r: Vec<char>)
    requires
        a <= b <= s@.len(),
    ensures
        r@ == s@.subrange(a as int, b as int),
{
    let mut r: Vec<char> = Vec::new();
    let mut i: usize = a;
    while i < b
        invariant
            a <= i <= b <= s@.len(),
            r@ == s@.subrange(a as int, i as int),
        decreases b - i,
    {
        r.push(s[i]);
        i = i + 1;
        assert(r@ =~= s@.subrange(a as int, i as int));
    }
    r
}

fn parse_string_body(s: &Vec<char>, start: usize) -> (r: Option<(String, usize)>)
    requires
        start <= s@.len(),
    ensures
        rel_string(r, spec_parse_string_body(s@, start as int)),
        r matches Some(p) ==> start < p.1 <= s@.len(),
{
    let mut buf: Vec<char> = Vec::new();
    let mut p: usize = start;
    proof {
        lemma_prepend_empty(spec_parse_string_body(s@, start as int));
    }
    loop
        invariant
            start <= p <= s@.len(),
            spec_parse_string_body(s@, start as int) == spec_prepend(
                buf@,
                spec_parse_string_body(s@, p as int),
            ),
        decreases s@.len() - p,
    {
        if p >= s.len() {
            return None;
        }
        let c = s[p];
        if c == '"' {
            proof {
                assert(buf@ + Seq::<char>::empty() =~= buf@);
            }
            return Some((chars_to_string(&buf), p + 1));
        }
        if c == '\\' {
            if s.len() - p < 2 {
                return None;
            }
            let e = s[p + 1];
            if e == 'u' {
                let h = hex4(s, p + 2);
                match h {
                    None => {
                        return None;
                    },
                    Some(v) => {
                        if 0xD800 <= v && v < 0xDC00 {
                            if s.len() - p >= 12 && s[p + 6] == '\\' && s[p + 7] == 'u' {
                                match hex4(s, p + 8) {
                                    None => {
                                        return None;
                                    },
                                    Some(w) => {
                                        if 0xDC00 <= w && w < 0xE000 {
                                            let code: u32 = 0x10000 + (v - 0xD800) * 0x400 + (w
                                                - 0xDC00);
                                            match char_from_u32(code) {
                                                Some(ch) => {
                                                    proof {
                                                        vstd::utf8::char_u32_cast(ch, code);
                                                        lemma_prepend_assoc(
                                                            buf@,
                                                            seq![ch],
                                                            spec_parse_string_body(
                                                                s@,
                                                                p as int + 12,
                                                            ),
                                                        );
                                                        assert(buf@.push(ch) =~= buf@ + seq![ch]);
                                                    }
                                                    buf.push(ch);
                                                    p = p + 12;
                                                },
                                                None => {
                                                    assert(false);
                                                    return None;
                                                },
                                            }
                                        } else {
                                            return None;
                                        }
                                    },
                                }
                            } else {
                                return None;
                            }
                        } else if 0xDC00 <= v && v < 0xE000 {
                            return None;
                        } else {
                            match char_from_u32(v) {
                                Some(ch) => {
                                    proof {
                                        vstd::utf8::char_u32_cast(ch, v);
                                        lemma_prepend_assoc(
                                            buf@,
                                            seq![ch],
                                            spec_parse_string_body(s@, p as int + 6),
                                        );
                                        assert(buf@.push(ch) =~= buf@ + seq![ch]);
                                    }
                                    buf.push(ch);
                                    p = p + 6;
                                },
                                None => {
                                    assert(false);
                                    return None;
                                },
                            }
                        }
                    },
                }
            } else {
                let unescaped: char = if e == '"' {
                    '"'
                } else if e == '\\' {
                    '\\'
                } else if e == '/' {
                    '/'
                } else if e == 'n' {
                    '\n'
                } else if e == 'r' {
                    '\r'
                } else if e == 't' {
                    '\t'
                } else if e == 'b' {
                    (8 as u8) as char
                } else if e == 'f' {
                    (12 as u8) as char
                } else {
                    return None;
                };
                proof {
                    assert(spec_esc_short(e) == Some(unescaped));
                    lemma_prepend_assoc(
                        buf@,
                        seq![unescaped],
                        spec_parse_string_body(s@, p as int + 2),
                    );
                    assert(buf@.push(unescaped) =~= buf@ + seq![unescaped]);
                }
                buf.push(unescaped);
                p = p + 2;
            }
        } else {
            proof {
                lemma_prepend_assoc(buf@, seq![c], spec_parse_string_body(s@, p as int + 1));
                assert(buf@.push(c) =~= buf@ + seq![c]);
            }
            buf.push(c);
            p = p + 1;
        }
    }
}

#[verifier::rlimit(50)]
fn parse_number(s: &Vec<char>, start: usize) -> (r: Option<(Json, usize)>)
    requires
        start <= s@.len(),
    ensures
        rel_value(r, spec_parse_number(s@, start as int)),
        r matches Some(p) ==> start < p.1 <= s@.len(),
{
    let neg = start < s.len() && s[start] == '-';
    let p: usize = if neg {
        start + 1
    } else {
        start
    };
    let dend = scan_digits(s, p);
    if dend == p {
        return None;
    }
    if s[p] == '0' && dend > p + 1 {
        return None;
    }
    let mut fend: usize = dend;
    let mut has_frac = false;
    if dend < s.len() && s[dend] == '.' {
        let f = scan_digits(s, dend + 1);
        if f == dend + 1 {
            return None;
        }
        fend = f;
        has_frac = true;
    }
    let mut end: usize = fend;
    let mut has_exp = false;
    if fend < s.len() && (s[fend] == 'e' || s[fend] == 'E') {
        let estart: usize = if fend + 1 < s.len() && (s[fend + 1] == '+' || s[fend + 1] == '-') {
            fend + 2
        } else {
            fend + 1
        };
        let e = scan_digits(s, estart);
        if e == estart {
            return None;
        }
        end = e;
        has_exp = true;
    }
    let ghost digits = s@.subrange(p as int, dend as int);
    let ghost v = spec_digits_val(digits);
    if !has_frac && !has_exp {
        let sig = dend - p;
        if sig <= 19 {
            let mut mag: u64 = 0;
            let mut cur: usize = p;
            proof {
                assert(s@.subrange(p as int, p as int) =~= Seq::<char>::empty());
                reveal_with_fuel(pow10, 21);
            }
            while cur < dend
                invariant
                    p <= cur <= dend <= s@.len(),
                    dend - p <= 19,
                    forall|k: int| p <= k < dend ==> spec_is_digit(#[trigger] s@[k]),
                    mag == spec_digits_val(s@.subrange(p as int, cur as int)),
                    mag < pow10((cur - p) as nat),
                decreases dend - cur,
            {
                let u = s[cur] as u32;
                assert(48 <= u && u <= 57);
                let d: u64 = (u - 48) as u64;
                proof {
                    lemma_pow10_mono((cur - p) as nat, 18);
                    reveal_with_fuel(pow10, 21);
                    assert(pow10(18) == 1000000000000000000);
                    assert(s@.subrange(p as int, cur as int + 1).drop_last() =~= s@.subrange(
                        p as int,
                        cur as int,
                    ));
                }
                mag = mag * 10 + d;
                cur = cur + 1;
            }
            assert(s@.subrange(p as int, cur as int) =~= digits);
            assert(mag == v);
            if mag <= 0x7fffffffffffffff {
                let value: i64 = if neg {
                    -(mag as i64)
                } else {
                    mag as i64
                };
                return Some((Json::Int(value), end));
            }
            if neg && mag == 0x8000000000000000 {
                return Some((Json::Int(i64::MIN), end));
            }
            let lex = copy_range(s, start, end);
            return Some((Json::BigNum(chars_to_string(&lex)), end));
        } else {
            proof {
                lemma_digits_val_lower(digits);
                lemma_pow10_mono(19, (digits.len() - 1) as nat);
                reveal_with_fuel(pow10, 21);
                assert(pow10(19) == 10000000000000000000);
                assert(v > 0x8000000000000000);
            }
            let lex = copy_range(s, start, end);
            return Some((Json::BigNum(chars_to_string(&lex)), end));
        }
    }
    let lex = copy_range(s, start, end);
    Some((Json::BigNum(chars_to_string(&lex)), end))
}

fn parse_value(s: &Vec<char>, i: usize) -> (r: Option<(Json, usize)>)
    requires
        i <= s@.len(),
    ensures
        rel_value(r, spec_parse_value(s@, i as int)),
        r matches Some(p) ==> i < p.1 <= s@.len(),
    decreases s@.len() - i, 0int,
{
    let i0 = skip_ws(s, i);
    if i0 >= s.len() {
        return None;
    }
    let c = s[i0];
    if c == 'n' {
        if s.len() - i0 >= 4 && s[i0 + 1] == 'u' && s[i0 + 2] == 'l' && s[i0 + 3] == 'l' {
            Some((Json::Null, i0 + 4))
        } else {
            None
        }
    } else if c == 't' {
        if s.len() - i0 >= 4 && s[i0 + 1] == 'r' && s[i0 + 2] == 'u' && s[i0 + 3] == 'e' {
            Some((Json::Bool(true), i0 + 4))
        } else {
            None
        }
    } else if c == 'f' {
        if s.len() - i0 >= 5 && s[i0 + 1] == 'a' && s[i0 + 2] == 'l' && s[i0 + 3] == 's' && s[i0
            + 4] == 'e' {
            Some((Json::Bool(false), i0 + 5))
        } else {
            None
        }
    } else if c == '"' {
        match parse_string_body(s, i0 + 1) {
            None => None,
            Some((st, p)) => Some((Json::Text(st), p)),
        }
    } else if c == '-' || (48 <= (c as u32) && (c as u32) <= 57) {
        match parse_number(s, i0) {
            None => None,
            Some((n, p)) => Some((n, p)),
        }
    } else if c == '[' {
        let p = skip_ws(s, i0 + 1);
        if p < s.len() && s[p] == ']' {
            let out: Vec<Json> = Vec::new();
            proof {
                assert(arr_model(out@) =~= Seq::<JsonModel>::empty());
            }
            Some((Json::Arr(out), p + 1))
        } else {
            assert(p > i0);
            match parse_elements(s, p) {
                None => None,
                Some((es, q)) => Some((Json::Arr(es), q)),
            }
        }
    } else if c == '{' {
        let p = skip_ws(s, i0 + 1);
        if p < s.len() && s[p] == '}' {
            let out: Vec<(String, Json)> = Vec::new();
            proof {
                assert(obj_model(out@) =~= Seq::<(Seq<char>, JsonModel)>::empty());
            }
            Some((Json::Obj(out), p + 1))
        } else {
            assert(p > i0);
            match parse_members(s, p) {
                None => None,
                Some((fs, q)) => Some((Json::Obj(fs), q)),
            }
        }
    } else {
        None
    }
}

fn parse_elements(s: &Vec<char>, i: usize) -> (r: Option<(Vec<Json>, usize)>)
    requires
        i <= s@.len(),
    ensures
        rel_elements(r, spec_parse_elements(s@, i as int)),
        r matches Some(p) ==> i < p.1 <= s@.len(),
    decreases s@.len() - i, 1int,
{
    match parse_value(s, i) {
        None => None,
        Some((v, p)) => {
            let p2 = skip_ws(s, p);
            if p2 < s.len() && s[p2] == ',' {
                assert(p2 + 1 > i);
                match parse_elements(s, p2 + 1) {
                    None => None,
                    Some((rest, q)) => {
                        let mut out: Vec<Json> = Vec::new();
                        proof {
                            let ghost vm = v@;
                        }
                        out.push(v);
                        let mut rest = rest;
                        let ghost rest_snap = rest@;
                        out.append(&mut rest);
                        proof {
                            assert(out@ == seq![out@[0]] + rest_snap || out@.len() == 1 + rest_snap.len());
                            assert forall|k: int|
                                0 <= k < arr_model(out@).len() implies arr_model(out@)[k] == (
                            seq![json_model(out@[0])] + arr_model(rest_snap))[k] by {
                                if k > 0 {
                                    assert(out@[k] == rest_snap[k - 1]);
                                }
                            }
                            assert(arr_model(out@) =~= seq![json_model(out@[0])] + arr_model(
                                rest_snap,
                            ));
                        }
                        Some((out, q))
                    },
                }
            } else if p2 < s.len() && s[p2] == ']' {
                let mut out: Vec<Json> = Vec::new();
                out.push(v);
                proof {
                    assert(arr_model(out@) =~= seq![json_model(out@[0])]);
                }
                Some((out, p2 + 1))
            } else {
                None
            }
        },
    }
}

fn parse_members(s: &Vec<char>, i: usize) -> (r: Option<(Vec<(String, Json)>, usize)>)
    requires
        i <= s@.len(),
    ensures
        rel_members(r, spec_parse_members(s@, i as int)),
        r matches Some(p) ==> i < p.1 <= s@.len(),
    decreases s@.len() - i, 1int,
{
    if i >= s.len() {
        return None;
    }
    if !(s[i] == '"') {
        return None;
    }
    match parse_string_body(s, i + 1) {
        None => None,
        Some((key, kp)) => {
            let p2 = skip_ws(s, kp);
            if !(p2 < s.len()) {
                return None;
            }
            if !(s[p2] == ':') {
                return None;
            }
            assert(p2 + 1 > i);
            match parse_value(s, p2 + 1) {
                None => None,
                Some((v, vp)) => {
                    let p3 = skip_ws(s, vp);
                    if p3 < s.len() && s[p3] == ',' {
                        let nxt = skip_ws(s, p3 + 1);
                        assert(nxt > i);
                        match parse_members(s, nxt) {
                            None => None,
                            Some((rest, q)) => {
                                let mut out: Vec<(String, Json)> = Vec::new();
                                out.push((key, v));
                                let mut rest = rest;
                                let ghost rest_snap = rest@;
                                out.append(&mut rest);
                                proof {
                                    assert forall|k: int|
                                        0 <= k < obj_model(out@).len() implies obj_model(out@)[k]
                                        == (seq![(out@[0].0@, json_model(out@[0].1))] + obj_model(
                                        rest_snap,
                                    ))[k] by {
                                        if k > 0 {
                                            assert(out@[k] == rest_snap[k - 1]);
                                        }
                                    }
                                    assert(obj_model(out@) =~= seq![
                                        (out@[0].0@, json_model(out@[0].1)),
                                    ] + obj_model(rest_snap));
                                }
                                Some((out, q))
                            },
                        }
                    } else if p3 < s.len() && s[p3] == '}' {
                        let mut out: Vec<(String, Json)> = Vec::new();
                        out.push((key, v));
                        proof {
                            assert(obj_model(out@) =~= seq![(out@[0].0@, json_model(out@[0].1))]);
                        }
                        Some((out, p3 + 1))
                    } else {
                        None
                    }
                },
            }
        },
    }
}

/// Parses a JSON document: exactly what `spec_parse_json` says of the
/// text's characters — the returned tree's model is the specified one, and
/// the parse fails exactly when the specification parser says so.
pub fn parse_json(s: &str) -> (r: Option<Json>)
    ensures
        match r {
            Some(v) => spec_parse_json(s@) == Some(v@),
            None => spec_parse_json(s@) is None,
        },
{
    let chars = str_to_chars(s);
    match parse_value(&chars, 0) {
        None => None,
        Some((v, p)) => {
            let p2 = skip_ws(&chars, p);
            if p2 == chars.len() {
                Some(v)
            } else {
                None
            }
        },
    }
}

} // verus!
