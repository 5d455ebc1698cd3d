//! A model of JSON documents as the `json` crate represents them, the queries
//! that the launcher makes of them, and the calls into that crate that parse
//! and print documents.
use vstd::prelude::*;
use crate::text::{chars_of, concat2, nat_decimal, push_nat_decimal, push_str, string_push, to_owned_string};

verus! {

/// A JSON number as the `json` crate stores it: sign, mantissa and decimal
/// exponent (`Number::as_parts`).
#[derive(Clone, Copy, Debug)]
pub struct JsonNumber {
    pub positive: bool,
    pub mantissa: u64,
    pub exponent: i16,
}

/// A JSON document. Object entries keep their order and hold each key once.
#[derive(Debug)]
pub enum Json {
    Null,
    Str(String),
    Number(JsonNumber),
    Bool(bool),
    Object(Vec<(String, Json)>),
    Array(Vec<Json>),
}

/// The mathematical value of a JSON document.
pub ghost enum JsonV {
    Null,
    Str(Seq<char>),
    Number(bool, u64, i16),
    Bool(bool),
    Object(Seq<(Seq<char>, JsonV)>),
    Array(Seq<JsonV>),
}

pub open spec fn json_view(j: Json) -> JsonV
    decreases j,
{
    match j {
        Json::Null => JsonV::Null,
        Json::Str(s) => JsonV::Str(s@),
        Json::Number(n) => JsonV::Number(n.positive, n.mantissa, n.exponent),
        Json::Bool(b) => JsonV::Bool(b),
        Json::Object(es) => JsonV::Object(
            Seq::new(
                es.len() as nat,
                |i: int|
                    if 0 <= i < es.len() {
                        (es@[i].0@, json_view(es@[i].1))
                    } else {
                        (Seq::empty(), JsonV::Null)
                    },
            ),
        ),
        Json::Array(a) => JsonV::Array(
            Seq::new(
                a.len() as nat,
                |i: int|
                    if 0 <= i < a.len() {
                        json_view(a@[i])
                    } else {
                        JsonV::Null
                    },
            ),
        ),
    }
}

impl View for Json {
    type V = JsonV;

    open spec fn view(&self) -> JsonV {
        json_view(*self)
    }
}


// ---------------------------------------------------------------------------
// Queries, as the `json` crate answers them
// ---------------------------------------------------------------------------

/// The value of the first entry named `key`.
pub open spec fn find_entry(es: Seq<(Seq<char>, JsonV)>, key: Seq<char>) -> Option<JsonV>
    decreases es.len(),
{
    if es.len() == 0 {
        None
    } else if es[0].0 == key {
        Some(es[0].1)
    } else {
        find_entry(es.drop_first(), key)
    }
}

/// The member named `key` of an object; `None` when `j` is no object or lacks it.
pub open spec fn jv_field(j: JsonV, key: Seq<char>) -> Option<JsonV> {
    match j {
        JsonV::Object(es) => find_entry(es, key),
        _ => None,
    }
}

/// `j[key]`: the member named `key`, or `Null`.
pub open spec fn jv_index(j: JsonV, key: Seq<char>) -> JsonV {
    match jv_field(j, key) {
        Some(v) => v,
        None => JsonV::Null,
    }
}

/// `as_str`: the text of a string value.
pub open spec fn jv_as_str(j: JsonV) -> Option<Seq<char>> {
    match j {
        JsonV::Str(s) => Some(s),
        _ => None,
    }
}

/// `as_bool`.
pub open spec fn jv_as_bool(j: JsonV) -> Option<bool> {
    match j {
        JsonV::Bool(b) => Some(b),
        _ => None,
    }
}

/// `mantissa as i64`: the mantissa read as a two's complement 64-bit integer.
pub open spec fn wrap_i64(m: u64) -> int {
    if m < 0x8000_0000_0000_0000 {
        m as int
    } else {
        m as int - 0x1_0000_0000_0000_0000
    }
}

/// `as_i64`: an integral number (exponent 0), its mantissa read as an `i64`
/// and negated, with wrapping, when the sign is negative.
pub open spec fn jv_as_i64(j: JsonV) -> Option<int> {
    match j {
        JsonV::Number(positive, m, e) => if e != 0 {
            None
        } else if positive {
            Some(wrap_i64(m))
        } else if wrap_i64(m) == -0x8000_0000_0000_0000 {
            Some(wrap_i64(m))
        } else {
            Some(-wrap_i64(m))
        },
        _ => None,
    }
}

/// `as_i32`: `as_i64`, when it fits in an `i32`.
pub open spec fn jv_as_i32(j: JsonV) -> Option<int> {
    match jv_as_i64(j) {
        Some(v) => if i32::MIN <= v <= i32::MAX { Some(v) } else { None },
        None => None,
    }
}

/// `as_isize`: `as_i64`, when it fits in an `isize`.
pub open spec fn jv_as_isize(j: JsonV) -> Option<int> {
    match jv_as_i64(j) {
        Some(v) => if isize::MIN <= v <= isize::MAX { Some(v) } else { None },
        None => None,
    }
}

/// `as_usize`: a positive integral number that fits in a `usize`.
pub open spec fn jv_as_usize(j: JsonV) -> Option<int> {
    match j {
        JsonV::Number(positive, m, e) => if positive && e == 0 && m <= usize::MAX {
            Some(m as int)
        } else {
            None
        },
        _ => None,
    }
}

/// `members`: the elements of an array, none for any other value.
pub open spec fn jv_members(j: JsonV) -> Seq<JsonV> {
    match j {
        JsonV::Array(a) => a,
        _ => Seq::empty(),
    }
}

/// `entries`: the entries of an object, none for any other value.
pub open spec fn jv_entries(j: JsonV) -> Seq<(Seq<char>, JsonV)> {
    match j {
        JsonV::Object(es) => es,
        _ => Seq::empty(),
    }
}

/// A string value.
pub open spec fn jv_str(s: Seq<char>) -> JsonV {
    JsonV::Str(s)
}

/// The number that `JsonValue::from` makes of an `i32`.
pub open spec fn jv_i32(v: int) -> JsonV {
    if v < 0 {
        JsonV::Number(false, (-v) as u64, 0)
    } else {
        JsonV::Number(true, v as u64, 0)
    }
}

/// The first entry named `key` is the one at `k` when no earlier entry has
/// that name.
pub proof fn lemma_find_entry_at(es: Seq<(Seq<char>, JsonV)>, key: Seq<char>, k: int)
    requires
        0 <= k < es.len(),
        es[k].0 == key,
        forall|j: int| 0 <= j < k ==> es[j].0 != key,
    ensures
        find_entry(es, key) == Some(es[k].1),
    decreases k,
{
    if k > 0 {
        assert forall|j: int| 0 <= j < k - 1 implies es.drop_first()[j].0 != key by {
            assert(es.drop_first()[j] == es[j + 1]);
        }
        lemma_find_entry_at(es.drop_first(), key, k - 1);
    }
}

proof fn lemma_find_entry_skip(es: Seq<(Seq<char>, JsonV)>, key: Seq<char>, i: int)
    requires
        0 <= i < es.len(),
        es[i].0 != key,
    ensures
        find_entry(es.skip(i), key) == find_entry(es.skip(i + 1), key),
{
    assert(es.skip(i).drop_first() == es.skip(i + 1));
}

impl Json {
    /// `self[key]` as a reference, `None` where the `json` crate gives `Null`
    /// for want of the member.
    pub fn field(&self, key: &str) -> (res: Option<&Json>)
        ensures
            match res {
                Some(v) => jv_field(self@, key@) == Some(v@),
                None => jv_field(self@, key@) is None,
            },
    {
        match self {
            Json::Object(es) => {
                let k = to_owned_string(key);
                let ghost vs = jv_entries(self@);
                assert(vs.skip(0) == vs);
                let mut i: usize = 0;
                while i < es.len()
                    invariant
                        i <= es.len(),
                        k@ == key@,
                        vs == jv_entries(self@),
                        vs.len() == es.len(),
                        forall|j: int| 0 <= j < es.len() ==> #[trigger] vs[j] == (es@[j].0@, es@[j].1@),
                        *self == Json::Object(*es),
                        find_entry(vs, key@) == find_entry(vs.skip(i as int), key@),
                    decreases es.len() - i,
                {
                    assert(vs[i as int] == (es@[i as int].0@, es@[i as int].1@));
                    if es[i].0 == k {
                        assert(vs.skip(i as int)[0] == vs[i as int]);
                        return Some(&es[i].1);
                    }
                    proof {
                        lemma_find_entry_skip(vs, key@, i as int);
                    }
                    i = i + 1;
                }
                assert(vs.skip(i as int).len() == 0);
                None
            },
            _ => None,
        }
    }

    /// `as_str`, as an owned string.
    pub fn as_str(&self) -> (res: Option<String>)
        ensures
            match res {
                Some(s) => jv_as_str(self@) == Some(s@),
                None => jv_as_str(self@) is None,
            },
    {
        match self {
            Json::Str(s) => Some(s.clone()),
            _ => None,
        }
    }

    /// `as_bool`.
    pub fn as_bool(&self) -> (res: Option<bool>)
        ensures
            res == jv_as_bool(self@),
    {
        match self {
            Json::Bool(b) => Some(*b),
            _ => None,
        }
    }

    /// `as_i64`.
    pub fn as_i64(&self) -> (res: Option<i64>)
        ensures
            match res {
                Some(v) => jv_as_i64(self@) == Some(v as int),
                None => jv_as_i64(self@) is None,
            },
    {
        match self {
            Json::Number(n) => {
                if n.exponent != 0 {
                    return None;
                }
                let w: i64 = if n.mantissa < 0x8000_0000_0000_0000u64 {
                    n.mantissa as i64
                } else {
                    (n.mantissa - 0x8000_0000_0000_0000u64) as i64 + i64::MIN
                };
                if n.positive || w == i64::MIN {
                    Some(w)
                } else {
                    Some(-w)
                }
            },
            _ => None,
        }
    }

    /// `as_i32`.
    pub fn as_i32(&self) -> (res: Option<i32>)
        ensures
            match res {
                Some(v) => jv_as_i32(self@) == Some(v as int),
                None => jv_as_i32(self@) is None,
            },
    {
        match self.as_i64() {
            Some(v) => if i32::MIN as i64 <= v && v <= i32::MAX as i64 {
                Some(v as i32)
            } else {
                None
            },
            None => None,
        }
    }

    /// `as_isize`.
    pub fn as_isize(&self) -> (res: Option<isize>)
        ensures
            match res {
                Some(v) => jv_as_isize(self@) == Some(v as int),
                None => jv_as_isize(self@) is None,
            },
    {
        match self.as_i64() {
            Some(v) => if isize::MIN as i64 <= v && v <= isize::MAX as i64 {
                Some(v as isize)
            } else {
                None
            },
            None => None,
        }
    }

    /// `as_usize`.
    pub fn as_usize(&self) -> (res: Option<usize>)
        ensures
            match res {
                Some(v) => jv_as_usize(self@) == Some(v as int),
                None => jv_as_usize(self@) is None,
            },
    {
        match self {
            Json::Number(n) => if n.positive && n.exponent == 0 && n.mantissa <= usize::MAX as u64 {
                Some(n.mantissa as usize)
            } else {
                None
            },
            _ => None,
        }
    }

    /// `members`: the elements of an array, `None` for any other value (which
    /// the `json` crate iterates as empty).
    pub fn members(&self) -> (res: Option<&Vec<Json>>)
        ensures
            match res {
                Some(a) => self@ == JsonV::Array(jv_members(self@)) && a@.len() == jv_members(self@).len()
                    && forall|i: int| 0 <= i < a@.len() ==> #[trigger] a@[i]@ == jv_members(self@)[i],
                None => jv_members(self@) == Seq::<JsonV>::empty(),
            },
    {
        match self {
            Json::Array(a) => Some(a),
            _ => None,
        }
    }

    /// `entries`: the entries of an object, `None` for any other value (which
    /// the `json` crate iterates as empty).
    pub fn entries(&self) -> (res: Option<&Vec<(String, Json)>>)
        ensures
            match res {
                Some(es) => es@.len() == jv_entries(self@).len() && forall|i: int|
                    0 <= i < es@.len() ==> #[trigger] jv_entries(self@)[i] == (es@[i].0@, es@[i].1@),
                None => jv_entries(self@) == Seq::<(Seq<char>, JsonV)>::empty(),
            },
    {
        match self {
            Json::Object(es) => Some(es),
            _ => None,
        }
    }

    /// `self[key].as_str()`.
    pub fn get_str(&self, key: &str) -> (res: Option<String>)
        ensures
            match res {
                Some(s) => jv_as_str(jv_index(self@, key@)) == Some(s@),
                None => jv_as_str(jv_index(self@, key@)) is None,
            },
    {
        match self.field(key) {
            Some(v) => v.as_str(),
            None => None,
        }
    }

    /// `self[key].as_isize()`.
    pub fn get_isize(&self, key: &str) -> (res: Option<isize>)
        ensures
            match res {
                Some(v) => jv_as_isize(jv_index(self@, key@)) == Some(v as int),
                None => jv_as_isize(jv_index(self@, key@)) is None,
            },
    {
        match self.field(key) {
            Some(v) => v.as_isize(),
            None => None,
        }
    }

    /// `self[key].as_usize()`.
    pub fn get_usize(&self, key: &str) -> (res: Option<usize>)
        ensures
            match res {
                Some(v) => jv_as_usize(jv_index(self@, key@)) == Some(v as int),
                None => jv_as_usize(jv_index(self@, key@)) is None,
            },
    {
        match self.field(key) {
            Some(v) => v.as_usize(),
            None => None,
        }
    }

    /// `self[key].as_i32()`.
    pub fn get_i32(&self, key: &str) -> (res: Option<i32>)
        ensures
            match res {
                Some(v) => jv_as_i32(jv_index(self@, key@)) == Some(v as int),
                None => jv_as_i32(jv_index(self@, key@)) is None,
            },
    {
        match self.field(key) {
            Some(v) => v.as_i32(),
            None => None,
        }
    }

    /// `self[key].as_bool()`.
    pub fn get_bool(&self, key: &str) -> (res: Option<bool>)
        ensures
            res == jv_as_bool(jv_index(self@, key@)),
    {
        match self.field(key) {
            Some(v) => v.as_bool(),
            None => None,
        }
    }

    /// A JSON string holding `s`.
    pub fn from_str_value(s: &str) -> (res: Json)
        ensures
            res@ == jv_str(s@),
    {
        Json::Str(to_owned_string(s))
    }

    /// The JSON number of an `i32`, as the `json` crate builds one.
    pub fn from_i32(v: i32) -> (res: Json)
        ensures
            res@ == jv_i32(v as int),
    {
        if v < 0 {
            let m: u64 = (-(v as i64)) as u64;
            Json::Number(JsonNumber { positive: false, mantissa: m, exponent: 0 })
        } else {
            Json::Number(JsonNumber { positive: true, mantissa: v as u64, exponent: 0 })
        }
    }
}

// ---------------------------------------------------------------------------
// Parsing and printing through the `json` crate
// ---------------------------------------------------------------------------

#[verifier::external_type_specification]
#[verifier::external_body]
pub struct ExJsonValue(json::JsonValue);

/// What `json::parse` makes of a text: the document, or the error it reports.
pub uninterp spec fn spec_json_parse(text: Seq<char>) -> Result<JsonV, JsonErrorV>;

/// What `json::stringify_pretty` prints for a document with the given indent.
pub uninterp spec fn spec_json_stringify_pretty(doc: JsonV, spaces: u16) -> Seq<char>;

#[verifier::external_type_specification]
#[verifier::external_body]
pub struct ExJsonCrateError(json::Error);

/// Why a text is no JSON document: `json::Error`, variant for variant.
#[derive(Clone, Debug, PartialEq, Eq)]
pub enum JsonError {
    UnexpectedCharacter { ch: char, line: usize, column: usize },
    UnexpectedEndOfJson,
    ExceededDepthLimit,
    FailedUtf8Parsing,
    WrongType(String),
}

/// The mathematical value of a `JsonError`.
pub ghost enum JsonErrorV {
    UnexpectedCharacter { ch: char, line: nat, column: nat },
    UnexpectedEndOfJson,
    ExceededDepthLimit,
    FailedUtf8Parsing,
    WrongType(Seq<char>),
}

impl View for JsonError {
    type V = JsonErrorV;

    open spec fn view(&self) -> JsonErrorV {
        match self {
            JsonError::UnexpectedCharacter { ch, line, column } => JsonErrorV::UnexpectedCharacter {
                ch: *ch,
                line: *line as nat,
                column: *column as nat,
            },
            JsonError::UnexpectedEndOfJson => JsonErrorV::UnexpectedEndOfJson,
            JsonError::ExceededDepthLimit => JsonErrorV::ExceededDepthLimit,
            JsonError::FailedUtf8Parsing => JsonErrorV::FailedUtf8Parsing,
            JsonError::WrongType(s) => JsonErrorV::WrongType(s@),
        }
    }
}

impl JsonError {
    /// The message of the error, as `json::Error` displays it.
    pub fn message(&self) -> (res: String)
        ensures
            res@ == match self {
                JsonError::UnexpectedCharacter { ch, line, column } => "Unexpected character: "@
                    + seq![*ch] + " at ("@ + nat_decimal(*line as nat) + ":"@ + nat_decimal(*column as nat)
                    + ")"@,
                JsonError::UnexpectedEndOfJson => "Unexpected end of JSON"@,
                JsonError::ExceededDepthLimit => "Exceeded depth limit"@,
                JsonError::FailedUtf8Parsing => "Failed to parse UTF-8 bytes"@,
                JsonError::WrongType(s) => "Wrong type, expected: "@ + s@,
            },
    {
        match self {
            JsonError::UnexpectedCharacter { ch, line, column } => {
                let mut out = to_owned_string("Unexpected character: ");
                string_push(&mut out, *ch);
                push_str(&mut out, " at (");
                push_nat_decimal(&mut out, *line as u64);
                push_str(&mut out, ":");
                push_nat_decimal(&mut out, *column as u64);
                push_str(&mut out, ")");
                out
            },
            JsonError::UnexpectedEndOfJson => to_owned_string("Unexpected end of JSON"),
            JsonError::ExceededDepthLimit => to_owned_string("Exceeded depth limit"),
            JsonError::FailedUtf8Parsing => to_owned_string("Failed to parse UTF-8 bytes"),
            JsonError::WrongType(s) => concat2("Wrong type, expected: ", s.as_str()),
        }
    }
}

/// Calls `json::parse` and reads the resulting `JsonValue` into the model,
/// or its `json::Error` into `JsonError`. Claimed: the outcome, document or
/// error, depends on the text alone (the crate's parser is a pure function
/// of its input). Its grammar is not restated here.
#[verifier::external_body]
fn json_crate_parse(text: &str) -> (res: Result<Json, JsonError>)
    ensures
        match res {
            Ok(j) => spec_json_parse(text@) == Ok::<JsonV, JsonErrorV>(j@),
            Err(e) => spec_json_parse(text@) == Err::<JsonV, JsonErrorV>(e@),
        },
{
    match json::parse(text) {
        Ok(v) => Ok(json_from_value(&v)),
        Err(e) => Err(json_error_of(e)),
    }
}

/// Moves a `json::Error` into `JsonError`, one arm per variant.
#[verifier::external_body]
fn json_error_of(e: json::Error) -> JsonError {
    match e {
        json::Error::UnexpectedCharacter { ch, line, column } => JsonError::UnexpectedCharacter { ch, line, column },
        json::Error::UnexpectedEndOfJson => JsonError::UnexpectedEndOfJson,
        json::Error::ExceededDepthLimit => JsonError::ExceededDepthLimit,
        json::Error::FailedUtf8Parsing => JsonError::FailedUtf8Parsing,
        json::Error::WrongType(s) => JsonError::WrongType(s),
    }
}

/// Reads a JSON document from text, such as the body of an HTTP answer: the
/// document the `json` crate parses, or the error it reports.
pub fn parse_json(text: &str) -> (res: Result<Json, JsonError>)
    ensures
        match res {
            Ok(j) => spec_json_parse(text@) == Ok::<JsonV, JsonErrorV>(j@),
            Err(e) => spec_json_parse(text@) == Err::<JsonV, JsonErrorV>(e@),
        },
{
    json_crate_parse(text)
}

/// Reads a `json::JsonValue` into the model, one variant for one variant:
/// `Short` and `String` both become `Str`, a number keeps `Number::as_parts`,
/// an object keeps its entries in the crate's iteration order.
#[verifier::external_body]
fn json_from_value(v: &json::JsonValue) -> Json {
    match v {
        json::JsonValue::Null => Json::Null,
        json::JsonValue::Short(s) => Json::Str(s.as_str().to_string()),
        json::JsonValue::String(s) => Json::Str(s.clone()),
        json::JsonValue::Number(n) => {
            let (positive, mantissa, exponent) = n.as_parts();
            Json::Number(JsonNumber { positive, mantissa, exponent })
        },
        json::JsonValue::Boolean(b) => Json::Bool(*b),
        json::JsonValue::Object(o) => Json::Object(o.iter().map(|(k, x)| (k.to_string(), json_from_value(x))).collect()),
        json::JsonValue::Array(a) => Json::Array(a.iter().map(json_from_value).collect()),
    }
}

/// Writes the model back as a `json::JsonValue`, one variant for one variant
/// (a number through `Number::from_parts`).
#[verifier::external_body]
fn json_to_value(j: &Json) -> json::JsonValue {
    match j {
        Json::Null => json::JsonValue::Null,
        Json::Str(s) => json::JsonValue::String(s.clone()),
        Json::Number(n) => json::JsonValue::Number(json::number::Number::from_parts(n.positive, n.mantissa, n.exponent)),
        Json::Bool(b) => json::JsonValue::Boolean(*b),
        Json::Object(es) => json::JsonValue::Object(es.iter().map(|(k, x)| (k.as_str(), json_to_value(x))).collect()),
        Json::Array(a) => json::JsonValue::Array(a.iter().map(json_to_value).collect()),
    }
}

/// A value that the `json` crate prints and parses back unchanged: null, a
/// boolean, a string, or a whole number (exponent 0) of at most `u32::MAX`.
pub open spec fn spec_json_plain_scalar(v: JsonV) -> bool {
    match v {
        JsonV::Null => true,
        JsonV::Bool(_) => true,
        JsonV::Str(_) => true,
        JsonV::Number(_, m, e) => e == 0 && m <= u32::MAX,
        _ => false,
    }
}

/// An object whose keys are distinct and whose values are plain scalars.
pub open spec fn spec_json_flat_object(j: JsonV) -> bool {
    &&& j is Object
    &&& forall|a: int, b: int| 0 <= a < b < jv_entries(j).len() ==> #[trigger] jv_entries(j)[a].0 != #[trigger] jv_entries(j)[b].0
    &&& forall|a: int| 0 <= a < jv_entries(j).len() ==> spec_json_plain_scalar(#[trigger] jv_entries(j)[a].1)
}

/// Calls `json::stringify_pretty` on the document. Claimed: the text depends
/// on the document and the indent alone; and `json::parse` reads the text of
/// a flat object back as that object (the printer escapes every character
/// that the parser unescapes, prints a whole number as its digits, and keeps
/// the object's order; whitespace is skipped by the parser).
#[verifier::external_body]
pub(crate) fn stringify_pretty(doc: &Json, spaces: u16) -> (res: String)
    ensures
        res@ == spec_json_stringify_pretty(doc@, spaces),
        spec_json_flat_object(doc@) ==> (spec_json_parse(res@) == Ok::<JsonV, JsonErrorV>(doc@)),
{
    json::stringify_pretty(json_to_value(doc), spaces)
}


/// What `json::stringify` prints for a document (compact form).
pub uninterp spec fn spec_json_stringify(doc: JsonV) -> Seq<char>;

/// Calls `json::stringify` on the document. Claimed: the text depends on the
/// document alone.
#[verifier::external_body]
fn json_crate_stringify(doc: &Json) -> (res: String)
    ensures
        res@ == spec_json_stringify(doc@),
{
    json::stringify(json_to_value(doc))
}

/// The compact text of a document, as a request body carries it.
pub fn to_compact_text(doc: &Json) -> (res: String)
    ensures
        res@ == spec_json_stringify(doc@),
{
    json_crate_stringify(doc)
}

} // verus!
