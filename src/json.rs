//! A JSON document as the protocol engine reads it, and the calls into
//! `serde_json` that decode and print it.
use vstd::prelude::*;

verus! {

#[verifier::external_type_specification]
#[verifier::external_body]
pub struct ExValue(serde_json::Value);

/// A JSON value. Numbers read from text are kept as their text; `Int` holds
/// the integers the library writes itself.
#[derive(Debug, PartialEq)]
pub enum Json {
    Null,
    Bool(bool),
    Int(i64),
    Num(String),
    Str(String),
    Array(Vec<Json>),
    Object(Vec<(String, Json)>),
}

/// The value under `key` among the members `es` (the first one, if several).
pub open spec fn lookup(es: Seq<(String, Json)>, key: Seq<char>) -> Option<Json>
    decreases es.len(),
{
    if es.len() == 0 {
        None
    } else if es[0].0@ == key {
        Some(es[0].1)
    } else {
        lookup(es.drop_first(), key)
    }
}

/// The member `key` of `j`, if `j` is an object that has one.
pub open spec fn field(j: Json, key: Seq<char>) -> Option<Json> {
    match j {
        Json::Object(es) => lookup(es@, key),
        _ => None,
    }
}

/// `j` as text, if it is a string.
pub open spec fn text_of(j: Option<Json>) -> Option<Seq<char>> {
    match j {
        Some(Json::Str(s)) => Some(s@),
        _ => None,
    }
}

/// The value of the decimal digits `d`.
pub open spec fn digits_value(d: Seq<char>) -> int
    decreases d.len(),
{
    if d.len() == 0 {
        0
    } else {
        digits_value(d.drop_last()) * 10 + (d.last() as int - '0' as int)
    }
}

/// The integer that `i64::from_str` reads from `s`: an optional sign, then
/// one or more ASCII digits, within range.
pub open spec fn i64_of_text(s: Seq<char>) -> Option<i64> {
    let neg = s.len() > 0 && s[0] == '-';
    let d = if s.len() > 0 && (s[0] == '-' || s[0] == '+') {
        s.drop_first()
    } else {
        s
    };
    let v = if neg {
        -digits_value(d)
    } else {
        digits_value(d)
    };
    if d.len() > 0 && (forall|i: int| 0 <= i < d.len() ==> '0' <= #[trigger] d[i] <= '9')
        && i64::MIN <= v <= i64::MAX {
        Some(v as i64)
    } else {
        None
    }
}

/// Relies on `<i64 as FromStr>::from_str`: its documented grammar is an
/// optional `+` or `-` followed by decimal digits, and it fails on overflow.
#[verifier::external_body]
pub(crate) fn parse_i64(s: &str) -> (r: Option<i64>)
    ensures
        r == i64_of_text(s@),
{
    s.parse::<i64>().ok()
}

/// `j` as an integer, if it is one that fits in an `i64` (a number held as
/// text counts when the text is a decimal integer).
pub open spec fn int_of(j: Option<Json>) -> Option<i64> {
    match j {
        Some(Json::Int(n)) => Some(n),
        Some(Json::Num(s)) => i64_of_text(s@),
        _ => None,
    }
}

/// The elements of `j`, if it is an array.
pub open spec fn items_of(j: Option<Json>) -> Option<Seq<Json>> {
    match j {
        Some(Json::Array(v)) => Some(v@),
        _ => None,
    }
}

/// Compares two strings character by character.
pub fn str_eq(a: &str, b: &str) -> (r: bool)
    ensures
        r == (a@ == b@),
{
    let x = crate::text::chars_of(a);
    let y = crate::text::chars_of(b);
    if x.len() != y.len() {
        return false;
    }
    let mut i: usize = 0;
    while i < x.len()
        invariant
            i <= x@.len() == y@.len(),
            x@ == a@,
            y@ == b@,
            forall|j: int| 0 <= j < i ==> x@[j] == y@[j],
        decreases x.len() - i,
    {
        if x[i] != y[i] {
            assert(x@[i as int] != y@[i as int]);
            return false;
        }
        i = i + 1;
    }
    assert(x@ =~= y@);
    true
}

impl Json {
    /// The member `key` of this value, if it is an object that has one.
    pub fn get(&self, key: &str) -> (r: Option<&Json>)
        ensures
            match r {
                Some(v) => field(*self, key@) == Some(*v),
                None => field(*self, key@) is None,
            },
    {
        match self {
            Json::Object(es) => {
                let mut i: usize = 0;
                assert(es@.subrange(0, es@.len() as int) =~= es@);
                while i < es.len()
                    invariant
                        i <= es@.len(),
                        field(*self, key@) == lookup(es@.subrange(i as int, es@.len() as int), key@),
                    decreases es.len() - i,
                {
                    let ghost rest = es@.subrange(i as int, es@.len() as int);
                    assert(rest.drop_first() =~= es@.subrange(i + 1, es@.len() as int));
                    assert(rest[0] == es@[i as int]);
                    if str_eq(es[i].0.as_str(), key) {
                        return Some(&es[i].1);
                    }
                    i = i + 1;
                }
                None
            },
            _ => None,
        }
    }

    /// Takes the member `key` out of this value, if it is an object that has one.
    pub fn take(self, key: &str) -> (r: Option<Json>)
        ensures
            r == field(self, key@),
    {
        let ghost f = field(self, key@);
        match self {
            Json::Object(es) => {
                let mut es = es;
                while es.len() > 0
                    invariant
                        f == lookup(es@, key@),
                        f == field(self, key@),
                    decreases es.len(),
                {
                    let ghost before = es@;
                    let (k, v) = es.remove(0);
                    assert(before.drop_first() =~= es@);
                    assert(before[0] == (k, v));
                    if str_eq(k.as_str(), key) {
                        return Some(v);
                    }
                }
                None
            },
            _ => None,
        }
    }

    pub fn as_i64(&self) -> (r: Option<i64>)
        ensures
            r == int_of(Some(*self)),
    {
        match self {
            Json::Int(n) => Some(*n),
            Json::Num(s) => parse_i64(s.as_str()),
            _ => None,
        }
    }

    pub fn as_str(&self) -> (r: Option<&str>)
        ensures
            match r {
                Some(s) => text_of(Some(*self)) == Some(s@),
                None => text_of(Some(*self)) is None,
            },
    {
        match self {
            Json::Str(s) => Some(s.as_str()),
            _ => None,
        }
    }

    pub fn is_array(&self) -> (r: bool)
        ensures
            r == (items_of(Some(*self)) is Some),
    {
        match self {
            Json::Array(_) => true,
            _ => false,
        }
    }
}

/// What `serde_json` reads from the text `s`, when `s` is one JSON document.
pub uninterp spec fn parsed_json(s: Seq<char>) -> Option<Json>;

/// The text that `serde_json` pretty-prints for `j`.
pub uninterp spec fn pretty_of(j: Json) -> Seq<char>;

/// The compact text that `serde_json` prints for `j`.
pub uninterp spec fn compact_of(j: Json) -> Seq<char>;

/// Converts a `serde_json` value into a `Json`, one node for one node.
#[verifier::external_body]
fn from_value(v: &serde_json::Value) -> Json {
    match v {
        serde_json::Value::Null => Json::Null,
        serde_json::Value::Bool(b) => Json::Bool(*b),
        serde_json::Value::Number(n) => Json::Num(n.to_string()),
        serde_json::Value::String(s) => Json::Str(s.clone()),
        serde_json::Value::Array(a) => Json::Array(a.iter().map(from_value).collect()),
        serde_json::Value::Object(m) => Json::Object(
            m.iter().map(|(k, x)| (k.clone(), from_value(x))).collect(),
        ),
    }
}

/// Converts a `Json` into a `serde_json` value, one node for one node.
#[verifier::external_body]
fn to_value(j: &Json) -> serde_json::Value {
    match j {
        Json::Null => serde_json::Value::Null,
        Json::Bool(b) => serde_json::Value::Bool(*b),
        Json::Int(i) => serde_json::Value::from(*i),
        Json::Num(s) => s.parse::<serde_json::Number>().map(serde_json::Value::Number).unwrap_or(
            serde_json::Value::Null,
        ),
        Json::Str(s) => serde_json::Value::String(s.clone()),
        Json::Array(a) => serde_json::Value::Array(a.iter().map(to_value).collect()),
        Json::Object(es) => serde_json::Value::Object(
            es.iter().map(|(k, x)| (k.clone(), to_value(x))).collect(),
        ),
    }
}

/// Relies on `serde_json::from_str::<Value>`: whether `s` decodes, and to
/// what, depends on the text alone.
#[verifier::external_body]
fn decode(s: &str) -> (r: Option<Json>)
    ensures
        r == parsed_json(s@),
{
    serde_json::from_str::<serde_json::Value>(s).ok().map(|v| from_value(&v))
}

/// Relies on `serde_json::to_string_pretty` (with the compact `Display` form
/// should it fail): the text depends on the value alone.
#[verifier::external_body]
fn print_pretty(j: &Json) -> (r: String)
    ensures
        r@ == pretty_of(*j),
{
    let v = to_value(j);
    serde_json::to_string_pretty(&v).unwrap_or_else(|_| v.to_string())
}

/// Relies on `serde_json::Value`'s `Display`: the compact text depends on the
/// value alone.
#[verifier::external_body]
fn print_compact(j: &Json) -> (r: String)
    ensures
        r@ == compact_of(*j),
{
    to_value(j).to_string()
}

/// Reads one JSON document from `s`.
pub fn parse_json(s: &str) -> (r: Option<Json>)
    ensures
        r == parsed_json(s@),
{
    decode(s)
}

/// The pretty-printed text of `j`.
pub fn pretty_json(j: &Json) -> (r: String)
    ensures
        r@ == pretty_of(*j),
{
    print_pretty(j)
}

/// The compact text of `j`.
pub fn compact_json(j: &Json) -> (r: String)
    ensures
        r@ == compact_of(*j),
{
    print_compact(j)
}

} // verus!
