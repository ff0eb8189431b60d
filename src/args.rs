//! Turning command-line words into the JSON arguments of a tool call, as the
//! tool's input schema describes them.
use vstd::prelude::*;
use crate::command::join_words;
use crate::json::{field, i64_of_text, items_of, lookup, parse_i64, parse_json, parsed_json, str_eq, text_of, Json};
use crate::text::{lower_of, lowercase, views};

verus! {

/// Why the words could not be turned into arguments.
#[derive(Debug, PartialEq, Eq)]
pub enum ArgsError {
    MissingRequired(String),
    InvalidInteger { param: String, value: String },
    InvalidBoolean { param: String, value: String },
    TooManyArgs { expected: usize, got: usize },
    InvalidSchema(String),
}

/// An error as contracts see it.
pub enum ArgsErrorView {
    MissingRequired(Seq<char>),
    InvalidInteger(Seq<char>, Seq<char>),
    InvalidBoolean(Seq<char>, Seq<char>),
    TooManyArgs(nat, nat),
    InvalidSchema(Seq<char>),
}

impl ArgsError {
    /// The text shown to the user for this error.
    pub fn message(&self) -> (r: String)
        ensures
            r@ == match self.view() {
                ArgsErrorView::MissingRequired(p) => "Missing required parameter: "@ + p,
                ArgsErrorView::InvalidInteger(p, v) => "Invalid integer value for '"@ + p + "': "@ + v,
                ArgsErrorView::InvalidBoolean(p, v) => "Invalid boolean value for '"@ + p + "': "@ + v,
                ArgsErrorView::TooManyArgs(e, g) => "Too many arguments: expected "@ + crate::text::decimal_of(e)
                    + ", got "@ + crate::text::decimal_of(g),
                ArgsErrorView::InvalidSchema(m) => "Invalid schema: "@ + m,
            },
    {
        match self {
            ArgsError::MissingRequired(p) => crate::text::join2("Missing required parameter: ", p.as_str()),
            ArgsError::InvalidInteger { param, value } => {
                let a = crate::text::join2("Invalid integer value for '", param.as_str());
                let b = crate::text::join2(a.as_str(), "': ");
                crate::text::join2(b.as_str(), value.as_str())
            },
            ArgsError::InvalidBoolean { param, value } => {
                let a = crate::text::join2("Invalid boolean value for '", param.as_str());
                let b = crate::text::join2(a.as_str(), "': ");
                crate::text::join2(b.as_str(), value.as_str())
            },
            ArgsError::TooManyArgs { expected, got } => {
                let mut v = crate::text::chars_of("Too many arguments: expected ");
                crate::text::push_decimal(&mut v, *expected as u64);
                let mid = crate::text::chars_of(", got ");
                crate::text::extend_chars(&mut v, mid.as_slice());
                crate::text::push_decimal(&mut v, *got as u64);
                crate::text::string_from(v.as_slice())
            },
            ArgsError::InvalidSchema(m) => crate::text::join2("Invalid schema: ", m.as_str()),
        }
    }

    pub open spec fn view(&self) -> ArgsErrorView {
        match self {
            ArgsError::MissingRequired(p) => ArgsErrorView::MissingRequired(p@),
            ArgsError::InvalidInteger { param, value } => ArgsErrorView::InvalidInteger(
                param@,
                value@,
            ),
            ArgsError::InvalidBoolean { param, value } => ArgsErrorView::InvalidBoolean(
                param@,
                value@,
            ),
            ArgsError::TooManyArgs { expected, got } => ArgsErrorView::TooManyArgs(
                *expected as nat,
                *got as nat,
            ),
            ArgsError::InvalidSchema(m) => ArgsErrorView::InvalidSchema(m@),
        }
    }
}

/// What a word becomes for a parameter whose schema is `prop`.
pub enum Converted {
    Int(i64),
    Number(Json),
    Bool(bool),
    Parsed(Json),
    Text(Seq<char>),
    Fail(ArgsErrorView),
}

/// The declared type of a parameter; `string` when none is given.
pub open spec fn type_of(prop: Json) -> Seq<char> {
    match text_of(field(prop, "type"@)) {
        Some(t) => t,
        None => "string"@,
    }
}

/// How the word `value` for parameter `name` converts under schema `prop`.
pub open spec fn convert(value: Seq<char>, prop: Json, name: Seq<char>) -> Converted {
    let t = type_of(prop);
    if t == "integer"@ {
        match i64_of_text(value) {
            Some(n) => Converted::Int(n),
            None => Converted::Fail(ArgsErrorView::InvalidInteger(name, value)),
        }
    } else if t == "number"@ {
        match parsed_json(value) {
            Some(Json::Int(n)) => Converted::Int(n),
            Some(Json::Num(s)) => Converted::Number(Json::Num(s)),
            _ => Converted::Fail(ArgsErrorView::InvalidInteger(name, value)),
        }
    } else if t == "boolean"@ {
        let l = lower_of(value);
        if l == "true"@ || l == "t"@ || l == "yes"@ || l == "y"@ || l == "1"@ {
            Converted::Bool(true)
        } else if l == "false"@ || l == "f"@ || l == "no"@ || l == "n"@ || l == "0"@ {
            Converted::Bool(false)
        } else {
            Converted::Fail(ArgsErrorView::InvalidBoolean(name, value))
        }
    } else if t == "array"@ || t == "object"@ {
        match parsed_json(value) {
            Some(j) => Converted::Parsed(j),
            None => Converted::Fail(
                ArgsErrorView::InvalidSchema("Cannot parse '"@ + value + "' as "@ + t),
            ),
        }
    } else {
        Converted::Text(value)
    }
}

/// `j` is what `c` says the word becomes.
pub open spec fn is_converted(j: Json, c: Converted) -> bool {
    match c {
        Converted::Int(n) => j == Json::Int(n),
        Converted::Number(x) => j == x,
        Converted::Bool(b) => j == Json::Bool(b),
        Converted::Parsed(x) => j == x,
        Converted::Text(s) => match j {
            Json::Str(v) => v@ == s,
            _ => false,
        },
        Converted::Fail(_) => false,
    }
}

/// Converts the word `value` for parameter `param_name` as `schema` declares.
///
/// A `number` word must be a JSON number and is kept as written (`5` stays
/// an integer, `2.5` a fraction); words that only a float parser accepts,
/// such as `+5`, `.5`, `5.` or `inf`, are refused with `InvalidInteger`.
pub fn convert_value(value: &str, schema: &Json, param_name: &str) -> (r: Result<Json, ArgsError>)
    ensures
        match convert(value@, *schema, param_name@) {
            Converted::Fail(e) => r matches Err(x) && x.view() == e,
            c => r matches Ok(j) && is_converted(j, c),
        },
{
    let t: &str = match schema.get("type") {
        Some(v) => match v.as_str() {
            Some(s) => s,
            None => "string",
        },
        None => "string",
    };
    let fail_int = ArgsError::InvalidInteger {
        param: String::from_str(param_name),
        value: String::from_str(value),
    };
    if str_eq(t, "integer") {
        match parse_i64(value) {
            Some(n) => Ok(Json::Int(n)),
            None => Err(fail_int),
        }
    } else if str_eq(t, "number") {
        match parse_json(value) {
            Some(Json::Int(n)) => Ok(Json::Int(n)),
            Some(Json::Num(s)) => Ok(Json::Num(s)),
            _ => Err(fail_int),
        }
    } else if str_eq(t, "boolean") {
        let l = lowercase(value);
        let ls = l.as_str();
        if str_eq(ls, "true") || str_eq(ls, "t") || str_eq(ls, "yes") || str_eq(ls, "y") || str_eq(
            ls,
            "1",
        ) {
            Ok(Json::Bool(true))
        } else if str_eq(ls, "false") || str_eq(ls, "f") || str_eq(ls, "no") || str_eq(ls, "n")
            || str_eq(ls, "0") {
            Ok(Json::Bool(false))
        } else {
            Err(
                ArgsError::InvalidBoolean {
                    param: String::from_str(param_name),
                    value: String::from_str(value),
                },
            )
        }
    } else if str_eq(t, "array") || str_eq(t, "object") {
        match parse_json(value) {
            Some(j) => Ok(j),
            None => {
                let a = crate::text::join2("Cannot parse '", value);
                let b = crate::text::join2(a.as_str(), "' as ");
                let c = crate::text::join2(b.as_str(), t);
                Err(ArgsError::InvalidSchema(c))
            },
        }
    } else {
        Ok(Json::Str(String::from_str(value)))
    }
}

/// The string elements of `items`, in order.
pub open spec fn string_items(items: Seq<Json>) -> Seq<Seq<char>>
    decreases items.len(),
{
    if items.len() == 0 {
        seq![]
    } else {
        string_items(items.drop_last()) + match items.last() {
            Json::Str(s) => seq![s@],
            _ => seq![],
        }
    }
}

/// The names that `schema` lists as required.
pub open spec fn required_of(schema: Json) -> Seq<Seq<char>> {
    match items_of(field(schema, "required"@)) {
        Some(v) => string_items(v),
        None => seq![],
    }
}

/// The members of the `properties` object of `schema`, if it has one.
pub open spec fn properties_of(schema: Json) -> Option<Seq<(String, Json)>> {
    match field(schema, "properties"@) {
        Some(Json::Object(es)) => Some(es@),
        _ => None,
    }
}

/// The required names that are properties, in the order of `required`.
pub open spec fn required_params(req: Seq<Seq<char>>, es: Seq<(String, Json)>) -> Seq<Seq<char>>
    decreases req.len(),
{
    if req.len() == 0 {
        seq![]
    } else {
        required_params(req.drop_last(), es) + if lookup(es, req.last()) is Some {
            seq![req.last()]
        } else {
            seq![]
        }
    }
}

/// The property names that are not required, in the order of the properties.
pub open spec fn optional_params(es: Seq<(String, Json)>, req: Seq<Seq<char>>) -> Seq<Seq<char>>
    decreases es.len(),
{
    if es.len() == 0 {
        seq![]
    } else {
        optional_params(es.drop_last(), req) + if req.contains(es.last().0@) {
            seq![]
        } else {
            seq![es.last().0@]
        }
    }
}

/// The parameters in the order words fill them: the required ones first.
pub open spec fn params_of(es: Seq<(String, Json)>, req: Seq<Seq<char>>) -> Seq<(Seq<char>, bool)> {
    required_params(req, es).map_values(|n: Seq<char>| (n, true)) + optional_params(es, req).map_values(
        |n: Seq<char>| (n, false),
    )
}

/// The schema of property `name`.
pub open spec fn prop_of(es: Seq<(String, Json)>, name: Seq<char>) -> Json {
    match lookup(es, name) {
        Some(p) => p,
        None => Json::Null,
    }
}

/// The first error met when filling parameters `ps` (from index `i` on) with `args`.
pub open spec fn first_error(
    args: Seq<Seq<char>>,
    ps: Seq<(Seq<char>, bool)>,
    es: Seq<(String, Json)>,
    i: int,
) -> Option<ArgsErrorView>
    decreases ps.len() - i,
{
    if i < 0 || i >= ps.len() {
        None
    } else if i < args.len() {
        match convert(args[i], prop_of(es, ps[i].0), ps[i].0) {
            Converted::Fail(e) => Some(e),
            _ => first_error(args, ps, es, i + 1),
        }
    } else if ps[i].1 {
        Some(ArgsErrorView::MissingRequired(ps[i].0))
    } else {
        first_error(args, ps, es, i + 1)
    }
}

fn required_names(schema: &Json) -> (r: Vec<String>)
    ensures
        views(r@) == required_of(*schema),
{
    let mut r: Vec<String> = Vec::new();
    match schema.get("required") {
        Some(Json::Array(items)) => {
            let mut i: usize = 0;
            while i < items.len()
                invariant
                    i <= items@.len(),
                    views(r@) == string_items(items@.take(i as int)),
                decreases items.len() - i,
            {
                proof {
                    let t = items@.take(i + 1);
                    assert(t.drop_last() =~= items@.take(i as int));
                    assert(t.last() == items@[i as int]);
                }
                match &items[i] {
                    Json::Str(s) => {
                        let c = String::from_str(s.as_str());
                        assert(views(r@.push(c)) =~= views(r@) + seq![c@]);
                        r.push(c);
                    },
                    _ => {
                        assert(views(r@) =~= views(r@) + Seq::<Seq<char>>::empty());
                    },
                }
                i = i + 1;
            }
            assert(items@.take(i as int) =~= items@);
        },
        _ => {
            assert(views(r@) =~= Seq::<Seq<char>>::empty());
        },
    }
    r
}

fn contains_name(names: &Vec<String>, n: &str) -> (r: bool)
    ensures
        r == views(names@).contains(n@),
{
    let mut i: usize = 0;
    while i < names.len()
        invariant
            i <= names@.len(),
            forall|k: int| 0 <= k < i ==> views(names@)[k] != n@,
        decreases names.len() - i,
    {
        if str_eq(names[i].as_str(), n) {
            assert(views(names@)[i as int] == n@);
            return true;
        }
        i = i + 1;
    }
    false
}

fn lookup_ref<'a>(es: &'a Vec<(String, Json)>, key: &str) -> (r: Option<&'a Json>)
    ensures
        match r {
            Some(v) => lookup(es@, key@) == Some(*v),
            None => lookup(es@, key@) is None,
        },
{
    let mut i: usize = 0;
    assert(es@.subrange(0, es@.len() as int) =~= es@);
    while i < es.len()
        invariant
            i <= es@.len(),
            lookup(es@, key@) == lookup(es@.subrange(i as int, es@.len() as int), key@),
        decreases es.len() - i,
    {
        let ghost rest = es@.subrange(i as int, es@.len() as int);
        assert(rest.drop_first() =~= es@.subrange(i + 1, es@.len() as int));
        assert(rest[0] == es@[i as int]);
        if str_eq(es[i].0.as_str(), key) {
            return Some(&es[i].1);
        }
        i = i + 1;
    }
    None
}

/// The parameters in the order words fill them, each with whether it is required.
fn param_list(es: &Vec<(String, Json)>, req: &Vec<String>) -> (r: Vec<(String, bool)>)
    ensures
        r@.len() == params_of(es@, views(req@)).len(),
        forall|i: int|
            0 <= i < r@.len() ==> (#[trigger] r@[i]).0@ == params_of(es@, views(req@))[i].0 && r@[i].1
                == params_of(es@, views(req@))[i].1,
{
    let ghost rv = views(req@);
    let ghost rp = required_params(rv, es@);
    let ghost op = optional_params(es@, rv);
    let mut r: Vec<(String, bool)> = Vec::new();
    let mut i: usize = 0;
    while i < req.len()
        invariant
            i <= req@.len(),
            rv == views(req@),
            r@.len() == required_params(rv.take(i as int), es@).len(),
            forall|k: int|
                0 <= k < r@.len() ==> (#[trigger] r@[k]).0@ == required_params(rv.take(i as int), es@)[k]
                    && r@[k].1,
        decreases req.len() - i,
    {
        proof {
            let t = rv.take(i + 1);
            assert(t.drop_last() =~= rv.take(i as int));
            assert(t.last() == req@[i as int]@);
        }
        if lookup_ref(es, req[i].as_str()).is_some() {
            r.push((String::from_str(req[i].as_str()), true));
        }
        i = i + 1;
    }
    assert(rv.take(i as int) =~= rv);
    let n_req = r.len();
    let mut j: usize = 0;
    while j < es.len()
        invariant
            j <= es@.len(),
            rv == views(req@),
            n_req == rp.len(),
            rp == required_params(rv, es@),
            r@.len() == n_req + optional_params(es@.take(j as int), rv).len(),
            forall|k: int| 0 <= k < n_req ==> (#[trigger] r@[k]).0@ == rp[k] && r@[k].1,
            forall|k: int|
                n_req <= k < r@.len() ==> (#[trigger] r@[k]).0@ == optional_params(
                    es@.take(j as int),
                    rv,
                )[k - n_req] && !r@[k].1,
        decreases es.len() - j,
    {
        proof {
            let t = es@.take(j + 1);
            assert(t.drop_last() =~= es@.take(j as int));
            assert(t.last() == es@[j as int]);
        }
        if !contains_name(req, es[j].0.as_str()) {
            r.push((String::from_str(es[j].0.as_str()), false));
        }
        j = j + 1;
    }
    assert(es@.take(j as int) =~= es@);
    r
}

/// Fills the parameters of `schema` with `args`, in order: the required
/// parameters first (in the order the schema lists them), then the optional
/// ones (in the order of its properties). Optional parameters without a
/// word are left out.
pub fn args_to_json(args: &[String], schema: &Json) -> (r: Result<Json, ArgsError>)
    ensures
        match properties_of(*schema) {
            None => r matches Err(e) && e.view() == ArgsErrorView::InvalidSchema(
                "Missing 'properties' field"@,
            ),
            Some(es) => {
                let ps = params_of(es, required_of(*schema));
                if args@.len() > ps.len() {
                    r matches Err(e) && e.view() == ArgsErrorView::TooManyArgs(ps.len(), args@.len())
                } else {
                    match first_error(views(args@), ps, es, 0) {
                        Some(err) => r matches Err(e) && e.view() == err,
                        None => r matches Ok(Json::Object(out)) && out@.len() == args@.len()
                            && forall|i: int|
                            0 <= i < out@.len() ==> (#[trigger] out@[i]).0@ == ps[i].0
                                && is_converted(
                                out@[i].1,
                                convert(args@[i]@, prop_of(es, ps[i].0), ps[i].0),
                            ),
                    }
                }
            },
        },
{
    let es: &Vec<(String, Json)> = match schema.get("properties") {
        Some(Json::Object(es)) => es,
        _ => {
            return Err(ArgsError::InvalidSchema(String::from_str("Missing 'properties' field")));
        },
    };
    assert(properties_of(*schema) == Some(es@));
    let req = required_names(schema);
    let ps = param_list(es, &req);
    let ghost psv = params_of(es@, views(req@));
    assert(psv == params_of(es@, required_of(*schema)));
    let ghost av = views(args@);
    if args.len() > ps.len() {
        return Err(ArgsError::TooManyArgs { expected: ps.len(), got: args.len() });
    }
    let mut out: Vec<(String, Json)> = Vec::new();
    let mut i: usize = 0;
    while i < ps.len()
        invariant
            i <= ps@.len() == psv.len(),
            args@.len() <= ps@.len(),
            av == views(args@),
            properties_of(*schema) == Some(es@),
            psv == params_of(es@, required_of(*schema)),
            forall|k: int| 0 <= k < ps@.len() ==> (#[trigger] ps@[k]).0@ == psv[k].0 && ps@[k].1 == psv[k].1,
            first_error(av, psv, es@, 0) == first_error(av, psv, es@, i as int),
            out@.len() == if i <= args@.len() { i as int } else { args@.len() as int },
            forall|k: int|
                0 <= k < out@.len() ==> (#[trigger] out@[k]).0@ == psv[k].0 && is_converted(
                    out@[k].1,
                    convert(av[k], prop_of(es@, psv[k].0), psv[k].0),
                ),
        decreases ps.len() - i,
    {
        let name = ps[i].0.as_str();
        if i < args.len() {
            let prop: &Json = match lookup_ref(es, name) {
                Some(p) => p,
                None => &Json::Null,
            };
            assert(av[i as int] == args@[i as int]@);
            assert(name@ == psv[i as int].0);
            match convert_value(args[i].as_str(), prop, name) {
                Ok(v) => {
                    out.push((String::from_str(name), v));
                },
                Err(e) => {
                    assert(first_error(av, psv, es@, i as int) == Some(e.view()));
                    return Err(e);
                },
            }
        } else if ps[i].1 {
            let e = ArgsError::MissingRequired(String::from_str(name));
            assert(first_error(av, psv, es@, i as int) == Some(e.view()));
            return Err(e);
        }
        i = i + 1;
    }
    Ok(Json::Object(out))
}

/// The placeholder for a parameter in a usage line: `<name:type>` when it is
/// required, `[name:type]` when not; the type is `value` when none is given.
pub open spec fn usage_part(name: Seq<char>, prop: Json, required: bool) -> Seq<char> {
    let t = match text_of(field(prop, "type"@)) {
        Some(t) => t,
        None => "value"@,
    };
    if required {
        "<"@ + name + ":"@ + t + ">"@
    } else {
        "["@ + name + ":"@ + t + "]"@
    }
}

/// The words of the usage line of `tool` for `schema`.
pub open spec fn usage_words(tool: Seq<char>, schema: Json) -> Seq<Seq<char>> {
    match properties_of(schema) {
        None => seq![":mcp run "@ + tool],
        Some(es) => {
            let ps = params_of(es, required_of(schema));
            seq![":mcp run "@ + tool] + ps.map_values(
                |p: (Seq<char>, bool)| usage_part(p.0, prop_of(es, p.0), p.1),
            )
        },
    }
}

/// The usage line for running `tool_name`: the command, then a placeholder
/// for each parameter, required ones first.
pub fn usage_hint(tool_name: &str, schema: &Json) -> (r: String)
    ensures
        r@ == join_words(usage_words(tool_name@, *schema)),
{
    let head = crate::text::join2(":mcp run ", tool_name);
    let es: &Vec<(String, Json)> = match schema.get("properties") {
        Some(Json::Object(es)) => es,
        _ => {
            assert(join_words(seq![head@]) == head@);
            return head;
        },
    };
    let req = required_names(schema);
    let ps = param_list(es, &req);
    let ghost psv = params_of(es@, views(req@));
    let ghost words = usage_words(tool_name@, *schema);
    let mut text = crate::text::chars_of(head.as_str());
    let mut i: usize = 0;
    assert(words.take(1) =~= seq![head@]);
    while i < ps.len()
        invariant
            i <= ps@.len() == psv.len(),
            words.len() == psv.len() + 1,
            words == usage_words(tool_name@, *schema),
            properties_of(*schema) == Some(es@),
            psv == params_of(es@, required_of(*schema)),
            forall|k: int| 0 <= k < ps@.len() ==> (#[trigger] ps@[k]).0@ == psv[k].0 && ps@[k].1 == psv[k].1,
            text@ == join_words(words.take(i + 1)),
        decreases ps.len() - i,
    {
        let name = ps[i].0.as_str();
        let prop: &Json = match lookup_ref(es, name) {
            Some(p) => p,
            None => &Json::Null,
        };
        let t: &str = match prop.get("type") {
            Some(v) => match v.as_str() {
                Some(s) => s,
                None => "value",
            },
            None => "value",
        };
        let (open, close) = if ps[i].1 {
            ("<", ">")
        } else {
            ("[", "]")
        };
        let with_name = crate::text::join2(open, name);
        let with_colon = crate::text::join2(with_name.as_str(), ":");
        let with_type = crate::text::join2(with_colon.as_str(), t);
        let part = crate::text::join2(with_type.as_str(), close);
        proof {
            assert(part@ == usage_part(psv[i as int].0, prop_of(es@, psv[i as int].0), psv[i as int].1));
            let w = words.take(i + 2);
            assert(w.drop_last() =~= words.take(i + 1));
            assert(w.last() == words[i + 1]);
        }
        text.push(' ');
        let pc = crate::text::chars_of(part.as_str());
        crate::text::extend_chars(&mut text, pc.as_slice());
        i = i + 1;
    }
    assert(words.take(i + 1) =~= words);
    crate::text::string_from(text.as_slice())
}

} // verus!
