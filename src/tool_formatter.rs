//! Text layout for tool descriptions.
use vstd::prelude::*;
use crate::args::{properties_of, required_of, string_items, usage_hint, usage_words};
use crate::command::join_words;
use crate::events::ToolInfo;
use crate::json::{compact_json, compact_of, field, int_of, items_of, str_eq, text_of, Json};
use crate::text::{chars_of, decimal_of, extend_chars, join2, push_decimal, split_words, string_from, views, vviews, words};

verus! {

/// One step of filling lines no wider than `width` with the word `w`.
pub open spec fn wrap_step(ls: Seq<Seq<char>>, cur: Seq<char>, w: Seq<char>, width: int) -> (
    Seq<Seq<char>>,
    Seq<char>,
) {
    if cur.len() == 0 {
        (ls, w)
    } else if cur.len() + w.len() + 1 <= width {
        (ls, cur + seq![' '] + w)
    } else {
        (ls.push(cur), w)
    }
}

/// Filling over the words `ws`: the finished lines and the current one.
pub open spec fn wrap_fill(ws: Seq<Seq<char>>, width: int) -> (Seq<Seq<char>>, Seq<char>)
    decreases ws.len(),
{
    if ws.len() == 0 {
        (seq![], seq![])
    } else {
        let (ls, cur) = wrap_fill(ws.drop_last(), width);
        wrap_step(ls, cur, ws.last(), width)
    }
}

/// `n` spaces.
pub open spec fn spaces(n: nat) -> Seq<char> {
    Seq::new(n, |i: int| ' ')
}

/// The lines of `text` filled to `width` columns, each after `indent` spaces.
pub open spec fn wrapped(text: Seq<char>, width: nat, indent: nat) -> Seq<Seq<char>> {
    let eff: int = if width >= indent {
        width - indent
    } else {
        0
    };
    let (ls, cur) = wrap_fill(words(text), eff);
    let all = if cur.len() > 0 {
        ls.push(cur)
    } else {
        ls
    };
    all.map_values(|l: Seq<char>| spaces(indent) + l)
}

/// Fills the words of `text` into lines of at most `width` columns, each
/// starting with `indent` spaces. A word longer than the room left stands on
/// a line of its own.
pub fn wrap_text(text: &str, width: usize, indent: usize) -> (r: Vec<String>)
    ensures
        views(r@) == wrapped(text@, width as nat, indent as nat),
{
    let mut pad: Vec<char> = Vec::new();
    let mut k: usize = 0;
    while k < indent
        invariant
            k <= indent,
            pad@ == spaces(k as nat),
        decreases indent - k,
    {
        pad.push(' ');
        k = k + 1;
        assert(pad@ =~= spaces(k as nat));
    }
    let eff = if width >= indent {
        width - indent
    } else {
        0
    };
    let c = chars_of(text);
    let ws = split_words(c.as_slice());
    let mut lines: Vec<Vec<char>> = Vec::new();
    let mut cur: Vec<char> = Vec::new();
    let mut i: usize = 0;
    while i < ws.len()
        invariant
            i <= ws@.len(),
            vviews(ws@) == words(text@),
            (vviews(lines@), cur@) == wrap_fill(vviews(ws@).take(i as int), eff as int),
        decreases ws.len() - i,
    {
        let w = &ws[i];
        proof {
            let t = vviews(ws@).take(i + 1);
            assert(t.drop_last() =~= vviews(ws@).take(i as int));
            assert(t.last() == w@);
        }
        if cur.len() == 0 {
            cur = crate::text::subvec(w.as_slice(), 0, w.len());
        } else if w.len() < eff && cur.len() < eff - w.len() {
            cur.push(' ');
            extend_chars(&mut cur, w.as_slice());
        } else {
            proof {
                assert(vviews(lines@.push(cur)) =~= vviews(lines@).push(cur@));
            }
            lines.push(cur);
            cur = crate::text::subvec(w.as_slice(), 0, w.len());
        }
        i = i + 1;
    }
    assert(vviews(ws@).take(i as int) =~= vviews(ws@));
    if cur.len() > 0 {
        proof {
            assert(vviews(lines@.push(cur)) =~= vviews(lines@).push(cur@));
        }
        lines.push(cur);
    }
    let ghost all = vviews(lines@);
    let mut r: Vec<String> = Vec::new();
    let mut j: usize = 0;
    while j < lines.len()
        invariant
            j <= lines@.len(),
            all == vviews(lines@),
            pad@ == spaces(indent as nat),
            views(r@) == all.take(j as int).map_values(|l: Seq<char>| spaces(indent as nat) + l),
        decreases lines.len() - j,
    {
        let mut v = crate::text::subvec(pad.as_slice(), 0, pad.len());
        extend_chars(&mut v, lines[j].as_slice());
        let s = string_from(v.as_slice());
        proof {
            assert(pad@.subrange(0, pad@.len() as int) =~= pad@);
            assert(views(r@.push(s)) =~= views(r@).push(s@));
            assert(all.take(j + 1).map_values(|l: Seq<char>| spaces(indent as nat) + l) =~= all.take(
                j as int,
            ).map_values(|l: Seq<char>| spaces(indent as nat) + l).push(spaces(indent as nat) + all[j as int]));
        }
        r.push(s);
        j = j + 1;
    }
    assert(all.take(j as int) =~= all);
    r
}

/// `ws` joined with `sep` between consecutive items.
pub open spec fn join_sep(ws: Seq<Seq<char>>, sep: Seq<char>) -> Seq<char>
    decreases ws.len(),
{
    if ws.len() == 0 {
        seq![]
    } else if ws.len() == 1 {
        ws[0]
    } else {
        join_sep(ws.drop_last(), sep) + sep + ws.last()
    }
}

/// The declared type of `prop`, or `dflt` when none is given.
pub open spec fn type_or(prop: Json, dflt: Seq<char>) -> Seq<char> {
    match text_of(field(prop, "type"@)) {
        Some(t) => t,
        None => dflt,
    }
}

/// One parameter in a compact summary: `name: type`, or `[name]: type` when optional.
pub open spec fn summary_part(name: Seq<char>, prop: Json, req: Seq<Seq<char>>) -> Seq<char> {
    if req.contains(name) {
        name + ": "@ + type_or(prop, "any"@)
    } else {
        "["@ + name + "]: "@ + type_or(prop, "any"@)
    }
}

/// The parenthesised parameter summary of `schema`, in the order of its properties.
pub open spec fn param_summary(schema: Json) -> Seq<char> {
    match properties_of(schema) {
        Some(es) if es.len() > 0 => "("@ + join_sep(
            es.map_values(|e: (String, Json)| summary_part(e.0@, e.1, required_of(schema))),
            ", "@,
        ) + ")"@,
        _ => "()"@,
    }
}

fn contains_text(names: &Vec<String>, n: &str) -> (r: bool)
    ensures
        r == views(names@).contains(n@),
{
    let mut i: usize = 0;
    while i < names.len()
        invariant
            i <= names@.len(),
            forall|k: int| 0 <= k < i ==> views(names@)[k] != n@,
        decreases names.len() - i,
    {
        if str_eq(names[i].as_str(), n) {
            assert(views(names@)[i as int] == n@);
            return true;
        }
        i = i + 1;
    }
    false
}

fn required_list(schema: &Json) -> (r: Vec<String>)
    ensures
        views(r@) == required_of(*schema),
{
    let mut r: Vec<String> = Vec::new();
    match schema.get("required") {
        Some(Json::Array(items)) => {
            let mut i: usize = 0;
            while i < items.len()
                invariant
                    i <= items@.len(),
                    views(r@) == string_items(items@.take(i as int)),
                decreases items.len() - i,
            {
                proof {
                    let t = items@.take(i + 1);
                    assert(t.drop_last() =~= items@.take(i as int));
                    assert(t.last() == items@[i as int]);
                }
                match &items[i] {
                    Json::Str(s) => {
                        let c = String::from_str(s.as_str());
                        assert(views(r@.push(c)) =~= views(r@) + seq![c@]);
                        r.push(c);
                    },
                    _ => {
                        assert(views(r@) =~= views(r@) + Seq::<Seq<char>>::empty());
                    },
                }
                i = i + 1;
            }
            assert(items@.take(i as int) =~= items@);
        },
        _ => {
            assert(views(r@) =~= Seq::<Seq<char>>::empty());
        },
    }
    r
}

fn type_text<'a>(prop: &'a Json, dflt: &'a str) -> (r: &'a str)
    ensures
        r@ == type_or(*prop, dflt@),
{
    match prop.get("type") {
        Some(v) => match v.as_str() {
            Some(t) => t,
            None => dflt,
        },
        None => dflt,
    }
}

/// The parameter summary of `schema`: `(a: string, [b]: integer)`, or `()`.
pub fn extract_param_summary(schema: &Json) -> (r: String)
    ensures
        r@ == param_summary(*schema),
{
    let es: &Vec<(String, Json)> = match schema.get("properties") {
        Some(Json::Object(es)) => es,
        _ => {
            return String::from_str("()");
        },
    };
    if es.len() == 0 {
        return String::from_str("()");
    }
    let req = required_list(schema);
    let ghost parts = es@.map_values(|e: (String, Json)| summary_part(e.0@, e.1, required_of(*schema)));
    let mut text = chars_of("(");
    let mut i: usize = 0;
    while i < es.len()
        invariant
            i <= es@.len(),
            es@.len() > 0,
            parts == es@.map_values(|e: (String, Json)| summary_part(e.0@, e.1, required_of(*schema))),
            views(req@) == required_of(*schema),
            text@ == "("@ + join_sep(parts.take(i as int), ", "@),
        decreases es.len() - i,
    {
        let name = es[i].0.as_str();
        let t = type_text(&es[i].1, "any");
        let part = if contains_text(&req, name) {
            join2(join2(name, ": ").as_str(), t)
        } else {
            join2(join2(join2("[", name).as_str(), "]: ").as_str(), t)
        };
        proof {
            assert(part@ == parts[i as int]);
            let w = parts.take(i + 1);
            assert(w.drop_last() =~= parts.take(i as int));
            assert(w.last() == parts[i as int]);
            if i == 0 {
                assert(w =~= seq![parts[0]]);
                assert(parts.take(0) =~= Seq::<Seq<char>>::empty());
            }
        }
        if i > 0 {
            let sep = chars_of(", ");
            extend_chars(&mut text, sep.as_slice());
        }
        let pc = chars_of(part.as_str());
        extend_chars(&mut text, pc.as_slice());
        proof {
            if i == 0 {
                reveal_strlit("(");
            }
        }
        assert(text@ =~= "("@ + join_sep(parts.take(i + 1), ", "@));
        i = i + 1;
    }
    assert(parts.take(i as int) =~= parts);
    let close = chars_of(")");
    extend_chars(&mut text, close.as_slice());
    string_from(text.as_slice())
}

/// `name: (a: string, [b]: integer)`, the one-line summary of a tool.
pub fn format_tool_compact(tool: &ToolInfo) -> (r: String)
    ensures
        r@ == tool.name@ + ": "@ + param_summary(tool.input_schema),
{
    let p = extract_param_summary(&tool.input_schema);
    join2(join2(tool.name.as_str(), ": ").as_str(), p.as_str())
}

/// The usage line of a tool (see `args::usage_hint`).
pub fn generate_usage_hint(tool_name: &str, schema: &Json) -> (r: String)
    ensures
        r@ == join_words(usage_words(tool_name@, *schema)),
{
    usage_hint(tool_name, schema)
}

/// `n` in decimal, with a `-` when negative.
pub open spec fn signed_decimal(n: i64) -> Seq<char> {
    if n < 0 {
        "-"@ + decimal_of((-(n as int)) as nat)
    } else {
        decimal_of(n as nat)
    }
}

/// Each value in single quotes.
pub open spec fn quoted(vals: Seq<Seq<char>>) -> Seq<Seq<char>> {
    vals.map_values(|v: Seq<char>| "'"@ + v + "'"@)
}

/// The lines that describe property `name` with schema `prop`.
pub open spec fn prop_lines(name: Seq<char>, prop: Json, req: Seq<Seq<char>>) -> Seq<Seq<char>> {
    let requirement = if req.contains(name) {
        "required"@
    } else {
        "optional"@
    };
    let desc = match text_of(field(prop, "description"@)) {
        Some(d) => d,
        None => "(no description)"@,
    };
    seq![
        Seq::<char>::empty(),
        "  • "@ + name + " ("@ + type_or(prop, "any"@) + ", "@ + requirement + ")"@,
    ] + wrapped(desc, 72, 4) + (match items_of(field(prop, "enum"@)) {
        Some(v) if string_items(v).len() > 0 => seq![
            "    Allowed values: "@ + join_sep(quoted(string_items(v)), ", "@),
        ],
        _ => seq![],
    }) + (match field(prop, "default"@) {
        Some(d) => seq!["    Default: "@ + compact_of(d)],
        None => seq![],
    }) + (match int_of(field(prop, "minimum"@)) {
        Some(n) => seq!["    Minimum: "@ + signed_decimal(n)],
        None => seq![],
    }) + (match int_of(field(prop, "maximum"@)) {
        Some(n) => seq!["    Maximum: "@ + signed_decimal(n)],
        None => seq![],
    })
}

/// The lines for all the properties `es`, in order.
pub open spec fn all_prop_lines(es: Seq<(String, Json)>, req: Seq<Seq<char>>) -> Seq<Seq<char>>
    decreases es.len(),
{
    if es.len() == 0 {
        seq![]
    } else {
        all_prop_lines(es.drop_last(), req) + prop_lines(es.last().0@, es.last().1, req)
    }
}

/// The `Parameters:` section for `schema`.
pub open spec fn schema_lines(schema: Json) -> Seq<Seq<char>> {
    seq!["Parameters:"@] + match properties_of(schema) {
        Some(es) => all_prop_lines(es, required_of(schema)),
        None => seq!["  (no parameters)"@],
    }
}

/// Appends `s` as one line.
fn push_line(out: &mut Vec<String>, s: String)
    ensures
        views(final(out)@) == views(old(out)@).push(s@),
{
    out.push(s);
    assert(views(out@) =~= views(old(out)@).push(s@));
}

/// Appends all of `ls`.
fn push_lines(out: &mut Vec<String>, ls: Vec<String>)
    ensures
        views(final(out)@) == views(old(out)@) + views(ls@),
{
    let ghost v = views(ls@);
    let mut ls = ls;
    out.append(&mut ls);
    assert(views(out@) =~= views(old(out)@) + v);
}

/// `n` in decimal, with a `-` when negative.
fn signed_text(n: i64) -> (r: Vec<char>)
    ensures
        r@ == signed_decimal(n),
{
    if n < 0 {
        let mut v = chars_of("-");
        let m: u64 = ((-(n + 1)) as u64) + 1;
        push_decimal(&mut v, m);
        v
    } else {
        let mut v: Vec<char> = Vec::new();
        push_decimal(&mut v, n as u64);
        assert(v@ =~= decimal_of(n as nat));
        v
    }
}

/// `prefix` followed by `tail`, as a string.
fn line_of(prefix: &str, tail: &[char]) -> (r: String)
    ensures
        r@ == prefix@ + tail@,
{
    let mut v = chars_of(prefix);
    extend_chars(&mut v, tail);
    string_from(v.as_slice())
}

/// The lines that describe one property.
fn property_lines(name: &str, prop: &Json, req: &Vec<String>) -> (r: Vec<String>)
    ensures
        views(r@) == prop_lines(name@, *prop, views(req@)),
{
    let mut out: Vec<String> = Vec::new();
    let requirement = if contains_text(req, name) {
        "required"
    } else {
        "optional"
    };
    let t = type_text(prop, "any");
    push_line(&mut out, String::new());
    let head = join2(
        join2(join2(join2(join2(join2("  • ", name).as_str(), " (").as_str(), t).as_str(), ", ").as_str(), requirement).as_str(),
        ")",
    );
    push_line(&mut out, head);
    let desc: &str = match prop.get("description") {
        Some(v) => match v.as_str() {
            Some(d) => d,
            None => "(no description)",
        },
        None => "(no description)",
    };
    push_lines(&mut out, wrap_text(desc, 72, 4));
    let ghost before_enum = views(out@);
    match prop.get("enum") {
        Some(Json::Array(items)) => {
            let ghost vals = string_items(items@);
            let mut joined: Vec<char> = Vec::new();
            let mut any = false;
            let mut i: usize = 0;
            while i < items.len()
                invariant
                    i <= items@.len(),
                    vals == string_items(items@),
                    any == (string_items(items@.take(i as int)).len() > 0),
                    joined@ == join_sep(quoted(string_items(items@.take(i as int))), ", "@),
                decreases items.len() - i,
            {
                let ghost prev = string_items(items@.take(i as int));
                proof {
                    let t = items@.take(i + 1);
                    assert(t.drop_last() =~= items@.take(i as int));
                    assert(t.last() == items@[i as int]);
                }
                match &items[i] {
                    Json::Str(sv) => {
                        let q = line_of("'", chars_of(join2(sv.as_str(), "'").as_str()).as_slice());
                        if any {
                            let sep = chars_of(", ");
                            extend_chars(&mut joined, sep.as_slice());
                        }
                        let qc = chars_of(q.as_str());
                        extend_chars(&mut joined, qc.as_slice());
                        proof {
                            let now = string_items(items@.take(i + 1));
                            assert(now =~= prev.push(sv@));
                            assert(quoted(now) =~= quoted(prev).push("'"@ + sv@ + "'"@));
                            assert(quoted(now).drop_last() =~= quoted(prev));
                            if !any {
                                assert(quoted(prev).len() == 0);
                                assert(quoted(now) =~= seq!["'"@ + sv@ + "'"@]);
                            }
                            assert(joined@ =~= join_sep(quoted(now), ", "@));
                        }
                        any = true;
                    },
                    _ => {
                        assert(string_items(items@.take(i + 1)) =~= prev);
                    },
                }
                i = i + 1;
            }
            assert(items@.take(i as int) =~= items@);
            if any {
                push_line(&mut out, line_of("    Allowed values: ", joined.as_slice()));
            }
        },
        _ => {},
    }
    match prop.get("default") {
        Some(d) => {
            let c = compact_json(d);
            push_line(&mut out, line_of("    Default: ", chars_of(c.as_str()).as_slice()));
        },
        None => {},
    }
    match prop.get("minimum") {
        Some(v) => match v.as_i64() {
            Some(n) => push_line(&mut out, line_of("    Minimum: ", signed_text(n).as_slice())),
            None => {},
        },
        None => {},
    }
    match prop.get("maximum") {
        Some(v) => match v.as_i64() {
            Some(n) => push_line(&mut out, line_of("    Maximum: ", signed_text(n).as_slice())),
            None => {},
        },
        None => {},
    }
    assert(views(out@) =~= prop_lines(name@, *prop, views(req@)));
    out
}

/// The `Parameters:` section for `schema`: each property with its type,
/// whether it is required, its description wrapped at 72 columns, and its
/// allowed values, default, minimum and maximum where given.
pub fn format_input_schema(schema: &Json) -> (r: Vec<String>)
    ensures
        views(r@) == schema_lines(*schema),
{
    let mut out: Vec<String> = Vec::new();
    push_line(&mut out, String::from_str("Parameters:"));
    let es: &Vec<(String, Json)> = match schema.get("properties") {
        Some(Json::Object(es)) => es,
        _ => {
            push_line(&mut out, String::from_str("  (no parameters)"));
            assert(views(out@) =~= schema_lines(*schema));
            return out;
        },
    };
    let req = required_list(schema);
    let mut i: usize = 0;
    while i < es.len()
        invariant
            i <= es@.len(),
            views(req@) == required_of(*schema),
            views(out@) == seq!["Parameters:"@] + all_prop_lines(es@.take(i as int), views(req@)),
        decreases es.len() - i,
    {
        proof {
            let t = es@.take(i + 1);
            assert(t.drop_last() =~= es@.take(i as int));
            assert(t.last() == es@[i as int]);
        }
        let ls = property_lines(es[i].0.as_str(), &es[i].1, &req);
        push_lines(&mut out, ls);
        i = i + 1;
    }
    assert(es@.take(i as int) =~= es@);
    out
}

/// A rule of 80 `═`.
pub open spec fn rule() -> Seq<char> {
    Seq::new(80, |i: int| '═')
}

/// The full description of a tool, as lines.
pub open spec fn detailed_lines(name: Seq<char>, desc: Seq<char>, schema: Json) -> Seq<Seq<char>> {
    seq![
        rule(),
        "🔧 Tool: "@ + name,
        rule(),
        Seq::<char>::empty(),
        "Description:"@,
        "  "@ + desc,
        Seq::<char>::empty(),
    ] + schema_lines(schema) + seq![
        Seq::<char>::empty(),
        "Usage:"@,
        "  "@ + join_words(usage_words(name, schema)),
        Seq::<char>::empty(),
        rule(),
    ]
}

fn rule_line() -> (r: String)
    ensures
        r@ == rule(),
{
    let mut v: Vec<char> = Vec::new();
    let mut i: usize = 0;
    while i < 80
        invariant
            i <= 80,
            v@ == Seq::new(i as nat, |k: int| '═'),
        decreases 80 - i,
    {
        v.push('═');
        i = i + 1;
        assert(v@ =~= Seq::new(i as nat, |k: int| '═'));
    }
    string_from(v.as_slice())
}

/// The full, human-readable description of `tool`: name, description,
/// parameters and usage line, between rules.
pub fn format_tool_detailed(tool: &ToolInfo) -> (r: Vec<String>)
    ensures
        views(r@) == detailed_lines(tool.name@, tool.description@, tool.input_schema),
{
    let mut out: Vec<String> = Vec::new();
    push_line(&mut out, rule_line());
    push_line(&mut out, join2("🔧 Tool: ", tool.name.as_str()));
    push_line(&mut out, rule_line());
    push_line(&mut out, String::new());
    push_line(&mut out, String::from_str("Description:"));
    push_line(&mut out, join2("  ", tool.description.as_str()));
    push_line(&mut out, String::new());
    push_lines(&mut out, format_input_schema(&tool.input_schema));
    push_line(&mut out, String::new());
    push_line(&mut out, String::from_str("Usage:"));
    let u = usage_hint(tool.name.as_str(), &tool.input_schema);
    push_line(&mut out, join2("  ", u.as_str()));
    push_line(&mut out, String::new());
    push_line(&mut out, rule_line());
    assert(views(out@) =~= detailed_lines(tool.name@, tool.description@, tool.input_schema));
    out
}

} // verus!
