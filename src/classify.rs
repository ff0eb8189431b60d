//! Interpretation of decoded JSON-RPC messages as events for the consumer.
use vstd::prelude::*;
use crate::events::{emit, error, event_views, message, tool_views, EventView, McpClientEvent, ToolInfo, ToolView};
use crate::format::chunk_lines;
use crate::json::{field, int_of, items_of, parse_json, parsed_json, pretty_json, pretty_of, text_of, Json};
use crate::rpc::PendingTable;
use crate::text::{chars_of, decimal_of, extend_chars, lines_of, push_decimal, string_from, views};
use crate::MAX_DISPLAY_LINES;

verus! {

/// The notice that follows a payload cut to its first lines.
pub open spec fn notice_text(total: nat) -> Seq<char> {
    "⚠️  Response truncated: showing 200 of "@ + decimal_of(total) + " lines"@
}

/// The notice that follows a plain-text tool result cut to its first lines.
pub open spec fn raw_notice_text(total: nat) -> Seq<char> {
    "⚠️  Output truncated: 200 of "@ + decimal_of(total) + " lines shown"@
}

/// The message events for plain text: its first lines and, if some were cut,
/// a notice that gives how many lines there were.
pub open spec fn raw_chunked_messages(text: Seq<char>) -> Seq<EventView> {
    let ls = lines_of(text);
    if ls.len() > MAX_DISPLAY_LINES {
        line_messages(ls.take(MAX_DISPLAY_LINES as int)) + seq![
            EventView::Message(raw_notice_text(ls.len())),
        ]
    } else {
        line_messages(ls)
    }
}

/// One message event for each of the lines `ls`.
pub open spec fn line_messages(ls: Seq<Seq<char>>) -> Seq<EventView> {
    ls.map_values(|l: Seq<char>| EventView::Message(l))
}

/// The message events for `text`: its first lines and, if some were cut, a
/// blank line and a notice that gives how many lines there were.
pub open spec fn chunked_messages(text: Seq<char>) -> Seq<EventView> {
    let ls = lines_of(text);
    if ls.len() > MAX_DISPLAY_LINES {
        line_messages(ls.take(MAX_DISPLAY_LINES as int)) + seq![
            EventView::Message(Seq::empty()),
            EventView::Message(notice_text(ls.len())),
        ]
    } else {
        line_messages(ls)
    }
}

/// The tool an element of a `tools/list` result describes, if it has all three fields.
pub open spec fn tool_of(e: Json) -> Option<ToolView> {
    match (text_of(field(e, "name"@)), text_of(field(e, "description"@)), field(e, "inputSchema"@)) {
        (Some(n), Some(d), Some(s)) => Some((n, d, s)),
        _ => None,
    }
}

/// The tools described by `items`, in order; malformed elements are skipped.
pub open spec fn tools_of(items: Seq<Json>) -> Seq<ToolView>
    decreases items.len(),
{
    if items.len() == 0 {
        seq![]
    } else {
        (match tool_of(items[0]) {
            Some(t) => seq![t],
            None => seq![],
        }) + tools_of(items.drop_first())
    }
}

/// The events for the text of one content element: pretty-printed if it is
/// JSON, else as it is; cut to its first lines either way.
pub open spec fn text_events(t: Seq<char>) -> Seq<EventView> {
    match parsed_json(t) {
        Some(j) => chunked_messages(pretty_of(j)),
        None => raw_chunked_messages(t),
    }
}

/// The events for the elements of a `tools/call` result's `content`.
pub open spec fn content_events(items: Seq<Json>) -> Seq<EventView>
    decreases items.len(),
{
    if items.len() == 0 {
        seq![]
    } else {
        (match text_of(field(items[0], "text"@)) {
            Some(t) => seq![EventView::Message("📋 Tool result:"@)] + text_events(t),
            None => seq![],
        }) + content_events(items.drop_first())
    }
}

/// The events for a `result`.
pub open spec fn result_events(res: Json) -> Seq<EventView> {
    match items_of(field(res, "tools"@)) {
        Some(items) if tools_of(items).len() > 0 => seq![EventView::ToolsListed(tools_of(items))],
        _ => match items_of(field(res, "content"@)) {
            Some(items) => content_events(items),
            None => chunked_messages(pretty_of(res)),
        },
    }
}

/// The events for a message that carries an id.
pub open spec fn response_events(msg: Json) -> Seq<EventView> {
    match field(msg, "result"@) {
        Some(res) => result_events(res),
        None => match field(msg, "error"@) {
            Some(e) => seq![EventView::Error("RPC error:"@)] + line_messages(
                lines_of(pretty_of(e)),
            ),
            None => seq![],
        },
    }
}

/// The events for a message without an id.
pub open spec fn notification_events(msg: Json) -> Seq<EventView> {
    match text_of(field(msg, "method"@)) {
        Some(m) => if m == "notifications/tools/list_changed"@ {
            seq![EventView::Message("🔔 Tools list changed - use :mcp tools to refresh"@)]
        } else {
            seq![EventView::Message("🔔 Notification: "@ + m)]
        },
        None => seq![],
    }
}

/// The id of a message, if it carries an integer one.
pub open spec fn message_id(msg: Json) -> Option<i64> {
    int_of(field(msg, "id"@))
}

/// All the events for one decoded message.
pub open spec fn classify_events(msg: Json) -> Seq<EventView> {
    match field(msg, "id"@) {
        Some(_) => response_events(msg),
        None => notification_events(msg),
    }
}

/// The id of `msg`, if it carries an integer one.
pub fn id_of(msg: &Json) -> (r: Option<i64>)
    ensures
        r == message_id(*msg),
{
    match msg.get("id") {
        Some(v) => v.as_i64(),
        None => None,
    }
}

/// The truncation notice for a payload of `total` lines.
pub fn notice(total: usize) -> (r: String)
    ensures
        r@ == notice_text(total as nat),
{
    let mut v = chars_of("⚠️  Response truncated: showing 200 of ");
    push_decimal(&mut v, total as u64);
    let tail = chars_of(" lines");
    extend_chars(&mut v, tail.as_slice());
    string_from(v.as_slice())
}

/// The truncation notice for a plain-text result of `total` lines.
pub fn raw_notice(total: usize) -> (r: String)
    ensures
        r@ == raw_notice_text(total as nat),
{
    let mut v = chars_of("⚠️  Output truncated: 200 of ");
    push_decimal(&mut v, total as u64);
    let tail = chars_of(" lines shown");
    extend_chars(&mut v, tail.as_slice());
    string_from(v.as_slice())
}

/// Appends the message events for `text`, cut to its first lines.
pub fn chunk_messages(out: &mut Vec<McpClientEvent>, text: &str)
    ensures
        event_views(final(out)@) == event_views(old(out)@) + chunked_messages(text@),
{
    chunk_into(out, text, false);
}

/// Appends the message events for the plain text `text`, cut to its first lines.
pub fn chunk_raw_messages(out: &mut Vec<McpClientEvent>, text: &str)
    ensures
        event_views(final(out)@) == event_views(old(out)@) + raw_chunked_messages(text@),
{
    chunk_into(out, text, true);
}

fn chunk_into(out: &mut Vec<McpClientEvent>, text: &str, raw: bool)
    ensures
        event_views(final(out)@) == event_views(old(out)@) + if raw {
            raw_chunked_messages(text@)
        } else {
            chunked_messages(text@)
        },
{
    let c = chunk_lines(text, MAX_DISPLAY_LINES);
    let ghost ls = lines_of(text@);
    let ghost kept = views(c.lines@);
    let rest = &c.lines;
    let n = rest.len();
    let mut i: usize = 0;
    while i < n
        invariant
            n == rest@.len(),
            kept == views(rest@),
            i <= n,
            event_views(out@) == event_views(old(out)@) + line_messages(kept.take(i as int)),
        decreases n - i,
    {
        let s = String::from_str(rest[i].as_str());
        let ghost before = out@;
        emit(out, McpClientEvent::Message(s));
        proof {
            assert(line_messages(kept.take(i + 1)) =~= line_messages(kept.take(i as int)).push(
                EventView::Message(kept[i as int]),
            ));
        }
        i = i + 1;
    }
    assert(kept.take(n as int) =~= kept);
    if c.truncated {
        if raw {
            emit(out, McpClientEvent::Message(raw_notice(c.total)));
        } else {
            emit(out, McpClientEvent::Message(String::new()));
            emit(out, McpClientEvent::Message(notice(c.total)));
        }
    }
}

/// The events for the text of one content element.
pub fn text_result_events(out: &mut Vec<McpClientEvent>, t: &str)
    ensures
        event_views(final(out)@) == event_views(old(out)@) + text_events(t@),
{
    match parse_json(t) {
        Some(j) => {
            let p = pretty_json(&j);
            chunk_messages(out, p.as_str());
        },
        None => chunk_raw_messages(out, t),
    }
}

/// The tool that `e` describes, if it has all three fields.
fn tool_ok(e: &Json) -> (r: bool)
    ensures
        r == (tool_of(*e) is Some),
{
    let n = match e.get("name") {
        Some(v) => v.as_str().is_some(),
        None => false,
    };
    let d = match e.get("description") {
        Some(v) => v.as_str().is_some(),
        None => false,
    };
    let s = e.get("inputSchema").is_some();
    n && d && s
}

/// Parsing a tool list never yields more tools than elements.
pub proof fn lemma_tools_len(items: Seq<Json>)
    ensures
        tools_of(items).len() <= items.len(),
    decreases items.len(),
{
    if items.len() > 0 {
        lemma_tools_len(items.drop_first());
    }
}

/// How many of `items` describe a tool.
fn count_tools(items: &Vec<Json>) -> (r: usize)
    ensures
        r == tools_of(items@).len(),
{
    let mut k: usize = items.len();
    let mut n: usize = 0;
    while k > 0
        invariant
            k <= items@.len(),
            n <= items@.len() - k,
            n == tools_of(items@.subrange(k as int, items@.len() as int)).len(),
        decreases k,
    {
        let ghost t = items@.subrange(k - 1, items@.len() as int);
        assert(t.drop_first() =~= items@.subrange(k as int, items@.len() as int));
        assert(t[0] == items@[k - 1]);
        proof {
            lemma_tools_len(t);
        }
        let len = items.len();
        assert(n < len);
        if tool_ok(&items[k - 1]) {
            n = n + 1;
        }
        k = k - 1;
    }
    assert(items@.subrange(0, items@.len() as int) =~= items@);
    n
}

/// Takes the tool that `e` describes out of it.
fn take_tool(e: Json) -> (r: Option<ToolInfo>)
    ensures
        match r {
            Some(t) => tool_of(e) == Some(t.view()),
            None => tool_of(e) is None,
        },
{
    let name = match e.get("name") {
        Some(v) => match v.as_str() {
            Some(s) => Some(String::from_str(s)),
            None => None,
        },
        None => None,
    };
    let description = match e.get("description") {
        Some(v) => match v.as_str() {
            Some(s) => Some(String::from_str(s)),
            None => None,
        },
        None => None,
    };
    match (name, description) {
        (Some(name), Some(description)) => match e.take("inputSchema") {
            Some(input_schema) => Some(ToolInfo { name, description, input_schema }),
            None => None,
        },
        _ => None,
    }
}

/// The tools that `items` describe, in order.
pub fn parse_tools(items: Vec<Json>) -> (r: Vec<ToolInfo>)
    ensures
        tool_views(r@) == tools_of(items@),
{
    let ghost all = items@;
    let mut items = items;
    let mut r: Vec<ToolInfo> = Vec::new();
    while items.len() > 0
        invariant
            tool_views(r@) + tools_of(items@) == tools_of(all),
        decreases items.len(),
    {
        let ghost before = items@;
        let e = items.remove(0);
        assert(before.drop_first() =~= items@);
        assert(before[0] == e);
        match take_tool(e) {
            Some(t) => {
                assert(tool_views(r@.push(t)) =~= tool_views(r@).push(t.view()));
                assert(tool_views(r@) + tools_of(before) =~= tool_views(r@.push(t)) + tools_of(
                    items@,
                ));
                r.push(t);
            },
            None => {
                assert(tool_views(r@) + tools_of(before) =~= tool_views(r@) + tools_of(items@));
            },
        }
    }
    assert(tool_views(r@) + seq![] =~= tool_views(r@));
    r
}

/// Appends the events for the elements of a `content` array.
fn content_result_events(out: &mut Vec<McpClientEvent>, items: &Vec<Json>)
    ensures
        event_views(final(out)@) == event_views(old(out)@) + content_events(items@),
{
    let mut i: usize = 0;
    assert(items@.subrange(0, items@.len() as int) =~= items@);
    while i < items.len()
        invariant
            i <= items@.len(),
            event_views(out@) + content_events(items@.subrange(i as int, items@.len() as int))
                == event_views(old(out)@) + content_events(items@),
        decreases items.len() - i,
    {
        let ghost rest = items@.subrange(i as int, items@.len() as int);
        assert(rest.drop_first() =~= items@.subrange(i + 1, items@.len() as int));
        assert(rest[0] == items@[i as int]);
        let ghost before = out@;
        match items[i].get("text") {
            Some(v) => match v.as_str() {
                Some(t) => {
                    emit(out, message("📋 Tool result:"));
                    text_result_events(out, t);
                    assert(event_views(out@) =~= event_views(before) + (seq![
                        EventView::Message("📋 Tool result:"@),
                    ] + text_events(t@)));
                },
                None => {},
            },
            None => {},
        }
        i = i + 1;
    }
    assert(items@.subrange(i as int, items@.len() as int) =~= seq![]);
}

/// Appends one message event for each line of `text`.
fn line_events(out: &mut Vec<McpClientEvent>, text: &str)
    ensures
        event_views(final(out)@) == event_views(old(out)@) + line_messages(lines_of(text@)),
{
    let c = chars_of(text);
    let ls = crate::text::split_lines(c.as_slice());
    let mut i: usize = 0;
    while i < ls.len()
        invariant
            i <= ls@.len(),
            crate::text::vviews(ls@) == lines_of(text@),
            event_views(out@) == event_views(old(out)@) + line_messages(
                crate::text::vviews(ls@).take(i as int),
            ),
        decreases ls.len() - i,
    {
        emit(out, McpClientEvent::Message(string_from(ls[i].as_slice())));
        proof {
            let v = crate::text::vviews(ls@);
            assert(line_messages(v.take(i + 1)) =~= line_messages(v.take(i as int)).push(
                EventView::Message(v[i as int]),
            ));
        }
        i = i + 1;
    }
    assert(crate::text::vviews(ls@).take(i as int) =~= crate::text::vviews(ls@));
}

/// The events for a message that carries an id.
fn response(msg: Json) -> (r: Vec<McpClientEvent>)
    ensures
        event_views(r@) == response_events(msg),
{
    let mut out: Vec<McpClientEvent> = Vec::new();
    let has_result = msg.get("result").is_some();
    if has_result {
        match msg.take("result") {
            Some(res) => {
                let n = match res.get("tools") {
                    Some(t) => match t {
                        Json::Array(items) => count_tools(items),
                        _ => 0,
                    },
                    None => 0,
                };
                if n > 0 {
                    match res.take("tools") {
                        Some(Json::Array(items)) => {
                            let tools = parse_tools(items);
                            emit(&mut out, McpClientEvent::ToolsListed(tools));
                        },
                        _ => {},
                    }
                } else {
                    match res.get("content") {
                        Some(Json::Array(items)) => {
                            content_result_events(&mut out, items);
                        },
                        _ => {
                            let p = pretty_json(&res);
                            chunk_messages(&mut out, p.as_str());
                        },
                    }
                }
            },
            None => {},
        }
    } else {
        match msg.get("error") {
            Some(e) => {
                emit(&mut out, error("RPC error:"));
                let p = pretty_json(e);
                line_events(&mut out, p.as_str());
            },
            None => {},
        }
    }
    assert(event_views(out@) =~= response_events(msg));
    out
}

/// The events for a message without an id.
fn notification(msg: &Json) -> (r: Vec<McpClientEvent>)
    ensures
        event_views(r@) == notification_events(*msg),
{
    let mut out: Vec<McpClientEvent> = Vec::new();
    match msg.get("method") {
        Some(v) => match v.as_str() {
            Some(m) => {
                if crate::json::str_eq(m, "notifications/tools/list_changed") {
                    emit(&mut out, message("🔔 Tools list changed - use :mcp tools to refresh"));
                } else {
                    let t = crate::text::join2("🔔 Notification: ", m);
                    emit(&mut out, McpClientEvent::Message(t));
                }
            },
            None => {},
        },
        None => {},
    }
    assert(event_views(out@) =~= notification_events(*msg));
    out
}

/// Interprets one decoded message and returns the events it gives. A message
/// with an `id` member is a response (whatever the id's type); when that id
/// is an integer, the pending request it answers is resolved.
pub fn classify(msg: Json, pending: &mut PendingTable) -> (r: Vec<McpClientEvent>)
    ensures
        event_views(r@) == classify_events(msg),
        match message_id(msg) {
            Some(id) => final(pending)@ == old(pending)@.remove(id),
            None => final(pending)@ == old(pending)@,
        },
{
    match id_of(&msg) {
        Some(id) => {
            let _ = pending.resolve(id);
        },
        None => {},
    }
    if msg.get("id").is_some() {
        response(msg)
    } else {
        notification(&msg)
    }
}

/// An element without a string `description` is skipped, not fatal: the tools
/// parsed from `items` number at most one fewer than its elements.
pub proof fn lemma_malformed_tool_skipped(items: Seq<Json>, k: int)
    requires
        0 <= k < items.len(),
        text_of(field(items[k], "description"@)) is None,
    ensures
        tools_of(items).len() <= items.len() - 1,
    decreases items.len(),
{
    lemma_tools_len(items.drop_first());
    if k > 0 {
        assert(items.drop_first()[k - 1] == items[k]);
        lemma_malformed_tool_skipped(items.drop_first(), k - 1);
    }
}

/// When every element describes a tool, one tool is parsed per element.
pub proof fn lemma_all_tools_parsed(items: Seq<Json>)
    requires
        forall|i: int| 0 <= i < items.len() ==> (#[trigger] tool_of(items[i])) is Some,
    ensures
        tools_of(items).len() == items.len(),
    decreases items.len(),
{
    if items.len() > 0 {
        assert(tool_of(items[0]) is Some);
        assert forall|i: int| 0 <= i < items.drop_first().len() implies (#[trigger] tool_of(
            items.drop_first()[i],
        )) is Some by {
            assert(items.drop_first()[i] == items[i + 1]);
        }
        lemma_all_tools_parsed(items.drop_first());
    }
}

/// When exactly the `k`-th element lacks a string `description` and every
/// other element describes a tool, exactly one fewer tool than elements is
/// parsed.
pub proof fn lemma_one_malformed_tool(items: Seq<Json>, k: int)
    requires
        0 <= k < items.len(),
        text_of(field(items[k], "description"@)) is None,
        forall|i: int| 0 <= i < items.len() && i != k ==> (#[trigger] tool_of(items[i])) is Some,
    ensures
        tools_of(items).len() == items.len() - 1,
    decreases items.len(),
{
    let rest = items.drop_first();
    if k == 0 {
        assert forall|i: int| 0 <= i < rest.len() implies (#[trigger] tool_of(rest[i])) is Some by {
            assert(rest[i] == items[i + 1]);
        }
        lemma_all_tools_parsed(rest);
    } else {
        assert(tool_of(items[0]) is Some);
        assert(rest[k - 1] == items[k]);
        assert forall|i: int| 0 <= i < rest.len() && i != k - 1 implies (#[trigger] tool_of(
            rest[i],
        )) is Some by {
            assert(rest[i] == items[i + 1]);
        }
        lemma_one_malformed_tool(rest, k - 1);
    }
}

} // verus!
