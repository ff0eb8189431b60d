//! The connection state machine and the request dispatcher.
//!
//! A `Session` holds everything one connection attempt knows. The code that
//! owns the network hands it what happened (the stream opened, a chunk came,
//! the stream ended, a POST finished) and performs the actions it returns
//! (emit an event, POST a body to a URL).
use vstd::prelude::*;
use crate::classify::{classify, classify_events, id_of, message_id};
use crate::events::{debug, emit, error, event_views, message, EventView, McpClientEvent};
use crate::json::{compact_json, compact_of, field, parse_json, parsed_json, Json};
use crate::rpc::{call_params, empty_params, initialize_params, is_call_params, is_initialize_params, is_request, members, request, IdAllocator, PendingTable};
use crate::sse::{stream_frames, stream_rest, SseFrame, SseParser};
use crate::text::{chars_of, decimal_of, push_decimal, starts_with, string_from};
use crate::url::{join_url, resolve};

verus! {

/// The phase of a connection attempt.
#[derive(Debug, Clone, Copy, PartialEq, Eq, Structural)]
pub enum Phase {
    Connecting,
    AwaitingEndpoint,
    Initializing,
    Ready,
    Terminated,
}

/// Something the owner of the network must do.
#[derive(Debug, PartialEq)]
pub enum Action {
    /// Hand the event to the consumer.
    Emit(McpClientEvent),
    /// POST `body` (a JSON document) to `url`, after waiting `delay_ms` milliseconds.
    Post { url: String, body: String, delay_ms: u64 },
}

/// An action as contracts see it.
pub enum ActionView {
    Emit(EventView),
    Post { url: Seq<char>, body: Seq<char>, delay_ms: u64 },
}

impl Action {
    pub open spec fn view(&self) -> ActionView {
        match self {
            Action::Emit(e) => ActionView::Emit(e.view()),
            Action::Post { url, body, delay_ms } => ActionView::Post {
                url: url@,
                body: body@,
                delay_ms: *delay_ms,
            },
        }
    }
}

pub open spec fn action_views(v: Seq<Action>) -> Seq<ActionView> {
    v.map_values(|a: Action| a.view())
}

/// The actions that emit the events `es`, in order.
pub open spec fn emits(es: Seq<EventView>) -> Seq<ActionView> {
    es.map_values(|e: EventView| ActionView::Emit(e))
}

/// How long to wait before `initialize` and before the automatic `tools/list`,
/// so that the server has registered the session.
pub const SETTLE_DELAY_MS: u64 = 100;

/// `a` POSTs request `id` for `method` to `url`, after `delay` milliseconds,
/// with parameters that satisfy `params_ok`.
pub open spec fn posts_request(
    a: ActionView,
    url: Seq<char>,
    id: i64,
    method: Seq<char>,
    delay: u64,
    params_ok: spec_fn(Json) -> bool,
) -> bool {
    match a {
        ActionView::Post { url: u, body, delay_ms } => u == url && delay_ms == delay && exists|
            j: Json,
            p: Json,
        | is_request(j, id, method, p) && params_ok(p) && body == compact_of(j),
        _ => false,
    }
}

/// A POST of a request whose parameters satisfy `narrow` satisfies every weaker `wide`.
pub proof fn lemma_posts_weaken(
    a: ActionView,
    url: Seq<char>,
    id: i64,
    method: Seq<char>,
    delay: u64,
    narrow: spec_fn(Json) -> bool,
    wide: spec_fn(Json) -> bool,
)
    requires
        posts_request(a, url, id, method, delay, narrow),
        forall|p: Json| #[trigger] narrow(p) ==> wide(p),
    ensures
        posts_request(a, url, id, method, delay, wide),
{
    if let ActionView::Post { url: u, body, delay_ms } = a {
        let (j, p) = choose|j: Json, p: Json|
            is_request(j, id, method, p) && narrow(p) && body == compact_of(j);
        assert(is_request(j, id, method, p) && wide(p) && body == compact_of(j));
    }
}

/// `after` is `before` once a request for `method` has been sent, `id` and
/// `acts` being what the send returned: the next id is assigned (recorded as
/// issued and as awaiting a reply, the counter moved on) and POSTed to the
/// current target with parameters satisfying `params_ok`; nothing else of the
/// session changes. Once the ids run out, nothing is sent and an error is
/// reported.
pub open spec fn dispatched(
    before: Session,
    after: Session,
    method: Seq<char>,
    id: Option<i64>,
    acts: Seq<ActionView>,
    params_ok: spec_fn(Json) -> bool,
) -> bool {
    &&& after.wf()
    &&& after.base() == before.base()
    &&& after.buffered() == before.buffered()
    &&& if before.model().next_id < i64::MAX {
        let n = before.model().next_id as i64;
        &&& id == Some(n)
        &&& after.model() == (SessionModel { next_id: before.model().next_id + 1, ..before.model() })
        &&& after.issued() == before.issued().push(n)
        &&& after.pending().contains_key(n)
        &&& after.pending()[n]@ == method
        &&& after.pending() == before.pending().insert(n, after.pending()[n])
        &&& acts.len() == (if before.model().endpoint is None {
            2int
        } else {
            1int
        })
        &&& before.model().endpoint is None ==> acts[0] == ActionView::Emit(
            EventView::Debug("No session endpoint, using base URL for request"@),
        )
        &&& posts_request(
            acts.last(),
            target_url(before.base(), before.model().endpoint),
            n,
            method,
            0,
            params_ok,
        )
    } else {
        &&& id is None
        &&& after.model() == before.model()
        &&& after.pending() == before.pending()
        &&& after.issued() == before.issued()
        &&& acts == seq![ActionView::Emit(EventView::Error("request ids exhausted"@))]
    }
}

/// `p` is an empty object.
pub open spec fn is_empty_object(p: Json) -> bool {
    members(p) == Some(Seq::<(String, Json)>::empty())
}

/// What a connection attempt knows, as contracts see it.
pub struct SessionModel {
    pub phase: Phase,
    pub endpoint: Option<Seq<char>>,
    pub next_id: int,
}

/// The frame announces the session endpoint.
pub open spec fn is_endpoint_frame(ev: Seq<char>, data: Seq<char>) -> bool {
    ev == "endpoint"@ || starts_with(data, "endpoint"@)
}

/// The id of every connection's `initialize` request, reserved when the
/// connection attempt begins.
pub const INITIALIZE_ID: i64 = 1;

/// `j` is a successful reply to the `initialize` request.
pub open spec fn is_init_message(j: Json) -> bool {
    message_id(j) == Some(INITIALIZE_ID) && field(j, "result"@) is Some
}

/// `data` is a successful reply to the `initialize` request.
pub open spec fn is_init_reply(data: Seq<char>) -> bool {
    match parsed_json(data) {
        Some(j) => is_init_message(j),
        None => false,
    }
}

/// The state after the decoded message `j`.
pub open spec fn message_model(m: SessionModel, j: Json) -> SessionModel {
    if m.phase == Phase::Initializing && is_init_message(j) {
        SessionModel {
            phase: Phase::Ready,
            next_id: if m.next_id < i64::MAX {
                m.next_id + 1
            } else {
                m.next_id
            },
            ..m
        }
    } else {
        m
    }
}

/// The actions `acts` are those that the decoded message `j` calls for in
/// state `m`: the reply to `initialize` makes the session ready and POSTs
/// `tools/list` with the next id; any other message is classified.
pub open spec fn message_actions_ok(
    m: SessionModel,
    base: Seq<char>,
    j: Json,
    acts: Seq<ActionView>,
) -> bool {
    if m.phase == Phase::Terminated {
        acts.len() == 0
    } else if m.phase == Phase::Initializing && is_init_message(j) {
        &&& acts.len() == 2
        &&& acts[0] == ActionView::Emit(EventView::Message("MCP session initialized"@))
        &&& if m.next_id < i64::MAX {
            posts_request(
                acts[1],
                target_url(base, m.endpoint),
                m.next_id as i64,
                "tools/list"@,
                SETTLE_DELAY_MS,
                |p: Json| is_empty_object(p),
            )
        } else {
            acts[1] == ActionView::Emit(EventView::Error("request ids exhausted"@))
        }
    } else {
        acts == emits(classify_events(j))
    }
}

/// The state after one frame.
pub open spec fn frame_model(m: SessionModel, ev: Seq<char>, data: Seq<char>) -> SessionModel {
    if m.phase == Phase::Terminated {
        m
    } else if m.endpoint is None && is_endpoint_frame(ev, data) {
        SessionModel { phase: Phase::Initializing, endpoint: Some(data), ..m }
    } else if m.phase == Phase::Initializing && is_init_reply(data) {
        SessionModel {
            phase: Phase::Ready,
            next_id: if m.next_id < i64::MAX {
                m.next_id + 1
            } else {
                m.next_id
            },
            ..m
        }
    } else {
        m
    }
}

/// The state after the frames `fs`, in order.
pub open spec fn frames_model(m: SessionModel, fs: Seq<(Seq<char>, Seq<char>)>) -> SessionModel
    decreases fs.len(),
{
    if fs.len() == 0 {
        m
    } else {
        frame_model(frames_model(m, fs.drop_last()), fs.last().0, fs.last().1)
    }
}

/// The URL that requests go to: the session endpoint resolved against the
/// base URL, or the base URL while no endpoint is known.
pub open spec fn target_url(base: Seq<char>, endpoint: Option<Seq<char>>) -> Seq<char> {
    match endpoint {
        Some(e) => resolve(base, e),
        None => base,
    }
}

/// The actions `acts` are those that the frame `(ev, data)` calls for in state `m`.
pub open spec fn frame_actions_ok(
    m: SessionModel,
    base: Seq<char>,
    ev: Seq<char>,
    data: Seq<char>,
    acts: Seq<ActionView>,
) -> bool {
    if m.phase == Phase::Terminated {
        acts.len() == 0
    } else if m.endpoint is None && is_endpoint_frame(ev, data) {
        &&& acts.len() == 2
        &&& acts[0] == ActionView::Emit(EventView::Debug("Endpoint stored: "@ + data))
        &&& posts_request(
            acts[1],
            resolve(base, data),
            INITIALIZE_ID,
            "initialize"@,
            SETTLE_DELAY_MS,
            |p: Json| is_initialize_params(p),
        )
    } else if m.phase == Phase::Initializing && is_init_reply(data) {
        &&& acts.len() == 2
        &&& acts[0] == ActionView::Emit(EventView::Message("MCP session initialized"@))
        &&& if m.next_id < i64::MAX {
            posts_request(
                acts[1],
                target_url(base, m.endpoint),
                m.next_id as i64,
                "tools/list"@,
                SETTLE_DELAY_MS,
                |p: Json| is_empty_object(p),
            )
        } else {
            acts[1] == ActionView::Emit(EventView::Error("request ids exhausted"@))
        }
    } else {
        match parsed_json(data) {
            Some(j) => acts == emits(classify_events(j)),
            None => acts == seq![ActionView::Emit(EventView::Message(data))],
        }
    }
}

/// The concatenation of `parts`.
pub open spec fn flatten(parts: Seq<Seq<ActionView>>) -> Seq<ActionView>
    decreases parts.len(),
{
    if parts.len() == 0 {
        seq![]
    } else {
        flatten(parts.drop_last()) + parts.last()
    }
}

/// `parts[i]` is what the `i`-th of the frames `fs` calls for, starting from state `m`.
pub open spec fn chunk_actions_ok(
    m: SessionModel,
    base: Seq<char>,
    fs: Seq<(Seq<char>, Seq<char>)>,
    parts: Seq<Seq<ActionView>>,
) -> bool {
    &&& parts.len() == fs.len()
    &&& forall|i: int|
        0 <= i < fs.len() ==> frame_actions_ok(
            #[trigger] frames_model(m, fs.take(i)),
            base,
            fs[i].0,
            fs[i].1,
            parts[i],
        )
}

/// The state of one connection attempt.
pub struct Session {
    base_url: String,
    phase: Phase,
    endpoint: Option<String>,
    ids: IdAllocator,
    pending: PendingTable,
    parser: SseParser,
}

impl Session {
    pub closed spec fn model(&self) -> SessionModel {
        SessionModel {
            phase: self.phase,
            endpoint: match self.endpoint {
                Some(e) => Some(e@),
                None => None,
            },
            next_id: self.ids.next_id(),
        }
    }

    pub closed spec fn base(&self) -> Seq<char> {
        self.base_url@
    }

    /// The requests that await a reply: id to method.
    pub closed spec fn pending(&self) -> Map<i64, String> {
        self.pending@
    }

    /// Ids handed out so far, in order.
    pub closed spec fn issued(&self) -> Seq<i64> {
        self.ids.issued()
    }

    /// Text received on the stream that does not yet end a frame.
    pub closed spec fn buffered(&self) -> Seq<char> {
        self.parser.pending()
    }

    pub closed spec fn wf(&self) -> bool {
        &&& self.ids.wf()
        &&& self.ids.next_id() >= 2
        &&& self.ids.issued().len() > 0 && self.ids.issued()[0] == INITIALIZE_ID
        &&& (self.phase == Phase::Connecting || self.phase == Phase::AwaitingEndpoint)
            ==> self.endpoint is None
        &&& (self.phase == Phase::Initializing || self.phase == Phase::Ready) ==> self.endpoint is Some
    }

    /// A new connection attempt to the stream at `base_url`.
    pub fn new(base_url: String) -> (r: Session)
        ensures
            r.wf(),
            r.base() == base_url@,
            r.model() == (SessionModel {
                phase: Phase::Connecting,
                endpoint: None,
                next_id: INITIALIZE_ID + 1,
            }),
            r.pending() == Map::<i64, String>::empty(),
            r.issued() == seq![INITIALIZE_ID],
            r.buffered() == Seq::<char>::empty(),
    {
        let mut ids = IdAllocator::new();
        let first = ids.allocate();
        assert(first == INITIALIZE_ID);
        assert(ids.issued() =~= seq![INITIALIZE_ID]);
        Session {
            base_url,
            phase: Phase::Connecting,
            endpoint: None,
            ids,
            pending: PendingTable::new(),
            parser: SseParser::new(),
        }
    }

    pub fn phase(&self) -> (r: &Phase)
        ensures
            *r == self.model().phase,
    {
        &self.phase
    }

    /// The session endpoint, once the server has announced it.
    pub fn endpoint(&self) -> (r: Option<&String>)
        ensures
            match r {
                Some(e) => self.model().endpoint == Some(e@),
                None => self.model().endpoint is None,
            },
    {
        match &self.endpoint {
            Some(e) => Some(e),
            None => None,
        }
    }

    pub fn base_url(&self) -> (r: &String)
        ensures
            r@ == self.base(),
    {
        &self.base_url
    }

    /// Moves to `Terminated`, emitting `Disconnected` unless already there.
    fn terminate(&mut self, out: &mut Vec<Action>)
        requires
            old(self).wf(),
        ensures
            final(self).wf(),
            final(self).model() == (SessionModel { phase: Phase::Terminated, ..old(self).model() }),
            final(self).base() == old(self).base(),
            final(self).pending() == old(self).pending(),
            final(self).issued() == old(self).issued(),
            final(self).buffered() == old(self).buffered(),
            action_views(final(out)@) == action_views(old(out)@) + (if old(self).model().phase
                == Phase::Terminated {
                Seq::empty()
            } else {
                seq![ActionView::Emit(EventView::Disconnected)]
            }),
    {
        if self.phase != Phase::Terminated {
            push_action(out, Action::Emit(McpClientEvent::Disconnected));
        } else {
            assert(action_views(out@) =~= action_views(out@) + Seq::empty());
        }
        self.phase = Phase::Terminated;
    }

    /// The stream answered with HTTP status `status`.
    pub fn on_stream_opened(&mut self, status: u16) -> (r: Vec<Action>)
        requires
            old(self).wf(),
        ensures
            final(self).wf(),
            final(self).base() == old(self).base(),
            final(self).pending() == old(self).pending(),
            final(self).issued() == old(self).issued(),
            final(self).buffered() == old(self).buffered(),
            old(self).model().phase == Phase::Connecting && 200 <= status < 300 ==> {
                &&& final(self).model() == (SessionModel {
                    phase: Phase::AwaitingEndpoint,
                    ..old(self).model()
                })
                &&& action_views(r@) == seq![ActionView::Emit(EventView::Connected)]
            },
            old(self).model().phase == Phase::Connecting && !(200 <= status < 300) ==> {
                &&& final(self).model() == (SessionModel {
                    phase: Phase::Terminated,
                    ..old(self).model()
                })
                &&& action_views(r@) == seq![
                    ActionView::Emit(EventView::Error("HTTP connect failed: "@ + decimal_of(status as nat))),
                    ActionView::Emit(EventView::Disconnected),
                ]
            },
            old(self).model().phase != Phase::Connecting ==> final(self).model() == old(
                self,
            ).model() && r@.len() == 0,
    {
        let mut out: Vec<Action> = Vec::new();
        if self.phase != Phase::Connecting {
            return out;
        }
        if 200 <= status && status < 300 {
            self.phase = Phase::AwaitingEndpoint;
            push_action(&mut out, Action::Emit(McpClientEvent::Connected));
        } else {
            let mut v = chars_of("HTTP connect failed: ");
            push_decimal(&mut v, status as u64);
            push_action(&mut out, Action::Emit(McpClientEvent::Error(string_from(v.as_slice()))));
            self.terminate(&mut out);
        }
        assert(action_views(out@) =~= action_views(out@));
        out
    }

    /// The stream could not be opened at all.
    pub fn on_connect_failed(&mut self, reason: &str) -> (r: Vec<Action>)
        requires
            old(self).wf(),
        ensures
            final(self).wf(),
            final(self).model() == (SessionModel { phase: Phase::Terminated, ..old(self).model() }),
            final(self).pending() == old(self).pending(),
            old(self).model().phase != Phase::Terminated ==> action_views(r@) == seq![
                ActionView::Emit(EventView::Error("Connect error: "@ + reason@)),
                ActionView::Emit(EventView::Disconnected),
            ],
            old(self).model().phase == Phase::Terminated ==> r@.len() == 0,
    {
        let mut out: Vec<Action> = Vec::new();
        if self.phase == Phase::Terminated {
            return out;
        }
        let t = crate::text::join2("Connect error: ", reason);
        push_action(&mut out, Action::Emit(McpClientEvent::Error(t)));
        self.terminate(&mut out);
        out
    }

    /// Reading the stream failed.
    pub fn on_stream_error(&mut self, reason: &str) -> (r: Vec<Action>)
        requires
            old(self).wf(),
        ensures
            final(self).wf(),
            final(self).model() == (SessionModel { phase: Phase::Terminated, ..old(self).model() }),
            final(self).pending() == old(self).pending(),
            old(self).model().phase != Phase::Terminated ==> action_views(r@) == seq![
                ActionView::Emit(EventView::Error("Stream error: "@ + reason@)),
                ActionView::Emit(EventView::Disconnected),
            ],
            old(self).model().phase == Phase::Terminated ==> r@.len() == 0,
    {
        let mut out: Vec<Action> = Vec::new();
        if self.phase == Phase::Terminated {
            return out;
        }
        let t = crate::text::join2("Stream error: ", reason);
        push_action(&mut out, Action::Emit(McpClientEvent::Error(t)));
        self.terminate(&mut out);
        out
    }

    /// The server closed the stream.
    ///
    /// Closing before the endpoint was announced is an error; either way the
    /// attempt ends with `Disconnected`.
    pub fn on_stream_end(&mut self) -> (r: Vec<Action>)
        requires
            old(self).wf(),
        ensures
            final(self).wf(),
            final(self).model() == (SessionModel { phase: Phase::Terminated, ..old(self).model() }),
            final(self).pending() == old(self).pending(),
            old(self).model().phase != Phase::Terminated && old(self).model().endpoint is None
                ==> action_views(r@) == seq![
                ActionView::Emit(EventView::Error("Stream ended before the session endpoint was announced"@)),
                ActionView::Emit(EventView::Disconnected),
            ],
            old(self).model().phase != Phase::Terminated && old(self).model().endpoint is Some
                ==> action_views(r@) == seq![
                ActionView::Emit(EventView::Debug("SSE stream ended"@)),
                ActionView::Emit(EventView::Disconnected),
            ],
            old(self).model().phase == Phase::Terminated ==> r@.len() == 0,
    {
        let mut out: Vec<Action> = Vec::new();
        if self.phase == Phase::Terminated {
            return out;
        }
        if self.endpoint.is_none() {
            push_action(
                &mut out,
                Action::Emit(error("Stream ended before the session endpoint was announced")),
            );
        } else {
            push_action(&mut out, Action::Emit(debug("SSE stream ended")));
        }
        self.terminate(&mut out);
        out
    }

    /// The consumer asked to end this attempt.
    pub fn on_shutdown(&mut self) -> (r: Vec<Action>)
        requires
            old(self).wf(),
        ensures
            final(self).wf(),
            final(self).model() == (SessionModel { phase: Phase::Terminated, ..old(self).model() }),
            final(self).pending() == old(self).pending(),
            old(self).model().phase != Phase::Terminated ==> action_views(r@) == seq![
                ActionView::Emit(EventView::Debug("SSE listener shutdown requested"@)),
                ActionView::Emit(EventView::Disconnected),
            ],
            old(self).model().phase == Phase::Terminated ==> r@.len() == 0,
    {
        let mut out: Vec<Action> = Vec::new();
        if self.phase == Phase::Terminated {
            return out;
        }
        push_action(&mut out, Action::Emit(debug("SSE listener shutdown requested")));
        self.terminate(&mut out);
        out
    }

    /// Builds request `id` for `method` and the action that POSTs it to the
    /// current target URL after `delay_ms` milliseconds.
    fn post_action(&self, id: i64, method: &str, params: Json, delay_ms: u64) -> (r: Action)
        ensures
            posts_request(
                r.view(),
                target_url(self.base(), self.model().endpoint),
                id,
                method@,
                delay_ms,
                |p: Json| p == params,
            ),
    {
        let req = request(id, method, params);
        let body = compact_json(&req);
        let url = match &self.endpoint {
            Some(e) => join_url(self.base_url.as_str(), e.as_str()),
            None => String::from_str(self.base_url.as_str()),
        };
        let r = Action::Post { url, body, delay_ms };
        assert(is_request(req, id, method@, params) && (|p: Json| p == params)(params) && r.view()->body == compact_of(req));
        r
    }

    /// Sends a request for `method` with `params`: assigns it the next id,
    /// records it as awaiting a reply, and POSTs it to the session endpoint
    /// (to the base URL, with a diagnostic, while no endpoint is known).
    pub fn send(&mut self, method: &str, params: Json) -> (r: (Option<i64>, Vec<Action>))
        requires
            old(self).wf(),
        ensures
            dispatched(*old(self), *final(self), method@, r.0, action_views(r.1@), |p: Json| p == params),
            r.0 matches Some(id) ==> forall|i: int|
                0 <= i < old(self).issued().len() ==> #[trigger] old(self).issued()[i] < id,
    {
        let mut out: Vec<Action> = Vec::new();
        if self.ids.exhausted() {
            push_action(&mut out, Action::Emit(error("request ids exhausted")));
            assert(action_views(out@) =~= seq![ActionView::Emit(EventView::Error("request ids exhausted"@))]);
            return (None, out);
        }
        let id = self.ids.allocate();
        self.pending.register(id, String::from_str(method));
        if self.endpoint.is_none() {
            push_action(
                &mut out,
                Action::Emit(debug("No session endpoint, using base URL for request")),
            );
        }
        let a = self.post_action(id, method, params, 0);
        push_action(&mut out, a);
        proof {
            crate::rpc::lemma_issued_below_next(old(self).ids);
            assert(action_views(out@).last() == a.view());
        }
        (Some(id), out)
    }

    /// Asks the server for its tools.
    pub fn list_tools(&mut self) -> (r: (Option<i64>, Vec<Action>))
        requires
            old(self).wf(),
        ensures
            dispatched(*old(self), *final(self), "tools/list"@, r.0, action_views(r.1@), |p: Json| is_empty_object(p)),
            r.0 matches Some(id) ==> forall|i: int|
                0 <= i < old(self).issued().len() ==> #[trigger] old(self).issued()[i] < id,
    {
        let params = empty_params();
        let ghost pp = params;
        let r = self.send("tools/list", params);
        proof {
            if old(self).model().next_id < i64::MAX {
                lemma_posts_weaken(
                    action_views(r.1@).last(),
                    target_url(old(self).base(), old(self).model().endpoint),
                    old(self).model().next_id as i64,
                    "tools/list"@,
                    0,
                    |p: Json| p == pp,
                    |p: Json| is_empty_object(p),
                );
            }
        }
        r
    }

    /// Asks the server to run tool `name` with `arguments`.
    pub fn call_tool(&mut self, name: &str, arguments: Json) -> (r: (Option<i64>, Vec<Action>))
        requires
            old(self).wf(),
        ensures
            dispatched(*old(self), *final(self), "tools/call"@, r.0, action_views(r.1@), |p: Json| is_call_params(p, name@, arguments)),
            r.0 matches Some(id) ==> forall|i: int|
                0 <= i < old(self).issued().len() ==> #[trigger] old(self).issued()[i] < id,
    {
        let ghost args = arguments;
        let params = call_params(name, arguments);
        let ghost pp = params;
        let r = self.send("tools/call", params);
        proof {
            if old(self).model().next_id < i64::MAX {
                lemma_posts_weaken(
                    action_views(r.1@).last(),
                    target_url(old(self).base(), old(self).model().endpoint),
                    old(self).model().next_id as i64,
                    "tools/call"@,
                    0,
                    |p: Json| p == pp,
                    |p: Json| is_call_params(p, name@, args),
                );
            }
        }
        r
    }

    /// Acts on one decoded message of the stream: the reply to `initialize`
    /// makes the session ready and asks for the tool list; any other message
    /// is classified (resolving the request it answers). Nothing happens once
    /// the attempt has ended.
    pub fn on_message(&mut self, j: Json) -> (r: Vec<Action>)
        requires
            old(self).wf(),
        ensures
            final(self).wf(),
            final(self).base() == old(self).base(),
            final(self).buffered() == old(self).buffered(),
            old(self).model().phase == Phase::Terminated ==> final(self).model() == old(self).model(),
            old(self).model().phase != Phase::Terminated ==> final(self).model() == message_model(
                old(self).model(),
                j,
            ),
            message_actions_ok(old(self).model(), old(self).base(), j, action_views(r@)),
    {
        let ghost m = self.model();
        let ghost b = self.base();
        let ghost jj = j;
        let mut out: Vec<Action> = Vec::new();
        if self.phase == Phase::Terminated {
            return out;
        }
        let is_reply = self.phase == Phase::Initializing && id_of(&j) == Some(INITIALIZE_ID)
            && j.get("result").is_some();
        if is_reply {
            self.phase = Phase::Ready;
            let _ = self.pending.resolve(INITIALIZE_ID);
            push_action(&mut out, Action::Emit(message("MCP session initialized")));
            if self.ids.exhausted() {
                push_action(&mut out, Action::Emit(error("request ids exhausted")));
            } else {
                let id = self.ids.allocate();
                self.pending.register(id, String::from_str("tools/list"));
                let params = empty_params();
                let ghost pp = params;
                let a = self.post_action(id, "tools/list", params, SETTLE_DELAY_MS);
                proof {
                    lemma_posts_weaken(
                        a.view(),
                        target_url(self.base(), self.model().endpoint),
                        id,
                        "tools/list"@,
                        SETTLE_DELAY_MS,
                        |p: Json| p == pp,
                        |p: Json| is_empty_object(p),
                    );
                }
                push_action(&mut out, a);
            }
            assert(is_init_message(jj));
        } else {
            let evs = classify(j, &mut self.pending);
            push_events(&mut out, evs);
            assert(action_views(out@) =~= emits(classify_events(jj)));
        }
        out
    }

    /// Acts on one frame of the stream.
    fn handle_frame(&mut self, f: SseFrame, out: &mut Vec<Action>)
        requires
            old(self).wf(),
        ensures
            final(self).wf(),
            final(self).base() == old(self).base(),
            final(self).buffered() == old(self).buffered(),
            final(self).model() == frame_model(old(self).model(), f.event@, f.data@),
            exists|acts: Seq<ActionView>|
                frame_actions_ok(old(self).model(), old(self).base(), f.event@, f.data@, acts)
                    && action_views(final(out)@) == action_views(old(out)@) + acts,
    {
        let ghost start = action_views(out@);
        let ghost m = self.model();
        let ghost b = self.base();
        let ghost evv = f.event@;
        let ghost dv = f.data@;
        if self.phase == Phase::Terminated {
            assert(action_views(out@) =~= start + Seq::<ActionView>::empty());
            assert(frame_actions_ok(m, b, evv, dv, Seq::<ActionView>::empty()));
            return;
        }
        let ev = f.event;
        let data = f.data;
        let endpoint_prefix = chars_of("endpoint");
        let dc = chars_of(data.as_str());
        let is_ep = crate::json::str_eq(ev.as_str(), "endpoint")
            || crate::text::matches_at_exec(dc.as_slice(), 0, endpoint_prefix.as_slice());
        if self.endpoint.is_none() && is_ep {
            let d = crate::text::join2("Endpoint stored: ", data.as_str());
            push_action(out, Action::Emit(McpClientEvent::Debug(d)));
            self.endpoint = Some(String::from_str(data.as_str()));
            self.phase = Phase::Initializing;
            self.pending.register(INITIALIZE_ID, String::from_str("initialize"));
            let params = initialize_params();
            let ghost pp = params;
            let a = self.post_action(INITIALIZE_ID, "initialize", params, SETTLE_DELAY_MS);
            proof {
                lemma_posts_weaken(
                    a.view(),
                    target_url(self.base(), self.model().endpoint),
                    INITIALIZE_ID,
                    "initialize"@,
                    SETTLE_DELAY_MS,
                    |p: Json| p == pp,
                    |p: Json| is_initialize_params(p),
                );
            }
            push_action(out, a);
            let ghost acts = action_views(out@).subrange(start.len() as int, action_views(out@).len() as int);
            assert(action_views(out@) =~= start + acts);
            assert(is_endpoint_frame(evv, dv));
            assert(frame_actions_ok(m, b, evv, dv, acts));
            return;
        }
        match parse_json(data.as_str()) {
            Some(j) => {
                let ghost jj = j;
                proof {
                    assert(parsed_json(dv) == Some(jj));
                    assert(is_init_reply(dv) == is_init_message(jj));
                }
                let acts = self.on_message(j);
                let ghost av = action_views(acts@);
                push_actions(out, acts);
                assert(frame_actions_ok(m, b, evv, dv, av));
            },
            None => {
                push_action(out, Action::Emit(McpClientEvent::Message(data)));
                let ghost acts = action_views(out@).subrange(start.len() as int, action_views(out@).len() as int);
                assert(action_views(out@) =~= start + acts);
                assert(acts =~= seq![ActionView::Emit(EventView::Message(dv))]);
                assert(frame_actions_ok(m, b, evv, dv, acts));
            },
        }
    }

    /// Takes in one chunk of the stream and acts on every frame it completes.
    pub fn on_chunk(&mut self, chunk: &str) -> (r: Vec<Action>)
        requires
            old(self).wf(),
        ensures
            final(self).wf(),
            final(self).base() == old(self).base(),
            final(self).buffered() == stream_rest(old(self).buffered() + chunk@),
            final(self).model() == frames_model(
                old(self).model(),
                stream_frames(old(self).buffered() + chunk@),
            ),
            exists|parts: Seq<Seq<ActionView>>|
                chunk_actions_ok(
                    old(self).model(),
                    old(self).base(),
                    stream_frames(old(self).buffered() + chunk@),
                    parts,
                ) && action_views(r@) == flatten(parts),
    {
        let ghost m0 = self.model();
        let ghost base = self.base();
        let frames = self.parser.feed(chunk);
        let ghost fs = crate::sse::frame_views(frames@);
        let mut out: Vec<Action> = Vec::new();
        let ghost mut parts: Seq<Seq<ActionView>> = Seq::empty();
        let ghost orig = frames@;
        let mut frames = frames;
        let n = frames.len();
        let mut i: usize = 0;
        assert(fs.take(0) =~= Seq::<(Seq<char>, Seq<char>)>::empty());
        assert(action_views(out@) =~= flatten(parts));
        while frames.len() > 0
            invariant
                self.wf(),
                self.base() == base,
                i <= n,
                n == fs.len() == orig.len(),
                fs == crate::sse::frame_views(orig),
                frames@ == orig.subrange(i as int, n as int),
                self.model() == frames_model(m0, fs.take(i as int)),
                chunk_actions_ok(m0, base, fs.take(i as int), parts),
                action_views(out@) == flatten(parts),
                self.buffered() == stream_rest(old(self).buffered() + chunk@),
            decreases frames.len(),
        {
            let f = frames.remove(0);
            assert(f == orig[i as int]);
            assert(frames@ =~= orig.subrange(i + 1, n as int));
            let ghost fv = f.view();
            assert(fv == fs[i as int]);
            let ghost before = action_views(out@);
            self.handle_frame(f, &mut out);
            proof {
                let acts = choose|acts: Seq<ActionView>|
                    frame_actions_ok(frames_model(m0, fs.take(i as int)), base, fv.0, fv.1, acts)
                        && action_views(out@) == before + acts;
                let t = fs.take(i + 1);
                assert(t.drop_last() =~= fs.take(i as int));
                assert(t.last() == fv);
                let np = parts.push(acts);
                assert(np.drop_last() =~= parts);
                assert forall|k: int| 0 <= k < t.len() implies frame_actions_ok(
                    #[trigger] frames_model(m0, t.take(k)),
                    base,
                    t[k].0,
                    t[k].1,
                    np[k],
                ) by {
                    if k < i {
                        assert(t.take(k) =~= fs.take(i as int).take(k));
                        assert(fs.take(i as int)[k] == t[k]);
                        assert(fs.take(i as int).take(k) =~= fs.take(k));
                    } else {
                        assert(t.take(k) =~= fs.take(i as int));
                    }
                }
                parts = np;
            }
            i = i + 1;
        }
        assert(fs.take(n as int) =~= fs);
        out
    }

    /// A POST finished with HTTP status `status`: any 2xx status (202 among
    /// them) is success; any other is reported, unless the attempt has ended.
    pub fn on_post_status(&self, status: u16) -> (r: Vec<Action>)
        ensures
            (200 <= status < 300) || self.model().phase == Phase::Terminated ==> r@.len() == 0,
            !(200 <= status < 300) && self.model().phase != Phase::Terminated ==> action_views(r@) == seq![
                ActionView::Emit(EventView::Error("POST HTTP error: "@ + decimal_of(status as nat))),
            ],
    {
        let mut out: Vec<Action> = Vec::new();
        if !(200 <= status && status < 300) && self.phase != Phase::Terminated {
            let mut v = chars_of("POST HTTP error: ");
            push_decimal(&mut v, status as u64);
            push_action(&mut out, Action::Emit(McpClientEvent::Error(string_from(v.as_slice()))));
        }
        out
    }

    /// A POST could not be sent; reported unless the attempt has ended.
    pub fn on_post_failed(&self, reason: &str) -> (r: Vec<Action>)
        ensures
            self.model().phase == Phase::Terminated ==> r@.len() == 0,
            self.model().phase != Phase::Terminated ==> action_views(r@) == seq![
                ActionView::Emit(EventView::Error("POST error: "@ + reason@)),
            ],
    {
        let mut out: Vec<Action> = Vec::new();
        if self.phase == Phase::Terminated {
            return out;
        }
        let t = crate::text::join2("POST error: ", reason);
        push_action(&mut out, Action::Emit(McpClientEvent::Error(t)));
        out
    }
}

/// Appends all of `acts`, in order.
pub fn push_actions(out: &mut Vec<Action>, acts: Vec<Action>)
    ensures
        action_views(final(out)@) == action_views(old(out)@) + action_views(acts@),
{
    let ghost v = action_views(acts@);
    let mut acts = acts;
    out.append(&mut acts);
    assert(action_views(out@) =~= action_views(old(out)@) + v);
}

/// Appends an action that emits each of `es`, in order.
pub fn push_events(out: &mut Vec<Action>, es: Vec<McpClientEvent>)
    ensures
        action_views(final(out)@) == action_views(old(out)@) + emits(event_views(es@)),
{
    let ghost all = event_views(es@);
    let ghost orig = es@;
    let mut es = es;
    let n = es.len();
    let mut i: usize = 0;
    while es.len() > 0
        invariant
            i <= n,
            n == all.len() == orig.len(),
            all == event_views(orig),
            es@ == orig.subrange(i as int, n as int),
            action_views(out@) == action_views(old(out)@) + emits(all.take(i as int)),
        decreases es.len(),
    {
        let e = es.remove(0);
        assert(e == orig[i as int]);
        assert(es@ =~= orig.subrange(i + 1, n as int));
        push_action(out, Action::Emit(e));
        assert(emits(all.take(i + 1)) =~= emits(all.take(i as int)).push(ActionView::Emit(all[i as int])));
        i = i + 1;
    }
    assert(all.take(n as int) =~= all);
}

/// Appends `a` to `out`.
pub fn push_action(out: &mut Vec<Action>, a: Action)
    ensures
        final(out)@ == old(out)@.push(a),
        action_views(final(out)@) == action_views(old(out)@).push(a.view()),
{
    out.push(a);
    assert(action_views(out@) =~= action_views(old(out)@).push(a.view()));
}

/// The ids a session assigns, over any sequence of sends, are strictly
/// increasing and pairwise distinct.
pub proof fn lemma_session_ids_distinct(s: Session)
    requires
        s.wf(),
    ensures
        crate::rpc::strictly_increasing(s.issued()),
        forall|i: int, j: int|
            0 <= i < s.issued().len() && 0 <= j < s.issued().len() && i != j ==> s.issued()[i]
                != s.issued()[j],
{
    crate::rpc::lemma_ids_distinct(s.ids);
}

/// Running the frames `x` and then the frames `y` ends in the state that
/// running `x + y` ends in.
pub proof fn lemma_frames_model_append(
    m: SessionModel,
    x: Seq<(Seq<char>, Seq<char>)>,
    y: Seq<(Seq<char>, Seq<char>)>,
)
    ensures
        frames_model(frames_model(m, x), y) == frames_model(m, x + y),
    decreases y.len(),
{
    if y.len() == 0 {
        assert(x + y =~= x);
    } else {
        lemma_frames_model_append(m, x, y.drop_last());
        assert((x + y).drop_last() =~= x + y.drop_last());
        assert((x + y).last() == y.last());
    }
}

/// Two chunks `a` and `b` handed to a session one after the other leave it
/// in the state, with the same text pending, that the single chunk `a + b`
/// does: with `p` the text pending before, the frames that `on_chunk(a)` and
/// then `on_chunk(b)` act on run the session model to the same end as those
/// of `on_chunk(a + b)`.
pub proof fn lemma_session_split_chunks(m: SessionModel, p: Seq<char>, a: Seq<char>, b: Seq<char>)
    ensures
        frames_model(frames_model(m, stream_frames(p + a)), stream_frames(stream_rest(p + a) + b))
            == frames_model(m, stream_frames(p + (a + b))),
        stream_rest(stream_rest(p + a) + b) == stream_rest(p + (a + b)),
{
    crate::sse::lemma_feed_split_invariant(p + a, b);
    assert((p + a) + b =~= p + (a + b));
    lemma_frames_model_append(m, stream_frames(p + a), stream_frames(stream_rest(p + a) + b));
}

} // verus!
