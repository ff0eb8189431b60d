//! JSON-RPC requests: id allocation, the table of requests awaiting a reply,
//! and the request documents themselves.
use vstd::prelude::*;
use crate::json::Json;

verus! {

broadcast use vstd::std_specs::hash::group_hash_axioms;

/// Hands out request ids: 1, 2, 3, ... in the order of the calls.
pub struct IdAllocator {
    next: i64,
    issued: Ghost<Seq<i64>>,
}

/// `s` is strictly increasing.
pub open spec fn strictly_increasing(s: Seq<i64>) -> bool {
    forall|i: int, j: int| 0 <= i < j < s.len() ==> s[i] < s[j]
}

impl IdAllocator {
    /// The id the next call will get.
    pub closed spec fn next_id(&self) -> int {
        self.next as int
    }

    /// Every id handed out so far, in order.
    pub closed spec fn issued(&self) -> Seq<i64> {
        self.issued@
    }

    pub closed spec fn wf(&self) -> bool {
        &&& self.next >= 1
        &&& strictly_increasing(self.issued@)
        &&& forall|i: int| 0 <= i < self.issued@.len() ==> 1 <= #[trigger] self.issued@[i] < self.next
    }

    pub fn new() -> (r: IdAllocator)
        ensures
            r.wf(),
            r.next_id() == 1,
            r.issued() == Seq::<i64>::empty(),
    {
        IdAllocator { next: 1, issued: Ghost(Seq::empty()) }
    }

    /// No id is left to hand out.
    pub fn exhausted(&self) -> (r: bool)
        ensures
            r == (self.next_id() == i64::MAX),
            self.next_id() <= i64::MAX,
    {
        self.next == i64::MAX
    }

    /// Hands out the next id.
    pub fn allocate(&mut self) -> (r: i64)
        requires
            old(self).wf(),
            old(self).next_id() < i64::MAX,
        ensures
            final(self).wf(),
            r == old(self).next_id(),
            final(self).next_id() == old(self).next_id() + 1,
            final(self).issued() == old(self).issued().push(r),
    {
        let r = self.next;
        self.issued = Ghost(self.issued@.push(r));
        self.next = self.next + 1;
        r
    }
}

/// Every id handed out so far is below the id the next call will get.
pub proof fn lemma_issued_below_next(a: IdAllocator)
    requires
        a.wf(),
    ensures
        forall|i: int| 0 <= i < a.issued().len() ==> #[trigger] a.issued()[i] < a.next_id(),
{
}

/// Ids handed out by one allocator are strictly increasing, hence pairwise distinct.
pub proof fn lemma_ids_distinct(a: IdAllocator)
    requires
        a.wf(),
    ensures
        strictly_increasing(a.issued()),
        forall|i: int, j: int|
            0 <= i < a.issued().len() && 0 <= j < a.issued().len() && i != j ==> a.issued()[i]
                != a.issued()[j],
{
    assert forall|i: int, j: int|
        0 <= i < a.issued().len() && 0 <= j < a.issued().len() && i != j implies a.issued()[i]
        != a.issued()[j] by {
        if i < j {
            assert(a.issued()[i] < a.issued()[j]);
        } else {
            assert(a.issued()[j] < a.issued()[i]);
        }
    }
}

/// Requests sent that still await their reply: id to method name.
pub struct PendingTable {
    map: std::collections::HashMap<i64, String>,
}

impl PendingTable {
    pub closed spec fn view(&self) -> Map<i64, String> {
        self.map@
    }

    pub fn new() -> (r: PendingTable)
        ensures
            r@ == Map::<i64, String>::empty(),
    {
        PendingTable { map: std::collections::HashMap::new() }
    }

    /// Records that request `id` awaits a reply.
    pub fn register(&mut self, id: i64, method: String)
        ensures
            final(self)@ == old(self)@.insert(id, method),
    {
        self.map.insert(id, method);
    }

    /// Whether request `id` awaits a reply.
    pub fn contains(&self, id: i64) -> (r: bool)
        ensures
            r == self@.contains_key(id),
    {
        self.map.contains_key(&id)
    }

    pub fn len(&self) -> (r: usize)
        ensures
            r == self@.len(),
    {
        self.map.len()
    }

    /// Resolves request `id`: removes its entry and gives its method back.
    pub fn resolve(&mut self, id: i64) -> (r: Option<String>)
        ensures
            final(self)@ == old(self)@.remove(id),
            r == (if old(self)@.contains_key(id) {
                Some(old(self)@[id])
            } else {
                None
            }),
    {
        self.map.remove(&id)
    }
}

/// Resolving id `k` takes out the entry for `k` and leaves every other entry as it was.
pub proof fn lemma_resolve_only_k(before: Map<i64, String>, k: i64)
    ensures
        !before.remove(k).contains_key(k),
        forall|j: i64|
            j != k ==> (#[trigger] before.remove(k).contains_key(j) == before.contains_key(j)
                && (before.contains_key(j) ==> before.remove(k)[j] == before[j])),
{
}

/// `j` is the string `s`.
pub open spec fn is_text(j: Json, s: Seq<char>) -> bool {
    match j {
        Json::Str(v) => v@ == s,
        _ => false,
    }
}

/// The members of `j`, if it is an object.
pub open spec fn members(j: Json) -> Option<Seq<(String, Json)>> {
    match j {
        Json::Object(es) => Some(es@),
        _ => None,
    }
}

/// `j` is the object `{"jsonrpc": "2.0", "id": id, "method": method, "params": params}`.
pub open spec fn is_request(j: Json, id: i64, method: Seq<char>, params: Json) -> bool {
    match members(j) {
        Some(es) => {
            &&& es.len() == 4
            &&& es[0].0@ == "jsonrpc"@ && is_text(es[0].1, "2.0"@)
            &&& es[1].0@ == "id"@ && es[1].1 == Json::Int(id)
            &&& es[2].0@ == "method"@ && is_text(es[2].1, method)
            &&& es[3].0@ == "params"@ && es[3].1 == params
        },
        None => false,
    }
}

/// `j` holds the parameters of `initialize`: protocol version `2024-11-05`, no
/// capabilities, and the client's name and version.
pub open spec fn is_initialize_params(j: Json) -> bool {
    match members(j) {
        Some(es) => {
            &&& es.len() == 3
            &&& es[0].0@ == "protocolVersion"@ && is_text(es[0].1, "2024-11-05"@)
            &&& es[1].0@ == "capabilities"@ && members(es[1].1) == Some(
                Seq::<(String, Json)>::empty(),
            )
            &&& es[2].0@ == "clientInfo"@
            &&& match members(es[2].1) {
                Some(ci) => {
                    &&& ci.len() == 2
                    &&& ci[0].0@ == "name"@ && is_text(ci[0].1, "mcp-client"@)
                    &&& ci[1].0@ == "version"@ && is_text(ci[1].1, "0.1.0"@)
                },
                None => false,
            }
        },
        None => false,
    }
}

/// `j` holds the parameters of `tools/call`: `{"name": name, "arguments": args}`.
pub open spec fn is_call_params(j: Json, name: Seq<char>, args: Json) -> bool {
    match members(j) {
        Some(es) => {
            &&& es.len() == 2
            &&& es[0].0@ == "name"@ && is_text(es[0].1, name)
            &&& es[1].0@ == "arguments"@ && es[1].1 == args
        },
        None => false,
    }
}

fn text(s: &str) -> (r: Json)
    ensures
        is_text(r, s@),
{
    Json::Str(String::from_str(s))
}

fn key(s: &str) -> (r: String)
    ensures
        r@ == s@,
{
    String::from_str(s)
}

/// The request document for `method` with `params`, numbered `id`.
pub fn request(id: i64, method: &str, params: Json) -> (r: Json)
    ensures
        is_request(r, id, method@, params),
{
    let mut es: Vec<(String, Json)> = Vec::new();
    es.push((key("jsonrpc"), text("2.0")));
    es.push((key("id"), Json::Int(id)));
    es.push((key("method"), text(method)));
    es.push((key("params"), params));
    Json::Object(es)
}

/// The parameters of `initialize`.
pub fn initialize_params() -> (r: Json)
    ensures
        is_initialize_params(r),
{
    let mut info: Vec<(String, Json)> = Vec::new();
    info.push((key("name"), text("mcp-client")));
    info.push((key("version"), text("0.1.0")));
    let mut es: Vec<(String, Json)> = Vec::new();
    es.push((key("protocolVersion"), text("2024-11-05")));
    es.push((key("capabilities"), Json::Object(Vec::new())));
    es.push((key("clientInfo"), Json::Object(info)));
    Json::Object(es)
}

/// The parameters of `tools/call` for tool `name` with `arguments`.
pub fn call_params(name: &str, arguments: Json) -> (r: Json)
    ensures
        is_call_params(r, name@, arguments),
{
    let mut es: Vec<(String, Json)> = Vec::new();
    es.push((key("name"), text(name)));
    es.push((key("arguments"), arguments));
    Json::Object(es)
}

/// An empty object, the parameters of `tools/list`.
pub fn empty_params() -> (r: Json)
    ensures
        members(r) == Some(Seq::<(String, Json)>::empty()),
{
    Json::Object(Vec::new())
}

} // verus!
