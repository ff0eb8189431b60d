//! Tab completion and history for the command line.
use vstd::prelude::*;
use crate::text::{lower_of, lowercase, chars_of, ends_with_char, extend_chars, split_words, starts_with, string_from, views, vviews, words};

verus! {


/// A candidate offered for completion.
#[derive(Debug, Clone, PartialEq, Eq)]
pub struct CompletionCandidate {
    pub text: String,
    pub description: Option<String>,
}

pub type CandidateView = (Seq<char>, Option<Seq<char>>);

impl CompletionCandidate {
    pub open spec fn view(&self) -> CandidateView {
        (
            self.text@,
            match self.description {
                Some(d) => Some(d@),
                None => None,
            },
        )
    }
}

pub open spec fn candidate_views(v: Seq<CompletionCandidate>) -> Seq<CandidateView> {
    v.map_values(|c: CompletionCandidate| c.view())
}

/// The candidates of one completion request and which of them is selected.
#[derive(Debug, Clone, PartialEq, Eq)]
pub struct CompletionResult {
    pub candidates: Vec<CompletionCandidate>,
    pub selected: usize,
}

impl CompletionResult {
    pub open spec fn view(&self) -> Seq<CandidateView> {
        candidate_views(self.candidates@)
    }

    pub fn empty() -> (r: CompletionResult)
        ensures
            r@ == Seq::<CandidateView>::empty(),
            r.selected == 0,
    {
        let r = CompletionResult { candidates: Vec::new(), selected: 0 };
        assert(r@ =~= Seq::<CandidateView>::empty());
        r
    }

    pub fn is_empty(&self) -> (r: bool)
        ensures
            r == (self@.len() == 0),
    {
        self.candidates.len() == 0
    }

    pub fn len(&self) -> (r: usize)
        ensures
            r == self@.len(),
    {
        self.candidates.len()
    }

    /// Selects the next candidate, wrapping around after the last.
    pub fn next(self) -> (r: CompletionResult)
        ensures
            r@ == self@,
            self@.len() > 0 ==> r.selected == (self.selected as int + 1) % (self@.len() as int),
            self@.len() == 0 ==> r.selected == self.selected,
    {
        let n = self.candidates.len();
        if n == 0 {
            return self;
        }
        let s = ((self.selected % n) + 1) % n;
        proof {
            vstd::arithmetic::div_mod::lemma_add_mod_noop(self.selected as int, 1, n as int);
            if n > 1 {
                vstd::arithmetic::div_mod::lemma_small_mod(1, n as nat);
            } else {
                assert((self.selected as int + 1) % 1 == 0);
            }
        }
        CompletionResult { candidates: self.candidates, selected: s }
    }

    /// Selects the previous candidate, wrapping around before the first.
    pub fn prev(self) -> (r: CompletionResult)
        ensures
            r@ == self@,
            self@.len() > 0 && self.selected == 0 ==> r.selected == self@.len() - 1,
            self@.len() > 0 && self.selected > 0 ==> r.selected == self.selected - 1,
            self@.len() == 0 ==> r.selected == self.selected,
    {
        let n = self.candidates.len();
        if n == 0 {
            return self;
        }
        let s = if self.selected == 0 {
            n - 1
        } else {
            self.selected - 1
        };
        CompletionResult { candidates: self.candidates, selected: s }
    }

    /// The text of the selected candidate.
    pub fn selected_text(&self) -> (r: Option<&str>)
        ensures
            match r {
                Some(t) => self.selected < self@.len() && t@ == self@[self.selected as int].0,
                None => self.selected >= self@.len(),
            },
    {
        if self.selected < self.candidates.len() {
            Some(self.candidates[self.selected].text.as_str())
        } else {
            None
        }
    }
}

/// One argument of a command.
pub struct ArgTemplate {
    pub name: String,
    pub required: bool,
    /// The completion list its values come from, if any.
    pub completion_list: Option<String>,
}

/// A command that completion knows.
pub struct CommandTemplate {
    pub name: String,
    pub description: String,
    pub args: Vec<ArgTemplate>,
}

pub open spec fn opt_view(o: Option<String>) -> Option<Seq<char>> {
    match o {
        Some(s) => Some(s@),
        None => None,
    }
}

/// The completion list of argument `i` of `t`, if it has one.
pub open spec fn arg_list(t: CommandTemplate, i: int) -> Option<Seq<char>> {
    if 0 <= i < t.args@.len() {
        opt_view(t.args@[i].completion_list)
    } else {
        None
    }
}

/// The template named `name` among `cs` (the first, if several).
pub open spec fn find_template(cs: Seq<CommandTemplate>, name: Seq<char>) -> Option<CommandTemplate>
    decreases cs.len(),
{
    if cs.len() == 0 {
        None
    } else if cs[0].name@ == name {
        Some(cs[0])
    } else {
        find_template(cs.drop_first(), name)
    }
}

/// The items of the list named `name` among `ls` (the first, if several).
pub open spec fn find_list(ls: Seq<(String, Vec<String>)>, name: Seq<char>) -> Option<Seq<Seq<char>>>
    decreases ls.len(),
{
    if ls.len() == 0 {
        None
    } else if ls[0].0@ == name {
        Some(views(ls[0].1@))
    } else {
        find_list(ls.drop_first(), name)
    }
}

/// The items of `items` whose lower-case form starts with `prefix`, in order,
/// without description.
pub open spec fn prefixed(items: Seq<Seq<char>>, prefix: Seq<char>) -> Seq<CandidateView>
    decreases items.len(),
{
    if items.len() == 0 {
        seq![]
    } else {
        prefixed(items.drop_last(), prefix) + (if starts_with(lower_of(items.last()), prefix) {
            seq![(items.last(), None::<Seq<char>>)]
        } else {
            seq![]
        })
    }
}

/// The candidates that list `name` offers for `prefix`.
pub open spec fn list_candidates(
    ls: Seq<(String, Vec<String>)>,
    name: Seq<char>,
    prefix: Seq<char>,
) -> Seq<CandidateView> {
    match find_list(ls, name) {
        Some(items) => prefixed(items, lower_of(prefix)),
        None => seq![],
    }
}

/// The commands `cs` whose names start with `prefix`, with descriptions.
pub open spec fn named(cs: Seq<CommandTemplate>, prefix: Seq<char>) -> Seq<CandidateView>
    decreases cs.len(),
{
    if cs.len() == 0 {
        seq![]
    } else {
        named(cs.drop_last(), prefix) + (if starts_with(cs.last().name@, prefix) {
            seq![(cs.last().name@, Some(cs.last().description@))]
        } else {
            seq![]
        })
    }
}

/// The candidates for the arguments after `mcp`.
pub open spec fn mcp_candidates(
    ls: Seq<(String, Vec<String>)>,
    args: Seq<Seq<char>>,
    ends_with_space: bool,
) -> Seq<CandidateView> {
    let n = args.len();
    if n == 1 && !ends_with_space {
        list_candidates(ls, "mcp_subcommands"@, args[0])
    } else if n == 1 && ends_with_space && (args[0] == "connect"@ || args[0] == "cn"@) {
        list_candidates(ls, "mcp_servers"@, seq![])
    } else if n == 2 && !ends_with_space && (args[0] == "connect"@ || args[0] == "cn"@) {
        list_candidates(ls, "mcp_servers"@, args[1])
    } else if n == 1 && ends_with_space && (args[0] == "tool"@ || args[0] == "run"@) {
        list_candidates(ls, "mcp_tools"@, seq![])
    } else if n == 2 && !ends_with_space && (args[0] == "tool"@ || args[0] == "run"@) {
        list_candidates(ls, "mcp_tools"@, args[1])
    } else {
        seq![]
    }
}

/// The candidates for the arguments `args` of command `cmd`.
pub open spec fn arg_candidates(
    cs: Seq<CommandTemplate>,
    ls: Seq<(String, Vec<String>)>,
    cmd: Seq<char>,
    args: Seq<Seq<char>>,
    ends_with_space: bool,
) -> Seq<CandidateView> {
    if cmd == "mcp"@ && args.len() > 0 {
        mcp_candidates(ls, args, ends_with_space)
    } else {
        match find_template(cs, cmd) {
            Some(t) => {
                let i = if ends_with_space {
                    args.len() as int
                } else if args.len() > 0 {
                    args.len() - 1
                } else {
                    0
                };
                match arg_list(t, i) {
                    Some(l) => list_candidates(
                        ls,
                        l,
                        if ends_with_space || args.len() == 0 {
                            seq![]
                        } else {
                            args.last()
                        },
                    ),
                    None => seq![],
                }
            },
            None => seq![],
        }
    }
}

/// The most commands the history keeps.
pub const MAX_HISTORY: usize = 100;

/// What completion knows: the commands, the named completion lists, and the
/// command history (oldest first).
pub struct CompletionContext {
    commands: Vec<CommandTemplate>,
    lists: Vec<(String, Vec<String>)>,
    history: Vec<String>,
}

/// The members of `h` other than `c`, in order.
pub open spec fn without(h: Seq<Seq<char>>, c: Seq<char>) -> Seq<Seq<char>>
    decreases h.len(),
{
    if h.len() == 0 {
        seq![]
    } else {
        without(h.drop_last(), c) + (if h.last() != c {
            seq![h.last()]
        } else {
            seq![]
        })
    }
}

/// The last `MAX_HISTORY` of `h`.
pub open spec fn history_bounded(h: Seq<Seq<char>>) -> Seq<Seq<char>> {
    if h.len() > MAX_HISTORY {
        h.drop_first()
    } else {
        h
    }
}

fn arg(name: &str, list: Option<&str>) -> (r: ArgTemplate)
    ensures
        r.name@ == name@,
        r.required,
        opt_view(r.completion_list) == match list {
            Some(l) => Some(l@),
            None => None::<Seq<char>>,
        },
{
    ArgTemplate {
        name: String::from_str(name),
        required: true,
        completion_list: match list {
            Some(l) => Some(String::from_str(l)),
            None => None,
        },
    }
}

fn template(name: &str, description: &str, args: Vec<ArgTemplate>) -> (r: CommandTemplate)
    ensures
        r.name@ == name@,
        r.description@ == description@,
        r.args == args,
{
    CommandTemplate {
        name: String::from_str(name),
        description: String::from_str(description),
        args,
    }
}

fn strings(items: &[&str]) -> (r: Vec<String>)
    ensures
        r@.len() == items@.len(),
        forall|i: int| 0 <= i < items@.len() ==> #[trigger] r@[i]@ == items@[i]@,
{
    let mut r: Vec<String> = Vec::new();
    let mut i: usize = 0;
    while i < items.len()
        invariant
            i <= items@.len(),
            r@.len() == i,
            forall|k: int| 0 <= k < i ==> #[trigger] r@[k]@ == items@[k]@,
        decreases items.len() - i,
    {
        r.push(String::from_str(items[i]));
        i = i + 1;
    }
    r
}

/// The commands that completion knows from the start, ordered by name: name,
/// description, and for each argument the completion list its values come from.
pub open spec fn builtin_commands() -> Seq<(Seq<char>, Seq<char>, Seq<Option<Seq<char>>>)> {
    seq![
        ("clear"@, "Clear output"@, seq![]),
        ("echo"@, "Echo text to output"@, seq![None]),
        ("h"@, "Show help"@, seq![]),
        ("help"@, "Show help"@, seq![]),
        ("mcp"@, "MCP commands"@, seq![Some("mcp_subcommands"@)]),
        ("mouse"@, "Enable/disable mouse capture"@, seq![Some("mouse_states"@)]),
        ("q"@, "Quit application"@, seq![]),
        ("quit"@, "Quit application"@, seq![]),
    ]
}

/// `t` is the template that `b` describes.
pub open spec fn template_is(
    t: CommandTemplate,
    b: (Seq<char>, Seq<char>, Seq<Option<Seq<char>>>),
) -> bool {
    &&& t.name@ == b.0
    &&& t.description@ == b.1
    &&& t.args@.len() == b.2.len()
    &&& forall|k: int| 0 <= k < b.2.len() ==> #[trigger] arg_list(t, k) == b.2[k]
}

impl CompletionContext {
    pub closed spec fn commands(&self) -> Seq<CommandTemplate> {
        self.commands@
    }

    pub closed spec fn lists(&self) -> Seq<(String, Vec<String>)> {
        self.lists@
    }

    pub closed spec fn history(&self) -> Seq<Seq<char>> {
        views(self.history@)
    }

    /// The built-in commands and the static lists `mouse_states` and
    /// `mcp_subcommands`; no history.
    pub fn new() -> (r: CompletionContext)
        ensures
            r.commands().len() == builtin_commands().len(),
            forall|i: int|
                0 <= i < builtin_commands().len() ==> template_is(
                    #[trigger] r.commands()[i],
                    builtin_commands()[i],
                ),
            find_list(r.lists(), "mouse_states"@) == Some(seq!["on"@, "off"@]),
            find_list(r.lists(), "mcp_subcommands"@) == Some(
                seq!["list"@, "connect"@, "cn"@, "tools"@, "tool"@, "run"@, "status"@],
            ),
            r.history() == Seq::<Seq<char>>::empty(),
    {
        let mut commands: Vec<CommandTemplate> = Vec::new();
        commands.push(template("clear", "Clear output", Vec::new()));
        let mut echo_args: Vec<ArgTemplate> = Vec::new();
        echo_args.push(arg("text", None));
        commands.push(template("echo", "Echo text to output", echo_args));
        commands.push(template("h", "Show help", Vec::new()));
        commands.push(template("help", "Show help", Vec::new()));
        let mut mcp_args: Vec<ArgTemplate> = Vec::new();
        mcp_args.push(arg("subcommand", Some("mcp_subcommands")));
        commands.push(template("mcp", "MCP commands", mcp_args));
        let mut mouse_args: Vec<ArgTemplate> = Vec::new();
        mouse_args.push(arg("state", Some("mouse_states")));
        commands.push(template("mouse", "Enable/disable mouse capture", mouse_args));
        commands.push(template("q", "Quit application", Vec::new()));
        commands.push(template("quit", "Quit application", Vec::new()));
        proof {
            let cs = commands@;
            let bs = builtin_commands();
            assert forall|i: int| 0 <= i < bs.len() implies template_is(#[trigger] cs[i], bs[i]) by {
                assert forall|k: int| 0 <= k < bs[i].2.len() implies #[trigger] arg_list(cs[i], k)
                    == bs[i].2[k] by {}
            }
        }
        let mut lists: Vec<(String, Vec<String>)> = Vec::new();
        lists.push((String::from_str("mouse_states"), strings(vec!["on", "off"].as_slice())));
        lists.push(
            (
                String::from_str("mcp_subcommands"),
                strings(vec!["list", "connect", "cn", "tools", "tool", "run", "status"].as_slice()),
            ),
        );
        let r = CompletionContext { commands, lists, history: Vec::new() };
        proof {
            reveal_strlit("mouse_states");
            reveal_strlit("mcp_subcommands");
            assert(r.history() =~= Seq::<Seq<char>>::empty());
            let l0 = r.lists@[0].1@;
            let l1 = r.lists@[1].1@;
            assert(views(l0) =~= seq!["on"@, "off"@]);
            assert(views(l1) =~= seq!["list"@, "connect"@, "cn"@, "tools"@, "tool"@, "run"@, "status"@]);
            assert(r.lists@.drop_first()[0] == r.lists@[1]);
            assert(r.lists@.drop_first().len() == 1);
            assert("mouse_states"@.len() != "mcp_subcommands"@.len());
            assert(find_list(r.lists@.drop_first(), "mcp_subcommands"@) == Some(views(l1)));
        }
        r
    }

    /// Registers (or replaces) the completion list `name`.
    pub fn with_list(self, name: String, items: Vec<String>) -> (r: CompletionContext)
        ensures
            find_list(r.lists(), name@) == Some(views(items@)),
            forall|other: Seq<char>|
                other != name@ ==> #[trigger] find_list(r.lists(), other) == find_list(
                    self.lists(),
                    other,
                ),
            r.commands() == self.commands(),
            r.history() == self.history(),
    {
        let ghost nv = name@;
        let ghost iv = views(items@);
        let mut kept: Vec<(String, Vec<String>)> = Vec::new();
        let ghost old_lists = self.lists@;
        let mut lists = self.lists;
        kept.push((name, items));
        let mut i: usize = 0;
        let n = lists.len();
        assert(old_lists.subrange(0, n as int) =~= old_lists);
        assert(kept@.drop_first() =~= Seq::<(String, Vec<String>)>::empty());
        while lists.len() > 0
            invariant
                i <= n,
                lists@ == old_lists.subrange(i as int, n as int),
                n == old_lists.len(),
                kept@.len() >= 1,
                kept@[0].0@ == nv,
                views(kept@[0].1@) == iv,
                forall|k: int| 1 <= k < kept@.len() ==> (#[trigger] kept@[k]).0@ != nv,
                forall|other: Seq<char>|
                    other != nv ==> #[trigger] find_list(old_lists, other) == {
                        let a = find_list(kept@.drop_first(), other);
                        if a is Some { a } else { find_list(lists@, other) }
                    },
            decreases lists.len(),
        {
            let e = lists.remove(0);
            assert(e == old_lists[i as int]);
            assert(lists@ =~= old_lists.subrange(i + 1, n as int));
            let same = crate::json::str_eq(e.0.as_str(), first_key(&kept));
            if !same {
                let ghost before = kept@;
                kept.push(e);
                proof {
                    assert forall|other: Seq<char>| other != nv implies #[trigger] find_list(
                        old_lists,
                        other,
                    ) == {
                        let a = find_list(kept@.drop_first(), other);
                        if a is Some { a } else { find_list(lists@, other) }
                    } by {
                        lemma_find_list_push(before.drop_first(), e, other);
                        assert(kept@.drop_first() =~= before.drop_first().push(e));
                        let s = old_lists.subrange(i as int, n as int);
                        assert(s[0] == e);
                        assert(s.drop_first() =~= lists@);
                    }
                }
            } else {
                proof {
                    assert forall|other: Seq<char>| other != nv implies #[trigger] find_list(
                        old_lists,
                        other,
                    ) == {
                        let a = find_list(kept@.drop_first(), other);
                        if a is Some { a } else { find_list(lists@, other) }
                    } by {
                        let s = old_lists.subrange(i as int, n as int);
                        assert(s[0] == e);
                        assert(s.drop_first() =~= lists@);
                    }
                }
            }
            i = i + 1;
        }
        let r = CompletionContext { commands: self.commands, lists: kept, history: self.history };
        proof {
            assert forall|other: Seq<char>| other != nv implies #[trigger] find_list(
                r.lists(),
                other,
            ) == find_list(old_lists, other) by {
                assert(r.lists@.drop_first() == kept@.drop_first());
                assert(lists@ =~= Seq::<(String, Vec<String>)>::empty());
            }
        }
        r
    }

    /// Records `command` as the most recent history entry, dropping an earlier
    /// copy of it and, beyond `MAX_HISTORY` entries, the oldest.
    pub fn with_history_entry(self, command: String) -> (r: CompletionContext)
        requires
            self.history().len() <= MAX_HISTORY,
        ensures
            r.history() == history_bounded(without(self.history(), command@).push(command@)),
            r.history().len() <= MAX_HISTORY,
            r.commands() == self.commands(),
            r.lists() == self.lists(),
    {
        let ghost h0 = self.history();
        let ghost c = command@;
        let mut h: Vec<String> = Vec::new();
        let mut i: usize = 0;
        let old_h = self.history;
        while i < old_h.len()
            invariant
                i <= old_h@.len(),
                views(old_h@) == h0,
                c == command@,
                views(h@) == without(h0.take(i as int), c),
            decreases old_h.len() - i,
        {
            proof {
                let t = h0.take(i + 1);
                assert(t.drop_last() =~= h0.take(i as int));
                assert(t.last() == old_h@[i as int]@);
            }
            if !crate::json::str_eq(old_h[i].as_str(), command.as_str()) {
                let s = String::from_str(old_h[i].as_str());
                assert(views(h@.push(s)) =~= views(h@) + seq![s@]);
                h.push(s);
            } else {
                assert(views(h@) =~= views(h@) + Seq::<Seq<char>>::empty());
            }
            i = i + 1;
        }
        assert(h0.take(i as int) =~= h0);
        let ghost cv = command@;
        h.push(command);
        assert(views(h@) =~= without(h0, c).push(cv));
        proof {
            lemma_filter_len(h0, c);
        }
        if h.len() > MAX_HISTORY {
            let ghost before = h@;
            h.remove(0);
            assert(views(h@) =~= views(before).drop_first());
        }
        CompletionContext { commands: self.commands, lists: self.lists, history: h }
    }

    /// The number of history entries.
    pub fn history_len(&self) -> (r: usize)
        ensures
            r == self.history().len(),
    {
        self.history.len()
    }

    /// Completions for the command line `input`.
    pub fn complete(&self, input: &str) -> (r: CompletionResult)
        ensures
            r.selected == 0,
            ({
                let ws = words(input@);
                let sp = ends_with_char(input@, ' ');
                r@ == if ws.len() == 0 {
                    named(self.commands(), seq![])
                } else if ws.len() == 1 && !sp {
                    named(self.commands(), lower_of(ws[0]))
                } else if ws.len() == 1 {
                    match find_template(self.commands(), ws[0]) {
                        Some(t) => match arg_list(t, 0) {
                            Some(l) => list_candidates(self.lists(), l, seq![]),
                            None => seq![],
                        },
                        None => seq![],
                    }
                } else {
                    arg_candidates(self.commands(), self.lists(), ws[0], ws.drop_first(), sp)
                }
            }),
    {
        proof {
            reveal_strlit("");
            assert(""@ =~= Seq::<char>::empty());
        }
        let c = chars_of(input);
        let ws = split_words(c.as_slice());
        let ghost wv = vviews(ws@);
        let sp = c.len() > 0 && c[c.len() - 1] == ' ';
        if ws.len() == 0 {
            return self.filter_commands("");
        }
        assert(wv[0] == ws@[0]@);
        let first = string_from(ws[0].as_slice());
        if ws.len() == 1 && !sp {
            let p = lowercase(first.as_str());
            return self.filter_commands(p.as_str());
        }
        if ws.len() == 1 {
            return self.complete_first_arg(first.as_str());
        }
        let mut args: Vec<String> = Vec::new();
        let mut i: usize = 1;
        while i < ws.len()
            invariant
                1 <= i <= ws@.len(),
                wv == vviews(ws@),
                views(args@) == wv.subrange(1, i as int),
            decreases ws.len() - i,
        {
            let s = string_from(ws[i].as_slice());
            proof {
                assert(views(args@.push(s)) =~= views(args@).push(s@));
                assert(wv.subrange(1, i + 1) =~= wv.subrange(1, i as int).push(wv[i as int]));
            }
            args.push(s);
            i = i + 1;
        }
        assert(wv.subrange(1, ws@.len() as int) =~= wv.drop_first());
        self.complete_command_args(first.as_str(), &args, sp)
    }

    /// The commands whose names start with `prefix`, in order, with descriptions.
    fn filter_commands(&self, prefix: &str) -> (r: CompletionResult)
        ensures
            r@ == named(self.commands(), prefix@),
            r.selected == 0,
    {
        let p = chars_of(prefix);
        let mut out: Vec<CompletionCandidate> = Vec::new();
        let mut i: usize = 0;
        while i < self.commands.len()
            invariant
                i <= self.commands@.len(),
                p@ == prefix@,
                candidate_views(out@) == named(self.commands@.take(i as int), prefix@),
            decreases self.commands.len() - i,
        {
            let t = &self.commands[i];
            let nc = chars_of(t.name.as_str());
            proof {
                let s = self.commands@.take(i + 1);
                assert(s.drop_last() =~= self.commands@.take(i as int));
                assert(s.last() == *t);
            }
            if crate::text::matches_at_exec(nc.as_slice(), 0, p.as_slice()) {
                let cand = CompletionCandidate {
                    text: String::from_str(t.name.as_str()),
                    description: Some(String::from_str(t.description.as_str())),
                };
                assert(candidate_views(out@.push(cand)) =~= candidate_views(out@).push(cand.view()));
                out.push(cand);
            } else {
                assert(candidate_views(out@) =~= candidate_views(out@) + seq![]);
            }
            i = i + 1;
        }
        assert(self.commands@.take(i as int) =~= self.commands@);
        CompletionResult { candidates: out, selected: 0 }
    }

    /// The template named `cmd`.
    fn template_of(&self, cmd: &str) -> (r: Option<&CommandTemplate>)
        ensures
            match r {
                Some(t) => find_template(self.commands(), cmd@) == Some(*t),
                None => find_template(self.commands(), cmd@) is None,
            },
    {
        let mut i: usize = 0;
        assert(self.commands@.subrange(0, self.commands@.len() as int) =~= self.commands@);
        while i < self.commands.len()
            invariant
                i <= self.commands@.len(),
                find_template(self.commands@, cmd@) == find_template(
                    self.commands@.subrange(i as int, self.commands@.len() as int),
                    cmd@,
                ),
            decreases self.commands.len() - i,
        {
            let ghost rest = self.commands@.subrange(i as int, self.commands@.len() as int);
            assert(rest.drop_first() =~= self.commands@.subrange(i + 1, self.commands@.len() as int));
            assert(rest[0] == self.commands@[i as int]);
            if crate::json::str_eq(self.commands[i].name.as_str(), cmd) {
                return Some(&self.commands[i]);
            }
            i = i + 1;
        }
        None
    }

    /// The completion list of argument `i` of template `t`.
    fn list_of_arg(t: &CommandTemplate, i: usize) -> (r: Option<&String>)
        ensures
            match r {
                Some(l) => arg_list(*t, i as int) == Some(l@),
                None => arg_list(*t, i as int) is None,
            },
    {
        if i < t.args.len() {
            match &t.args[i].completion_list {
                Some(l) => Some(l),
                None => None,
            }
        } else {
            None
        }
    }

    fn complete_first_arg(&self, cmd: &str) -> (r: CompletionResult)
        ensures
            r.selected == 0,
            r@ == match find_template(self.commands(), cmd@) {
                Some(t) => match arg_list(t, 0) {
                    Some(l) => list_candidates(self.lists(), l, seq![]),
                    None => seq![],
                },
                None => seq![],
            },
    {
        proof {
            reveal_strlit("");
            assert(""@ =~= Seq::<char>::empty());
        }
        match self.template_of(cmd) {
            Some(t) => match Self::list_of_arg(t, 0) {
                Some(l) => self.complete_from_list(l.as_str(), ""),
                None => CompletionResult::empty(),
            },
            None => CompletionResult::empty(),
        }
    }

    fn complete_command_args(&self, cmd: &str, args: &Vec<String>, ends_with_space: bool) -> (r:
        CompletionResult)
        ensures
            r.selected == 0,
            r@ == arg_candidates(self.commands(), self.lists(), cmd@, views(args@), ends_with_space),
    {
        proof {
            reveal_strlit("");
            assert(""@ =~= Seq::<char>::empty());
        }
        let ghost av = views(args@);
        if crate::json::str_eq(cmd, "mcp") && args.len() > 0 {
            return self.complete_mcp_args(args, ends_with_space);
        }
        match self.template_of(cmd) {
            Some(t) => {
                let i = if ends_with_space {
                    args.len()
                } else if args.len() > 0 {
                    args.len() - 1
                } else {
                    0
                };
                match Self::list_of_arg(t, i) {
                    Some(l) => {
                        if ends_with_space || args.len() == 0 {
                            self.complete_from_list(l.as_str(), "")
                        } else {
                            assert(av.last() == args@[args@.len() - 1]@);
                            self.complete_from_list(l.as_str(), args[args.len() - 1].as_str())
                        }
                    },
                    None => CompletionResult::empty(),
                }
            },
            None => CompletionResult::empty(),
        }
    }

    fn complete_mcp_args(&self, args: &Vec<String>, ends_with_space: bool) -> (r: CompletionResult)
        requires
            args@.len() > 0,
        ensures
            r.selected == 0,
            r@ == mcp_candidates(self.lists(), views(args@), ends_with_space),
    {
        proof {
            reveal_strlit("");
            assert(""@ =~= Seq::<char>::empty());
        }
        let ghost av = views(args@);
        let n = args.len();
        assert(av[0] == args@[0]@);
        let a0 = args[0].as_str();
        if n == 1 && !ends_with_space {
            return self.complete_from_list("mcp_subcommands", a0);
        }
        let is_connect = crate::json::str_eq(a0, "connect") || crate::json::str_eq(a0, "cn");
        let is_tool = crate::json::str_eq(a0, "tool") || crate::json::str_eq(a0, "run");
        if n == 1 && ends_with_space && is_connect {
            return self.complete_from_list("mcp_servers", "");
        }
        if n == 2 && !ends_with_space && is_connect {
            assert(av[1] == args@[1]@);
            return self.complete_from_list("mcp_servers", args[1].as_str());
        }
        if n == 1 && ends_with_space && is_tool {
            return self.complete_from_list("mcp_tools", "");
        }
        if n == 2 && !ends_with_space && is_tool {
            assert(av[1] == args@[1]@);
            return self.complete_from_list("mcp_tools", args[1].as_str());
        }
        CompletionResult::empty()
    }

    /// The items of list `list_name` whose lower-case form starts with the
    /// lower-case form of `prefix`.
    fn complete_from_list(&self, list_name: &str, prefix: &str) -> (r: CompletionResult)
        ensures
            r.selected == 0,
            r@ == list_candidates(self.lists(), list_name@, prefix@),
    {
        let mut i: usize = 0;
        assert(self.lists@.subrange(0, self.lists@.len() as int) =~= self.lists@);
        while i < self.lists.len()
            invariant
                i <= self.lists@.len(),
                find_list(self.lists@, list_name@) == find_list(
                    self.lists@.subrange(i as int, self.lists@.len() as int),
                    list_name@,
                ),
            decreases self.lists.len() - i,
        {
            let ghost rest = self.lists@.subrange(i as int, self.lists@.len() as int);
            assert(rest.drop_first() =~= self.lists@.subrange(i + 1, self.lists@.len() as int));
            assert(rest[0] == self.lists@[i as int]);
            if crate::json::str_eq(self.lists[i].0.as_str(), list_name) {
                let p = lowercase(prefix);
                return filter_prefixed(&self.lists[i].1, p.as_str());
            }
            i = i + 1;
        }
        CompletionResult::empty()
    }

    /// The entry before `current` in the history (the newest when `current`
    /// is `None`), with its index.
    pub fn history_up(&self, current_index: Option<usize>) -> (r: Option<(String, usize)>)
        requires
            current_index matches Some(i) ==> i <= self.history().len(),
        ensures
            self.history().len() == 0 ==> r is None,
            self.history().len() > 0 ==> {
                let idx: int = match current_index {
                    None => self.history().len() - 1,
                    Some(i) => if i > 0 {
                        i - 1
                    } else {
                        0
                    },
                };
                r matches Some(p) && p.1 == idx && p.0@ == self.history()[idx]
            },
    {
        let n = self.history.len();
        if n == 0 {
            return None;
        }
        let index = match current_index {
            None => n - 1,
            Some(i) => if i > 0 {
                i - 1
            } else {
                0
            },
        };
        assert(views(self.history@)[index as int] == self.history@[index as int]@);
        Some((String::from_str(self.history[index].as_str()), index))
    }

    /// The entry after `current` in the history, with its index; none after
    /// the newest.
    pub fn history_down(&self, current_index: Option<usize>) -> (r: Option<(String, usize)>)
        ensures
            match current_index {
                Some(i) if i + 1 < self.history().len() => r matches Some(p) && p.1 == i + 1
                    && p.0@ == self.history()[i + 1],
                _ => r is None,
            },
    {
        let n = self.history.len();
        if n == 0 {
            return None;
        }
        match current_index {
            Some(i) => {
                if i < n - 1 {
                    assert(views(self.history@)[i + 1] == self.history@[i + 1]@);
                    Some((String::from_str(self.history[i + 1].as_str()), i + 1))
                } else {
                    None
                }
            },
            None => None,
        }
    }
}

/// The items of `items` whose lower-case form starts with `prefix`, in order.
pub fn filter_prefixed(items: &Vec<String>, prefix: &str) -> (r: CompletionResult)
    ensures
        r@ == prefixed(views(items@), prefix@),
        r.selected == 0,
{
    let p = chars_of(prefix);
    let ghost iv = views(items@);
    let mut out: Vec<CompletionCandidate> = Vec::new();
    let mut i: usize = 0;
    while i < items.len()
        invariant
            i <= items@.len(),
            iv == views(items@),
            p@ == prefix@,
            candidate_views(out@) == prefixed(iv.take(i as int), prefix@),
        decreases items.len() - i,
    {
        proof {
            let s = iv.take(i + 1);
            assert(s.drop_last() =~= iv.take(i as int));
            assert(s.last() == items@[i as int]@);
        }
        let low = lowercase(items[i].as_str());
        let lc = chars_of(low.as_str());
        if crate::text::matches_at_exec(lc.as_slice(), 0, p.as_slice()) {
            let cand = CompletionCandidate { text: String::from_str(items[i].as_str()), description: None };
            assert(candidate_views(out@.push(cand)) =~= candidate_views(out@).push(cand.view()));
            out.push(cand);
        } else {
            assert(candidate_views(out@) =~= candidate_views(out@) + seq![]);
        }
        i = i + 1;
    }
    assert(iv.take(i as int) =~= iv);
    CompletionResult { candidates: out, selected: 0 }
}

fn first_key(kept: &Vec<(String, Vec<String>)>) -> (r: &str)
    requires
        kept@.len() >= 1,
    ensures
        r@ == kept@[0].0@,
{
    kept[0].0.as_str()
}

proof fn lemma_find_list_push(ls: Seq<(String, Vec<String>)>, e: (String, Vec<String>), name: Seq<char>)
    ensures
        find_list(ls.push(e), name) == if find_list(ls, name) is Some {
            find_list(ls, name)
        } else if e.0@ == name {
            Some(views(e.1@))
        } else {
            None
        },
    decreases ls.len(),
{
    if ls.len() > 0 {
        assert(ls.push(e)[0] == ls[0]);
        assert(ls.push(e).drop_first() =~= ls.drop_first().push(e));
        lemma_find_list_push(ls.drop_first(), e, name);
    } else {
        assert(ls.push(e).drop_first() =~= Seq::<(String, Vec<String>)>::empty());
        assert(ls.push(e)[0] == e);
        assert(find_list(Seq::<(String, Vec<String>)>::empty(), name) is None);
    }
}

proof fn lemma_filter_len(h: Seq<Seq<char>>, c: Seq<char>)
    ensures
        without(h, c).len() <= h.len(),
    decreases h.len(),
{
    if h.len() > 0 {
        lemma_filter_len(h.drop_last(), c);
    }
}

/// Position of the last space in `s`.
pub open spec fn last_space(s: Seq<char>) -> Option<int>
    decreases s.len(),
{
    if s.len() == 0 {
        None
    } else if s.last() == ' ' {
        Some(s.len() - 1)
    } else {
        last_space(s.drop_last())
    }
}

/// The command line after completing its last word with `text`.
pub open spec fn applied(content: Seq<char>, text: Seq<char>) -> Seq<char> {
    if words(content).len() == 0 {
        text
    } else if ends_with_char(content, ' ') {
        content + text
    } else {
        match last_space(content) {
            Some(p) => content.subrange(0, p + 1) + text,
            None => text,
        }
    }
}

/// The command line being edited, with its completion popup and history position.
#[derive(Debug, Clone, PartialEq, Eq)]
pub struct CommandBufferState {
    /// The command text.
    pub content: String,
    /// The cursor, in characters.
    pub cursor: usize,
    /// The completion popup, while one is shown.
    pub completion: Option<CompletionResult>,
    /// The history entry shown, while navigating the history.
    pub history_index: Option<usize>,
    /// The text typed before history navigation began.
    pub saved_text: Option<String>,
}

impl CommandBufferState {
    pub open spec fn wf(&self) -> bool {
        self.cursor <= self.content@.len()
    }

    pub fn new() -> (r: CommandBufferState)
        ensures
            r.wf(),
            r.content@ == Seq::<char>::empty(),
            r.cursor == 0,
            r.completion is None,
            r.history_index is None,
            r.saved_text is None,
    {
        CommandBufferState {
            content: String::new(),
            cursor: 0,
            completion: None,
            history_index: None,
            saved_text: None,
        }
    }

    /// Inserts `c` at the cursor; closes the popup and leaves the history.
    pub fn with_char(self, c: char) -> (r: CommandBufferState)
        requires
            self.wf(),
            self.content@.len() + 1 < usize::MAX,
        ensures
            r.wf(),
            r.content@ == self.content@.subrange(0, self.cursor as int).push(c)
                + self.content@.subrange(self.cursor as int, self.content@.len() as int),
            r.cursor == self.cursor + 1,
            r.completion is None,
            r.history_index is None,
            r.saved_text == self.saved_text,
    {
        let mut v = chars_of(self.content.as_str());
        v.insert(self.cursor, c);
        let r = CommandBufferState {
            content: string_from(v.as_slice()),
            cursor: self.cursor + 1,
            completion: None,
            history_index: None,
            saved_text: self.saved_text,
        };
        assert(r.content@ =~= self.content@.subrange(0, self.cursor as int).push(c)
            + self.content@.subrange(self.cursor as int, self.content@.len() as int));
        r
    }

    /// Deletes the character before the cursor, if there is one.
    pub fn delete_char(self) -> (r: CommandBufferState)
        requires
            self.wf(),
        ensures
            r.wf(),
            self.cursor > 0 ==> {
                &&& r.content@ == self.content@.remove(self.cursor - 1)
                &&& r.cursor == self.cursor - 1
                &&& r.completion is None
                &&& r.history_index is None
                &&& r.saved_text == self.saved_text
            },
            self.cursor == 0 ==> r == self,
    {
        if self.cursor > 0 {
            let mut v = chars_of(self.content.as_str());
            v.remove(self.cursor - 1);
            CommandBufferState {
                content: string_from(v.as_slice()),
                cursor: self.cursor - 1,
                completion: None,
                history_index: None,
                saved_text: self.saved_text,
            }
        } else {
            self
        }
    }

    pub fn move_left(self) -> (r: CommandBufferState)
        requires
            self.wf(),
        ensures
            r.wf(),
            r.content == self.content,
            r.cursor == if self.cursor > 0 { self.cursor - 1 } else { 0 },
            r.completion is None,
            r.history_index == self.history_index,
            r.saved_text == self.saved_text,
    {
        let cursor = if self.cursor > 0 { self.cursor - 1 } else { 0 };
        CommandBufferState { cursor, completion: None, ..self }
    }

    pub fn move_right(self) -> (r: CommandBufferState)
        requires
            self.wf(),
        ensures
            r.wf(),
            r.content == self.content,
            r.cursor == if self.cursor < self.content@.len() { self.cursor + 1 } else { self.cursor as int },
            r.completion is None,
            r.history_index == self.history_index,
            r.saved_text == self.saved_text,
    {
        let n = self.content.as_str().unicode_len();
        let cursor = if self.cursor < n { self.cursor + 1 } else { self.cursor };
        CommandBufferState { cursor, completion: None, ..self }
    }

    pub fn move_start(self) -> (r: CommandBufferState)
        requires
            self.wf(),
        ensures
            r.wf(),
            r.content == self.content,
            r.cursor == 0,
            r.completion is None,
            r.history_index == self.history_index,
            r.saved_text == self.saved_text,
    {
        CommandBufferState { cursor: 0, completion: None, ..self }
    }

    pub fn move_end(self) -> (r: CommandBufferState)
        requires
            self.wf(),
        ensures
            r.wf(),
            r.content == self.content,
            r.cursor == self.content@.len(),
            r.completion is None,
            r.history_index == self.history_index,
            r.saved_text == self.saved_text,
    {
        let n = self.content.as_str().unicode_len();
        CommandBufferState { cursor: n, completion: None, ..self }
    }

    /// Empties the line and forgets the popup and the history position.
    pub fn clear(self) -> (r: CommandBufferState)
        ensures
            r.wf(),
            r.content@ == Seq::<char>::empty(),
            r.cursor == 0,
            r.completion is None,
            r.history_index is None,
            r.saved_text is None,
    {
        CommandBufferState::new()
    }

    /// Shows `result` as the completion popup, unless it is empty.
    pub fn with_completion(self, result: CompletionResult) -> (r: CommandBufferState)
        ensures
            result@.len() > 0 ==> r == (CommandBufferState { completion: Some(result), ..self }),
            result@.len() == 0 ==> r == self,
    {
        if !result.is_empty() {
            CommandBufferState { completion: Some(result), ..self }
        } else {
            self
        }
    }

    /// Replaces the word being completed by the selected candidate, moves the
    /// cursor to the end and closes the popup.
    pub fn apply_completion(self) -> (r: CommandBufferState)
        requires
            self.wf(),
        ensures
            r.wf(),
            match self.completion {
                Some(c) if c.selected < c@.len() => {
                    &&& r.content@ == applied(self.content@, c@[c.selected as int].0)
                    &&& r.cursor == r.content@.len()
                    &&& r.completion is None
                    &&& r.history_index == self.history_index
                    &&& r.saved_text == self.saved_text
                },
                _ => r == self,
            },
    {
        let text: String = match &self.completion {
            Some(c) => match c.selected_text() {
                Some(t) => String::from_str(t),
                None => {
                    return self;
                },
            },
            None => {
                return self;
            },
        };
        let cv = chars_of(self.content.as_str());
        let tv = chars_of(text.as_str());
        let ws = split_words(cv.as_slice());
        let mut out: Vec<char>;
        if ws.len() == 0 {
            out = tv;
        } else if cv.len() > 0 && cv[cv.len() - 1] == ' ' {
            out = cv;
            extend_chars(&mut out, tv.as_slice());
        } else {
            let mut i = cv.len();
            assert(cv@.subrange(0, i as int) =~= cv@);
            while i > 0 && cv[i - 1] != ' '
                invariant
                    i <= cv@.len(),
                    last_space(cv@) == last_space(cv@.subrange(0, i as int)),
                decreases i,
            {
                let ghost t = cv@.subrange(0, i as int);
                assert(t.drop_last() =~= cv@.subrange(0, i - 1));
                i = i - 1;
            }
            if i > 0 {
                let ghost t = cv@.subrange(0, i as int);
                assert(t.last() == ' ');
                out = crate::text::subvec(cv.as_slice(), 0, i);
                extend_chars(&mut out, tv.as_slice());
            } else {
                assert(cv@.subrange(0, 0) =~= Seq::<char>::empty());
                out = tv;
            }
        }
        let n = out.len();
        let r = CommandBufferState {
            content: string_from(out.as_slice()),
            cursor: n,
            completion: None,
            history_index: self.history_index,
            saved_text: self.saved_text,
        };
        r
    }

    /// Replaces the line by `text` with the cursor at its end; closes the popup.
    pub fn set_text(self, text: String) -> (r: CommandBufferState)
        ensures
            r.wf(),
            r.content@ == text@,
            r.cursor == text@.len(),
            r.completion is None,
            r.history_index == self.history_index,
            r.saved_text == self.saved_text,
    {
        let n = text.as_str().unicode_len();
        CommandBufferState { cursor: n, content: text, completion: None, ..self }
    }
}

impl Default for CommandBufferState {
    fn default() -> (r: CommandBufferState)
        ensures
            r.wf(),
            r.content@ == Seq::<char>::empty(),
            r.cursor == 0,
            r.completion is None,
            r.history_index is None,
            r.saved_text is None,
    {
        CommandBufferState::new()
    }
}

impl Default for CompletionContext {
    fn default() -> (r: CompletionContext)
        ensures
            r.history() == Seq::<Seq<char>>::empty(),
            r.commands().len() == builtin_commands().len(),
    {
        CompletionContext::new()
    }
}

} // verus!
