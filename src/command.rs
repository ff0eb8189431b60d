//! The colon-command language of the user interface.
use vstd::prelude::*;
use crate::text::{chars_of, extend_chars, split_words, string_from, views, vviews, words};

verus! {

/// Why a command line was refused.
#[derive(Debug, PartialEq, Eq)]
pub enum CommandError {
    Unknown(String),
    InvalidSyntax(String),
    Empty,
}

/// A parsed command.
#[derive(Debug, PartialEq, Eq)]
pub enum Command {
    Quit,
    Clear,
    Echo(String),
    Help,
    McpConnect(Option<String>),
    McpList,
    McpTools,
    McpTool(String),
    McpRun(Option<String>, Vec<String>),
    McpStatus,
    Mouse(bool),
}

/// A command as contracts see it.
pub enum CommandView {
    Quit,
    Clear,
    Echo(Seq<char>),
    Help,
    McpConnect(Option<Seq<char>>),
    McpList,
    McpTools,
    McpTool(Seq<char>),
    McpRun(Option<Seq<char>>, Seq<Seq<char>>),
    McpStatus,
    Mouse(bool),
}

/// A refusal as contracts see it.
pub enum CommandErrorView {
    Unknown(Seq<char>),
    InvalidSyntax(Seq<char>),
    Empty,
}

impl Command {
    pub open spec fn view(&self) -> CommandView {
        match self {
            Command::Quit => CommandView::Quit,
            Command::Clear => CommandView::Clear,
            Command::Echo(s) => CommandView::Echo(s@),
            Command::Help => CommandView::Help,
            Command::McpConnect(n) => CommandView::McpConnect(
                match n {
                    Some(s) => Some(s@),
                    None => None,
                },
            ),
            Command::McpList => CommandView::McpList,
            Command::McpTools => CommandView::McpTools,
            Command::McpTool(s) => CommandView::McpTool(s@),
            Command::McpRun(n, args) => CommandView::McpRun(
                match n {
                    Some(s) => Some(s@),
                    None => None,
                },
                views(args@),
            ),
            Command::McpStatus => CommandView::McpStatus,
            Command::Mouse(b) => CommandView::Mouse(*b),
        }
    }
}

impl CommandError {
    pub open spec fn view(&self) -> CommandErrorView {
        match self {
            CommandError::Unknown(s) => CommandErrorView::Unknown(s@),
            CommandError::InvalidSyntax(s) => CommandErrorView::InvalidSyntax(s@),
            CommandError::Empty => CommandErrorView::Empty,
        }
    }

    /// The text shown to the user for this refusal.
    pub fn message(&self) -> (r: String)
        ensures
            r@ == match self.view() {
                CommandErrorView::Unknown(s) => "Unknown command: "@ + s,
                CommandErrorView::InvalidSyntax(s) => "Invalid syntax: "@ + s,
                CommandErrorView::Empty => "Empty command"@,
            },
    {
        match self {
            CommandError::Unknown(s) => crate::text::join2("Unknown command: ", s.as_str()),
            CommandError::InvalidSyntax(s) => crate::text::join2("Invalid syntax: ", s.as_str()),
            CommandError::Empty => String::from_str("Empty command"),
        }
    }
}

/// `ws` joined with single spaces.
pub open spec fn join_words(ws: Seq<Seq<char>>) -> Seq<char>
    decreases ws.len(),
{
    if ws.len() == 0 {
        seq![]
    } else if ws.len() == 1 {
        ws[0]
    } else {
        join_words(ws.drop_last()) + seq![' '] + ws.last()
    }
}

/// The meaning of a command line made of the words `ws`.
pub open spec fn parse_words(ws: Seq<Seq<char>>) -> Result<CommandView, CommandErrorView> {
    if ws.len() == 0 {
        Err(CommandErrorView::Empty)
    } else {
        let w = ws[0];
        let n = ws.len();
        if n == 1 && (w == "q"@ || w == "quit"@) {
            Ok(CommandView::Quit)
        } else if n == 1 && w == "clear"@ {
            Ok(CommandView::Clear)
        } else if n == 1 && (w == "h"@ || w == "help"@) {
            Ok(CommandView::Help)
        } else if w == "echo"@ {
            if n == 1 {
                Err(CommandErrorView::InvalidSyntax("echo requires an argument"@))
            } else {
                Ok(CommandView::Echo(join_words(ws.drop_first())))
            }
        } else if w == "mcp"@ && n >= 2 && (ws[1] == "cn"@ || ws[1] == "connect"@) && n <= 3 {
            Ok(CommandView::McpConnect(if n == 3 { Some(ws[2]) } else { None }))
        } else if w == "mcp"@ && n == 2 && ws[1] == "list"@ {
            Ok(CommandView::McpList)
        } else if w == "mcp"@ && n == 2 && ws[1] == "tools"@ {
            Ok(CommandView::McpTools)
        } else if w == "mcp"@ && n == 3 && ws[1] == "tool"@ {
            Ok(CommandView::McpTool(ws[2]))
        } else if w == "mcp"@ && n >= 2 && ws[1] == "run"@ {
            if n == 2 {
                Ok(CommandView::McpRun(None, seq![]))
            } else {
                Ok(CommandView::McpRun(Some(ws[2]), ws.subrange(3, n as int)))
            }
        } else if w == "mcp"@ && n == 2 && ws[1] == "status"@ {
            Ok(CommandView::McpStatus)
        } else if w == "mouse"@ && n == 2 && ws[1] == "on"@ {
            Ok(CommandView::Mouse(true))
        } else if w == "mouse"@ && n == 2 && ws[1] == "off"@ {
            Ok(CommandView::Mouse(false))
        } else {
            Err(CommandErrorView::Unknown(w))
        }
    }
}

/// The word `w` is the text `lit`.
pub fn word_is(w: &Vec<char>, lit: &str) -> (r: bool)
    ensures
        r == (w@ == lit@),
{
    let s = string_from(w.as_slice());
    crate::json::str_eq(s.as_str(), lit)
}

fn join_exec(ws: &Vec<Vec<char>>, from: usize) -> (r: String)
    requires
        from <= ws@.len(),
    ensures
        r@ == join_words(vviews(ws@).subrange(from as int, ws@.len() as int)),
{
    let mut v: Vec<char> = Vec::new();
    let mut i = from;
    while i < ws.len()
        invariant
            from <= i <= ws@.len(),
            v@ == join_words(vviews(ws@).subrange(from as int, i as int)),
        decreases ws.len() - i,
    {
        let ghost t = vviews(ws@).subrange(from as int, i + 1);
        assert(t.drop_last() =~= vviews(ws@).subrange(from as int, i as int));
        assert(t.last() == ws@[i as int]@);
        if i > from {
            v.push(' ');
        } else {
            assert(t =~= seq![ws@[i as int]@]);
        }
        extend_chars(&mut v, ws[i].as_slice());
        i = i + 1;
    }
    string_from(v.as_slice())
}

impl Command {
    /// Parses a command line.
    pub fn parse(input: &str) -> (r: Result<Command, CommandError>)
        ensures
            match r {
                Ok(c) => parse_words(words(input@)) == Ok::<CommandView, CommandErrorView>(c.view()),
                Err(e) => parse_words(words(input@)) == Err::<CommandView, CommandErrorView>(e.view()),
            },
    {
        let c = chars_of(input);
        let ws = split_words(c.as_slice());
        let ghost wv = vviews(ws@);
        assert(wv == words(input@));
        let n = ws.len();
        if n == 0 {
            return Err(CommandError::Empty);
        }
        assert(wv[0] == ws@[0]@);
        let w = &ws[0];
        if n == 1 && (word_is(w, "q") || word_is(w, "quit")) {
            return Ok(Command::Quit);
        }
        if n == 1 && word_is(w, "clear") {
            return Ok(Command::Clear);
        }
        if n == 1 && (word_is(w, "h") || word_is(w, "help")) {
            return Ok(Command::Help);
        }
        if word_is(w, "echo") {
            if n == 1 {
                return Err(CommandError::InvalidSyntax(String::from_str("echo requires an argument")));
            }
            let t = join_exec(&ws, 1);
            assert(wv.drop_first() =~= wv.subrange(1, n as int));
            return Ok(Command::Echo(t));
        }
        let is_mcp = word_is(w, "mcp");
        if is_mcp && n >= 2 {
            assert(wv[1] == ws@[1]@);
            let w1 = &ws[1];
            if (word_is(w1, "cn") || word_is(w1, "connect")) && n <= 3 {
                if n == 3 {
                    assert(wv[2] == ws@[2]@);
                    return Ok(Command::McpConnect(Some(string_from(ws[2].as_slice()))));
                }
                return Ok(Command::McpConnect(None));
            }
            if n == 2 && word_is(w1, "list") {
                return Ok(Command::McpList);
            }
            if n == 2 && word_is(w1, "tools") {
                return Ok(Command::McpTools);
            }
            if n == 3 && word_is(w1, "tool") {
                assert(wv[2] == ws@[2]@);
                return Ok(Command::McpTool(string_from(ws[2].as_slice())));
            }
            if word_is(w1, "run") {
                if n == 2 {
                    let empty: Vec<String> = Vec::new();
                    assert(views(empty@) =~= seq![]);
                    return Ok(Command::McpRun(None, empty));
                }
                assert(wv[2] == ws@[2]@);
                let tool = string_from(ws[2].as_slice());
                let mut args: Vec<String> = Vec::new();
                let mut i: usize = 3;
                while i < n
                    invariant
                        3 <= i <= n == ws@.len(),
                        wv == vviews(ws@),
                        views(args@) == wv.subrange(3, i as int),
                    decreases n - i,
                {
                    let s = string_from(ws[i].as_slice());
                    proof {
                        assert(views(args@.push(s)) =~= views(args@).push(s@));
                        assert(wv.subrange(3, i + 1) =~= wv.subrange(3, i as int).push(wv[i as int]));
                    }
                    args.push(s);
                    i = i + 1;
                }
                return Ok(Command::McpRun(Some(tool), args));
            }
            if n == 2 && word_is(w1, "status") {
                return Ok(Command::McpStatus);
            }
        }
        if word_is(w, "mouse") && n == 2 {
            assert(wv[1] == ws@[1]@);
            if word_is(&ws[1], "on") {
                return Ok(Command::Mouse(true));
            }
            if word_is(&ws[1], "off") {
                return Ok(Command::Mouse(false));
            }
        }
        Err(CommandError::Unknown(string_from(w.as_slice())))
    }
}

} // verus!
