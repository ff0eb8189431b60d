//! Small pieces of user-interface state.
use vstd::prelude::*;

verus! {

/// The list of configured servers offered for connecting, and the highlighted one.
#[derive(Debug, Clone, PartialEq, Eq)]
pub struct ServerSelection {
    servers: Vec<String>,
    selected: usize,
}

impl ServerSelection {
    /// The server names offered.
    pub closed spec fn names(&self) -> Seq<String> {
        self.servers@
    }

    /// The position of the highlighted server.
    pub closed spec fn index(&self) -> int {
        self.selected as int
    }

    pub fn new(servers: Vec<String>) -> (r: ServerSelection)
        ensures
            r.names() == servers@,
            r.index() == 0,
    {
        ServerSelection { servers, selected: 0 }
    }

    pub fn servers(&self) -> (r: &[String])
        ensures
            r@ == self.names(),
    {
        self.servers.as_slice()
    }

    pub fn selected(&self) -> (r: usize)
        ensures
            r == self.index(),
    {
        self.selected
    }

    /// Highlights the next server, wrapping around after the last.
    pub fn select_next(&mut self)
        ensures
            final(self).names() == old(self).names(),
            old(self).names().len() > 0 && old(self).index() + 1 < old(self).names().len()
                ==> final(self).index() == old(self).index() + 1,
            old(self).names().len() > 0 && old(self).index() + 1 >= old(self).names().len()
                ==> final(self).index() == 0,
            old(self).names().len() == 0 ==> final(self).index() == old(self).index(),
    {
        let n = self.servers.len();
        if n > 0 {
            if self.selected < n - 1 {
                self.selected = self.selected + 1;
            } else {
                self.selected = 0;
            }
        }
    }

    /// Highlights the previous server, wrapping around before the first.
    pub fn select_prev(&mut self)
        ensures
            final(self).names() == old(self).names(),
            old(self).names().len() > 0 && old(self).index() > 0 ==> final(self).index()
                == old(self).index() - 1,
            old(self).names().len() > 0 && old(self).index() == 0 ==> final(self).index()
                == old(self).names().len() - 1,
            old(self).names().len() == 0 ==> final(self).index() == old(self).index(),
    {
        let n = self.servers.len();
        if n > 0 {
            if self.selected > 0 {
                self.selected = self.selected - 1;
            } else {
                self.selected = n - 1;
            }
        }
    }

    /// The highlighted server's name.
    pub fn current(&self) -> (r: Option<&String>)
        ensures
            self.index() < self.names().len() ==> r == Some(&self.names()[self.index() as int]),
            self.index() >= self.names().len() ==> r is None,
    {
        if self.selected < self.servers.len() {
            Some(&self.servers[self.selected])
        } else {
            None
        }
    }
}

/// How often the interface wakes up when no key is pressed.
#[derive(Debug, Clone, Copy, PartialEq, Eq)]
pub struct EventLoop {
    tick_rate_ms: u64,
}

impl EventLoop {
    pub closed spec fn rate(&self) -> u64 {
        self.tick_rate_ms
    }

    /// An event loop that ticks every 100 ms.
    pub fn new() -> (r: EventLoop)
        ensures
            r.rate() == 100,
    {
        EventLoop { tick_rate_ms: 100 }
    }

    /// The same loop with a tick every `rate_ms` milliseconds.
    pub fn with_tick_rate(self, rate_ms: u64) -> (r: EventLoop)
        ensures
            r.rate() == rate_ms,
    {
        EventLoop { tick_rate_ms: rate_ms }
    }

    pub fn tick_rate_ms(&self) -> (r: u64)
        ensures
            r == self.rate(),
    {
        self.tick_rate_ms
    }
}

/// The renderer of the interface; it holds no state of its own.
#[derive(Debug, Default)]
pub struct UI;

impl UI {
    pub fn new() -> (r: UI) {
        UI
    }
}

/// A configured server: its name and the URL of its event stream.
#[derive(Debug, Clone, PartialEq, Eq)]
pub struct McpServerConfig {
    pub name: String,
    pub url: String,
}

/// The URL of the first server in `servers` called `name`.
pub open spec fn config_url(servers: Seq<McpServerConfig>, name: Seq<char>) -> Option<Seq<char>>
    decreases servers.len(),
{
    if servers.len() == 0 {
        None
    } else if servers[0].name@ == name {
        Some(servers[0].url@)
    } else {
        config_url(servers.drop_first(), name)
    }
}

/// The configuration: the servers that can be connected to by name.
#[derive(Debug, Clone, PartialEq, Eq)]
pub struct Config {
    pub mcp_servers: Vec<McpServerConfig>,
}

impl Config {
    /// The URL of the first server called `name`.
    pub fn url_of(&self, name: &str) -> (r: Option<&String>)
        ensures
            match r {
                Some(u) => config_url(self.mcp_servers@, name@) == Some(u@),
                None => config_url(self.mcp_servers@, name@) is None,
            },
    {
        let ghost ss = self.mcp_servers@;
        let mut i: usize = 0;
        assert(ss.subrange(0, ss.len() as int) =~= ss);
        while i < self.mcp_servers.len()
            invariant
                ss == self.mcp_servers@,
                i <= ss.len(),
                config_url(ss, name@) == config_url(ss.subrange(i as int, ss.len() as int), name@),
            decreases self.mcp_servers.len() - i,
        {
            let ghost rest = ss.subrange(i as int, ss.len() as int);
            assert(rest.drop_first() =~= ss.subrange(i + 1, ss.len() as int));
            assert(rest[0] == ss[i as int]);
            if crate::json::str_eq(self.mcp_servers[i].name.as_str(), name) {
                return Some(&self.mcp_servers[i].url);
            }
            i = i + 1;
        }
        None
    }

    /// The names of the configured servers, in order.
    pub fn server_names(&self) -> (r: Vec<String>)
        ensures
            r@.len() == self.mcp_servers@.len(),
            forall|i: int| 0 <= i < r@.len() ==> #[trigger] r@[i]@ == self.mcp_servers@[i].name@,
    {
        let mut r: Vec<String> = Vec::new();
        let mut i: usize = 0;
        while i < self.mcp_servers.len()
            invariant
                i <= self.mcp_servers@.len(),
                r@.len() == i,
                forall|k: int| 0 <= k < i ==> #[trigger] r@[k]@ == self.mcp_servers@[k].name@,
            decreases self.mcp_servers.len() - i,
        {
            r.push(String::from_str(self.mcp_servers[i].name.as_str()));
            i = i + 1;
        }
        r
    }
}

/// Scrolling of the output pane: the first line shown, whether the view
/// follows new output, and the pane's height (two rows of it are borders).
#[derive(Debug, Clone, Copy, PartialEq, Eq, Structural)]
pub struct ScrollState {
    pub offset: u16,
    pub autoscroll: bool,
    pub height: u16,
}

impl ScrollState {
    pub open spec fn view_rows(&self) -> int {
        if self.height >= 2 {
            self.height - 2
        } else {
            0
        }
    }

    /// The largest offset for `content_len` lines (counted as `u16`, saturating).
    pub open spec fn max_offset(&self, content_len: u16) -> int {
        if content_len >= self.view_rows() {
            content_len - self.view_rows()
        } else {
            0
        }
    }

    /// A pane of no height that follows new output.
    pub fn new() -> (r: ScrollState)
        ensures
            r == (ScrollState { offset: 0, autoscroll: true, height: 0 }),
    {
        ScrollState { offset: 0, autoscroll: true, height: 0 }
    }

    /// Rows of the pane inside its borders.
    pub fn view_height(&self) -> (r: u16)
        ensures
            r == self.view_rows(),
    {
        if self.height >= 2 {
            self.height - 2
        } else {
            0
        }
    }

    /// The offset that shows the last line of `content_len` lines.
    pub fn max_scroll_offset(&self, content_len: u16) -> (r: u16)
        ensures
            r == self.max_offset(content_len),
    {
        let v = self.view_height();
        if content_len >= v {
            content_len - v
        } else {
            0
        }
    }

    /// Moves to the bottom when the view follows new output.
    pub fn scroll_to_bottom(&mut self, content_len: u16)
        ensures
            final(self).autoscroll == old(self).autoscroll,
            final(self).height == old(self).height,
            final(self).offset == if old(self).autoscroll {
                old(self).max_offset(content_len)
            } else {
                old(self).offset as int
            },
    {
        if self.autoscroll {
            self.offset = self.max_scroll_offset(content_len);
        }
    }

    /// The pane was resized to `height` rows.
    pub fn set_output_height(&mut self, height: u16, content_len: u16)
        ensures
            final(self).height == height,
            final(self).autoscroll == old(self).autoscroll,
            final(self).offset == if old(self).autoscroll {
                (ScrollState { height, ..*old(self) }).max_offset(content_len)
            } else {
                old(self).offset as int
            },
    {
        self.height = height;
        self.scroll_to_bottom(content_len);
    }

    /// Scrolls up one line; the view stops following new output.
    pub fn scroll_up(&mut self)
        ensures
            !final(self).autoscroll,
            final(self).height == old(self).height,
            final(self).offset == if old(self).offset > 0 { old(self).offset - 1 } else { 0 },
    {
        self.autoscroll = false;
        if self.offset > 0 {
            self.offset = self.offset - 1;
        }
    }

    /// Scrolls down one line; at the bottom the view follows new output again.
    pub fn scroll_down(&mut self, content_len: u16)
        ensures
            final(self).height == old(self).height,
            final(self).offset == if old(self).offset < old(self).max_offset(content_len) {
                old(self).offset + 1
            } else {
                old(self).offset as int
            },
            final(self).autoscroll == (final(self).offset >= old(self).max_offset(content_len)),
    {
        self.autoscroll = false;
        let max = self.max_scroll_offset(content_len);
        if self.offset < max {
            self.offset = self.offset + 1;
        }
        if self.offset >= max {
            self.autoscroll = true;
        }
    }

    /// Jumps to the bottom and follows new output again.
    pub fn jump_to_bottom(&mut self, content_len: u16)
        ensures
            final(self).autoscroll,
            final(self).height == old(self).height,
            final(self).offset == old(self).max_offset(content_len),
    {
        self.autoscroll = true;
        self.scroll_to_bottom(content_len);
    }
}

impl Default for EventLoop {
    fn default() -> (r: EventLoop)
        ensures
            r.rate() == 100,
    {
        EventLoop::new()
    }
}

} // verus!
