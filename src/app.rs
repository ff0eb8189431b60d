//! The state machine of the interactive front end: modes, key handling,
//! command execution, and what the client's events do to the screen.
//!
//! The code that owns the terminal hands it keys and client events and
//! carries out the effects it returns (connect, list tools, call a tool).
use vstd::prelude::*;
use crate::args::args_to_json;
use crate::command::{parse_words, Command, CommandView};
use crate::completion::{CommandBufferState, CompletionContext, MAX_HISTORY};
use crate::events::{McpClientEvent, ToolInfo};
use crate::json::{str_eq, Json};
use crate::mode::Mode;
use crate::state::{bounded, Buffer, OutputLog};
use crate::text::{join2, push_decimal, chars_of, string_from, words};
use crate::tool_formatter::{format_tool_compact, format_tool_detailed};
use crate::ui_state::{config_url, Config, ScrollState, ServerSelection};

verus! {

/// A key, as the interface distinguishes them.
#[derive(Debug, Clone, Copy, PartialEq, Eq)]
pub enum Key {
    Char(char),
    Enter,
    Esc,
    Backspace,
    Left,
    Right,
    Home,
    End,
    Up,
    Down,
    PageUp,
    PageDown,
    Tab,
    Other,
}

/// Work for the client that the owner of the network carries out.
#[derive(Debug, PartialEq)]
pub enum Effect {
    Connect { url: String, name: String },
    ListTools,
    CallTool { name: String, arguments: Json },
}

/// The tool list offered for running, and the highlighted entry.
#[derive(Debug, Clone, PartialEq, Eq)]
pub struct ToolSelection {
    tools: Vec<String>,
    selected: usize,
}

impl ToolSelection {
    /// The tool names offered.
    pub closed spec fn names(&self) -> Seq<String> {
        self.tools@
    }

    /// The position of the highlighted tool.
    pub closed spec fn index(&self) -> int {
        self.selected as int
    }

    pub fn tools(&self) -> (r: &[String])
        ensures
            r@ == self.names(),
    {
        self.tools.as_slice()
    }

    pub fn selected(&self) -> (r: usize)
        ensures
            r == self.index(),
    {
        self.selected
    }
}

/// `e` connects to `url` under the name `name`.
pub open spec fn is_connect(e: Effect, url: Seq<char>, name: Seq<char>) -> bool {
    match e {
        Effect::Connect { url: u, name: n } => u@ == url && n@ == name,
        _ => false,
    }
}

/// `e` calls tool `name` with an empty argument object.
pub open spec fn is_bare_call(e: Effect, name: Seq<char>) -> bool {
    match e {
        Effect::CallTool { name: n, arguments: Json::Object(a) } => n@ == name && a@.len() == 0,
        _ => false,
    }
}

/// The state of the interactive front end.
pub struct App {
    mode: Mode,
    output: OutputLog,
    input_buffer: Buffer,
    command_buffer: CommandBufferState,
    completion: CompletionContext,
    status: String,
    quit: bool,
    config: Config,
    server_selection: Option<ServerSelection>,
    tool_selection: Option<ToolSelection>,
    mouse_enabled: bool,
    tools: Vec<ToolInfo>,
    scroll: ScrollState,
}

impl App {
    pub closed spec fn wf(&self) -> bool {
        &&& self.output.wf()
        &&& self.input_buffer.wf()
        &&& self.command_buffer.wf()
        &&& self.completion.history().len() <= MAX_HISTORY
    }

    pub closed spec fn mode_v(&self) -> Mode {
        self.mode
    }

    pub closed spec fn lines_v(&self) -> Seq<Seq<char>> {
        self.output@
    }

    pub closed spec fn status_v(&self) -> Seq<char> {
        self.status@
    }

    pub closed spec fn quit_v(&self) -> bool {
        self.quit
    }

    pub closed spec fn mouse_v(&self) -> bool {
        self.mouse_enabled
    }

    pub closed spec fn tools_v(&self) -> Seq<crate::events::ToolView> {
        crate::events::tool_views(self.tools@)
    }

    pub closed spec fn selecting(&self) -> bool {
        self.server_selection is Some || self.tool_selection is Some
    }

    pub closed spec fn scroll_v(&self) -> ScrollState {
        self.scroll
    }

    pub closed spec fn input_v(&self) -> Buffer {
        self.input_buffer
    }

    pub closed spec fn command_v(&self) -> CommandBufferState {
        self.command_buffer
    }

    pub closed spec fn servers_v(&self) -> Seq<crate::ui_state::McpServerConfig> {
        self.config.mcp_servers@
    }

    /// A front end in NORMAL mode with a greeting, for the servers of `config`.
    pub fn new(config: Config) -> (r: App)
        ensures
            r.wf(),
            r.mode_v() == Mode::Normal,
            !r.quit_v(),
            r.mouse_v(),
            !r.selecting(),
            r.servers_v() == config.mcp_servers@,
            r.lines_v() == seq!["MCP Client initialized. Press 'i' for INSERT mode."@],
    {
        let names = config.server_names();
        let output = OutputLog::new().with_message(
            String::from_str("MCP Client initialized. Press 'i' for INSERT mode."),
        );
        App {
            mode: Mode::Normal,
            output,
            input_buffer: Buffer::new(),
            command_buffer: CommandBufferState::new(),
            completion: CompletionContext::new().with_list(String::from_str("mcp_servers"), names),
            status: String::from_str("Ready"),
            quit: false,
            config,
            server_selection: None,
            tool_selection: None,
            mouse_enabled: true,
            tools: Vec::new(),
            scroll: ScrollState::new(),
        }
    }

    pub fn mode(&self) -> (r: Mode)
        ensures
            r == self.mode_v(),
    {
        self.mode
    }

    pub fn output(&self) -> (r: &[String])
        ensures
            crate::text::views(r@) == self.lines_v(),
    {
        self.output.lines()
    }

    pub fn scroll(&self) -> (r: &ScrollState)
        ensures
            *r == self.scroll_v(),
    {
        &self.scroll
    }

    pub fn scroll_offset(&self) -> (r: u16)
        ensures
            r == self.scroll_v().offset,
    {
        self.scroll.offset
    }

    pub fn input_buffer(&self) -> (r: &str)
        ensures
            r@ == self.input_v().text(),
    {
        self.input_buffer.content()
    }

    pub fn command_buffer(&self) -> (r: &CommandBufferState)
        ensures
            *r == self.command_v(),
    {
        &self.command_buffer
    }

    /// The cursor column of the line being edited; 0 in NORMAL mode.
    pub fn cursor_pos(&self) -> (r: usize)
        ensures
            self.mode_v() == Mode::Normal ==> r == 0,
            self.mode_v() == Mode::Insert ==> r == self.input_v().pos(),
            self.mode_v() == Mode::Command ==> r == self.command_v().cursor,
    {
        match self.mode {
            Mode::Insert => self.input_buffer.cursor(),
            Mode::Command => self.command_buffer.cursor,
            Mode::Normal => 0,
        }
    }

    pub fn status(&self) -> (r: &str)
        ensures
            r@ == self.status_v(),
    {
        self.status.as_str()
    }

    pub fn should_quit(&self) -> (r: bool)
        ensures
            r == self.quit_v(),
    {
        self.quit
    }

    pub fn server_selection(&self) -> (r: Option<&ServerSelection>) {
        self.server_selection.as_ref()
    }

    pub fn tool_selection(&self) -> (r: Option<&ToolSelection>) {
        self.tool_selection.as_ref()
    }

    pub fn mouse_enabled(&self) -> (r: bool)
        ensures
            r == self.mouse_v(),
    {
        self.mouse_enabled
    }

    pub fn available_tools(&self) -> (r: &[ToolInfo])
        ensures
            crate::events::tool_views(r@) == self.tools_v(),
    {
        self.tools.as_slice()
    }

    fn content_len(&self) -> (r: u16)
        requires
            self.output.wf(),
    {
        self.output.lines().len() as u16
    }

    /// The output pane was resized to `height` rows.
    pub fn set_output_height(&mut self, height: u16)
        requires
            old(self).wf(),
        ensures
            final(self).wf(),
            final(self).lines_v() == old(self).lines_v(),
            final(self).scroll_v().height == height,
    {
        let n = self.content_len();
        self.scroll.set_output_height(height, n);
    }

    /// Appends `line` to the output and follows it when following is on.
    fn say(&mut self, line: String)
        requires
            old(self).wf(),
        ensures
            final(self).wf(),
            final(self).lines_v() == bounded(old(self).lines_v().push(line@)),
            final(self).status == old(self).status,
            final(self).mode == old(self).mode,
            final(self).input_buffer == old(self).input_buffer,
            final(self).command_buffer == old(self).command_buffer,
            final(self).completion == old(self).completion,
            final(self).quit == old(self).quit,
            final(self).config == old(self).config,
            final(self).server_selection == old(self).server_selection,
            final(self).tool_selection == old(self).tool_selection,
            final(self).mouse_enabled == old(self).mouse_enabled,
            final(self).tools == old(self).tools,
    {
        let log = {
            let mut tmp = OutputLog::new();
            std::mem::swap(&mut tmp, &mut self.output);
            tmp
        };
        self.output = log.with_message(line);
        let n = self.content_len();
        self.scroll.scroll_to_bottom(n);
    }

    fn say_str(&mut self, line: &str)
        requires
            old(self).wf(),
        ensures
            final(self).wf(),
            final(self).lines_v() == bounded(old(self).lines_v().push(line@)),
            final(self).status == old(self).status,
            final(self).mode == old(self).mode,
            final(self).input_buffer == old(self).input_buffer,
            final(self).command_buffer == old(self).command_buffer,
            final(self).completion == old(self).completion,
            final(self).quit == old(self).quit,
            final(self).config == old(self).config,
            final(self).server_selection == old(self).server_selection,
            final(self).tool_selection == old(self).tool_selection,
            final(self).mouse_enabled == old(self).mouse_enabled,
            final(self).tools == old(self).tools,
    {
        self.say(String::from_str(line));
    }

    fn set_status(&mut self, s: &str)
        ensures
            final(self).status_v() == s@,
            final(self).output == old(self).output,
            final(self).scroll == old(self).scroll,
            final(self).mode == old(self).mode,
            final(self).input_buffer == old(self).input_buffer,
            final(self).command_buffer == old(self).command_buffer,
            final(self).completion == old(self).completion,
            final(self).quit == old(self).quit,
            final(self).config == old(self).config,
            final(self).server_selection == old(self).server_selection,
            final(self).tool_selection == old(self).tool_selection,
            final(self).mouse_enabled == old(self).mouse_enabled,
            final(self).tools == old(self).tools,
    {
        self.status = String::from_str(s);
    }

    /// What an event of the client does to the screen.
    pub fn handle_mcp_event(&mut self, event: McpClientEvent)
        requires
            old(self).wf(),
        ensures
            final(self).wf(),
            final(self).mode_v() == old(self).mode_v(),
            final(self).quit_v() == old(self).quit_v(),
            match event {
                McpClientEvent::Connected => final(self).status_v() == "MCP client connected"@
                    && final(self).lines_v() == old(self).lines_v(),
                McpClientEvent::Disconnected => final(self).status_v()
                    == "MCP client disconnected"@ && final(self).tools_v().len() == 0
                    && final(self).lines_v() == old(self).lines_v(),
                McpClientEvent::Message(m) => final(self).lines_v() == bounded(
                    old(self).lines_v().push(m@),
                ),
                McpClientEvent::Error(e) => final(self).lines_v() == bounded(
                    old(self).lines_v().push("❌ [MCP Error] "@ + e@),
                ),
                McpClientEvent::Debug(m) => final(self).lines_v() == bounded(
                    old(self).lines_v().push("🔍 "@ + m@),
                ),
                McpClientEvent::ToolsListed(ts) => final(self).tools_v()
                    == crate::events::tool_views(ts@),
            },
    {
        match event {
            McpClientEvent::Connected => self.set_status("MCP client connected"),
            McpClientEvent::Disconnected => {
                self.set_status("MCP client disconnected");
                self.tools = Vec::new();
                assert(crate::events::tool_views(self.tools@) =~= Seq::empty());
            },
            McpClientEvent::Message(m) => self.say(m),
            McpClientEvent::Error(e) => self.say(join2("❌ [MCP Error] ", e.as_str())),
            McpClientEvent::Debug(m) => self.say(join2("🔍 ", m.as_str())),
            McpClientEvent::ToolsListed(ts) => {
                self.say_str("📦 Available tools:");
                let mut names: Vec<String> = Vec::new();
                let mut i: usize = 0;
                while i < ts.len()
                    invariant
                        self.wf(),
                        i <= ts@.len(),
                        self.mode == old(self).mode,
                        self.quit == old(self).quit,
                    decreases ts.len() - i,
                {
                    let line = join2("  • ", format_tool_compact(&ts[i]).as_str());
                    self.say(line);
                    names.push(String::from_str(ts[i].name.as_str()));
                    i = i + 1;
                }
                let mut v = chars_of("Loaded ");
                push_decimal(&mut v, ts.len() as u64);
                let tail = chars_of(" tools");
                crate::text::extend_chars(&mut v, tail.as_slice());
                self.status = string_from(v.as_slice());
                let ctx = {
            let mut tmp = CompletionContext::new();
            std::mem::swap(&mut tmp, &mut self.completion);
            tmp
        };
                self.completion = ctx.with_list(String::from_str("mcp_tools"), names);
                self.tools = ts;
            },
        }
    }

    /// Connects to the configured server `name`, if there is one.
    fn connect_to(&mut self, name: &str, effects: &mut Vec<Effect>)
        requires
            old(self).wf(),
        ensures
            final(self).wf(),
            final(self).output == old(self).output,
            final(self).scroll == old(self).scroll,
            final(self).mode == old(self).mode,
            final(self).input_buffer == old(self).input_buffer,
            final(self).command_buffer == old(self).command_buffer,
            final(self).completion == old(self).completion,
            final(self).quit == old(self).quit,
            final(self).config == old(self).config,
            final(self).server_selection == old(self).server_selection,
            final(self).tool_selection == old(self).tool_selection,
            final(self).mouse_enabled == old(self).mouse_enabled,
            final(self).tools == old(self).tools,
            match config_url(old(self).servers_v(), name@) {
                Some(u) => final(effects)@.len() == old(effects)@.len() + 1 && is_connect(
                    final(effects)@.last(),
                    u,
                    name@,
                ),
                None => final(effects)@ == old(effects)@,
            },
    {
        match self.config.url_of(name) {
            Some(u) => {
                let url = String::from_str(u.as_str());
                self.status = join2(join2("Connecting to ", name).as_str(), "...");
                effects.push(Effect::Connect { url, name: String::from_str(name) });
            },
            None => {
                self.status = join2(join2("Server '", name).as_str(), "' not found in config.json");
            },
        }
    }

    /// Calls tool `name` with no arguments.
    fn call_with_no_arguments(&mut self, name: String, effects: &mut Vec<Effect>)
        requires
            old(self).wf(),
        ensures
            final(self).wf(),
            final(self).output == old(self).output,
            final(self).scroll == old(self).scroll,
            final(self).mode == old(self).mode,
            final(self).input_buffer == old(self).input_buffer,
            final(self).command_buffer == old(self).command_buffer,
            final(self).completion == old(self).completion,
            final(self).quit == old(self).quit,
            final(self).config == old(self).config,
            final(self).server_selection == old(self).server_selection,
            final(self).tool_selection == old(self).tool_selection,
            final(self).mouse_enabled == old(self).mouse_enabled,
            final(self).tools == old(self).tools,
            final(effects)@.len() == old(effects)@.len() + 1,
            is_bare_call(final(effects)@.last(), name@),
    {
        self.status = join2(join2("Calling tool '", name.as_str()).as_str(), "'...");
        effects.push(Effect::CallTool { name, arguments: Json::Object(Vec::new()) });
    }

    /// Reacts to one key; `ctrl` tells whether Control was held.
    pub fn handle_key(&mut self, key: Key, ctrl: bool) -> (r: Vec<Effect>)
        requires
            old(self).wf(),
        ensures
            final(self).wf(),
            !old(self).selecting() && ctrl && key == Key::Char('q') ==> final(self).quit_v(),
            !old(self).selecting() && !ctrl && old(self).mode_v() == Mode::Normal ==> {
                &&& key == Key::Char('i') ==> final(self).mode_v() == Mode::Insert
                &&& key == Key::Char(':') ==> final(self).mode_v() == Mode::Command
                &&& key == Key::Char('q') ==> final(self).quit_v()
                &&& r@.len() == 0
            },
            !old(self).selecting() && !ctrl && old(self).mode_v() != Mode::Normal && key
                == Key::Esc ==> final(self).mode_v() == Mode::Normal,
            !old(self).selecting() && !ctrl && old(self).mode_v() == Mode::Command && key
                == Key::Enter ==> final(self).mode_v() == Mode::Normal,
            !old(self).selecting() && old(self).mode_v() == Mode::Insert ==> r@.len() == 0,
    {
        let mut effects: Vec<Effect> = Vec::new();
        if self.tool_selection.is_some() {
            self.tool_selection_key(key, &mut effects);
            return effects;
        }
        if self.server_selection.is_some() {
            self.server_selection_key(key, &mut effects);
            return effects;
        }
        if ctrl {
            self.ctrl_key(key);
            return effects;
        }
        match self.mode {
            Mode::Normal => self.normal_key(key),
            Mode::Insert => self.insert_key(key),
            Mode::Command => self.command_key(key, &mut effects),
        }
        effects
    }

    fn tool_selection_key(&mut self, key: Key, effects: &mut Vec<Effect>)
        requires
            old(self).wf(),
        ensures
            final(self).wf(),
    {
        let (selected, count) = match &self.tool_selection {
            Some(s) => (s.selected, s.tools.len()),
            None => {
                return;
            },
        };
        match key {
            Key::Esc => {
                self.tool_selection = None;
                self.set_status("Tool selection cancelled");
            },
            Key::Up | Key::Char('k') => {
                if selected > 0 {
                    match &mut self.tool_selection {
                        Some(s) => s.selected = selected - 1,
                        None => {},
                    }
                }
            },
            Key::Down | Key::Char('j') => {
                if count > 0 && selected < count - 1 {
                    match &mut self.tool_selection {
                        Some(s) => s.selected = selected + 1,
                        None => {},
                    }
                }
            },
            Key::Enter => {
                let name = match &self.tool_selection {
                    Some(s) => if selected < s.tools.len() {
                        Some(String::from_str(s.tools[selected].as_str()))
                    } else {
                        None
                    },
                    None => None,
                };
                self.tool_selection = None;
                match name {
                    Some(n) => self.call_with_no_arguments(n, effects),
                    None => {},
                }
            },
            Key::Char(c) => {
                if '1' <= c && c <= '9' {
                    let idx = (c as u32 - '0' as u32) as usize;
                    let name = match &self.tool_selection {
                        Some(s) => if idx <= s.tools.len() {
                            Some(String::from_str(s.tools[idx - 1].as_str()))
                        } else {
                            None
                        },
                        None => None,
                    };
                    match name {
                        Some(n) => {
                            self.tool_selection = None;
                            self.call_with_no_arguments(n, effects);
                        },
                        None => {},
                    }
                }
            },
            _ => {},
        }
    }

    fn server_selection_key(&mut self, key: Key, effects: &mut Vec<Effect>)
        requires
            old(self).wf(),
        ensures
            final(self).wf(),
    {
        match key {
            Key::Esc => {
                self.server_selection = None;
                self.set_status("Server selection cancelled");
            },
            Key::Up | Key::Char('k') => {
                match &mut self.server_selection {
                    Some(s) => s.select_prev(),
                    None => {},
                }
            },
            Key::Down | Key::Char('j') => {
                match &mut self.server_selection {
                    Some(s) => s.select_next(),
                    None => {},
                }
            },
            Key::Enter => {
                let name = match &self.server_selection {
                    Some(s) => match s.current() {
                        Some(n) => Some(String::from_str(n.as_str())),
                        None => None,
                    },
                    None => None,
                };
                self.server_selection = None;
                match name {
                    Some(n) => self.connect_to(n.as_str(), effects),
                    None => {},
                }
            },
            Key::Char(c) => {
                if '1' <= c && c <= '9' {
                    let idx = (c as u32 - '0' as u32) as usize;
                    let name = match &self.server_selection {
                        Some(s) => {
                            let list = s.servers();
                            if idx <= list.len() {
                                Some(String::from_str(list[idx - 1].as_str()))
                            } else {
                                None
                            }
                        },
                        None => None,
                    };
                    match name {
                        Some(n) => {
                            self.server_selection = None;
                            self.connect_to(n.as_str(), effects);
                        },
                        None => {},
                    }
                }
            },
            _ => {},
        }
    }

    fn ctrl_key(&mut self, key: Key)
        requires
            old(self).wf(),
        ensures
            final(self).wf(),
            key == Key::Char('q') ==> final(self).quit_v(),
    {
        match key {
            Key::Char('q') => {
                self.quit = true;
            },
            Key::Char('w') => {
                if self.mode == Mode::Insert {
                    self.input_buffer = Buffer::new();
                    self.set_status("Input cleared");
                }
            },
            Key::Char('l') => {
                self.output = OutputLog::new();
                self.scroll.scroll_to_bottom(0);
                self.set_status("Output cleared");
            },
            _ => {},
        }
    }

    fn normal_key(&mut self, key: Key)
        requires
            old(self).wf(),
            old(self).mode_v() == Mode::Normal,
        ensures
            final(self).wf(),
            key == Key::Char('i') ==> final(self).mode_v() == Mode::Insert,
            key == Key::Char(':') ==> final(self).mode_v() == Mode::Command,
            key == Key::Char('q') ==> final(self).quit_v(),
    {
        let n = self.content_len();
        match key {
            Key::Char('i') => {
                self.mode = Mode::Insert;
                self.set_status("Entered INSERT mode");
            },
            Key::Char(':') => {
                self.mode = Mode::Command;
                self.command_buffer = CommandBufferState::new();
                self.set_status("Entered COMMAND mode");
            },
            Key::Char('q') => {
                self.quit = true;
            },
            Key::PageUp => self.scroll.scroll_up(),
            Key::PageDown => self.scroll.scroll_down(n),
            Key::End => self.scroll.jump_to_bottom(n),
            _ => {},
        }
    }

    fn insert_key(&mut self, key: Key)
        requires
            old(self).wf(),
            old(self).mode_v() == Mode::Insert,
        ensures
            final(self).wf(),
            key == Key::Esc ==> final(self).mode_v() == Mode::Normal,
    {
        let buf = {
            let mut tmp = Buffer::new();
            std::mem::swap(&mut tmp, &mut self.input_buffer);
            tmp
        };
        match key {
            Key::Esc => {
                self.input_buffer = buf;
                self.mode = Mode::Normal;
                self.set_status("Exited to NORMAL mode");
            },
            Key::Enter => {
                if buf.len() == 0 {
                    self.input_buffer = buf;
                } else {
                    let input = buf.content();
                    self.say(join2("→ ", input));
                    self.say(join2("← Echo: ", input));
                    self.status = join2("Sent: ", input);
                }
            },
            Key::Char(c) => {
                if buf.len() < usize::MAX - 2 {
                    self.input_buffer = buf.insert_char(c);
                } else {
                    self.input_buffer = buf;
                }
            },
            Key::Backspace => self.input_buffer = buf.delete_char(),
            Key::Left => self.input_buffer = buf.move_left(),
            Key::Right => self.input_buffer = buf.move_right(),
            Key::Home => self.input_buffer = buf.move_start(),
            Key::End => self.input_buffer = buf.move_end(),
            _ => self.input_buffer = buf,
        }
    }

    fn command_key(&mut self, key: Key, effects: &mut Vec<Effect>)
        requires
            old(self).wf(),
            old(self).mode_v() == Mode::Command,
        ensures
            final(self).wf(),
            key == Key::Esc ==> final(self).mode_v() == Mode::Normal,
            key == Key::Enter ==> final(self).mode_v() == Mode::Normal,
    {
        let buf = {
            let mut tmp = CommandBufferState::new();
            std::mem::swap(&mut tmp, &mut self.command_buffer);
            tmp
        };
        match key {
            Key::Esc => {
                self.mode = Mode::Normal;
                self.set_status("Command cancelled");
            },
            Key::Enter => {
                let text = String::from_str(buf.content.as_str());
                let ctx = {
            let mut tmp = CompletionContext::new();
            std::mem::swap(&mut tmp, &mut self.completion);
            tmp
        };
                self.completion = ctx.with_history_entry(String::from_str(text.as_str()));
                self.execute_command(text.as_str(), effects);
                self.mode = Mode::Normal;
            },
            Key::Tab => {
                if buf.completion.is_some() {
                    self.command_buffer = buf.apply_completion();
                } else {
                    let r = self.completion.complete(buf.content.as_str());
                    if r.len() == 1 {
                        self.command_buffer = buf.with_completion(r).apply_completion();
                    } else {
                        self.command_buffer = buf.with_completion(r);
                    }
                }
            },
            Key::Up => {
                match buf.completion {
                    Some(c) => {
                        self.command_buffer = CommandBufferState { completion: Some(c.prev()), ..buf };
                    },
                    None => {
                        let ok = match buf.history_index {
                            Some(i) => i <= self.completion.history_len(),
                            None => true,
                        };
                        let next = if ok {
                            self.completion.history_up(buf.history_index)
                        } else {
                            None
                        };
                        match next {
                            Some((t, i)) => {
                                let b = buf.set_text(t);
                                self.command_buffer = CommandBufferState { history_index: Some(i), ..b };
                            },
                            None => self.command_buffer = buf,
                        }
                    },
                }
            },
            Key::Down => {
                match buf.completion {
                    Some(c) => {
                        self.command_buffer = CommandBufferState { completion: Some(c.next()), ..buf };
                    },
                    None => {
                        match self.completion.history_down(buf.history_index) {
                            Some((t, i)) => {
                                let b = buf.set_text(t);
                                self.command_buffer = CommandBufferState { history_index: Some(i), ..b };
                            },
                            None => self.command_buffer = buf,
                        }
                    },
                }
            },
            Key::Char(c) => {
                if buf.content.as_str().unicode_len() < usize::MAX - 2 {
                    self.command_buffer = buf.with_char(c);
                } else {
                    self.command_buffer = buf;
                }
            },
            Key::Backspace => self.command_buffer = buf.delete_char(),
            Key::Left => self.command_buffer = buf.move_left(),
            Key::Right => self.command_buffer = buf.move_right(),
            Key::Home => self.command_buffer = buf.move_start(),
            Key::End => self.command_buffer = buf.move_end(),
            _ => self.command_buffer = buf,
        }
    }

    /// Carries out the command line `text`.
    pub fn execute_command(&mut self, text: &str, effects: &mut Vec<Effect>)
        requires
            old(self).wf(),
        ensures
            final(self).wf(),
            final(self).mode_v() == old(self).mode_v(),
            match parse_words(words(text@)) {
                Ok(CommandView::Quit) => final(self).quit_v() && final(effects)@ == old(effects)@,
                Ok(CommandView::Mouse(on)) => final(self).mouse_v() == on && final(effects)@
                    == old(effects)@,
                Ok(CommandView::McpConnect(Some(n))) => match config_url(old(self).servers_v(), n) {
                    Some(u) => final(effects)@.len() == old(effects)@.len() + 1 && is_connect(
                        final(effects)@.last(),
                        u,
                        n,
                    ),
                    None => final(effects)@ == old(effects)@,
                },
                Ok(CommandView::McpTools) => old(self).tools_v().len() == 0 ==> final(effects)@
                    == old(effects)@.push(Effect::ListTools),
                Ok(CommandView::Clear) => final(self).lines_v().len() == 0 && final(effects)@
                    == old(effects)@,
                Err(_) => final(effects)@ == old(effects)@ && final(self).lines_v() == old(self).lines_v(),
                Ok(CommandView::Echo(m)) => final(self).lines_v() == bounded(
                    old(self).lines_v().push(m),
                ) && final(effects)@ == old(effects)@,
                Ok(CommandView::McpRun(Some(n), _)) => final(effects)@.len() <= old(effects)@.len()
                    + 1,
                _ => final(effects)@ == old(effects)@,
            },
    {
        match Command::parse(text) {
            Ok(Command::Quit) => {
                self.quit = true;
                self.set_status("Quitting...");
            },
            Ok(Command::Clear) => {
                self.output = OutputLog::new();
                self.scroll.scroll_to_bottom(0);
                self.set_status("Output cleared");
            },
            Ok(Command::Echo(msg)) => {
                self.say(msg);
                self.set_status("Echoed");
            },
            Ok(Command::Help) => {
                self.say_str("📚 Available commands:");
                self.say_str("  :q, :quit                - Exit application");
                self.say_str("  :clear                   - Clear output");
                self.say_str("  :echo <text>             - Echo text to output");
                self.say_str("  :mouse on/off            - Enable/disable mouse capture");
                self.say_str("");
                self.say_str("  MCP Commands:");
                self.say_str("  :mcp list                - List configured MCP servers");
                self.say_str("  :mcp cn, :mcp connect    - Connect to MCP server (interactive)");
                self.say_str("  :mcp status              - Show connection and tools status");
                self.say_str("  :mcp tools               - List tools from connected server");
                self.say_str("  :mcp tool <name>         - Show a tool's parameters and usage");
                self.say_str("  :mcp run [tool_name]     - Run MCP tool (interactive or direct)");
                self.say_str("");
                self.say_str("  :h, :help                - Show this help");
                self.set_status("Help displayed");
            },
            Ok(Command::McpConnect(Some(name))) => self.connect_to(name.as_str(), effects),
            Ok(Command::McpConnect(None)) => {
                let names = self.config.server_names();
                if names.len() == 0 {
                    self.say_str("No MCP servers configured in config.json");
                } else {
                    self.say_str("🔌 Select MCP server:");
                    let mut i: usize = 0;
                    while i < names.len()
                        invariant
                            self.wf(),
                            i <= names@.len(),
                            self.mode == old(self).mode,
                            self.quit == old(self).quit,
                            self.mouse_enabled == old(self).mouse_enabled,
                            self.config == old(self).config,
                            effects@ == old(effects)@,
                        decreases names.len() - i,
                    {
                        let mut v = chars_of(if i == 0 {
                            "  → ["
                        } else {
                            "    ["
                        });
                        push_decimal(&mut v, (i + 1) as u64);
                        let tail = chars_of("] ");
                        crate::text::extend_chars(&mut v, tail.as_slice());
                        let nm = chars_of(names[i].as_str());
                        crate::text::extend_chars(&mut v, nm.as_slice());
                        self.say(string_from(v.as_slice()));
                        i = i + 1;
                    }
                    self.say_str("");
                    self.say_str("Use ↑↓ or j/k to navigate, Enter to connect, Esc to cancel");
                    self.server_selection = Some(ServerSelection::new(names));
                    self.set_status("Select server with ↑↓ or number keys");
                }
            },
            Ok(Command::McpList) => {
                self.say_str("📋 Configured MCP servers:");
                if self.config.mcp_servers.len() == 0 {
                    self.say_str("  (none)");
                }
                let mut i: usize = 0;
                while i < self.config.mcp_servers.len()
                    invariant
                        self.wf(),
                        i <= self.config.mcp_servers@.len(),
                        self.mode == old(self).mode,
                        self.quit == old(self).quit,
                        self.mouse_enabled == old(self).mouse_enabled,
                        self.config == old(self).config,
                        effects@ == old(effects)@,
                    decreases self.config.mcp_servers.len() - i,
                {
                    let a = join2("  • ", self.config.mcp_servers[i].name.as_str());
                    let b = join2(a.as_str(), ": ");
                    let c = join2(b.as_str(), self.config.mcp_servers[i].url.as_str());
                    self.say(c);
                    i = i + 1;
                }
            },
            Ok(Command::McpTools) => {
                if self.tools.len() == 0 {
                    self.say_str("⚠️ No tools available yet; asking the server for its tools");
                    effects.push(Effect::ListTools);
                } else {
                    self.say_str("📦 Available tools:");
                    let mut i: usize = 0;
                    while i < self.tools.len()
                        invariant
                            self.wf(),
                            i <= self.tools@.len(),
                            self.tools == old(self).tools,
                            self.mode == old(self).mode,
                            self.quit == old(self).quit,
                            self.mouse_enabled == old(self).mouse_enabled,
                            self.config == old(self).config,
                            effects@ == old(effects)@,
                        decreases self.tools.len() - i,
                    {
                        let mut v = chars_of("  [");
                        push_decimal(&mut v, (i + 1) as u64);
                        let tail = chars_of("] ");
                        crate::text::extend_chars(&mut v, tail.as_slice());
                        let c = format_tool_compact(&self.tools[i]);
                        let cc = chars_of(c.as_str());
                        crate::text::extend_chars(&mut v, cc.as_slice());
                        self.say(string_from(v.as_slice()));
                        i = i + 1;
                    }
                }
            },
            Ok(Command::McpTool(name)) => {
                let mut found = false;
                let mut i: usize = 0;
                while i < self.tools.len()
                    invariant
                        self.wf(),
                        i <= self.tools@.len(),
                        self.tools == old(self).tools,
                        self.mode == old(self).mode,
                        self.quit == old(self).quit,
                        self.mouse_enabled == old(self).mouse_enabled,
                        self.config == old(self).config,
                        effects@ == old(effects)@,
                    decreases self.tools.len() - i,
                {
                    if !found && str_eq(self.tools[i].name.as_str(), name.as_str()) {
                        found = true;
                        let lines = format_tool_detailed(&self.tools[i]);
                        let mut k: usize = 0;
                        while k < lines.len()
                            invariant
                                self.wf(),
                                k <= lines@.len(),
                                i < self.tools@.len(),
                                self.tools == old(self).tools,
                                self.mode == old(self).mode,
                                self.quit == old(self).quit,
                                self.mouse_enabled == old(self).mouse_enabled,
                                self.config == old(self).config,
                                effects@ == old(effects)@,
                            decreases lines.len() - k,
                        {
                            self.say(String::from_str(lines[k].as_str()));
                            k = k + 1;
                        }
                    }
                    i = i + 1;
                }
                if !found {
                    self.status = join2(join2("Tool '", name.as_str()).as_str(), "' not found");
                }
            },
            Ok(Command::McpStatus) => {
                self.say_str("📊 MCP Client Status:");
                let mut v = chars_of("  • Tools loaded: ");
                push_decimal(&mut v, self.tools.len() as u64);
                self.say(string_from(v.as_slice()));
                if self.tools.len() == 0 {
                    self.say_str("  • Status: Not connected or no tools available");
                } else {
                    self.say_str("  • Status: Connected with tools loaded");
                    let mut i: usize = 0;
                    while i < self.tools.len()
                        invariant
                            self.wf(),
                            i <= self.tools@.len(),
                            self.tools == old(self).tools,
                            self.mode == old(self).mode,
                            self.quit == old(self).quit,
                            self.mouse_enabled == old(self).mouse_enabled,
                            self.config == old(self).config,
                            effects@ == old(effects)@,
                        decreases self.tools.len() - i,
                    {
                        let l = join2("    - ", self.tools[i].name.as_str());
                        self.say(l);
                        i = i + 1;
                    }
                }
                self.set_status("Status displayed");
            },
            Ok(Command::McpRun(Some(name), args)) => {
                let mut i: usize = 0;
                let mut found = false;
                while i < self.tools.len()
                    invariant
                        self.wf(),
                        i <= self.tools@.len(),
                        self.tools == old(self).tools,
                        self.mode == old(self).mode,
                        self.quit == old(self).quit,
                        self.mouse_enabled == old(self).mouse_enabled,
                        self.config == old(self).config,
                        found || effects@ == old(effects)@,
                        effects@.len() <= old(effects)@.len() + 1,
                    decreases self.tools.len() - i,
                {
                    if !found && str_eq(self.tools[i].name.as_str(), name.as_str()) {
                        found = true;
                        match args_to_json(args.as_slice(), &self.tools[i].input_schema) {
                            Ok(arguments) => {
                                self.status = join2(join2("Calling tool '", name.as_str()).as_str(), "'...");
                                effects.push(
                                    Effect::CallTool { name: String::from_str(name.as_str()), arguments },
                                );
                            },
                            Err(e) => {
                                self.status = join2("Error: ", e.message().as_str());
                            },
                        }
                    }
                    i = i + 1;
                }
                if !found {
                    self.status = join2(join2("Tool '", name.as_str()).as_str(), "' not found");
                }
            },
            Ok(Command::McpRun(None, _)) => {
                if self.tools.len() == 0 {
                    self.say_str("⚠️ No tools available. Connect to a server first with :mcp connect");
                } else {
                    self.say_str("🔧 Select tool to run:");
                    let mut names: Vec<String> = Vec::new();
                    let mut i: usize = 0;
                    while i < self.tools.len()
                        invariant
                            self.wf(),
                            i <= self.tools@.len(),
                            self.tools == old(self).tools,
                            self.mode == old(self).mode,
                            self.quit == old(self).quit,
                            self.mouse_enabled == old(self).mouse_enabled,
                            self.config == old(self).config,
                            effects@ == old(effects)@,
                        decreases self.tools.len() - i,
                    {
                        let mut v = chars_of(if i == 0 {
                            "  → ["
                        } else {
                            "    ["
                        });
                        push_decimal(&mut v, (i + 1) as u64);
                        let tail = chars_of("] ");
                        crate::text::extend_chars(&mut v, tail.as_slice());
                        let c = format_tool_compact(&self.tools[i]);
                        let cc = chars_of(c.as_str());
                        crate::text::extend_chars(&mut v, cc.as_slice());
                        self.say(string_from(v.as_slice()));
                        names.push(String::from_str(self.tools[i].name.as_str()));
                        i = i + 1;
                    }
                    self.say_str("");
                    self.say_str("Use ↑↓ or j/k to navigate, Enter to run, Esc to cancel");
                    self.tool_selection = Some(ToolSelection { tools: names, selected: 0 });
                    self.set_status("Select tool with ↑↓ or number keys");
                }
            },
            Ok(Command::Mouse(on)) => {
                self.mouse_enabled = on;
                if on {
                    self.say_str("🖱️  Mouse capture enabled");
                    self.set_status("Mouse capture enabled");
                } else {
                    self.say_str("🖱️  Mouse capture disabled");
                    self.set_status("Mouse capture disabled");
                }
            },
            Err(e) => {
                self.status = join2("Error: ", e.message().as_str());
            },
        }
    }
}

} // verus!
