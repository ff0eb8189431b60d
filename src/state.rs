//! Editable text buffers and the bounded output log.
use vstd::prelude::*;
use crate::text::{chars_of, string_from, views};

verus! {

/// A line of text being edited, with a cursor counted in characters.
#[derive(Debug, Clone, PartialEq, Eq)]
pub struct Buffer {
    content: String,
    cursor: usize,
}

impl Buffer {
    pub closed spec fn text(&self) -> Seq<char> {
        self.content@
    }

    pub closed spec fn pos(&self) -> nat {
        self.cursor as nat
    }

    pub open spec fn wf(&self) -> bool {
        self.pos() <= self.text().len() && self.text().len() < usize::MAX
    }

    pub fn new() -> (r: Buffer)
        ensures
            r.wf(),
            r.text() == Seq::<char>::empty(),
            r.pos() == 0,
    {
        Buffer { content: String::new(), cursor: 0 }
    }

    pub fn content(&self) -> (r: &str)
        ensures
            r@ == self.text(),
    {
        self.content.as_str()
    }

    pub fn cursor(&self) -> (r: usize)
        ensures
            r == self.pos(),
    {
        self.cursor
    }

    /// The number of characters in the buffer.
    pub fn len(&self) -> (r: usize)
        ensures
            r == self.text().len(),
    {
        self.content.as_str().unicode_len()
    }

    /// Inserts `c` at the cursor and moves the cursor past it.
    pub fn insert_char(self, c: char) -> (r: Buffer)
        requires
            self.wf(),
            self.text().len() + 1 < usize::MAX,
        ensures
            r.wf(),
            r.text() == self.text().subrange(0, self.pos() as int).push(c) + self.text().subrange(
                self.pos() as int,
                self.text().len() as int,
            ),
            r.pos() == self.pos() + 1,
    {
        let mut v = chars_of(self.content.as_str());
        v.insert(self.cursor, c);
        let r = Buffer { content: string_from(v.as_slice()), cursor: self.cursor + 1 };
        assert(r.text() =~= self.text().subrange(0, self.pos() as int).push(c) + self.text().subrange(
            self.pos() as int,
            self.text().len() as int,
        ));
        r
    }

    /// Deletes the character before the cursor, if there is one.
    pub fn delete_char(self) -> (r: Buffer)
        requires
            self.wf(),
        ensures
            r.wf(),
            self.pos() > 0 ==> r.text() == self.text().remove(self.pos() - 1) && r.pos() == self.pos()
                - 1,
            self.pos() == 0 ==> r == self,
    {
        if self.cursor > 0 && self.content.as_str().unicode_len() > 0 {
            let mut v = chars_of(self.content.as_str());
            v.remove(self.cursor - 1);
            Buffer { content: string_from(v.as_slice()), cursor: self.cursor - 1 }
        } else {
            self
        }
    }

    pub fn move_left(self) -> (r: Buffer)
        requires
            self.wf(),
        ensures
            r.wf(),
            r.text() == self.text(),
            r.pos() == if self.pos() > 0 { self.pos() - 1 } else { 0 },
    {
        let cursor = if self.cursor > 0 { self.cursor - 1 } else { 0 };
        Buffer { content: self.content, cursor }
    }

    pub fn move_right(self) -> (r: Buffer)
        requires
            self.wf(),
        ensures
            r.wf(),
            r.text() == self.text(),
            r.pos() == if self.pos() < self.text().len() { self.pos() + 1 } else { self.pos() },
    {
        let n = self.content.as_str().unicode_len();
        let cursor = if self.cursor < n { self.cursor + 1 } else { self.cursor };
        Buffer { content: self.content, cursor }
    }

    pub fn move_start(self) -> (r: Buffer)
        requires
            self.wf(),
        ensures
            r.wf(),
            r.text() == self.text(),
            r.pos() == 0,
    {
        Buffer { content: self.content, cursor: 0 }
    }

    pub fn move_end(self) -> (r: Buffer)
        requires
            self.wf(),
        ensures
            r.wf(),
            r.text() == self.text(),
            r.pos() == self.text().len(),
    {
        let n = self.content.as_str().unicode_len();
        Buffer { content: self.content, cursor: n }
    }

    pub fn clear(self) -> (r: Buffer)
        ensures
            r.wf(),
            r.text() == Seq::<char>::empty(),
            r.pos() == 0,
    {
        Buffer::new()
    }
}

/// The largest number of lines the output log keeps.
pub const MAX_LOG_LINES: usize = 1000;

/// The log of output lines, keeping only the newest `MAX_LOG_LINES`.
#[derive(Debug, Clone)]
pub struct OutputLog {
    lines: Vec<String>,
}

/// The last `MAX_LOG_LINES` of `ls`.
pub open spec fn bounded(ls: Seq<Seq<char>>) -> Seq<Seq<char>> {
    if ls.len() > MAX_LOG_LINES {
        ls.subrange(ls.len() - MAX_LOG_LINES, ls.len() as int)
    } else {
        ls
    }
}

impl OutputLog {
    pub closed spec fn view(&self) -> Seq<Seq<char>> {
        views(self.lines@)
    }

    pub open spec fn wf(&self) -> bool {
        self@.len() <= MAX_LOG_LINES
    }

    pub fn new() -> (r: OutputLog)
        ensures
            r.wf(),
            r@ == Seq::<Seq<char>>::empty(),
    {
        let r = OutputLog { lines: Vec::new() };
        assert(r@ =~= Seq::<Seq<char>>::empty());
        r
    }

    pub fn lines(&self) -> (r: &[String])
        ensures
            views(r@) == self@,
    {
        self.lines.as_slice()
    }

    /// Appends `msg`, dropping the oldest lines beyond the bound.
    pub fn with_message(self, msg: String) -> (r: OutputLog)
        requires
            self.wf(),
        ensures
            r.wf(),
            r@ == bounded(self@.push(msg@)),
    {
        let ghost all = self@.push(msg@);
        let mut lines = self.lines;
        lines.push(msg);
        assert(views(lines@) =~= all);
        if lines.len() <= MAX_LOG_LINES {
            return OutputLog { lines };
        }
        let start = lines.len() - MAX_LOG_LINES;
        let mut kept: Vec<String> = Vec::new();
        let mut old_lines = lines;
        let n = old_lines.len();
        let mut i: usize = 0;
        while i < n
            invariant
                n == old_lines@.len() == all.len(),
                start == n - MAX_LOG_LINES,
                i <= n,
                views(old_lines@) == all,
                i <= start ==> kept@.len() == 0,
                i > start ==> views(kept@) == all.subrange(start as int, i as int),
            decreases n - i,
        {
            if i >= start {
                let s = String::from_str(old_lines[i].as_str());
                proof {
                    assert(views(kept@.push(s)) =~= views(kept@).push(s@));
                    assert(all.subrange(start as int, i + 1) =~= all.subrange(start as int, i as int).push(all[i as int]));
                }
                kept.push(s);
            }
            i = i + 1;
        }
        let r = OutputLog { lines: kept };
        r
    }

    pub fn clear(self) -> (r: OutputLog)
        ensures
            r.wf(),
            r@ == Seq::<Seq<char>>::empty(),
    {
        OutputLog::new()
    }
}

impl Default for Buffer {
    fn default() -> (r: Buffer)
        ensures
            r.wf(),
            r.text() == Seq::<char>::empty(),
            r.pos() == 0,
    {
        Buffer::new()
    }
}

impl Default for OutputLog {
    fn default() -> (r: OutputLog)
        ensures
            r.wf(),
            r@ == Seq::<Seq<char>>::empty(),
    {
        OutputLog::new()
    }
}

} // verus!
