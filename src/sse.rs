//! Incremental parser for a Server-Sent Events stream.
//!
//! Bytes arrive in arbitrary chunks. The parser keeps what has not yet formed a
//! complete frame (a block ended by a blank line) and hands out every complete
//! frame in arrival order.
use vstd::prelude::*;
use crate::text::{chars_of, extend_chars, find, find_from, lemma_find_from_props, lemma_find_prefix, lines_of, split_lines, starts_with, string_from, subvec, trim, trim_chars, vviews};

verus! {

/// The blank line that ends a frame.
pub open spec fn frame_sep() -> Seq<char> {
    seq!['\n', '\n']
}

/// The complete blocks at the front of `s`, and what is left after them.
pub open spec fn split_blocks(s: Seq<char>) -> (Seq<Seq<char>>, Seq<char>)
    decreases s.len(),
{
    match find_from(s, frame_sep(), 0) {
        Some(i) => if 0 <= i && i + 2 <= s.len() {
            let (bs, rest) = split_blocks(s.subrange(i + 2, s.len() as int));
            (seq![s.subrange(0, i)] + bs, rest)
        } else {
            (seq![], s)
        },
        None => (seq![], s),
    }
}

pub open spec fn event_prefix() -> Seq<char> {
    seq!['e', 'v', 'e', 'n', 't', ':']
}

pub open spec fn data_prefix() -> Seq<char> {
    seq!['d', 'a', 't', 'a', ':']
}

/// Scanning the lines `ls` of a frame: the event type so far, the data so
/// far, and whether a `data:` line has been seen.
///
/// The last `event:` line gives the type; every `data:` line after the first
/// adds a `\n` and then its value, so all data lines are joined with `\n`.
/// Values are trimmed; other lines are ignored.
pub open spec fn frame_scan(ls: Seq<Seq<char>>) -> (Seq<char>, Seq<char>, bool)
    decreases ls.len(),
{
    if ls.len() == 0 {
        (seq![], seq![], false)
    } else {
        let (ev, data, seen) = frame_scan(ls.drop_last());
        let l = ls.last();
        if starts_with(l, event_prefix()) {
            (trim(l.subrange(6, l.len() as int)), data, seen)
        } else if starts_with(l, data_prefix()) {
            let v = trim(l.subrange(5, l.len() as int));
            if seen {
                (ev, data + seq!['\n'] + v, true)
            } else {
                (ev, v, true)
            }
        } else {
            (ev, data, seen)
        }
    }
}

/// The event type and the data of a frame made of the lines `ls`.
pub open spec fn frame_fields(ls: Seq<Seq<char>>) -> (Seq<char>, Seq<char>) {
    let (ev, data, _seen) = frame_scan(ls);
    (ev, data)
}

/// The frames of the blocks `bs`, in order; a block without data gives none.
pub open spec fn frames_of(bs: Seq<Seq<char>>) -> Seq<(Seq<char>, Seq<char>)>
    decreases bs.len(),
{
    if bs.len() == 0 {
        seq![]
    } else {
        let f = frame_fields(lines_of(bs[0]));
        let rest = frames_of(bs.drop_first());
        if f.1.len() == 0 {
            rest
        } else {
            seq![f] + rest
        }
    }
}

/// The frames that the text `s` yields.
pub open spec fn stream_frames(s: Seq<char>) -> Seq<(Seq<char>, Seq<char>)> {
    frames_of(split_blocks(s).0)
}

/// What of the text `s` is kept for later.
pub open spec fn stream_rest(s: Seq<char>) -> Seq<char> {
    split_blocks(s).1
}

/// One frame of the stream: its event type (empty if none was given) and its data.
#[derive(Debug, Clone, PartialEq, Eq)]
pub struct SseFrame {
    pub event: String,
    pub data: String,
}

impl SseFrame {
    pub open spec fn view(&self) -> (Seq<char>, Seq<char>) {
        (self.event@, self.data@)
    }
}

pub open spec fn frame_views(v: Seq<SseFrame>) -> Seq<(Seq<char>, Seq<char>)> {
    v.map_values(|f: SseFrame| f.view())
}

/// The parser's state: text received that does not yet end a frame.
pub struct SseParser {
    buf: Vec<char>,
}

proof fn lemma_frames_append(a: Seq<Seq<char>>, b: Seq<Seq<char>>)
    ensures
        frames_of(a + b) == frames_of(a) + frames_of(b),
    decreases a.len(),
{
    if a.len() == 0 {
        assert(a + b =~= b);
    } else {
        assert((a + b).drop_first() =~= a.drop_first() + b);
        lemma_frames_append(a.drop_first(), b);
    }
}

proof fn lemma_split_blocks_append(a: Seq<char>, b: Seq<char>)
    ensures
        split_blocks(a).0 + split_blocks(split_blocks(a).1 + b).0 == split_blocks(a + b).0,
        split_blocks(split_blocks(a).1 + b).1 == split_blocks(a + b).1,
    decreases a.len(),
{
    match find_from(a, frame_sep(), 0) {
        Some(i) => {
            lemma_find_from_props(a, frame_sep(), 0);
            lemma_find_prefix(a, b, frame_sep());
            let a2 = a.subrange(i + 2, a.len() as int);
            assert((a + b).subrange(i + 2, (a + b).len() as int) =~= a2 + b);
            assert((a + b).subrange(0, i) =~= a.subrange(0, i));
            lemma_split_blocks_append(a2, b);
            assert(split_blocks(a).0 + split_blocks(split_blocks(a).1 + b).0 =~= seq![
                a.subrange(0, i),
            ] + (split_blocks(a2).0 + split_blocks(split_blocks(a2).1 + b).0));
        },
        None => {
            assert(split_blocks(a).0 + split_blocks(a + b).0 =~= split_blocks(a + b).0);
        },
    }
}

/// Feeding text in two pieces yields the same frames, in the same order, and
/// leaves the same text pending, as feeding it in one piece: `a` and then `b`
/// (with what `a` left pending) give what `a + b` gives.
pub proof fn lemma_feed_split_invariant(a: Seq<char>, b: Seq<char>)
    ensures
        stream_frames(a) + stream_frames(stream_rest(a) + b) == stream_frames(a + b),
        stream_rest(stream_rest(a) + b) == stream_rest(a + b),
{
    lemma_split_blocks_append(a, b);
    lemma_frames_append(split_blocks(a).0, split_blocks(stream_rest(a) + b).0);
}

fn starts_with_exec(s: &[char], p: &[char]) -> (r: bool)
    ensures
        r == starts_with(s@, p@),
{
    crate::text::matches_at_exec(s, 0, p)
}

/// The event type and data of one block.
fn parse_block(block: &[char]) -> (r: (Vec<char>, Vec<char>))
    ensures
        (r.0@, r.1@) == frame_fields(lines_of(block@)),
{
    let lines = split_lines(block);
    let ev_p: Vec<char> = vec!['e', 'v', 'e', 'n', 't', ':'];
    let data_p: Vec<char> = vec!['d', 'a', 't', 'a', ':'];
    assert(ev_p@ =~= event_prefix());
    assert(data_p@ =~= data_prefix());
    let mut ev: Vec<char> = Vec::new();
    let mut data: Vec<char> = Vec::new();
    let mut seen = false;
    let mut k: usize = 0;
    while k < lines.len()
        invariant
            k <= lines@.len(),
            ev_p@ == event_prefix(),
            data_p@ == data_prefix(),
            vviews(lines@) == lines_of(block@),
            (ev@, data@, seen) == frame_scan(vviews(lines@).subrange(0, k as int)),
            !seen ==> data@.len() == 0,
        decreases lines.len() - k,
    {
        let l = &lines[k];
        let ghost ls = vviews(lines@).subrange(0, k + 1);
        assert(ls.drop_last() =~= vviews(lines@).subrange(0, k as int));
        assert(ls.last() == l@);
        if starts_with_exec(l.as_slice(), ev_p.as_slice()) {
            let v = subvec(l.as_slice(), 6, l.len());
            ev = trim_chars(v.as_slice());
        } else if starts_with_exec(l.as_slice(), data_p.as_slice()) {
            let v = subvec(l.as_slice(), 5, l.len());
            let t = trim_chars(v.as_slice());
            let ghost d0 = data@;
            let ghost s0 = seen;
            if seen {
                data.push('\n');
                assert(data@ =~= d0 + seq!['\n']);
            } else {
                assert(data@ + t@ =~= t@);
            }
            seen = true;
            extend_chars(&mut data, t.as_slice());
            assert(v@ =~= l@.subrange(5, l@.len() as int));
            assert(data@ =~= if s0 { d0 + seq!['\n'] + t@ } else { t@ });
        }
        k = k + 1;
    }
    assert(vviews(lines@).subrange(0, k as int) =~= vviews(lines@));
    (ev, data)
}

impl SseParser {
    /// What the parser holds: received text that does not yet end a frame.
    pub closed spec fn pending(&self) -> Seq<char> {
        self.buf@
    }

    pub fn new() -> (r: SseParser)
        ensures
            r.pending() == Seq::<char>::empty(),
    {
        SseParser { buf: Vec::new() }
    }

    /// Takes in one chunk of the stream and returns the frames it completes.
    pub fn feed(&mut self, chunk: &str) -> (r: Vec<SseFrame>)
        ensures
            frame_views(r@) == stream_frames(old(self).pending() + chunk@),
            final(self).pending() == stream_rest(old(self).pending() + chunk@),
    {
        let c = chars_of(chunk);
        let ghost all = self.buf@ + c@;
        let mut rest = subvec(self.buf.as_slice(), 0, self.buf.len());
        assert(rest@ =~= self.buf@);
        extend_chars(&mut rest, c.as_slice());
        let sep: Vec<char> = vec!['\n', '\n'];
        assert(sep@ =~= frame_sep());
        let mut out: Vec<SseFrame> = Vec::new();
        assert(frame_views(out@) + stream_frames(rest@) =~= stream_frames(all));
        loop
            invariant
                sep@ == frame_sep(),
                frame_views(out@) + stream_frames(rest@) == stream_frames(all),
                stream_rest(rest@) == stream_rest(all),
            ensures
                find_from(rest@, frame_sep(), 0) is None,
                frame_views(out@) + stream_frames(rest@) == stream_frames(all),
                stream_rest(rest@) == stream_rest(all),
            decreases rest@.len(),
        {
            match find(rest.as_slice(), sep.as_slice(), 0) {
                Some(i) => {
                    proof {
                        lemma_find_from_props(rest@, frame_sep(), 0);
                        assert(frame_sep().len() == 2);
                    }
                    let n = rest.len();
                    assert(i + 2 <= n);
                    let block = subvec(rest.as_slice(), 0, i);
                    let next = subvec(rest.as_slice(), i + 2, rest.len());
                    let (ev, data) = parse_block(block.as_slice());
                    proof {
                        let bs = split_blocks(next@).0;
                        assert(split_blocks(rest@).0 == seq![block@] + bs);
                        assert((seq![block@] + bs).drop_first() =~= bs);
                        assert((seq![block@] + bs)[0] == block@);
                    }
                    if data.len() > 0 {
                        let f = SseFrame { event: string_from(ev.as_slice()), data: string_from(data.as_slice()) };
                        proof {
                            assert(frame_views(out@.push(f)) =~= frame_views(out@).push(f.view()));
                        }
                        out.push(f);
                    }
                    rest = next;
                },
                None => {
                    break;
                },
            }
        }
        self.buf = rest;
        proof {
            assert(stream_frames(self.buf@) =~= seq![]);
            assert(frame_views(out@) + seq![] =~= frame_views(out@));
        }
        out
    }
}

} // verus!
