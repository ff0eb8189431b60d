//! Bounding and wrapping of text shown to the user.
use vstd::prelude::*;
use crate::text::{chars_of, extend_chars, lines_of, split_lines, split_words, string_from, subvec, views, vviews, words};

verus! {

/// `ls` joined with `\n` between consecutive lines.
pub open spec fn join_lines(ls: Seq<Seq<char>>) -> Seq<char>
    decreases ls.len(),
{
    if ls.len() == 0 {
        seq![]
    } else if ls.len() == 1 {
        ls[0]
    } else {
        join_lines(ls.drop_last()) + seq!['\n'] + ls.last()
    }
}

/// Keeps at most `max_lines` lines of `text`.
///
/// When `text` has no more than `max_lines` lines it comes back unchanged with
/// `false`; otherwise its first `max_lines` lines, joined with `\n`, come back
/// with `true`.
pub fn truncate_json_display(json_str: &str, max_lines: usize) -> (r: (String, bool))
    ensures
        r.1 == (lines_of(json_str@).len() > max_lines),
        !r.1 ==> r.0@ == json_str@,
        r.1 ==> r.0@ == join_lines(lines_of(json_str@).take(max_lines as int)),
{
    let c = chars_of(json_str);
    let lines = split_lines(c.as_slice());
    if lines.len() <= max_lines {
        return (string_from(c.as_slice()), false);
    }
    let mut out: Vec<char> = Vec::new();
    let mut k: usize = 0;
    while k < max_lines
        invariant
            k <= max_lines < lines@.len(),
            vviews(lines@) == lines_of(json_str@),
            out@ == join_lines(vviews(lines@).take(k as int)),
        decreases max_lines - k,
    {
        let ghost t = vviews(lines@).take(k + 1);
        assert(t.drop_last() =~= vviews(lines@).take(k as int));
        assert(t.last() == lines@[k as int]@);
        if k > 0 {
            out.push('\n');
        } else {
            assert(t =~= seq![lines@[0]@]);
        }
        extend_chars(&mut out, lines[k].as_slice());
        k = k + 1;
    }
    (string_from(out.as_slice()), true)
}

/// The lines of a payload after bounding: at most `max_lines` of them, whether
/// any were cut, and how many there were in all.
pub struct Chunked {
    pub lines: Vec<String>,
    pub truncated: bool,
    pub total: usize,
}

/// Splits `text` into lines and keeps the first `max_lines` of them.
pub fn chunk_lines(text: &str, max_lines: usize) -> (r: Chunked)
    ensures
        r.total == lines_of(text@).len(),
        r.truncated == (lines_of(text@).len() > max_lines),
        views(r.lines@) == (if r.truncated {
            lines_of(text@).take(max_lines as int)
        } else {
            lines_of(text@)
        }),
{
    let c = chars_of(text);
    let lines = split_lines(c.as_slice());
    let n = if lines.len() > max_lines {
        max_lines
    } else {
        lines.len()
    };
    let mut out: Vec<String> = Vec::new();
    let mut k: usize = 0;
    while k < n
        invariant
            k <= n <= lines@.len(),
            vviews(lines@) == lines_of(text@),
            views(out@) == vviews(lines@).take(k as int),
        decreases n - k,
    {
        let s = string_from(lines[k].as_slice());
        proof {
            assert(views(out@.push(s)) =~= views(out@).push(s@));
            assert(vviews(lines@).take(k + 1) =~= vviews(lines@).take(k as int).push(lines@[k as int]@));
        }
        out.push(s);
        k = k + 1;
    }
    if lines.len() <= max_lines {
        assert(vviews(lines@).take(k as int) =~= vviews(lines@));
    }
    Chunked { lines: out, truncated: lines.len() > max_lines, total: lines.len() }
}

/// The pieces of `max` characters cut from the front of `w` while it is longer
/// than `max`, and what is left.
pub open spec fn chop(w: Seq<char>, max: nat) -> (Seq<Seq<char>>, Seq<char>)
    decreases w.len(),
{
    if max > 0 && w.len() > max {
        let (ps, rem) = chop(w.subrange(max as int, w.len() as int), max);
        (seq![w.subrange(0, max as int)] + ps, rem)
    } else {
        (seq![], w)
    }
}

/// One step of greedy line filling: the lines done so far and the current
/// line, after the word `w`.
pub open spec fn fill_step(ls: Seq<Seq<char>>, cur: Seq<char>, w: Seq<char>, max: nat) -> (
    Seq<Seq<char>>,
    Seq<char>,
) {
    if cur.len() + w.len() + 1 > max {
        let done = if cur.len() > 0 {
            ls.push(cur)
        } else {
            ls
        };
        if w.len() > max {
            let (ps, rem) = chop(w, max);
            (done + ps, rem)
        } else {
            (done, w)
        }
    } else if cur.len() > 0 {
        (ls, cur + seq![' '] + w)
    } else {
        (ls, w)
    }
}

/// Greedy filling over the words `ws`.
pub open spec fn fill(ws: Seq<Seq<char>>, max: nat) -> (Seq<Seq<char>>, Seq<char>)
    decreases ws.len(),
{
    if ws.len() == 0 {
        (seq![], seq![])
    } else {
        let (ls, cur) = fill(ws.drop_last(), max);
        fill_step(ls, cur, ws.last(), max)
    }
}

/// The lines that `break_long_line` makes of `line`.
pub open spec fn broken(line: Seq<char>, max: nat) -> Seq<Seq<char>> {
    let (ls, cur) = fill(words(line), max);
    let all = if cur.len() > 0 {
        ls.push(cur)
    } else {
        ls
    };
    if all.len() == 0 {
        seq![seq![]]
    } else {
        all
    }
}

fn chop_exec(out: &mut Vec<Vec<char>>, w: &[char], max: usize) -> (rem: Vec<char>)
    requires
        max > 0,
    ensures
        vviews(final(out)@) == vviews(old(out)@) + chop(w@, max as nat).0,
        rem@ == chop(w@, max as nat).1,
    decreases w@.len(),
{
    if w.len() > max {
        let head = subvec(w, 0, max);
        let tail = subvec(w, max, w.len());
        proof {
            assert(vviews(out@.push(head)) =~= vviews(out@).push(head@));
        }
        out.push(head);
        let rem = chop_exec(out, tail.as_slice(), max);
        proof {
            let (ps, _r) = chop(tail@, max as nat);
            assert(vviews(old(out)@) + chop(w@, max as nat).0 =~= vviews(old(out)@).push(head@)
                + ps);
        }
        rem
    } else {
        assert(vviews(out@) =~= vviews(out@) + seq![]);
        subvec(w, 0, w.len())
    }
}

/// Breaks `line` into lines of at most `max_length` characters at white space;
/// a word longer than that is cut into pieces. Gives one empty line when
/// `line` has no words.
pub fn break_long_line(line: &str, max_length: usize) -> (r: Vec<String>)
    requires
        max_length > 0,
    ensures
        views(r@) == broken(line@, max_length as nat),
{
    let c = chars_of(line);
    let ws = split_words(c.as_slice());
    let mut lines: Vec<Vec<char>> = Vec::new();
    let mut cur: Vec<char> = Vec::new();
    let mut k: usize = 0;
    while k < ws.len()
        invariant
            max_length > 0,
            k <= ws@.len(),
            vviews(ws@) == words(line@),
            (vviews(lines@), cur@) == fill(vviews(ws@).take(k as int), max_length as nat),
        decreases ws.len() - k,
    {
        let w = &ws[k];
        proof {
            let t = vviews(ws@).take(k + 1);
            assert(t.drop_last() =~= vviews(ws@).take(k as int));
            assert(t.last() == w@);
        }
        if w.len() >= max_length || cur.len() >= max_length - w.len() {
            if cur.len() > 0 {
                proof {
                    assert(vviews(lines@.push(cur)) =~= vviews(lines@).push(cur@));
                }
                lines.push(cur);
            }
            if w.len() > max_length {
                cur = chop_exec(&mut lines, w.as_slice(), max_length);
            } else {
                cur = subvec(w.as_slice(), 0, w.len());
            }
        } else {
            if cur.len() > 0 {
                cur.push(' ');
            }
            extend_chars(&mut cur, w.as_slice());
        }
        k = k + 1;
    }
    assert(vviews(ws@).take(k as int) =~= vviews(ws@));
    if cur.len() > 0 {
        proof {
            assert(vviews(lines@.push(cur)) =~= vviews(lines@).push(cur@));
        }
        lines.push(cur);
    }
    if lines.len() == 0 {
        lines.push(Vec::new());
        assert(vviews(lines@) =~= seq![seq![]]);
    }
    let mut r: Vec<String> = Vec::new();
    let mut i: usize = 0;
    while i < lines.len()
        invariant
            i <= lines@.len(),
            views(r@) == vviews(lines@).take(i as int),
        decreases lines.len() - i,
    {
        let s = string_from(lines[i].as_slice());
        proof {
            assert(views(r@.push(s)) =~= views(r@).push(s@));
            assert(vviews(lines@).take(i + 1) =~= vviews(lines@).take(i as int).push(lines@[i as int]@));
        }
        r.push(s);
        i = i + 1;
    }
    assert(vviews(lines@).take(i as int) =~= vviews(lines@));
    r
}

/// The display lines of `text`: each of its lines, broken where longer than `max`.
pub open spec fn display_lines(ls: Seq<Seq<char>>, max: nat) -> Seq<Seq<char>>
    decreases ls.len(),
{
    if ls.len() == 0 {
        seq![]
    } else {
        let l = ls.last();
        display_lines(ls.drop_last(), max) + (if l.len() <= max {
            seq![l]
        } else {
            broken(l, max)
        })
    }
}

/// Splits `text` into lines for display: at its own line ends, and further
/// wherever a line is longer than `max_line_length` characters.
pub fn split_for_display(text: &str, max_line_length: usize) -> (r: Vec<String>)
    requires
        max_line_length > 0,
    ensures
        views(r@) == (if display_lines(lines_of(text@), max_line_length as nat).len() == 0
            && text@.len() > 0 {
            broken(text@, max_line_length as nat)
        } else {
            display_lines(lines_of(text@), max_line_length as nat)
        }),
{
    let c = chars_of(text);
    let lines = split_lines(c.as_slice());
    let mut r: Vec<String> = Vec::new();
    let mut k: usize = 0;
    while k < lines.len()
        invariant
            max_line_length > 0,
            k <= lines@.len(),
            vviews(lines@) == lines_of(text@),
            views(r@) == display_lines(vviews(lines@).take(k as int), max_line_length as nat),
        decreases lines.len() - k,
    {
        let l = &lines[k];
        proof {
            let t = vviews(lines@).take(k + 1);
            assert(t.drop_last() =~= vviews(lines@).take(k as int));
            assert(t.last() == l@);
        }
        let s = string_from(l.as_slice());
        if l.len() <= max_line_length {
            proof {
                assert(views(r@.push(s)) =~= views(r@) + seq![s@]);
            }
            r.push(s);
        } else {
            let mut b = break_long_line(s.as_str(), max_line_length);
            proof {
                assert(views(r@ + b@) =~= views(r@) + views(b@));
            }
            r.append(&mut b);
        }
        k = k + 1;
    }
    assert(vviews(lines@).take(k as int) =~= vviews(lines@));
    if r.len() == 0 && c.len() > 0 {
        return break_long_line(text, max_line_length);
    }
    r
}

} // verus!
