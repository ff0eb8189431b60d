//! Resolution of a server-announced endpoint against the stream's base URL.
use vstd::prelude::*;
use crate::text::{chars_of, ends_with_char, extend_chars, find, find_char, find_from, starts_with, string_from, subvec};

verus! {

pub open spec fn scheme_sep() -> Seq<char> {
    seq![':', '/', '/']
}

/// A character that may stand in a URL scheme.
pub open spec fn is_scheme_char(c: char) -> bool {
    ('a' <= c && c <= 'z') || ('A' <= c && c <= 'Z') || ('0' <= c && c <= '9') || c == '+'
        || c == '-' || c == '.'
}

/// `ep` is an absolute URL: a non-empty scheme followed by `://`.
pub open spec fn is_absolute_url(ep: Seq<char>) -> bool {
    match find_from(ep, scheme_sep(), 0) {
        Some(k) => k > 0 && forall|j: int| 0 <= j < k ==> is_scheme_char(#[trigger] ep[j]),
        None => false,
    }
}

/// Where the path of `base` begins (after `scheme://host[:port]`), if `base` has a scheme.
pub open spec fn path_start(base: Seq<char>) -> Option<int> {
    match find_from(base, scheme_sep(), 0) {
        Some(k) => match find_from(base, seq!['/'], k + 3) {
            Some(p) => Some(p),
            None => Some(base.len() as int),
        },
        None => None,
    }
}

/// `endpoint` resolved against `base`.
///
/// An absolute endpoint is kept as it is; one that starts with `/` replaces the
/// whole path of `base`; any other is appended to `base` with exactly one `/`
/// between the two.
pub open spec fn resolve(base: Seq<char>, ep: Seq<char>) -> Seq<char> {
    if is_absolute_url(ep) {
        ep
    } else if starts_with(ep, seq!['/']) {
        match path_start(base) {
            Some(p) => base.subrange(0, p) + ep,
            None => if ends_with_char(base, '/') {
                base.drop_last() + ep
            } else {
                base + ep
            },
        }
    } else if ends_with_char(base, '/') {
        base + ep
    } else {
        base + seq!['/'] + ep
    }
}

fn scheme_sep_exec() -> (r: Vec<char>)
    ensures
        r@ == scheme_sep(),
{
    let r: Vec<char> = vec![':', '/', '/'];
    assert(r@ =~= scheme_sep());
    r
}

fn is_scheme_char_exec(c: char) -> (r: bool)
    ensures
        r == is_scheme_char(c),
{
    ('a' <= c && c <= 'z') || ('A' <= c && c <= 'Z') || ('0' <= c && c <= '9') || c == '+'
        || c == '-' || c == '.'
}

fn is_absolute_url_exec(ep: &[char]) -> (r: bool)
    ensures
        r == is_absolute_url(ep@),
{
    let sep = scheme_sep_exec();
    match find(ep, sep.as_slice(), 0) {
        Some(k) => {
            proof {
                crate::text::lemma_find_from_props(ep@, scheme_sep(), 0);
            }
            if k == 0 {
                return false;
            }
            let mut j: usize = 0;
            while j < k
                invariant
                    j <= k,
                    k <= ep@.len(),
                    find_from(ep@, scheme_sep(), 0) == Some(k as int),
                    forall|i: int| 0 <= i < j ==> is_scheme_char(#[trigger] ep@[i]),
                decreases k - j,
            {
                if !is_scheme_char_exec(ep[j]) {
                    return false;
                }
                j = j + 1;
            }
            true
        },
        None => false,
    }
}

/// Joins the stream's base URL with a server-announced endpoint.
pub fn join_url(base: &str, endpoint: &str) -> (r: String)
    ensures
        r@ == resolve(base@, endpoint@),
{
    let b = chars_of(base);
    let e = chars_of(endpoint);
    if is_absolute_url_exec(e.as_slice()) {
        return string_from(e.as_slice());
    }
    let mut out: Vec<char>;
    if e.len() > 0 && e[0] == '/' {
        assert(starts_with(e@, seq!['/'])) by {
            assert(e@.subrange(0, 1) =~= seq!['/']);
        }
        let sep = scheme_sep_exec();
        match find(b.as_slice(), sep.as_slice(), 0) {
            Some(k) => {
                proof {
                    crate::text::lemma_find_from_props(b@, scheme_sep(), 0);
                    assert(scheme_sep().len() == 3);
                }
                let n = b.len();
                assert(k + 3 <= n);
                let p = match find_char(b.as_slice(), '/', k + 3) {
                    Some(p) => p,
                    None => b.len(),
                };
                proof {
                    crate::text::lemma_find_from_props(b@, seq!['/'], k + 3);
                }
                out = subvec(b.as_slice(), 0, p);
            },
            None => {
                if b.len() > 0 && b[b.len() - 1] == '/' {
                    out = subvec(b.as_slice(), 0, b.len() - 1);
                } else {
                    out = b;
                }
            },
        }
    } else {
        assert(!starts_with(e@, seq!['/'])) by {
            if e@.len() > 0 {
                assert(e@.subrange(0, 1)[0] == e@[0]);
            }
        }
        out = b;
        if !(out.len() > 0 && out[out.len() - 1] == '/') {
            out.push('/');
        }
    }
    extend_chars(&mut out, e.as_slice());
    string_from(out.as_slice())
}

/// An absolute endpoint is used as it is, whatever the base.
pub proof fn lemma_absolute_endpoint_kept(base: Seq<char>, ep: Seq<char>)
    requires
        is_absolute_url(ep),
    ensures
        resolve(base, ep) == ep,
{
}

} // verus!
