//! Scope location: where the body of a function ends.
use vstd::prelude::*;
use crate::text::{chars_of, find_char, find_from, first_at, next_char, slice};

verus! {

/// Scanning from `i` with `open` braces still open, the position of the `}` that
/// closes the last of them, or -1 when the text ends first.
pub open spec fn close_scan(t: Seq<char>, i: int, open: int) -> int
    decreases t.len() - i,
{
    if i < 0 || i >= t.len() {
        -1
    } else {
        let o = if t[i] == '}' {
            open - 1
        } else if t[i] == '{' {
            open + 1
        } else {
            open
        };
        if o == 0 {
            i
        } else {
            close_scan(t, i + 1, o)
        }
    }
}

/// The position of the `}` that balances a `{` standing just before `start`; `start`
/// itself when the text ends before the braces balance.
pub open spec fn scope_end(t: Seq<char>, start: int) -> int {
    let c = close_scan(t, start, 1);
    if c >= 0 {
        c
    } else {
        start
    }
}

/// The body of the function whose signature is `sig`: from just after the first `{`
/// that follows the first occurrence of `sig` in `t`, up to its balancing `}`. Two
/// functions whose signatures read the same share the body of the first.
pub open spec fn body_span(t: Seq<char>, sig: Seq<char>) -> Option<(int, int)> {
    let pos = first_at(t, sig, 0);
    if pos < 0 {
        None
    } else {
        let b = next_char(t, '{', pos);
        if b >= t.len() {
            None
        } else {
            Some((b + 1, scope_end(t, b + 1)))
        }
    }
}

pub proof fn lemma_close_scan_bounds(t: Seq<char>, i: int, open: int)
    requires
        0 <= i,
    ensures
        close_scan(t, i, open) == -1 || i <= close_scan(t, i, open) < t.len(),
    decreases t.len() - i,
{
    if i < t.len() {
        let o = if t[i] == '}' {
            open - 1
        } else if t[i] == '{' {
            open + 1
        } else {
            open
        };
        if o != 0 {
            lemma_close_scan_bounds(t, i + 1, o);
        }
    }
}

/// The position of the `}` that balances the `{` just before `start`.
pub fn scope_close(t: &Vec<char>, start: usize) -> (r: usize)
    requires
        start <= t.len(),
    ensures
        r == scope_end(t@, start as int),
        start <= r <= t.len(),
{
    let mut open: u128 = 1;
    let mut i: usize = start;
    while i < t.len()
        invariant
            start <= i <= t.len(),
            1 <= open <= i - start + 1,
            close_scan(t@, start as int, 1) == close_scan(t@, i as int, open as int),
        decreases t.len() - i,
    {
        if t[i] == '}' {
            open = open - 1;
        } else if t[i] == '{' {
            open = open + 1;
        }
        if open == 0 {
            proof {
                lemma_close_scan_bounds(t@, start as int, 1);
            }
            return i;
        }
        i = i + 1;
    }
    start
}

/// The offset of the `}` that closes the function body opened just before the
/// character offset `start`; `start` when the text ends before the braces balance.
pub fn find_end_of_func(code: &str, start: usize) -> (r: usize)
    requires
        start <= code@.len(),
    ensures
        r == scope_end(code@, start as int),
{
    let t = chars_of(code);
    scope_close(&t, start)
}

/// The body of the function whose signature is `sig`, located by the first
/// occurrence of `sig` in `t`.
pub fn body_of(t: &Vec<char>, sig: &Vec<char>) -> (r: Option<Vec<char>>)
    ensures
        match body_span(t@, sig@) {
            Some((s, e)) => r matches Some(b) && b@ == t@.subrange(s, e),
            None => r is None,
        },
{
    match find_from(t, sig, 0) {
        None => None,
        Some(pos) => {
            let b = find_char(t, '{', pos);
            if b >= t.len() {
                None
            } else {
                let e = scope_close(t, b + 1);
                Some(slice(t, b + 1, e))
            }
        },
    }
}

} // verus!
