//! Comment removal, inclusion statements and type declarations.
use vstd::prelude::*;
use crate::facts::{Include, Typedefs};
use crate::text::{
    at, chars_of, find_char, find_from, first_at, is_at, lemma_assoc, line_end, next_char,
    skip_space, slice, space_end, text_of, trim, trimmed,
};

verus! {

/// `t` from `i` on without its comments: a block comment runs from `/*` to the first
/// `*/` after it, a line comment from `//` up to the end of its line.
pub open spec fn uncommented_from(t: Seq<char>, i: int) -> Seq<char>
    decreases t.len() - i,
{
    if i < 0 || i >= t.len() {
        seq![]
    } else if at(t, i, "/*"@) && first_at(t, "*/"@, i + 2) >= 0 {
        let c = first_at(t, "*/"@, i + 2);
        if i < c + 2 <= t.len() {
            uncommented_from(t, c + 2)
        } else {
            seq![]
        }
    } else if at(t, i, "//"@) {
        let e = line_end(t, i);
        if i < e <= t.len() {
            uncommented_from(t, e)
        } else {
            seq![]
        }
    } else {
        seq![t[i]] + uncommented_from(t, i + 1)
    }
}

pub open spec fn uncommented(t: Seq<char>) -> Seq<char> {
    uncommented_from(t, 0)
}

/// The sequence without repeated items: each kept where it first occurs.
pub open spec fn first_occurrences(s: Seq<Seq<char>>) -> Seq<Seq<char>>
    decreases s.len(),
{
    if s.len() == 0 {
        seq![]
    } else {
        let d = first_occurrences(s.drop_last());
        if d.contains(s.last()) {
            d
        } else {
            d.push(s.last())
        }
    }
}

/// The last position in `[lo, hi)` that holds `"` or `>`, or -1.
pub open spec fn last_close(t: Seq<char>, lo: int, hi: int) -> int
    decreases hi - lo,
{
    if hi <= lo || hi > t.len() || lo < 0 {
        -1
    } else if t[hi - 1] == '"' || t[hi - 1] == '>' {
        hi - 1
    } else {
        last_close(t, lo, hi - 1)
    }
}

/// The end of the inclusion statement that starts at `i`, or -1: `#include`,
/// whitespace, `"` or `<`, then on the same line at least one character and the last
/// `"` or `>` of that line.
pub open spec fn inc_at(t: Seq<char>, i: int) -> int {
    if at(t, i, "#include"@) {
        let j = space_end(t, i + 8);
        if i + 8 < j < t.len() && (t[j] == '"' || t[j] == '<') {
            let m = last_close(t, j + 2, line_end(t, j + 1));
            if m >= 0 {
                m + 1
            } else {
                -1
            }
        } else {
            -1
        }
    } else {
        -1
    }
}

pub open spec fn incs_from(t: Seq<char>, i: int) -> Seq<Seq<char>>
    decreases t.len() - i,
{
    if i < 0 || i >= t.len() {
        seq![]
    } else if i < inc_at(t, i) <= t.len() {
        seq![trimmed(t.subrange(i, inc_at(t, i)))] + incs_from(t, inc_at(t, i))
    } else {
        incs_from(t, i + 1)
    }
}

/// The first `}` at or after `k` that a `;` follows on the same line, or -1.
pub open spec fn closing_from(t: Seq<char>, k: int) -> int
    decreases t.len() - k,
{
    if k < 0 || k >= t.len() {
        -1
    } else if t[k] == '}' && next_char(t, ';', k + 1) < line_end(t, k + 1) {
        k
    } else {
        closing_from(t, k + 1)
    }
}

/// The end of the type declaration that starts at `i`, or -1: `typedef`, whitespace,
/// then either a `{` on the same line, a body up to a `}` that a `;` follows on its
/// line, and that `;`; or else anything up to the next `;`.
pub open spec fn typedef_at(t: Seq<char>, i: int) -> int {
    if at(t, i, "typedef"@) {
        let j = space_end(t, i + 7);
        let b = next_char(t, '{', j);
        let c = closing_from(t, b + 1);
        let s = next_char(t, ';', j + 1);
        if j <= i + 7 {
            -1
        } else if b < line_end(t, j) && c >= 0 {
            next_char(t, ';', c + 1) + 1
        } else if s < t.len() {
            s + 1
        } else if j < t.len() && t[j] == ';' && j >= i + 9 {
            j + 1
        } else {
            -1
        }
    } else {
        -1
    }
}

pub open spec fn typedefs_from(t: Seq<char>, i: int) -> Seq<Seq<char>>
    decreases t.len() - i,
{
    if i < 0 || i >= t.len() {
        seq![]
    } else if i < typedef_at(t, i) <= t.len() {
        seq![trimmed(t.subrange(i, typedef_at(t, i)))] + typedefs_from(t, typedef_at(t, i))
    } else {
        typedefs_from(t, i + 1)
    }
}

/// `t` without its comments.
pub fn strip_comments(t: &Vec<char>) -> (r: Vec<char>)
    ensures
        r@ == uncommented(t@),
{
    let open = chars_of("/*");
    let close = chars_of("*/");
    let line = chars_of("//");
    proof {
        reveal_strlit("*/");
        reveal_strlit("/*");
        reveal_strlit("//");
    }
    let mut out: Vec<char> = Vec::new();
    let mut i: usize = 0;
    while i < t.len()
        invariant
            i <= t.len(),
            open@ == "/*"@,
            close@ == "*/"@,
            close@.len() == 2,
            open@.len() == 2,
            line@ == "//"@,
            line@.len() == 2,
            line@[0] == '/',
            uncommented(t@) == out@ + uncommented_from(t@, i as int),
        decreases t.len() - i,
    {
        let c = if is_at(t, i, &open) && t.len() - i >= 2 {
            find_from(t, &close, i + 2)
        } else {
            None
        };
        if is_at(t, i, &open) && c.is_some() {
            let c = c.unwrap();
            i = c + 2;
        } else if is_at(t, i, &line) {
            assert(t@[i as int] == t@.subrange(i as int, i + 2)[0]);
            i = find_char(t, '\n', i);
        } else {
            proof {
                lemma_assoc(out@, seq![t@[i as int]], uncommented_from(t@, i + 1));
            }
            out.push(t[i]);
            i = i + 1;
        }
    }
    assert(out@ + seq![] =~= out@);
    out
}

/// `code` without its comments.
pub fn remove_comments(code: &str) -> (r: String)
    ensures
        r@ == uncommented(code@),
{
    text_of(&strip_comments(&chars_of(code)))
}

fn last_close_of(t: &Vec<char>, lo: usize, hi: usize) -> (r: Option<usize>)
    requires
        hi <= t.len(),
    ensures
        match r {
            Some(m) => last_close(t@, lo as int, hi as int) == m && lo <= m < hi,
            None => last_close(t@, lo as int, hi as int) == -1,
        },
{
    let mut k: usize = hi;
    while k > lo
        invariant
            k <= hi <= t.len(),
            last_close(t@, lo as int, hi as int) == last_close(t@, lo as int, k as int),
        decreases k,
    {
        if t[k - 1] == '"' || t[k - 1] == '>' {
            return Some(k - 1);
        }
        k = k - 1;
    }
    None
}

fn inc_end(t: &Vec<char>, i: usize) -> (r: Option<usize>)
    requires
        i < t.len(),
    ensures
        match r {
            Some(e) => inc_at(t@, i as int) == e && i < e <= t.len(),
            None => inc_at(t@, i as int) == -1,
        },
{
    let kw = chars_of("#include");
    proof {
        reveal_strlit("#include");
    }
    if !is_at(t, i, &kw) {
        return None;
    }
    let j = skip_space(t, i + 8);
    if !(i + 8 < j && j < t.len() && j + 1 < t.len() && (t[j] == '"' || t[j] == '<')) {
        return None;
    }
    let le = find_char(t, '\n', j + 1);
    match last_close_of(t, j + 2, le) {
        Some(m) => Some(m + 1),
        None => None,
    }
}

proof fn lemma_first_occurrences_step(s: Seq<Seq<char>>, k: int)
    requires
        0 <= k < s.len(),
    ensures
        first_occurrences(s.subrange(0, k + 1)) == if first_occurrences(
            s.subrange(0, k),
        ).contains(s[k]) {
            first_occurrences(s.subrange(0, k))
        } else {
            first_occurrences(s.subrange(0, k)).push(s[k])
        },
{
    assert(s.subrange(0, k + 1).drop_last() =~= s.subrange(0, k));
}

/// Keeps the first occurrence of each text, in order.
fn keep_first(items: &Vec<Vec<char>>) -> (r: Vec<Vec<char>>)
    ensures
        r@.map_values(|v: Vec<char>| v@) == first_occurrences(
            items@.map_values(|v: Vec<char>| v@),
        ),
{
    let ghost s = items@.map_values(|v: Vec<char>| v@);
    let mut out: Vec<Vec<char>> = Vec::new();
    let mut k: usize = 0;
    while k < items.len()
        invariant
            k <= items.len(),
            s == items@.map_values(|v: Vec<char>| v@),
            out@.map_values(|v: Vec<char>| v@) == first_occurrences(s.subrange(0, k as int)),
        decreases items.len() - k,
    {
        proof {
            lemma_first_occurrences_step(s, k as int);
        }
        let ghost d = out@.map_values(|v: Vec<char>| v@);
        let mut seen = false;
        let mut j: usize = 0;
        while j < out.len()
            invariant
                j <= out.len(),
                d == out@.map_values(|v: Vec<char>| v@),
                k < items.len(),
                s == items@.map_values(|v: Vec<char>| v@),
                seen == exists|m: int| 0 <= m < j && d[m] == s[k as int],
            decreases out.len() - j,
        {
            let eq = crate::text::same(&out[j], &items[k]);
            assert(d[j as int] == out@[j as int]@);
            assert(s[k as int] == items@[k as int]@);
            if eq {
                seen = true;
            }
            proof {
                if !eq {
                    assert forall|m: int| 0 <= m < j + 1 && d[m] == s[k as int] implies 0 <= m
                        < j && d[m] == s[k as int] by {}
                }
            }
            j = j + 1;
        }
        assert(seen == d.contains(s[k as int]));
        if !seen {
            let copy = slice(&items[k], 0, items[k].len());
            assert(copy@ =~= items@[k as int]@);
            out.push(copy);
            assert(out@.map_values(|v: Vec<char>| v@) =~= d.push(s[k as int]));
        }
        k = k + 1;
    }
    assert(s.subrange(0, items.len() as int) =~= s);
    out
}

fn inc_texts(t: &Vec<char>) -> (r: Vec<Vec<char>>)
    ensures
        r@.map_values(|v: Vec<char>| v@) == incs_from(t@, 0),
{
    let mut out: Vec<Vec<char>> = Vec::new();
    let mut i: usize = 0;
    assert(out@.map_values(|v: Vec<char>| v@) =~= seq![]);
    while i < t.len()
        invariant
            i <= t.len(),
            incs_from(t@, 0) == out@.map_values(|v: Vec<char>| v@) + incs_from(t@, i as int),
        decreases t.len() - i,
    {
        match inc_end(t, i) {
            Some(e) => {
                let x = trim(&slice(t, i, e));
                let ghost before = out@.map_values(|v: Vec<char>| v@);
                out.push(x);
                assert(out@.map_values(|v: Vec<char>| v@) =~= before.push(x@));
                assert(before + (seq![x@] + incs_from(t@, e as int)) =~= before.push(x@)
                    + incs_from(t@, e as int));
                i = e;
            },
            None => {
                i = i + 1;
            },
        }
    }
    assert(out@.map_values(|v: Vec<char>| v@) + seq![] =~= out@.map_values(|v: Vec<char>| v@));
    out
}

fn closing_of(t: &Vec<char>, k: usize) -> (r: Option<usize>)
    ensures
        match r {
            Some(c) => closing_from(t@, k as int) == c && k <= c < t.len() && next_char(
                t@,
                ';',
                c + 1,
            ) < t.len(),
            None => closing_from(t@, k as int) == -1,
        },
{
    let mut c: usize = k;
    while c < t.len()
        invariant
            k <= c,
            closing_from(t@, k as int) == closing_from(t@, c as int),
        decreases t.len() - c,
    {
        if t[c] == '}' && find_char(t, ';', c + 1) < find_char(t, '\n', c + 1) {
            return Some(c);
        }
        c = c + 1;
    }
    None
}

fn typedef_end(t: &Vec<char>, i: usize) -> (r: Option<usize>)
    requires
        i < t.len(),
    ensures
        match r {
            Some(e) => typedef_at(t@, i as int) == e && i < e <= t.len(),
            None => typedef_at(t@, i as int) == -1,
        },
{
    let kw = chars_of("typedef");
    proof {
        reveal_strlit("typedef");
    }
    if !is_at(t, i, &kw) {
        return None;
    }
    let j = skip_space(t, i + 7);
    if j <= i + 7 || j >= t.len() {
        return None;
    }
    let b = find_char(t, '{', j);
    let le = find_char(t, '\n', j);
    if b < le {
        match closing_of(t, b + 1) {
            Some(c) => {
                let s = find_char(t, ';', c + 1);
                return Some(s + 1);
            },
            None => {},
        }
    }
    let s = find_char(t, ';', j + 1);
    if s < t.len() {
        Some(s + 1)
    } else if j < t.len() && t[j] == ';' && j >= i + 9 {
        Some(j + 1)
    } else {
        None
    }
}

fn typedef_texts(t: &Vec<char>) -> (r: Vec<Vec<char>>)
    ensures
        r@.map_values(|v: Vec<char>| v@) == typedefs_from(t@, 0),
{
    let mut out: Vec<Vec<char>> = Vec::new();
    let mut i: usize = 0;
    assert(out@.map_values(|v: Vec<char>| v@) =~= seq![]);
    while i < t.len()
        invariant
            i <= t.len(),
            typedefs_from(t@, 0) == out@.map_values(|v: Vec<char>| v@) + typedefs_from(
                t@,
                i as int,
            ),
        decreases t.len() - i,
    {
        match typedef_end(t, i) {
            Some(e) => {
                let x = trim(&slice(t, i, e));
                let ghost before = out@.map_values(|v: Vec<char>| v@);
                out.push(x);
                assert(out@.map_values(|v: Vec<char>| v@) =~= before.push(x@));
                assert(before + (seq![x@] + typedefs_from(t@, e as int)) =~= before.push(x@)
                    + typedefs_from(t@, e as int));
                i = e;
            },
            None => {
                i = i + 1;
            },
        }
    }
    assert(out@.map_values(|v: Vec<char>| v@) + seq![] =~= out@.map_values(|v: Vec<char>| v@));
    out
}

pub open spec fn inc_views(v: Seq<Include>) -> Seq<Seq<char>> {
    v.map_values(|x: Include| x@)
}

pub open spec fn typedef_views(v: Seq<Typedefs>) -> Seq<Seq<char>> {
    v.map_values(|x: Typedefs| x@)
}

/// The inclusion statements of `t`, each kept once, in the order they first occur.
pub fn includes_in(t: &Vec<char>) -> (r: Vec<Include>)
    ensures
        inc_views(r@) == first_occurrences(incs_from(t@, 0)),
{
    let found = keep_first(&inc_texts(t));
    let mut out: Vec<Include> = Vec::new();
    let mut k: usize = 0;
    while k < found.len()
        invariant
            k <= found.len(),
            inc_views(out@) == found@.map_values(|v: Vec<char>| v@).subrange(0, k as int),
        decreases found.len() - k,
    {
        let ghost before = inc_views(out@);
        out.push(Include { captured: text_of(&found[k]) });
        assert(inc_views(out@) =~= before.push(found@[k as int]@));
        assert(found@.map_values(|v: Vec<char>| v@).subrange(0, k + 1) =~= found@.map_values(
            |v: Vec<char>| v@,
        ).subrange(0, k as int).push(found@[k as int]@));
        k = k + 1;
    }
    assert(found@.map_values(|v: Vec<char>| v@).subrange(0, k as int) =~= found@.map_values(
        |v: Vec<char>| v@,
    ));
    out
}

/// The type declarations of `t`, each kept once, in the order they first occur.
pub fn typedefs_in(t: &Vec<char>) -> (r: Vec<Typedefs>)
    ensures
        typedef_views(r@) == first_occurrences(typedefs_from(t@, 0)),
{
    let found = keep_first(&typedef_texts(t));
    let mut out: Vec<Typedefs> = Vec::new();
    let mut k: usize = 0;
    while k < found.len()
        invariant
            k <= found.len(),
            typedef_views(out@) == found@.map_values(|v: Vec<char>| v@).subrange(0, k as int),
        decreases found.len() - k,
    {
        let ghost before = typedef_views(out@);
        out.push(Typedefs { captured: text_of(&found[k]) });
        assert(typedef_views(out@) =~= before.push(found@[k as int]@));
        assert(found@.map_values(|v: Vec<char>| v@).subrange(0, k + 1) =~= found@.map_values(
            |v: Vec<char>| v@,
        ).subrange(0, k as int).push(found@[k as int]@));
        k = k + 1;
    }
    assert(found@.map_values(|v: Vec<char>| v@).subrange(0, k as int) =~= found@.map_values(
        |v: Vec<char>| v@,
    ));
    out
}

/// The inclusion statements of `code`, each kept once, in the order they first occur.
pub fn get_incs(code: &str) -> (r: Vec<Include>)
    ensures
        inc_views(r@) == first_occurrences(incs_from(code@, 0)),
{
    includes_in(&chars_of(code))
}

/// The type declarations of `code`, each kept once, in the order they first occur.
pub fn get_typedefs(code: &str) -> (r: Vec<Typedefs>)
    ensures
        typedef_views(r@) == first_occurrences(typedefs_from(code@, 0)),
{
    typedefs_in(&chars_of(code))
}

proof fn lemma_first_occurrences(s: Seq<Seq<char>>)
    ensures
        forall|a: int, b: int|
            0 <= a < b < first_occurrences(s).len() ==> first_occurrences(s)[a]
                != first_occurrences(s)[b],
        forall|k: int| 0 <= k < s.len() ==> first_occurrences(s).contains(#[trigger] s[k]),
        forall|a: int| 0 <= a < first_occurrences(s).len() ==> s.contains(
            #[trigger] first_occurrences(s)[a],
        ),
    decreases s.len(),
{
    if s.len() > 0 {
        let r = s.drop_last();
        lemma_first_occurrences(r);
        let d = first_occurrences(r);
        assert forall|k: int| 0 <= k < s.len() implies first_occurrences(s).contains(
            #[trigger] s[k],
        ) by {
            if k < s.len() - 1 {
                assert(r[k] == s[k]);
                assert(d.contains(r[k]));
                if !d.contains(s.last()) {
                    let j = choose|j: int| 0 <= j < d.len() && d[j] == r[k];
                    assert(d.push(s.last())[j] == s[k]);
                }
            } else {
                if !d.contains(s.last()) {
                    assert(d.push(s.last())[d.len() as int] == s[k]);
                }
            }
        }
        assert forall|a: int| 0 <= a < first_occurrences(s).len() implies s.contains(
            #[trigger] first_occurrences(s)[a],
        ) by {
            if a < d.len() {
                assert(r.contains(d[a]));
                let j = choose|j: int| 0 <= j < r.len() && r[j] == d[a];
                assert(s[j] == d[a]);
            } else {
                assert(s[s.len() - 1] == s.last());
            }
        }
    }
}

/// Duplicate inclusion statements collapse: each statement of the text appears
/// exactly once among the extracted includes, and nothing else does.
pub proof fn law_includes_collapse(code: Seq<char>)
    ensures
        forall|a: int, b: int|
            0 <= a < b < first_occurrences(incs_from(code, 0)).len() ==> first_occurrences(
                incs_from(code, 0),
            )[a] != first_occurrences(incs_from(code, 0))[b],
        forall|k: int|
            0 <= k < incs_from(code, 0).len() ==> first_occurrences(incs_from(code, 0)).contains(
                #[trigger] incs_from(code, 0)[k],
            ),
        forall|a: int|
            0 <= a < first_occurrences(incs_from(code, 0)).len() ==> incs_from(code, 0).contains(
                #[trigger] first_occurrences(incs_from(code, 0))[a],
            ),
{
    lemma_first_occurrences(incs_from(code, 0));
}

} // verus!
