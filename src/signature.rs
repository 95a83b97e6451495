//! Function definitions: signature matching and the argument lists.
use vstd::prelude::*;
use crate::facts::{fn_views, FnFacts, Function};
use crate::text::{
    at, chars_of, contains_nocase, text_of, collapse, collapsed, find_char, holds_nocase, is_at, is_space, is_word,
    lemma_assoc, next_char, push_all, replace_all, replaced, run_end, same, skip_space,
    skip_word, slice, space, space_end, trail, trim, trimmed, word, word_end,
};

verus! {

/// Characters that may stand between the start of a return type and the `(`.
pub open spec fn sig_class(c: char) -> bool {
    is_word(c) || is_space(c) || c == '*'
}

/// Characters of an argument list: none that marks a call, a test or a statement.
pub open spec fn arg_class(c: char) -> bool {
    c != '=' && c != '!' && c != '>' && c != '<' && c != ';' && c != '(' && c != ')' && c != '-'
}

/// Start of the identifier run that ends at `j`, not going below `lo`.
pub open spec fn word_start(t: Seq<char>, lo: int, j: int) -> int
    decreases j - lo,
{
    if lo < j && j <= t.len() && is_word(t[j - 1]) {
        word_start(t, lo, j - 1)
    } else {
        j
    }
}

/// Positions of one signature match: the whole match, the return type, the name
/// and the argument list.
pub struct Sig {
    pub start: int,
    pub ret_lo: int,
    pub ret_hi: int,
    pub name_lo: int,
    pub name_hi: int,
    pub args_lo: int,
    pub args_hi: int,
    pub end: int,
}

/// `(args)`, optional whitespace and `{`, with the `(` at `q`: the argument span and
/// the end of the match.
pub open spec fn sig_tail(t: Seq<char>, q: int) -> Option<(int, int, int)> {
    if 0 <= q < t.len() && t[q] == '(' {
        let ae = run_end(t, q + 1, |c: char| arg_class(c));
        if ae < t.len() && t[ae] == ')' {
            let s = space_end(t, ae + 1);
            if s < t.len() && t[s] == '{' {
                Some((q + 1, ae, s + 1))
            } else {
                None
            }
        } else {
            None
        }
    } else {
        None
    }
}

/// A signature `rtype name(args) {` starting at `p`: the return type is a run of
/// identifier characters, whitespace and `*` that begins with an identifier character
/// and ends with whitespace, and the name is the identifier just before the `(`.
pub open spec fn plain_sig(t: Seq<char>, p: int) -> Option<Sig> {
    if 0 <= p < t.len() && is_word(t[p]) {
        let e = run_end(t, p, |c: char| sig_class(c));
        let ne = trail(t, p, e);
        let ns = word_start(t, p, ne);
        if p < ns && ns < ne && is_space(t[ns - 1]) {
            match sig_tail(t, e) {
                Some((a, b, end)) => Some(
                    Sig {
                        start: p,
                        ret_lo: p,
                        ret_hi: ns,
                        name_lo: ns,
                        name_hi: ne,
                        args_lo: a,
                        args_hi: b,
                        end,
                    },
                ),
                None => None,
            }
        } else {
            None
        }
    } else {
        None
    }
}

/// A signature `FUNC(rtype, ...) name(args) {` starting at `p`.
pub open spec fn macro_sig(t: Seq<char>, p: int) -> Option<Sig> {
    if at(t, p, "FUNC("@) {
        let c1 = next_char(t, ',', p + 5);
        let c2 = next_char(t, ')', c1 + 1);
        let n = space_end(t, c2 + 1);
        let ne = word_end(t, n);
        if p + 5 < c1 < t.len() && c1 + 1 < c2 < t.len() && n < ne {
            match sig_tail(t, space_end(t, ne)) {
                Some((a, b, end)) => Some(
                    Sig {
                        start: p,
                        ret_lo: p + 5,
                        ret_hi: c1,
                        name_lo: n,
                        name_hi: ne,
                        args_lo: a,
                        args_hi: b,
                        end,
                    },
                ),
                None => None,
            }
        } else {
            None
        }
    } else {
        None
    }
}

/// The signature that starts at `p`, the plain form taking precedence.
pub open spec fn sig_at(t: Seq<char>, p: int) -> Option<Sig> {
    match plain_sig(t, p) {
        Some(m) => Some(m),
        None => macro_sig(t, p),
    }
}

/// The return type without the storage and inline words.
pub open spec fn strip_storage(r: Seq<char>) -> Seq<char> {
    trimmed(
        replaced(
            replaced(replaced(replaced(r, "static"@, seq![]), "STATIC"@, seq![]), "inline"@, seq![]),
            "INLINE"@,
            seq![],
        ),
    )
}

/// The argument list with whitespace runs made single spaces and backslashes
/// dropped; empty when it is `void`.
pub open spec fn norm_args(s: Seq<char>) -> Seq<char> {
    let x = trimmed(replaced(collapsed(trimmed(s)), "\\"@, seq![]));
    if x == "void"@ {
        seq![]
    } else {
        x
    }
}

/// The argument list split at each comma, from position `i` on.
pub open spec fn pieces(s: Seq<char>, i: int) -> Seq<Seq<char>>
    decreases s.len() - i,
{
    let c = next_char(s, ',', i);
    if i < 0 || i > s.len() || c >= s.len() || c < i {
        seq![s.subrange(i, s.len() as int)]
    } else {
        seq![s.subrange(i, c)] + pieces(s, c + 1)
    }
}

/// The argument's name may start at `s`: an identifier that runs to the end, or is
/// followed by a bracketed tail.
pub open spec fn name_at(a: Seq<char>, s: int) -> bool {
    let w = word_end(a, s);
    s < w && (w == a.len() || (w < a.len() && a[w] == '[' && a[a.len() - 1] == ']' && a.len()
        - w >= 2))
}

/// The first position from `s` where the argument's name may start, or -1.
pub open spec fn name_start(a: Seq<char>, s: int) -> int
    decreases a.len() - s,
{
    if s < 0 || s >= a.len() {
        -1
    } else if name_at(a, s) {
        s
    } else {
        name_start(a, s + 1)
    }
}

/// An identifier character, whitespace, `const`, optional whitespace and `*` start at `k`.
pub open spec fn const_ptr_at(a: Seq<char>, k: int) -> bool {
    let s1 = space_end(a, k + 1);
    let s2 = space_end(a, s1 + 5);
    0 <= k < a.len() && is_word(a[k]) && k + 1 < s1 && at(a, s1, "const"@) && s2 < a.len()
        && a[s2] == '*'
}

/// The argument type, with a `const` that stands after the base type of a pointer
/// moved to the front.
pub open spec fn arg_type(ty: Seq<char>) -> Seq<char> {
    if exists|k: int| const_ptr_at(ty, k) {
        collapsed("const "@ + replaced(ty, "const"@, seq![]))
    } else {
        ty
    }
}

pub open spec fn count_char(s: Seq<char>, c: char) -> nat
    decreases s.len(),
{
    if s.len() == 0 {
        0
    } else {
        count_char(s.drop_last(), c) + if s.last() == c {
            1nat
        } else {
            0nat
        }
    }
}

/// `s` from `i` on without its bracketed parts.
pub open spec fn unbracketed(s: Seq<char>, i: int) -> Seq<char>
    decreases s.len() - i,
{
    if i < 0 || i >= s.len() {
        seq![]
    } else if s[i] == '[' && next_char(s, ']', i + 1) < s.len() && i < next_char(s, ']', i + 1) {
        unbracketed(s, next_char(s, ']', i + 1) + 1)
    } else {
        seq![s[i]] + unbracketed(s, i + 1)
    }
}

/// The type and the name of one argument, when it has a name.
pub open spec fn entry(piece: Seq<char>) -> Option<(Seq<char>, Seq<char>)> {
    let a = trimmed(piece);
    let s = name_start(a, 0);
    if s < 0 {
        None
    } else {
        let nm = trimmed(a.subrange(s, a.len() as int));
        Some(
            (
                arg_type(trimmed(a.subrange(0, s))) + Seq::new(count_char(nm, '['), |i: int| '*'),
                unbracketed(nm, 0),
            ),
        )
    }
}

pub open spec fn entries(ps: Seq<Seq<char>>) -> Seq<(Seq<char>, Seq<char>)>
    decreases ps.len(),
{
    if ps.len() == 0 {
        seq![]
    } else {
        match entry(ps.last()) {
            Some(x) => entries(ps.drop_last()).push(x),
            None => entries(ps.drop_last()),
        }
    }
}

/// The items joined with `, `.
pub open spec fn joined_list(xs: Seq<Seq<char>>) -> Seq<char>
    decreases xs.len(),
{
    if xs.len() == 0 {
        seq![]
    } else if xs.len() == 1 {
        xs[0]
    } else {
        joined_list(xs.drop_last()) + ", "@ + xs.last()
    }
}

/// The argument types and the argument names of an argument list, each joined
/// with `, `; both empty when the types read `void`.
pub open spec fn arg_lists(args: Seq<char>) -> (Seq<char>, Seq<char>) {
    let es = entries(pieces(args, 0));
    let ty = joined_list(es.map_values(|e: (Seq<char>, Seq<char>)| e.0));
    if trimmed(ty) == "void"@ {
        (seq![], seq![])
    } else {
        (ty, joined_list(es.map_values(|e: (Seq<char>, Seq<char>)| e.1)))
    }
}

/// The facts of the function whose signature is the match `m`.
pub open spec fn fn_facts(t: Seq<char>, m: Sig) -> FnFacts {
    let cap = trimmed(t.subrange(m.start, m.end));
    let args = norm_args(t.subrange(m.args_lo, m.args_hi));
    FnFacts {
        captured: cap,
        name: trimmed(t.subrange(m.name_lo, m.name_hi)),
        is_local: holds_nocase(t.subrange(m.start, m.end), "static"@),
        rtype: strip_storage(t.subrange(m.ret_lo, m.ret_hi)),
        args: args,
        atypes: arg_lists(args).0,
        anames: arg_lists(args).1,
    }
}

/// The functions defined in `t` from `i` on: the leftmost signature match, then the
/// search goes on after it; a match whose name is `if` is dropped.
pub open spec fn fncs_from(t: Seq<char>, i: int) -> Seq<FnFacts>
    decreases t.len() - i,
{
    if i < 0 || i >= t.len() {
        seq![]
    } else {
        match sig_at(t, i) {
            Some(m) => if i < m.end <= t.len() {
                if fn_facts(t, m).name == "if"@ {
                    fncs_from(t, m.end)
                } else {
                    seq![fn_facts(t, m)] + fncs_from(t, m.end)
                }
            } else {
                seq![]
            },
            None => fncs_from(t, i + 1),
        }
    }
}

/// Positions of one signature match.
pub struct SigPos {
    pub start: usize,
    pub ret_lo: usize,
    pub ret_hi: usize,
    pub name_lo: usize,
    pub name_hi: usize,
    pub args_lo: usize,
    pub args_hi: usize,
    pub end: usize,
}

impl View for SigPos {
    type V = Sig;

    open spec fn view(&self) -> Sig {
        Sig {
            start: self.start as int,
            ret_lo: self.ret_lo as int,
            ret_hi: self.ret_hi as int,
            name_lo: self.name_lo as int,
            name_hi: self.name_hi as int,
            args_lo: self.args_lo as int,
            args_hi: self.args_hi as int,
            end: self.end as int,
        }
    }
}

pub open spec fn sig_view(r: Option<SigPos>) -> Option<Sig> {
    match r {
        Some(x) => Some(x@),
        None => None,
    }
}

pub open spec fn sig_ok(t: Seq<char>, m: Sig) -> bool {
    0 <= m.start <= m.ret_lo <= m.ret_hi <= m.name_lo <= m.name_hi < m.args_lo <= m.args_hi
        < m.end <= t.len()
}

fn skip_sig_class(t: &Vec<char>, i: usize) -> (r: usize)
    requires
        i <= t.len(),
    ensures
        r == run_end(t@, i as int, |c: char| sig_class(c)),
        i <= r <= t.len(),
{
    let mut k: usize = i;
    while k < t.len() && (word(t[k]) || space(t[k]) || t[k] == '*')
        invariant
            i <= k <= t.len(),
            run_end(t@, i as int, |c: char| sig_class(c)) == run_end(
                t@,
                k as int,
                |c: char| sig_class(c),
            ),
        decreases t.len() - k,
    {
        k = k + 1;
    }
    k
}

fn skip_arg_class(t: &Vec<char>, i: usize) -> (r: usize)
    requires
        i <= t.len(),
    ensures
        r == run_end(t@, i as int, |c: char| arg_class(c)),
        i <= r <= t.len(),
{
    let mut k: usize = i;
    while k < t.len() && t[k] != '=' && t[k] != '!' && t[k] != '>' && t[k] != '<' && t[k] != ';'
        && t[k] != '(' && t[k] != ')' && t[k] != '-'
        invariant
            i <= k <= t.len(),
            run_end(t@, i as int, |c: char| arg_class(c)) == run_end(
                t@,
                k as int,
                |c: char| arg_class(c),
            ),
        decreases t.len() - k,
    {
        k = k + 1;
    }
    k
}

fn trail_end(t: &Vec<char>, lo: usize, j: usize) -> (r: usize)
    requires
        lo <= j <= t.len(),
    ensures
        r == trail(t@, lo as int, j as int),
        lo <= r <= j,
{
    let mut k: usize = j;
    while k > lo && space(t[k - 1])
        invariant
            lo <= k <= j <= t.len(),
            trail(t@, lo as int, j as int) == trail(t@, lo as int, k as int),
        decreases k,
    {
        k = k - 1;
    }
    k
}

fn word_back(t: &Vec<char>, lo: usize, j: usize) -> (r: usize)
    requires
        lo <= j <= t.len(),
    ensures
        r == word_start(t@, lo as int, j as int),
        lo <= r <= j,
{
    let mut k: usize = j;
    while k > lo && word(t[k - 1])
        invariant
            lo <= k <= j <= t.len(),
            word_start(t@, lo as int, j as int) == word_start(t@, lo as int, k as int),
        decreases k,
    {
        k = k - 1;
    }
    k
}

fn tail_at(t: &Vec<char>, q: usize) -> (r: Option<(usize, usize, usize)>)
    requires
        q <= t.len(),
    ensures
        match sig_tail(t@, q as int) {
            Some((a, b, e)) => r matches Some((a2, b2, e2)) && a2 == a && b2 == b && e2 == e && q
                < a <= b < e <= t.len(),
            None => r is None,
        },
{
    if q >= t.len() || t[q] != '(' {
        return None;
    }
    let ae = skip_arg_class(t, q + 1);
    if ae >= t.len() || t[ae] != ')' {
        return None;
    }
    let s = skip_space(t, ae + 1);
    if s >= t.len() || t[s] != '{' {
        return None;
    }
    Some((q + 1, ae, s + 1))
}

fn plain_sig_at(t: &Vec<char>, p: usize) -> (r: Option<SigPos>)
    requires
        p <= t.len(),
    ensures
        sig_view(r) == plain_sig(t@, p as int),
        r matches Some(m) ==> sig_ok(t@, m@) && m.start == p,
{
    if p >= t.len() || !word(t[p]) {
        return None;
    }
    let e = skip_sig_class(t, p);
    let ne = trail_end(t, p, e);
    let ns = word_back(t, p, ne);
    if !(p < ns && ns < ne && space(t[ns - 1])) {
        return None;
    }
    match tail_at(t, e) {
        Some((a, b, end)) => Some(
            SigPos {
                start: p,
                ret_lo: p,
                ret_hi: ns,
                name_lo: ns,
                name_hi: ne,
                args_lo: a,
                args_hi: b,
                end,
            },
        ),
        None => None,
    }
}

fn macro_sig_at(t: &Vec<char>, p: usize) -> (r: Option<SigPos>)
    requires
        p <= t.len(),
    ensures
        sig_view(r) == macro_sig(t@, p as int),
        r matches Some(m) ==> sig_ok(t@, m@) && m.start == p,
{
    let head = chars_of("FUNC(");
    proof {
        reveal_strlit("FUNC(");
    }
    if !is_at(t, p, &head) {
        return None;
    }
    let c1 = find_char(t, ',', p + 5);
    if !(p + 5 < c1 && c1 < t.len()) {
        return None;
    }
    let c2 = find_char(t, ')', c1 + 1);
    if !(c1 + 1 < c2 && c2 < t.len()) {
        return None;
    }
    let n = skip_space(t, c2 + 1);
    let ne = skip_word(t, n);
    if !(n < ne) {
        return None;
    }
    let q = skip_space(t, ne);
    match tail_at(t, q) {
        Some((a, b, end)) => Some(
            SigPos {
                start: p,
                ret_lo: p + 5,
                ret_hi: c1,
                name_lo: n,
                name_hi: ne,
                args_lo: a,
                args_hi: b,
                end,
            },
        ),
        None => None,
    }
}

fn sig_match_at(t: &Vec<char>, p: usize) -> (r: Option<SigPos>)
    requires
        p <= t.len(),
    ensures
        sig_view(r) == sig_at(t@, p as int),
        r matches Some(m) ==> sig_ok(t@, m@) && m.start == p,
{
    match plain_sig_at(t, p) {
        Some(m) => Some(m),
        None => macro_sig_at(t, p),
    }
}

fn strip_storage_of(r: &Vec<char>) -> (out: Vec<char>)
    ensures
        out@ == strip_storage(r@),
{
    let none: Vec<char> = Vec::new();
    let a = chars_of("static");
    let b = chars_of("STATIC");
    let c = chars_of("inline");
    let d = chars_of("INLINE");
    proof {
        reveal_strlit("static");
        reveal_strlit("STATIC");
        reveal_strlit("inline");
        reveal_strlit("INLINE");
        assert(none@ =~= seq![]);
    }
    let x = replace_all(r, &a, &none);
    let x = replace_all(&x, &b, &none);
    let x = replace_all(&x, &c, &none);
    let x = replace_all(&x, &d, &none);
    trim(&x)
}

fn norm_args_of(s: &Vec<char>) -> (out: Vec<char>)
    ensures
        out@ == norm_args(s@),
{
    let none: Vec<char> = Vec::new();
    let bs = chars_of("\\");
    proof {
        reveal_strlit("\\");
        assert(none@ =~= seq![]);
    }
    let x = collapse(&trim(s));
    let x = trim(&replace_all(&x, &bs, &none));
    if same(&x, &chars_of("void")) {
        let e: Vec<char> = Vec::new();
        assert(e@ =~= seq![]);
        e
    } else {
        x
    }
}

fn pieces_of(s: &Vec<char>) -> (r: Vec<Vec<char>>)
    ensures
        r@.map_values(|v: Vec<char>| v@) == pieces(s@, 0),
{
    let mut out: Vec<Vec<char>> = Vec::new();
    let mut i: usize = 0;
    loop
        invariant
            i <= s.len(),
            pieces(s@, 0) == out@.map_values(|v: Vec<char>| v@) + pieces(s@, i as int),
        decreases s.len() - i,
    {
        let c = find_char(s, ',', i);
        let piece = if c < s.len() {
            slice(s, i, c)
        } else {
            slice(s, i, s.len())
        };
        let ghost before = out@.map_values(|v: Vec<char>| v@);
        out.push(piece);
        assert(out@.map_values(|v: Vec<char>| v@) =~= before.push(piece@));
        if c >= s.len() {
            assert(pieces(s@, i as int) == seq![piece@]);
            assert(before + seq![piece@] =~= before.push(piece@));
            return out;
        }
        assert(pieces(s@, i as int) == seq![piece@] + pieces(s@, c + 1));
        assert(before + (seq![piece@] + pieces(s@, c + 1)) =~= before.push(piece@) + pieces(
            s@,
            c + 1,
        ));
        i = c + 1;
    }
}

fn name_start_of(a: &Vec<char>) -> (r: Option<usize>)
    ensures
        match r {
            Some(s) => name_start(a@, 0) == s && s < a.len(),
            None => name_start(a@, 0) == -1,
        },
{
    let mut s: usize = 0;
    while s < a.len()
        invariant
            s <= a.len(),
            name_start(a@, 0) == name_start(a@, s as int),
        decreases a.len() - s,
    {
        let w = skip_word(a, s);
        if s < w && (w == a.len() || (w < a.len() && a[w] == '[' && a[a.len() - 1] == ']'
            && a.len() - w >= 2)) {
            return Some(s);
        }
        s = s + 1;
    }
    None
}

fn has_const_ptr(a: &Vec<char>) -> (r: bool)
    ensures
        r == exists|k: int| const_ptr_at(a@, k),
{
    let cst = chars_of("const");
    proof {
        reveal_strlit("const");
    }
    let mut k: usize = 0;
    while k < a.len()
        invariant
            k <= a.len(),
            cst@ == "const"@,
            cst@.len() == 5,
            forall|m: int| 0 <= m < k ==> !const_ptr_at(a@, m),
        decreases a.len() - k,
    {
        if word(a[k]) {
            let s1 = skip_space(a, k + 1);
            if k + 1 < s1 && is_at(a, s1, &cst) {
                let s2 = skip_space(a, s1 + 5);
                if s2 < a.len() && a[s2] == '*' {
                    assert(const_ptr_at(a@, k as int));
                    return true;
                }
            }
        }
        k = k + 1;
    }
    false
}

fn arg_type_of(ty: &Vec<char>) -> (r: Vec<char>)
    ensures
        r@ == arg_type(ty@),
{
    if has_const_ptr(ty) {
        let none: Vec<char> = Vec::new();
        let cst = chars_of("const");
        let mut x = chars_of("const ");
        proof {
            reveal_strlit("const");
            assert(none@ =~= seq![]);
        }
        let rest = replace_all(ty, &cst, &none);
        push_all(&mut x, &rest);
        collapse(&x)
    } else {
        slice(ty, 0, ty.len())
    }
}

fn count_of(s: &Vec<char>, c: char) -> (r: usize)
    ensures
        r == count_char(s@, c),
{
    let mut n: usize = 0;
    let mut i: usize = 0;
    while i < s.len()
        invariant
            i <= s.len(),
            n == count_char(s@.subrange(0, i as int), c),
            n <= i,
        decreases s.len() - i,
    {
        assert(s@.subrange(0, i + 1).drop_last() =~= s@.subrange(0, i as int));
        if s[i] == c {
            n = n + 1;
        }
        i = i + 1;
    }
    assert(s@.subrange(0, s.len() as int) =~= s@);
    n
}

fn unbracket(s: &Vec<char>) -> (r: Vec<char>)
    ensures
        r@ == unbracketed(s@, 0),
{
    let mut out: Vec<char> = Vec::new();
    let mut i: usize = 0;
    while i < s.len()
        invariant
            i <= s.len(),
            unbracketed(s@, 0) == out@ + unbracketed(s@, i as int),
        decreases s.len() - i,
    {
        let close = find_char(s, ']', i + 1);
        if s[i] == '[' && close < s.len() && i < close {
            i = close + 1;
        } else {
            proof {
                lemma_assoc(out@, seq![s@[i as int]], unbracketed(s@, i + 1));
            }
            out.push(s[i]);
            i = i + 1;
        }
    }
    assert(out@ + seq![] =~= out@);
    out
}

fn entry_of(piece: &Vec<char>) -> (r: Option<(Vec<char>, Vec<char>)>)
    ensures
        match entry(piece@) {
            Some((ty, nm)) => r matches Some((a, b)) && a@ == ty && b@ == nm,
            None => r is None,
        },
{
    let a = trim(piece);
    match name_start_of(&a) {
        None => None,
        Some(s) => {
            let nm = trim(&slice(&a, s, a.len()));
            let mut ty = arg_type_of(&trim(&slice(&a, 0, s)));
            let n = count_of(&nm, '[');
            let ghost base = ty@;
            let mut k: usize = 0;
            while k < n
                invariant
                    k <= n,
                    ty@ == base + Seq::new(k as nat, |i: int| '*'),
                decreases n - k,
            {
                ty.push('*');
                k = k + 1;
                assert(ty@ =~= base + Seq::new(k as nat, |i: int| '*'));
            }
            Some((ty, unbracket(&nm)))
        },
    }
}

proof fn lemma_joined_push(xs: Seq<Seq<char>>, x: Seq<char>)
    ensures
        joined_list(xs.push(x)) == if xs.len() == 0 {
            x
        } else {
            joined_list(xs) + ", "@ + x
        },
{
    assert(xs.push(x).drop_last() =~= xs);
}

/// The argument types and names of a normalized argument list.
fn arg_lists_of(args: &Vec<char>) -> (r: (Vec<char>, Vec<char>))
    ensures
        r.0@ == arg_lists(args@).0,
        r.1@ == arg_lists(args@).1,
{
    let ps = pieces_of(args);
    let ghost pv = ps@.map_values(|v: Vec<char>| v@);
    let sep = chars_of(", ");
    proof {
        reveal_strlit(", ");
    }
    let mut types: Vec<char> = Vec::new();
    let mut names: Vec<char> = Vec::new();
    let mut count: usize = 0;
    let mut i: usize = 0;
    while i < ps.len()
        invariant
            i <= ps.len(),
            count <= i,
            count == entries(pv.subrange(0, i as int)).len(),
            pv == ps@.map_values(|v: Vec<char>| v@),
            sep@ == ", "@,
            types@ == joined_list(
                entries(pv.subrange(0, i as int)).map_values(|e: (Seq<char>, Seq<char>)| e.0),
            ),
            names@ == joined_list(
                entries(pv.subrange(0, i as int)).map_values(|e: (Seq<char>, Seq<char>)| e.1),
            ),
        decreases ps.len() - i,
    {
        let ghost es = entries(pv.subrange(0, i as int));
        assert(pv.subrange(0, i + 1).drop_last() =~= pv.subrange(0, i as int));
        assert(pv.subrange(0, i + 1).last() == ps@[i as int]@);
        match entry_of(&ps[i]) {
            Some((ty, nm)) => {
                let ghost x = (ty@, nm@);
                assert(es.push(x).map_values(|e: (Seq<char>, Seq<char>)| e.0) =~= es.map_values(
                    |e: (Seq<char>, Seq<char>)| e.0,
                ).push(ty@));
                assert(es.push(x).map_values(|e: (Seq<char>, Seq<char>)| e.1) =~= es.map_values(
                    |e: (Seq<char>, Seq<char>)| e.1,
                ).push(nm@));
                proof {
                    lemma_joined_push(es.map_values(|e: (Seq<char>, Seq<char>)| e.0), ty@);
                    lemma_joined_push(es.map_values(|e: (Seq<char>, Seq<char>)| e.1), nm@);
                }
                if count > 0 {
                    push_all(&mut types, &sep);
                    push_all(&mut names, &sep);
                }
                push_all(&mut types, &ty);
                push_all(&mut names, &nm);
                count = count + 1;
            },
            None => {},
        }
        i = i + 1;
    }
    assert(pv.subrange(0, ps.len() as int) =~= pv);
    assert(pv == pieces(args@, 0));
    let void_word = chars_of("void");
    if same(&trim(&types), &void_word) {
        (Vec::new(), Vec::new())
    } else {
        (types, names)
    }
}

fn function_at(t: &Vec<char>, m: &SigPos) -> (f: Function)
    requires
        sig_ok(t@, m@),
    ensures
        f@ == fn_facts(t@, m@),
{
    let whole = slice(t, m.start, m.end);
    let cap = trim(&whole);
    let name = trim(&slice(t, m.name_lo, m.name_hi));
    let args = norm_args_of(&slice(t, m.args_lo, m.args_hi));
    let lists = arg_lists_of(&args);
    let rtype = strip_storage_of(&slice(t, m.ret_lo, m.ret_hi));
    let is_local = contains_nocase(&whole, &chars_of("static"));
    Function {
        captured: text_of(&cap),
        name: text_of(&name),
        is_local,
        rtype: text_of(&rtype),
        args: text_of(&args),
        atypes: text_of(&lists.0),
        anames: text_of(&lists.1),
    }
}

/// The functions defined in the text `t`.
pub fn functions_in(t: &Vec<char>) -> (r: Vec<Function>)
    ensures
        fn_views(r@) == fncs_from(t@, 0),
{
    let mut out: Vec<Function> = Vec::new();
    let mut i: usize = 0;
    assert(fn_views(out@) =~= seq![]);
    while i < t.len()
        invariant
            i <= t.len(),
            fncs_from(t@, 0) == fn_views(out@) + fncs_from(t@, i as int),
        decreases t.len() - i,
    {
        match sig_match_at(t, i) {
            Some(m) => {
                let f = function_at(t, &m);
                let is_if = same(&chars_of(f.name.as_str()), &chars_of("if"));
                if !is_if {
                    let ghost before = fn_views(out@);
                    out.push(f);
                    assert(fn_views(out@) =~= before.push(f@));
                    assert(before + (seq![f@] + fncs_from(t@, m.end as int)) =~= before.push(f@)
                        + fncs_from(t@, m.end as int));
                }
                i = m.end;
            },
            None => {
                i = i + 1;
            },
        }
    }
    assert(fn_views(out@) + seq![] =~= fn_views(out@));
    out
}

/// The functions defined in `code`, in the order of their signatures.
pub fn get_fncs(code: &str) -> (r: Vec<Function>)
    ensures
        fn_views(r@) == fncs_from(code@, 0),
{
    functions_in(&chars_of(code))
}

/// A parameter list that reads `void`, whatever whitespace surrounds it, gives empty
/// arguments, argument types and argument names.
pub proof fn law_void_parameters(raw: Seq<char>)
    requires
        trimmed(raw) == "void"@,
    ensures
        norm_args(raw) == Seq::<char>::empty(),
        arg_lists(norm_args(raw)).0 == Seq::<char>::empty(),
        arg_lists(norm_args(raw)).1 == Seq::<char>::empty(),
{
    reveal_strlit("void");
    reveal_strlit("\\");
    let v = "void"@;
    assert(v.len() == 4);
    assert(crate::text::collapse_from(v, 4) == Seq::<char>::empty());
    assert(crate::text::collapse_from(v, 3) =~= seq![v[3]]);
    assert(crate::text::collapse_from(v, 2) =~= seq![v[2], v[3]]);
    assert(crate::text::collapse_from(v, 1) =~= seq![v[1], v[2], v[3]]);
    assert(crate::text::collapse_from(v, 0) =~= v);
    let bs = "\\"@;
    assert(bs.len() == 1 && bs[0] == '\\');
    assert forall|i: int| 0 <= i < 4 implies !at(v, i, bs) by {
        if at(v, i, bs) {
            assert(v.subrange(i, i + 1)[0] == bs[0]);
        }
    }
    assert(crate::text::swap_from(v, bs, seq![], 4) == Seq::<char>::empty());
    assert(crate::text::swap_from(v, bs, seq![], 3) =~= seq![v[3]]);
    assert(crate::text::swap_from(v, bs, seq![], 2) =~= seq![v[2], v[3]]);
    assert(crate::text::swap_from(v, bs, seq![], 1) =~= seq![v[1], v[2], v[3]]);
    assert(crate::text::swap_from(v, bs, seq![], 0) =~= v);
    assert(crate::text::lead(v, 0) == 0);
    assert(crate::text::trail(v, 0, 4) == 4);
    assert(v.subrange(0, 4) =~= v);
    assert(trimmed(v) == v);
    assert(norm_args(raw) == Seq::<char>::empty());
    let e = Seq::<char>::empty();
    assert(next_char(e, ',', 0) == 0);
    assert(e.subrange(0, 0) =~= e);
    assert(pieces(e, 0) =~= seq![e]);
    assert(crate::text::lead(e, 0) == 0);
    assert(crate::text::trail(e, 0, 0) == 0);
    assert(trimmed(e) =~= e);
    assert(name_start(e, 0) == -1);
    assert(entry(e) is None);
    assert(seq![e].drop_last() =~= Seq::<Seq<char>>::empty());
    assert(seq![e].last() == e);
    assert(entries(Seq::<Seq<char>>::empty()) =~= Seq::<(Seq<char>, Seq<char>)>::empty());
    assert(entries(seq![e]) =~= Seq::<(Seq<char>, Seq<char>)>::empty());
    assert(Seq::<(Seq<char>, Seq<char>)>::empty().map_values(|x: (Seq<char>, Seq<char>)| x.0)
        =~= Seq::<Seq<char>>::empty());
    assert(Seq::<(Seq<char>, Seq<char>)>::empty().map_values(|x: (Seq<char>, Seq<char>)| x.1)
        =~= Seq::<Seq<char>>::empty());
    assert(trimmed(e) != v);
}

} // verus!
