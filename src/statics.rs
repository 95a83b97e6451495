//! Variables with static storage, in their plain form and in the helper-macro form.
use vstd::prelude::*;
use crate::facts::{var_views, FnFacts, Function, StaticVariable, VarFacts, fn_views};
use crate::scope::{body_of, body_span};
use crate::text::{
    at, at_nocase, chars_of, contains, contains_nocase, find_char, holds, holds_nocase, int_of,
    is_at, is_at_nocase, line_end, next_char, parse_i32, push_all, skip_space,
    skip_word, slice, space_end, text_of, trim, trimmed, word_end,
};

verus! {

/// The end of the storage keyword (`static` or `const`, any case) and the whitespace
/// after it that start at `k`, or -1.
pub open spec fn kw_end(t: Seq<char>, k: int) -> int {
    if at_nocase(t, k, "static"@) && k + 6 < space_end(t, k + 6) {
        space_end(t, k + 6)
    } else if at_nocase(t, k, "const"@) && k + 5 < space_end(t, k + 5) {
        space_end(t, k + 5)
    } else {
        -1
    }
}

/// The end of the run of storage keywords that starts at `k`.
pub open spec fn kw_run_end(t: Seq<char>, k: int) -> int
    decreases t.len() - k,
{
    let e = kw_end(t, k);
    if k < e <= t.len() {
        kw_run_end(t, e)
    } else {
        k
    }
}

/// The run of storage keywords that starts at `k` holds the keyword `w`.
pub open spec fn run_has(t: Seq<char>, k: int, w: Seq<char>) -> bool
    decreases t.len() - k,
{
    let e = kw_end(t, k);
    if k < e <= t.len() {
        at_nocase(t, k, w) || run_has(t, e, w)
    } else {
        false
    }
}

/// Positions of one declaration: the name, the array size and the initializer when
/// present, and the end just past the `;`.
pub struct Decl {
    pub name_lo: int,
    pub name_hi: int,
    pub size: Option<(int, int)>,
    pub value: Option<(int, int)>,
    pub end: int,
}

/// After the name that ends at `e`: optional whitespace and an array size in brackets
/// on one line, then whitespace. The size span and where the whitespace ends.
pub open spec fn size_part(t: Seq<char>, e: int) -> Option<(Option<(int, int)>, int)> {
    let f = space_end(t, e);
    if f < t.len() && t[f] == '[' {
        let rb = next_char(t, ']', f + 1);
        if rb < line_end(t, f + 1) {
            Some((Some((f + 1, rb)), space_end(t, rb + 1)))
        } else {
            None
        }
    } else {
        Some((None, f))
    }
}

/// The first `}` in `[k, hi)` that a `;` follows at once, or -1.
pub open spec fn brace_semi(t: Seq<char>, k: int, hi: int) -> int
    decreases hi - k,
{
    if k < 0 || k >= hi || hi > t.len() {
        -1
    } else if t[k] == '}' && k + 1 < t.len() && t[k + 1] == ';' {
        k
    } else {
        brace_semi(t, k + 1, hi)
    }
}

/// At `h`: `;`, or `=`, whitespace, an initializer on one line and `;`. A braced
/// initializer runs to the first `}` that a `;` follows, any other to the first `;`.
pub open spec fn value_part(t: Seq<char>, h: int) -> Option<(Option<(int, int)>, int)> {
    if 0 <= h < t.len() && t[h] == ';' {
        Some((None, h + 1))
    } else if 0 <= h < t.len() && t[h] == '=' {
        let v = space_end(t, h + 1);
        let c = brace_semi(t, v + 1, line_end(t, v));
        let s = next_char(t, ';', v);
        if v < t.len() && t[v] == '{' && c >= 0 {
            Some((Some((v, c + 1)), c + 2))
        } else if s < line_end(t, v) {
            Some((Some((v, s)), s + 1))
        } else {
            None
        }
    } else {
        None
    }
}

/// A declaration whose name starts at `d`.
pub open spec fn decl_at(t: Seq<char>, d: int) -> Option<Decl> {
    let e = word_end(t, d);
    if 0 <= d < e {
        match size_part(t, e) {
            Some((size, h)) => match value_part(t, h) {
                Some((value, end)) => Some(
                    Decl { name_lo: d, name_hi: e, size: size, value: value, end: end },
                ),
                None => None,
            },
            None => None,
        }
    } else {
        None
    }
}

/// The declaration whose name starts first in `[d, hi]`.
pub open spec fn first_decl(t: Seq<char>, d: int, hi: int) -> Option<Decl>
    decreases hi + 1 - d,
{
    if d > hi || d < 0 {
        None
    } else {
        match decl_at(t, d) {
            Some(m) => Some(m),
            None => first_decl(t, d + 1, hi),
        }
    }
}

/// A static declaration starting at `i`: a run of storage keywords that holds
/// `static`, the data type on the same line, then the declaration. The end of the
/// keywords and the declaration.
pub open spec fn static_at(t: Seq<char>, i: int) -> Option<(int, Decl)> {
    if run_has(t, i, "static"@) {
        let k0 = kw_run_end(t, i);
        match first_decl(t, k0, line_end(t, k0)) {
            Some(m) => Some((k0, m)),
            None => None,
        }
    } else {
        None
    }
}

pub open spec fn name_expr_of(name: Seq<char>, size: Option<Seq<char>>) -> Seq<char> {
    match size {
        Some(sz) => name + "["@ + trimmed(sz) + "]"@,
        None => name,
    }
}

pub open spec fn size_value(size: Option<Seq<char>>) -> int {
    match size {
        Some(sz) => match int_of(sz) {
            Some(v) => v,
            None => 0,
        },
        None => 0,
    }
}

pub open spec fn span_text(t: Seq<char>, s: Option<(int, int)>) -> Option<Seq<char>> {
    match s {
        Some((a, b)) => Some(t.subrange(a, b)),
        None => None,
    }
}

/// The body of `f`, located by its signature, holds `cap`.
pub open spec fn body_holds(t: Seq<char>, f: FnFacts, cap: Seq<char>) -> bool {
    match body_span(t, f.captured) {
        Some((s, e)) => holds(t.subrange(s, e), cap),
        None => false,
    }
}

/// The name of the first function from the `k`-th whose body holds `cap`.
pub open spec fn owner_from(t: Seq<char>, fs: Seq<FnFacts>, cap: Seq<char>, k: int) -> Option<
    Seq<char>,
>
    decreases fs.len() - k,
{
    if k < 0 || k >= fs.len() {
        None
    } else if body_holds(t, fs[k], cap) {
        Some(fs[k].name)
    } else {
        owner_from(t, fs, cap, k + 1)
    }
}

/// The facts of the static declaration that starts at `i`.
pub open spec fn static_facts(t: Seq<char>, fs: Seq<FnFacts>, i: int, k0: int, m: Decl) -> VarFacts {
    let name = trimmed(t.subrange(m.name_lo, m.name_hi));
    let size = span_text(t, m.size);
    let cap = trimmed(t.subrange(i, m.end));
    let owner = owner_from(t, fs, cap, 0);
    VarFacts {
        captured: cap,
        name_expr: name_expr_of(name, size),
        name: name,
        dtype: trimmed(t.subrange(k0, m.name_lo)),
        is_local: owner is Some,
        func_name: match owner {
            Some(n) => n,
            None => seq![],
        },
        init: match span_text(t, m.value) {
            Some(v) => trimmed(v),
            None => "0"@,
        },
        array_size: size_value(size),
        is_const: run_has(t, i, "const"@),
    }
}

/// The static declarations of `t` from `i` on, each owned by the first of the
/// functions `fs` whose body holds it.
pub open spec fn statics_from(t: Seq<char>, fs: Seq<FnFacts>, i: int) -> Seq<VarFacts>
    decreases t.len() - i,
{
    if i < 0 || i >= t.len() {
        seq![]
    } else {
        match static_at(t, i) {
            Some((k0, m)) => if i < m.end <= t.len() {
                seq![static_facts(t, fs, i, k0, m)] + statics_from(t, fs, m.end)
            } else {
                seq![]
            },
            None => statics_from(t, fs, i + 1),
        }
    }
}

/// Positions of one helper-macro declaration `MACRO(function, type, name[size], value);`.
pub struct MacroDecl {
    pub fn_lo: int,
    pub fn_hi: int,
    pub type_lo: int,
    pub type_hi: int,
    pub decl: Decl,
}

/// After the comma that ends the type: the name, an optional size, a comma, and the
/// value up to the first `)` of its line, which a `;` follows on that line.
pub open spec fn macro_tail(t: Seq<char>, q: int) -> Option<Decl> {
    let n = space_end(t, q);
    let ne = word_end(t, n);
    if 0 <= n < ne {
        match size_part(t, ne) {
            Some((size, h)) => {
                let v = space_end(t, h + 1);
                let p = next_char(t, ')', v);
                let s = next_char(t, ';', p + 1);
                if 0 <= h < t.len() && t[h] == ',' && p < line_end(t, v) && s < line_end(t, p + 1) {
                    Some(Decl { name_lo: n, name_hi: ne, size: size, value: Some((v, p)), end: s + 1 })
                } else {
                    None
                }
            },
            None => None,
        }
    } else {
        None
    }
}

/// The helper-macro declaration whose type ends first in `[d, hi]`.
pub open spec fn first_macro_decl(t: Seq<char>, d: int, hi: int) -> Option<(int, Decl)>
    decreases hi + 1 - d,
{
    if d > hi || d < 0 {
        None
    } else {
        let c = space_end(t, d);
        if c < t.len() && t[c] == ',' && macro_tail(t, c + 1) is Some {
            Some((d, macro_tail(t, c + 1)->Some_0))
        } else {
            first_macro_decl(t, d + 1, hi)
        }
    }
}

/// A helper-macro declaration starting at `i`.
pub open spec fn macro_at(t: Seq<char>, mac: Seq<char>, i: int) -> Option<MacroDecl> {
    let fs = i + mac.len() + 1;
    let fe = word_end(t, fs);
    let c0 = space_end(t, fe);
    if at(t, i, mac) && i + mac.len() < t.len() && t[i + mac.len()] == '(' && fs < fe && c0
        < t.len() && t[c0] == ',' {
        match first_macro_decl(t, c0 + 1, line_end(t, c0 + 1)) {
            Some((d, m)) => Some(
                MacroDecl { fn_lo: fs, fn_hi: fe, type_lo: c0 + 1, type_hi: d, decl: m },
            ),
            None => None,
        }
    } else {
        None
    }
}

/// The facts of the helper-macro declaration that starts at `i`: local to the
/// function it names.
pub open spec fn macro_facts(t: Seq<char>, i: int, m: MacroDecl) -> VarFacts {
    let name = trimmed(t.subrange(m.decl.name_lo, m.decl.name_hi));
    let size = span_text(t, m.decl.size);
    VarFacts {
        captured: trimmed(t.subrange(i, m.decl.end)),
        name_expr: name_expr_of(name, size),
        name: name,
        dtype: trimmed(t.subrange(m.type_lo, m.type_hi)),
        is_local: true,
        func_name: t.subrange(m.fn_lo, m.fn_hi),
        init: match span_text(t, m.decl.value) {
            Some(v) => trimmed(v),
            None => "0"@,
        },
        array_size: size_value(size),
        is_const: holds_nocase(t.subrange(m.type_lo, m.type_hi), "const"@),
    }
}

pub open spec fn macros_from(t: Seq<char>, mac: Seq<char>, i: int) -> Seq<VarFacts>
    decreases t.len() - i,
{
    if i < 0 || i >= t.len() {
        seq![]
    } else {
        match macro_at(t, mac, i) {
            Some(m) => if i < m.decl.end <= t.len() {
                seq![macro_facts(t, i, m)] + macros_from(t, mac, m.decl.end)
            } else {
                seq![]
            },
            None => macros_from(t, mac, i + 1),
        }
    }
}

pub open spec fn pair_view(o: Option<(usize, usize)>) -> Option<(int, int)> {
    match o {
        Some((a, b)) => Some((a as int, b as int)),
        None => None,
    }
}

pub struct DeclPos {
    pub name_lo: usize,
    pub name_hi: usize,
    pub size: Option<(usize, usize)>,
    pub value: Option<(usize, usize)>,
    pub end: usize,
}

impl View for DeclPos {
    type V = Decl;

    open spec fn view(&self) -> Decl {
        Decl {
            name_lo: self.name_lo as int,
            name_hi: self.name_hi as int,
            size: pair_view(self.size),
            value: pair_view(self.value),
            end: self.end as int,
        }
    }
}

pub open spec fn pair_ok(o: Option<(usize, usize)>, n: int) -> bool {
    match o {
        Some((a, b)) => a <= b <= n,
        None => true,
    }
}

pub open spec fn decl_ok(t: Seq<char>, m: DeclPos, lo: int) -> bool {
    lo <= m.name_lo < m.name_hi < m.end <= t.len() && pair_ok(m.size, t.len() as int)
        && pair_ok(m.value, t.len() as int)
}

fn kw_end_at(t: &Vec<char>, k: usize, st: &Vec<char>, cs: &Vec<char>) -> (r: Option<usize>)
    requires
        k <= t.len(),
        st@ == "static"@,
        cs@ == "const"@,
        st@.len() == 6,
        cs@.len() == 5,
    ensures
        match r {
            Some(e) => kw_end(t@, k as int) == e && k < e <= t.len(),
            None => kw_end(t@, k as int) == -1,
        },
{
    if is_at_nocase(t, k, st) {
        let e = skip_space(t, k + 6);
        if k + 6 < e {
            return Some(e);
        }
    }
    if is_at_nocase(t, k, cs) {
        let e = skip_space(t, k + 5);
        if k + 5 < e {
            return Some(e);
        }
    }
    None
}

/// The end of the keyword run at `i`, and whether it holds `static` and `const`.
fn kw_run(t: &Vec<char>, i: usize) -> (r: (usize, bool, bool))
    requires
        i <= t.len(),
    ensures
        r.0 == kw_run_end(t@, i as int),
        i <= r.0 <= t.len(),
        r.1 == run_has(t@, i as int, "static"@),
        r.2 == run_has(t@, i as int, "const"@),
{
    let st = chars_of("static");
    let cs = chars_of("const");
    proof {
        reveal_strlit("static");
        reveal_strlit("const");
    }
    let mut k: usize = i;
    let mut has_static = false;
    let mut has_const = false;
    loop
        invariant
            i <= k <= t.len(),
            st@ == "static"@,
            cs@ == "const"@,
            st@.len() == 6,
            cs@.len() == 5,
            kw_run_end(t@, i as int) == kw_run_end(t@, k as int),
            run_has(t@, i as int, "static"@) == (has_static || run_has(t@, k as int, "static"@)),
            run_has(t@, i as int, "const"@) == (has_const || run_has(t@, k as int, "const"@)),
        decreases t.len() - k,
    {
        match kw_end_at(t, k, &st, &cs) {
            Some(e) => {
                if is_at_nocase(t, k, &st) {
                    has_static = true;
                }
                if is_at_nocase(t, k, &cs) {
                    has_const = true;
                }
                k = e;
            },
            None => {
                return (k, has_static, has_const);
            },
        }
    }
}

fn size_part_at(t: &Vec<char>, e: usize) -> (r: Option<(Option<(usize, usize)>, usize)>)
    requires
        e <= t.len(),
    ensures
        match size_part(t@, e as int) {
            Some((sz, h)) => r matches Some((sz2, h2)) && pair_view(sz2) == sz && h2 == h && e
                <= h2 <= t.len() && pair_ok(sz2, t.len() as int),
            None => r is None,
        },
{
    let f = skip_space(t, e);
    if f < t.len() && t[f] == '[' {
        let rb = find_char(t, ']', f + 1);
        if rb < find_char(t, '\n', f + 1) {
            Some((Some((f + 1, rb)), skip_space(t, rb + 1)))
        } else {
            None
        }
    } else {
        Some((None, f))
    }
}

fn brace_semi_at(t: &Vec<char>, k: usize, hi: usize) -> (r: Option<usize>)
    requires
        hi <= t.len(),
    ensures
        match r {
            Some(c) => brace_semi(t@, k as int, hi as int) == c && k <= c && c + 1 < t.len(),
            None => brace_semi(t@, k as int, hi as int) == -1,
        },
{
    let mut c: usize = k;
    while c < hi
        invariant
            k <= c,
            hi <= t.len(),
            brace_semi(t@, k as int, hi as int) == brace_semi(t@, c as int, hi as int),
        decreases hi - c,
    {
        if t[c] == '}' && c + 1 < t.len() && t[c + 1] == ';' {
            return Some(c);
        }
        c = c + 1;
    }
    None
}

fn value_part_at(t: &Vec<char>, h: usize) -> (r: Option<(Option<(usize, usize)>, usize)>)
    requires
        h <= t.len(),
    ensures
        match value_part(t@, h as int) {
            Some((v, end)) => r matches Some((v2, end2)) && pair_view(v2) == v && end2 == end
                && h < end2 <= t.len() && pair_ok(v2, t.len() as int),
            None => r is None,
        },
{
    if h < t.len() && t[h] == ';' {
        return Some((None, h + 1));
    }
    if !(h < t.len() && t[h] == '=') {
        return None;
    }
    let v = skip_space(t, h + 1);
    let le = find_char(t, '\n', v);
    if v < t.len() && t[v] == '{' {
        match brace_semi_at(t, v + 1, le) {
            Some(c) => {
                return Some((Some((v, c + 1)), c + 2));
            },
            None => {},
        }
    }
    let s = find_char(t, ';', v);
    if s < le {
        Some((Some((v, s)), s + 1))
    } else {
        None
    }
}

fn decl_at_pos(t: &Vec<char>, d: usize) -> (r: Option<DeclPos>)
    requires
        d <= t.len(),
    ensures
        match decl_at(t@, d as int) {
            Some(m) => r matches Some(x) && x@ == m && decl_ok(t@, x, d as int),
            None => r is None,
        },
{
    let e = skip_word(t, d);
    if !(d < e) {
        return None;
    }
    match size_part_at(t, e) {
        Some((size, h)) => match value_part_at(t, h) {
            Some((value, end)) => Some(DeclPos { name_lo: d, name_hi: e, size, value, end }),
            None => None,
        },
        None => None,
    }
}

fn first_decl_pos(t: &Vec<char>, lo: usize, hi: usize) -> (r: Option<DeclPos>)
    requires
        hi <= t.len(),
    ensures
        match first_decl(t@, lo as int, hi as int) {
            Some(m) => r matches Some(x) && x@ == m && decl_ok(t@, x, lo as int),
            None => r is None,
        },
{
    if lo > hi {
        return None;
    }
    let mut d: usize = lo;
    loop
        invariant
            lo <= d <= hi,
            hi <= t.len(),
            first_decl(t@, lo as int, hi as int) == first_decl(t@, d as int, hi as int),
        decreases hi - d,
    {
        match decl_at_pos(t, d) {
            Some(m) => {
                return Some(m);
            },
            None => {},
        }
        if d == hi {
            assert(first_decl(t@, d + 1, hi as int) is None);
            return None;
        }
        d = d + 1;
    }
}

fn opt_text(t: &Vec<char>, s: Option<(usize, usize)>) -> (r: Option<Vec<char>>)
    requires
        pair_ok(s, t.len() as int),
    ensures
        match span_text(t@, pair_view(s)) {
            Some(x) => r matches Some(y) && y@ == x,
            None => r is None,
        },
{
    match s {
        Some((a, b)) => Some(slice(t, a, b)),
        None => None,
    }
}

fn name_expr_from(name: &Vec<char>, size: &Option<Vec<char>>) -> (r: Vec<char>)
    ensures
        r@ == name_expr_of(
            name@,
            match size {
                Some(x) => Some(x@),
                None => None,
            },
        ),
{
    match size {
        Some(sz) => {
            let mut out = slice(name, 0, name.len());
            let open = chars_of("[");
            let close = chars_of("]");
            push_all(&mut out, &open);
            push_all(&mut out, &trim(sz));
            push_all(&mut out, &close);
            assert(name@.subrange(0, name@.len() as int) =~= name@);
            out
        },
        None => slice(name, 0, name.len()),
    }
}

fn size_of(size: &Option<Vec<char>>) -> (r: i32)
    ensures
        r as int == size_value(
            match size {
                Some(x) => Some(x@),
                None => None,
            },
        ),
{
    match size {
        Some(sz) => match parse_i32(sz) {
            Some(v) => v,
            None => 0,
        },
        None => 0,
    }
}

fn init_of(t: &Vec<char>, v: Option<(usize, usize)>) -> (r: Vec<char>)
    requires
        pair_ok(v, t.len() as int),
    ensures
        r@ == match span_text(t@, pair_view(v)) {
            Some(x) => trimmed(x),
            None => "0"@,
        },
{
    match v {
        Some((a, b)) => trim(&slice(t, a, b)),
        None => chars_of("0"),
    }
}

/// The name of the first of `fncs` whose body holds `cap`.
fn owner_of(t: &Vec<char>, fncs: &Vec<Function>, cap: &Vec<char>) -> (r: Option<String>)
    ensures
        match owner_from(t@, fn_views(fncs@), cap@, 0) {
            Some(n) => r matches Some(s) && s@ == n,
            None => r is None,
        },
{
    let ghost fs = fn_views(fncs@);
    let mut k: usize = 0;
    while k < fncs.len()
        invariant
            k <= fncs.len(),
            fs == fn_views(fncs@),
            owner_from(t@, fs, cap@, 0) == owner_from(t@, fs, cap@, k as int),
        decreases fncs.len() - k,
    {
        let sig = chars_of(fncs[k].captured.as_str());
        assert(fs[k as int] == fncs@[k as int]@);
        match body_of(t, &sig) {
            Some(body) => {
                if contains(&body, cap) {
                    return Some(fncs[k].name.clone());
                }
            },
            None => {},
        }
        k = k + 1;
    }
    None
}

/// The static declarations of `t`, owned by the first of `fncs` whose body holds them.
pub fn statics_in(t: &Vec<char>, fncs: &Vec<Function>) -> (r: Vec<StaticVariable>)
    ensures
        var_views(r@) == statics_from(t@, fn_views(fncs@), 0),
{
    let ghost fs = fn_views(fncs@);
    let mut out: Vec<StaticVariable> = Vec::new();
    let mut i: usize = 0;
    assert(var_views(out@) =~= seq![]);
    while i < t.len()
        invariant
            i <= t.len(),
            fs == fn_views(fncs@),
            statics_from(t@, fs, 0) == var_views(out@) + statics_from(t@, fs, i as int),
        decreases t.len() - i,
    {
        let (k0, has_static, has_const) = kw_run(t, i);
        let found = if has_static {
            first_decl_pos(t, k0, find_char(t, '\n', k0))
        } else {
            None
        };
        match found {
            Some(m) => {
                let cap = trim(&slice(t, i, m.end));
                let name = trim(&slice(t, m.name_lo, m.name_hi));
                let size = opt_text(t, m.size);
                let owner = owner_of(t, fncs, &cap);
                let is_local = owner.is_some();
                let func_name = match owner {
                    Some(n) => n,
                    None => String::new(),
                };
                let v = StaticVariable {
                    captured: text_of(&cap),
                    name_expr: text_of(&name_expr_from(&name, &size)),
                    name: text_of(&name),
                    dtype: text_of(&trim(&slice(t, k0, m.name_lo))),
                    is_local,
                    func_name,
                    init: text_of(&init_of(t, m.value)),
                    array_size: size_of(&size),
                    is_const: has_const,
                };
                let ghost x = static_facts(t@, fs, i as int, k0 as int, m@);
                assert(v@.func_name == x.func_name);
                assert(v@ == x);
                let ghost before = var_views(out@);
                out.push(v);
                assert(var_views(out@) =~= before.push(x));
                assert(before + (seq![x] + statics_from(t@, fs, m.end as int)) =~= before.push(x)
                    + statics_from(t@, fs, m.end as int));
                i = m.end;
            },
            None => {
                i = i + 1;
            },
        }
    }
    assert(var_views(out@) + seq![] =~= var_views(out@));
    out
}

/// The static declarations of `code`, each owned by the first of `fncs` whose body,
/// located by its signature, holds the declaration.
pub fn get_static_vars(code: &str, fncs: &Vec<Function>) -> (r: Vec<StaticVariable>)
    ensures
        var_views(r@) == statics_from(code@, fn_views(fncs@), 0),
{
    statics_in(&chars_of(code), fncs)
}

pub struct MacroPos {
    pub fn_lo: usize,
    pub fn_hi: usize,
    pub type_lo: usize,
    pub type_hi: usize,
    pub decl: DeclPos,
}

impl View for MacroPos {
    type V = MacroDecl;

    open spec fn view(&self) -> MacroDecl {
        MacroDecl {
            fn_lo: self.fn_lo as int,
            fn_hi: self.fn_hi as int,
            type_lo: self.type_lo as int,
            type_hi: self.type_hi as int,
            decl: self.decl@,
        }
    }
}

fn macro_tail_at(t: &Vec<char>, q: usize) -> (r: Option<DeclPos>)
    requires
        q <= t.len(),
    ensures
        match macro_tail(t@, q as int) {
            Some(m) => r matches Some(x) && x@ == m && decl_ok(t@, x, q as int),
            None => r is None,
        },
{
    let n = skip_space(t, q);
    let ne = skip_word(t, n);
    if !(n < ne) {
        return None;
    }
    match size_part_at(t, ne) {
        Some((size, h)) => {
            if !(h < t.len() && t[h] == ',') {
                return None;
            }
            let v = skip_space(t, h + 1);
            let p = find_char(t, ')', v);
            if !(p < find_char(t, '\n', v)) {
                return None;
            }
            let s = find_char(t, ';', p + 1);
            if !(s < find_char(t, '\n', p + 1)) {
                return None;
            }
            Some(DeclPos { name_lo: n, name_hi: ne, size, value: Some((v, p)), end: s + 1 })
        },
        None => None,
    }
}

fn first_macro_decl_at(t: &Vec<char>, lo: usize, hi: usize) -> (r: Option<(usize, DeclPos)>)
    requires
        hi <= t.len(),
    ensures
        match first_macro_decl(t@, lo as int, hi as int) {
            Some((d, m)) => r matches Some((d2, x)) && d2 == d && x@ == m && lo <= d2 <= hi
                && decl_ok(t@, x, d2 as int),
            None => r is None,
        },
{
    if lo > hi {
        return None;
    }
    let mut d: usize = lo;
    loop
        invariant
            lo <= d <= hi,
            hi <= t.len(),
            first_macro_decl(t@, lo as int, hi as int) == first_macro_decl(t@, d as int, hi as int),
        decreases hi - d,
    {
        let c = skip_space(t, d);
        if c < t.len() && t[c] == ',' {
            match macro_tail_at(t, c + 1) {
                Some(m) => {
                    return Some((d, m));
                },
                None => {},
            }
        }
        if d == hi {
            assert(first_macro_decl(t@, d + 1, hi as int) is None);
            return None;
        }
        d = d + 1;
    }
}

fn macro_at_pos(t: &Vec<char>, mac: &Vec<char>, i: usize) -> (r: Option<MacroPos>)
    requires
        i < t.len(),
    ensures
        match macro_at(t@, mac@, i as int) {
            Some(m) => r matches Some(x) && x@ == m && i < x.fn_lo < x.fn_hi < x.type_lo
                <= x.type_hi && decl_ok(t@, x.decl, x.type_hi as int),
            None => r is None,
        },
{
    if !is_at(t, i, mac) || mac.len() >= t.len() - i || t[i + mac.len()] != '(' {
        return None;
    }
    let fs = i + mac.len() + 1;
    let fe = skip_word(t, fs);
    let c0 = skip_space(t, fe);
    if !(fs < fe && c0 < t.len() && t[c0] == ',') {
        return None;
    }
    let le = find_char(t, '\n', c0 + 1);
    match first_macro_decl_at(t, c0 + 1, le) {
        Some((d, m)) => Some(MacroPos { fn_lo: fs, fn_hi: fe, type_lo: c0 + 1, type_hi: d, decl: m }),
        None => None,
    }
}

/// The helper-macro declarations of `t`, the macro being named `mac`.
pub fn macro_statics_in(t: &Vec<char>, mac: &Vec<char>) -> (r: Vec<StaticVariable>)
    ensures
        var_views(r@) == macros_from(t@, mac@, 0),
{
    let mut out: Vec<StaticVariable> = Vec::new();
    let mut i: usize = 0;
    assert(var_views(out@) =~= seq![]);
    while i < t.len()
        invariant
            i <= t.len(),
            macros_from(t@, mac@, 0) == var_views(out@) + macros_from(t@, mac@, i as int),
        decreases t.len() - i,
    {
        match macro_at_pos(t, mac, i) {
            Some(m) => {
                let name = trim(&slice(t, m.decl.name_lo, m.decl.name_hi));
                let size = opt_text(t, m.decl.size);
                let dtype = slice(t, m.type_lo, m.type_hi);
                let v = StaticVariable {
                    captured: text_of(&trim(&slice(t, i, m.decl.end))),
                    name_expr: text_of(&name_expr_from(&name, &size)),
                    name: text_of(&name),
                    dtype: text_of(&trim(&dtype)),
                    is_local: true,
                    func_name: text_of(&slice(t, m.fn_lo, m.fn_hi)),
                    init: text_of(&init_of(t, m.decl.value)),
                    array_size: size_of(&size),
                    is_const: contains_nocase(&dtype, &chars_of("const")),
                };
                let ghost x = macro_facts(t@, i as int, m@);
                assert(v@ == x);
                let ghost before = var_views(out@);
                out.push(v);
                assert(var_views(out@) =~= before.push(x));
                assert(before + (seq![x] + macros_from(t@, mac@, m.decl.end as int))
                    =~= before.push(x) + macros_from(t@, mac@, m.decl.end as int));
                i = m.decl.end;
            },
            None => {
                i = i + 1;
            },
        }
    }
    assert(var_views(out@) + seq![] =~= var_views(out@));
    out
}

/// Appends to `static_vars` the declarations of `code` made through the helper macro
/// named `lsv_macro_name`: `MACRO(function, type, name[size], value);`. Each is local
/// to the function that its first argument names.
pub fn update_static_vars_with_lsv(
    code: &str,
    lsv_macro_name: &str,
    static_vars: &mut Vec<StaticVariable>,
)
    ensures
        var_views(final(static_vars)@) == var_views(old(static_vars)@) + macros_from(
            code@,
            lsv_macro_name@,
            0,
        ),
{
    let found = macro_statics_in(&chars_of(code), &chars_of(lsv_macro_name));
    let ghost start = var_views(static_vars@);
    let mut k: usize = 0;
    while k < found.len()
        invariant
            k <= found.len(),
            var_views(static_vars@) == start + var_views(found@).subrange(0, k as int),
        decreases found.len() - k,
    {
        let v = StaticVariable {
            captured: found[k].captured.clone(),
            name_expr: found[k].name_expr.clone(),
            name: found[k].name.clone(),
            dtype: found[k].dtype.clone(),
            is_local: found[k].is_local,
            func_name: found[k].func_name.clone(),
            init: found[k].init.clone(),
            array_size: found[k].array_size,
            is_const: found[k].is_const,
        };
        let ghost before = var_views(static_vars@);
        static_vars.push(v);
        assert(var_views(static_vars@) =~= before.push(found@[k as int]@));
        assert(var_views(found@).subrange(0, k + 1) =~= var_views(found@).subrange(0, k as int).push(found@[k as int]@));
        k = k + 1;
    }
    assert(var_views(found@).subrange(0, k as int) =~= var_views(found@));
}

proof fn lemma_owner_from(t: Seq<char>, fs: Seq<FnFacts>, cap: Seq<char>, k: int)
    requires
        0 <= k <= fs.len(),
    ensures
        owner_from(t, fs, cap, k) is Some <==> exists|j: int|
            k <= j < fs.len() && body_holds(t, fs[j], cap),
        owner_from(t, fs, cap, k) matches Some(n) ==> exists|j: int|
            k <= j < fs.len() && body_holds(t, fs[j], cap) && fs[j].name == n && forall|m: int|
                k <= m < j ==> !body_holds(t, fs[m], cap),
    decreases fs.len() - k,
{
    if k < fs.len() {
        lemma_owner_from(t, fs, cap, k + 1);
        if !body_holds(t, fs[k], cap) {
            if let Some(n) = owner_from(t, fs, cap, k) {
                let j = choose|j: int|
                    k + 1 <= j < fs.len() && body_holds(t, fs[j], cap) && fs[j].name == n
                        && forall|m: int| k + 1 <= m < j ==> !body_holds(t, fs[m], cap);
                assert(forall|m: int| k <= m < j ==> !body_holds(t, fs[m], cap));
            }
        }
    }
}

/// A static declaration is local exactly when the body of one of the functions,
/// located by its signature, holds the declaration, and its owner is the first such
/// function.
pub proof fn law_local_iff_contained(t: Seq<char>, fs: Seq<FnFacts>, cap: Seq<char>)
    ensures
        owner_from(t, fs, cap, 0) is Some <==> exists|j: int|
            0 <= j < fs.len() && body_holds(t, fs[j], cap),
        owner_from(t, fs, cap, 0) matches Some(n) ==> exists|j: int|
            0 <= j < fs.len() && body_holds(t, fs[j], cap) && fs[j].name == n && forall|m: int|
                0 <= m < j ==> !body_holds(t, fs[m], cap),
{
    lemma_owner_from(t, fs, cap, 0);
}

} // verus!
