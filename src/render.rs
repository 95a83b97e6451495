//! The tag renderer: block tags repeat their fragment once per item, field tokens
//! are replaced per item, and directives decide on the callee of a nested call.
use vstd::prelude::*;
use crate::facts::{call_views, CallFacts, FnFacts, Function, NestedCall, StaticVariable, VarFacts};
use crate::parser::Parser;
use crate::text::{
    at, chars_of, find_char, find_from, first_at, is_at, lemma_assoc, next_char, push_all,
    replace_all, replaced, run_end, same, slice, text_of, word,
};

verus! {

/// The kinds of block tag, each tied to the collection it repeats over.
#[derive(Clone, Copy, Debug)]
pub enum BlockKind {
    Incs,
    StaticVars,
    StaticGlobalVars,
    StaticLocalVars,
    Fncs,
    LocalFncs,
    Ncls,
    NclsOnce,
}

/// The number of block tags.
pub const N_BLOCKS: usize = 9;

/// The name of the `n`-th block tag, in the order the renderer expands them.
pub open spec fn block_tag(n: int) -> Seq<char> {
    if n == 0 {
        "incs"@
    } else if n == 1 {
        "static-vars"@
    } else if n == 2 {
        "static-global-vars"@
    } else if n == 3 {
        "static-local-vars"@
    } else if n == 4 {
        "fncs"@
    } else if n == 5 {
        "fncs0"@
    } else if n == 6 {
        "local-fncs"@
    } else if n == 7 {
        "ncls"@
    } else {
        "ncls-once"@
    }
}

pub open spec fn block_kind(n: int) -> BlockKind {
    if n == 0 {
        BlockKind::Incs
    } else if n == 1 {
        BlockKind::StaticVars
    } else if n == 2 {
        BlockKind::StaticGlobalVars
    } else if n == 3 {
        BlockKind::StaticLocalVars
    } else if n == 4 || n == 5 {
        BlockKind::Fncs
    } else if n == 6 {
        BlockKind::LocalFncs
    } else if n == 7 {
        BlockKind::Ncls
    } else {
        BlockKind::NclsOnce
    }
}

pub open spec fn inc_text(frag: Seq<char>, captured: Seq<char>) -> Seq<char> {
    replaced(frag, "@captured@"@, captured)
}

pub open spec fn var_text(frag: Seq<char>, v: VarFacts) -> Seq<char> {
    replaced(
        replaced(
            replaced(replaced(frag, "@captured@"@, v.captured), "@name@"@, v.name),
            "@name-expr@"@,
            v.name_expr,
        ),
        "@dtype@"@,
        v.dtype,
    )
}

pub open spec fn local_var_text(frag: Seq<char>, v: VarFacts) -> Seq<char> {
    replaced(
        replaced(
            replaced(
                replaced(replaced(frag, "@captured@"@, v.captured), "@name@"@, v.name),
                "@name-expr@"@,
                v.name_expr,
            ),
            "@func-name@"@,
            v.func_name,
        ),
        "@dtype@"@,
        v.dtype,
    )
}

pub open spec fn fn_text(frag: Seq<char>, f: FnFacts) -> Seq<char> {
    replaced(
        replaced(
            replaced(
                replaced(replaced(frag, "@captured@"@, f.captured), "@name@"@, f.name),
                "@rtype@"@,
                f.rtype,
            ),
            "@args@"@,
            f.args,
        ),
        "@atypes@"@,
        f.atypes,
    )
}

pub open spec fn call_fill(frag: Seq<char>, c: CallFacts) -> Seq<char> {
    let a = replaced(
        replaced(
            replaced(replaced(frag, "@callee.name@"@, c.callee.name), "@callee.rtype@"@, c.callee.rtype),
            "@callee.args@"@,
            c.callee.args,
        ),
        "@callee.atypes@"@,
        c.callee.atypes,
    );
    replaced(
        replaced(
            replaced(replaced(a, "@caller.name@"@, c.caller.name), "@caller.rtype@"@, c.caller.rtype),
            "@caller.args@"@,
            c.caller.args,
        ),
        "@caller.atypes@"@,
        c.caller.atypes,
    )
}

/// Characters of a type name in a change directive.
pub open spec fn type_char(c: char) -> bool {
    crate::text::is_word(c) || c == '|'
}

/// `@callee.rtype.change(from=to)@` at `i`: the spans of `from` and `to`, and the end.
pub open spec fn change_at(t: Seq<char>, i: int) -> Option<(int, int, int, int, int)> {
    let a = i + 21;
    let fe = run_end(t, a, |c: char| type_char(c));
    let b = fe + 1;
    let te = run_end(t, b, |c: char| type_char(c));
    if at(t, i, "@callee.rtype.change("@) && a < fe < t.len() && t[fe] == '=' && b < te && at(
        t,
        te,
        ")@"@,
    ) {
        Some((a, fe, b, te, te + 2))
    } else {
        None
    }
}

/// `t` from `i` on with each change directive replaced by its `to` when the callee's
/// return type is its `from`, and by the return type otherwise.
pub open spec fn changes_from(t: Seq<char>, rtype: Seq<char>, i: int) -> Seq<char>
    decreases t.len() - i,
{
    if i < 0 || i >= t.len() {
        seq![]
    } else {
        match change_at(t, i) {
            Some((a, fe, b, te, end)) => if i < end <= t.len() {
                (if t.subrange(a, fe) == rtype {
                    t.subrange(b, te)
                } else {
                    rtype
                }) + changes_from(t, rtype, end)
            } else {
                seq![]
            },
            None => seq![t[i]] + changes_from(t, rtype, i + 1),
        }
    }
}

/// The directive `kw` + `text)@` at `i`, `text` being at least one character up to
/// the first `)`: where `text` ends, and the end.
pub open spec fn removal_at(t: Seq<char>, kw: Seq<char>, i: int) -> Option<(int, int)> {
    let a = i + kw.len();
    let p = next_char(t, ')', a);
    if at(t, i, kw) && a < p && p + 1 < t.len() && t[p + 1] == '@' {
        Some((p, p + 2))
    } else {
        None
    }
}

/// `t` from `i` on with each directive `kw` + `text)@` replaced by `text` when `keep`
/// holds and by nothing otherwise.
pub open spec fn removals_from(t: Seq<char>, kw: Seq<char>, keep: bool, i: int) -> Seq<char>
    decreases t.len() - i,
{
    if i < 0 || i >= t.len() {
        seq![]
    } else {
        match removal_at(t, kw, i) {
            Some((p, end)) => if i < end <= t.len() {
                (if keep {
                    t.subrange(i + kw.len(), p)
                } else {
                    seq![]
                }) + removals_from(t, kw, keep, end)
            } else {
                seq![]
            },
            None => seq![t[i]] + removals_from(t, kw, keep, i + 1),
        }
    }
}

/// The fragment of a nested-call block for the call `c`: the fields, then the change,
/// return-type removal and argument removal directives, in that order.
pub open spec fn call_text(frag: Seq<char>, c: CallFacts) -> Seq<char> {
    let rt = c.callee.rtype;
    let keep_rt = rt != "void"@;
    let keep_args = !(c.callee.args == "void"@ || c.callee.args.len() == 0);
    let a = changes_from(call_fill(frag, c), rt, 0);
    let b = removals_from(a, "@callee.rtype.remove("@, keep_rt, 0);
    let d = removals_from(b, "@callee.rtype.remove0("@, keep_rt, 0);
    removals_from(d, "@callee.args.remove("@, keep_args, 0)
}

/// No call before the `k`-th has the same callee name.
pub open spec fn first_callee(cs: Seq<CallFacts>, k: int) -> bool {
    forall|j: int| 0 <= j < k ==> cs[j].callee.name != cs[k].callee.name
}

/// The text that the `k`-th item of the block's collection contributes.
pub open spec fn item_text(p: Parser, kind: BlockKind, frag: Seq<char>, k: int) -> Seq<char> {
    match kind {
        BlockKind::Incs => inc_text(frag, p.incs@[k]@),
        BlockKind::StaticVars => var_text(frag, p.static_vars@[k]@),
        BlockKind::StaticGlobalVars => if !p.static_vars@[k].is_local {
            var_text(frag, p.static_vars@[k]@)
        } else {
            seq![]
        },
        BlockKind::StaticLocalVars => if p.static_vars@[k].is_local {
            local_var_text(frag, p.static_vars@[k]@)
        } else {
            seq![]
        },
        BlockKind::Fncs => fn_text(frag, p.fncs@[k]@),
        BlockKind::LocalFncs => if p.fncs@[k].is_local {
            fn_text(frag, p.fncs@[k]@)
        } else {
            seq![]
        },
        BlockKind::Ncls => call_text(frag, p.ncls@[k]@),
        BlockKind::NclsOnce => if first_callee(call_views(p.ncls@), k) {
            call_text(frag, p.ncls@[k]@)
        } else {
            seq![]
        },
    }
}

pub open spec fn item_count(p: Parser, kind: BlockKind) -> int {
    match kind {
        BlockKind::Incs => p.incs.len() as int,
        BlockKind::StaticVars | BlockKind::StaticGlobalVars | BlockKind::StaticLocalVars => p.static_vars.len() as int,
        BlockKind::Fncs | BlockKind::LocalFncs => p.fncs.len() as int,
        BlockKind::Ncls | BlockKind::NclsOnce => p.ncls.len() as int,
    }
}

pub open spec fn items_upto(p: Parser, kind: BlockKind, frag: Seq<char>, n: int) -> Seq<char>
    decreases n,
{
    if n <= 0 {
        seq![]
    } else {
        items_upto(p, kind, frag, n - 1) + item_text(p, kind, frag, n - 1)
    }
}

/// The fragment repeated once per item of the block's collection.
pub open spec fn expansion(p: Parser, kind: BlockKind, frag: Seq<char>) -> Seq<char> {
    items_upto(p, kind, frag, item_count(p, kind))
}

/// The last position in `[lo, j]` where `p` occurs, or -1.
pub open spec fn last_at(t: Seq<char>, p: Seq<char>, lo: int, j: int) -> int
    decreases j - lo + 1,
{
    if j < lo || lo < 0 {
        -1
    } else if at(t, j, p) {
        j
    } else {
        last_at(t, p, lo, j - 1)
    }
}

/// `out` with its block for `tag` expanded: from the first `@tag@` to the last
/// `@end-tag@` after it. Without both, `out` is unchanged.
pub open spec fn applied(p: Parser, out: Seq<char>, tag: Seq<char>, kind: BlockKind) -> Seq<char> {
    let open = "@"@ + tag + "@"@;
    let close = "@end-"@ + tag + "@"@;
    let o = first_at(out, open, 0);
    let c = last_at(out, close, o + open.len(), out.len() - close.len());
    if o < 0 || c < 0 {
        out
    } else {
        out.subrange(0, o) + expansion(p, kind, out.subrange(o + open.len(), c)) + out.subrange(
            c + close.len(),
            out.len() as int,
        )
    }
}

/// The template with the first `n` block tags expanded in turn.
pub open spec fn blocks_upto(p: Parser, template: Seq<char>, n: int) -> Seq<char>
    decreases n,
{
    if n <= 0 {
        template
    } else {
        applied(p, blocks_upto(p, template, n - 1), block_tag(n - 1), block_kind(n - 1))
    }
}

/// The rendered text: all block tags expanded, then `@sourcename@` and `@date@`
/// replaced everywhere.
pub open spec fn rendered(p: Parser, template: Seq<char>, src: Seq<char>, date: Seq<char>) -> Seq<
    char,
> {
    replaced(
        replaced(blocks_upto(p, template, N_BLOCKS as int), "@sourcename@"@, src),
        "@date@"@,
        date,
    )
}

fn fill(frag: &Vec<char>, token: &str, value: &String) -> (r: Vec<char>)
    ensures
        r@ == replaced(frag@, token@, value@),
{
    replace_all(frag, &chars_of(token), &chars_of(value.as_str()))
}

fn inc_text_of(frag: &Vec<char>, i: &crate::facts::Include) -> (r: Vec<char>)
    ensures
        r@ == inc_text(frag@, i@),
{
    fill(frag, "@captured@", &i.captured)
}

fn var_text_of(frag: &Vec<char>, v: &StaticVariable) -> (r: Vec<char>)
    ensures
        r@ == var_text(frag@, v@),
{
    let x = fill(frag, "@captured@", &v.captured);
    let x = fill(&x, "@name@", &v.name);
    let x = fill(&x, "@name-expr@", &v.name_expr);
    fill(&x, "@dtype@", &v.dtype)
}

fn local_var_text_of(frag: &Vec<char>, v: &StaticVariable) -> (r: Vec<char>)
    ensures
        r@ == local_var_text(frag@, v@),
{
    let x = fill(frag, "@captured@", &v.captured);
    let x = fill(&x, "@name@", &v.name);
    let x = fill(&x, "@name-expr@", &v.name_expr);
    let x = fill(&x, "@func-name@", &v.func_name);
    fill(&x, "@dtype@", &v.dtype)
}

fn fn_text_of(frag: &Vec<char>, f: &Function) -> (r: Vec<char>)
    ensures
        r@ == fn_text(frag@, f@),
{
    let x = fill(frag, "@captured@", &f.captured);
    let x = fill(&x, "@name@", &f.name);
    let x = fill(&x, "@rtype@", &f.rtype);
    let x = fill(&x, "@args@", &f.args);
    fill(&x, "@atypes@", &f.atypes)
}

fn skip_type_chars(t: &Vec<char>, i: usize) -> (r: usize)
    requires
        i <= t.len(),
    ensures
        r == run_end(t@, i as int, |c: char| type_char(c)),
        i <= r <= t.len(),
{
    let mut k: usize = i;
    while k < t.len() && (word(t[k]) || t[k] == '|')
        invariant
            i <= k <= t.len(),
            run_end(t@, i as int, |c: char| type_char(c)) == run_end(
                t@,
                k as int,
                |c: char| type_char(c),
            ),
        decreases t.len() - k,
    {
        k = k + 1;
    }
    k
}

fn apply_changes(t: &Vec<char>, rtype: &Vec<char>) -> (r: Vec<char>)
    ensures
        r@ == changes_from(t@, rtype@, 0),
{
    let head = chars_of("@callee.rtype.change(");
    let tail = chars_of(")@");
    proof {
        reveal_strlit("@callee.rtype.change(");
        reveal_strlit(")@");
    }
    let mut out: Vec<char> = Vec::new();
    let mut i: usize = 0;
    while i < t.len()
        invariant
            i <= t.len(),
            head@ == "@callee.rtype.change("@,
            head@.len() == 21,
            tail@ == ")@"@,
            tail@.len() == 2,
            changes_from(t@, rtype@, 0) == out@ + changes_from(t@, rtype@, i as int),
        decreases t.len() - i,
    {
        let mut found: Option<(usize, usize, usize, usize, usize)> = None;
        if is_at(t, i, &head) {
            let a = i + 21;
            let fe = skip_type_chars(t, a);
            if a < fe && fe < t.len() && t[fe] == '=' {
                let b = fe + 1;
                let te = skip_type_chars(t, b);
                if b < te && is_at(t, te, &tail) {
                    found = Some((a, fe, b, te, te + 2));
                }
            }
        }
        assert(found == None::<(usize, usize, usize, usize, usize)> ==> change_at(t@, i as int) is None);
        match found {
            Some((a, fe, b, te, end)) => {
                let from = slice(t, a, fe);
                let piece = if same(&from, rtype) {
                    slice(t, b, te)
                } else {
                    slice(rtype, 0, rtype.len())
                };
                assert(rtype@.subrange(0, rtype@.len() as int) =~= rtype@);
                proof {
                    lemma_assoc(out@, piece@, changes_from(t@, rtype@, end as int));
                }
                push_all(&mut out, &piece);
                i = end;
            },
            None => {
                proof {
                    lemma_assoc(out@, seq![t@[i as int]], changes_from(t@, rtype@, i + 1));
                }
                out.push(t[i]);
                i = i + 1;
            },
        }
    }
    assert(out@ + seq![] =~= out@);
    out
}

fn apply_removals(t: &Vec<char>, kw: &str, keep: bool) -> (r: Vec<char>)
    ensures
        r@ == removals_from(t@, kw@, keep, 0),
{
    let head = chars_of(kw);
    let mut out: Vec<char> = Vec::new();
    let mut i: usize = 0;
    while i < t.len()
        invariant
            i <= t.len(),
            head@ == kw@,
            removals_from(t@, kw@, keep, 0) == out@ + removals_from(t@, kw@, keep, i as int),
        decreases t.len() - i,
    {
        let mut found: Option<usize> = None;
        if is_at(t, i, &head) {
            let a = i + head.len();
            let p = find_char(t, ')', a);
            if a < p && p < t.len() && p + 1 < t.len() && t[p + 1] == '@' {
                found = Some(p);
            }
        }
        assert(found == None::<usize> ==> removal_at(t@, kw@, i as int) is None);
        match found {
            Some(p) => {
                let piece = if keep {
                    slice(t, i + head.len(), p)
                } else {
                    Vec::new()
                };
                assert(!keep ==> piece@ =~= seq![]);
                proof {
                    lemma_assoc(out@, piece@, removals_from(t@, kw@, keep, p + 2));
                }
                push_all(&mut out, &piece);
                i = p + 2;
            },
            None => {
                proof {
                    lemma_assoc(out@, seq![t@[i as int]], removals_from(t@, kw@, keep, i + 1));
                }
                out.push(t[i]);
                i = i + 1;
            },
        }
    }
    assert(out@ + seq![] =~= out@);
    out
}

fn call_text_of(frag: &Vec<char>, c: &NestedCall) -> (r: Vec<char>)
    ensures
        r@ == call_text(frag@, c@),
{
    let x = fill(frag, "@callee.name@", &c.callee.name);
    let x = fill(&x, "@callee.rtype@", &c.callee.rtype);
    let x = fill(&x, "@callee.args@", &c.callee.args);
    let x = fill(&x, "@callee.atypes@", &c.callee.atypes);
    let x = fill(&x, "@caller.name@", &c.caller.name);
    let x = fill(&x, "@caller.rtype@", &c.caller.rtype);
    let x = fill(&x, "@caller.args@", &c.caller.args);
    let x = fill(&x, "@caller.atypes@", &c.caller.atypes);
    let rt = chars_of(c.callee.rtype.as_str());
    let args = chars_of(c.callee.args.as_str());
    let keep_rt = !same(&rt, &chars_of("void"));
    let keep_args = !(same(&args, &chars_of("void")) || args.len() == 0);
    let x = apply_changes(&x, &rt);
    let x = apply_removals(&x, "@callee.rtype.remove(", keep_rt);
    let x = apply_removals(&x, "@callee.rtype.remove0(", keep_rt);
    apply_removals(&x, "@callee.args.remove(", keep_args)
}

fn is_first_callee(p: &Parser, k: usize) -> (r: bool)
    requires
        k < p.ncls.len(),
    ensures
        r == first_callee(call_views(p.ncls@), k as int),
{
    let ghost cs = call_views(p.ncls@);
    let name = chars_of(p.ncls[k].callee.name.as_str());
    let mut j: usize = 0;
    while j < k
        invariant
            j <= k < p.ncls.len(),
            cs == call_views(p.ncls@),
            name@ == cs[k as int].callee.name,
            forall|m: int| 0 <= m < j ==> cs[m].callee.name != cs[k as int].callee.name,
        decreases k - j,
    {
        assert(cs[j as int] == p.ncls@[j as int]@);
        if same(&chars_of(p.ncls[j].callee.name.as_str()), &name) {
            return false;
        }
        j = j + 1;
    }
    true
}

fn item_text_of(p: &Parser, kind: BlockKind, frag: &Vec<char>, k: usize) -> (r: Vec<char>)
    requires
        k < item_count(*p, kind),
    ensures
        r@ == item_text(*p, kind, frag@, k as int),
{
    match kind {
        BlockKind::Incs => inc_text_of(frag, &p.incs[k]),
        BlockKind::StaticVars => var_text_of(frag, &p.static_vars[k]),
        BlockKind::StaticGlobalVars => {
            if !p.static_vars[k].is_local {
                var_text_of(frag, &p.static_vars[k])
            } else {
                let e: Vec<char> = Vec::new();
                assert(e@ =~= seq![]);
                e
            }
        },
        BlockKind::StaticLocalVars => {
            if p.static_vars[k].is_local {
                local_var_text_of(frag, &p.static_vars[k])
            } else {
                let e: Vec<char> = Vec::new();
                assert(e@ =~= seq![]);
                e
            }
        },
        BlockKind::Fncs => fn_text_of(frag, &p.fncs[k]),
        BlockKind::LocalFncs => {
            if p.fncs[k].is_local {
                fn_text_of(frag, &p.fncs[k])
            } else {
                let e: Vec<char> = Vec::new();
                assert(e@ =~= seq![]);
                e
            }
        },
        BlockKind::Ncls => call_text_of(frag, &p.ncls[k]),
        BlockKind::NclsOnce => {
            if is_first_callee(p, k) {
                call_text_of(frag, &p.ncls[k])
            } else {
                let e: Vec<char> = Vec::new();
                assert(e@ =~= seq![]);
                e
            }
        },
    }
}

fn count_of(p: &Parser, kind: BlockKind) -> (r: usize)
    ensures
        r == item_count(*p, kind),
{
    match kind {
        BlockKind::Incs => p.incs.len(),
        BlockKind::StaticVars | BlockKind::StaticGlobalVars | BlockKind::StaticLocalVars => p.static_vars.len(),
        BlockKind::Fncs | BlockKind::LocalFncs => p.fncs.len(),
        BlockKind::Ncls | BlockKind::NclsOnce => p.ncls.len(),
    }
}

/// The fragment repeated once per item of the block's collection.
pub fn expand(p: &Parser, kind: BlockKind, frag: &Vec<char>) -> (r: Vec<char>)
    ensures
        r@ == expansion(*p, kind, frag@),
{
    let n = count_of(p, kind);
    let mut out: Vec<char> = Vec::new();
    let mut k: usize = 0;
    assert(out@ =~= items_upto(*p, kind, frag@, 0));
    while k < n
        invariant
            k <= n,
            n == item_count(*p, kind),
            out@ == items_upto(*p, kind, frag@, k as int),
        decreases n - k,
    {
        let piece = item_text_of(p, kind, frag, k);
        push_all(&mut out, &piece);
        k = k + 1;
    }
    out
}

fn last_from(t: &Vec<char>, p: &Vec<char>, lo: usize) -> (r: Option<usize>)
    ensures
        match r {
            Some(c) => last_at(t@, p@, lo as int, t@.len() - p@.len()) == c && lo <= c && c
                + p@.len() <= t@.len(),
            None => last_at(t@, p@, lo as int, t@.len() - p@.len()) == -1,
        },
{
    if p.len() > t.len() {
        return None;
    }
    let mut j: usize = t.len() - p.len();
    loop
        invariant
            j <= t.len() - p.len(),
            p.len() <= t.len(),
            last_at(t@, p@, lo as int, t@.len() - p@.len()) == last_at(t@, p@, lo as int, j as int),
        decreases j,
    {
        if j < lo {
            return None;
        }
        if is_at(t, j, p) {
            return Some(j);
        }
        if j == 0 {
            assert(last_at(t@, p@, lo as int, -1) == -1);
            return None;
        }
        j = j - 1;
    }
}

/// `out` with its block for `tag` expanded.
fn apply_block(p: &Parser, out: &Vec<char>, tag: &Vec<char>, kind: BlockKind) -> (r: Vec<char>)
    ensures
        r@ == applied(*p, out@, tag@, kind),
{
    let mut open = chars_of("@");
    push_all(&mut open, tag);
    push_all(&mut open, &chars_of("@"));
    let mut close = chars_of("@end-");
    push_all(&mut close, tag);
    push_all(&mut close, &chars_of("@"));
    match find_from(out, &open, 0) {
        None => {
            let r = slice(out, 0, out.len());
            assert(r@ =~= out@);
            r
        },
        Some(o) => {
            assert(at(out@, o as int, open@));
            assert(o + open@.len() <= out@.len());
            assert(o + open.len() <= out.len());
            let from = o + open.len();
            match last_from(out, &close, from) {
                None => {
                    let r = slice(out, 0, out.len());
                    assert(r@ =~= out@);
                    r
                },
                Some(c) => {
                    let frag = slice(out, from, c);
                    let mut r = slice(out, 0, o);
                    push_all(&mut r, &expand(p, kind, &frag));
                    push_all(&mut r, &slice(out, c + close.len(), out.len()));
                    r
                },
            }
        },
    }
}

fn tag_of(n: usize) -> (r: (Vec<char>, BlockKind))
    ensures
        r.0@ == block_tag(n as int),
        r.1 == block_kind(n as int),
{
    if n == 0 {
        (chars_of("incs"), BlockKind::Incs)
    } else if n == 1 {
        (chars_of("static-vars"), BlockKind::StaticVars)
    } else if n == 2 {
        (chars_of("static-global-vars"), BlockKind::StaticGlobalVars)
    } else if n == 3 {
        (chars_of("static-local-vars"), BlockKind::StaticLocalVars)
    } else if n == 4 {
        (chars_of("fncs"), BlockKind::Fncs)
    } else if n == 5 {
        (chars_of("fncs0"), BlockKind::Fncs)
    } else if n == 6 {
        (chars_of("local-fncs"), BlockKind::LocalFncs)
    } else if n == 7 {
        (chars_of("ncls"), BlockKind::Ncls)
    } else {
        (chars_of("ncls-once"), BlockKind::NclsOnce)
    }
}

/// Renders `template` against the facts of `p`, with `date` as the render time.
pub fn render(p: &Parser, template: &str, sourcename: &str, date: &str) -> (r: String)
    ensures
        r@ == rendered(*p, template@, sourcename@, date@),
{
    let mut out = chars_of(template);
    let mut n: usize = 0;
    while n < N_BLOCKS
        invariant
            n <= N_BLOCKS,
            out@ == blocks_upto(*p, template@, n as int),
        decreases N_BLOCKS - n,
    {
        let (tag, kind) = tag_of(n);
        out = apply_block(p, &out, &tag, kind);
        n = n + 1;
    }
    let x = replace_all(&out, &chars_of("@sourcename@"), &chars_of(sourcename));
    let x = replace_all(&x, &chars_of("@date@"), &chars_of(date));
    text_of(&x)
}

/// Relies on `chrono::Utc::now` and `DateTime::format`: the current UTC time, written
/// as `Wed Mar  5 14:02:10 2025`. Nothing is known of the value.
#[verifier::external_body]
fn now_stamp() -> (r: String) {
    chrono::Utc::now().format("%a %b %e %T %Y").to_string()
}

/// Renders `template` against the facts of `parser`, `@date@` becoming the time of
/// the call.
pub fn generate(parser: &Parser, template: &str, sourcename: &str) -> (r: String)
    ensures
        exists|date: Seq<char>| r@ == rendered(*parser, template@, sourcename@, date),
{
    let date = now_stamp();
    render(parser, template, sourcename, date.as_str())
}

proof fn lemma_next_char_at(t: Seq<char>, c: char, i: int, q: int)
    requires
        0 <= i <= q < t.len(),
        t[q] == c,
        forall|k: int| i <= k < q ==> t[k] != c,
    ensures
        next_char(t, c, i) == q,
    decreases q - i,
{
    if i < q {
        lemma_next_char_at(t, c, i + 1, q);
    }
}

/// The return-type removal directive renders as nothing for a callee whose return
/// type is exactly `void`, and as its text for any other callee.
pub proof fn law_rtype_removal(text: Seq<char>, rtype: Seq<char>)
    requires
        text.len() > 0,
        forall|k: int| 0 <= k < text.len() ==> text[k] != ')',
    ensures
        removals_from(
            "@callee.rtype.remove("@ + text + ")@"@,
            "@callee.rtype.remove("@,
            rtype != "void"@,
            0,
        ) == if rtype == "void"@ {
            seq![]
        } else {
            text
        },
{
    let kw = "@callee.rtype.remove("@;
    let t = kw + text + ")@"@;
    reveal_strlit(")@");
    let a = kw.len() as int;
    let q = a + text.len();
    assert(t[q] == ')');
    assert(t[q + 1] == '@');
    assert forall|k: int| a <= k < q implies t[k] != ')' by {
        assert(t[k] == text[k - a]);
    }
    lemma_next_char_at(t, ')', a, q);
    assert(t.subrange(0, a) =~= kw);
    assert(removal_at(t, kw, 0) == Some((q, q + 2)));
    assert(t.subrange(a, q) =~= text);
    let keep = rtype != "void"@;
    assert(removals_from(t, kw, keep, q + 2) == Seq::<char>::empty());
    if keep {
        assert(text + seq![] =~= text);
    } else {
        assert(Seq::<char>::empty() + Seq::<char>::empty() =~= Seq::<char>::empty());
    }
}

} // verus!
