//! Nested calls between the functions of one text, and the distinct callees.
use vstd::prelude::*;
use crate::facts::{call_views, fn_views, CallFacts, FnFacts, Function, NestedCall};
use crate::scope::{body_of, body_span};
use crate::text::{chars_of, contains, holds, push_all, same};

verus! {

/// The textual call test: `name(` stands somewhere in `body`. It does not look at
/// identifier boundaries, strings or numbers.
pub open spec fn calls_in(body: Seq<char>, name: Seq<char>) -> bool {
    holds(body, name + "("@)
}

/// The calls that `body`, the body of `caller`, makes to the first `n` of `fs`.
pub open spec fn calls_upto(body: Seq<char>, fs: Seq<FnFacts>, caller: FnFacts, n: int) -> Seq<
    CallFacts,
>
    decreases n,
{
    if n <= 0 || n > fs.len() {
        seq![]
    } else if calls_in(body, fs[n - 1].name) {
        calls_upto(body, fs, caller, n - 1).push(CallFacts { callee: fs[n - 1], caller: caller })
    } else {
        calls_upto(body, fs, caller, n - 1)
    }
}

/// The calls that `caller` makes to the functions `fs`, its body located in `t`.
pub open spec fn calls_of(t: Seq<char>, fs: Seq<FnFacts>, caller: FnFacts) -> Seq<CallFacts> {
    match body_span(t, caller.captured) {
        Some((s, e)) => calls_upto(t.subrange(s, e), fs, caller, fs.len() as int),
        None => seq![],
    }
}

/// The nested calls whose callers are the first `n` of `fs`, caller by caller.
pub open spec fn ncls_upto(t: Seq<char>, fs: Seq<FnFacts>, n: int) -> Seq<CallFacts>
    decreases n,
{
    if n <= 0 || n > fs.len() {
        seq![]
    } else {
        ncls_upto(t, fs, n - 1) + calls_of(t, fs, fs[n - 1])
    }
}

pub open spec fn nested_calls(t: Seq<char>, fs: Seq<FnFacts>) -> Seq<CallFacts> {
    ncls_upto(t, fs, fs.len() as int)
}

/// Some function of `fs` is named `name`.
pub open spec fn named_in(fs: Seq<FnFacts>, name: Seq<char>) -> bool {
    exists|j: int| 0 <= j < fs.len() && fs[j].name == name
}

/// The callees of the first `n` calls, each name kept once, where it first occurs.
pub open spec fn callees_upto(cs: Seq<CallFacts>, n: int) -> Seq<FnFacts>
    decreases n,
{
    if n <= 0 || n > cs.len() {
        seq![]
    } else if named_in(callees_upto(cs, n - 1), cs[n - 1].callee.name) {
        callees_upto(cs, n - 1)
    } else {
        callees_upto(cs, n - 1).push(cs[n - 1].callee)
    }
}

pub open spec fn distinct_callees(cs: Seq<CallFacts>) -> Seq<FnFacts> {
    callees_upto(cs, cs.len() as int)
}

/// The nested calls among `fncs`, with the bodies located in the text `t`.
pub fn calls_among(t: &Vec<char>, fncs: &Vec<Function>) -> (r: Vec<NestedCall>)
    ensures
        call_views(r@) == nested_calls(t@, fn_views(fncs@)),
{
    let ghost fs = fn_views(fncs@);
    let open = chars_of("(");
    let mut out: Vec<NestedCall> = Vec::new();
    let mut k: usize = 0;
    assert(call_views(out@) =~= seq![]);
    while k < fncs.len()
        invariant
            k <= fncs.len(),
            fs == fn_views(fncs@),
            fs.len() == fncs.len(),
            open@ == "("@,
            call_views(out@) == ncls_upto(t@, fs, k as int),
        decreases fncs.len() - k,
    {
        let ghost caller = fs[k as int];
        assert(caller == fncs@[k as int]@);
        let ghost prefix = call_views(out@);
        match body_of(t, &chars_of(fncs[k].captured.as_str())) {
            Some(body) => {
                let mut j: usize = 0;
                while j < fncs.len()
                    invariant
                        j <= fncs.len(),
                        k < fncs.len(),
                        fs == fn_views(fncs@),
                        fs.len() == fncs.len(),
                        open@ == "("@,
                        caller == fncs@[k as int]@,
                        call_views(out@) == prefix + calls_upto(body@, fs, caller, j as int),
                    decreases fncs.len() - j,
                {
                    let mut pat = chars_of(fncs[j].name.as_str());
                    push_all(&mut pat, &open);
                    assert(fs[j as int] == fncs@[j as int]@);
                    if contains(&body, &pat) {
                        let c = NestedCall { callee: fncs[j].duplicate(), caller: fncs[k].duplicate() };
                        let ghost before = call_views(out@);
                        out.push(c);
                        assert(call_views(out@) =~= before.push(c@));
                        assert(prefix + calls_upto(body@, fs, caller, j as int).push(c@) =~= (prefix
                            + calls_upto(body@, fs, caller, j as int)).push(c@));
                    }
                    j = j + 1;
                }
            },
            None => {},
        }
        assert(call_views(out@) == prefix + calls_of(t@, fs, caller));
        k = k + 1;
    }
    out
}

/// The nested calls among `fncs` in `code`: for each caller in order, each callee in
/// order whose name followed by `(` stands in the caller's body.
pub fn get_ncls(code: &str, fncs: &Vec<Function>) -> (r: Vec<NestedCall>)
    ensures
        call_views(r@) == nested_calls(code@, fn_views(fncs@)),
{
    calls_among(&chars_of(code), fncs)
}

/// Whether a function of `fncs` is named `funcname`.
pub fn find_func_in_list(funcname: &str, fncs: &Vec<Function>) -> (r: bool)
    ensures
        r == named_in(fn_views(fncs@), funcname@),
{
    let name = chars_of(funcname);
    let mut k: usize = 0;
    while k < fncs.len()
        invariant
            k <= fncs.len(),
            name@ == funcname@,
            forall|j: int| 0 <= j < k ==> fncs@[j].name@ != funcname@,
        decreases fncs.len() - k,
    {
        if same(&chars_of(fncs[k].name.as_str()), &name) {
            assert(fn_views(fncs@)[k as int].name == funcname@);
            return true;
        }
        k = k + 1;
    }
    assert forall|j: int| 0 <= j < fn_views(fncs@).len() implies fn_views(fncs@)[j].name
        != funcname@ by {
        assert(fn_views(fncs@)[j] == fncs@[j]@);
    }
    false
}

/// The callees of `ncls`, each name kept once, in the order of first appearance.
pub fn get_callees(ncls: &Vec<NestedCall>) -> (r: Vec<Function>)
    ensures
        fn_views(r@) == distinct_callees(call_views(ncls@)),
{
    let ghost cs = call_views(ncls@);
    let mut out: Vec<Function> = Vec::new();
    let mut k: usize = 0;
    assert(fn_views(out@) =~= seq![]);
    while k < ncls.len()
        invariant
            k <= ncls.len(),
            cs == call_views(ncls@),
            fn_views(out@) == callees_upto(cs, k as int),
        decreases ncls.len() - k,
    {
        assert(cs[k as int] == ncls@[k as int]@);
        if !find_func_in_list(ncls[k].callee.name.as_str(), &out) {
            let f = ncls[k].callee.duplicate();
            let ghost before = fn_views(out@);
            out.push(f);
            assert(fn_views(out@) =~= before.push(f@));
        }
        k = k + 1;
    }
    out
}

} // verus!
