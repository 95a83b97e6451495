//! The fact model of one source text.
use vstd::prelude::*;
use crate::calls::{calls_among, distinct_callees, get_callees, nested_calls};
use crate::facts::{
    call_views, fn_views, var_views, Function, Include, NestedCall, StaticVariable, Typedefs,
};
use crate::lexical::{
    first_occurrences, inc_views, includes_in, incs_from, strip_comments, typedef_views,
    typedefs_from, typedefs_in, uncommented,
};
use crate::signature::{fncs_from, functions_in};
use crate::statics::{macro_statics_in, macros_from, statics_from, statics_in};
use crate::text::{chars_of, text_of};

verus! {

/// Everything mined from one source text, and the names the caller fills in.
#[derive(Debug)]
pub struct Parser {
    /// the source file name without its extension
    pub sourcename: String,
    /// the folder of the source file
    pub sourcedirname: String,
    /// the name of the helper macro that declares local static variables
    pub lsv_macro_name: String,
    pub incs: Vec<Include>,
    pub typedefs: Vec<Typedefs>,
    pub static_vars: Vec<StaticVariable>,
    pub fncs: Vec<Function>,
    pub ncls: Vec<NestedCall>,
    /// the functions called within the source, each once
    pub callees: Vec<Function>,
}

/// `p` holds the facts of the comment-free text `code`, the helper macro being named
/// `mac`.
pub open spec fn holds_facts_of(p: Parser, code: Seq<char>, mac: Seq<char>) -> bool {
    let fs = fncs_from(code, 0);
    &&& fn_views(p.fncs@) == fs
    &&& call_views(p.ncls@) == nested_calls(code, fs)
    &&& fn_views(p.callees@) == distinct_callees(nested_calls(code, fs))
    &&& var_views(p.static_vars@) == statics_from(code, fs, 0) + macros_from(code, mac, 0)
    &&& inc_views(p.incs@) == first_occurrences(incs_from(code, 0))
    &&& typedef_views(p.typedefs@) == first_occurrences(typedefs_from(code, 0))
    &&& p.lsv_macro_name@ == mac
}

impl Parser {
    /// Mines the facts of `textdata` once its comments are removed. The names of the
    /// source are left empty for the caller to fill in.
    pub fn parse(textdata: &str) -> (r: Self)
        ensures
            holds_facts_of(r, uncommented(textdata@), "LOCAL_STATIC_VARIABLE"@),
            r.sourcename@ == Seq::<char>::empty(),
            r.sourcedirname@ == Seq::<char>::empty(),
    {
        let code = strip_comments(&chars_of(textdata));
        let fncs = functions_in(&code);
        let ncls = calls_among(&code, &fncs);
        let callees = get_callees(&ncls);
        let mac = chars_of("LOCAL_STATIC_VARIABLE");
        let mut static_vars = statics_in(&code, &fncs);
        let mut more = macro_statics_in(&code, &mac);
        let ghost first = var_views(static_vars@);
        let ghost second = var_views(more@);
        static_vars.append(&mut more);
        assert(var_views(static_vars@) =~= first + second);
        let sourcename = String::new();
        let sourcedirname = String::new();
        Parser {
            sourcename,
            sourcedirname,
            lsv_macro_name: text_of(&mac),
            incs: includes_in(&code),
            typedefs: typedefs_in(&code),
            static_vars,
            fncs,
            ncls,
            callees,
        }
    }
}

} // verus!
