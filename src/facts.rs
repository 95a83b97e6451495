//! The facts mined from one source text, and their mathematical views.
use vstd::prelude::*;

verus! {

/// One inclusion statement, such as `#include <stdio.h>`.
#[derive(Debug, Clone)]
pub struct Include {
    pub captured: String,
}

impl View for Include {
    type V = Seq<char>;

    open spec fn view(&self) -> Seq<char> {
        self.captured@
    }
}

/// One type declaration, brace body included.
#[derive(Debug, Clone)]
pub struct Typedefs {
    pub captured: String,
}

impl View for Typedefs {
    type V = Seq<char>;

    open spec fn view(&self) -> Seq<char> {
        self.captured@
    }
}

/// One variable with static storage.
#[derive(Debug, Clone)]
pub struct StaticVariable {
    /// the declaration as written
    pub captured: String,
    /// the name with its array brackets, as `array_var[10]`
    pub name_expr: String,
    pub name: String,
    /// the data type, as `int`
    pub dtype: String,
    /// declared inside a function body
    pub is_local: bool,
    /// the function that holds the declaration; empty when global
    pub func_name: String,
    /// the initializer as written, `0` when there is none
    pub init: String,
    /// the array size; 0 when there is none or it is no integer
    pub array_size: i32,
    pub is_const: bool,
}

pub struct VarFacts {
    pub captured: Seq<char>,
    pub name_expr: Seq<char>,
    pub name: Seq<char>,
    pub dtype: Seq<char>,
    pub is_local: bool,
    pub func_name: Seq<char>,
    pub init: Seq<char>,
    pub array_size: int,
    pub is_const: bool,
}

impl View for StaticVariable {
    type V = VarFacts;

    open spec fn view(&self) -> VarFacts {
        VarFacts {
            captured: self.captured@,
            name_expr: self.name_expr@,
            name: self.name@,
            dtype: self.dtype@,
            is_local: self.is_local,
            func_name: self.func_name@,
            init: self.init@,
            array_size: self.array_size as int,
            is_const: self.is_const,
        }
    }
}

/// One function definition.
#[derive(Debug, Clone)]
pub struct Function {
    /// the signature through the opening brace, as `void setDir(const Direction_t dir)\n{`
    pub captured: String,
    pub name: String,
    /// declared with static storage
    pub is_local: bool,
    /// the return type without storage and inline words
    pub rtype: String,
    /// the argument list, empty for `void`
    pub args: String,
    /// the argument types, comma separated
    pub atypes: String,
    /// the argument names, comma separated
    pub anames: String,
}

pub struct FnFacts {
    pub captured: Seq<char>,
    pub name: Seq<char>,
    pub is_local: bool,
    pub rtype: Seq<char>,
    pub args: Seq<char>,
    pub atypes: Seq<char>,
    pub anames: Seq<char>,
}

impl View for Function {
    type V = FnFacts;

    open spec fn view(&self) -> FnFacts {
        FnFacts {
            captured: self.captured@,
            name: self.name@,
            is_local: self.is_local,
            rtype: self.rtype@,
            args: self.args@,
            atypes: self.atypes@,
            anames: self.anames@,
        }
    }
}

impl Function {
    /// A field-for-field copy.
    pub fn duplicate(&self) -> (r: Function)
        ensures
            r@ == self@,
    {
        Function {
            captured: self.captured.clone(),
            name: self.name.clone(),
            is_local: self.is_local,
            rtype: self.rtype.clone(),
            args: self.args.clone(),
            atypes: self.atypes.clone(),
            anames: self.anames.clone(),
        }
    }
}

/// The callee's name followed by `(` stands in the caller's body.
#[derive(Debug, Clone)]
pub struct NestedCall {
    pub callee: Function,
    pub caller: Function,
}

pub struct CallFacts {
    pub callee: FnFacts,
    pub caller: FnFacts,
}

impl View for NestedCall {
    type V = CallFacts;

    open spec fn view(&self) -> CallFacts {
        CallFacts { callee: self.callee@, caller: self.caller@ }
    }
}

pub open spec fn fn_views(v: Seq<Function>) -> Seq<FnFacts> {
    v.map_values(|f: Function| f@)
}

pub open spec fn var_views(v: Seq<StaticVariable>) -> Seq<VarFacts> {
    v.map_values(|x: StaticVariable| x@)
}

pub open spec fn call_views(v: Seq<NestedCall>) -> Seq<CallFacts> {
    v.map_values(|x: NestedCall| x@)
}

} // verus!
