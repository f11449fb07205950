//! What lowering knows while it walks a function or the top-level statements.
use vstd::prelude::*;
use crate::manifest::CapabilityConfig;
use crate::lower_types::TypeNames;
use crate::model::{EnumDef, StructDef, Type};
use crate::syntax::ConstDecl;
use crate::text::str_eq;

verus! {

/// The signature of a declared function, as callers see it.
#[derive(Debug)]
pub struct FunctionSig {
    pub name: String,
    pub source_name: String,
    pub source_path: String,
    pub params: Vec<Type>,
    pub return_ty: Type,
    pub is_const: bool,
    pub is_extern: bool,
    pub borrow_return_params: Vec<usize>,
}

/// Where a network value bound to a local came from.
#[derive(Clone, Copy, Debug, PartialEq, Eq, Structural)]
pub enum NetBindingOrigin {
    LoopbackTcpListener,
    LoopbackTcpListenerPort,
}

/// A local binding in scope.
#[derive(Debug)]
pub struct Binding {
    pub name: String,
    pub ty: Type,
    pub moved: bool,
    pub net_origin: Option<NetBindingOrigin>,
}

/// The position of the binding named `name`, if any (the first such).
pub open spec fn binding_index(env: Seq<Binding>, name: Seq<char>) -> Option<int> {
    if exists|i: int| 0 <= i < env.len() && env[i].name@ == name {
        Some(choose|i: int| 0 <= i < env.len() && env[i].name@ == name && forall|j: int| 0 <= j < i ==> env[j].name@ != name)
    } else {
        None
    }
}

/// Finds the binding named `name`.
pub fn find_binding(env: &Vec<Binding>, name: &str) -> (r: Option<usize>)
    ensures
        r is Some <==> binding_index(env@, name@) is Some,
        r is Some ==> r->0 as int == binding_index(env@, name@)->0 && r->0 < env.len(),
{
    let mut i: usize = 0;
    while i < env.len()
        invariant
            i <= env.len(),
            forall|j: int| 0 <= j < i ==> env@[j].name@ != name@,
        decreases env.len() - i,
    {
        if str_eq(env[i].name.as_str(), name) {
            proof {
                let k = choose|k: int| 0 <= k < env@.len() && env@[k].name@ == name@ && forall|j: int| 0 <= j < k ==> env@[j].name@ != name@;
                if k < i { assert(false); }
                if k > i { assert(env@[i as int].name@ != name@); }
            }
            return Some(i);
        }
        i = i + 1;
    }
    None
}

/// The context of the code being lowered.
pub struct LowerContext<'a> {
    pub current_path: String,
    pub consts: &'a Vec<ConstDecl>,
    pub type_names: &'a TypeNames,
    pub enums: &'a Vec<EnumDef>,
    pub structs: &'a Vec<StructDef>,
    pub functions: &'a Vec<FunctionSig>,
    pub capabilities: &'a CapabilityConfig,
    pub current_return: Option<Type>,
    pub current_function: Option<String>,
    pub loop_depth: usize,
}

/// The position of the signature named `name`, if any (the first such).
pub open spec fn signature_index(functions: Seq<FunctionSig>, name: Seq<char>) -> Option<int> {
    if exists|i: int| 0 <= i < functions.len() && functions[i].name@ == name {
        Some(choose|i: int| 0 <= i < functions.len() && functions[i].name@ == name && forall|j: int| 0 <= j < i ==> functions[j].name@ != name)
    } else {
        None
    }
}

/// Finds the signature of the function named `name`.
pub fn find_signature(functions: &Vec<FunctionSig>, name: &str) -> (r: Option<usize>)
    ensures
        r is Some <==> signature_index(functions@, name@) is Some,
        r is Some ==> r->0 as int == signature_index(functions@, name@)->0 && r->0 < functions.len(),
{
    let mut i: usize = 0;
    while i < functions.len()
        invariant
            i <= functions.len(),
            forall|j: int| 0 <= j < i ==> functions@[j].name@ != name@,
        decreases functions.len() - i,
    {
        if str_eq(functions[i].name.as_str(), name) {
            proof {
                let k = choose|k: int| 0 <= k < functions@.len() && functions@[k].name@ == name@ && forall|j: int| 0 <= j < k ==> functions@[j].name@ != name@;
                if k < i { assert(false); }
                if k > i { assert(functions@[i as int].name@ != name@); }
            }
            return Some(i);
        }
        i = i + 1;
    }
    None
}

/// The position of the const declaration named `name`, if any (the first such).
pub open spec fn const_index(consts: Seq<ConstDecl>, name: Seq<char>) -> Option<int> {
    if exists|i: int| 0 <= i < consts.len() && consts[i].name@ == name {
        Some(choose|i: int| 0 <= i < consts.len() && consts[i].name@ == name && forall|j: int| 0 <= j < i ==> consts[j].name@ != name)
    } else {
        None
    }
}

/// Finds the const declaration named `name`.
pub fn find_const(consts: &Vec<ConstDecl>, name: &str) -> (r: Option<usize>)
    ensures
        r is Some <==> const_index(consts@, name@) is Some,
        r is Some ==> r->0 as int == const_index(consts@, name@)->0 && r->0 < consts.len(),
{
    let mut i: usize = 0;
    while i < consts.len()
        invariant
            i <= consts.len(),
            forall|j: int| 0 <= j < i ==> consts@[j].name@ != name@,
        decreases consts.len() - i,
    {
        if str_eq(consts[i].name.as_str(), name) {
            proof {
                let k = choose|k: int| 0 <= k < consts@.len() && consts@[k].name@ == name@ && forall|j: int| 0 <= j < k ==> consts@[j].name@ != name@;
                if k < i { assert(false); }
                if k > i { assert(consts@[i as int].name@ != name@); }
            }
            return Some(i);
        }
        i = i + 1;
    }
    None
}

} // verus!
