use vstd::prelude::*;

pub mod model;
pub mod syntax;
pub mod text;
pub mod manifest;
pub mod diagnostics;
pub mod types;
pub mod control_flow;
pub mod render;
pub mod context;
pub mod capabilities;
pub mod const_eval;
pub mod const_functions;
pub mod derivation;
pub mod lower_types;
pub mod lower_expr;
pub mod lower_stmt;
pub mod lower_defs;
pub mod lower_functions;
pub mod lower_program;
pub mod laws;
pub mod operation_laws;
pub mod monomorphize;
pub mod generic_inference;
pub mod call_inference;
pub mod aggregates;
pub mod recursion;

verus! {
} // verus!
