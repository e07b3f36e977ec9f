//! Core data structures and passes of the Cachet compiler toolchain.

pub mod boogie;
pub mod boogie_decl;
pub mod boogie_expr;
pub mod bpl_code;
pub mod bpl_emit;
pub mod bpl_names;
pub mod bpl_print;
pub mod bpl_tools;
pub mod callable_repr;
pub mod compiler;
pub mod cpp;
pub mod decl_graph;
pub mod emit_stmt;
pub mod entry_point;
pub mod flat;
pub mod flow;
pub mod graph_shape;
pub mod ident;
pub mod invoke_trace;
pub mod indent;
pub mod parse_error;
pub mod reachability;
pub mod registry;
pub mod shaking;
pub mod span;
pub mod stub;
pub mod syntax;
pub mod text;
pub mod translator;
pub mod type_checker;
