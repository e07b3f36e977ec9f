//! Pieces of the C++ backend: how compiled expressions refer to variables,
//! and the scope of parameters and locals that a compiled body sees.

use vstd::prelude::*;

use crate::flat::{FlatBuiltInVar, FlatEnv, FlatLocalVar, FlatTypeIndex, FlatVarIndex, FlatVarParam};
use crate::ident::Ident;
use crate::syntax::VarParamKind;

verus! {

/// How a compiled expression holds its value: by value, by reference, by
/// mutable reference, or in a local variable.
#[derive(Clone, Copy, PartialEq, Eq, Structural, Debug)]
pub enum ExprTag {
    Val,
    Ref,
    MutRef,
    Local,
}

/// Global variables are accessed by reference, and mutable ones by mutable
/// reference.
pub fn global_var_tag(is_mut: bool) -> (r: ExprTag)
    ensures
        r == (if is_mut { ExprTag::MutRef } else { ExprTag::Ref }),
{
    if is_mut {
        ExprTag::MutRef
    } else {
        ExprTag::Ref
    }
}

/// Input parameters are accessed by reference, output parameters by
/// mutable reference; mutable parameters are copied into local variables at
/// the start of the body.
pub fn var_param_tag(kind: VarParamKind) -> (r: ExprTag)
    ensures
        r == match kind {
            VarParamKind::In => ExprTag::Ref,
            VarParamKind::Mut => ExprTag::Local,
            VarParamKind::Out => ExprTag::MutRef,
        },
{
    match kind {
        VarParamKind::In => ExprTag::Ref,
        VarParamKind::Mut => ExprTag::Local,
        VarParamKind::Out => ExprTag::MutRef,
    }
}

/// The parameters and locals visible while compiling: none outside a body,
/// or those of the callable whose body is being compiled.
pub enum Scope<'b, P, L> {
    Empty,
    Body { params: &'b Vec<P>, locals: &'b Vec<L> },
}

impl<'b, P, L> Scope<'b, P, L> {
    /// The scope of a callable: its parameters and the locals of its body,
    /// or the empty scope if it has no body.
    pub fn for_callable(params: &'b Vec<P>, body_locals: Option<&'b Vec<L>>) -> (r: Self)
        ensures
            match body_locals {
                Some(locals) => r matches Scope::Body { params: p, locals: l } && p@ == params@
                    && l@ == locals@,
                None => r is Empty,
            },
    {
        match body_locals {
            Some(locals) => Scope::Body { params, locals },
            None => Scope::Empty,
        }
    }

    /// The local at `index`; only a body has locals.
    pub fn local(&self, index: usize) -> (r: &L)
        requires
            self matches Scope::Body { locals, .. } && index < locals@.len(),
        ensures
            self matches Scope::Body { locals, .. } && *r == locals@[index as int],
    {
        match self {
            Scope::Body { locals, .. } => &locals[index],
            Scope::Empty => {
                proof {
                    assert(false);
                }
                unreached()
            },
        }
    }

    /// The parameter at `index`; only a body has parameters.
    pub fn param(&self, index: usize) -> (r: &P)
        requires
            self matches Scope::Body { params, .. } && index < params@.len(),
        ensures
            self matches Scope::Body { params, .. } && *r == params@[index as int],
    {
        match self {
            Scope::Body { params, .. } => &params[index],
            Scope::Empty => {
                proof {
                    assert(false);
                }
                unreached()
            },
        }
    }
}

/// A function of the C++ code that a variable access calls: the accessor
/// of a global variable (under its parent, if any), or the constructor of
/// an enumeration variant (under its enumeration).
pub enum CppFnPath {
    GlobalVar { parent: Option<Ident>, ident: Ident },
    Variant { parent: Ident, ident: Ident },
}

/// The C++ expressions that variable accesses compile to: the context
/// argument that every accessor takes, a call, a parameter, or a local
/// variable with its index.
pub enum CppExpr {
    ContextArg,
    Call { target: CppFnPath, args: Vec<CppExpr> },
    Param(Ident),
    Local { ident: Ident, index: usize },
}

/// A compiled expression with its type and how it holds its value.
pub struct TaggedExpr {
    pub expr: CppExpr,
    pub type_: FlatTypeIndex,
    pub tag: ExprTag,
}

/// The name of a built-in variable: the boolean constants are `true` and
/// `false`.
pub open spec fn built_in_var_name(v: FlatBuiltInVar) -> Seq<char> {
    match v {
        FlatBuiltInVar::True => "true"@,
        FlatBuiltInVar::False => "false"@,
        FlatBuiltInVar::Named { ident, .. } => ident@,
    }
}

/// Whether `t` is the type of the built-in variable: `Bool` for the boolean
/// constants.
pub open spec fn is_built_in_var_type(v: FlatBuiltInVar, t: FlatTypeIndex) -> bool {
    match v {
        FlatBuiltInVar::Named { type_, .. } => t == type_,
        _ => t matches FlatTypeIndex::BuiltIn(i) && i@ == "Bool"@,
    }
}

/// Whether `e` calls `target` with the context argument alone.
pub open spec fn is_context_call(e: CppExpr, target: CppFnPath) -> bool {
    match e {
        CppExpr::Call { target: t, args } => t == target && args@ == seq![CppExpr::ContextArg],
        _ => false,
    }
}

/// What reading a variable compiles to in C++: a built-in variable, a
/// global variable or an enumeration variant is a call of its accessor or
/// constructor with the context, held by reference (by mutable reference
/// for a mutable global); a parameter is itself, held as its kind says; a
/// local is itself with its index, held locally.
pub open spec fn cpp_var_access_ok(
    env: &FlatEnv,
    params: Seq<FlatVarParam>,
    locals: Seq<FlatLocalVar>,
    v: FlatVarIndex,
    r: TaggedExpr,
) -> bool {
    match v {
        FlatVarIndex::BuiltIn(b) => {
            &&& r.expr matches CppExpr::Call { target: CppFnPath::GlobalVar { parent: None, ident }, args }
                && ident@ == built_in_var_name(b) && args@ == seq![CppExpr::ContextArg]
            &&& is_built_in_var_type(b, r.type_)
            &&& r.tag == ExprTag::Ref
        },
        FlatVarIndex::EnumVariant { enum_index, variant_index } => {
            let item = env.enum_items@[enum_index as int];
            &&& is_context_call(
                r.expr,
                CppFnPath::Variant { parent: item.ident, ident: item.variants@[variant_index as int] },
            )
            &&& r.type_ == FlatTypeIndex::Enum(enum_index)
            &&& r.tag == ExprTag::Ref
        },
        FlatVarIndex::Global(g) => {
            let item = env.global_var_items@[g as int];
            &&& is_context_call(r.expr, CppFnPath::GlobalVar { parent: item.parent_ident, ident: item.ident })
            &&& r.type_ == item.type_
            &&& r.tag == (if item.is_mut { ExprTag::MutRef } else { ExprTag::Ref })
        },
        FlatVarIndex::Param(p) => {
            &&& r.expr == CppExpr::Param(params[p as int].ident)
            &&& r.type_ == params[p as int].type_
            &&& r.tag == match params[p as int].kind {
                VarParamKind::In => ExprTag::Ref,
                VarParamKind::Mut => ExprTag::Local,
                VarParamKind::Out => ExprTag::MutRef,
            }
        },
        FlatVarIndex::Local(l) => {
            &&& r.expr == CppExpr::Local { ident: locals[l as int].ident, index: l }
            &&& r.type_ == locals[l as int].type_
            &&& r.tag == ExprTag::Local
        },
    }
}

/// A copy of a type.
pub fn copy_type(t: &FlatTypeIndex) -> (r: FlatTypeIndex)
    ensures
        r == *t,
{
    match t {
        FlatTypeIndex::BuiltIn(i) => FlatTypeIndex::BuiltIn(i.clone()),
        FlatTypeIndex::Enum(e) => FlatTypeIndex::Enum(*e),
        FlatTypeIndex::Struct(s) => FlatTypeIndex::Struct(*s),
    }
}

fn context_call(target: CppFnPath) -> (r: CppExpr)
    ensures
        is_context_call(r, target),
{
    let mut args: Vec<CppExpr> = Vec::new();
    args.push(CppExpr::ContextArg);
    assert(args@ =~= seq![CppExpr::ContextArg]);
    CppExpr::Call { target, args }
}

/// The C++ expression that reads the variable `v` in `scope`, with its type
/// and how it holds its value.
pub fn compile_var_access(env: &FlatEnv, scope: &Scope<FlatVarParam, FlatLocalVar>, v: &FlatVarIndex) -> (r:
    TaggedExpr)
    requires
        env.global_ref_ok(*v),
        v matches FlatVarIndex::Param(p) ==> (scope matches Scope::Body { params, .. } && p < params@.len()),
        v matches FlatVarIndex::Local(l) ==> (scope matches Scope::Body { locals, .. } && l < locals@.len()),
    ensures
        match scope {
            Scope::Body { params, locals } => cpp_var_access_ok(env, params@, locals@, *v, r),
            Scope::Empty => cpp_var_access_ok(env, seq![], seq![], *v, r),
        },
{
    match v {
        FlatVarIndex::BuiltIn(b) => {
            let (ident, type_) = match b {
                FlatBuiltInVar::True => (Ident::from_str("true"), FlatTypeIndex::BuiltIn(Ident::from_str("Bool"))),
                FlatBuiltInVar::False => (Ident::from_str("false"), FlatTypeIndex::BuiltIn(Ident::from_str("Bool"))),
                FlatBuiltInVar::Named { ident, type_ } => (ident.clone(), copy_type(type_)),
            };
            proof {
                reveal_strlit("true");
                reveal_strlit("false");
                reveal_strlit("Bool");
            }
            TaggedExpr {
                expr: context_call(CppFnPath::GlobalVar { parent: None, ident }),
                type_,
                tag: ExprTag::Ref,
            }
        },
        FlatVarIndex::EnumVariant { enum_index, variant_index } => {
            let item = &env.enum_items[*enum_index];
            TaggedExpr {
                expr: context_call(
                    CppFnPath::Variant {
                        parent: item.ident.clone(),
                        ident: item.variants[*variant_index].clone(),
                    },
                ),
                type_: FlatTypeIndex::Enum(*enum_index),
                tag: ExprTag::Ref,
            }
        },
        FlatVarIndex::Global(g) => {
            let item = &env.global_var_items[*g];
            let parent = match &item.parent_ident {
                Some(p) => Some(p.clone()),
                None => None,
            };
            TaggedExpr {
                expr: context_call(CppFnPath::GlobalVar { parent, ident: item.ident.clone() }),
                type_: copy_type(&item.type_),
                tag: global_var_tag(item.is_mut),
            }
        },
        FlatVarIndex::Param(p) => {
            let param = scope.param(*p);
            TaggedExpr {
                expr: CppExpr::Param(param.ident.clone()),
                type_: copy_type(&param.type_),
                tag: var_param_tag(param.kind),
            }
        },
        FlatVarIndex::Local(l) => {
            let local = scope.local(*l);
            TaggedExpr {
                expr: CppExpr::Local { ident: local.ident.clone(), index: *l },
                type_: copy_type(&local.type_),
                tag: ExprTag::Local,
            }
        },
    }
}

} // verus!
