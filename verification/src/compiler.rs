//! The Boogie backend: the declarations that each item of the flattened
//! program compiles to.

use vstd::prelude::*;

use crate::bpl_code::{
    AssignStmt, BinOperExpr, Body, CallExpr, CallStmt, CheckStmt, ExternalUserFnHelperFnIdent, Code, ConstItem, Expr, FieldTypeMemberFnSelector,
    FnIdent, FnItem, GlobalVarIdent, GlobalVarItem, IrMemberFnIdent, IrMemberFnSelector,
    IrMemberGlobalVarIdent, IrMemberTypeIdent, Item, Literal as BplLiteral, LocalVarIdent,
    OpCtorIrMemberFnSelector, ParamVarIdent, ProcItem, Stmt, Type, TypeIdent, TypeItem,
    TypeMemberFnIdent, TypeMemberFnSelector, TypedVar, TypedVars, UserGlobalVarIdent,
    UserParamVarIdent, UserTypeIdent, VarIdent, VariantCtorTypeMemberFnSelector,
};
use crate::bpl_names::{
    BplBinOper, FnAttr, InlineProcAttr, IrIdent, IrMemberGlobalVarSelector, IrMemberTypeSelector,
    OpSelector, PreludeFnIdent, PreludeTypeIdent, ProcAttr, TypeAttr, UserFnIdent, UserOpSelector,
};
use crate::bpl_code::{call_printable, expr_printable};
use crate::bpl_print::{
    code_printable, BplCode,
    item_printable, items_printable, lemma_args_all_printable, lemma_stmts_all_printable, stmt_printable,
    stmts_printable,
};
use crate::callable_repr::{blocked_path_repr, blocked_repr, spec_for_callable, CallableRepr};
use crate::flat::{
    FlatBuiltInVar, FlatCallableItem, FlatEnumItem, FlatEnv, FlatField, FlatIrItem, FlatParam,
    FlatTypeIndex, FlatValue, FlatVarIndex,
};
use crate::entry_point::{entry_graph_ok, entry_point_ok, lemma_entry_point_printable};
use crate::flow::FlowGraph;
use crate::ident::{idents_view, Ident, Path};
use crate::syntax::{CheckKind, CompareBinOper, Literal, VarParamKind};

verus! {

/// The Boogie type named by a user type's identifier.
pub open spec fn user_type(ident: Ident) -> Type {
    Type::Ident(TypeIdent::User(UserTypeIdent { ident }))
}

/// A prelude type.
pub open spec fn prelude_type(t: PreludeTypeIdent) -> Type {
    Type::Ident(TypeIdent::Prelude(t))
}

/// Whether the item of that name is implemented by hand in Boogie, so that
/// the backend declares nothing for it.
pub open spec fn is_blocked(ident: Ident) -> bool {
    blocked_repr(seq![ident@]) is Some
}

/// Whether `e` is a call of `target` with arguments `args`.
pub open spec fn is_call(e: Expr, target: FnIdent, args: Seq<Expr>) -> bool {
    match e {
        Expr::Call(c) => c.target == target && c.arg_exprs@ == args,
        _ => false,
    }
}

/// Whether `item` declares the function `ident`, with that attribute,
/// parameters and return type, and no body.
pub open spec fn is_fn_decl(
    item: Item,
    ident: FnIdent,
    attr: Option<FnAttr>,
    params: Seq<TypedVar>,
    ret: Type,
) -> bool {
    match item {
        Item::Fn(f) => f.ident == ident && f.attr == attr && f.param_vars.vars@ == params && f.ret
            == ret && f.value is None,
        _ => false,
    }
}

/// Whether `item` defines the function `ident`, with that attribute,
/// parameters and return type, and a body of which `value_ok` holds.
pub open spec fn is_fn_def(
    item: Item,
    ident: FnIdent,
    attr: Option<FnAttr>,
    params: Seq<TypedVar>,
    ret: Type,
    value_ok: spec_fn(Expr) -> bool,
) -> bool {
    match item {
        Item::Fn(f) => f.ident == ident && f.attr == attr && f.param_vars.vars@ == params && f.ret
            == ret && (f.value matches Some(v) && value_ok(v)),
        _ => false,
    }
}

/// The identifier of a type, taken by its name.
pub fn type_ident(ident: &Ident) -> (r: UserTypeIdent)
    ensures
        r == (UserTypeIdent { ident: *ident }),
{
    UserTypeIdent { ident: ident.clone() }
}

/// The constructor of a variant of the enumeration `type_ident`.
pub open spec fn variant_ctor(type_ident: Ident, variant: Ident) -> FnIdent {
    FnIdent::TypeMember(
        TypeMemberFnIdent {
            type_ident: UserTypeIdent { ident: type_ident },
            selector: TypeMemberFnSelector::Variant(
                VariantCtorTypeMemberFnSelector { variant_ident: variant },
            ),
        },
    )
}

/// The accessor of a field of the structure `type_ident`.
pub open spec fn field_fn(type_ident: Ident, field: Ident) -> FnIdent {
    FnIdent::TypeMember(
        TypeMemberFnIdent {
            type_ident: UserTypeIdent { ident: type_ident },
            selector: TypeMemberFnSelector::Field(FieldTypeMemberFnSelector { field_ident: field }),
        },
    )
}

/// The Boogie literal of a Cachet literal: a bit vector of the same width
/// holding the same bits.
pub open spec fn spec_compile_literal(l: Literal) -> BplLiteral {
    match l {
        Literal::Int8(n) => BplLiteral::Bv8(n as u8),
        Literal::Int16(n) => BplLiteral::Bv16(n as u16),
        Literal::Int32(n) => BplLiteral::Bv32(n as u32),
        Literal::Int64(n) => BplLiteral::Bv64(n as u64),
        Literal::UInt8(n) => BplLiteral::Bv8(n),
        Literal::UInt16(n) => BplLiteral::Bv16(n),
        Literal::UInt32(n) => BplLiteral::Bv32(n),
        Literal::UInt64(n) => BplLiteral::Bv64(n),
    }
}

/// The Boogie literal of a Cachet literal.
pub fn compile_literal(l: Literal) -> (r: BplLiteral)
    ensures
        r == spec_compile_literal(l),
{
    match l {
        Literal::Int8(n) => BplLiteral::Bv8(n as u8),
        Literal::Int16(n) => BplLiteral::Bv16(n as u16),
        Literal::Int32(n) => BplLiteral::Bv32(n as u32),
        Literal::Int64(n) => BplLiteral::Bv64(n as u64),
        Literal::UInt8(n) => BplLiteral::Bv8(n),
        Literal::UInt16(n) => BplLiteral::Bv16(n),
        Literal::UInt32(n) => BplLiteral::Bv32(n),
        Literal::UInt64(n) => BplLiteral::Bv64(n),
    }
}

/// An integer literal compiles to a bit vector of its own width that holds
/// its value modulo two to the width: an unsigned value as it is, a negative
/// one as its two's complement.
pub proof fn law_compile_literal_keeps_bits(l: Literal)
    ensures
        match l {
            Literal::Int8(n) => spec_compile_literal(l) matches BplLiteral::Bv8(v) && v as int == (
            n as int) % 256,
            Literal::Int16(n) => spec_compile_literal(l) matches BplLiteral::Bv16(v) && v as int == (
            n as int) % 65536,
            Literal::Int32(n) => spec_compile_literal(l) matches BplLiteral::Bv32(v) && v as int == (
            n as int) % 4294967296,
            Literal::Int64(n) => spec_compile_literal(l) matches BplLiteral::Bv64(v) && v as int == (
            n as int) % 18446744073709551616,
            Literal::UInt8(n) => spec_compile_literal(l) == BplLiteral::Bv8(n),
            Literal::UInt16(n) => spec_compile_literal(l) == BplLiteral::Bv16(n),
            Literal::UInt32(n) => spec_compile_literal(l) == BplLiteral::Bv32(n),
            Literal::UInt64(n) => spec_compile_literal(l) == BplLiteral::Bv64(n),
        },
{
    match l {
        Literal::Int8(n) => {
            assert(n < 0 ==> n as u8 == n + 256) by (bit_vector);
            assert(n >= 0 ==> n as u8 == n) by (bit_vector);
        },
        Literal::Int16(n) => {
            assert(n < 0 ==> n as u16 == n + 65536) by (bit_vector);
            assert(n >= 0 ==> n as u16 == n) by (bit_vector);
        },
        Literal::Int32(n) => {
            assert(n < 0 ==> n as u32 == n + 4294967296) by (bit_vector);
            assert(n >= 0 ==> n as u32 == n) by (bit_vector);
        },
        Literal::Int64(n) => {
            assert(n < 0 ==> n as u64 == n + 18446744073709551616) by (bit_vector);
            assert(n >= 0 ==> n as u64 == n) by (bit_vector);
        },
        _ => {},
    }
}

/// What a variable reads compiles to: `true` and `false` for the boolean
/// constants; a call of the constructor for an enumeration variant; a call
/// of the defining function for a global constant with a value; and the
/// variable itself otherwise, named by its parent and name, or by the
/// parameter's or local's name.
pub open spec fn var_access_ok(
    env: &FlatEnv,
    params: Seq<Ident>,
    locals: Seq<Ident>,
    v: FlatVarIndex,
    e: Expr,
) -> bool {
    match v {
        FlatVarIndex::BuiltIn(FlatBuiltInVar::True) => e == Expr::Literal(BplLiteral::Bool(true)),
        FlatVarIndex::BuiltIn(FlatBuiltInVar::False) => e == Expr::Literal(BplLiteral::Bool(false)),
        FlatVarIndex::BuiltIn(FlatBuiltInVar::Named { ident, .. }) => e == Expr::Var(
            VarIdent::Global(
                GlobalVarIdent::User(UserGlobalVarIdent { parent_ident: None, var_ident: ident }),
            ),
        ),
        FlatVarIndex::EnumVariant { enum_index, variant_index } => {
            let item = env.enum_items@[enum_index as int];
            is_call(e, variant_ctor(item.ident, item.variants@[variant_index as int]), seq![])
        },
        FlatVarIndex::Global(g) => {
            let item = env.global_var_items@[g as int];
            if item.value is Some {
                is_call(
                    e,
                    FnIdent::User(
                        UserFnIdent { parent_ident: item.parent_ident, fn_ident: item.ident },
                    ),
                    seq![],
                )
            } else {
                e == Expr::Var(
                    VarIdent::Global(
                        GlobalVarIdent::User(
                            UserGlobalVarIdent {
                                parent_ident: item.parent_ident,
                                var_ident: item.ident,
                            },
                        ),
                    ),
                )
            }
        },
        FlatVarIndex::Param(p) => e == Expr::Var(
            VarIdent::Param(ParamVarIdent::User(UserParamVarIdent { ident: params[p as int] })),
        ),
        FlatVarIndex::Local(l) => e == Expr::Var(
            VarIdent::Local(LocalVarIdent { ident: locals[l as int], index: l }),
        ),
    }
}

fn clone_opt_ident(i: &Option<Ident>) -> (r: Option<Ident>)
    ensures
        r == *i,
{
    match i {
        Some(x) => Some(x.clone()),
        None => None,
    }
}

/// The Boogie expression that reads the variable `v`, in an item with the
/// parameters `params` and the locals `locals`.
pub fn compile_var_access(
    env: &FlatEnv,
    params: &Vec<Ident>,
    locals: &Vec<Ident>,
    v: &FlatVarIndex,
) -> (r: Expr)
    requires
        env.var_ok(*v, params@.len(), locals@.len()),
    ensures
        var_access_ok(env, params@, locals@, *v, r),
{
    match v {
        FlatVarIndex::BuiltIn(FlatBuiltInVar::True) => Expr::Literal(BplLiteral::Bool(true)),
        FlatVarIndex::BuiltIn(FlatBuiltInVar::False) => Expr::Literal(BplLiteral::Bool(false)),
        FlatVarIndex::BuiltIn(FlatBuiltInVar::Named { ident, .. }) => Expr::Var(
            VarIdent::Global(
                GlobalVarIdent::User(
                    UserGlobalVarIdent { parent_ident: None, var_ident: ident.clone() },
                ),
            ),
        ),
        FlatVarIndex::EnumVariant { enum_index, variant_index } => {
            let item = &env.enum_items[*enum_index];
            let target = FnIdent::TypeMember(
                TypeMemberFnIdent {
                    type_ident: type_ident(&item.ident),
                    selector: TypeMemberFnSelector::Variant(
                        VariantCtorTypeMemberFnSelector {
                            variant_ident: item.variants[*variant_index].clone(),
                        },
                    ),
                },
            );
            Expr::Call(CallExpr { target, arg_exprs: Vec::new() })
        },
        FlatVarIndex::Global(g) => {
            let item = &env.global_var_items[*g];
            if item.value.is_some() {
                let target = FnIdent::User(
                    UserFnIdent {
                        parent_ident: clone_opt_ident(&item.parent_ident),
                        fn_ident: item.ident.clone(),
                    },
                );
                Expr::Call(CallExpr { target, arg_exprs: Vec::new() })
            } else {
                Expr::Var(
                    VarIdent::Global(
                        GlobalVarIdent::User(
                            UserGlobalVarIdent {
                                parent_ident: clone_opt_ident(&item.parent_ident),
                                var_ident: item.ident.clone(),
                            },
                        ),
                    ),
                )
            }
        },
        FlatVarIndex::Param(p) => Expr::Var(
            VarIdent::Param(ParamVarIdent::User(UserParamVarIdent { ident: params[*p].clone() })),
        ),
        FlatVarIndex::Local(l) => Expr::Var(
            VarIdent::Local(LocalVarIdent { ident: locals[*l].clone(), index: *l }),
        ),
    }
}

/// Whether `after` is `before` followed by `n` more elements.
pub open spec fn appended<T>(before: Seq<T>, after: Seq<T>, n: nat) -> bool {
    &&& after.len() == before.len() + n
    &&& forall|i: int| 0 <= i < before.len() ==> #[trigger] after[i] == before[i]
}

/// The elements added after `before`.
pub open spec fn added<T>(before: Seq<T>, after: Seq<T>) -> Seq<T> {
    after.skip(before.len() as int)
}

/// An enumeration compiles to a data type of its name, then one constructor
/// without parameters per variant, in order.
pub open spec fn enum_decls_ok(item: FlatEnumItem, new: Seq<Item>) -> bool {
    &&& new.len() == item.variants@.len() + 1
    &&& new[0] == Item::Type(
        TypeItem {
            ident: TypeIdent::User(UserTypeIdent { ident: item.ident }),
            attr: Some(TypeAttr::DataType),
            type_: None,
        },
    )
    &&& forall|j: int|
        0 <= j < item.variants@.len() ==> is_fn_decl(
            #[trigger] new[j + 1],
            variant_ctor(item.ident, item.variants@[j]),
            Some(FnAttr::Ctor),
            seq![],
            user_type(item.ident),
        )
}

/// The walk up the supertypes of structure `s` ends within `fuel` steps,
/// among declared structures.
pub open spec fn chain_ends(env: &FlatEnv, s: int, fuel: nat) -> bool
    decreases fuel,
{
    fuel > 0 && 0 <= s < env.struct_items@.len() && match env.struct_items@[s].supertype {
        Some(FlatTypeIndex::Struct(t)) => chain_ends(env, t as int, (fuel - 1) as nat),
        _ => true,
    }
}

/// The last supertype met walking up from structure `s`, within `fuel`
/// steps: the root of its hierarchy, if it has a supertype at all.
pub open spec fn root_supertype(env: &FlatEnv, s: int, fuel: nat) -> Option<FlatTypeIndex>
    decreases fuel,
{
    if fuel == 0 {
        None
    } else {
        match env.struct_items@[s].supertype {
            Some(FlatTypeIndex::Struct(t)) => match root_supertype(env, t as int, (fuel - 1) as nat) {
                Some(r) => Some(r),
                None => Some(FlatTypeIndex::Struct(t)),
            },
            other => other,
        }
    }
}

/// The one parameter of a field accessor: the instance.
pub open spec fn instance_params(owner_name: Ident) -> Seq<TypedVar> {
    seq![TypedVar { ident: VarIdent::Param(ParamVarIdent::Instance), type_: user_type(owner_name) }]
}

/// A field of structure `owner_name` compiles to an accessor of the instance:
/// a declared function of the field's type for a variable, an inline one
/// that gives the exit label for a label.
pub open spec fn field_decl_ok(env: &FlatEnv, owner_name: Ident, field: FlatField, item: Item) -> bool {
    match field {
        FlatField::Var { ident, type_ } => is_fn_decl(
            item,
            field_fn(owner_name, ident),
            None,
            instance_params(owner_name),
            user_type(env.spec_type_name(type_)),
        ),
        FlatField::Label { ident } => is_fn_def(
            item,
            field_fn(owner_name, ident),
            Some(FnAttr::Inline),
            instance_params(owner_name),
            prelude_type(PreludeTypeIdent::Label),
            |e: Expr| is_call(e, FnIdent::Prelude(PreludeFnIdent::ExitLabel), seq![]),
        ),
    }
}

/// A structure compiles to a type of its name, an alias of the root of its
/// hierarchy when it has a supertype, then one accessor per field, in order.
pub open spec fn struct_decls_ok(env: &FlatEnv, s: int, new: Seq<Item>) -> bool {
    let item = env.struct_items@[s];
    &&& new.len() == item.fields@.len() + 1
    &&& new[0] == Item::Type(
        TypeItem {
            ident: TypeIdent::User(UserTypeIdent { ident: item.ident }),
            attr: None,
            type_: match root_supertype(env, s, env.struct_items@.len()) {
                Some(t) => Some(user_type(env.spec_type_name(t))),
                None => None,
            },
        },
    )
    &&& forall|j: int|
        0 <= j < item.fields@.len() ==> field_decl_ok(
            env,
            item.ident,
            item.fields@[j],
            #[trigger] new[j + 1],
        )
}

/// What the value of a global constant compiles to.
pub open spec fn value_ok(env: &FlatEnv, v: FlatValue, e: Expr) -> bool {
    match v {
        FlatValue::Literal(l) => e == Expr::Literal(spec_compile_literal(l)),
        FlatValue::Var(x) => var_access_ok(env, seq![], seq![], x, e),
    }
}

/// A global variable that the prelude does not declare compiles to one
/// declaration: an inline function without parameters that gives its value
/// if it has one; otherwise a variable if it may be assigned, and a constant
/// if not.
pub open spec fn global_var_decls_ok(env: &FlatEnv, g: int, new: Seq<Item>) -> bool {
    let item = env.global_var_items@[g];
    let var = TypedVar {
        ident: VarIdent::Global(
            GlobalVarIdent::User(
                UserGlobalVarIdent { parent_ident: item.parent_ident, var_ident: item.ident },
            ),
        ),
        type_: user_type(env.spec_type_name(item.type_)),
    };
    if item.is_prelude {
        new.len() == 0
    } else {
        new.len() == 1 && match item.value {
            Some(v) => is_fn_def(
                new[0],
                FnIdent::User(UserFnIdent { parent_ident: item.parent_ident, fn_ident: item.ident }),
                Some(FnAttr::Inline),
                seq![],
                user_type(env.spec_type_name(item.type_)),
                |e: Expr| value_ok(env, v, e),
            ),
            None => new[0] == if item.is_mut {
                Item::GlobalVar(GlobalVarItem { var })
            } else {
                Item::Const(ConstItem { var })
            },
        }
    }
}

/// A member function or procedure of IR `ir`.
pub open spec fn ir_fn(ir: Ident, selector: IrMemberFnSelector) -> FnIdent {
    FnIdent::IrMember(IrMemberFnIdent { ir_ident: IrIdent { ident: ir }, selector })
}

/// The type of the ops of IR `ir`.
pub open spec fn op_type_ident(ir: Ident) -> TypeIdent {
    TypeIdent::IrMember(
        IrMemberTypeIdent { ir_ident: IrIdent { ident: ir }, selector: IrMemberTypeSelector::Op },
    )
}

/// The program counter of IR `ir`.
pub open spec fn pc_var_ident(ir: Ident) -> VarIdent {
    VarIdent::Global(
        GlobalVarIdent::IrMember(
            IrMemberGlobalVarIdent {
                ir_ident: IrIdent { ident: ir },
                selector: IrMemberGlobalVarSelector::Pc,
            },
        ),
    )
}

/// A parameter of a generated declaration, as an expression.
pub open spec fn param(p: ParamVarIdent) -> Expr {
    Expr::Var(VarIdent::Param(p))
}

/// A parameter of a generated declaration with its type.
pub open spec fn typed_param(p: ParamVarIdent, t: Type) -> TypedVar {
    TypedVar { ident: VarIdent::Param(p), type_: t }
}

/// Whether `stmt` assigns `rhs` to `lhs`.
pub open spec fn is_assign(stmt: Stmt, lhs: Expr, rhs_ok: spec_fn(Expr) -> bool) -> bool {
    match stmt {
        Stmt::Assign(a) => a.lhs == lhs && rhs_ok(a.rhs),
        _ => false,
    }
}

/// Whether `stmt` assumes that two expressions are equal.
pub open spec fn is_assume_eq(
    stmt: Stmt,
    lhs_ok: spec_fn(Expr) -> bool,
    rhs_ok: spec_fn(Expr) -> bool,
) -> bool {
    match stmt {
        Stmt::Check(c) => c.kind == CheckKind::Assume && c.attr is None && match c.cond {
            Expr::BinOper(b) => b.oper == BplBinOper::Compare(CompareBinOper::Eq) && lhs_ok(b.lhs)
                && rhs_ok(b.rhs),
            _ => false,
        },
        _ => false,
    }
}

/// Whether `item` defines the procedure `ident`, with that attribute and
/// parameters, no return values and no locals, and statements of which
/// `stmts_ok` holds.
pub open spec fn is_proc_def(
    item: Item,
    ident: FnIdent,
    attr: Option<ProcAttr>,
    params: Seq<TypedVar>,
    stmts_ok: spec_fn(Seq<Stmt>) -> bool,
) -> bool {
    match item {
        Item::Proc(p) => p.ident == ident && p.attr == attr && p.param_vars.vars@ == params
            && p.ret_vars.vars@.len() == 0 && match p.body {
            Some(b) => b.local_vars@.len() == 0 && stmts_ok(b.stmts@),
            None => false,
        },
        _ => false,
    }
}

/// An IR that emits into no other compiles to the infrastructure of its
/// ops: their data type and exit constructor, the program counter and the
/// functions that give the op at a counter and the next counter, the
/// procedures that step and emit, the function that gives the counter a
/// label is bound to, and the procedures that bind a label, bind the exit
/// label and jump to a label.
pub open spec fn ir_decls_ok(ir: Ident, new: Seq<Item>) -> bool {
    let pc_t = prelude_type(PreludeTypeIdent::Pc);
    let label_t = prelude_type(PreludeTypeIdent::Label);
    let op_t = Type::Ident(op_type_ident(ir));
    let pc = Expr::Var(pc_var_ident(ir));
    let inline1 = Some(ProcAttr::Inline(InlineProcAttr { depth: 1 }));
    let label_params = seq![typed_param(ParamVarIdent::Label, label_t)];
    &&& new.len() == 11
    &&& new[0] == Item::Type(
        TypeItem { ident: op_type_ident(ir), attr: Some(TypeAttr::DataType), type_: None },
    )
    &&& is_fn_decl(
        new[1],
        ir_fn(ir, IrMemberFnSelector::Op(OpCtorIrMemberFnSelector { op_selector: OpSelector::Exit })),
        Some(FnAttr::Ctor),
        seq![],
        op_t,
    )
    &&& new[2] == Item::GlobalVar(GlobalVarItem { var: TypedVar { ident: pc_var_ident(ir), type_: pc_t } })
    &&& is_fn_decl(
        new[3],
        ir_fn(ir, IrMemberFnSelector::OpAt),
        None,
        seq![typed_param(ParamVarIdent::Pc, pc_t)],
        op_t,
    )
    &&& is_fn_decl(
        new[4],
        ir_fn(ir, IrMemberFnSelector::NextPc),
        None,
        seq![typed_param(ParamVarIdent::Pc, pc_t)],
        pc_t,
    )
    &&& is_proc_def(
        new[5],
        ir_fn(ir, IrMemberFnSelector::Step),
        inline1,
        seq![],
        |ss: Seq<Stmt>|
            ss.len() == 1 && is_assign(
                ss[0],
                pc,
                |e: Expr| is_call(e, ir_fn(ir, IrMemberFnSelector::NextPc), seq![pc]),
            ),
    )
    &&& is_proc_def(
        new[6],
        ir_fn(ir, IrMemberFnSelector::Emit),
        None,
        seq![typed_param(ParamVarIdent::Op, op_t), typed_param(ParamVarIdent::Pc, pc_t)],
        |ss: Seq<Stmt>|
            ss.len() == 3 && is_assume_eq(
                ss[0],
                |e: Expr| is_call(e, ir_fn(ir, IrMemberFnSelector::OpAt), seq![param(ParamVarIdent::Pc)]),
                |e: Expr| e == param(ParamVarIdent::Op),
            ) && is_assume_eq(
                ss[1],
                |e: Expr| is_call(e, ir_fn(ir, IrMemberFnSelector::NextPc), seq![pc]),
                |e: Expr| e == param(ParamVarIdent::Pc),
            ) && is_assign(ss[2], pc, |e: Expr| e == param(ParamVarIdent::Pc)),
    )
    &&& is_fn_decl(new[7], ir_fn(ir, IrMemberFnSelector::LabelBoundPc), None, label_params, pc_t)
    &&& is_proc_def(
        new[8],
        ir_fn(ir, IrMemberFnSelector::Bind),
        inline1,
        label_params,
        |ss: Seq<Stmt>|
            ss.len() == 1 && is_assume_eq(
                ss[0],
                |e: Expr|
                    is_call(
                        e,
                        ir_fn(ir, IrMemberFnSelector::LabelBoundPc),
                        seq![param(ParamVarIdent::Label)],
                    ),
                |e: Expr| is_call(e, ir_fn(ir, IrMemberFnSelector::NextPc), seq![pc]),
            ),
    )
    &&& is_proc_def(
        new[9],
        ir_fn(ir, IrMemberFnSelector::BindExit),
        inline1,
        label_params,
        |ss: Seq<Stmt>|
            ss.len() == 1 && is_assume_eq(
                ss[0],
                |e: Expr|
                    is_call(
                        e,
                        ir_fn(ir, IrMemberFnSelector::LabelBoundPc),
                        seq![param(ParamVarIdent::Label)],
                    ),
                |e: Expr| is_call(e, FnIdent::Prelude(PreludeFnIdent::ExitPc), seq![]),
            ),
    )
    &&& is_proc_def(
        new[10],
        ir_fn(ir, IrMemberFnSelector::Goto),
        inline1,
        label_params,
        |ss: Seq<Stmt>|
            ss.len() == 1 && is_assign(
                ss[0],
                pc,
                |e: Expr|
                    is_call(
                        e,
                        ir_fn(ir, IrMemberFnSelector::LabelBoundPc),
                        seq![param(ParamVarIdent::Label)],
                    ),
            ),
    )
}

/// The Boogie parameter that a parameter compiles to: named after it, of
/// its type for a variable and of the label type for a label.
pub open spec fn param_var(env: &FlatEnv, p: FlatParam) -> TypedVar {
    match p {
        FlatParam::Var { ident, type_, .. } => TypedVar {
            ident: VarIdent::Param(ParamVarIdent::User(UserParamVarIdent { ident })),
            type_: user_type(env.spec_type_name(type_)),
        },
        FlatParam::Label { ident, .. } => TypedVar {
            ident: VarIdent::Param(ParamVarIdent::User(UserParamVarIdent { ident })),
            type_: prelude_type(PreludeTypeIdent::Label),
        },
    }
}

/// The Boogie parameters of the parameters `ps`: all but the variables
/// passed out, in order.
pub open spec fn spec_param_vars(env: &FlatEnv, ps: Seq<FlatParam>) -> Seq<TypedVar>
    decreases ps.len(),
{
    if ps.len() == 0 {
        seq![]
    } else {
        let r = spec_param_vars(env, ps.drop_last());
        if ps.last().is_out_var() {
            r
        } else {
            r.push(param_var(env, ps.last()))
        }
    }
}

/// The Boogie return variables of the parameters `ps`: the variables passed
/// out, in order.
pub open spec fn spec_out_vars(env: &FlatEnv, ps: Seq<FlatParam>) -> Seq<TypedVar>
    decreases ps.len(),
{
    if ps.len() == 0 {
        seq![]
    } else {
        let r = spec_out_vars(env, ps.drop_last());
        if ps.last().is_out_var() {
            r.push(param_var(env, ps.last()))
        } else {
            r
        }
    }
}

/// The labels passed out among the parameters `ps`, in order.
pub open spec fn out_labels(ps: Seq<FlatParam>) -> Seq<FlatParam>
    decreases ps.len(),
{
    if ps.len() == 0 {
        seq![]
    } else {
        let r = out_labels(ps.drop_last());
        if ps.last() matches FlatParam::Label { is_out: true, .. } {
            r.push(ps.last())
        } else {
            r
        }
    }
}

/// The name of a callable in Boogie: its parent and its own name.
pub open spec fn user_fn(c: FlatCallableItem) -> UserFnIdent {
    UserFnIdent { parent_ident: c.spec_parent_ident(), fn_ident: c.ident }
}

/// The parameters of a callable in Boogie: those of its own parameters,
/// then the program counter when it emits ops.
pub open spec fn callable_params(env: &FlatEnv, c: FlatCallableItem) -> Seq<TypedVar> {
    spec_param_vars(env, c.params@) + if c.emits {
        seq![typed_param(ParamVarIdent::Pc, prelude_type(PreludeTypeIdent::Pc))]
    } else {
        seq![]
    }
}

/// The return variables of a callable compiled to a procedure: its
/// variables passed out, then its return value if it has one.
pub open spec fn callable_rets(env: &FlatEnv, c: FlatCallableItem) -> Seq<TypedVar> {
    spec_out_vars(env, c.params@) + match c.ret {
        Some(t) => seq![TypedVar { ident: VarIdent::Ret, type_: user_type(env.spec_type_name(t)) }],
        None => seq![],
    }
}

/// How a callable is compiled: as a function or as a procedure.
pub open spec fn callable_repr(c: FlatCallableItem) -> CallableRepr {
    spec_for_callable(c.spec_path(), c.param_outs(), c.ret is Some, c.has_body)
}

/// Whether a callable is an op that constructs ops of the IR it
/// interprets.
pub open spec fn has_op_ctor(c: FlatCallableItem) -> bool {
    c.is_op && c.interprets is Some
}

/// The constructor of the op `c` in the data type of the ops of the IR it
/// interprets: it takes the op's parameters.
pub open spec fn op_ctor_ok(env: &FlatEnv, c: FlatCallableItem, item: Item) -> bool {
    let ir = env.ir_items@[c.interprets->0 as int].ident;
    is_fn_decl(
        item,
        ir_fn(
            ir,
            IrMemberFnSelector::Op(
                OpCtorIrMemberFnSelector {
                    op_selector: OpSelector::User(UserOpSelector { op_ident: c.ident }),
                },
            ),
        ),
        Some(FnAttr::Ctor),
        spec_param_vars(env, c.params@),
        Type::Ident(op_type_ident(ir)),
    )
}

/// The function that stands for what an external procedure leaves in the
/// return variable `v`.
pub open spec fn helper_fn(c: FlatCallableItem, v: VarIdent) -> FnIdent {
    FnIdent::ExternalUserFnHelper(ExternalUserFnHelperFnIdent { fn_ident: user_fn(c), ret_var_ident: v })
}

/// The variables of `vs`, as expressions.
pub open spec fn var_exprs(vs: Seq<TypedVar>) -> Seq<Expr> {
    vs.map_values(|v: TypedVar| Expr::Var(v.ident))
}

/// Whether `stmt` calls the procedure `target` with `args`, keeping no
/// result.
pub open spec fn is_call_stmt(stmt: Stmt, target: FnIdent, args: Seq<Expr>) -> bool {
    match stmt {
        Stmt::Call(c) => c.call.target == target && c.call.arg_exprs@ == args
            && c.ret_var_idents@.len() == 0,
        _ => false,
    }
}

/// Whether `item` defines the procedure `ident` with those parameters,
/// return variables and attribute, and a body of which `body_ok` holds.
pub open spec fn is_proc_full(
    item: Item,
    ident: FnIdent,
    attr: Option<ProcAttr>,
    params: Seq<TypedVar>,
    rets: Seq<TypedVar>,
    body_ok: spec_fn(Body) -> bool,
) -> bool {
    match item {
        Item::Proc(p) => p.ident == ident && p.attr == attr && p.param_vars.vars@ == params
            && p.ret_vars.vars@ == rets && match p.body {
            Some(b) => body_ok(b),
            None => false,
        },
        _ => false,
    }
}

/// The body given to an external callable compiled to a procedure: each
/// return variable is assigned what its helper function gives for the
/// parameters, then each label passed out is bound to the exit.
pub open spec fn external_body_ok(env: &FlatEnv, c: FlatCallableItem, b: Body) -> bool {
    let rets = callable_rets(env, c);
    let labels = out_labels(c.params@);
    let args = var_exprs(callable_params(env, c));
    &&& b.local_vars@.len() == 0
    &&& b.stmts@.len() == rets.len() + labels.len()
    &&& forall|k: int|
        0 <= k < rets.len() ==> is_assign(
            #[trigger] b.stmts@[k],
            Expr::Var(rets[k].ident),
            |e: Expr| is_call(e, helper_fn(c, rets[k].ident), args),
        )
    &&& forall|m: int|
        0 <= m < labels.len() ==> match labels[m] {
            FlatParam::Label { ident, ir, .. } => is_call_stmt(
                #[trigger] b.stmts@[rets.len() + m],
                ir_fn(env.ir_items@[ir as int].ident, IrMemberFnSelector::BindExit),
                seq![param(ParamVarIdent::User(UserParamVarIdent { ident }))],
            ),
            _ => false,
        }
}

/// After the first `off` declarations, one helper function per return
/// variable of the callable, taking its parameters and giving that
/// variable's type.
pub open spec fn helper_decls_ok(env: &FlatEnv, c: FlatCallableItem, new: Seq<Item>, off: int) -> bool {
    let rets = callable_rets(env, c);
    forall|k: int|
        0 <= k < rets.len() ==> is_fn_decl(
            #[trigger] new[off + k],
            helper_fn(c, rets[k].ident),
            None,
            callable_params(env, c),
            rets[k].type_,
        )
}

/// What a callable that the prelude does not declare, and that is not
/// implemented by hand, compiles to: for an op that interprets an IR, first
/// its constructor; then a function when it is represented as one, else a
/// procedure, with `body` as its body when it has one, and otherwise with a
/// helper function per return variable before it and the body that uses
/// them.
pub open spec fn callable_decls_ok(
    env: &FlatEnv,
    c: FlatCallableItem,
    body: Option<Body>,
    new: Seq<Item>,
) -> bool {
    let off: int = if has_op_ctor(c) { 1 } else { 0 };
    let pv = callable_params(env, c);
    let rets = callable_rets(env, c);
    let inline = c.is_inline && !c.is_op;
    &&& (has_op_ctor(c) ==> op_ctor_ok(env, c, new[0]))
    &&& match callable_repr(c) {
        CallableRepr::Fn => new.len() == off + 1 && is_fn_decl(
            new[off],
            FnIdent::User(user_fn(c)),
            if inline { Some(FnAttr::Inline) } else { None },
            pv,
            user_type(env.spec_type_name(c.ret->0)),
        ),
        CallableRepr::Proc => match body {
            Some(b) => new.len() == off + 1 && is_proc_full(
                new[off],
                FnIdent::User(user_fn(c)),
                if inline { Some(ProcAttr::Inline(InlineProcAttr { depth: 1 })) } else { None },
                pv,
                rets,
                |bb: Body| bb == b,
            ),
            None => {
                &&& new.len() == off + rets.len() + 1
                &&& helper_decls_ok(env, c, new, off)
                &&& is_proc_full(
                    new[off + rets.len()],
                    FnIdent::User(user_fn(c)),
                    Some(ProcAttr::Inline(InlineProcAttr { depth: 1 })),
                    pv,
                    rets,
                    |bb: Body| external_body_ok(env, c, bb),
                )
            },
        },
    }
}

/// The Boogie parameter of one parameter.
fn compile_param(env: &FlatEnv, p: &FlatParam) -> (r: TypedVar)
    requires
        match *p {
            FlatParam::Var { type_, .. } => env.type_ok(type_),
            _ => true,
        },
    ensures
        r == param_var(env, *p),
{
    match p {
        FlatParam::Var { ident, type_, .. } => TypedVar {
            ident: VarIdent::Param(ParamVarIdent::User(UserParamVarIdent { ident: ident.clone() })),
            type_: Type::Ident(TypeIdent::User(Compiler::get_type_ident(env, type_))),
        },
        FlatParam::Label { ident, .. } => TypedVar {
            ident: VarIdent::Param(ParamVarIdent::User(UserParamVarIdent { ident: ident.clone() })),
            type_: prelude(PreludeTypeIdent::Label),
        },
    }
}

/// The parameters of `params` are all of declared types.
pub open spec fn params_ok(env: &FlatEnv, params: Seq<FlatParam>) -> bool {
    forall|k: int|
        0 <= k < params.len() ==> match #[trigger] params[k] {
            FlatParam::Var { type_, .. } => env.type_ok(type_),
            FlatParam::Label { ir, .. } => ir < env.ir_items@.len(),
        }
}

/// The Boogie parameters and return variables of a callable's parameters:
/// variables passed out become return variables, the others parameters.
pub fn compile_params(env: &FlatEnv, params: &Vec<FlatParam>) -> (r: (Vec<TypedVar>, Vec<TypedVar>))
    requires
        params_ok(env, params@),
    ensures
        r.0@ == spec_param_vars(env, params@),
        r.1@ == spec_out_vars(env, params@),
{
    let mut param_vars: Vec<TypedVar> = Vec::new();
    let mut out_vars: Vec<TypedVar> = Vec::new();
    let mut i: usize = 0;
    while i < params.len()
        invariant
            i <= params@.len(),
            params_ok(env, params@),
            param_vars@ == spec_param_vars(env, params@.take(i as int)),
            out_vars@ == spec_out_vars(env, params@.take(i as int)),
        decreases params@.len() - i,
    {
        assert(params@.take(i + 1).drop_last() =~= params@.take(i as int));
        let p = &params[i];
        let v = compile_param(env, p);
        match p {
            FlatParam::Var { kind: VarParamKind::Out, .. } => out_vars.push(v),
            _ => param_vars.push(v),
        }
        i = i + 1;
    }
    assert(params@.take(params@.len() as int) =~= params@);
    (param_vars, out_vars)
}

/// The Boogie parameters of a callable.
fn callable_param_vars(env: &FlatEnv, c: &FlatCallableItem) -> (r: Vec<TypedVar>)
    requires
        params_ok(env, c.params@),
    ensures
        r@ == callable_params(env, *c),
{
    let (mut param_vars, _) = compile_params(env, &c.params);
    if c.emits {
        param_vars.push(
            TypedVar { ident: VarIdent::Param(ParamVarIdent::Pc), type_: prelude(PreludeTypeIdent::Pc) },
        );
    }
    assert(param_vars@ =~= callable_params(env, *c));
    param_vars
}

/// The Boogie return variables of a callable compiled to a procedure.
fn callable_ret_vars(env: &FlatEnv, c: &FlatCallableItem) -> (r: Vec<TypedVar>)
    requires
        params_ok(env, c.params@),
        c.ret matches Some(t) ==> env.type_ok(t),
    ensures
        r@ == callable_rets(env, *c),
{
    let (_, mut ret_vars) = compile_params(env, &c.params);
    if let Some(t) = &c.ret {
        ret_vars.push(
            TypedVar {
                ident: VarIdent::Ret,
                type_: Type::Ident(TypeIdent::User(Compiler::get_type_ident(env, t))),
            },
        );
    }
    assert(ret_vars@ =~= callable_rets(env, *c));
    ret_vars
}

/// The element at `k`, taken out of `v`.
pub(crate) fn take_nth<T>(v: Vec<T>, k: usize) -> (r: T)
    requires
        k < v@.len(),
    ensures
        r == v@[k as int],
{
    let mut v = v;
    v.remove(k)
}

/// The variables of `vs`, as expressions.
pub(crate) fn var_exprs_of(vs: Vec<TypedVar>) -> (r: Vec<Expr>)
    ensures
        r@ == var_exprs(vs@),
{
    let ghost orig = vs@;
    let mut vs = vs;
    let mut out: Vec<Expr> = Vec::new();
    while vs.len() > 0
        invariant
            out@.len() + vs@.len() == orig.len(),
            out@ == var_exprs(orig).take(out@.len() as int),
            vs@ == orig.skip(out@.len() as int),
        decreases vs@.len(),
    {
        let ghost k: int = out@.len() as int;
        let v = vs.remove(0);
        out.push(Expr::Var(v.ident));
        assert(vs@ =~= orig.skip(k + 1));
        assert(out@ =~= var_exprs(orig).take(k + 1));
    }
    assert(out@ =~= var_exprs(orig));
    out
}

/// The path of a callable.
fn callable_path(c: &FlatCallableItem) -> (r: Path)
    ensures
        r@ == c.spec_path(),
{
    let mut segments: Vec<Ident> = Vec::new();
    let mut i: usize = 0;
    while i < c.parents.len()
        invariant
            i <= c.parents@.len(),
            segments@ == c.parents@.take(i as int),
        decreases c.parents@.len() - i,
    {
        segments.push(c.parents[i].clone());
        i = i + 1;
        assert(segments@ =~= c.parents@.take(i as int));
    }
    segments.push(c.ident.clone());
    assert(segments@ =~= c.parents@.push(c.ident));
    assert(idents_view(c.parents@.push(c.ident)) =~= c.spec_path());
    Path::from_segments(segments)
}

/// The name of a callable in Boogie.
pub(crate) fn user_fn_ident(c: &FlatCallableItem) -> (r: UserFnIdent)
    ensures
        r == user_fn(*c),
{
    let parent_ident = if c.parents.len() == 0 {
        None
    } else {
        Some(c.parents[c.parents.len() - 1].clone())
    };
    UserFnIdent { parent_ident, fn_ident: c.ident.clone() }
}

/// For each parameter of a callable, whether it is passed out.
fn param_outs_of(c: &FlatCallableItem) -> (r: Vec<bool>)
    ensures
        r@ == c.param_outs(),
{
    let mut r: Vec<bool> = Vec::new();
    let mut i: usize = 0;
    while i < c.params.len()
        invariant
            i <= c.params@.len(),
            r@ == c.param_outs().take(i as int),
        decreases c.params@.len() - i,
    {
        let out = match &c.params[i] {
            FlatParam::Var { kind, .. } => *kind == VarParamKind::Out,
            FlatParam::Label { is_out, .. } => *is_out,
        };
        r.push(out);
        i = i + 1;
        assert(r@ =~= c.param_outs().take(i as int));
    }
    assert(r@ =~= c.param_outs());
    r
}

/// Every parameter that `out_labels` keeps is a label.
pub proof fn lemma_out_labels_are_labels(ps: Seq<FlatParam>)
    ensures
        forall|m: int|
            0 <= m < out_labels(ps).len() ==> #[trigger] out_labels(ps)[m] matches FlatParam::Label {
                is_out: true,
                ..
            },
    decreases ps.len(),
{
    if ps.len() > 0 {
        lemma_out_labels_are_labels(ps.drop_last());
    }
}

/// The sum of the counts.
pub open spec fn sum_counts(counts: Seq<nat>) -> nat
    decreases counts.len(),
{
    if counts.len() == 0 {
        0
    } else {
        sum_counts(counts.drop_last()) + counts.last()
    }
}

/// Whether the declarations from `start` on fall into consecutive runs of
/// `counts[j]` declarations, the `j`th of which `ok(j, run)` accepts.
pub open spec fn segments_ok<T>(
    items: Seq<T>,
    start: int,
    counts: Seq<nat>,
    ok: spec_fn(int, Seq<T>) -> bool,
) -> bool
    decreases counts.len(),
{
    counts.len() == 0 || (segments_ok(items, start, counts.drop_last(), ok) && ok(
        counts.len() - 1,
        items.subrange(start + sum_counts(counts.drop_last()), start + sum_counts(counts)),
    ))
}

/// How many declarations each enumeration compiles to.
pub open spec fn enum_counts(env: &FlatEnv) -> Seq<nat> {
    Seq::new(
        env.enum_items@.len(),
        |j: int|
            if is_blocked(env.enum_items@[j].ident) {
                0
            } else {
                (env.enum_items@[j].variants@.len() + 1) as nat
            },
    )
}

/// How many declarations each structure compiles to.
pub open spec fn struct_counts(env: &FlatEnv) -> Seq<nat> {
    Seq::new(
        env.struct_items@.len(),
        |j: int|
            if is_blocked(env.struct_items@[j].ident) {
                0
            } else {
                (env.struct_items@[j].fields@.len() + 1) as nat
            },
    )
}

/// How many declarations each IR compiles to.
pub open spec fn ir_counts(env: &FlatEnv) -> Seq<nat> {
    Seq::new(
        env.ir_items@.len(),
        |j: int|
            if env.ir_items@[j].emits is Some || is_blocked(env.ir_items@[j].ident) {
                0
            } else {
                11
            },
    )
}

/// How many declarations each global variable compiles to.
pub open spec fn global_var_counts(env: &FlatEnv) -> Seq<nat> {
    Seq::new(
        env.global_var_items@.len(),
        |j: int|
            if env.global_var_items@[j].is_prelude {
                0
            } else {
                1
            },
    )
}

/// How many declarations a callable compiles to, with `body` as its body.
pub open spec fn callable_count(env: &FlatEnv, c: FlatCallableItem, body: Option<Body>) -> nat {
    if c.is_prelude || blocked_repr(c.spec_path()) is Some {
        0
    } else {
        (if has_op_ctor(c) {
            1nat
        } else {
            0nat
        }) + match callable_repr(c) {
            CallableRepr::Fn => 1nat,
            CallableRepr::Proc => match body {
                Some(_) => 1nat,
                None => callable_rets(env, c).len() + 1,
            },
        }
    }
}

/// How many declarations each callable of `items` compiles to.
pub open spec fn callable_counts(
    env: &FlatEnv,
    items: Seq<FlatCallableItem>,
    bodies: Seq<Option<Body>>,
) -> Seq<nat> {
    Seq::new(items.len(), |j: int| callable_count(env, items[j], bodies[j]))
}

/// What a callable compiles to, with `body` as its body.
pub open spec fn callable_ok(env: &FlatEnv, c: FlatCallableItem, body: Option<Body>, seg: Seq<Item>) -> bool {
    !(c.is_prelude || blocked_repr(c.spec_path()) is Some) ==> callable_decls_ok(env, c, body, seg)
}

/// What the `j`th enumeration compiles to.
pub open spec fn enum_ok(env: &FlatEnv) -> spec_fn(int, Seq<Item>) -> bool {
    |j: int, seg: Seq<Item>|
        !is_blocked(env.enum_items@[j].ident) ==> enum_decls_ok(env.enum_items@[j], seg)
}

/// What the `j`th structure compiles to.
pub open spec fn struct_ok(env: &FlatEnv) -> spec_fn(int, Seq<Item>) -> bool {
    |j: int, seg: Seq<Item>| !is_blocked(env.struct_items@[j].ident) ==> struct_decls_ok(env, j, seg)
}

/// What the `j`th IR compiles to.
pub open spec fn ir_ok(env: &FlatEnv) -> spec_fn(int, Seq<Item>) -> bool {
    |j: int, seg: Seq<Item>|
        !(env.ir_items@[j].emits is Some || is_blocked(env.ir_items@[j].ident)) ==> ir_decls_ok(
            env.ir_items@[j].ident,
            seg,
        )
}

/// What the `j`th global variable compiles to.
pub open spec fn global_var_ok(env: &FlatEnv) -> spec_fn(int, Seq<Item>) -> bool {
    |j: int, seg: Seq<Item>| global_var_decls_ok(env, j, seg)
}

/// What the `j`th callable of `items` compiles to, with the `j`th of
/// `bodies` as its body.
pub open spec fn callables_ok(
    env: &FlatEnv,
    items: Seq<FlatCallableItem>,
    bodies: Seq<Option<Body>>,
) -> spec_fn(int, Seq<Item>) -> bool {
    |j: int, seg: Seq<Item>| callable_ok(env, items[j], bodies[j], seg)
}

/// How many declarations the items of a flattened program compile to,
/// before its entry point.
pub open spec fn program_len(env: &FlatEnv, fn_bodies: Seq<Option<Body>>, op_bodies: Seq<Option<Body>>) -> nat {
    sum_counts(enum_counts(env)) + sum_counts(struct_counts(env)) + sum_counts(ir_counts(env))
        + sum_counts(global_var_counts(env)) + sum_counts(callable_counts(env, env.fn_items@, fn_bodies))
        + sum_counts(callable_counts(env, env.op_items@, op_bodies))
}

/// Whether the program has an entry point: its last op belongs to an IR.
pub open spec fn has_entry(env: &FlatEnv) -> bool {
    env.op_items@.len() > 0 && env.op_items@.last().parent_ir is Some
}

/// The Boogie program of a flattened program begins with its enumerations,
/// then its structures, IRs, global variables, functions and ops, each in
/// order and each compiled on its own; `fn_bodies` and `op_bodies` hold the
/// compiled bodies of the functions and ops that have one.
pub open spec fn program_ok(
    env: &FlatEnv,
    fn_bodies: Seq<Option<Body>>,
    op_bodies: Seq<Option<Body>>,
    items: Seq<Item>,
) -> bool {
    let s1 = sum_counts(enum_counts(env));
    let s2 = s1 + sum_counts(struct_counts(env));
    let s3 = s2 + sum_counts(ir_counts(env));
    let s4 = s3 + sum_counts(global_var_counts(env));
    let s5 = s4 + sum_counts(callable_counts(env, env.fn_items@, fn_bodies));
    let s6 = s5 + sum_counts(callable_counts(env, env.op_items@, op_bodies));
    &&& s6 == program_len(env, fn_bodies, op_bodies)
    &&& s6 <= items.len()
    &&& segments_ok(items, 0, enum_counts(env), enum_ok(env))
    &&& segments_ok(items, s1 as int, struct_counts(env), struct_ok(env))
    &&& segments_ok(items, s2 as int, ir_counts(env), ir_ok(env))
    &&& segments_ok(items, s3 as int, global_var_counts(env), global_var_ok(env))
    &&& segments_ok(
        items,
        s4 as int,
        callable_counts(env, env.fn_items@, fn_bodies),
        callables_ok(env, env.fn_items@, fn_bodies),
    )
    &&& segments_ok(
        items,
        s5 as int,
        callable_counts(env, env.op_items@, op_bodies),
        callables_ok(env, env.op_items@, op_bodies),
    )
}

/// Declarations added after segments already checked leave them as they
/// were.
pub proof fn lemma_segments_keep<T>(
    items1: Seq<T>,
    items2: Seq<T>,
    start: int,
    counts: Seq<nat>,
    ok: spec_fn(int, Seq<T>) -> bool,
)
    requires
        0 <= start,
        segments_ok(items1, start, counts, ok),
        start + sum_counts(counts) <= items1.len(),
        start + sum_counts(counts) <= items2.len(),
        forall|i: int| 0 <= i < start + sum_counts(counts) ==> #[trigger] items2[i] == items1[i],
    ensures
        segments_ok(items2, start, counts, ok),
    decreases counts.len(),
{
    if counts.len() > 0 {
        lemma_segments_keep(items1, items2, start, counts.drop_last(), ok);
        let lo = start + sum_counts(counts.drop_last());
        let hi = start + sum_counts(counts);
        assert(items1.subrange(lo, hi) =~= items2.subrange(lo, hi));
    }
}

/// One more run of declarations after the checked ones extends the
/// segments by one.
pub proof fn lemma_segments_push<T>(
    before: Seq<T>,
    after: Seq<T>,
    start: int,
    counts: Seq<nat>,
    j: int,
    ok: spec_fn(int, Seq<T>) -> bool,
)
    requires
        0 <= start,
        0 <= j < counts.len(),
        segments_ok(before, start, counts.take(j), ok),
        before.len() == start + sum_counts(counts.take(j)),
        appended(before, after, counts[j]),
        ok(j, added(before, after)),
    ensures
        segments_ok(after, start, counts.take(j + 1), ok),
        after.len() == start + sum_counts(counts.take(j + 1)),
{
    assert(counts.take(j + 1).drop_last() =~= counts.take(j));
    lemma_segments_keep(before, after, start, counts.take(j), ok);
    assert(after.subrange(before.len() as int, after.len() as int) =~= added(before, after));
}

/// Whether following the IRs that IR `i` emits into ends within `fuel`
/// steps.
pub open spec fn emits_chain_ends(env: &FlatEnv, i: int, fuel: nat) -> bool
    decreases fuel,
{
    fuel > 0 && match env.ir_items@[i].emits {
        Some(e) => emits_chain_ends(env, e as int, (fuel - 1) as nat),
        None => true,
    }
}

/// The IR at the end of the chain of IRs that IR `i` emits into, following
/// at most `fuel` steps.
pub open spec fn bottom_ir(env: &FlatEnv, i: int, fuel: nat) -> int
    decreases fuel,
{
    if fuel == 0 {
        i
    } else {
        match env.ir_items@[i].emits {
            Some(e) => bottom_ir(env, e as int, (fuel - 1) as nat),
            None => i,
        }
    }
}

/// The IR at the end of the chain of IRs that IR `top` emits into: the one
/// that emits into no other.
pub fn find_bottom_ir(env: &FlatEnv, top: usize) -> (r: usize)
    requires
        env.wf(),
        top < env.ir_items@.len(),
        emits_chain_ends(env, top as int, env.ir_items@.len()),
    ensures
        r == bottom_ir(env, top as int, env.ir_items@.len()),
        r < env.ir_items@.len(),
        env.ir_items@[r as int].emits is None,
{
    let ghost total = env.ir_items@.len();
    let ghost mut left: nat = total;
    let mut curr = top;
    loop
        invariant
            env.wf(),
            curr < env.ir_items@.len(),
            total == env.ir_items@.len(),
            emits_chain_ends(env, curr as int, left),
            bottom_ir(env, top as int, total) == bottom_ir(env, curr as int, left),
        decreases left,
    {
        match env.ir_items[curr].emits {
            Some(next) => {
                curr = next;
                proof {
                    left = (left - 1) as nat;
                }
            },
            None => {
                return curr;
            },
        }
    }
}

/// A global constant with a value is declared as a function without
/// parameters, and reading it calls that very function without arguments.
pub proof fn law_constant_read_calls_its_declaration(
    env: &FlatEnv,
    g: usize,
    params: Seq<Ident>,
    locals: Seq<Ident>,
    read: Expr,
    decls: Seq<Item>,
)
    requires
        g < env.global_var_items@.len(),
        env.global_var_items@[g as int].value is Some,
        !env.global_var_items@[g as int].is_prelude,
        global_var_decls_ok(env, g as int, decls),
        var_access_ok(env, params, locals, FlatVarIndex::Global(g), read),
    ensures
        decls[0] matches Item::Fn(f) && f.param_vars.vars@.len() == 0 && (read matches Expr::Call(c)
            && c.target == f.ident && c.arg_exprs@.len() == 0),
{
}

/// A global variable without a value is declared as a variable or a
/// constant, and reading it names that very variable.
pub proof fn law_variable_read_names_its_declaration(
    env: &FlatEnv,
    g: usize,
    params: Seq<Ident>,
    locals: Seq<Ident>,
    read: Expr,
    decls: Seq<Item>,
)
    requires
        g < env.global_var_items@.len(),
        env.global_var_items@[g as int].value is None,
        !env.global_var_items@[g as int].is_prelude,
        global_var_decls_ok(env, g as int, decls),
        var_access_ok(env, params, locals, FlatVarIndex::Global(g), read),
    ensures
        match decls[0] {
            Item::GlobalVar(v) => read == Expr::Var(v.var.ident),
            Item::Const(v) => read == Expr::Var(v.var.ident),
            _ => false,
        },
{
}

/// Reading an enumeration variant calls, without arguments, the
/// constructor that the enumeration's declarations give that variant.
pub proof fn law_variant_read_calls_its_constructor(
    env: &FlatEnv,
    e: usize,
    v: usize,
    params: Seq<Ident>,
    locals: Seq<Ident>,
    read: Expr,
    decls: Seq<Item>,
)
    requires
        e < env.enum_items@.len(),
        v < env.enum_items@[e as int].variants@.len(),
        enum_decls_ok(env.enum_items@[e as int], decls),
        var_access_ok(
            env,
            params,
            locals,
            FlatVarIndex::EnumVariant { enum_index: e, variant_index: v },
            read,
        ),
    ensures
        decls[v as int + 1] matches Item::Fn(f) && f.param_vars.vars@.len() == 0 && (read matches Expr::Call(c)
            && c.target == f.ident && c.arg_exprs@.len() == 0),
{
    assert(is_fn_decl(
        decls[v as int + 1],
        variant_ctor(env.enum_items@[e as int].ident, env.enum_items@[e as int].variants@[v as int]),
        Some(FnAttr::Ctor),
        seq![],
        user_type(env.enum_items@[e as int].ident),
    ));
}

/// A call of a named function with printable arguments can be printed.
pub proof fn lemma_call_printable(e: Expr, target: FnIdent, args: Seq<Expr>)
    requires
        is_call(e, target, args),
        target.has_text(),
        forall|k: int| 0 <= k < args.len() ==> #[trigger] expr_printable(args[k]),
    ensures
        expr_printable(e),
{
    lemma_args_all_printable(args);
    let c = e->Call_0;
    assert(c.arg_exprs@ == args);
    assert(call_printable(c));
}

/// What reading a variable compiles to can be printed.
pub proof fn lemma_var_access_printable(
    env: &FlatEnv,
    params: Seq<Ident>,
    locals: Seq<Ident>,
    v: FlatVarIndex,
    e: Expr,
)
    requires
        var_access_ok(env, params, locals, v, e),
    ensures
        expr_printable(e),
{
    match v {
        FlatVarIndex::EnumVariant { enum_index, variant_index } => {
            let item = env.enum_items@[enum_index as int];
            lemma_call_printable(e, variant_ctor(item.ident, item.variants@[variant_index as int]), seq![]);
        },
        FlatVarIndex::Global(g) => {
            let item = env.global_var_items@[g as int];
            if item.value is Some {
                lemma_call_printable(
                    e,
                    FnIdent::User(UserFnIdent { parent_ident: item.parent_ident, fn_ident: item.ident }),
                    seq![],
                );
            }
        },
        _ => {},
    }
}

/// The declarations of an enumeration can be printed.
pub proof fn lemma_enum_decls_printable(item: FlatEnumItem, new: Seq<Item>)
    requires
        enum_decls_ok(item, new),
    ensures
        items_printable(new),
{
    assert forall|k: int| 0 <= k < new.len() implies #[trigger] item_printable(new[k]) by {
        if k > 0 {
            assert(new[(k - 1) + 1] == new[k]);
        }
    }
}

/// The declarations of a structure can be printed.
pub proof fn lemma_struct_decls_printable(env: &FlatEnv, s: int, new: Seq<Item>)
    requires
        struct_decls_ok(env, s, new),
    ensures
        items_printable(new),
{
    let item = env.struct_items@[s];
    assert forall|k: int| 0 <= k < new.len() implies #[trigger] item_printable(new[k]) by {
        if k > 0 {
            assert(new[(k - 1) + 1] == new[k]);
            assert(field_decl_ok(env, item.ident, item.fields@[k - 1], new[k]));
            if let FlatField::Label { .. } = item.fields@[k - 1] {
                let v = new[k]->Fn_0.value->0;
                lemma_call_printable(v, FnIdent::Prelude(PreludeFnIdent::ExitLabel), seq![]);
            }
        }
    }
}

/// The declaration of a global variable can be printed.
pub proof fn lemma_global_var_decls_printable(env: &FlatEnv, g: int, new: Seq<Item>)
    requires
        global_var_decls_ok(env, g, new),
    ensures
        items_printable(new),
{
    let item = env.global_var_items@[g];
    if !item.is_prelude {
        if let Some(v) = item.value {
            let e = new[0]->Fn_0.value->0;
            if let FlatValue::Var(x) = v {
                lemma_var_access_printable(env, seq![], seq![], x, e);
            }
        }
        assert(item_printable(new[0]));
    }
}

/// The declarations of an IR can be printed.
pub proof fn lemma_ir_decls_printable(ir: Ident, new: Seq<Item>)
    requires
        ir_decls_ok(ir, new),
    ensures
        items_printable(new),
{
    let pc = Expr::Var(pc_var_ident(ir));
    let lbl = param(ParamVarIdent::Label);
    // step
    let ss = new[5]->Proc_0.body->0.stmts@;
    lemma_call_printable(ss[0]->Assign_0.rhs, ir_fn(ir, IrMemberFnSelector::NextPc), seq![pc]);
    assert(stmt_printable(ss[0]));
    lemma_stmts_all_printable(ss);
    // emit
    let ss = new[6]->Proc_0.body->0.stmts@;
    lemma_call_printable(
        ss[0]->Check_0.cond->BinOper_0.lhs,
        ir_fn(ir, IrMemberFnSelector::OpAt),
        seq![param(ParamVarIdent::Pc)],
    );
    lemma_call_printable(ss[1]->Check_0.cond->BinOper_0.lhs, ir_fn(ir, IrMemberFnSelector::NextPc), seq![pc]);
    assert(ss[0]->Check_0.cond->BinOper_0.rhs == param(ParamVarIdent::Op));
    assert(expr_printable(param(ParamVarIdent::Op)));
    assert(expr_printable(ss[0]->Check_0.cond));
    assert(stmt_printable(ss[0]));
    assert(ss[1]->Check_0.cond->BinOper_0.rhs == param(ParamVarIdent::Pc));
    assert(expr_printable(param(ParamVarIdent::Pc)));
    assert(expr_printable(ss[1]->Check_0.cond));
    assert(stmt_printable(ss[1]));
    assert(stmt_printable(ss[2]));
    assert forall|k: int| 0 <= k < ss.len() implies #[trigger] stmt_printable(ss[k]) by {}
    lemma_stmts_all_printable(ss);
    // bind
    let ss = new[8]->Proc_0.body->0.stmts@;
    lemma_call_printable(ss[0]->Check_0.cond->BinOper_0.lhs, ir_fn(ir, IrMemberFnSelector::LabelBoundPc), seq![lbl]);
    lemma_call_printable(ss[0]->Check_0.cond->BinOper_0.rhs, ir_fn(ir, IrMemberFnSelector::NextPc), seq![pc]);
    assert(stmt_printable(ss[0]));
    lemma_stmts_all_printable(ss);
    // bind exit
    let ss = new[9]->Proc_0.body->0.stmts@;
    lemma_call_printable(ss[0]->Check_0.cond->BinOper_0.lhs, ir_fn(ir, IrMemberFnSelector::LabelBoundPc), seq![lbl]);
    lemma_call_printable(ss[0]->Check_0.cond->BinOper_0.rhs, FnIdent::Prelude(PreludeFnIdent::ExitPc), seq![]);
    assert(stmt_printable(ss[0]));
    lemma_stmts_all_printable(ss);
    // goto
    let ss = new[10]->Proc_0.body->0.stmts@;
    lemma_call_printable(ss[0]->Assign_0.rhs, ir_fn(ir, IrMemberFnSelector::LabelBoundPc), seq![lbl]);
    assert(stmt_printable(ss[0]));
    lemma_stmts_all_printable(ss);
    assert forall|k: int| 0 <= k < new.len() implies #[trigger] item_printable(new[k]) by {}
}

/// The declarations of a callable can be printed, when its body can.
pub proof fn lemma_callable_decls_printable(env: &FlatEnv, c: FlatCallableItem, body: Option<Body>, new: Seq<Item>)
    requires
        callable_decls_ok(env, c, body, new),
        body matches Some(b) ==> stmts_printable(b.stmts@),
    ensures
        items_printable(new),
{
    let off: int = if has_op_ctor(c) { 1 } else { 0 };
    let rets = callable_rets(env, c);
    let args = var_exprs(callable_params(env, c));
    if callable_repr(c) is Proc && body is None {
        let b = new[off + rets.len()]->Proc_0.body->0;
        assert(external_body_ok(env, c, b));
        let labels = out_labels(c.params@);
        lemma_out_labels_are_labels(c.params@);
        assert forall|k: int| 0 <= k < args.len() implies #[trigger] expr_printable(args[k]) by {}
        assert forall|k: int| 0 <= k < b.stmts@.len() implies #[trigger] stmt_printable(b.stmts@[k]) by {
            if k < rets.len() {
                assert(is_assign(
                    b.stmts@[k],
                    Expr::Var(rets[k].ident),
                    |e: Expr| is_call(e, helper_fn(c, rets[k].ident), args),
                ));
                lemma_call_printable(b.stmts@[k]->Assign_0.rhs, helper_fn(c, rets[k].ident), args);
            } else {
                let m = k - rets.len();
                assert(b.stmts@[rets.len() + m] == b.stmts@[k]);
                let call = b.stmts@[k]->Call_0.call;
                let a = call.arg_exprs@;
                assert(forall|i: int| 0 <= i < a.len() ==> #[trigger] expr_printable(a[i]));
                lemma_args_all_printable(a);
                assert(call_printable(call));
            }
        }
        lemma_stmts_all_printable(b.stmts@);
    }
    assert forall|k: int| 0 <= k < new.len() implies #[trigger] item_printable(new[k]) by {
        if k < off {
            assert(op_ctor_ok(env, c, new[0]));
            assert(item_printable(new[k]));
        } else if callable_repr(c) is Fn {
            assert(item_printable(new[k]));
        } else if body is Some {
            assert(k == off);
            assert(item_printable(new[k]));
        } else if k < off + rets.len() {
            let j = k - off;
            assert(helper_decls_ok(env, c, new, off));
            assert(is_fn_decl(new[off + j], helper_fn(c, rets[j].ident), None, callable_params(env, c), rets[j].type_));
            assert(new[off + j] == new[k]);
            assert(item_printable(new[k]));
        } else {
            assert(k == off + rets.len());
            assert(item_printable(new[k]));
        }
    }
}

/// Every element of `s` satisfies `p`.
pub open spec fn all_ok<T>(s: Seq<T>, p: spec_fn(T) -> bool) -> bool {
    forall|i: int| 0 <= i < s.len() ==> #[trigger] p(s[i])
}

/// When every run that `ok` accepts has all its elements satisfy `p`, so
/// do all the elements of the runs.
pub proof fn lemma_segments_all<T>(
    items: Seq<T>,
    start: int,
    counts: Seq<nat>,
    ok: spec_fn(int, Seq<T>) -> bool,
    p: spec_fn(T) -> bool,
)
    requires
        0 <= start,
        start + sum_counts(counts) <= items.len(),
        segments_ok(items, start, counts, ok),
        forall|j: int, seg: Seq<T>|
            0 <= j < counts.len() && seg.len() == counts[j] && #[trigger] ok(j, seg) ==> all_ok(seg, p),
    ensures
        forall|i: int| start <= i < start + sum_counts(counts) ==> #[trigger] p(items[i]),
    decreases counts.len(),
{
    if counts.len() > 0 {
        let front = counts.drop_last();
        assert forall|j: int, seg: Seq<T>|
            0 <= j < front.len() && seg.len() == front[j] && #[trigger] ok(j, seg) implies all_ok(seg, p) by {
            assert(0 <= j < counts.len() && front[j] == counts[j]);
        }
        lemma_segments_all(items, start, front, ok, p);
        let lo = start + sum_counts(front);
        let hi = start + sum_counts(counts);
        let seg = items.subrange(lo, hi);
        assert(ok(counts.len() - 1, seg));
        assert(all_ok(seg, p));
        assert forall|i: int| start <= i < hi implies #[trigger] p(items[i]) by {
            if i >= lo {
                assert(seg[i - lo] == items[i]);
            }
        }
    }
}

/// Each of the bodies can be printed.
pub open spec fn bodies_printable(bodies: Seq<Option<Body>>) -> bool {
    forall|j: int| 0 <= j < bodies.len() ==> (#[trigger] bodies[j] matches Some(b) ==> stmts_printable(b.stmts@))
}

/// Each phase of a compiled program can be printed.
proof fn lemma_phases_printable(
    env: &FlatEnv,
    fn_bodies: Seq<Option<Body>>,
    op_bodies: Seq<Option<Body>>,
    items: Seq<Item>,
)
    requires
        program_ok(env, fn_bodies, op_bodies, items),
        bodies_printable(fn_bodies),
        bodies_printable(op_bodies),
        fn_bodies.len() == env.fn_items@.len(),
        op_bodies.len() == env.op_items@.len(),
    ensures
        forall|i: int| 0 <= i < program_len(env, fn_bodies, op_bodies) ==> #[trigger] item_printable(items[i]),
{
    let p = |i: Item| item_printable(i);
    let s1 = sum_counts(enum_counts(env));
    let s2 = s1 + sum_counts(struct_counts(env));
    let s3 = s2 + sum_counts(ir_counts(env));
    let s4 = s3 + sum_counts(global_var_counts(env));
    let s5 = s4 + sum_counts(callable_counts(env, env.fn_items@, fn_bodies));
    assert forall|j: int, seg: Seq<Item>|
        0 <= j < enum_counts(env).len() && seg.len() == enum_counts(env)[j] && #[trigger] enum_ok(env)(j, seg) implies all_ok(seg, p) by {
        if !is_blocked(env.enum_items@[j].ident) {
            lemma_enum_decls_printable(env.enum_items@[j], seg);
        }
    }
    lemma_segments_all(items, 0, enum_counts(env), enum_ok(env), p);
    assert forall|j: int, seg: Seq<Item>|
        0 <= j < struct_counts(env).len() && seg.len() == struct_counts(env)[j] && #[trigger] struct_ok(env)(j, seg) implies all_ok(seg, p) by {
        if !is_blocked(env.struct_items@[j].ident) {
            lemma_struct_decls_printable(env, j, seg);
        }
    }
    lemma_segments_all(items, s1 as int, struct_counts(env), struct_ok(env), p);
    assert forall|j: int, seg: Seq<Item>|
        0 <= j < ir_counts(env).len() && seg.len() == ir_counts(env)[j] && #[trigger] ir_ok(env)(j, seg) implies all_ok(seg, p) by {
        if !(env.ir_items@[j].emits is Some || is_blocked(env.ir_items@[j].ident)) {
            lemma_ir_decls_printable(env.ir_items@[j].ident, seg);
        }
    }
    lemma_segments_all(items, s2 as int, ir_counts(env), ir_ok(env), p);
    assert forall|j: int, seg: Seq<Item>|
        0 <= j < global_var_counts(env).len() && seg.len() == global_var_counts(env)[j] && #[trigger] global_var_ok(env)(j, seg) implies all_ok(seg, p) by {
        lemma_global_var_decls_printable(env, j, seg);
    }
    lemma_segments_all(items, s3 as int, global_var_counts(env), global_var_ok(env), p);
    let fc = callable_counts(env, env.fn_items@, fn_bodies);
    assert forall|j: int, seg: Seq<Item>|
        0 <= j < fc.len() && seg.len() == fc[j] && #[trigger] callables_ok(env, env.fn_items@, fn_bodies)(j, seg) implies all_ok(seg, p) by {
        let c = env.fn_items@[j];
        if !(c.is_prelude || blocked_repr(c.spec_path()) is Some) {
            assert(fn_bodies[j] matches Some(b) ==> stmts_printable(b.stmts@));
            lemma_callable_decls_printable(env, c, fn_bodies[j], seg);
        }
    }
    lemma_segments_all(items, s4 as int, fc, callables_ok(env, env.fn_items@, fn_bodies), p);
    let oc = callable_counts(env, env.op_items@, op_bodies);
    assert forall|j: int, seg: Seq<Item>|
        0 <= j < oc.len() && seg.len() == oc[j] && #[trigger] callables_ok(env, env.op_items@, op_bodies)(j, seg) implies all_ok(seg, p) by {
        let c = env.op_items@[j];
        if !(c.is_prelude || blocked_repr(c.spec_path()) is Some) {
            assert(op_bodies[j] matches Some(b) ==> stmts_printable(b.stmts@));
            lemma_callable_decls_printable(env, c, op_bodies[j], seg);
        }
    }
    lemma_segments_all(items, s5 as int, oc, callables_ok(env, env.op_items@, op_bodies), p);
    assert forall|i: int| 0 <= i < program_len(env, fn_bodies, op_bodies) implies #[trigger] item_printable(items[i]) by {
        assert(p(items[i]));
    }
}

/// A declared function without a body.
pub fn fn_decl(ident: FnIdent, attr: Option<FnAttr>, params: Vec<TypedVar>, ret: Type) -> (r: Item)
    ensures
        is_fn_decl(r, ident, attr, params@, ret),
{
    Item::Fn(FnItem { ident, attr, param_vars: TypedVars { vars: params }, ret, value: None })
}

/// The root supertype of a structure whose chain of supertypes ends is a
/// declared type.
pub proof fn lemma_root_declared(env: &FlatEnv, s: int, fuel: nat)
    requires
        env.wf(),
        chain_ends(env, s, fuel),
    ensures
        root_supertype(env, s, fuel) matches Some(t) ==> env.type_ok(t),
    decreases fuel,
{
    let item = env.struct_items@[s];
    assert(item.supertype matches Some(t) ==> env.type_ok(t));
    if let Some(FlatTypeIndex::Struct(t)) = item.supertype {
        lemma_root_declared(env, t as int, (fuel - 1) as nat);
    }
}

pub(crate) fn ir_fn_ident(ir: &Ident, selector: IrMemberFnSelector) -> (r: FnIdent)
    ensures
        r == ir_fn(*ir, selector),
{
    FnIdent::IrMember(IrMemberFnIdent { ir_ident: IrIdent { ident: ir.clone() }, selector })
}

pub(crate) fn op_type(ir: &Ident) -> (r: Type)
    ensures
        r == Type::Ident(op_type_ident(*ir)),
{
    Type::Ident(
        TypeIdent::IrMember(
            IrMemberTypeIdent {
                ir_ident: IrIdent { ident: ir.clone() },
                selector: IrMemberTypeSelector::Op,
            },
        ),
    )
}

pub(crate) fn pc_var(ir: &Ident) -> (r: VarIdent)
    ensures
        r == pc_var_ident(*ir),
{
    VarIdent::Global(
        GlobalVarIdent::IrMember(
            IrMemberGlobalVarIdent {
                ir_ident: IrIdent { ident: ir.clone() },
                selector: IrMemberGlobalVarSelector::Pc,
            },
        ),
    )
}

pub(crate) fn prelude(t: PreludeTypeIdent) -> (r: Type)
    ensures
        r == prelude_type(t),
{
    Type::Ident(TypeIdent::Prelude(t))
}

pub(crate) fn call(target: FnIdent, arg_exprs: Vec<Expr>) -> (r: Expr)
    ensures
        is_call(r, target, arg_exprs@),
{
    Expr::Call(CallExpr { target, arg_exprs })
}

fn assume_eq(lhs: Expr, rhs: Expr) -> (r: Stmt)
    ensures
        r matches Stmt::Check(c) && c.kind == CheckKind::Assume && c.attr is None && (
        c.cond matches Expr::BinOper(b) && b.oper == BplBinOper::Compare(CompareBinOper::Eq) && b.lhs
            == lhs && b.rhs == rhs),
{
    Stmt::Check(
        CheckStmt {
            kind: CheckKind::Assume,
            attr: None,
            cond: Expr::BinOper(
                Box::new(BinOperExpr { oper: BplBinOper::Compare(CompareBinOper::Eq), lhs, rhs }),
            ),
        },
    )
}

pub(crate) fn assign(lhs: Expr, rhs: Expr) -> (r: Stmt)
    ensures
        r matches Stmt::Assign(a) && a.lhs == lhs && a.rhs == rhs,
{
    Stmt::Assign(AssignStmt { lhs, rhs })
}

fn proc_def(ident: FnIdent, attr: Option<ProcAttr>, params: Vec<TypedVar>, stmts: Vec<Stmt>) -> (r:
    Item)
    ensures
        r matches Item::Proc(p) && p.ident == ident && p.attr == attr && p.param_vars.vars@
            == params@ && p.ret_vars.vars@.len() == 0 && (p.body matches Some(b)
            && b.local_vars@.len() == 0 && b.stmts@ == stmts@),
{
    Item::Proc(
        ProcItem {
            ident,
            attr,
            param_vars: TypedVars { vars: params },
            ret_vars: TypedVars { vars: Vec::new() },
            body: Some(Body { local_vars: Vec::new(), stmts }),
        },
    )
}

pub(crate) fn one<T>(x: T) -> (r: Vec<T>)
    ensures
        r@ == seq![x],
{
    let mut r: Vec<T> = Vec::new();
    r.push(x);
    assert(r@ =~= seq![x]);
    r
}

fn label_param() -> (r: Vec<TypedVar>)
    ensures
        r@ == seq![typed_param(ParamVarIdent::Label, prelude_type(PreludeTypeIdent::Label))],
{
    let r = vec![
        TypedVar {
            ident: VarIdent::Param(ParamVarIdent::Label),
            type_: prelude(PreludeTypeIdent::Label),
        },
    ];
    assert(r@ =~= seq![typed_param(ParamVarIdent::Label, prelude_type(PreludeTypeIdent::Label))]);
    r
}

/// The Boogie program as it is built: its declarations so far.
pub struct Compiler {
    pub items: Vec<Item>,
}

impl Compiler {
    /// A compiler that has declared nothing yet.
    pub fn new() -> (r: Compiler)
        ensures
            r.items@ == Seq::<Item>::empty(),
    {
        Compiler { items: Vec::new() }
    }

    /// Whether the item named `ident` is implemented by hand in Boogie.
    fn blocked(ident: &Ident) -> (r: bool)
        ensures
            r == is_blocked(*ident),
    {
        let path = Path::from_ident(ident.clone());
        blocked_path_repr(&path).is_some()
    }

    /// Declares an enumeration: its data type and the constructors of its
    /// variants, unless it is implemented by hand.
    pub fn compile_enum_item(&mut self, item: &FlatEnumItem)
        ensures
            is_blocked(item.ident) ==> final(self).items@ == old(self).items@,
            !is_blocked(item.ident) ==> appended(
                old(self).items@,
                final(self).items@,
                item.variants@.len() + 1,
            ) && enum_decls_ok(*item, added(old(self).items@, final(self).items@)),
    {
        if Self::blocked(&item.ident) {
            return;
        }
        let ghost before = self.items@;
        self.items.push(
            Item::Type(
                TypeItem {
                    ident: TypeIdent::User(type_ident(&item.ident)),
                    attr: Some(TypeAttr::DataType),
                    type_: None,
                },
            ),
        );
        let mut j: usize = 0;
        while j < item.variants.len()
            invariant
                j <= item.variants@.len(),
                appended(before, self.items@, (j + 1) as nat),
                self.items@[before.len() as int] == Item::Type(
                    TypeItem {
                        ident: TypeIdent::User(UserTypeIdent { ident: item.ident }),
                        attr: Some(TypeAttr::DataType),
                        type_: None,
                    },
                ),
                forall|k: int|
                    0 <= k < j ==> is_fn_decl(
                        #[trigger] self.items@[before.len() + k + 1],
                        variant_ctor(item.ident, item.variants@[k]),
                        Some(FnAttr::Ctor),
                        seq![],
                        user_type(item.ident),
                    ),
            decreases item.variants@.len() - j,
        {
            let ctor = FnIdent::TypeMember(
                TypeMemberFnIdent {
                    type_ident: type_ident(&item.ident),
                    selector: TypeMemberFnSelector::Variant(
                        VariantCtorTypeMemberFnSelector { variant_ident: item.variants[j].clone() },
                    ),
                },
            );
            let ret = Type::Ident(TypeIdent::User(type_ident(&item.ident)));
            self.items.push(fn_decl(ctor, Some(FnAttr::Ctor), Vec::new(), ret));
            j = j + 1;
        }
        proof {
            let new = added(before, self.items@);
            assert forall|k: int| 0 <= k < item.variants@.len() implies is_fn_decl(
                #[trigger] new[k + 1],
                variant_ctor(item.ident, item.variants@[k]),
                Some(FnAttr::Ctor),
                seq![],
                user_type(item.ident),
            ) by {
                assert(new[k + 1] == self.items@[before.len() + k + 1]);
            }
        }
    }

    /// The root of the hierarchy of structure `s`: the last supertype met
    /// walking up from it.
    fn root_supertype_of(env: &FlatEnv, s: usize) -> (r: Option<&FlatTypeIndex>)
        requires
            chain_ends(env, s as int, env.struct_items@.len()),
        ensures
            match (r, root_supertype(env, s as int, env.struct_items@.len())) {
                (Some(a), Some(b)) => *a == b,
                (None, None) => true,
                _ => false,
            },
    {
        let ghost total = env.struct_items@.len();
        let ghost mut left: nat = total;
        let mut root: Option<&FlatTypeIndex> = None;
        let mut curr: usize = s;
        loop
            invariant
                chain_ends(env, curr as int, left),
                total == env.struct_items@.len(),
                root_supertype(env, s as int, total) == match root_supertype(env, curr as int, left) {
                    Some(t) => Some(t),
                    None => match root {
                        Some(a) => Some(*a),
                        None => None,
                    },
                },
            decreases left,
        {
            match &env.struct_items[curr].supertype {
                None => {
                    return root;
                },
                Some(t) => {
                    root = Some(t);
                    match t {
                        FlatTypeIndex::Struct(next) => {
                            curr = *next;
                            proof {
                                left = (left - 1) as nat;
                            }
                        },
                        _ => {
                            return root;
                        },
                    }
                },
            }
        }
    }

    /// Declares a structure: its type, an alias of the root of its hierarchy
    /// when it has a supertype, and the accessors of its fields, unless it is
    /// implemented by hand.
    pub fn compile_struct_item(&mut self, env: &FlatEnv, s: usize)
        requires
            env.wf(),
            s < env.struct_items@.len(),
            chain_ends(env, s as int, env.struct_items@.len()),
        ensures
            is_blocked(env.struct_items@[s as int].ident) ==> final(self).items@ == old(
                self,
            ).items@,
            !is_blocked(env.struct_items@[s as int].ident) ==> appended(
                old(self).items@,
                final(self).items@,
                env.struct_items@[s as int].fields@.len() + 1,
            ) && struct_decls_ok(env, s as int, added(old(self).items@, final(self).items@)),
    {
        let item = &env.struct_items[s];
        if Self::blocked(&item.ident) {
            return;
        }
        let ghost before = self.items@;
        let root = Self::root_supertype_of(env, s);
        proof {
            lemma_root_declared(env, s as int, env.struct_items@.len());
        }
        let alias = match root {
            Some(t) => Some(Type::Ident(TypeIdent::User(Self::get_type_ident(env, t)))),
            None => None,
        };
        self.items.push(
            Item::Type(TypeItem { ident: TypeIdent::User(type_ident(&item.ident)), attr: None, type_: alias }),
        );
        let ghost head = self.items@[before.len() as int];
        let mut j: usize = 0;
        while j < item.fields.len()
            invariant
                env.wf(),
                s < env.struct_items@.len(),
                *item == env.struct_items@[s as int],
                j <= item.fields@.len(),
                appended(before, self.items@, (j + 1) as nat),
                self.items@[before.len() as int] == head,
                forall|k: int|
                    0 <= k < j ==> field_decl_ok(
                        env,
                        item.ident,
                        item.fields@[k],
                        #[trigger] self.items@[before.len() + k + 1],
                    ),
            decreases item.fields@.len() - j,
        {
            let params = vec![
                TypedVar {
                    ident: VarIdent::Param(ParamVarIdent::Instance),
                    type_: Type::Ident(TypeIdent::User(type_ident(&item.ident))),
                },
            ];
            assert(params@ =~= instance_params(item.ident));
            let decl = match &item.fields[j] {
                FlatField::Var { ident, type_ } => {
                    let target = FnIdent::TypeMember(
                        TypeMemberFnIdent {
                            type_ident: type_ident(&item.ident),
                            selector: TypeMemberFnSelector::Field(
                                FieldTypeMemberFnSelector { field_ident: ident.clone() },
                            ),
                        },
                    );
                    let ret = Type::Ident(TypeIdent::User(Self::get_type_ident(env, type_)));
                    fn_decl(target, None, params, ret)
                },
                FlatField::Label { ident } => {
                    let target = FnIdent::TypeMember(
                        TypeMemberFnIdent {
                            type_ident: type_ident(&item.ident),
                            selector: TypeMemberFnSelector::Field(
                                FieldTypeMemberFnSelector { field_ident: ident.clone() },
                            ),
                        },
                    );
                    let value = Expr::Call(
                        CallExpr {
                            target: FnIdent::Prelude(PreludeFnIdent::ExitLabel),
                            arg_exprs: Vec::new(),
                        },
                    );
                    Item::Fn(
                        FnItem {
                            ident: target,
                            attr: Some(FnAttr::Inline),
                            param_vars: TypedVars { vars: params },
                            ret: Type::Ident(TypeIdent::Prelude(PreludeTypeIdent::Label)),
                            value: Some(value),
                        },
                    )
                },
            };
            self.items.push(decl);
            j = j + 1;
        }
        proof {
            let new = added(before, self.items@);
            assert forall|k: int| 0 <= k < item.fields@.len() implies field_decl_ok(
                env,
                item.ident,
                item.fields@[k],
                #[trigger] new[k + 1],
            ) by {
                assert(new[k + 1] == self.items@[before.len() + k + 1]);
            }
        }
    }

    /// Declares a global variable that the prelude does not: as an inline
    /// function of its value if it has one, else as a variable or a
    /// constant.
    pub fn compile_global_var_item(&mut self, env: &FlatEnv, g: usize)
        requires
            env.wf(),
            g < env.global_var_items@.len(),
        ensures
            appended(
                old(self).items@,
                final(self).items@,
                if env.global_var_items@[g as int].is_prelude { 0 } else { 1 },
            ),
            global_var_decls_ok(env, g as int, added(old(self).items@, final(self).items@)),
    {
        let item = &env.global_var_items[g];
        let ghost before = self.items@;
        assert(env.global_var_items@[g as int] == *item);
        if item.is_prelude {
            assert(added(before, self.items@) =~= Seq::<Item>::empty());
            return;
        }
        let type_ = Type::Ident(TypeIdent::User(Self::get_type_ident(env, &item.type_)));
        match &item.value {
            Some(v) => {
                let value = match v {
                    FlatValue::Literal(l) => Expr::Literal(compile_literal(*l)),
                    FlatValue::Var(x) => compile_var_access(env, &Vec::new(), &Vec::new(), x),
                };
                let ident = FnIdent::User(
                    UserFnIdent {
                        parent_ident: clone_opt_ident(&item.parent_ident),
                        fn_ident: item.ident.clone(),
                    },
                );
                self.items.push(
                    Item::Fn(
                        FnItem {
                            ident,
                            attr: Some(FnAttr::Inline),
                            param_vars: TypedVars { vars: Vec::new() },
                            ret: type_,
                            value: Some(value),
                        },
                    ),
                );
            },
            None => {
                let var = TypedVar {
                    ident: VarIdent::Global(
                        GlobalVarIdent::User(
                            UserGlobalVarIdent {
                                parent_ident: clone_opt_ident(&item.parent_ident),
                                var_ident: item.ident.clone(),
                            },
                        ),
                    ),
                    type_,
                };
                if item.is_mut {
                    self.items.push(Item::GlobalVar(GlobalVarItem { var }));
                } else {
                    self.items.push(Item::Const(ConstItem { var }));
                }
            },
        }
        assert(added(before, self.items@)[0] == self.items@[before.len() as int]);
    }

    /// Declares the infrastructure of the ops of an IR, unless it emits into
    /// another IR or is implemented by hand.
    pub fn compile_ir_item(&mut self, ir: &FlatIrItem)
        ensures
            ir.emits is Some || is_blocked(ir.ident) ==> final(self).items@ == old(self).items@,
            !(ir.emits is Some || is_blocked(ir.ident)) ==> appended(
                old(self).items@,
                final(self).items@,
                11,
            ) && ir_decls_ok(ir.ident, added(old(self).items@, final(self).items@)),
    {
        if ir.emits.is_some() || Self::blocked(&ir.ident) {
            return;
        }
        let ghost before = self.items@;
        let i = &ir.ident;
        let pc_t = prelude(PreludeTypeIdent::Pc);
        let op_type_item = Item::Type(
            TypeItem {
                ident: TypeIdent::IrMember(
                    IrMemberTypeIdent {
                        ir_ident: IrIdent { ident: i.clone() },
                        selector: IrMemberTypeSelector::Op,
                    },
                ),
                attr: Some(TypeAttr::DataType),
                type_: None,
            },
        );
        let exit_op_ctor = fn_decl(
            ir_fn_ident(
                i,
                IrMemberFnSelector::Op(OpCtorIrMemberFnSelector { op_selector: OpSelector::Exit }),
            ),
            Some(FnAttr::Ctor),
            Vec::new(),
            op_type(i),
        );
        let pc_global = Item::GlobalVar(
            GlobalVarItem { var: TypedVar { ident: pc_var(i), type_: prelude(PreludeTypeIdent::Pc) } },
        );
        let pc_params = vec![
            TypedVar { ident: VarIdent::Param(ParamVarIdent::Pc), type_: prelude(PreludeTypeIdent::Pc) },
        ];
        assert(pc_params@ =~= seq![typed_param(ParamVarIdent::Pc, pc_t)]);
        let op_at = fn_decl(ir_fn_ident(i, IrMemberFnSelector::OpAt), None, pc_params, op_type(i));
        let pc_params = vec![
            TypedVar { ident: VarIdent::Param(ParamVarIdent::Pc), type_: prelude(PreludeTypeIdent::Pc) },
        ];
        assert(pc_params@ =~= seq![typed_param(ParamVarIdent::Pc, pc_t)]);
        let next_pc = fn_decl(
            ir_fn_ident(i, IrMemberFnSelector::NextPc),
            None,
            pc_params,
            prelude(PreludeTypeIdent::Pc),
        );
        let pc_e = Expr::Var(pc_var(i));
        let step_stmt = assign(
            Expr::Var(pc_var(i)),
            call(ir_fn_ident(i, IrMemberFnSelector::NextPc), one(pc_e)),
        );
        let step = proc_def(
            ir_fn_ident(i, IrMemberFnSelector::Step),
            Some(ProcAttr::Inline(InlineProcAttr { depth: 1 })),
            Vec::new(),
            one(step_stmt),
        );
        let mut emit_params = one(
            TypedVar { ident: VarIdent::Param(ParamVarIdent::Op), type_: op_type(i) },
        );
        emit_params.push(
            TypedVar { ident: VarIdent::Param(ParamVarIdent::Pc), type_: prelude(PreludeTypeIdent::Pc) },
        );
        let s0 = assume_eq(
            call(
                ir_fn_ident(i, IrMemberFnSelector::OpAt),
                one(Expr::Var(VarIdent::Param(ParamVarIdent::Pc))),
            ),
            Expr::Var(VarIdent::Param(ParamVarIdent::Op)),
        );
        let s1 = assume_eq(
            call(ir_fn_ident(i, IrMemberFnSelector::NextPc), one(Expr::Var(pc_var(i)))),
            Expr::Var(VarIdent::Param(ParamVarIdent::Pc)),
        );
        let s2 = assign(Expr::Var(pc_var(i)), Expr::Var(VarIdent::Param(ParamVarIdent::Pc)));
        let ghost emit_seq = seq![s0, s1, s2];
        let mut emit_stmts = one(s0);
        emit_stmts.push(s1);
        emit_stmts.push(s2);
        assert(emit_stmts@ =~= emit_seq);
        let emit = proc_def(ir_fn_ident(i, IrMemberFnSelector::Emit), None, emit_params, emit_stmts);
        let label_bound_pc = fn_decl(
            ir_fn_ident(i, IrMemberFnSelector::LabelBoundPc),
            None,
            label_param(),
            prelude(PreludeTypeIdent::Pc),
        );
        let bind_stmt = assume_eq(
            call(
                ir_fn_ident(i, IrMemberFnSelector::LabelBoundPc),
                one(Expr::Var(VarIdent::Param(ParamVarIdent::Label))),
            ),
            call(ir_fn_ident(i, IrMemberFnSelector::NextPc), one(Expr::Var(pc_var(i)))),
        );
        let bind = proc_def(
            ir_fn_ident(i, IrMemberFnSelector::Bind),
            Some(ProcAttr::Inline(InlineProcAttr { depth: 1 })),
            label_param(),
            one(bind_stmt),
        );
        let bind_exit_stmt = assume_eq(
            call(
                ir_fn_ident(i, IrMemberFnSelector::LabelBoundPc),
                one(Expr::Var(VarIdent::Param(ParamVarIdent::Label))),
            ),
            call(FnIdent::Prelude(PreludeFnIdent::ExitPc), Vec::new()),
        );
        let bind_exit = proc_def(
            ir_fn_ident(i, IrMemberFnSelector::BindExit),
            Some(ProcAttr::Inline(InlineProcAttr { depth: 1 })),
            label_param(),
            one(bind_exit_stmt),
        );
        let goto_stmt = assign(
            Expr::Var(pc_var(i)),
            call(
                ir_fn_ident(i, IrMemberFnSelector::LabelBoundPc),
                one(Expr::Var(VarIdent::Param(ParamVarIdent::Label))),
            ),
        );
        let goto = proc_def(
            ir_fn_ident(i, IrMemberFnSelector::Goto),
            Some(ProcAttr::Inline(InlineProcAttr { depth: 1 })),
            label_param(),
            one(goto_stmt),
        );
        let ghost items = seq![
            op_type_item,
            exit_op_ctor,
            pc_global,
            op_at,
            next_pc,
            step,
            emit,
            label_bound_pc,
            bind,
            bind_exit,
            goto,
        ];
        assert(ir_decls_ok(ir.ident, items)) by {
            assert(emit_params@ =~= seq![
                typed_param(ParamVarIdent::Op, Type::Ident(op_type_ident(*i))),
                typed_param(ParamVarIdent::Pc, prelude_type(PreludeTypeIdent::Pc)),
            ]);
        }
        self.items.push(op_type_item);
        self.items.push(exit_op_ctor);
        self.items.push(pc_global);
        self.items.push(op_at);
        self.items.push(next_pc);
        self.items.push(step);
        self.items.push(emit);
        self.items.push(label_bound_pc);
        self.items.push(bind);
        self.items.push(bind_exit);
        self.items.push(goto);
        proof {
            let new = added(before, self.items@);
            let n = before.len() as int;
            assert(new =~= items);
        }
    }

    /// Declares a callable that the prelude does not declare and that is not
    /// implemented by hand: the constructor of an op that interprets an IR,
    /// then the function or procedure itself. `body` is its body, compiled,
    /// when it has one.
    pub fn compile_callable_item(&mut self, env: &FlatEnv, c: &FlatCallableItem, body: Option<Body>)
        requires
            env.callable_ok(*c),
            body is Some <==> c.has_body,
        ensures
            c.is_prelude || blocked_repr(c.spec_path()) is Some ==> final(self).items@ == old(
                self,
            ).items@,
            !(c.is_prelude || blocked_repr(c.spec_path()) is Some) ==> final(self).items@.len()
                >= old(self).items@.len() && appended(
                old(self).items@,
                final(self).items@,
                (final(self).items@.len() - old(self).items@.len()) as nat,
            ) && callable_decls_ok(env, *c, body, added(old(self).items@, final(self).items@)),
    {
        let path = callable_path(c);
        if c.is_prelude || blocked_path_repr(&path).is_some() {
            return;
        }
        let ghost before = self.items@;
        let ghost n = before.len() as int;
        assert(params_ok(env, c.params@));
        let ufi = user_fn_ident(c);
        if c.is_op {
            if let Some(ir) = c.interprets {
                let ir_ident = &env.ir_items[ir].ident;
                let (op_params, _) = compile_params(env, &c.params);
                let ctor = fn_decl(
                    ir_fn_ident(
                        ir_ident,
                        IrMemberFnSelector::Op(
                            OpCtorIrMemberFnSelector {
                                op_selector: OpSelector::User(UserOpSelector { op_ident: c.ident.clone() }),
                            },
                        ),
                    ),
                    Some(FnAttr::Ctor),
                    op_params,
                    op_type(ir_ident),
                );
                self.items.push(ctor);
            }
        }
        let ghost off: int = if has_op_ctor(*c) { 1 } else { 0 };
        assert(has_op_ctor(*c) ==> op_ctor_ok(env, *c, self.items@[n]));
        let ghost head = self.items@;
        let inline = c.is_inline && !c.is_op;
        let param_outs = param_outs_of(c);
        match CallableRepr::for_callable(&path, &param_outs, c.ret.is_some(), c.has_body) {
            CallableRepr::Fn => {
                let ret = match &c.ret {
                    Some(t) => t,
                    None => {
                        return;
                    },
                };
                let attr = if inline { Some(FnAttr::Inline) } else { None };
                self.items.push(
                    fn_decl(
                        FnIdent::User(ufi),
                        attr,
                        callable_param_vars(env, c),
                        Type::Ident(TypeIdent::User(Self::get_type_ident(env, ret))),
                    ),
                );
            },
            CallableRepr::Proc => {
                match body {
                    Some(b) => {
                        let attr = if inline {
                            Some(ProcAttr::Inline(InlineProcAttr { depth: 1 }))
                        } else {
                            None
                        };
                        self.items.push(
                            Item::Proc(
                                ProcItem {
                                    ident: FnIdent::User(ufi),
                                    attr,
                                    param_vars: TypedVars { vars: callable_param_vars(env, c) },
                                    ret_vars: TypedVars { vars: callable_ret_vars(env, c) },
                                    body: Some(b),
                                },
                            ),
                        );
                    },
                    None => {
                        self.compile_external_proc(env, c);
                        proof {
                            let new = added(before, self.items@);
                            let rets = callable_rets(env, *c);
                            assert(head.len() == n + off);
                            assert forall|k: int| 0 <= k < rets.len() implies is_fn_decl(
                                #[trigger] new[off + k],
                                helper_fn(*c, rets[k].ident),
                                None,
                                callable_params(env, *c),
                                rets[k].type_,
                            ) by {
                                assert(new[off + k] == self.items@[head.len() + k]);
                            }
                            assert(new[off + rets.len()] == self.items@[head.len() + rets.len() as int]);
                        }
                    },
                }
            },
        }
        proof {
            let new = added(before, self.items@);
            if has_op_ctor(*c) {
                assert(new[0] == self.items@[n]);
            }
            assert forall|k: int| off <= k < new.len() implies new[k] == self.items@[n + k] by {}
        }
    }

    /// Declares a callable without a body as a procedure: a helper function
    /// per return variable, and the procedure that assigns each return
    /// variable its helper's value and binds each label passed out to the
    /// exit.
    fn compile_external_proc(&mut self, env: &FlatEnv, c: &FlatCallableItem)
        requires
            env.callable_ok(*c),
        ensures
            appended(old(self).items@, final(self).items@, callable_rets(env, *c).len() + 1),
            forall|k: int|
                0 <= k < callable_rets(env, *c).len() ==> is_fn_decl(
                    #[trigger] final(self).items@[old(self).items@.len() + k],
                    helper_fn(*c, callable_rets(env, *c)[k].ident),
                    None,
                    callable_params(env, *c),
                    callable_rets(env, *c)[k].type_,
                ),
            is_proc_full(
                final(self).items@[old(self).items@.len() + callable_rets(env, *c).len() as int],
                FnIdent::User(user_fn(*c)),
                Some(ProcAttr::Inline(InlineProcAttr { depth: 1 })),
                callable_params(env, *c),
                callable_rets(env, *c),
                |bb: Body| external_body_ok(env, *c, bb),
            ),
    {
        let ghost before = self.items@;
        let ghost n = before.len() as int;
        let ghost rets = callable_rets(env, *c);
        let ghost pv = callable_params(env, *c);
        let ghost args = var_exprs(pv);
        assert(params_ok(env, c.params@));
        let nrets = callable_ret_vars(env, c).len();
        let mut stmts: Vec<Stmt> = Vec::new();
        let mut k: usize = 0;
        while k < nrets
            invariant
                env.callable_ok(*c),
                params_ok(env, c.params@),
                nrets == rets.len(),
                rets == callable_rets(env, *c),
                pv == callable_params(env, *c),
                args == var_exprs(pv),
                k <= nrets,
                appended(before, self.items@, k as nat),
                n == before.len(),
                stmts@.len() == k,
                forall|j: int|
                    0 <= j < k ==> is_fn_decl(
                        #[trigger] self.items@[n + j],
                        helper_fn(*c, rets[j].ident),
                        None,
                        pv,
                        rets[j].type_,
                    ),
                forall|j: int|
                    0 <= j < k ==> is_assign(
                        #[trigger] stmts@[j],
                        Expr::Var(rets[j].ident),
                        |e: Expr| is_call(e, helper_fn(*c, rets[j].ident), args),
                    ),
            decreases nrets - k,
        {
            let v1 = take_nth(callable_ret_vars(env, c), k);
            let v2 = take_nth(callable_ret_vars(env, c), k);
            let v3 = take_nth(callable_ret_vars(env, c), k);
            let helper = FnIdent::ExternalUserFnHelper(
                ExternalUserFnHelperFnIdent { fn_ident: user_fn_ident(c), ret_var_ident: v1.ident },
            );
            self.items.push(fn_decl(helper, None, callable_param_vars(env, c), v1.type_));
            let helper2 = FnIdent::ExternalUserFnHelper(
                ExternalUserFnHelperFnIdent { fn_ident: user_fn_ident(c), ret_var_ident: v3.ident },
            );
            let args_now = var_exprs_of(callable_param_vars(env, c));
            stmts.push(assign(Expr::Var(v2.ident), call(helper2, args_now)));
            k = k + 1;
        }
        let mut i: usize = 0;
        while i < c.params.len()
            invariant
                env.callable_ok(*c),
                nrets == rets.len(),
                i <= c.params@.len(),
                stmts@.len() == nrets + out_labels(c.params@.take(i as int)).len(),
                forall|j: int|
                    0 <= j < nrets ==> is_assign(
                        #[trigger] stmts@[j],
                        Expr::Var(rets[j].ident),
                        |e: Expr| is_call(e, helper_fn(*c, rets[j].ident), args),
                    ),
                forall|m: int|
                    0 <= m < out_labels(c.params@.take(i as int)).len() ==> match out_labels(
                        c.params@.take(i as int),
                    )[m] {
                        FlatParam::Label { ident, ir, .. } => is_call_stmt(
                            #[trigger] stmts@[nrets + m],
                            ir_fn(env.ir_items@[ir as int].ident, IrMemberFnSelector::BindExit),
                            seq![param(ParamVarIdent::User(UserParamVarIdent { ident }))],
                        ),
                        _ => false,
                    },
            decreases c.params@.len() - i,
        {
            assert(c.params@.take(i + 1).drop_last() =~= c.params@.take(i as int));
            proof {
                lemma_out_labels_are_labels(c.params@.take(i as int));
                lemma_out_labels_are_labels(c.params@.take(i + 1));
            }
            let ghost prev = out_labels(c.params@.take(i as int));
            let ghost prev_stmts = stmts@;
            match &c.params[i] {
                FlatParam::Label { ident, ir, is_out } => {
                    if *is_out {
                        assert(c.params@[i as int] matches FlatParam::Label { ir, .. } && ir
                            < env.ir_items@.len());
                        let target = ir_fn_ident(&env.ir_items[*ir].ident, IrMemberFnSelector::BindExit);
                        let arg = Expr::Var(
                            VarIdent::Param(
                                ParamVarIdent::User(UserParamVarIdent { ident: ident.clone() }),
                            ),
                        );
                        stmts.push(
                            Stmt::Call(CallStmt::from_call(CallExpr { target, arg_exprs: one(arg) })),
                        );
                        proof {
                            let cur = out_labels(c.params@.take(i + 1));
                            assert(cur == prev.push(c.params@[i as int]));
                            assert forall|m: int| 0 <= m < cur.len() implies match cur[m] {
                                FlatParam::Label { ident, ir, .. } => is_call_stmt(
                                    #[trigger] stmts@[nrets + m],
                                    ir_fn(env.ir_items@[ir as int].ident, IrMemberFnSelector::BindExit),
                                    seq![param(ParamVarIdent::User(UserParamVarIdent { ident }))],
                                ),
                                _ => false,
                            } by {
                                if m < prev.len() {
                                    assert(cur[m] == prev[m]);
                                    assert(stmts@[nrets + m] == prev_stmts[nrets + m]);
                                } else {
                                    assert(cur[m] == c.params@[i as int]);
                                    assert(stmts@[nrets + m] == stmts@[stmts@.len() - 1]);
                                }
                            }
                        }
                    } else {
                        assert(out_labels(c.params@.take(i + 1)) == prev);
                    }
                },
                _ => {
                    assert(out_labels(c.params@.take(i + 1)) == prev);
                },
            }
            i = i + 1;
        }
        assert(c.params@.take(c.params@.len() as int) =~= c.params@);
        assert(out_labels(c.params@.take(c.params@.len() as int)) == out_labels(c.params@));
        proof {
            lemma_out_labels_are_labels(c.params@);
        }
        let b = Body { local_vars: Vec::new(), stmts };
        assert(external_body_ok(env, *c, b));
        self.items.push(
            Item::Proc(
                ProcItem {
                    ident: FnIdent::User(user_fn_ident(c)),
                    attr: Some(ProcAttr::Inline(InlineProcAttr { depth: 1 })),
                    param_vars: TypedVars { vars: callable_param_vars(env, c) },
                    ret_vars: TypedVars { vars: callable_ret_vars(env, c) },
                    body: Some(b),
                },
            ),
        );
    }

    /// The identifier of the Boogie type that stands for `t`: the type's own
    /// name.
    pub fn get_type_ident(env: &FlatEnv, t: &FlatTypeIndex) -> (r: UserTypeIdent)
        requires
            env.type_ok(*t),
        ensures
            r == (UserTypeIdent { ident: env.spec_type_name(*t) }),
    {
        match t {
            FlatTypeIndex::BuiltIn(i) => type_ident(i),
            FlatTypeIndex::Enum(e) => type_ident(&env.enum_items[*e].ident),
            FlatTypeIndex::Struct(s) => type_ident(&env.struct_items[*s].ident),
        }
    }
}

/// Whether each of `bodies` is there exactly for the callables of `items`
/// that have a body.
pub open spec fn bodies_match(items: Seq<FlatCallableItem>, bodies: Seq<Option<Body>>) -> bool {
    &&& bodies.len() == items.len()
    &&& forall|j: int| 0 <= j < items.len() ==> (#[trigger] bodies[j] is Some <==> items[j].has_body)
}

/// The Boogie declarations of a flattened program, given the compiled
/// bodies of its functions and ops: its enumerations, structures, IRs,
/// global variables, functions and ops, in that order.
pub fn compile(
    env: &FlatEnv,
    fn_bodies: Vec<Option<Body>>,
    op_bodies: Vec<Option<Body>>,
    graph: Option<FlowGraph>,
) -> (r: BplCode)
    requires
        env.wf(),
        forall|s: int|
            0 <= s < env.struct_items@.len() ==> #[trigger] chain_ends(env, s, env.struct_items@.len()),
        bodies_match(env.fn_items@, fn_bodies@),
        bodies_match(env.op_items@, op_bodies@),
        bodies_printable(fn_bodies@),
        bodies_printable(op_bodies@),
        graph is Some <==> has_entry(env),
        has_entry(env) ==> emits_chain_ends(
            env,
            env.op_items@.last().parent_ir->0 as int,
            env.ir_items@.len(),
        ),
        graph matches Some(g) ==> g.wf() && entry_graph_ok(env, g),
    ensures
        code_printable(r.code),
        program_ok(env, fn_bodies@, op_bodies@, r.code.items@),
        r.code.items@.len() == program_len(env, fn_bodies@, op_bodies@) + if has_entry(env) {
            1int
        } else {
            0int
        },
        has_entry(env) ==> entry_point_ok(
            env,
            env.op_items@.len() - 1,
            env.op_items@.last().parent_ir->0 as int,
            bottom_ir(env, env.op_items@.last().parent_ir->0 as int, env.ir_items@.len()),
            graph->0,
            r.code.items@.last(),
        ),
{
    let ghost fbs = fn_bodies@;
    let ghost obs = op_bodies@;
    let mut comp = Compiler::new();
    // enumerations
    let mut j: usize = 0;
    while j < env.enum_items.len()
        invariant
            j <= env.enum_items@.len(),
            segments_ok(comp.items@, 0, enum_counts(env).take(j as int), enum_ok(env)),
            comp.items@.len() == sum_counts(enum_counts(env).take(j as int)),
        decreases env.enum_items@.len() - j,
    {
        let ghost before = comp.items@;
        comp.compile_enum_item(&env.enum_items[j]);
        proof {
            lemma_segments_push(before, comp.items@, 0, enum_counts(env), j as int, enum_ok(env));
        }
        j = j + 1;
    }
    assert(enum_counts(env).take(j as int) =~= enum_counts(env));
    let ghost snap1 = comp.items@;
    let ghost s1 = snap1.len();
    // structures
    let mut j: usize = 0;
    while j < env.struct_items.len()
        invariant
            env.wf(),
            forall|s: int|
                0 <= s < env.struct_items@.len() ==> #[trigger] chain_ends(
                    env,
                    s,
                    env.struct_items@.len(),
                ),
            j <= env.struct_items@.len(),
            s1 == snap1.len(),
            segments_ok(comp.items@, s1 as int, struct_counts(env).take(j as int), struct_ok(env)),
            comp.items@.len() == s1 + sum_counts(struct_counts(env).take(j as int)),
            forall|i: int| 0 <= i < s1 ==> #[trigger] comp.items@[i] == snap1[i],
        decreases env.struct_items@.len() - j,
    {
        let ghost before = comp.items@;
        comp.compile_struct_item(env, j);
        proof {
            lemma_segments_push(before, comp.items@, s1 as int, struct_counts(env), j as int, struct_ok(env));
        }
        j = j + 1;
    }
    assert(struct_counts(env).take(j as int) =~= struct_counts(env));
    let ghost snap2 = comp.items@;
    let ghost s2 = snap2.len();
    // IRs
    let mut j: usize = 0;
    while j < env.ir_items.len()
        invariant
            j <= env.ir_items@.len(),
            s2 == snap2.len(),
            segments_ok(comp.items@, s2 as int, ir_counts(env).take(j as int), ir_ok(env)),
            comp.items@.len() == s2 + sum_counts(ir_counts(env).take(j as int)),
            forall|i: int| 0 <= i < s2 ==> #[trigger] comp.items@[i] == snap2[i],
        decreases env.ir_items@.len() - j,
    {
        let ghost before = comp.items@;
        comp.compile_ir_item(&env.ir_items[j]);
        proof {
            lemma_segments_push(before, comp.items@, s2 as int, ir_counts(env), j as int, ir_ok(env));
        }
        j = j + 1;
    }
    assert(ir_counts(env).take(j as int) =~= ir_counts(env));
    let ghost snap3 = comp.items@;
    let ghost s3 = snap3.len();
    // global variables
    let mut j: usize = 0;
    while j < env.global_var_items.len()
        invariant
            env.wf(),
            j <= env.global_var_items@.len(),
            s3 == snap3.len(),
            segments_ok(comp.items@, s3 as int, global_var_counts(env).take(j as int), global_var_ok(env)),
            comp.items@.len() == s3 + sum_counts(global_var_counts(env).take(j as int)),
            forall|i: int| 0 <= i < s3 ==> #[trigger] comp.items@[i] == snap3[i],
        decreases env.global_var_items@.len() - j,
    {
        let ghost before = comp.items@;
        comp.compile_global_var_item(env, j);
        proof {
            lemma_segments_push(
                before,
                comp.items@,
                s3 as int,
                global_var_counts(env),
                j as int,
                global_var_ok(env),
            );
        }
        j = j + 1;
    }
    assert(global_var_counts(env).take(j as int) =~= global_var_counts(env));
    let ghost snap4 = comp.items@;
    let ghost s4 = snap4.len();
    // functions
    let mut bodies = fn_bodies;
    let mut j: usize = 0;
    while j < env.fn_items.len()
        invariant
            env.wf(),
            bodies_match(env.fn_items@, fbs),
            j <= env.fn_items@.len(),
            bodies@ == fbs.skip(j as int),
            s4 == snap4.len(),
            segments_ok(
                comp.items@,
                s4 as int,
                callable_counts(env, env.fn_items@, fbs).take(j as int),
                callables_ok(env, env.fn_items@, fbs),
            ),
            comp.items@.len() == s4 + sum_counts(callable_counts(env, env.fn_items@, fbs).take(j as int)),
            forall|i: int| 0 <= i < s4 ==> #[trigger] comp.items@[i] == snap4[i],
        decreases env.fn_items@.len() - j,
    {
        let ghost before = comp.items@;
        let body = bodies.remove(0);
        assert(body == fbs[j as int]);
        assert(env.callable_ok(env.fn_items@[j as int]));
        comp.compile_callable_item(env, &env.fn_items[j], body);
        proof {
            lemma_segments_push(
                before,
                comp.items@,
                s4 as int,
                callable_counts(env, env.fn_items@, fbs),
                j as int,
                callables_ok(env, env.fn_items@, fbs),
            );
        }
        j = j + 1;
        assert(bodies@ =~= fbs.skip(j as int));
    }
    assert(callable_counts(env, env.fn_items@, fbs).take(j as int) =~= callable_counts(
        env,
        env.fn_items@,
        fbs,
    ));
    let ghost snap5 = comp.items@;
    let ghost s5 = snap5.len();
    // ops
    let mut bodies = op_bodies;
    let mut j: usize = 0;
    while j < env.op_items.len()
        invariant
            env.wf(),
            bodies_match(env.op_items@, obs),
            j <= env.op_items@.len(),
            bodies@ == obs.skip(j as int),
            s5 == snap5.len(),
            segments_ok(
                comp.items@,
                s5 as int,
                callable_counts(env, env.op_items@, obs).take(j as int),
                callables_ok(env, env.op_items@, obs),
            ),
            comp.items@.len() == s5 + sum_counts(callable_counts(env, env.op_items@, obs).take(j as int)),
            forall|i: int| 0 <= i < s5 ==> #[trigger] comp.items@[i] == snap5[i],
        decreases env.op_items@.len() - j,
    {
        let ghost before = comp.items@;
        let body = bodies.remove(0);
        assert(body == obs[j as int]);
        assert(env.callable_ok(env.op_items@[j as int]));
        comp.compile_callable_item(env, &env.op_items[j], body);
        proof {
            lemma_segments_push(
                before,
                comp.items@,
                s5 as int,
                callable_counts(env, env.op_items@, obs),
                j as int,
                callables_ok(env, env.op_items@, obs),
            );
        }
        j = j + 1;
        assert(bodies@ =~= obs.skip(j as int));
    }
    assert(callable_counts(env, env.op_items@, obs).take(j as int) =~= callable_counts(
        env,
        env.op_items@,
        obs,
    ));
    let ghost snap6 = comp.items@;
    if env.op_items.len() > 0 {
        let last = env.op_items.len() - 1;
        if let Some(top_ir) = env.op_items[last].parent_ir {
            let bottom_ir = find_bottom_ir(env, top_ir);
            if let Some(g) = &graph {
                comp.compile_entry_point(env, last, top_ir, bottom_ir, g);
            }
        }
    }
    let items = comp.items;
    proof {
        lemma_segments_keep(
            snap6,
            items@,
            s5 as int,
            callable_counts(env, env.op_items@, obs),
            callables_ok(env, env.op_items@, obs),
        );
        lemma_segments_keep(snap1, items@, 0, enum_counts(env), enum_ok(env));
        lemma_segments_keep(snap2, items@, s1 as int, struct_counts(env), struct_ok(env));
        lemma_segments_keep(snap3, items@, s2 as int, ir_counts(env), ir_ok(env));
        lemma_segments_keep(snap4, items@, s3 as int, global_var_counts(env), global_var_ok(env));
        lemma_segments_keep(
            snap5,
            items@,
            s4 as int,
            callable_counts(env, env.fn_items@, fbs),
            callables_ok(env, env.fn_items@, fbs),
        );
        lemma_phases_printable(env, fbs, obs, items@);
        if has_entry(env) {
            lemma_entry_point_printable(
                env,
                env.op_items@.len() - 1,
                env.op_items@.last().parent_ir->0 as int,
                bottom_ir(env, env.op_items@.last().parent_ir->0 as int, env.ir_items@.len()),
                graph->0,
                items@.last(),
            );
        }
        assert forall|k: int| 0 <= k < items@.len() implies #[trigger] item_printable(items@[k]) by {
            if k >= program_len(env, fbs, obs) {
                assert(items@[k] == items@.last());
            }
        }
    }
    BplCode { code: Code { items } }
}

} // verus!
