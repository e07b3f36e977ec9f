//! The entry point of the Boogie program: the procedure that emits the ops
//! of the top-level op into the bottom IR and then interprets them, section
//! by section along the control-flow graph of the emitted code.

use vstd::prelude::*;

use crate::bpl_code::{
    BinOperExpr, Body, CallExpr, CallStmt, CheckStmt, EntryPointFnIdent, Expr, FnIdent,
    IrMemberFnIdent, IrMemberFnSelector, Item, LabelIdent, LabelStmt, LocalVar, OpCtorFieldFnIdent, OpCtorIrMemberFnSelector,
    ParamVarIdent, ProcItem, Stmt, Type, TypeIdent, TypedVar, TypedVars, UserParamVarIdent, VarIdent,
};
use crate::bpl_code::{call_printable, expr_printable};
use crate::bpl_emit::{
    lemma_emit_path_printable,
    generate_emit_node_goto_succs_stmt, generate_emit_path_expr, goto_targets, is_emit_path,
    jumps_to, local_emit_indexes,
};
use crate::bpl_names::{
    BplBinOper, CheckAttr, IrIdent, OpSelector,
    PreludeFnIdent, PreludeTypeIdent, ProcAttr, UserFnIdent, UserOpSelector,
};
use crate::bpl_print::{item_printable, lemma_args_all_printable, lemma_stmts_all_printable, stmt_printable};
use crate::compiler::{
    all_ok, lemma_call_printable, lemma_segments_all,
    added, appended, assign, call, ir_fn, ir_fn_ident, is_call, lemma_segments_keep,
    lemma_segments_push, one, op_type, op_type_ident, pc_var, pc_var_ident, prelude, prelude_type,
    segments_ok, sum_counts, take_nth, user_type, var_exprs, var_exprs_of, Compiler,
};
use crate::flat::{FlatEnv, FlatParam};
use crate::flow::{EmitNode, FlowGraph};
use crate::ident::Ident;
use crate::syntax::{CheckKind, CompareBinOper, VarParamKind};

verus! {

/// The parameters of the top-level op that the entry point takes: its
/// variables passed in or by reference, in order.
pub open spec fn entry_params(env: &FlatEnv, ps: Seq<FlatParam>) -> Seq<TypedVar>
    decreases ps.len(),
{
    if ps.len() == 0 {
        seq![]
    } else {
        let r = entry_params(env, ps.drop_last());
        match ps.last() {
            FlatParam::Var { ident, type_, kind } => if kind == VarParamKind::Out {
                r
            } else {
                r.push(
                    TypedVar {
                        ident: VarIdent::Param(ParamVarIdent::User(UserParamVarIdent { ident })),
                        type_: user_type(env.spec_type_name(type_)),
                    },
                )
            },
            _ => r,
        }
    }
}

/// The label parameters of the top-level op, each held in a local variable
/// of the label type named after it.
pub open spec fn label_locals(ps: Seq<FlatParam>) -> Seq<TypedVar>
    decreases ps.len(),
{
    if ps.len() == 0 {
        seq![]
    } else {
        let r = label_locals(ps.drop_last());
        match ps.last() {
            FlatParam::Label { ident, .. } => r.push(
                TypedVar {
                    ident: VarIdent::Param(ParamVarIdent::User(UserParamVarIdent { ident })),
                    type_: prelude_type(PreludeTypeIdent::Label),
                },
            ),
            _ => r,
        }
    }
}

/// The names of the parameters that an interpreted op is called with: its
/// variables passed in or by reference, and its labels, in order.
pub open spec fn op_arg_idents(ps: Seq<FlatParam>) -> Seq<Ident>
    decreases ps.len(),
{
    if ps.len() == 0 {
        seq![]
    } else {
        let r = op_arg_idents(ps.drop_last());
        match ps.last() {
            FlatParam::Var { ident, kind, .. } => if kind == VarParamKind::Out {
                r
            } else {
                r.push(ident)
            },
            FlatParam::Label { ident, .. } => r.push(ident),
        }
    }
}

/// Whether `e` is a call of `target` without arguments.
pub open spec fn is_call0(e: Expr, target: FnIdent) -> bool {
    is_call(e, target, seq![])
}

/// Whether `stmt` is `assume {:partition} emitPath#Pc(<pc>) == <path>`,
/// with the emit path of the label `label`.
pub open spec fn is_assume_path(stmt: Stmt, pc: Expr, label: Seq<usize>) -> bool {
    match stmt {
        Stmt::Check(c) => c.kind == CheckKind::Assume && c.attr == Some(CheckAttr::Partition)
            && match c.cond {
            Expr::BinOper(b) => b.oper == BplBinOper::Compare(CompareBinOper::Eq) && is_call(
                b.lhs,
                FnIdent::Prelude(PreludeFnIdent::EmitPathPcField),
                seq![pc],
            ) && (b.rhs matches Expr::Call(p) && is_emit_path(p, label)),
            _ => false,
        },
        _ => false,
    }
}

/// Whether `stmt` is the label of emit node `node`.
pub open spec fn is_label_of(stmt: Stmt, node: EmitNode) -> bool {
    stmt matches Stmt::Label(l) && (l.label_ident matches LabelIdent::Emit(e) && e.segments@
        == node.label_ident->0.segments@)
}

/// Whether `stmt` jumps to every emit node that control reaches from `node`
/// in one step.
pub open spec fn is_goto_succs(stmt: Stmt, node: EmitNode, graph: FlowGraph) -> bool {
    stmt matches Stmt::Goto(g) && exists|ids: Seq<usize>| jumps_to(g, ids, goto_targets(node, graph), graph)
}

/// The section that interprets the op of emit node `k`: its label, the
/// assumption that the program counter has reached its emit path, the op
/// found there, the call of the op's function with its fields, and the jump
/// to what follows.
pub open spec fn op_section_ok(env: &FlatEnv, bottom: Ident, graph: FlowGraph, k: int, ss: Seq<Stmt>) -> bool {
    let node = graph.emit_nodes@[k];
    let pc = Expr::Var(pc_var_ident(bottom));
    let op = env.op_items@[node.target->0 as int];
    let args = op_arg_idents(op.params@);
    let ctor = IrMemberFnIdent {
        ir_ident: IrIdent { ident: bottom },
        selector: IrMemberFnSelector::Op(
            OpCtorIrMemberFnSelector { op_selector: OpSelector::User(UserOpSelector { op_ident: op.ident }) },
        ),
    };
    &&& ss.len() == 5
    &&& is_label_of(ss[0], node)
    &&& is_assume_path(ss[1], pc, local_emit_indexes(node.label_ident->0.segments@))
    &&& (ss[2] matches Stmt::Assign(a) && a.lhs == Expr::Var(VarIdent::Op) && is_call(
        a.rhs,
        ir_fn(bottom, IrMemberFnSelector::OpAt),
        seq![pc],
    ))
    &&& (ss[3] matches Stmt::Call(c) && c.ret_var_idents@.len() == 0 && c.call.target == FnIdent::User(
        UserFnIdent { parent_ident: Some(bottom), fn_ident: op.ident },
    ) && c.call.arg_exprs@.len() == args.len() && forall|i: int|
        0 <= i < args.len() ==> is_call(
            #[trigger] c.call.arg_exprs@[i],
            FnIdent::OpCtorField(
                OpCtorFieldFnIdent {
                    param_var_ident: ParamVarIdent::User(UserParamVarIdent { ident: args[i] }),
                    op_ctor_ident: ctor,
                },
            ),
            seq![Expr::Var(VarIdent::Op)],
        ))
    &&& is_goto_succs(ss[4], node, graph)
}

/// Whether emit node `k` is a regular one: neither the entry nor the exit.
pub open spec fn is_regular(graph: FlowGraph, k: int) -> bool {
    !graph.emit_nodes@[k].spec_is_entry() && !graph.emit_nodes@[k].spec_is_exit()
}

/// How many statements the section of each emit node takes: five for a
/// regular node, none for the entry and the exit, whose sections come
/// elsewhere.
pub open spec fn section_counts(graph: FlowGraph) -> Seq<nat> {
    Seq::new(graph.emit_nodes@.len(), |k: int| if is_regular(graph, k) { 5nat } else { 0nat })
}

/// What the section of emit node `k` holds.
pub open spec fn section_ok(env: &FlatEnv, bottom: Ident, graph: FlowGraph) -> spec_fn(int, Seq<Stmt>) -> bool {
    |k: int, ss: Seq<Stmt>| is_regular(graph, k) ==> op_section_ok(env, bottom, graph, k, ss)
}

/// The statements before the sections: bind the exit label, point the label
/// locals at it, start emitting at `NilPc()`, call the top-level op's
/// function with the entry point's parameters, the label locals and the
/// starting counter, emit the exit op at the exit counter, start
/// interpreting after `NilPc()`, and jump to the first ops.
pub open spec fn prelude_ok(
    env: &FlatEnv,
    top_ir: Ident,
    bottom: Ident,
    op_ident: Ident,
    params: Seq<TypedVar>,
    labels: Seq<TypedVar>,
    graph: FlowGraph,
    ss: Seq<Stmt>,
) -> bool {
    let n: int = labels.len() as int;
    let np: int = params.len() as int;
    let pc = Expr::Var(pc_var_ident(bottom));
    &&& ss.len() == n + 6
    &&& (ss[0] matches Stmt::Call(c) && c.ret_var_idents@.len() == 0 && c.call.target == ir_fn(
        bottom,
        IrMemberFnSelector::BindExit,
    ) && c.call.arg_exprs@.len() == 1 && is_call0(
        c.call.arg_exprs@[0],
        FnIdent::Prelude(PreludeFnIdent::ExitLabel),
    ))
    &&& forall|j: int|
        0 <= j < n ==> (#[trigger] ss[1 + j] matches Stmt::Assign(a) && a.lhs == Expr::Var(
            labels[j].ident,
        ) && is_call0(a.rhs, FnIdent::Prelude(PreludeFnIdent::ExitLabel)))
    &&& (ss[n + 1] matches Stmt::Assign(a) && a.lhs == pc && is_call0(
        a.rhs,
        FnIdent::Prelude(PreludeFnIdent::NilPc),
    ))
    &&& (ss[n + 2] matches Stmt::Call(c) && c.ret_var_idents@.len() == 0 && c.call.target
        == FnIdent::User(UserFnIdent { parent_ident: Some(top_ir), fn_ident: op_ident })
        && c.call.arg_exprs@.len() == np + n + 1 && c.call.arg_exprs@.take(np) == var_exprs(params)
        && c.call.arg_exprs@.subrange(np, np + n)
        == var_exprs(labels) && is_call0(
        c.call.arg_exprs@[np + n],
        FnIdent::Prelude(PreludeFnIdent::NilPc),
    ))
    &&& (ss[n + 3] matches Stmt::Call(c) && c.ret_var_idents@.len() == 0 && c.call.target == ir_fn(
        bottom,
        IrMemberFnSelector::Emit,
    ) && c.call.arg_exprs@.len() == 2 && is_call0(
        c.call.arg_exprs@[0],
        ir_fn(bottom, IrMemberFnSelector::Op(OpCtorIrMemberFnSelector { op_selector: OpSelector::Exit })),
    ) && is_call0(c.call.arg_exprs@[1], FnIdent::Prelude(PreludeFnIdent::ExitPc)))
    &&& (ss[n + 4] matches Stmt::Assign(a) && a.lhs == pc && (a.rhs matches Expr::Call(c) && c.target
        == ir_fn(bottom, IrMemberFnSelector::NextPc) && c.arg_exprs@.len() == 1 && is_call0(
        c.arg_exprs@[0],
        FnIdent::Prelude(PreludeFnIdent::NilPc),
    )))
    &&& is_goto_succs(ss[n + 5], graph.emit_nodes@[1], graph)
}

/// The entry point of top-level op `top`, interpreting IR `top_ir` into IR
/// `bottom_ir` along `graph`: a procedure named after both, taking the op's
/// variables passed in or by reference, with a local for each label
/// parameter and one for the op being interpreted, whose statements are the
/// prelude, then the section of each regular emit node in order, then the
/// section of the exit node, made of its label and emit path only.
pub open spec fn entry_point_ok(
    env: &FlatEnv,
    top: int,
    top_ir: int,
    bottom_ir: int,
    graph: FlowGraph,
    item: Item,
) -> bool {
    let op = env.op_items@[top];
    let top_ident = env.ir_items@[top_ir].ident;
    let bottom = env.ir_items@[bottom_ir].ident;
    let params = entry_params(env, op.params@);
    let labels = label_locals(op.params@);
    let pre: int = labels.len() + 6int;
    let mid: int = pre + sum_counts(section_counts(graph));
    match item {
        Item::Proc(p) => {
            &&& p.ident == FnIdent::EntryPoint(
                EntryPointFnIdent {
                    ir_ident: IrIdent { ident: top_ident },
                    user_op_selector: UserOpSelector { op_ident: op.ident },
                },
            )
            &&& p.attr == Some(ProcAttr::EntryPoint)
            &&& p.param_vars.vars@ == params
            &&& p.ret_vars.vars@.len() == 0
            &&& p.body matches Some(b) && {
                &&& b.local_vars@.len() == labels.len() + 1
                &&& (forall|j: int| 0 <= j < labels.len() ==> #[trigger] b.local_vars@[j].var == labels[j])
                &&& b.local_vars@[labels.len() as int].var == TypedVar {
                    ident: VarIdent::Op,
                    type_: Type::Ident(op_type_ident(bottom)),
                }
                &&& b.stmts@.len() == mid + 2
                &&& prelude_ok(env, top_ident, bottom, op.ident, params, labels, graph, b.stmts@.take(pre))
                &&& segments_ok(b.stmts@, pre, section_counts(graph), section_ok(env, bottom, graph))
                &&& is_label_of(b.stmts@[mid], graph.emit_nodes@[0])
                &&& is_assume_path(
                    b.stmts@[mid + 1],
                    Expr::Var(pc_var_ident(bottom)),
                    local_emit_indexes(graph.emit_nodes@[0].label_ident->0.segments@),
                )
            }
        },
        _ => false,
    }
}

/// The jump out of emit node `k` can be generated: its label successors are
/// declared, the nodes it reaches are declared and labelled, and there is
/// at least one.
pub open spec fn goto_ok(graph: FlowGraph, k: int) -> bool {
    let node = graph.emit_nodes@[k];
    &&& forall|l: usize| #[trigger] node.succ_labels@.contains(l) ==> l < graph.label_nodes@.len()
    &&& forall|e: usize| #[trigger] goto_targets(node, graph).contains(e) ==> e < graph.emit_nodes@.len()
        && graph.emit_nodes@[e as int].label_ident is Some
    &&& !goto_targets(node, graph).is_empty()
}

/// The graph is one that tracing the top-level op gives: the exit node
/// first and the entry node second, every regular node emitting an op that
/// is declared, and a jump that can be generated out of the entry and out of
/// every regular node.
pub open spec fn entry_graph_ok(env: &FlatEnv, graph: FlowGraph) -> bool {
    &&& graph.emit_nodes@.len() > 1
    &&& graph.emit_nodes@[0].spec_is_exit()
    &&& graph.emit_nodes@[1].spec_is_entry()
    &&& goto_ok(graph, 1)
    &&& forall|k: int|
        0 <= k < graph.emit_nodes@.len() && is_regular(graph, k) ==> goto_ok(graph, k)
            && #[trigger] graph.emit_nodes@[k].target->0 < env.op_items@.len()
}

/// The entry point's parameters.
fn entry_param_vars(env: &FlatEnv, ps: &Vec<FlatParam>) -> (r: Vec<TypedVar>)
    requires
        forall|k: int| 0 <= k < ps@.len() ==> (#[trigger] ps@[k] matches FlatParam::Var { type_, .. } ==> env.type_ok(type_)),
    ensures
        r@ == entry_params(env, ps@),
{
    let mut r: Vec<TypedVar> = Vec::new();
    let mut i: usize = 0;
    while i < ps.len()
        invariant
            i <= ps@.len(),
            forall|k: int| 0 <= k < ps@.len() ==> (#[trigger] ps@[k] matches FlatParam::Var { type_, .. } ==> env.type_ok(type_)),
            r@ == entry_params(env, ps@.take(i as int)),
        decreases ps@.len() - i,
    {
        assert(ps@.take(i + 1).drop_last() =~= ps@.take(i as int));
        match &ps[i] {
            FlatParam::Var { ident, type_, kind } => {
                if *kind != VarParamKind::Out {
                    r.push(
                        TypedVar {
                            ident: VarIdent::Param(ParamVarIdent::User(UserParamVarIdent { ident: ident.clone() })),
                            type_: Type::Ident(TypeIdent::User(Compiler::get_type_ident(env, type_))),
                        },
                    );
                }
            },
            _ => {},
        }
        i = i + 1;
    }
    assert(ps@.take(ps@.len() as int) =~= ps@);
    r
}

/// The locals that hold the label parameters.
fn label_local_vars(ps: &Vec<FlatParam>) -> (r: Vec<TypedVar>)
    ensures
        r@ == label_locals(ps@),
{
    let mut r: Vec<TypedVar> = Vec::new();
    let mut i: usize = 0;
    while i < ps.len()
        invariant
            i <= ps@.len(),
            r@ == label_locals(ps@.take(i as int)),
        decreases ps@.len() - i,
    {
        assert(ps@.take(i + 1).drop_last() =~= ps@.take(i as int));
        match &ps[i] {
            FlatParam::Label { ident, .. } => {
                r.push(
                    TypedVar {
                        ident: VarIdent::Param(ParamVarIdent::User(UserParamVarIdent { ident: ident.clone() })),
                        type_: prelude(PreludeTypeIdent::Label),
                    },
                );
            },
            _ => {},
        }
        i = i + 1;
    }
    assert(ps@.take(ps@.len() as int) =~= ps@);
    r
}

/// A call statement that keeps no result.
fn call_stmt(target: FnIdent, arg_exprs: Vec<Expr>) -> (r: Stmt)
    ensures
        r matches Stmt::Call(c) && c.ret_var_idents@.len() == 0 && c.call.target == target
            && c.call.arg_exprs@ == arg_exprs@,
{
    Stmt::Call(CallStmt::from_call(CallExpr { target, arg_exprs }))
}

/// The label of an emit node.
fn label_stmt(node: &EmitNode) -> (r: Stmt)
    requires
        node.label_ident is Some,
    ensures
        is_label_of(r, *node),
{
    Stmt::Label(LabelStmt { label_ident: LabelIdent::Emit(node.label_ident.as_ref().unwrap().clone()) })
}

/// The assumption that the program counter of IR `bottom` has reached the
/// emit path of a node.
fn assume_path_stmt(bottom: &Ident, node: &EmitNode) -> (r: Stmt)
    requires
        node.label_ident is Some,
    ensures
        is_assume_path(
            r,
            Expr::Var(pc_var_ident(*bottom)),
            local_emit_indexes(node.label_ident->0.segments@),
        ),
{
    let path = generate_emit_path_expr(node.label_ident.as_ref().unwrap());
    let lhs = call(FnIdent::Prelude(PreludeFnIdent::EmitPathPcField), one(Expr::Var(pc_var(bottom))));
    Stmt::Check(
        CheckStmt {
            kind: CheckKind::Assume,
            attr: Some(CheckAttr::Partition),
            cond: Expr::BinOper(
                Box::new(
                    BinOperExpr {
                        oper: BplBinOper::Compare(CompareBinOper::Eq),
                        lhs,
                        rhs: Expr::Call(path),
                    },
                ),
            ),
        },
    )
}

/// The call of op `op`'s function in IR `bottom` with the fields of the op
/// being interpreted.
fn op_call_stmt(bottom: &Ident, op: &crate::flat::FlatCallableItem) -> (r: Stmt)
    ensures
        ({
            let args = op_arg_idents(op.params@);
            let ctor = IrMemberFnIdent {
                ir_ident: IrIdent { ident: *bottom },
                selector: IrMemberFnSelector::Op(
                    OpCtorIrMemberFnSelector {
                        op_selector: OpSelector::User(UserOpSelector { op_ident: op.ident }),
                    },
                ),
            };
            r matches Stmt::Call(c) && c.ret_var_idents@.len() == 0 && c.call.target == FnIdent::User(
                UserFnIdent { parent_ident: Some(*bottom), fn_ident: op.ident },
            ) && c.call.arg_exprs@.len() == args.len() && forall|i: int|
                0 <= i < args.len() ==> is_call(
                    #[trigger] c.call.arg_exprs@[i],
                    FnIdent::OpCtorField(
                        OpCtorFieldFnIdent {
                            param_var_ident: ParamVarIdent::User(UserParamVarIdent { ident: args[i] }),
                            op_ctor_ident: ctor,
                        },
                    ),
                    seq![Expr::Var(VarIdent::Op)],
                )
        }),
{
    let ghost ctor = IrMemberFnIdent {
        ir_ident: IrIdent { ident: *bottom },
        selector: IrMemberFnSelector::Op(
            OpCtorIrMemberFnSelector {
                op_selector: OpSelector::User(UserOpSelector { op_ident: op.ident }),
            },
        ),
    };
    let ps = &op.params;
    let mut args: Vec<Expr> = Vec::new();
    let mut i: usize = 0;
    while i < ps.len()
        invariant
            i <= ps@.len(),
            ps == op.params,
            ctor == (IrMemberFnIdent {
                ir_ident: IrIdent { ident: *bottom },
                selector: IrMemberFnSelector::Op(
                    OpCtorIrMemberFnSelector {
                        op_selector: OpSelector::User(UserOpSelector { op_ident: op.ident }),
                    },
                ),
            }),
            args@.len() == op_arg_idents(ps@.take(i as int)).len(),
            forall|j: int|
                0 <= j < args@.len() ==> is_call(
                    #[trigger] args@[j],
                    FnIdent::OpCtorField(
                        OpCtorFieldFnIdent {
                            param_var_ident: ParamVarIdent::User(
                                UserParamVarIdent { ident: op_arg_idents(ps@.take(i as int))[j] },
                            ),
                            op_ctor_ident: ctor,
                        },
                    ),
                    seq![Expr::Var(VarIdent::Op)],
                ),
        decreases ps@.len() - i,
    {
        assert(ps@.take(i + 1).drop_last() =~= ps@.take(i as int));
        let ghost prev = op_arg_idents(ps@.take(i as int));
        let ghost prev_args = args@;
        let name = match &ps[i] {
            FlatParam::Var { ident, kind, .. } => if *kind != VarParamKind::Out {
                Some(ident)
            } else {
                None
            },
            FlatParam::Label { ident, .. } => Some(ident),
        };
        if let Some(name) = name {
            let n2 = name.clone();
            let b2 = bottom.clone();
            let o2 = op.ident.clone();
            let target = FnIdent::OpCtorField(
                OpCtorFieldFnIdent {
                    param_var_ident: ParamVarIdent::User(UserParamVarIdent { ident: n2 }),
                    op_ctor_ident: IrMemberFnIdent {
                        ir_ident: IrIdent { ident: b2 },
                        selector: IrMemberFnSelector::Op(
                            OpCtorIrMemberFnSelector {
                                op_selector: OpSelector::User(UserOpSelector { op_ident: o2 }),
                            },
                        ),
                    },
                },
            );
            let e = call(target, one(Expr::Var(VarIdent::Op)));
            args.push(e);
            proof {
                let cur = op_arg_idents(ps@.take(i + 1));
                assert(cur == prev.push(*name));
                assert forall|j: int| 0 <= j < args@.len() implies is_call(
                    #[trigger] args@[j],
                    FnIdent::OpCtorField(
                        OpCtorFieldFnIdent {
                            param_var_ident: ParamVarIdent::User(UserParamVarIdent { ident: cur[j] }),
                            op_ctor_ident: ctor,
                        },
                    ),
                    seq![Expr::Var(VarIdent::Op)],
                ) by {
                    if j < prev_args.len() {
                        assert(args@[j] == prev_args[j]);
                        assert(cur[j] == prev[j]);
                    } else {
                        assert(j == prev.len());
                        assert(cur[j] == *name);
                        assert(args@[j] == e);
                    }
                }
            }
        } else {
            assert(op_arg_idents(ps@.take(i + 1)) == prev);
        }
        i = i + 1;
    }
    assert(ps@.take(ps@.len() as int) =~= ps@);
    call_stmt(
        FnIdent::User(UserFnIdent { parent_ident: Some(bottom.clone()), fn_ident: op.ident.clone() }),
        args,
    )
}

impl Compiler {
    /// Declares the entry point of top-level op `top`, which interprets IR
    /// `top_ir` and emits, down the chain of IRs, into IR `bottom_ir`, along
    /// the control-flow graph `graph` traced from it.
    pub fn compile_entry_point(
        &mut self,
        env: &FlatEnv,
        top: usize,
        top_ir: usize,
        bottom_ir: usize,
        graph: &FlowGraph,
    )
        requires
            env.wf(),
            top < env.op_items@.len(),
            top_ir < env.ir_items@.len(),
            bottom_ir < env.ir_items@.len(),
            graph.wf(),
            entry_graph_ok(env, *graph),
        ensures
            appended(old(self).items@, final(self).items@, 1),
            entry_point_ok(
                env,
                top as int,
                top_ir as int,
                bottom_ir as int,
                *graph,
                final(self).items@[old(self).items@.len() as int],
            ),
    {
        let op = &env.op_items[top];
        assert(env.callable_ok(env.op_items@[top as int]));
        let bottom = &env.ir_items[bottom_ir].ident;
        let top_ident = &env.ir_items[top_ir].ident;
        let ghost params = entry_params(env, op.params@);
        let ghost labels = label_locals(op.params@);
        let ghost pc = Expr::Var(pc_var_ident(*bottom));
        let mut stmts: Vec<Stmt> = Vec::new();
        stmts.push(
            call_stmt(
                ir_fn_ident(bottom, IrMemberFnSelector::BindExit),
                one(call(FnIdent::Prelude(PreludeFnIdent::ExitLabel), Vec::new())),
            ),
        );
        let nl = label_local_vars(&op.params).len();
        let mut j: usize = 0;
        while j < nl
            invariant
                nl == labels.len(),
                labels == label_locals(op.params@),
                j <= nl,
                stmts@.len() == 1 + j,
                stmts@[0] matches Stmt::Call(c) && c.ret_var_idents@.len() == 0 && c.call.target
                    == ir_fn(*bottom, IrMemberFnSelector::BindExit) && c.call.arg_exprs@.len() == 1
                    && is_call0(c.call.arg_exprs@[0], FnIdent::Prelude(PreludeFnIdent::ExitLabel)),
                forall|k: int|
                    0 <= k < j ==> (#[trigger] stmts@[1 + k] matches Stmt::Assign(a) && a.lhs
                        == Expr::Var(labels[k].ident) && is_call0(
                        a.rhs,
                        FnIdent::Prelude(PreludeFnIdent::ExitLabel),
                    )),
            decreases nl - j,
        {
            let lv = take_nth(label_local_vars(&op.params), j);
            stmts.push(assign(Expr::Var(lv.ident), call(FnIdent::Prelude(PreludeFnIdent::ExitLabel), Vec::new())));
            j = j + 1;
        }
        stmts.push(assign(Expr::Var(pc_var(bottom)), call(FnIdent::Prelude(PreludeFnIdent::NilPc), Vec::new())));
        let mut args = var_exprs_of(entry_param_vars(env, &op.params));
        let mut label_args = var_exprs_of(label_local_vars(&op.params));
        let ghost np = args@.len() as int;
        args.append(&mut label_args);
        args.push(call(FnIdent::Prelude(PreludeFnIdent::NilPc), Vec::new()));
        assert(args@.take(np) =~= var_exprs(params));
        assert(args@.subrange(np, np + labels.len()) =~= var_exprs(labels));
        stmts.push(
            call_stmt(
                FnIdent::User(UserFnIdent { parent_ident: Some(top_ident.clone()), fn_ident: op.ident.clone() }),
                args,
            ),
        );
        let mut emit_args = one(
            call(
                ir_fn_ident(
                    bottom,
                    IrMemberFnSelector::Op(OpCtorIrMemberFnSelector { op_selector: OpSelector::Exit }),
                ),
                Vec::new(),
            ),
        );
        emit_args.push(call(FnIdent::Prelude(PreludeFnIdent::ExitPc), Vec::new()));
        stmts.push(call_stmt(ir_fn_ident(bottom, IrMemberFnSelector::Emit), emit_args));
        stmts.push(
            assign(
                Expr::Var(pc_var(bottom)),
                call(
                    ir_fn_ident(bottom, IrMemberFnSelector::NextPc),
                    one(call(FnIdent::Prelude(PreludeFnIdent::NilPc), Vec::new())),
                ),
            ),
        );
        let entry = graph.entry_emit_node_index();
        stmts.push(generate_emit_node_goto_succs_stmt(&graph.emit_nodes[entry], graph));
        let ghost pre_stmts = stmts@;
        let ghost pre: int = pre_stmts.len() as int;
        assert(prelude_ok(env, *top_ident, *bottom, op.ident, params, labels, *graph, pre_stmts));
        // the section of each regular emit node
        let mut k: usize = 0;
        while k < graph.emit_nodes.len()
            invariant
                graph.wf(),
                entry_graph_ok(env, *graph),
                k <= graph.emit_nodes@.len(),
                pre == pre_stmts.len(),
                segments_ok(stmts@, pre, section_counts(*graph).take(k as int), section_ok(env, *bottom, *graph)),
                stmts@.len() == pre + sum_counts(section_counts(*graph).take(k as int)),
                forall|i: int| 0 <= i < pre ==> #[trigger] stmts@[i] == pre_stmts[i],
            decreases graph.emit_nodes@.len() - k,
        {
            let ghost before = stmts@;
            let node = &graph.emit_nodes[k];
            if !node.is_entry() && !node.is_exit() {
                assert(is_regular(*graph, k as int));
                let target = match node.target {
                    Some(t) => t,
                    None => {
                        return;
                    },
                };
                let op_k = &env.op_items[target];
                stmts.push(label_stmt(node));
                stmts.push(assume_path_stmt(bottom, node));
                stmts.push(
                    assign(
                        Expr::Var(VarIdent::Op),
                        call(ir_fn_ident(bottom, IrMemberFnSelector::OpAt), one(Expr::Var(pc_var(bottom)))),
                    ),
                );
                stmts.push(op_call_stmt(bottom, op_k));
                stmts.push(generate_emit_node_goto_succs_stmt(node, graph));
                proof {
                    let seg = added(before, stmts@);
                    let b: int = before.len() as int;
                    assert(seg[0] == stmts@[b]);
                    assert(seg[1] == stmts@[b + 1]);
                    assert(seg[2] == stmts@[b + 2]);
                    assert(seg[3] == stmts@[b + 3]);
                    assert(seg[4] == stmts@[b + 4]);
                    assert(op_section_ok(env, *bottom, *graph, k as int, seg));
                }
            }
            proof {
                lemma_segments_push(before, stmts@, pre, section_counts(*graph), k as int, section_ok(env, *bottom, *graph));
            }
            k = k + 1;
        }
        assert(section_counts(*graph).take(k as int) =~= section_counts(*graph));
        let ghost sect_stmts = stmts@;
        let exit = graph.exit_emit_node_index();
        stmts.push(label_stmt(&graph.emit_nodes[exit]));
        stmts.push(assume_path_stmt(bottom, &graph.emit_nodes[exit]));
        // the locals: one per label parameter, then the op being interpreted
        let mut local_vars: Vec<LocalVar> = Vec::new();
        let mut j: usize = 0;
        while j < nl
            invariant
                nl == labels.len(),
                labels == label_locals(op.params@),
                j <= nl,
                local_vars@.len() == j,
                forall|i: int| 0 <= i < j ==> #[trigger] local_vars@[i].var == labels[i],
            decreases nl - j,
        {
            local_vars.push(LocalVar { var: take_nth(label_local_vars(&op.params), j) });
            j = j + 1;
        }
        local_vars.push(LocalVar { var: TypedVar { ident: VarIdent::Op, type_: op_type(bottom) } });
        let ghost before_items = self.items@;
        let ghost final_stmts = stmts@;
        proof {
            lemma_segments_keep(sect_stmts, final_stmts, pre, section_counts(*graph), section_ok(env, *bottom, *graph));
            assert(final_stmts.take(pre) =~= pre_stmts);
        }
        self.items.push(
            Item::Proc(
                ProcItem {
                    ident: FnIdent::EntryPoint(
                        EntryPointFnIdent {
                            ir_ident: IrIdent { ident: top_ident.clone() },
                            user_op_selector: UserOpSelector { op_ident: op.ident.clone() },
                        },
                    ),
                    attr: Some(ProcAttr::EntryPoint),
                    param_vars: TypedVars { vars: entry_param_vars(env, &op.params) },
                    ret_vars: TypedVars { vars: Vec::new() },
                    body: Some(Body { local_vars, stmts }),
                },
            ),
        );
    }
}

/// The assumption that the counter has reached an emit path can be
/// printed.
proof fn lemma_assume_path_printable(stmt: Stmt, pc: Expr, label: Seq<usize>)
    requires
        is_assume_path(stmt, pc, label),
        pc is Var,
    ensures
        stmt_printable(stmt),
{
    let b = stmt->Check_0.cond->BinOper_0;
    lemma_call_printable(b.lhs, FnIdent::Prelude(PreludeFnIdent::EmitPathPcField), seq![pc]);
    lemma_emit_path_printable(b.rhs->Call_0, label);
    assert(expr_printable(b.rhs));
    assert(expr_printable(stmt->Check_0.cond));
}

/// The section of a regular emit node can be printed.
proof fn lemma_op_section_printable(env: &FlatEnv, bottom: Ident, graph: FlowGraph, k: int, ss: Seq<Stmt>)
    requires
        op_section_ok(env, bottom, graph, k, ss),
    ensures
        all_ok(ss, |s: Stmt| stmt_printable(s)),
{
    let node = graph.emit_nodes@[k];
    let pc = Expr::Var(pc_var_ident(bottom));
    lemma_assume_path_printable(ss[1], pc, local_emit_indexes(node.label_ident->0.segments@));
    lemma_call_printable(ss[2]->Assign_0.rhs, ir_fn(bottom, IrMemberFnSelector::OpAt), seq![pc]);
    assert(stmt_printable(ss[2]));
    let c = ss[3]->Call_0.call;
    let a = c.arg_exprs@;
    assert forall|i: int| 0 <= i < a.len() implies #[trigger] expr_printable(a[i]) by {
        let op = env.op_items@[node.target->0 as int];
        let args = op_arg_idents(op.params@);
        let ctor = IrMemberFnIdent {
            ir_ident: IrIdent { ident: bottom },
            selector: IrMemberFnSelector::Op(
                OpCtorIrMemberFnSelector { op_selector: OpSelector::User(UserOpSelector { op_ident: op.ident }) },
            ),
        };
        lemma_call_printable(
            a[i],
            FnIdent::OpCtorField(
                OpCtorFieldFnIdent {
                    param_var_ident: ParamVarIdent::User(UserParamVarIdent { ident: args[i] }),
                    op_ctor_ident: ctor,
                },
            ),
            seq![Expr::Var(VarIdent::Op)],
        );
    }
    lemma_args_all_printable(a);
    assert(call_printable(c));
    assert(stmt_printable(ss[3]));
    assert forall|i: int| 0 <= i < ss.len() implies #[trigger] stmt_printable(ss[i]) by {}
}

/// The entry point can be printed.
pub proof fn lemma_entry_point_printable(
    env: &FlatEnv,
    top: int,
    top_ir: int,
    bottom_ir: int,
    graph: FlowGraph,
    item: Item,
)
    requires
        entry_point_ok(env, top, top_ir, bottom_ir, graph, item),
    ensures
        item_printable(item),
{
    let op = env.op_items@[top];
    let top_ident = env.ir_items@[top_ir].ident;
    let bottom = env.ir_items@[bottom_ir].ident;
    let params = entry_params(env, op.params@);
    let labels = label_locals(op.params@);
    let n: int = labels.len() as int;
    let np: int = params.len() as int;
    let pre: int = labels.len() + 6int;
    let mid: int = pre + sum_counts(section_counts(graph));
    let b = item->Proc_0.body->0;
    let st = b.stmts@;
    let ss = st.take(pre);
    let pc = Expr::Var(pc_var_ident(bottom));
    assert(prelude_ok(env, top_ident, bottom, op.ident, params, labels, graph, ss));
    // the statements before the sections
    assert forall|k: int| 0 <= k < pre implies #[trigger] stmt_printable(st[k]) by {
        assert(ss[k] == st[k]);
        if k == 0 {
            let c = ss[0]->Call_0.call;
            lemma_call_printable(c.arg_exprs@[0], FnIdent::Prelude(PreludeFnIdent::ExitLabel), seq![]);
            assert forall|i: int| 0 <= i < c.arg_exprs@.len() implies #[trigger] expr_printable(c.arg_exprs@[i]) by {}
            lemma_args_all_printable(c.arg_exprs@);
            assert(call_printable(c));
        } else if k <= n {
            assert(ss[1 + (k - 1)] == ss[k]);
            lemma_call_printable(ss[k]->Assign_0.rhs, FnIdent::Prelude(PreludeFnIdent::ExitLabel), seq![]);
        } else if k == n + 1 {
            lemma_call_printable(ss[k]->Assign_0.rhs, FnIdent::Prelude(PreludeFnIdent::NilPc), seq![]);
        } else if k == n + 2 {
            let c = ss[k]->Call_0.call;
            let a = c.arg_exprs@;
            assert forall|i: int| 0 <= i < a.len() implies #[trigger] expr_printable(a[i]) by {
                if i < np {
                    assert(a.take(np)[i] == a[i]);
                    assert(var_exprs(params)[i] == Expr::Var(params[i].ident));
                } else if i < np + n {
                    assert(a.subrange(np, np + n)[i - np] == a[i]);
                    assert(var_exprs(labels)[i - np] == Expr::Var(labels[i - np].ident));
                } else {
                    lemma_call_printable(a[i], FnIdent::Prelude(PreludeFnIdent::NilPc), seq![]);
                }
            }
            lemma_args_all_printable(a);
            assert(call_printable(c));
        } else if k == n + 3 {
            let c = ss[k]->Call_0.call;
            let a = c.arg_exprs@;
            lemma_call_printable(
                a[0],
                ir_fn(bottom, IrMemberFnSelector::Op(OpCtorIrMemberFnSelector { op_selector: OpSelector::Exit })),
                seq![],
            );
            lemma_call_printable(a[1], FnIdent::Prelude(PreludeFnIdent::ExitPc), seq![]);
            assert forall|i: int| 0 <= i < a.len() implies #[trigger] expr_printable(a[i]) by {}
            lemma_args_all_printable(a);
            assert(call_printable(c));
        } else if k == n + 4 {
            let r = ss[k]->Assign_0.rhs;
            lemma_call_printable(r->Call_0.arg_exprs@[0], FnIdent::Prelude(PreludeFnIdent::NilPc), seq![]);
            lemma_call_printable(r, ir_fn(bottom, IrMemberFnSelector::NextPc), r->Call_0.arg_exprs@);
        }
    }
    // the sections
    let p = |s: Stmt| stmt_printable(s);
    assert forall|j: int, seg: Seq<Stmt>|
        0 <= j < section_counts(graph).len() && seg.len() == section_counts(graph)[j] && #[trigger] section_ok(
            env,
            bottom,
            graph,
        )(j, seg) implies all_ok(seg, p) by {
        if is_regular(graph, j) {
            lemma_op_section_printable(env, bottom, graph, j, seg);
        }
    }
    lemma_segments_all(st, pre, section_counts(graph), section_ok(env, bottom, graph), p);
    // the exit section
    lemma_assume_path_printable(st[mid + 1], pc, local_emit_indexes(graph.emit_nodes@[0].label_ident->0.segments@));
    assert forall|k: int| 0 <= k < st.len() implies #[trigger] stmt_printable(st[k]) by {
        if pre <= k < mid {
            assert(p(st[k]));
        }
    }
    lemma_stmts_all_printable(st);
}

} // verus!
