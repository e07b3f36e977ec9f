//! Emit statements in the bodies of compilers: each emits one op, at the
//! next local emit index under the current program counter.

use vstd::prelude::*;

use crate::bpl_code::{
    CallExpr, CallStmt, Expr, FnIdent, IrMemberFnSelector, Literal, OpCtorIrMemberFnSelector,
    ParamVarIdent, Stmt, VarIdent,
};
use crate::bpl_names::{OpSelector, PreludeFnIdent, UserFnIdent, UserOpSelector};
use crate::compiler::{appended, call, ir_fn, ir_fn_ident, is_call};
use crate::flat::FlatEnv;

verus! {

/// Whether `e` is the program counter of the emit at local index `index`:
/// `ConsPcEmitPath(pc, <index>)`.
pub open spec fn is_emit_pc(e: Expr, index: usize) -> bool {
    is_call(
        e,
        FnIdent::Prelude(PreludeFnIdent::ConsPcEmitPath),
        seq![Expr::Var(VarIdent::Param(ParamVarIdent::Pc)), Expr::Literal(Literal::Int(index))],
    )
}

/// Emitting op `op` of IR `ir` with the arguments `args` at local emit index
/// `index`: when the IR itself emits into another, a direct call of the
/// op's function with the arguments and the counter; otherwise a call of
/// the IR's emit procedure with the op built by its constructor and the
/// counter.
pub open spec fn emit_stmt_ok(env: &FlatEnv, ir: int, op: int, args: Seq<Expr>, index: usize, stmt: Stmt) -> bool {
    let ir_ident = env.ir_items@[ir].ident;
    let op_ident = env.op_items@[op].ident;
    match stmt {
        Stmt::Call(c) => c.ret_var_idents@.len() == 0 && if env.ir_items@[ir].emits is Some {
            &&& c.call.target == FnIdent::User(UserFnIdent { parent_ident: Some(ir_ident), fn_ident: op_ident })
            &&& c.call.arg_exprs@.len() == args.len() + 1
            &&& c.call.arg_exprs@.take(args.len() as int) == args
            &&& is_emit_pc(c.call.arg_exprs@.last(), index)
        } else {
            &&& c.call.target == ir_fn(ir_ident, IrMemberFnSelector::Emit)
            &&& c.call.arg_exprs@.len() == 2
            &&& is_call(
                c.call.arg_exprs@[0],
                ir_fn(
                    ir_ident,
                    IrMemberFnSelector::Op(
                        OpCtorIrMemberFnSelector {
                            op_selector: OpSelector::User(UserOpSelector { op_ident }),
                        },
                    ),
                ),
                args,
            )
            &&& is_emit_pc(c.call.arg_exprs@[1], index)
        },
        _ => false,
    }
}

/// Emitting an op into an IR that emits into no other builds the op with
/// the constructor that the op's declarations give it, when the op
/// interprets that IR.
pub proof fn law_emit_builds_with_the_declared_constructor(
    env: &FlatEnv,
    ir: usize,
    op: usize,
    args: Seq<Expr>,
    index: usize,
    stmt: Stmt,
    ctor_decl: crate::bpl_code::Item,
)
    requires
        op < env.op_items@.len(),
        env.op_items@[op as int].interprets == Some(ir),
        env.ir_items@[ir as int].emits is None,
        emit_stmt_ok(env, ir as int, op as int, args, index, stmt),
        crate::compiler::op_ctor_ok(env, env.op_items@[op as int], ctor_decl),
    ensures
        ctor_decl matches crate::bpl_code::Item::Fn(f) && (stmt matches Stmt::Call(c) && (
        c.call.arg_exprs@[0] matches Expr::Call(built) && built.target == f.ident
            && built.arg_exprs@ == args)),
{
}

/// The statements of a body being compiled, and the local emit index that
/// the next emit takes.
pub struct ScopedCompiler {
    pub stmts: Vec<Stmt>,
    pub next_local_emit_index: usize,
}

impl ScopedCompiler {
    /// A body with no statements yet, whose first emit takes index 0.
    pub fn new() -> (r: ScopedCompiler)
        ensures
            r.stmts@.len() == 0,
            r.next_local_emit_index == 0,
    {
        ScopedCompiler { stmts: Vec::new(), next_local_emit_index: 0 }
    }

    /// Compiles the emit of op `op` of IR `ir`, given its arguments already
    /// compiled, and moves on to the next local emit index.
    pub fn compile_emit_stmt(&mut self, env: &FlatEnv, ir: usize, op: usize, arg_exprs: Vec<Expr>)
        requires
            ir < env.ir_items@.len(),
            op < env.op_items@.len(),
            old(self).next_local_emit_index < usize::MAX,
        ensures
            appended(old(self).stmts@, final(self).stmts@, 1),
            emit_stmt_ok(
                env,
                ir as int,
                op as int,
                arg_exprs@,
                old(self).next_local_emit_index,
                final(self).stmts@.last(),
            ),
            final(self).next_local_emit_index == old(self).next_local_emit_index + 1,
    {
        let ir_ident = &env.ir_items[ir].ident;
        let op_ident = &env.op_items[op].ident;
        let index = self.next_local_emit_index;
        self.next_local_emit_index = index + 1;
        let mut pc_args: Vec<Expr> = Vec::new();
        pc_args.push(Expr::Var(VarIdent::Param(ParamVarIdent::Pc)));
        pc_args.push(Expr::Literal(Literal::Int(index)));
        assert(pc_args@ =~= seq![
            Expr::Var(VarIdent::Param(ParamVarIdent::Pc)),
            Expr::Literal(Literal::Int(index)),
        ]);
        let pc_expr = call(FnIdent::Prelude(PreludeFnIdent::ConsPcEmitPath), pc_args);
        let ghost args = arg_exprs@;
        let stmt = if env.ir_items[ir].emits.is_some() {
            let mut op_args = arg_exprs;
            op_args.push(pc_expr);
            assert(op_args@.take(args.len() as int) =~= args);
            Stmt::Call(
                CallStmt::from_call(
                    CallExpr {
                        target: FnIdent::User(
                            UserFnIdent { parent_ident: Some(ir_ident.clone()), fn_ident: op_ident.clone() },
                        ),
                        arg_exprs: op_args,
                    },
                ),
            )
        } else {
            let ctor = call(
                ir_fn_ident(
                    ir_ident,
                    IrMemberFnSelector::Op(
                        OpCtorIrMemberFnSelector {
                            op_selector: OpSelector::User(UserOpSelector { op_ident: op_ident.clone() }),
                        },
                    ),
                ),
                arg_exprs,
            );
            let mut emit_args: Vec<Expr> = Vec::new();
            emit_args.push(ctor);
            emit_args.push(pc_expr);
            Stmt::Call(
                CallStmt::from_call(
                    CallExpr { target: ir_fn_ident(ir_ident, IrMemberFnSelector::Emit), arg_exprs: emit_args },
                ),
            )
        };
        self.stmts.push(stmt);
    }
}

} // verus!
