use cachet::cpp::{compile_var_access as cpp_access, CppExpr, CppFnPath, ExprTag, Scope};
use cachet::flat::{FlatLocalVar, FlatVarParam};
use cachet::bpl_code::{
    Body, Expr, FnIdent, IrMemberFnSelector, Item, Literal as BplLiteral, ParamVarIdent, Stmt, Type,
    TypeIdent, TypeMemberFnSelector, VarIdent,
};
use cachet::bpl_names::{
    EmitLabelIdent, EmitLabelSegment, EmitLabelSegmentIdent, EmitOpLabelSegment, FnAttr, IrIdent,
    OpSelector, PreludeFnIdent, PreludeTypeIdent, ProcAttr, TypeAttr, UserOpSelector,
};
use cachet::emit_stmt::ScopedCompiler;
use cachet::flow::{EmitNode, FlowGraph, FlowTracer, LabelNode};
use cachet::invoke_trace::{FlatArg, InvokeExprModel};
use cachet::bpl_print::BplCode;
use cachet::compiler::{
    compile, compile_literal, compile_params, compile_var_access, find_bottom_ir, Compiler,
};
use cachet::flat::{
    FlatBuiltInVar, FlatCallableItem, FlatEnumItem, FlatEnv, FlatField, FlatGlobalVarItem,
    FlatIrItem, FlatParam, FlatStructItem, FlatTypeIndex, FlatValue, FlatVarIndex,
};
use cachet::ident::Ident;
use cachet::syntax::{Literal, VarParamKind};

fn id(s: &str) -> Ident {
    Ident::from_str(s)
}

fn user_type_name(t: &Type) -> String {
    match t {
        Type::Ident(TypeIdent::User(u)) => u.ident.to_string(),
        _ => panic!("not a user type"),
    }
}

fn env() -> FlatEnv {
    FlatEnv {
        enum_items: vec![
            FlatEnumItem { ident: id("Color"), variants: vec![id("Red"), id("Blue")] },
            FlatEnumItem { ident: id("ValueReg"), variants: vec![id("X")] },
        ],
        struct_items: vec![
            FlatStructItem {
                ident: id("Leaf"),
                supertype: Some(FlatTypeIndex::Struct(1)),
                fields: vec![
                    FlatField::Var { ident: id("color"), type_: FlatTypeIndex::Enum(0) },
                    FlatField::Label { ident: id("done") },
                ],
            },
            FlatStructItem {
                ident: id("Mid"),
                supertype: Some(FlatTypeIndex::Struct(2)),
                fields: vec![],
            },
            FlatStructItem { ident: id("Root"), supertype: None, fields: vec![] },
        ],
        ir_items: vec![
            FlatIrItem { ident: id("MASM"), emits: None },
            FlatIrItem { ident: id("CacheIR"), emits: Some(0) },
        ],
        global_var_items: vec![
            FlatGlobalVarItem {
                parent_ident: None,
                ident: id("limit"),
                type_: FlatTypeIndex::BuiltIn(id("UInt8")),
                value: Some(FlatValue::Literal(Literal::UInt8(7))),
                is_mut: false,
                is_prelude: false,
            },
            FlatGlobalVarItem {
                parent_ident: Some(id("Color")),
                ident: id("count"),
                type_: FlatTypeIndex::BuiltIn(id("Int32")),
                value: None,
                is_mut: true,
                is_prelude: false,
            },
            FlatGlobalVarItem {
                parent_ident: None,
                ident: id("fixed"),
                type_: FlatTypeIndex::Enum(0),
                value: None,
                is_mut: false,
                is_prelude: false,
            },
            FlatGlobalVarItem {
                parent_ident: None,
                ident: id("preluded"),
                type_: FlatTypeIndex::Enum(0),
                value: None,
                is_mut: false,
                is_prelude: true,
            },
        ],
        fn_items: vec![FlatCallableItem {
            parents: vec![id("Color")],
            ident: id("mix"),
            is_op: false,
            parent_ir: None,
            params: vec![FlatParam::Var {
                ident: id("a"),
                type_: FlatTypeIndex::Enum(0),
                kind: VarParamKind::In,
            }],
            ret: Some(FlatTypeIndex::Enum(0)),
            emits: false,
            interprets: None,
            is_inline: true,
            is_prelude: false,
            has_body: false,
        }],
        op_items: vec![],
    }
}

fn external_op() -> FlatCallableItem {
    FlatCallableItem {
        parents: vec![id("MASM")],
        ident: id("load"),
        is_op: true,
        parent_ir: Some(0),
        params: vec![
            FlatParam::Var { ident: id("dst"), type_: FlatTypeIndex::Enum(0), kind: VarParamKind::Out },
            FlatParam::Var { ident: id("src"), type_: FlatTypeIndex::Struct(2), kind: VarParamKind::In },
            FlatParam::Label { ident: id("next"), ir: 0, is_out: true },
        ],
        ret: Some(FlatTypeIndex::Struct(2)),
        emits: true,
        interprets: Some(0),
        is_inline: false,
        is_prelude: false,
        has_body: false,
    }
}

#[test]
fn literals_keep_their_bits() {
    assert!(matches!(compile_literal(Literal::Int8(-1)), BplLiteral::Bv8(255)));
    assert!(matches!(compile_literal(Literal::Int16(-2)), BplLiteral::Bv16(65534)));
    assert!(matches!(compile_literal(Literal::UInt32(9)), BplLiteral::Bv32(9)));
    assert!(matches!(compile_literal(Literal::Int64(5)), BplLiteral::Bv64(5)));
}

#[test]
fn enum_compiles_to_data_type_and_ctors() {
    let e = env();
    let mut c = Compiler::new();
    c.compile_enum_item(&e.enum_items[0]);
    assert_eq!(c.items.len(), 3);
    match &c.items[0] {
        Item::Type(t) => assert_eq!(t.to_string(), "type {:datatype} #Color;"),
        _ => panic!("expected a type"),
    }
    match &c.items[2] {
        Item::Fn(f) => {
            assert!(matches!(f.attr, Some(FnAttr::Ctor)));
            assert!(f.param_vars.vars.is_empty());
            assert!(f.value.is_none());
            assert_eq!(user_type_name(&f.ret), "Color");
            match &f.ident {
                FnIdent::TypeMember(m) => match &m.selector {
                    TypeMemberFnSelector::Variant(v) => assert_eq!(v.variant_ident.to_string(), "Blue"),
                    _ => panic!("expected a variant constructor"),
                },
                _ => panic!("expected a type member"),
            }
        },
        _ => panic!("expected a function"),
    }
    // an enumeration implemented by hand declares nothing
    c.compile_enum_item(&e.enum_items[1]);
    assert_eq!(c.items.len(), 3);
}

#[test]
fn struct_aliases_its_root_and_declares_field_accessors() {
    let e = env();
    let mut c = Compiler::new();
    c.compile_struct_item(&e, 0);
    assert_eq!(c.items.len(), 3);
    match &c.items[0] {
        Item::Type(t) => assert_eq!(t.to_string(), "type #Leaf = #Root;"),
        _ => panic!("expected a type"),
    }
    match &c.items[1] {
        Item::Fn(f) => {
            assert!(f.attr.is_none());
            assert_eq!(user_type_name(&f.ret), "Color");
            assert_eq!(f.param_vars.vars.len(), 1);
            assert!(matches!(f.param_vars.vars[0].ident, VarIdent::Param(ParamVarIdent::Instance)));
            assert!(f.value.is_none());
        },
        _ => panic!("expected a function"),
    }
    match &c.items[2] {
        Item::Fn(f) => {
            assert!(matches!(f.attr, Some(FnAttr::Inline)));
            assert!(matches!(f.ret, Type::Ident(TypeIdent::Prelude(PreludeTypeIdent::Label))));
            match &f.value {
                Some(Expr::Call(call)) => {
                    assert!(matches!(call.target, FnIdent::Prelude(PreludeFnIdent::ExitLabel)));
                    assert!(call.arg_exprs.is_empty());
                },
                _ => panic!("expected a call of the exit label"),
            }
        },
        _ => panic!("expected a function"),
    }
    let mut c = Compiler::new();
    c.compile_struct_item(&e, 2);
    assert_eq!(c.items.len(), 1);
    match &c.items[0] {
        Item::Type(t) => assert_eq!(t.to_string(), "type #Root;"),
        _ => panic!("expected a type"),
    }
}

#[test]
fn ir_declares_its_op_infrastructure() {
    let e = env();
    let mut c = Compiler::new();
    c.compile_ir_item(&e.ir_items[1]);
    assert_eq!(c.items.len(), 0);
    c.compile_ir_item(&e.ir_items[0]);
    assert_eq!(c.items.len(), 11);
    match &c.items[0] {
        Item::Type(t) => assert!(matches!(t.attr, Some(TypeAttr::DataType))),
        _ => panic!("expected the op type"),
    }
    match &c.items[2] {
        Item::GlobalVar(g) => assert_eq!(g.to_string(), "var #MASM^pc: Pc;"),
        _ => panic!("expected the program counter"),
    }
    let expected: [(usize, fn(&IrMemberFnSelector) -> bool, usize); 5] = [
        (5, |s| matches!(s, IrMemberFnSelector::Step), 1),
        (6, |s| matches!(s, IrMemberFnSelector::Emit), 3),
        (8, |s| matches!(s, IrMemberFnSelector::Bind), 1),
        (9, |s| matches!(s, IrMemberFnSelector::BindExit), 1),
        (10, |s| matches!(s, IrMemberFnSelector::Goto), 1),
    ];
    for (k, is_sel, n) in expected {
        match &c.items[k] {
            Item::Proc(p) => {
                match &p.ident {
                    FnIdent::IrMember(m) => assert!(is_sel(&m.selector)),
                    _ => panic!("expected an IR member"),
                }
                assert_eq!(p.body.as_ref().unwrap().stmts.len(), n);
                assert!(p.ret_vars.vars.is_empty());
            },
            _ => panic!("expected a procedure"),
        }
    }
    match &c.items[6] {
        Item::Proc(p) => {
            assert!(p.attr.is_none());
            assert_eq!(p.param_vars.vars.len(), 2);
            assert!(matches!(p.body.as_ref().unwrap().stmts[2], Stmt::Assign(_)));
        },
        _ => panic!("expected the emit procedure"),
    }
    match &c.items[5] {
        Item::Proc(p) => assert!(matches!(p.attr, Some(ProcAttr::Inline(a)) if a.depth == 1)),
        _ => panic!("expected the step procedure"),
    }
}

#[test]
fn global_vars_compile_by_value_and_mutability() {
    let e = env();
    let mut c = Compiler::new();
    c.compile_global_var_item(&e, 0);
    c.compile_global_var_item(&e, 1);
    c.compile_global_var_item(&e, 2);
    c.compile_global_var_item(&e, 3);
    assert_eq!(c.items.len(), 3);
    match &c.items[0] {
        Item::Fn(f) => {
            assert!(matches!(f.attr, Some(FnAttr::Inline)));
            assert!(f.param_vars.vars.is_empty());
            assert_eq!(user_type_name(&f.ret), "UInt8");
            assert_eq!(f.value.as_ref().unwrap().to_string(), "7bv8");
        },
        _ => panic!("expected an inline function"),
    }
    match &c.items[1] {
        Item::GlobalVar(g) => assert_eq!(g.to_string(), "var #Color~count: #Int32;"),
        _ => panic!("expected a variable"),
    }
    match &c.items[2] {
        Item::Const(k) => assert_eq!(k.to_string(), "const #fixed: #Color;"),
        _ => panic!("expected a constant"),
    }
}

#[test]
fn var_access_by_kind() {
    let e = env();
    let params = vec![id("p0"), id("p1")];
    let locals = vec![id("tmp")];
    let t = compile_var_access(&e, &params, &locals, &FlatVarIndex::BuiltIn(FlatBuiltInVar::True));
    assert_eq!(t.to_string(), "true");
    let f = compile_var_access(&e, &params, &locals, &FlatVarIndex::BuiltIn(FlatBuiltInVar::False));
    assert_eq!(f.to_string(), "false");
    let n = compile_var_access(
        &e,
        &params,
        &locals,
        &FlatVarIndex::BuiltIn(FlatBuiltInVar::Named { ident: id("undef"), type_: FlatTypeIndex::BuiltIn(id("Bool")) }),
    );
    assert_eq!(n.to_string(), "#undef");
    let g = compile_var_access(&e, &params, &locals, &FlatVarIndex::Global(1));
    assert_eq!(g.to_string(), "#Color~count");
    let l = compile_var_access(&e, &params, &locals, &FlatVarIndex::Local(0));
    assert_eq!(l.to_string(), "$tmp'v0");
    match compile_var_access(&e, &params, &locals, &FlatVarIndex::Param(1)) {
        Expr::Var(VarIdent::Param(ParamVarIdent::User(u))) => assert_eq!(u.ident.to_string(), "p1"),
        _ => panic!("expected a parameter"),
    }
    match compile_var_access(&e, &params, &locals, &FlatVarIndex::Global(0)) {
        Expr::Call(call) => {
            assert!(call.arg_exprs.is_empty());
            match &call.target {
                FnIdent::User(u) => {
                    assert!(u.parent_ident.is_none());
                    assert_eq!(u.fn_ident.to_string(), "limit");
                },
                _ => panic!("expected the constant's function"),
            }
        },
        _ => panic!("expected a call"),
    }
    match compile_var_access(
        &e,
        &params,
        &locals,
        &FlatVarIndex::EnumVariant { enum_index: 0, variant_index: 1 },
    ) {
        Expr::Call(call) => match &call.target {
            FnIdent::TypeMember(m) => {
                assert_eq!(m.type_ident.ident.to_string(), "Color");
                match &m.selector {
                    TypeMemberFnSelector::Variant(v) => assert_eq!(v.variant_ident.to_string(), "Blue"),
                    _ => panic!("expected a variant"),
                }
            },
            _ => panic!("expected a constructor"),
        },
        _ => panic!("expected a call"),
    }
}

#[test]
fn params_split_out_vars_from_the_rest() {
    let e = env();
    let op = external_op();
    let (params, rets) = compile_params(&e, &op.params);
    assert_eq!(params.len(), 2);
    assert_eq!(rets.len(), 1);
    assert!(matches!(params[1].type_, Type::Ident(TypeIdent::Prelude(PreludeTypeIdent::Label))));
    assert_eq!(user_type_name(&params[0].type_), "Root");
    assert_eq!(user_type_name(&rets[0].type_), "Color");
}

#[test]
fn function_without_body_or_out_params_is_a_boogie_function() {
    let e = env();
    let mut c = Compiler::new();
    c.compile_callable_item(&e, &e.fn_items[0], None);
    assert_eq!(c.items.len(), 1);
    match &c.items[0] {
        Item::Fn(f) => {
            assert!(matches!(f.attr, Some(FnAttr::Inline)));
            assert_eq!(f.param_vars.vars.len(), 1);
            assert_eq!(user_type_name(&f.ret), "Color");
            match &f.ident {
                FnIdent::User(u) => {
                    assert_eq!(u.parent_ident.as_ref().unwrap().to_string(), "Color");
                    assert_eq!(u.fn_ident.to_string(), "mix");
                },
                _ => panic!("expected a user function"),
            }
        },
        _ => panic!("expected a function"),
    }
}

#[test]
fn external_op_gets_ctor_helpers_and_binding_body() {
    let e = env();
    let op = external_op();
    let mut c = Compiler::new();
    c.compile_callable_item(&e, &op, None);
    // constructor, one helper per return variable (dst and ret), procedure
    assert_eq!(c.items.len(), 4);
    match &c.items[0] {
        Item::Fn(f) => {
            assert!(matches!(f.attr, Some(FnAttr::Ctor)));
            // the constructor takes the op's own parameters, without pc
            assert_eq!(f.param_vars.vars.len(), 2);
        },
        _ => panic!("expected the op constructor"),
    }
    for k in 1..3 {
        match &c.items[k] {
            Item::Fn(f) => {
                assert!(matches!(f.ident, FnIdent::ExternalUserFnHelper(_)));
                assert_eq!(f.param_vars.vars.len(), 3);
            },
            _ => panic!("expected a helper function"),
        }
    }
    match &c.items[3] {
        Item::Proc(p) => {
            assert!(matches!(p.attr, Some(ProcAttr::Inline(a)) if a.depth == 1));
            assert_eq!(p.param_vars.vars.len(), 3);
            assert!(matches!(p.param_vars.vars[2].ident, VarIdent::Param(ParamVarIdent::Pc)));
            assert_eq!(p.ret_vars.vars.len(), 2);
            assert!(matches!(p.ret_vars.vars[1].ident, VarIdent::Ret));
            let stmts = &p.body.as_ref().unwrap().stmts;
            assert_eq!(stmts.len(), 3);
            assert!(matches!(stmts[0], Stmt::Assign(_)));
            assert!(matches!(stmts[1], Stmt::Assign(_)));
            match &stmts[2] {
                Stmt::Call(call) => match &call.call.target {
                    FnIdent::IrMember(m) => assert!(matches!(m.selector, IrMemberFnSelector::BindExit)),
                    _ => panic!("expected the exit binding"),
                },
                _ => panic!("expected a call"),
            }
        },
        _ => panic!("expected the procedure"),
    }
}

#[test]
fn callable_with_body_keeps_it() {
    let e = env();
    let mut op = external_op();
    op.has_body = true;
    op.interprets = None;
    let body = Body { local_vars: vec![], stmts: vec![Stmt::Ret] };
    let mut c = Compiler::new();
    c.compile_callable_item(&e, &op, Some(body));
    assert_eq!(c.items.len(), 1);
    match &c.items[0] {
        Item::Proc(p) => {
            assert!(p.attr.is_none());
            let stmts = &p.body.as_ref().unwrap().stmts;
            assert_eq!(stmts.len(), 1);
            assert!(matches!(stmts[0], Stmt::Ret));
        },
        _ => panic!("expected a procedure"),
    }
}

#[test]
fn whole_program_in_order() {
    let e = env();
    let code = compile(&e, vec![None], vec![], None);
    // 3 for the enumeration, 3 + 1 + 1 for the structures, 11 for the IR,
    // 3 for the global variables, 1 for the function
    assert_eq!(code.code.items.len(), 3 + 5 + 11 + 3 + 1);
    assert!(matches!(code.code.items[0], Item::Type(_)));
    assert!(matches!(code.code.items[3], Item::Type(_)));
    assert!(matches!(code.code.items[21], Item::Const(_)));
    assert!(matches!(code.code.items[22], Item::Fn(_)));
}

fn op_label(index: usize) -> EmitLabelIdent {
    EmitLabelIdent {
        segments: vec![EmitLabelSegment {
            local_emit_index: index,
            ident: EmitLabelSegmentIdent::Op(EmitOpLabelSegment {
                ir_ident: IrIdent { ident: id("MASM") },
                op_selector: OpSelector::User(UserOpSelector { op_ident: id("load") }),
            }),
        }],
    }
}

// exit node 0, entry node 1 jumping to op node 2, which jumps to the exit
fn graph() -> FlowGraph {
    let mut g = FlowGraph::new();
    g.emit_nodes.push(EmitNode::new(Some(EmitLabelIdent::exit()), None));
    let mut entry = EmitNode::new(None, None);
    entry.succ_emits.insert(2);
    g.emit_nodes.push(entry);
    let mut op = EmitNode::new(Some(op_label(0)), Some(0));
    op.succ_emits.insert(0);
    g.emit_nodes.push(op);
    g.label_nodes.push(LabelNode::new());
    g
}

#[test]
fn bottom_ir_follows_emits() {
    let e = env();
    assert_eq!(find_bottom_ir(&e, 1), 0);
    assert_eq!(find_bottom_ir(&e, 0), 0);
}

#[test]
fn entry_point_emits_then_interprets() {
    let mut e = env();
    e.op_items.push(external_op());
    let g = graph();
    let mut c = Compiler::new();
    c.compile_entry_point(&e, 0, 0, 0, &g);
    assert_eq!(c.items.len(), 1);
    match &c.items[0] {
        Item::Proc(p) => {
            assert!(matches!(p.attr, Some(ProcAttr::EntryPoint)));
            match &p.ident {
                FnIdent::EntryPoint(ep) => {
                    assert_eq!(ep.ir_ident.ident.to_string(), "MASM");
                    assert_eq!(ep.user_op_selector.op_ident.to_string(), "load");
                },
                _ => panic!("expected the entry point"),
            }
            // only the variable passed in
            assert_eq!(p.param_vars.vars.len(), 1);
            assert!(p.ret_vars.vars.is_empty());
            let body = p.body.as_ref().unwrap();
            // the label local, then the op
            assert_eq!(body.local_vars.len(), 2);
            assert!(matches!(body.local_vars[1].var.ident, VarIdent::Op));
            // prelude: 1 + 1 label + 5; one op section of 5; exit section of 2
            assert_eq!(body.stmts.len(), 7 + 5 + 2);
            assert!(matches!(body.stmts[0], Stmt::Call(_)));
            assert!(matches!(body.stmts[1], Stmt::Assign(_)));
            match &body.stmts[3] {
                Stmt::Call(call) => {
                    // the variable parameter, the label local and NilPc()
                    assert_eq!(call.call.arg_exprs.len(), 3);
                    assert_eq!(call.call.arg_exprs[2].to_string(), "NilPc()");
                },
                _ => panic!("expected the call of the top-level op"),
            }
            assert!(matches!(body.stmts[6], Stmt::Goto(_)));
            assert!(matches!(body.stmts[7], Stmt::Label(_)));
            assert!(matches!(body.stmts[8], Stmt::Check(_)));
            assert!(matches!(body.stmts[9], Stmt::Assign(_)));
            match &body.stmts[10] {
                // the op's variable passed in and its label
                Stmt::Call(call) => assert_eq!(call.call.arg_exprs.len(), 2),
                _ => panic!("expected the call of the op"),
            }
            assert!(matches!(body.stmts[11], Stmt::Goto(_)));
            assert!(matches!(body.stmts[12], Stmt::Label(_)));
            assert!(matches!(body.stmts[13], Stmt::Check(_)));
        },
        _ => panic!("expected a procedure"),
    }
}

#[test]
fn whole_program_with_entry_point() {
    let mut e = env();
    e.op_items.push(external_op());
    let code = compile(&e, vec![None], vec![None], Some(graph()));
    // 23 as without ops, 4 for the op, 1 for the entry point
    assert_eq!(code.code.items.len(), 23 + 4 + 1);
    match &code.code.items[27] {
        Item::Proc(p) => assert!(matches!(p.attr, Some(ProcAttr::EntryPoint))),
        _ => panic!("expected the entry point last"),
    }
}

#[test]
fn emits_build_ops_or_call_down_the_chain() {
    let mut e = env();
    e.op_items.push(external_op());
    let mut sc = ScopedCompiler::new();
    // MASM emits into no other IR: the op is built and emitted
    sc.compile_emit_stmt(&e, 0, 0, vec![Expr::Literal(BplLiteral::Bv8(3))]);
    assert_eq!(sc.next_local_emit_index, 1);
    match &sc.stmts[0] {
        Stmt::Call(c) => {
            match &c.call.target {
                FnIdent::IrMember(m) => assert!(matches!(m.selector, IrMemberFnSelector::Emit)),
                _ => panic!("expected the emit procedure"),
            }
            assert_eq!(c.call.arg_exprs.len(), 2);
            assert_eq!(c.call.arg_exprs[1].to_string(), "ConsPcEmitPath(pc, 0)");
            match &c.call.arg_exprs[0] {
                Expr::Call(ctor) => {
                    assert_eq!(ctor.arg_exprs.len(), 1);
                    assert_eq!(ctor.arg_exprs[0].to_string(), "3bv8");
                },
                _ => panic!("expected the op constructor"),
            }
        },
        _ => panic!("expected a call"),
    }
    // CacheIR emits into MASM: the op's function is called directly
    sc.compile_emit_stmt(&e, 1, 0, vec![Expr::Literal(BplLiteral::Bv8(4))]);
    assert_eq!(sc.next_local_emit_index, 2);
    match &sc.stmts[1] {
        Stmt::Call(c) => {
            match &c.call.target {
                FnIdent::User(u) => {
                    assert_eq!(u.parent_ident.as_ref().unwrap().to_string(), "CacheIR");
                    assert_eq!(u.fn_ident.to_string(), "load");
                },
                _ => panic!("expected the op's function"),
            }
            assert_eq!(c.call.arg_exprs.len(), 2);
            assert_eq!(c.call.arg_exprs[0].to_string(), "4bv8");
            assert_eq!(c.call.arg_exprs[1].to_string(), "ConsPcEmitPath(pc, 1)");
        },
        _ => panic!("expected a call"),
    }
}

#[test]
fn invocations_bind_labels_or_name_the_trace_inside() {
    let mut e = env();
    let mut t = FlowTracer::new();
    t.insert_exit_emit_node();
    let node = t.insert_label_node(7);
    let inv = InvokeExprModel {
        target: 0,
        args: vec![FlatArg::Label { label: 7, ir: 0, is_out: true }, FlatArg::Other],
    };
    // an external function binds the labels passed out to the exit
    let r = t.trace_invoke_expr(&e, 0, &EmitLabelIdent::exit(), &inv);
    assert!(r.is_none());
    assert!(t.graph.label_nodes[node].bound_to.contains(&0));
    assert_eq!(t.next_local_emit_index, 0);
    // a function that emits is traced under a new step for it
    e.fn_items[0].has_body = true;
    e.fn_items[0].emits = true;
    let inside = t.trace_invoke_expr(&e, 0, &EmitLabelIdent::exit(), &inv).unwrap();
    assert_eq!(inside.segments.len(), 1);
    assert_eq!(inside.segments[0].local_emit_index, 0);
    assert_eq!(t.next_local_emit_index, 1);
    // one that only binds labels is traced under the current label
    e.fn_items[0].emits = false;
    let same = t.trace_invoke_expr(&e, 0, &inside, &inv).unwrap();
    assert_eq!(same.segments.len(), 1);
    assert_eq!(t.next_local_emit_index, 1);
    // one that does neither for the bottom IR does not matter
    let other_ir = InvokeExprModel {
        target: 0,
        args: vec![FlatArg::Label { label: 7, ir: 1, is_out: true }],
    };
    assert!(t.trace_invoke_expr(&e, 0, &inside, &other_ir).is_none());
}

#[test]
fn prelude_and_hand_written_callables_declare_nothing() {
    let e = env();
    let mut c = Compiler::new();
    let mut prelude_fn = external_op();
    prelude_fn.is_prelude = true;
    c.compile_callable_item(&e, &prelude_fn, None);
    assert_eq!(c.items.len(), 0);
    let mut by_hand = external_op();
    by_hand.parents = vec![];
    by_hand.ident = id("initRegState");
    c.compile_callable_item(&e, &by_hand, None);
    assert_eq!(c.items.len(), 0);
    let mut blocked_struct_env = env();
    blocked_struct_env.struct_items[2].ident = id("ValueReg");
    c.compile_struct_item(&blocked_struct_env, 2);
    assert_eq!(c.items.len(), 0);
}

#[test]
fn reads_name_what_was_declared() {
    let e = env();
    let mut c = Compiler::new();
    c.compile_global_var_item(&e, 0);
    c.compile_global_var_item(&e, 1);
    c.compile_enum_item(&e.enum_items[0]);
    let no_idents: Vec<Ident> = vec![];
    // the constant with a value: its inline function, called
    match (&c.items[0], compile_var_access(&e, &no_idents, &no_idents, &FlatVarIndex::Global(0))) {
        (Item::Fn(f), Expr::Call(call)) => match (&f.ident, &call.target) {
            (FnIdent::User(a), FnIdent::User(b)) => {
                assert!(a.fn_ident == b.fn_ident);
                assert!(a.parent_ident.is_none() && b.parent_ident.is_none());
            },
            _ => panic!("expected user functions"),
        },
        _ => panic!("expected a function and a call"),
    }
    // the variable: its declaration, named
    match &c.items[1] {
        Item::GlobalVar(g) => {
            let read = compile_var_access(&e, &no_idents, &no_idents, &FlatVarIndex::Global(1));
            assert_eq!(read.to_string(), "#Color~count");
            assert_eq!(g.to_string(), "var #Color~count: #Int32;");
        },
        _ => panic!("expected a variable"),
    }
    // the variant Blue: the second constructor
    match (
        &c.items[4],
        compile_var_access(
            &e,
            &no_idents,
            &no_idents,
            &FlatVarIndex::EnumVariant { enum_index: 0, variant_index: 1 },
        ),
    ) {
        (Item::Fn(f), Expr::Call(call)) => match (&f.ident, &call.target) {
            (FnIdent::TypeMember(a), FnIdent::TypeMember(b)) => {
                assert!(a.type_ident.ident == b.type_ident.ident);
                match (&a.selector, &b.selector) {
                    (TypeMemberFnSelector::Variant(x), TypeMemberFnSelector::Variant(y)) => {
                        assert!(x.variant_ident == y.variant_ident);
                        assert_eq!(x.variant_ident.to_string(), "Blue");
                    },
                    _ => panic!("expected variant constructors"),
                }
            },
            _ => panic!("expected type members"),
        },
        _ => panic!("expected a constructor and a call"),
    }
}

#[test]
fn emitted_op_is_built_by_its_declared_constructor() {
    let mut e = env();
    e.op_items.push(external_op());
    let mut c = Compiler::new();
    c.compile_callable_item(&e, &e.op_items[0], None);
    let mut sc = ScopedCompiler::new();
    sc.compile_emit_stmt(&e, 0, 0, vec![]);
    match (&c.items[0], &sc.stmts[0]) {
        (Item::Fn(ctor), Stmt::Call(call)) => match (&call.call.arg_exprs[0], &ctor.ident) {
            (Expr::Call(built), FnIdent::IrMember(declared)) => match &built.target {
                FnIdent::IrMember(used) => {
                    assert!(used.ir_ident.ident == declared.ir_ident.ident);
                    match (&used.selector, &declared.selector) {
                        (IrMemberFnSelector::Op(u), IrMemberFnSelector::Op(d)) => {
                            match (&u.op_selector, &d.op_selector) {
                                (OpSelector::User(x), OpSelector::User(y)) => {
                                    assert!(x.op_ident == y.op_ident)
                                },
                                _ => panic!("expected user ops"),
                            }
                        },
                        _ => panic!("expected op constructors"),
                    }
                },
                _ => panic!("expected an IR member"),
            },
            _ => panic!("expected the built op"),
        },
        _ => panic!("expected the constructor and the emit"),
    }
}

#[test]
fn printed_program_is_prelude_then_items_apart() {
    let e = env();
    let mut c = Compiler::new();
    c.compile_enum_item(&e.enum_items[0]);
    let program = BplCode { code: cachet::bpl_code::Code { items: c.items } };
    assert_eq!(
        program.to_string("// prelude"),
        "// prelude\n\ntype {:datatype} #Color;\n\n\
         function {:constructor} #Color^Variant~Red(): #Color;\n\n\
         function {:constructor} #Color^Variant~Blue(): #Color;"
    );
}

#[test]
fn printed_procedures_and_inline_functions() {
    let e = env();
    let mut c = Compiler::new();
    c.compile_ir_item(&e.ir_items[0]);
    c.compile_struct_item(&e, 0);
    let code = cachet::bpl_code::Code { items: c.items };
    let text = code.to_string();
    assert!(text.contains(
        "procedure {:inline 1} #MASM^step()\n{\n  #MASM^pc := #MASM^nextPc(#MASM^pc);\n}"
    ));
    assert!(text.contains("function {:inline} #Leaf^field~done(instance: #Leaf): Label {\n  ExitLabel()\n}"));
}

#[test]
fn printed_body_indents_each_line() {
    let body = Body {
        local_vars: vec![cachet::bpl_code::LocalVar {
            var: cachet::bpl_code::TypedVar { ident: VarIdent::Op, type_: Type::Ident(TypeIdent::Prelude(PreludeTypeIdent::Pc)) },
        }],
        stmts: vec![Stmt::If(cachet::bpl_code::IfStmt {
            cond: Expr::Literal(BplLiteral::Bool(true)),
            then_block: cachet::bpl_code::Block { stmts: vec![Stmt::Ret] },
            else_: None,
        })],
    };
    let mut s = String::new();
    cachet::bpl_print::push_body(&body, &mut s);
    assert_eq!(s, "{\n  var op: Pc;\n  \n  if (true) {\n    return;\n  }\n}");
}

#[test]
fn cpp_var_access_by_kind() {
    let e = env();
    let params = vec![
        FlatVarParam { ident: id("a"), type_: FlatTypeIndex::Enum(0), kind: VarParamKind::Mut },
        FlatVarParam { ident: id("b"), type_: FlatTypeIndex::Struct(2), kind: VarParamKind::Out },
    ];
    let locals = vec![FlatLocalVar { ident: id("tmp"), type_: FlatTypeIndex::BuiltIn(id("Int32")) }];
    let scope = Scope::for_callable(&params, Some(&locals));
    let t = cpp_access(&e, &scope, &FlatVarIndex::BuiltIn(FlatBuiltInVar::True));
    assert!(t.tag == ExprTag::Ref);
    match &t.expr {
        CppExpr::Call { target: CppFnPath::GlobalVar { parent: None, ident }, args } => {
            assert_eq!(ident.to_string(), "true");
            assert!(matches!(args[..], [CppExpr::ContextArg]));
        },
        _ => panic!("expected the accessor call"),
    }
    let g = cpp_access(&e, &scope, &FlatVarIndex::Global(1));
    assert!(g.tag == ExprTag::MutRef);
    assert!(matches!(g.type_, FlatTypeIndex::BuiltIn(_)));
    let g = cpp_access(&e, &scope, &FlatVarIndex::Global(2));
    assert!(g.tag == ExprTag::Ref);
    let v = cpp_access(&e, &scope, &FlatVarIndex::EnumVariant { enum_index: 0, variant_index: 1 });
    assert!(matches!(v.type_, FlatTypeIndex::Enum(0)));
    match &v.expr {
        CppExpr::Call { target: CppFnPath::Variant { parent, ident }, .. } => {
            assert_eq!(parent.to_string(), "Color");
            assert_eq!(ident.to_string(), "Blue");
        },
        _ => panic!("expected the constructor call"),
    }
    let p = cpp_access(&e, &scope, &FlatVarIndex::Param(0));
    assert!(p.tag == ExprTag::Local);
    let p = cpp_access(&e, &scope, &FlatVarIndex::Param(1));
    assert!(p.tag == ExprTag::MutRef);
    assert!(matches!(p.type_, FlatTypeIndex::Struct(2)));
    match cpp_access(&e, &scope, &FlatVarIndex::Local(0)) {
        r => {
            assert!(r.tag == ExprTag::Local);
            assert!(matches!(r.expr, CppExpr::Local { index: 0, .. }));
        },
    }
}
