use cachet::bpl_code::{
    AssignStmt, AxiomItem, CallExpr, CallStmt, CastTypeMemberFnSelector, CheckStmt, Comment,
    CommentedExpr, ConstItem, EntryPointFnIdent, Expr, ExternalUserFnHelperFnIdent, FnIdent,
    ForAllExpr, GlobalVarIdent, GlobalVarItem, GotoStmt, IndexExpr, IrMemberFnIdent,
    IrMemberFnSelector, LabelIdent, LabelStmt, Literal, LocalVar, LocalVarIdent, MapType,
    NegateExpr, BinOperExpr, OpCtorFieldFnIdent, OpCtorIrMemberFnSelector, ParamVarIdent, Stmt,
    Type, TypeIdent, TypeItem, TypeMemberFnIdent, TypeMemberFnSelector, TypedVar, TypedVars,
    UserGlobalVarIdent, UserParamVarIdent, UserTypeIdent, VarIdent,
};
use cachet::bpl_emit::{generate_emit_node_goto_succs_stmt, generate_emit_path_expr};
use cachet::bpl_names::{
    BplBinOper, CheckAttr, EmitLabelIdent, EmitLabelSegment, EmitLabelSegmentIdent,
    EmitOpLabelSegment, IrIdent, NativeTypeIdent, OpSelector, PreludeFnIdent, SyntheticVarIdent,
    SyntheticVarKind, TypeAttr, UserFnIdent, UserOpSelector,
};
use cachet::flow::{EmitNode, EmitSucc, FlowGraph, LabelNode};
use cachet::ident::Ident;
use cachet::syntax::{ArithBinOper, CheckKind, CompareBinOper, NegateKind, NumericCompareBinOper};

fn id(s: &str) -> Ident {
    Ident::from_str(s)
}

fn param(s: &str) -> Expr {
    Expr::Var(VarIdent::Param(ParamVarIdent::User(UserParamVarIdent { ident: id(s) })))
}

fn num(n: usize) -> Expr {
    Expr::Literal(Literal::Int(n))
}

fn bin(oper: BplBinOper, lhs: Expr, rhs: Expr) -> Expr {
    Expr::BinOper(Box::new(BinOperExpr { oper, lhs, rhs }))
}

fn native(t: NativeTypeIdent) -> Type {
    Type::Ident(TypeIdent::Native(t))
}

fn user_fn(name: &str) -> FnIdent {
    FnIdent::User(UserFnIdent { parent_ident: None, fn_ident: id(name) })
}

fn op_label(index: usize, ir: &str, op: &str) -> EmitLabelSegment {
    EmitLabelSegment {
        local_emit_index: index,
        ident: EmitLabelSegmentIdent::Op(EmitOpLabelSegment {
            ir_ident: IrIdent { ident: id(ir) },
            op_selector: OpSelector::User(UserOpSelector { op_ident: id(op) }),
        }),
    }
}

fn label(segments: Vec<EmitLabelSegment>) -> EmitLabelIdent {
    EmitLabelIdent { segments }
}

#[test]
fn map_type_text() {
    let t = Type::MapType(Box::new(MapType {
        key_types: vec![native(NativeTypeIdent::Int), native(NativeTypeIdent::Bool)],
        value_type: Type::Ident(TypeIdent::User(UserTypeIdent { ident: id("Foo") })),
    }));
    let mut s = String::new();
    cachet::bpl_code::push_type(&t, &mut s);
    assert_eq!(s, "[int][bool]#Foo");
}

#[test]
fn variable_names() {
    let local = VarIdent::Local(LocalVarIdent { ident: id("x"), index: 3 });
    let global = VarIdent::Global(GlobalVarIdent::User(UserGlobalVarIdent {
        parent_ident: Some(id("Parent")),
        var_ident: id("count"),
    }));
    let synthetic = VarIdent::Synthetic(SyntheticVarIdent { kind: SyntheticVarKind::Out, index: 2 });
    let mut s = String::new();
    for v in [local, global, synthetic, VarIdent::Ret, VarIdent::Param(ParamVarIdent::Instance)] {
        v.push_text(&mut s);
        s.push(' ');
    }
    assert_eq!(s, "$x'v3 #Parent~count out'2 ret instance ");
}

#[test]
fn function_names() {
    let cast = FnIdent::TypeMember(TypeMemberFnIdent {
        type_ident: UserTypeIdent { ident: id("A") },
        selector: TypeMemberFnSelector::Cast(CastTypeMemberFnSelector {
            target_type_ident: UserTypeIdent { ident: id("B") },
        }),
    });
    let op_ctor = IrMemberFnIdent {
        ir_ident: IrIdent { ident: id("ir") },
        selector: IrMemberFnSelector::Op(OpCtorIrMemberFnSelector {
            op_selector: OpSelector::User(UserOpSelector { op_ident: id("add") }),
        }),
    };
    let field = FnIdent::OpCtorField(OpCtorFieldFnIdent {
        param_var_ident: ParamVarIdent::User(UserParamVarIdent { ident: id("lhs") }),
        op_ctor_ident: IrMemberFnIdent {
            ir_ident: IrIdent { ident: id("ir") },
            selector: IrMemberFnSelector::Op(OpCtorIrMemberFnSelector {
                op_selector: OpSelector::User(UserOpSelector { op_ident: id("add") }),
            }),
        },
    });
    let entry = FnIdent::EntryPoint(EntryPointFnIdent {
        ir_ident: IrIdent { ident: id("ir") },
        user_op_selector: UserOpSelector { op_ident: id("add") },
    });
    let helper = FnIdent::ExternalUserFnHelper(ExternalUserFnHelperFnIdent {
        fn_ident: UserFnIdent { parent_ident: Some(id("T")), fn_ident: id("f") },
        ret_var_ident: VarIdent::Ret,
    });
    let mut s = String::new();
    for f in [cast, FnIdent::IrMember(op_ctor), field, entry, helper] {
        f.push_text(&mut s);
        s.push(' ');
    }
    assert_eq!(s, "#A^to#B #ir^Op~add $lhs##ir^Op~add EntryPoint#ir~add #T~f^ret ");
}

#[test]
fn operands_of_operators_are_grouped() {
    let sum = bin(BplBinOper::Arith(ArithBinOper::Add), param("x"), num(1));
    let not_b = Expr::Negate(Box::new(NegateExpr { kind: NegateKind::Logical, expr: param("b") }));
    let e = bin(BplBinOper::Compare(CompareBinOper::Eq), sum, not_b);
    assert_eq!(e.to_string(), "($x + 1) == (!$b)");
}

#[test]
fn calls_indexes_and_literals() {
    let call = Expr::Call(CallExpr {
        target: user_fn("f"),
        arg_exprs: vec![num(1), Expr::Literal(Literal::Bv8(255)), Expr::Literal(Literal::Bool(true))],
    });
    assert_eq!(call.to_string(), "#f(1, 255bv8, true)");
    let empty = Expr::Call(CallExpr { target: FnIdent::Prelude(PreludeFnIdent::NilPc), arg_exprs: vec![] });
    assert_eq!(empty.to_string(), "NilPc()");
    let update = Expr::Index(Box::new(IndexExpr {
        base: param("m"),
        key: bin(BplBinOper::Arith(ArithBinOper::Sub), param("k"), num(1)),
        value: Some(Expr::Literal(Literal::Bv64(7))),
    }));
    assert_eq!(update.to_string(), "$m[($k - 1) := 7bv64]");
    let lookup = Expr::Index(Box::new(IndexExpr { base: param("m"), key: num(0), value: None }));
    assert_eq!(lookup.to_string(), "$m[0]");
}

#[test]
fn quantifiers_and_comments() {
    let body = bin(
        BplBinOper::Compare(CompareBinOper::Numeric(NumericCompareBinOper::Gt)),
        param("x"),
        num(0),
    );
    let all = Expr::ForAll(Box::new(ForAllExpr {
        vars: TypedVars {
            vars: vec![TypedVar {
                ident: VarIdent::Param(ParamVarIdent::User(UserParamVarIdent { ident: id("x") })),
                type_: native(NativeTypeIdent::Int),
            }],
        },
        expr: body,
    }));
    assert_eq!(all.to_string(), "(forall $x: int :: ($x > 0))");
    let commented = Expr::Commented(Box::new(CommentedExpr { comment: Comment::Ident(id("size")), expr: num(4) }));
    assert_eq!(commented.to_string(), "/* size */ 4");
}

#[test]
fn statements() {
    let check = CheckStmt { kind: CheckKind::Assert, attr: Some(CheckAttr::Partition), cond: param("ok") };
    assert_eq!(check.to_string(), "assert {:partition} $ok;");
    let assumption = CheckStmt {
        kind: CheckKind::Assume,
        attr: None,
        cond: bin(BplBinOper::Compare(CompareBinOper::Neq), param("a"), num(2)),
    };
    assert_eq!(assumption.to_string(), "assume ($a != 2);");
    let assign = AssignStmt {
        lhs: param("x"),
        rhs: bin(BplBinOper::Arith(ArithBinOper::Mul), param("x"), num(2)),
    };
    assert_eq!(assign.to_string(), "$x := ($x * 2);");
    let call = CallStmt {
        call: CallExpr { target: user_fn("g"), arg_exprs: vec![num(1)] },
        ret_var_idents: vec![
            VarIdent::Synthetic(SyntheticVarIdent { kind: SyntheticVarKind::Out, index: 0 }),
            VarIdent::Ret,
        ],
    };
    assert_eq!(call.to_string(), "call out'0, ret := #g(1);");
    let plain = CallStmt::from_call(CallExpr { target: user_fn("h"), arg_exprs: vec![] });
    assert_eq!(plain.to_string(), "call #h();");
    let goto = GotoStmt {
        labels: vec![
            LabelIdent::Emit(EmitLabelIdent::exit()),
            LabelIdent::Emit(label(vec![op_label(0, "ir", "a"), op_label(2, "ir", "b")])),
        ],
    };
    assert_eq!(goto.to_string(), "goto emit^Exit, emit'0#ir~a'2#ir~b;");
    let lbl = LabelStmt { label_ident: LabelIdent::Emit(label(vec![op_label(1, "ir", "a")])) };
    assert_eq!(lbl.to_string(), "\nemit'1#ir~a:");
}

#[test]
fn declarations() {
    let data = TypeItem {
        ident: TypeIdent::User(UserTypeIdent { ident: id("T") }),
        attr: Some(TypeAttr::DataType),
        type_: None,
    };
    assert_eq!(data.to_string(), "type {:datatype} #T;");
    let alias = TypeItem {
        ident: TypeIdent::User(UserTypeIdent { ident: id("M") }),
        attr: None,
        type_: Some(Type::MapType(Box::new(MapType {
            key_types: vec![native(NativeTypeIdent::Int)],
            value_type: native(NativeTypeIdent::Bool),
        }))),
    };
    assert_eq!(alias.to_string(), "type #M = [int]bool;");
    let var = || TypedVar {
        ident: VarIdent::Global(GlobalVarIdent::User(UserGlobalVarIdent { parent_ident: None, var_ident: id("g") })),
        type_: native(NativeTypeIdent::Int),
    };
    assert_eq!(ConstItem { var: var() }.to_string(), "const #g: int;");
    assert_eq!(GlobalVarItem { var: var() }.to_string(), "var #g: int;");
    assert_eq!(LocalVar { var: var() }.to_string(), "var #g: int;");
    let fact = AxiomItem {
        cond: bin(BplBinOper::Compare(CompareBinOper::Numeric(NumericCompareBinOper::Lt)), num(1), num(2)),
    };
    assert_eq!(fact.to_string(), "axiom (1 < 2);");
}

#[test]
fn emit_path_of_label() {
    let l = label(vec![op_label(0, "ir", "a"), op_label(2, "ir", "b")]);
    let path = generate_emit_path_expr(&l);
    assert_eq!(Expr::Call(path).to_string(), "ConsEmitPath(ConsEmitPath(NilEmitPath(), 0), 2)");
    let exit = generate_emit_path_expr(&EmitLabelIdent::exit());
    assert_eq!(Expr::Call(exit).to_string(), "NilEmitPath()");
}

#[test]
fn goto_successors_in_node_order() {
    let mut graph = FlowGraph::new();
    graph.emit_nodes.push(EmitNode::new(Some(EmitLabelIdent::exit()), None));
    graph.emit_nodes.push(EmitNode::new(None, None));
    graph.emit_nodes.push(EmitNode::new(Some(label(vec![op_label(0, "ir", "a")])), Some(0)));
    graph.emit_nodes.push(EmitNode::new(Some(label(vec![op_label(1, "ir", "b")])), Some(0)));
    let mut bound = LabelNode::new();
    bound.bound_to.insert(3);
    bound.bound_to.insert(0);
    graph.label_nodes.push(bound);
    let mut node = EmitNode::new(None, None);
    node.insert_succ(EmitSucc::Label(0));
    node.insert_succ(EmitSucc::Emit(2));
    node.insert_succ(EmitSucc::Emit(3));
    match generate_emit_node_goto_succs_stmt(&node, &graph) {
        Stmt::Goto(g) => assert_eq!(g.to_string(), "goto emit^Exit, emit'0#ir~a, emit'1#ir~b;"),
        _ => panic!("expected a goto"),
    }
}
