use cachet::boogie::{ContractKind, RelOp, ReturnCmd};
use cachet::boogie_decl::{
    AxiomDecl, BoogieProgram, BreakCmd, ConstDecl, ContractSpec, Decl, ElseClause, FuncDecl,
    GotoCmd, Guard, IfCmd, ImplBody, ImplDecl, Invariant, ModifiesSpec, OrderSpec,
    OrderSpecParent, ProcDecl, ProcSign, Spec, Stmt, StmtList, StructuredCmd, TransferCmd,
    TypeDecl, TypeDecls, VarDecl, VarOrType, WhileCmd,
};
use cachet::boogie_expr::{
    AssignCmd, AssignLhs, AttrContent, AttrOrTrigger, AttrTypedIdentsWhere,
    AttrTypedIdentsWheres, Expr, Exprs, HavocCmd, Idents, LabelOrCmd, LocalVars, RelExpr,
    Spanned, Type, TypeApp, TypeAtom, TypeParams, TypedIdents, TypedIdentsWhere,
    TypedIdentsWheres,
};
use cachet::ident::Ident;
use cachet::span::RawSpan;

fn id(s: &str) -> Ident {
    Ident::from_str(s)
}

fn sp<T>(value: T) -> Spanned<T> {
    Spanned { span: RawSpan::new(0, 0), value }
}

fn var(s: &str) -> Expr {
    Expr::Var(id(s))
}

fn num(s: &str) -> Expr {
    Expr::Nat(s.to_string())
}

fn idents(names: &[&str]) -> Idents {
    Idents { idents: names.iter().map(|n| sp(id(n))).collect() }
}

fn gt(lhs: Expr, rhs: Expr) -> Expr {
    Expr::Rel(Box::new(RelExpr { lhs, op: RelOp::Gt, rhs }))
}

fn int_type() -> Type {
    Type::Atom(TypeAtom::Int)
}

fn attr(name: &str) -> AttrOrTrigger {
    AttrOrTrigger::Attr(AttrContent { ident: id(name), params: vec![] })
}

fn assign(x: &str, value: Expr) -> Stmt {
    Stmt::LabelOrCmd(LabelOrCmd::Assign(AssignCmd {
        lhs: vec![AssignLhs { ident: id(x), subscripts: vec![] }],
        rhs: Exprs { exprs: vec![value] },
    }))
}

fn list(stmts: Vec<Stmt>) -> StmtList {
    StmtList { stmts }
}

fn params(items: &[(&str, Type)]) -> AttrTypedIdentsWheres {
    AttrTypedIdentsWheres {
        items: items
            .iter()
            .map(|(n, t)| {
                let type_ = match t {
                    Type::Atom(TypeAtom::Int) => int_type(),
                    _ => Type::Atom(TypeAtom::Bool),
                };
                sp(AttrTypedIdentsWhere {
                    attrs: vec![],
                    typed_idents_where: TypedIdentsWhere {
                        typed_idents: TypedIdents { idents: idents(&[n]), type_ },
                        where_: None,
                    },
                })
            })
            .collect(),
    }
}

fn sign(name: &str, ins: &[(&str, Type)], outs: &[(&str, Type)]) -> ProcSign {
    ProcSign {
        attrs: vec![],
        ident: sp(id(name)),
        type_params: TypeParams { params: idents(&[]) },
        var_params: params(ins),
        returns: params(outs),
    }
}

#[test]
fn if_statements_indent_their_blocks() {
    let stmt = Stmt::StructuredCmd(StructuredCmd::If(IfCmd {
        guard: Guard::Expr(gt(var("x"), num("0"))),
        then_: list(vec![assign("x", num("1"))]),
        else_: Some(ElseClause::Else(list(vec![]))),
    }));
    assert_eq!(stmt.to_string(), "if (x > 0) {\n  x := 1;\n} else {\n}");
    let chain = Stmt::StructuredCmd(StructuredCmd::If(IfCmd {
        guard: Guard::Asterisk,
        then_: list(vec![]),
        else_: Some(ElseClause::ElseIf(Box::new(IfCmd {
            guard: Guard::Expr(var("b")),
            then_: list(vec![Stmt::TransferCmd(TransferCmd::Return(ReturnCmd))]),
            else_: None,
        }))),
    }));
    assert_eq!(chain.to_string(), "if (*) {\n} else if (b) {\n  return;\n}");
}

#[test]
fn while_loops_with_invariants() {
    let stmt = Stmt::StructuredCmd(StructuredCmd::While(WhileCmd {
        guard: Guard::Asterisk,
        invariants: vec![
            Invariant { attrs: vec![], expr: gt(var("x"), num("0")), is_free: false },
            Invariant { attrs: vec![attr("a")], expr: var("y"), is_free: true },
        ],
        body: list(vec![Stmt::LabelOrCmd(LabelOrCmd::Havoc(HavocCmd { vars: idents(&["x"]) }))]),
    }));
    assert_eq!(
        stmt.to_string(),
        "while (*)\n  invariant x > 0;\n  free invariant {:a} y;\n{\n  havoc x;\n}"
    );
    let nested = Stmt::StructuredCmd(StructuredCmd::While(WhileCmd {
        guard: Guard::Expr(var("b")),
        invariants: vec![],
        body: list(vec![Stmt::StructuredCmd(StructuredCmd::If(IfCmd {
            guard: Guard::Expr(var("c")),
            then_: list(vec![assign("x", num("1")), assign("y", num("2"))]),
            else_: None,
        }))]),
    }));
    assert_eq!(nested.to_string(), "while (b) {\n  if (c) {\n    x := 1;\n    y := 2;\n  }\n}");
}

#[test]
fn jumps() {
    let brk = Stmt::StructuredCmd(StructuredCmd::Break(BreakCmd { label: None }));
    assert_eq!(brk.to_string(), "break;");
    let brk = Stmt::StructuredCmd(StructuredCmd::Break(BreakCmd { label: Some(id("L")) }));
    assert_eq!(brk.to_string(), "break L;");
    let goto = Stmt::TransferCmd(TransferCmd::Goto(GotoCmd { labels: idents(&["A", "B"]) }));
    assert_eq!(goto.to_string(), "goto A, B;");
}

#[test]
fn simple_declarations() {
    let fact = Decl::Axiom(AxiomDecl { attrs: vec![attr("a")], proposition: Expr::BoolLit(true) });
    assert_eq!(fact.to_string(), "axiom {:a} true;");
    let constant = Decl::Const(ConstDecl {
        attrs: vec![],
        is_unique: true,
        consts: TypedIdents { idents: idents(&["c"]), type_: int_type() },
        order_spec: Some(OrderSpec {
            parents: vec![
                OrderSpecParent { parent: id("p"), is_unique: true },
                OrderSpecParent { parent: id("q"), is_unique: false },
            ],
            is_complete: true,
        }),
    });
    assert_eq!(constant.to_string(), "const unique c: int extends unique p, q complete;");
    let global = Decl::Var(VarDecl {
        attrs: vec![],
        vars: TypedIdentsWheres {
            items: vec![
                sp(TypedIdentsWhere { typed_idents: TypedIdents { idents: idents(&["g"]), type_: int_type() }, where_: None }),
                sp(TypedIdentsWhere {
                    typed_idents: TypedIdents { idents: idents(&["h"]), type_: Type::Atom(TypeAtom::Bool) },
                    where_: Some(var("h")),
                }),
            ],
        },
    });
    assert_eq!(global.to_string(), "var g: int, h: bool where h;");
}

#[test]
fn type_declarations() {
    let one = Decl::Type(TypeDecls {
        attrs: vec![attr("datatype")],
        decls: vec![sp(TypeDecl { ident: id("T"), type_params: vec![id("a"), id("b")], type_: Some(int_type()) })],
    });
    assert_eq!(one.to_string(), "type {:datatype} T a b = int;");
    let two = Decl::Type(TypeDecls {
        attrs: vec![],
        decls: vec![
            sp(TypeDecl { ident: id("A"), type_params: vec![], type_: None }),
            sp(TypeDecl { ident: id("B"), type_params: vec![], type_: Some(Type::App(TypeApp { head: id("A"), tail: None })) }),
        ],
    });
    assert_eq!(two.to_string(), "type A,\n  B = A;");
}

#[test]
fn function_declarations() {
    let plain = Decl::Func(FuncDecl {
        attrs: vec![],
        ident: id("f"),
        type_params: TypeParams { params: idents(&[]) },
        var_params: vec![
            VarOrType { attrs: vec![], var: Some(id("x")), type_: int_type() },
            VarOrType { attrs: vec![], var: None, type_: Type::Atom(TypeAtom::Bool) },
        ],
        returns: VarOrType { attrs: vec![], var: None, type_: int_type() },
        body: None,
    });
    assert_eq!(plain.to_string(), "function f(x: int, bool): int;");
    let defined = Decl::Func(FuncDecl {
        attrs: vec![attr("inline")],
        ident: id("g"),
        type_params: TypeParams { params: idents(&["T"]) },
        var_params: vec![VarOrType { attrs: vec![], var: Some(id("x")), type_: int_type() }],
        returns: VarOrType { attrs: vec![], var: Some(id("r")), type_: Type::Atom(TypeAtom::Bool) },
        body: Some(gt(var("x"), num("0"))),
    });
    assert_eq!(defined.to_string(), "function {:inline} g<T>(x: int) returns (r: bool) {\n  x > 0\n}");
}

#[test]
fn procedures_and_implementations() {
    let decl = Decl::Proc(ProcDecl {
        proc_sign: sign("p", &[("x", int_type())], &[("r", int_type())]),
        specs: vec![
            Spec::Modifies(ModifiesSpec { vars: idents(&["g"]) }),
            Spec::Contract(ContractSpec {
                kind: ContractKind::Requires,
                attrs: vec![],
                proposition: gt(var("x"), num("0")),
                is_free: false,
            }),
        ],
        impl_body: None,
    });
    assert_eq!(decl.to_string(), "procedure p(x: int) returns (r: int);\n  modifies g;\n  requires x > 0;");
    let with_body = Decl::Proc(ProcDecl {
        proc_sign: sign("q", &[], &[]),
        specs: vec![],
        impl_body: Some(ImplBody {
            local_vars: vec![LocalVars {
                attrs: vec![],
                vars: TypedIdentsWheres {
                    items: vec![sp(TypedIdentsWhere { typed_idents: TypedIdents { idents: idents(&["x"]), type_: int_type() }, where_: None })],
                },
            }],
            stmt_list: list(vec![assign("x", num("1"))]),
        }),
    });
    assert_eq!(with_body.to_string(), "procedure q() {\n  var x: int;\n\n  x := 1;\n}");
    let specs_and_body = Decl::Proc(ProcDecl {
        proc_sign: sign("r", &[], &[]),
        specs: vec![Spec::Contract(ContractSpec {
            kind: ContractKind::Ensures,
            attrs: vec![],
            proposition: Expr::BoolLit(true),
            is_free: true,
        })],
        impl_body: Some(ImplBody { local_vars: vec![], stmt_list: list(vec![]) }),
    });
    assert_eq!(specs_and_body.to_string(), "procedure r()\n  free ensures true;\n{\n}");
    let implementation = Decl::Impl(ImplDecl {
        proc_sign: sign("p", &[], &[]),
        impl_body: ImplBody { local_vars: vec![], stmt_list: list(vec![Stmt::TransferCmd(TransferCmd::Return(ReturnCmd))]) },
    });
    assert_eq!(implementation.to_string(), "implementation p() {\n  return;\n}");
}

#[test]
fn programs_separate_declarations_by_empty_lines() {
    let program = BoogieProgram {
        decls: vec![
            sp(Decl::Axiom(AxiomDecl { attrs: vec![], proposition: Expr::BoolLit(true) })),
            sp(Decl::Var(VarDecl {
                attrs: vec![],
                vars: TypedIdentsWheres {
                    items: vec![sp(TypedIdentsWhere { typed_idents: TypedIdents { idents: idents(&["g"]), type_: int_type() }, where_: None })],
                },
            })),
        ],
    };
    assert_eq!(program.to_string(), "axiom true;\n\nvar g: int;");
}
