use cachet::boogie::{AddOp, ContractKind, QuantKind};
use cachet::boogie_decl::{
    AxiomDecl, BoogieProgram, ConstDecl, ContractSpec, Decl, FuncDecl, ImplBody, ModifiesSpec,
    ProcDecl, ProcSign, Spec, Stmt, StmtList, TypeDecl, TypeDecls, VarDecl, VarOrType,
};
use cachet::boogie_expr::{
    AssignCmd, AssignLhs, AttrContent, AttrOrTrigger, AttrParam, AttrTypedIdentsWhere,
    AttrTypedIdentsWheres, Expr, Exprs, FuncCall, Idents, LabelOrCmd, LocalVars, QuantBody,
    QuantExpr, Spanned, Term, Type, TypeApp, TypeAtom, TypeParams, TypedIdents, TypedIdentsWhere,
    TypedIdentsWheres,
};
use cachet::bpl_tools::{inline_program, shake_tree, shake_tree_with, Namespace};
use cachet::decl_graph::build_reachability_graph;
use cachet::ident::Ident;
use cachet::reachability::NamespacedIdent;
use cachet::span::RawSpan;

fn id(s: &str) -> Ident {
    Ident::from_str(s)
}

fn span_of(src: &str, needle: &str) -> RawSpan {
    let start = src.find(needle).expect("needle in source");
    RawSpan::new(start as u32, (start + needle.len()) as u32)
}

fn at(span: RawSpan, value: Ident) -> Spanned<Ident> {
    Spanned { span, value }
}

fn int_type() -> Type {
    Type::Atom(TypeAtom::Int)
}

fn no_type_params() -> TypeParams {
    TypeParams { params: Idents { idents: vec![] } }
}

fn no_params() -> AttrTypedIdentsWheres {
    AttrTypedIdentsWheres { items: vec![] }
}

fn attr(name: &str, params: Vec<AttrParam>) -> AttrOrTrigger {
    AttrOrTrigger::Attr(AttrContent { ident: id(name), params })
}

fn const_decl(src: &str, text: &str, name: &str) -> Spanned<Decl> {
    let decl_span = span_of(src, text);
    let name_start = decl_span.start + 6;
    Spanned {
        span: decl_span,
        value: Decl::Const(ConstDecl {
            attrs: vec![],
            is_unique: false,
            consts: TypedIdents {
                idents: Idents {
                    idents: vec![at(RawSpan::new(name_start, name_start + name.len() as u32), id(name))],
                },
                type_: int_type(),
            },
            order_spec: None,
        }),
    }
}

fn func_decl(span: RawSpan, name: &str, params: Vec<VarOrType>, body: Option<Expr>, attrs: Vec<AttrOrTrigger>) -> Spanned<Decl> {
    Spanned {
        span,
        value: Decl::Func(FuncDecl {
            attrs,
            ident: id(name),
            type_params: no_type_params(),
            var_params: params,
            returns: VarOrType { attrs: vec![], var: None, type_: int_type() },
            body,
        }),
    }
}

fn int_param(name: &str) -> VarOrType {
    VarOrType { attrs: vec![], var: Some(id(name)), type_: int_type() }
}

fn sign(src: &str, name_needle: &str, name: &str, attrs: Vec<Spanned<AttrOrTrigger>>) -> ProcSign {
    ProcSign {
        attrs,
        ident: at(span_of(src, name_needle), id(name)),
        type_params: no_type_params(),
        var_params: no_params(),
        returns: no_params(),
    }
}

fn call(f: &str, args: Vec<Expr>) -> Expr {
    Expr::FuncCall(FuncCall { target: id(f), args: Exprs { exprs: args } })
}

/// const a: int; const c: int; function f(x) uses a; an entry point calls
/// f; function g is used by nothing.
fn sample(src: &str) -> BoogieProgram {
    let main_body = ImplBody {
        local_vars: vec![LocalVars {
            attrs: vec![],
            vars: TypedIdentsWheres {
                items: vec![Spanned {
                    span: span_of(src, "y: int"),
                    value: TypedIdentsWhere {
                        typed_idents: TypedIdents {
                            idents: Idents { idents: vec![at(span_of(src, "y: int"), id("y"))] },
                            type_: int_type(),
                        },
                        where_: None,
                    },
                }],
            },
        }],
        stmt_list: StmtList {
            stmts: vec![Stmt::LabelOrCmd(LabelOrCmd::Assign(AssignCmd {
                lhs: vec![AssignLhs { ident: id("y"), subscripts: vec![] }],
                rhs: Exprs { exprs: vec![call("f", vec![Expr::Nat("1".to_string())])] },
            }))],
        },
    };
    let f_body = Expr::Term(Box::new(Term { lhs: Expr::Var(id("x")), op: AddOp::Add, rhs: Expr::Var(id("a")) }));
    BoogieProgram {
        decls: vec![
            const_decl(src, "const a: int;", "a"),
            const_decl(src, "const c: int;", "c"),
            func_decl(span_of(src, "function f(x: int): int { x + a }"), "f", vec![int_param("x")], Some(f_body), vec![]),
            Spanned {
                span: span_of(src, "procedure {:entrypoint} main() { var y: int; y := f(1); }"),
                value: Decl::Proc(ProcDecl {
                    proc_sign: sign(src, "main", "main", vec![Spanned { span: span_of(src, "{:entrypoint}"), value: attr("entrypoint", vec![]) }]),
                    specs: vec![],
                    impl_body: Some(main_body),
                }),
            },
            func_decl(span_of(src, "function g(): int;"), "g", vec![], None, vec![]),
        ],
    }
}

const SAMPLE: &str = "const a: int;\nconst c: int;\nfunction f(x: int): int { x + a }\nprocedure {:entrypoint} main() { var y: int; y := f(1); }\nfunction g(): int;\n";

fn text(out: Option<String>) -> String {
    out.expect("shaking succeeds")
}

#[test]
fn shake_tree_keeps_what_entry_points_need() {
    let program = sample(SAMPLE);
    let out = shake_tree(SAMPLE, &program, &vec![], |_: &Ident| false);
    assert_eq!(
        text(out),
        "const a: int;\nfunction f(x: int): int { x + a }\nprocedure {:entrypoint} main() { var y: int; y := f(1); }\n"
    );
}

#[test]
fn shake_tree_keeps_retained_identifiers() {
    let program = sample(SAMPLE);
    let retain = vec![NamespacedIdent(id("g"), Namespace::Func), NamespacedIdent(id("nothing"), Namespace::Var)];
    let out = shake_tree(SAMPLE, &program, &retain, |_: &Ident| false);
    assert_eq!(
        text(out),
        "const a: int;\nfunction f(x: int): int { x + a }\nprocedure {:entrypoint} main() { var y: int; y := f(1); }\nfunction g(): int;\n"
    );
}

#[test]
fn shake_tree_keeps_axioms_and_what_they_use() {
    let src = "const c: int;\naxiom c > 0;\nconst d: int;\n";
    let program = BoogieProgram {
        decls: vec![
            const_decl(src, "const c: int;", "c"),
            Spanned {
                span: span_of(src, "axiom c > 0;"),
                value: Decl::Axiom(AxiomDecl { attrs: vec![], proposition: Expr::Var(id("c")) }),
            },
            const_decl(src, "const d: int;", "d"),
        ],
    };
    let out = shake_tree_with(src, &program, &vec![], &vec![false, false, false]);
    assert_eq!(text(out), "const c: int;\naxiom c > 0;\n");
}

#[test]
fn shake_tree_refuses_overlapping_removals() {
    let src = "const a: int;\nconst b: int;\n";
    let program = BoogieProgram { decls: vec![const_decl(src, "const a: int;", "a"), const_decl(src, "const b: int;", "b")] };
    // the first declaration would go up to the start of the next one, the
    // second from the end of the first: the two spans overlap
    let out = shake_tree(src, &program, &vec![], |_: &Ident| false);
    assert!(out.is_none());
}

#[test]
fn locals_do_not_keep_globals() {
    // f's parameter a shadows the constant a, so the constant goes
    let src = "const a: int;\nfunction f(a: int): int { a }\nprocedure {:entrypoint} m() { var y: int; y := f(1); }\n";
    let program = BoogieProgram {
        decls: vec![
            const_decl(src, "const a: int;", "a"),
            func_decl(span_of(src, "function f(a: int): int { a }"), "f", vec![int_param("a")], Some(Expr::Var(id("a"))), vec![]),
            Spanned {
                span: span_of(src, "procedure {:entrypoint} m() { var y: int; y := f(1); }"),
                value: Decl::Proc(ProcDecl {
                    proc_sign: sign(src, "m()", "m", vec![Spanned { span: span_of(src, "{:entrypoint}"), value: attr("entrypoint", vec![]) }]),
                    specs: vec![],
                    impl_body: Some(ImplBody {
                        local_vars: vec![],
                        stmt_list: StmtList {
                            stmts: vec![Stmt::LabelOrCmd(LabelOrCmd::Assign(AssignCmd {
                                lhs: vec![AssignLhs { ident: id("y"), subscripts: vec![] }],
                                rhs: Exprs { exprs: vec![call("f", vec![Expr::Nat("1".to_string())])] },
                            }))],
                        },
                    }),
                }),
            },
        ],
    };
    let out = shake_tree(src, &program, &vec![], |_: &Ident| false);
    assert_eq!(text(out), "function f(a: int): int { a }\nprocedure {:entrypoint} m() { var y: int; y := f(1); }\n");
}

fn ctor_program(src: &str) -> BoogieProgram {
    let named_t = || Type::App(TypeApp { head: id("T"), tail: None });
    BoogieProgram {
        decls: vec![
            Spanned {
                span: span_of(src, "function {:constructor} mk(): T;"),
                value: Decl::Func(FuncDecl {
                    attrs: vec![attr("constructor", vec![])],
                    ident: id("mk"),
                    type_params: no_type_params(),
                    var_params: vec![],
                    returns: VarOrType { attrs: vec![], var: None, type_: named_t() },
                    body: None,
                }),
            },
            Spanned {
                span: span_of(src, "const t: T;"),
                value: Decl::Const(ConstDecl {
                    attrs: vec![],
                    is_unique: false,
                    consts: TypedIdents { idents: Idents { idents: vec![at(span_of(src, "t: T"), id("t"))] }, type_: named_t() },
                    order_spec: None,
                }),
            },
        ],
    }
}

#[test]
fn data_types_keep_their_constructors_unless_pruned() {
    let src = "function {:constructor} mk(): T;\nconst t: T;\n";
    let program = ctor_program(src);
    let retain = vec![NamespacedIdent(id("t"), Namespace::Var)];
    let kept = shake_tree(src, &program, &retain, |_: &Ident| false);
    assert_eq!(text(kept), src);
    let pruned = shake_tree(src, &program, &retain, |i: &Ident| i.as_str() == "T");
    assert_eq!(text(pruned), "const t: T;\n");
}

#[test]
fn reachability_graph_of_a_program() {
    let program = sample(SAMPLE);
    let g = build_reachability_graph(&program, &vec![false; 5]);
    // one node per declaration, in order
    assert_eq!(g.decl_node_indexes().len(), 5);
    assert_eq!(g.decl_node_indexes()[0], 0);
    assert_eq!(g.node_span(g.decl_node_indexes()[1]), span_of(SAMPLE, "const c: int;"));
    // a declared constant has a node with its own span, rooting its declaration
    let a = g.lookup_node_with_ident(&NamespacedIdent(id("a"), Namespace::Var)).unwrap();
    assert_eq!(g.node_span(a), RawSpan::new(6, 7));
    assert_eq!(g.node_roots(0), &vec![a]);
    // a local variable gets no node
    assert!(g.lookup_node_with_ident(&NamespacedIdent(id("x"), Namespace::Var)).is_none());
    assert!(g.lookup_node_with_ident(&NamespacedIdent(id("f"), Namespace::Func)).is_some());
}

fn proc_with_inline(src: &str, name: &str, found: Option<&str>) -> Spanned<Decl> {
    let attrs = match found {
        Some(level) => vec![Spanned {
            span: span_of(src, &format!("{{:inline {}}}", level)),
            value: attr("inline", vec![AttrParam::Expr(Expr::Nat(level.to_string()))]),
        }],
        None => vec![],
    };
    Spanned {
        span: span_of(src, &format!("{}();", name)),
        value: Decl::Proc(ProcDecl { proc_sign: sign(src, &format!("{}();", name), name, attrs), specs: vec![], impl_body: None }),
    }
}

#[test]
fn inline_program_sets_the_level() {
    let src = "procedure {:inline 2} p();\nprocedure q();\n";
    let program = BoogieProgram { decls: vec![proc_with_inline(src, "p", Some("2")), proc_with_inline(src, "q", None)] };
    let raised = inline_program(src, &program, Some("3")).unwrap();
    assert_eq!(raised, "procedure {:inline 3} p();\nprocedure {:inline 3} q();\n");
    let kept = inline_program(src, &program, Some("1")).unwrap();
    assert_eq!(kept, "procedure {:inline 2} p();\nprocedure {:inline 1} q();\n");
    // the level is printed in canonical form
    let canonical = inline_program(src, &program, Some("+0_4")).unwrap();
    assert_eq!(canonical, "procedure {:inline 4} p();\nprocedure {:inline 4} q();\n");
}

#[test]
fn inline_program_without_a_level_keeps_the_text() {
    let src = "procedure {:inline 2} p();\n";
    let program = BoogieProgram { decls: vec![proc_with_inline(src, "p", Some("2"))] };
    let out = inline_program(src, &program, None).unwrap();
    assert_eq!(out, src);
}

fn var_item(src: &str, text: &str, name: &str) -> Spanned<TypedIdentsWhere> {
    let span = span_of(src, text);
    Spanned {
        span,
        value: TypedIdentsWhere {
            typed_idents: TypedIdents {
                idents: Idents { idents: vec![at(RawSpan::new(span.start, span.start + name.len() as u32), id(name))] },
                type_: int_type(),
            },
            where_: None,
        },
    }
}

fn entry_using(src: &str, decl_text: &str, name_needle: &str, name: &str, used: Expr) -> Spanned<Decl> {
    Spanned {
        span: span_of(src, decl_text),
        value: Decl::Proc(ProcDecl {
            proc_sign: sign(src, name_needle, name, vec![Spanned { span: span_of(src, "{:entrypoint}"), value: attr("entrypoint", vec![]) }]),
            specs: vec![],
            impl_body: Some(ImplBody {
                local_vars: vec![],
                stmt_list: StmtList {
                    stmts: vec![Stmt::LabelOrCmd(LabelOrCmd::Assign(AssignCmd {
                        lhs: vec![AssignLhs { ident: id("r"), subscripts: vec![] }],
                        rhs: Exprs { exprs: vec![used] },
                    }))],
                },
            }),
        }),
    }
}

#[test]
fn shake_tree_removes_unused_variables_of_a_declaration() {
    let src = "var x: int, y: int;\nvar r: int;\nprocedure {:entrypoint} m() { r := x; }\n";
    let program = BoogieProgram {
        decls: vec![
            Spanned {
                span: span_of(src, "var x: int, y: int;"),
                value: Decl::Var(VarDecl {
                    attrs: vec![],
                    vars: TypedIdentsWheres { items: vec![var_item(src, "x: int", "x"), var_item(src, "y: int", "y")] },
                }),
            },
            Spanned {
                span: span_of(src, "var r: int;"),
                value: Decl::Var(VarDecl { attrs: vec![], vars: TypedIdentsWheres { items: vec![var_item(src, "r: int", "r")] } }),
            },
            entry_using(src, "procedure {:entrypoint} m() { r := x; }", "m()", "m", Expr::Var(id("x"))),
        ],
    };
    let out = shake_tree(src, &program, &vec![], |_: &Ident| false);
    assert_eq!(text(out), "var x: int;\nvar r: int;\nprocedure {:entrypoint} m() { r := x; }\n");
}

#[test]
fn shake_tree_removes_unused_types_of_a_declaration() {
    let src = "type T, U;\n";
    let type_decl = |name: &str| Spanned {
        span: span_of(src, name),
        value: TypeDecl { ident: id(name), type_params: vec![], type_: None },
    };
    let program = BoogieProgram {
        decls: vec![Spanned {
            span: span_of(src, "type T, U;"),
            value: Decl::Type(TypeDecls { attrs: vec![], decls: vec![type_decl("T"), type_decl("U")] }),
        }],
    };
    let retain = vec![NamespacedIdent(id("T"), Namespace::Type)];
    let out = shake_tree(src, &program, &retain, |_: &Ident| false);
    assert_eq!(text(out), "type T;\n");
}

#[test]
fn shaking_that_would_split_a_character_gives_nothing() {
    // the declaration spans end inside the two-byte character
    let src = "const a: int;\u{e9}\nconst b: int;";
    let mut program = BoogieProgram { decls: vec![const_decl(src, "const a: int;", "a"), const_decl(src, "const b: int;", "b")] };
    program.decls[0].span = RawSpan::new(0, 14);
    let retain = vec![NamespacedIdent(id("a"), Namespace::Var)];
    // const b goes from the end of const a, which lies inside the character
    assert!(shake_tree(src, &program, &retain, |_: &Ident| false).is_none());
}

#[test]
fn bound_variables_do_not_keep_globals() {
    // the axiom's bound x shadows the constant x, which goes
    let src = "const x: int;\naxiom (forall x: int :: x > 0);\n";
    let bound = AttrTypedIdentsWheres {
        items: vec![Spanned {
            span: span_of(src, "x: int ::"),
            value: AttrTypedIdentsWhere {
                attrs: vec![],
                typed_idents_where: TypedIdentsWhere {
                    typed_idents: TypedIdents { idents: Idents { idents: vec![at(span_of(src, "x: int ::"), id("x"))] }, type_: int_type() },
                    where_: None,
                },
            },
        }],
    };
    let quant = Expr::Quant(Box::new(QuantExpr {
        kind: QuantKind::ForAll,
        body: QuantBody { type_params: no_type_params(), bound_vars: bound, attrs: vec![], expr: Expr::Var(id("x")) },
    }));
    let program = BoogieProgram {
        decls: vec![
            const_decl(src, "const x: int;", "x"),
            Spanned { span: span_of(src, "axiom (forall x: int :: x > 0);"), value: Decl::Axiom(AxiomDecl { attrs: vec![], proposition: quant }) },
        ],
    };
    let out = shake_tree(src, &program, &vec![], |_: &Ident| false);
    assert_eq!(text(out), "axiom (forall x: int :: x > 0);\n");
}

#[test]
fn procedure_contracts_keep_what_they_name() {
    let src = "var g: int;\nconst h: int;\nconst k: int;\nprocedure {:entrypoint} p(); modifies g; requires h > 0;\n";
    let program = BoogieProgram {
        decls: vec![
            Spanned {
                span: span_of(src, "var g: int;"),
                value: Decl::Var(VarDecl { attrs: vec![], vars: TypedIdentsWheres { items: vec![var_item(src, "g: int", "g")] } }),
            },
            const_decl(src, "const h: int;", "h"),
            const_decl(src, "const k: int;", "k"),
            Spanned {
                span: span_of(src, "procedure {:entrypoint} p(); modifies g; requires h > 0;"),
                value: Decl::Proc(ProcDecl {
                    proc_sign: sign(src, "p();", "p", vec![Spanned { span: span_of(src, "{:entrypoint}"), value: attr("entrypoint", vec![]) }]),
                    specs: vec![
                        Spec::Modifies(ModifiesSpec { vars: Idents { idents: vec![at(span_of(src, "g;"), id("g"))] } }),
                        Spec::Contract(ContractSpec { kind: ContractKind::Requires, attrs: vec![], proposition: Expr::Var(id("h")), is_free: false }),
                    ],
                    impl_body: None,
                }),
            },
        ],
    };
    let out = shake_tree(src, &program, &vec![], |_: &Ident| false);
    assert_eq!(text(out), "var g: int;\nconst h: int;\nprocedure {:entrypoint} p(); modifies g; requires h > 0;\n");
}
