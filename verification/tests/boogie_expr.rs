use cachet::boogie::{AddOp, ArithCoercionKind, BvLit, ClaimKind, LogicalOp, MulOp, NegOp, QuantKind, RelOp, StringLit, YieldCmd};
use cachet::boogie_expr::{
    ArithCoercionExpr, ArraySubscript, ArrayExpr, AssignCmd, AssignLhs, AttrContent, AttrOrTrigger,
    AttrParam, AttrTypedIdentsWhere, AttrTypedIdentsWheres, AtomTypeApp, CallCmd, CallParams,
    ClaimCmd, CodeExpr, Coercion, CoercionExpr, EquivExpr, Expr, Exprs, Factor, FuncCall,
    HavocCmd, Idents, IfThenElseExpr, ImpliesExpr, Label, LabelOrCmd, LocalVars, LogicalExpr,
    MapType, NegExpr, OldExpr, ParCallCmd, Power, QuantBody, QuantExpr, RelExpr, SpecBlock,
    SpecReturn, SpecTransfer, Spanned, Term, Type, TypeApp, TypeArgs, TypeAtom, TypeParams,
    TypedIdents, TypedIdentsWhere, TypedIdentsWheres,
};
use cachet::ident::Ident;
use cachet::span::RawSpan;

fn id(s: &str) -> Ident {
    Ident::from_str(s)
}

fn sp<T>(value: T) -> Spanned<T> {
    Spanned { span: RawSpan::new(0, 0), value }
}

fn var(s: &str) -> Expr {
    Expr::Var(id(s))
}

fn num(s: &str) -> Expr {
    Expr::Nat(s.to_string())
}

fn idents(names: &[&str]) -> Idents {
    Idents { idents: names.iter().map(|n| sp(id(n))).collect() }
}

fn exprs(es: Vec<Expr>) -> Exprs {
    Exprs { exprs: es }
}

fn implies(lhs: Expr, rhs: Expr) -> Expr {
    Expr::Implies(Box::new(ImpliesExpr { lhs, rhs }))
}

fn logical(lhs: Expr, op: LogicalOp, rhs: Expr) -> Expr {
    Expr::Logical(Box::new(LogicalExpr { lhs, op, rhs }))
}

fn term(lhs: Expr, op: AddOp, rhs: Expr) -> Expr {
    Expr::Term(Box::new(Term { lhs, op, rhs }))
}

fn factor(lhs: Expr, op: MulOp, rhs: Expr) -> Expr {
    Expr::Factor(Box::new(Factor { lhs, op, rhs }))
}

fn power(lhs: Expr, rhs: Expr) -> Expr {
    Expr::Power(Box::new(Power { lhs, rhs }))
}

fn rel(lhs: Expr, op: RelOp, rhs: Expr) -> Expr {
    Expr::Rel(Box::new(RelExpr { lhs, op, rhs }))
}

fn int_type() -> Type {
    Type::Atom(TypeAtom::Int)
}

fn typed(names: &[&str], type_: Type) -> TypedIdentsWhere {
    TypedIdentsWhere { typed_idents: TypedIdents { idents: idents(names), type_ }, where_: None }
}

#[test]
fn implications_associate_to_the_right() {
    assert_eq!(implies(var("a"), implies(var("b"), var("c"))).to_string(), "a ==> b ==> c");
    assert_eq!(implies(implies(var("a"), var("b")), var("c")).to_string(), "(a ==> b) ==> c");
    let equiv = Expr::Equiv(Box::new(EquivExpr { lhs: var("p"), rhs: implies(var("q"), var("r")) }));
    assert_eq!(equiv.to_string(), "p <==> q ==> r");
    let nested = Expr::Equiv(Box::new(EquivExpr {
        lhs: var("p"),
        rhs: Expr::Equiv(Box::new(EquivExpr { lhs: var("q"), rhs: var("r") })),
    }));
    assert_eq!(nested.to_string(), "p <==> (q <==> r)");
}

#[test]
fn mixed_logical_operators_are_grouped() {
    let or = logical(var("a"), LogicalOp::Or, var("b"));
    assert_eq!(logical(or, LogicalOp::And, var("c")).to_string(), "(a || b) && c");
    let and = logical(var("a"), LogicalOp::And, var("b"));
    assert_eq!(logical(and, LogicalOp::And, var("c")).to_string(), "a && b && c");
    let and = logical(var("b"), LogicalOp::And, var("c"));
    assert_eq!(logical(var("a"), LogicalOp::And, and).to_string(), "a && (b && c)");
}

#[test]
fn arithmetic_precedence() {
    let inner = term(var("b"), AddOp::Sub, var("c"));
    assert_eq!(term(var("a"), AddOp::Sub, inner).to_string(), "a - (b - c)");
    let inner = term(var("a"), AddOp::Sub, var("b"));
    assert_eq!(term(inner, AddOp::Sub, var("c")).to_string(), "a - b - c");
    let product = factor(var("a"), MulOp::Mul, var("b"));
    assert_eq!(term(product, AddOp::Add, var("c")).to_string(), "a * b + c");
    let sum = term(var("a"), AddOp::Add, var("b"));
    assert_eq!(factor(sum, MulOp::Div, var("c")).to_string(), "(a + b) div c");
    assert_eq!(power(power(var("a"), var("b")), var("c")).to_string(), "(a ** b) ** c");
    assert_eq!(power(var("a"), power(var("b"), var("c"))).to_string(), "a ** b ** c");
    let cmp = rel(var("a"), RelOp::Lt, var("b"));
    assert_eq!(rel(cmp, RelOp::Eq, Expr::BoolLit(true)).to_string(), "(a < b) == true");
}

#[test]
fn negations_and_conditionals() {
    let sum = term(var("a"), AddOp::Add, num("1"));
    let neg = Expr::Neg(Box::new(NegExpr { op: NegOp::Arith, expr: sum }));
    assert_eq!(neg.to_string(), "-(a + 1)");
    let not = Expr::Neg(Box::new(NegExpr { op: NegOp::Logical, expr: var("x") }));
    assert_eq!(not.to_string(), "!x");
    let cond = Expr::IfThenElse(Box::new(IfThenElseExpr { cond: var("c"), then_: num("1"), else_: num("2") }));
    assert_eq!(term(cond, AddOp::Add, num("1")).to_string(), "(if c then 1 else 2) + 1");
}

#[test]
fn subscripts_coercions_and_calls() {
    let lookup = Expr::Array(Box::new(ArrayExpr {
        expr: var("m"),
        subscripts: vec![
            ArraySubscript { keys: exprs(vec![num("1")]), value: None },
            ArraySubscript { keys: exprs(vec![num("2")]), value: Some(num("3")) },
            ArraySubscript { keys: exprs(vec![]), value: Some(num("4")) },
        ],
    }));
    assert_eq!(lookup.to_string(), "m[1][2 := 3][:= 4]");
    let coerced = Expr::Coercion(Box::new(CoercionExpr {
        expr: term(var("x"), AddOp::Add, num("1")),
        coercions: vec![Coercion::Type(int_type()), Coercion::Nat("32".to_string())],
    }));
    assert_eq!(coerced.to_string(), "(x + 1) : int : 32");
    let call = Expr::FuncCall(FuncCall { target: id("f"), args: exprs(vec![num("1"), var("y")]) });
    assert_eq!(call.to_string(), "f(1, y)");
    assert_eq!(Expr::Old(Box::new(OldExpr { expr: var("x") })).to_string(), "old (x)");
    let real = Expr::ArithCoercion(Box::new(ArithCoercionExpr { kind: ArithCoercionKind::Real, expr: var("x") }));
    assert_eq!(real.to_string(), "real(x)");
    let bv = Expr::BvLit(BvLit { n: "5".to_string(), width: "8".to_string() });
    assert_eq!(bv.to_string(), "5bv8");
}

#[test]
fn quantifiers_with_attributes_and_triggers() {
    let weight = AttrOrTrigger::Attr(AttrContent {
        ident: id("weight"),
        params: vec![AttrParam::Expr(num("3")), AttrParam::String(StringLit { text: "w".to_string() })],
    });
    let trigger = AttrOrTrigger::Trigger(exprs(vec![Expr::FuncCall(FuncCall {
        target: id("f"),
        args: exprs(vec![var("x")]),
    })]));
    let q = Expr::Quant(Box::new(QuantExpr {
        kind: QuantKind::ForAll,
        body: QuantBody {
            type_params: TypeParams { params: idents(&["T"]) },
            bound_vars: AttrTypedIdentsWheres {
                items: vec![sp(AttrTypedIdentsWhere { attrs: vec![], typed_idents_where: typed(&["x", "y"], int_type()) })],
            },
            attrs: vec![weight, trigger],
            expr: rel(var("x"), RelOp::Gt, num("0")),
        },
    }));
    assert_eq!(q.to_string(), "(forall <T> x, y: int :: {:weight 3, \"w\"} {f(x)} x > 0)");
    let plain = Expr::Quant(Box::new(QuantExpr {
        kind: QuantKind::Exists,
        body: QuantBody {
            type_params: TypeParams { params: idents(&[]) },
            bound_vars: AttrTypedIdentsWheres { items: vec![] },
            attrs: vec![],
            expr: Expr::BoolLit(false),
        },
    }));
    assert_eq!(plain.to_string(), "(exists :: false)");
}

#[test]
fn code_expressions_are_indented() {
    let code = Expr::Code(Box::new(CodeExpr {
        local_vars: vec![LocalVars {
            attrs: vec![],
            vars: TypedIdentsWheres { items: vec![sp(typed(&["x"], int_type()))] },
        }],
        spec_blocks: vec![SpecBlock {
            label: id("entry"),
            cmds: vec![LabelOrCmd::Claim(ClaimCmd {
                kind: ClaimKind::Assume,
                attrs: vec![],
                proposition: rel(var("x"), RelOp::Gt, num("0")),
            })],
            transfer: SpecTransfer::Return(SpecReturn { value: var("x") }),
        }],
    }));
    assert_eq!(code.to_string(), "|{\n  var x: int;\n\n  entry:\n    assume x > 0;\n    return x;\n}|");
}

#[test]
fn types() {
    let app = Type::App(TypeApp {
        head: id("Foo"),
        tail: Some(Box::new(TypeArgs::AtomApp(AtomTypeApp {
            head: TypeAtom::Int,
            tail: Some(Box::new(TypeArgs::App(TypeApp { head: id("Bar"), tail: None }))),
        }))),
    });
    assert_eq!(app.to_string(), "Foo int Bar");
    let map = Type::MapType(MapType {
        type_params: TypeParams { params: idents(&["T"]) },
        keys: vec![int_type(), Type::App(TypeApp { head: id("T"), tail: None })],
        value: Box::new(Type::Atom(TypeAtom::Paren(Box::new(Type::Atom(TypeAtom::Bool))))),
    });
    assert_eq!(map.to_string(), "<T>[int, T](bool)");
}

#[test]
fn commands() {
    let assign = LabelOrCmd::Assign(AssignCmd {
        lhs: vec![
            AssignLhs { ident: id("x"), subscripts: vec![] },
            AssignLhs { ident: id("m"), subscripts: vec![exprs(vec![num("1"), num("2")])] },
        ],
        rhs: exprs(vec![num("1"), num("2")]),
    });
    assert_eq!(assign.to_string(), "x, m[1, 2] := 1, 2;");
    let call = LabelOrCmd::Call(CallCmd {
        attrs: vec![AttrOrTrigger::Attr(AttrContent { ident: id("a"), params: vec![] })],
        call_params: CallParams { returns: idents(&["r"]), target: id("p"), params: exprs(vec![num("1")]) },
        is_async: true,
        is_free: true,
    });
    assert_eq!(call.to_string(), "async free call {:a} r := p(1);");
    let havoc = LabelOrCmd::Havoc(HavocCmd { vars: idents(&["x", "y"]) });
    assert_eq!(havoc.to_string(), "havoc x, y;");
    let par = LabelOrCmd::ParCall(ParCallCmd {
        attrs: vec![],
        calls: vec![
            CallParams { returns: idents(&[]), target: id("p"), params: exprs(vec![num("1")]) },
            CallParams { returns: idents(&[]), target: id("q"), params: exprs(vec![]) },
        ],
    });
    assert_eq!(par.to_string(), "par p(1) | q();");
    assert_eq!(LabelOrCmd::Label(Label { ident: id("L") }).to_string(), "L:");
    assert_eq!(LabelOrCmd::Yield(YieldCmd).to_string(), "yield;");
}
