use cachet::ident::Ident;
use cachet::span::Span;
use cachet::stub::{
    Arg, Engine, Fact, Field, FieldData, FieldOffset, FieldType, ImmValue, MirType, Op, OpArgData,
    OperandId, OperandIdType, ShapeClassFact, Stub, TaggedProtoIsNullFact, ValueType, CallFlags,
};
use cachet::syntax::{
    Arg as SyntaxArg, BinOper, Call, CheckKind, CompareBinOper, Expr, Item, Literal, Stmt,
};
use cachet::translator::translate;

fn ident(s: &str) -> Ident {
    Ident::from_str(s)
}

fn operand_arg(name: &str, id: u16, type_: OperandIdType) -> Arg<OpArgData> {
    Arg { ident: ident(name), data: OpArgData::OperandId(OperandId { id, type_ }) }
}

fn sample_stub() -> Stub {
    Stub {
        kind: ident("GetProp"),
        engine: Engine::Baseline,
        input_operands: vec![Arg { ident: ident("obj"), data: OperandId { id: 0, type_: OperandIdType::ObjId } }],
        output: Some(MirType::Value),
        ops: vec![
            Op {
                ident: ident("GuardShape"),
                args: vec![
                    operand_arg("obj", 0, OperandIdType::ObjId),
                    Arg {
                        ident: ident("shape"),
                        data: OpArgData::FieldOffset(FieldOffset { offset: 0, type_: FieldType::ShapeField }),
                    },
                ],
            },
            Op {
                ident: ident("LoadFixedSlotResult"),
                args: vec![
                    operand_arg("obj", 2, OperandIdType::ValId),
                    operand_arg("val", 0, OperandIdType::ObjId),
                ],
            },
        ],
        fields: vec![
            Field { offset: 0, data: FieldData::Shape(0x1234) },
            Field { offset: 8, data: FieldData::RawPointer(5) },
            Field { offset: 16, data: FieldData::RawInt32(-7) },
        ],
        facts: vec![Fact::ShapeClass(ShapeClassFact { shape: 0x1234, class: 0x99 })],
    }
}

fn body_stmts(stub: &Stub) -> Vec<(Span, Stmt)> {
    let m = translate(stub);
    assert_eq!(m.items.len(), 3);
    let ir = match m.items.into_iter().nth(2).unwrap().value {
        Item::Ir(ir) => ir,
        _ => panic!("expected an IR item"),
    };
    assert_eq!(ir.ident.value.as_str(), "CacheStub");
    assert_eq!(ir.emits.unwrap().value.to_string(), "CacheIR");
    assert_eq!(ir.items.len(), 1);
    let op = match ir.items.into_iter().next().unwrap().value {
        Item::Op(op) => op,
        _ => panic!("expected an op item"),
    };
    assert_eq!(op.ident.value.as_str(), stub.kind.as_str());
    assert!(op.params.is_empty());
    assert!(!op.is_unsafe);
    let body = op.body.value.unwrap();
    assert!(body.value.value.is_none());
    body.stmts.into_iter().map(|s| (s.span, s.value)).collect()
}

fn call_of(stmt: &Stmt) -> &Call {
    match stmt {
        Stmt::Expr(Expr::Invoke(call)) => call,
        Stmt::Emit(call) => call,
        _ => panic!("expected a call statement"),
    }
}

fn arg_expr(call: &Call, i: usize) -> &Expr {
    match &call.args.value[i].value {
        SyntaxArg::Expr(e) => e,
        _ => panic!("expected an expression argument"),
    }
}

fn lit_call(e: &Expr) -> (String, Literal) {
    match e {
        Expr::Invoke(call) => match arg_expr(call, 0) {
            Expr::Literal(l) => (call.target.value.to_string(), *l),
            _ => panic!("expected a literal argument"),
        },
        _ => panic!("expected a call"),
    }
}

fn comment_text(stmt: &Stmt) -> String {
    match stmt {
        Stmt::Comment(c) => c.text.clone(),
        _ => panic!("expected a comment"),
    }
}

fn assumed_eq(stmt: &Stmt) -> (&Expr, &Expr) {
    match stmt {
        Stmt::Check(check) => {
            assert!(check.kind == CheckKind::Assume);
            match &check.cond.value {
                Expr::BinOper(b) => {
                    assert!(b.oper.value == BinOper::Compare(CompareBinOper::Eq));
                    (&b.lhs.value, &b.rhs.value)
                }
                _ => panic!("expected an equality"),
            }
        }
        _ => panic!("expected an assumption"),
    }
}

#[test]
fn translate_module_shape() {
    let stub = sample_stub();
    let m = translate(&stub);
    assert_eq!(m.items.len(), 3);
    match &m.items[0].value {
        Item::Import(i) => assert_eq!(i.file_path.value, "../../../../../notes/cacheir.cachet"),
        _ => panic!("expected an import"),
    }
    match &m.items[1].value {
        Item::Import(i) => assert_eq!(i.file_path.value, "../../../../../notes/utils.cachet"),
        _ => panic!("expected an import"),
    }
    for item in &m.items {
        assert!(item.span == Span::Internal);
    }
}

#[test]
fn translate_statement_count() {
    let stmts = body_stmts(&sample_stub());
    // register state, two operand ids, one input, the output, two of the
    // three fields, one fact and two operations
    assert_eq!(stmts.len(), 1 + 2 + 2 + 2 + 4 + 2 + 4);
    for (span, _) in &stmts {
        assert!(*span == Span::Internal);
    }
}

#[test]
fn translate_sets_up_operand_ids_in_order() {
    let stmts = body_stmts(&sample_stub());
    let first = call_of(&stmts[0].1);
    assert_eq!(first.target.value.to_string(), "initRegState");
    assert!(first.args.value.is_empty());
    for (k, id) in [(1usize, 0u16), (2, 2)] {
        let call = call_of(&stmts[k].1);
        assert_eq!(call.target.value.to_string(), "initOperandId");
        assert_eq!(lit_call(arg_expr(call, 0)), ("OperandId::fromId".to_string(), Literal::UInt16(id)));
    }
}

#[test]
fn translate_inputs_and_output() {
    let stmts = body_stmts(&sample_stub());
    assert_eq!(comment_text(&stmts[3].1), "Input [ObjId obj] 0");
    let init = call_of(&stmts[4].1);
    assert_eq!(init.target.value.to_string(), "initInputObjectId");
    assert_eq!(lit_call(arg_expr(init, 0)), ("ObjectId::fromId".to_string(), Literal::UInt16(0)));
    assert_eq!(comment_text(&stmts[5].1), "Output Value");
    let out = call_of(&stmts[6].1);
    assert_eq!(out.target.value.to_string(), "initValueOutput");
    assert!(out.args.value.is_empty());
}

#[test]
fn translate_typed_output() {
    let mut stub = sample_stub();
    stub.output = Some(MirType::Bool);
    let stmts = body_stmts(&stub);
    assert_eq!(comment_text(&stmts[5].1), "Output Bool");
    let out = call_of(&stmts[6].1);
    assert_eq!(out.target.value.to_string(), "initTypedOutput");
    match arg_expr(out, 0) {
        Expr::Var(v) => assert_eq!(v.value.to_string(), "MIRType::Boolean"),
        _ => panic!("expected a variable"),
    }
}

#[test]
fn translate_without_output() {
    let mut stub = sample_stub();
    stub.output = None;
    let stmts = body_stmts(&stub);
    assert_eq!(stmts.len(), 15);
    assert_eq!(comment_text(&stmts[5].1), "ShapeField 0, 1234");
}

#[test]
fn translate_fields() {
    let stmts = body_stmts(&sample_stub());
    assert_eq!(comment_text(&stmts[7].1), "ShapeField 0, 1234");
    let (lhs, rhs) = assumed_eq(&stmts[8].1);
    let read = match lhs {
        Expr::Invoke(call) => call,
        _ => panic!("expected a read"),
    };
    assert_eq!(read.target.value.to_string(), "CacheIR::readShapeField");
    assert_eq!(lit_call(arg_expr(read, 0)), ("ShapeField::fromOffset".to_string(), Literal::UInt32(0)));
    assert_eq!(lit_call(rhs), ("Shape::fromAddr".to_string(), Literal::UInt64(0x1234)));
    // the raw pointer field is skipped; the raw int32 field comes next
    assert_eq!(comment_text(&stmts[9].1), "RawInt32Field 16, -7");
    let (lhs, rhs) = assumed_eq(&stmts[10].1);
    match lhs {
        Expr::Invoke(call) => assert_eq!(call.target.value.to_string(), "CacheIR::readInt32Field"),
        _ => panic!("expected a read"),
    }
    assert!(matches!(rhs, Expr::Literal(Literal::Int32(-7))));
}

#[test]
fn translate_facts() {
    let stmts = body_stmts(&sample_stub());
    assert_eq!(comment_text(&stmts[11].1), "ShapeClass 1234, 99");
    let (lhs, rhs) = assumed_eq(&stmts[12].1);
    let class_of = match lhs {
        Expr::Invoke(call) => call,
        _ => panic!("expected a call"),
    };
    assert_eq!(class_of.target.value.to_string(), "Shape::classOf");
    assert_eq!(lit_call(arg_expr(class_of, 0)), ("Shape::fromAddr".to_string(), Literal::UInt64(0x1234)));
    assert_eq!(lit_call(rhs), ("Class::fromAddr".to_string(), Literal::UInt64(0x99)));
}

#[test]
fn translate_single_condition_fact() {
    let mut stub = sample_stub();
    stub.facts = vec![Fact::TaggedProtoIsNull(TaggedProtoIsNullFact { tagged_proto: 0x40 })];
    let stmts = body_stmts(&stub);
    assert_eq!(comment_text(&stmts[11].1), "TaggedProtoIsNull 40");
    match &stmts[12].1 {
        Stmt::Check(check) => {
            assert!(check.kind == CheckKind::Assume);
            match &check.cond.value {
                Expr::Invoke(call) => {
                    assert_eq!(call.target.value.to_string(), "TaggedProto::isNull");
                    assert_eq!(
                        lit_call(arg_expr(call, 0)),
                        ("TaggedProto::fromAddr".to_string(), Literal::UInt64(0x40))
                    );
                }
                _ => panic!("expected a call"),
            }
        }
        _ => panic!("expected an assumption"),
    }
}

#[test]
fn translate_ops_in_order() {
    let stmts = body_stmts(&sample_stub());
    assert_eq!(comment_text(&stmts[13].1), "GuardShape [ObjId obj] 0, [ShapeField shape] 0");
    assert!(matches!(stmts[14].1, Stmt::Emit(_)));
    let emit = call_of(&stmts[14].1);
    assert_eq!(emit.target.value.to_string(), "CacheIR::GuardShape");
    assert_eq!(emit.args.value.len(), 2);
    assert_eq!(lit_call(arg_expr(emit, 0)), ("ObjectId::fromId".to_string(), Literal::UInt16(0)));
    assert_eq!(lit_call(arg_expr(emit, 1)), ("ShapeField::fromOffset".to_string(), Literal::UInt32(0)));
    let emit = call_of(&stmts[16].1);
    assert_eq!(emit.target.value.to_string(), "CacheIR::LoadFixedSlotResult");
    assert_eq!(lit_call(arg_expr(emit, 0)), ("ValueId::fromId".to_string(), Literal::UInt16(2)));
}

#[test]
fn translate_immediate_operands() {
    let mut stub = sample_stub();
    stub.ops = vec![Op {
        ident: ident("CallNative"),
        args: vec![
            Arg { ident: ident("flags"), data: OpArgData::ImmValue(ImmValue::CallFlags(CallFlags {
                arg_format: ident("Standard"),
                is_constructing: true,
                is_same_realm: false,
                needs_uninitialized_this: false,
            })) },
            Arg { ident: ident("type"), data: OpArgData::ImmValue(ImmValue::ValueType(ValueType::PrivateGcThing)) },
            Arg { ident: ident("n"), data: OpArgData::ImmValue(ImmValue::Byte(3)) },
            Arg { ident: ident("native"), data: OpArgData::ImmValue(ImmValue::JSNative(0xabc)) },
            Arg { ident: ident("op"), data: OpArgData::ImmValue(ImmValue::JSOp(ident("Add"))) },
        ],
    }];
    let stmts = body_stmts(&stub);
    let emit = call_of(&stmts[stmts.len() - 1].1);
    assert_eq!(emit.target.value.to_string(), "CacheIR::CallNative");
    match arg_expr(emit, 0) {
        Expr::Invoke(call) => {
            assert_eq!(call.target.value.to_string(), "CallFlags::new");
            let vars: Vec<String> = (0..4)
                .map(|i| match arg_expr(call, i) {
                    Expr::Var(v) => v.value.to_string(),
                    _ => panic!("expected a variable"),
                })
                .collect();
            assert_eq!(vars, vec!["ArgFormat::Standard", "true", "false", "false"]);
        }
        _ => panic!("expected a call"),
    }
    match arg_expr(emit, 1) {
        Expr::Var(v) => assert_eq!(v.value.to_string(), "ValueType::PrivateGCThing"),
        _ => panic!("expected a variable"),
    }
    assert!(matches!(arg_expr(emit, 2), Expr::Literal(Literal::UInt8(3))));
    assert_eq!(lit_call(arg_expr(emit, 3)), ("JSNative::fromAddr".to_string(), Literal::UInt64(0xabc)));
    match arg_expr(emit, 4) {
        Expr::Var(v) => assert_eq!(v.value.to_string(), "JSOp::Add"),
        _ => panic!("expected a variable"),
    }
}

#[test]
fn translate_deduplicates_operand_ids() {
    let mut stub = sample_stub();
    stub.input_operands.push(Arg { ident: ident("again"), data: OperandId { id: 2, type_: OperandIdType::ValId } });
    stub.ops.push(Op { ident: ident("Nop"), args: vec![operand_arg("x", 1, OperandIdType::Int32Id)] });
    let stmts = body_stmts(&stub);
    let ids: Vec<Literal> = (1..4)
        .map(|k| lit_call(arg_expr(call_of(&stmts[k].1), 0)).1)
        .collect();
    assert_eq!(ids, vec![Literal::UInt16(0), Literal::UInt16(1), Literal::UInt16(2)]);
    assert_eq!(comment_text(&stmts[4].1), "Input [ObjId obj] 0");
}

#[test]
fn translate_empty_stub() {
    let stub = Stub {
        kind: ident("Empty"),
        engine: Engine::IonIC,
        input_operands: vec![],
        output: None,
        ops: vec![],
        fields: vec![],
        facts: vec![],
    };
    let stmts = body_stmts(&stub);
    assert_eq!(stmts.len(), 1);
    assert_eq!(call_of(&stmts[0].1).target.value.to_string(), "initRegState");
}
