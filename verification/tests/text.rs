use cachet::boogie::{
    AddOp, ArithCoercionKind, BvLit, ClaimKind, ContractKind, Dec, Exp, Float, FloatValue,
    LogicalOp, MulOp, NegOp, PlainFloatValue, QuantKind, RelOp, ReturnCmd, StringLit, YieldCmd,
};
use cachet::bpl_names::{
    BinOperTypeMemberFnSelector, BitVecTypeIdent, BplBinOper, CheckAttr, EmitFnLabelSegment,
    EmitLabelIdent, EmitLabelSegment, EmitLabelSegmentIdent, EmitOpLabelSegment, FloatTypeIdent,
    FnAttr, InlineProcAttr, IrIdent, IrMemberGlobalVarSelector, IrMemberTypeSelector,
    NativeTypeIdent, NegateTypeMemberFnSelector, OpSelector, PreludeFnIdent, PreludeTypeIdent,
    ProcAttr, SyntheticVarIdent, SyntheticVarKind, TypeAttr, UserFnIdent, UserOpSelector,
};
use cachet::ident::{Ident, Path};
use cachet::parse_error::{ParseError, RawParseError};
use cachet::span::{ExternalSpan, FileId, RawSpan, Span, Spanned};
use cachet::stub::{
    Arg, CallFlags, Engine, Fact, Field, FieldData, ImmValue, MirType, Op, OpArgData, OperandId,
    OperandIdType, ShapeNumFixedSlotsFact, Stub,
};
use cachet::syntax::{
    ArithBinOper, BitwiseBinOper, CompareBinOper, LogicalBinOper, NegateKind, NumericCompareBinOper,
};
use cachet::text::{push_bool, push_dec, push_hex, push_signed_dec, push_str};

fn ident(s: &str) -> Ident {
    Ident::from_str(s)
}

#[test]
fn numbers_to_text() {
    let mut s = String::new();
    push_dec(&mut s, 0);
    push_str(&mut s, " ");
    push_dec(&mut s, 1234567890);
    push_str(&mut s, " ");
    push_hex(&mut s, 0xdeadbeef);
    push_str(&mut s, " ");
    push_signed_dec(&mut s, -42);
    push_str(&mut s, " ");
    push_signed_dec(&mut s, i64::MIN);
    push_str(&mut s, " ");
    push_bool(&mut s, false);
    assert_eq!(s, "0 1234567890 deadbeef -42 -9223372036854775808 false");
}

#[test]
fn paths_to_text() {
    let p = Path::from_ident(ident("CacheIR")).nest(ident("readShapeField"));
    assert_eq!(p.to_string(), "CacheIR::readShapeField");
    assert_eq!(p.len(), 2);
    assert!(p.has_parent());
    assert_eq!(p.parent().unwrap().to_string(), "CacheIR");
    assert_eq!(p.ident().as_str(), "readShapeField");
    let mut q = Path::from_ident(ident("a"));
    q.extend(vec![ident("b"), ident("c")]);
    assert_eq!(q.to_string(), "a::b::c");
    assert!(Path::from_segments(vec![ident("a"), ident("b"), ident("c")]) == q);
    assert!(Path::from_ident(ident("a")).parent().is_none());
}

#[test]
fn stub_parts_to_text() {
    let field = Field { offset: 24, data: FieldData::RawInt64(-5) };
    assert_eq!(field.to_string(), "RawInt64Field 24, -5");
    let field = Field { offset: 8, data: FieldData::Atom(0xff) };
    assert_eq!(field.to_string(), "AtomField 8, ff");
    let op = Op {
        ident: ident("CallNativeFunction"),
        args: vec![
            Arg { ident: ident("callee"), data: OpArgData::OperandId(OperandId { id: 3, type_: OperandIdType::ObjId }) },
            Arg {
                ident: ident("flags"),
                data: OpArgData::ImmValue(ImmValue::CallFlags(CallFlags {
                    arg_format: ident("Standard"),
                    is_constructing: true,
                    is_same_realm: true,
                    needs_uninitialized_this: false,
                })),
            },
            Arg { ident: ident("n"), data: OpArgData::ImmValue(ImmValue::Int32(-1)) },
        ],
    };
    assert_eq!(
        op.to_string(),
        "CallNativeFunction [ObjId callee] 3, [CallFlagsImm flags] Standard+ isConstructing+ isSameRealm, [Int32Imm n] -1"
    );
    assert_eq!(Op { ident: ident("ReturnFromIC"), args: vec![] }.to_string(), "ReturnFromIC");
    let fact = Fact::ShapeNumFixedSlots(ShapeNumFixedSlotsFact { shape: 0xab, num_fixed_slots: 4 });
    assert_eq!(fact.to_string(), "ShapeNumFixedSlots ab, 4");
}

#[test]
fn stub_to_text() {
    let stub = Stub {
        kind: ident("GetProp"),
        engine: Engine::IonIC,
        input_operands: vec![Arg { ident: ident("obj"), data: OperandId { id: 0, type_: OperandIdType::ValId } }],
        output: Some(MirType::NoneType),
        ops: vec![Op { ident: ident("ReturnFromIC"), args: vec![] }],
        fields: vec![Field { offset: 0, data: FieldData::Shape(0x10) }],
        facts: vec![],
    };
    assert_eq!(
        stub.to_string(),
        "GetProp IonIC\nInput [ValId obj] 0\n%\n\nReturnFromIC\n%\n\nShapeField 0, 10\n%"
    );
    assert_eq!(MirType::NoneType.name(), "None");
}

#[test]
fn boogie_tokens() {
    assert_eq!(ContractKind::Requires.as_str(), "requires");
    assert_eq!(ClaimKind::Assume.as_str(), "assume");
    assert_eq!(ReturnCmd.as_str(), "return;");
    assert_eq!(YieldCmd.as_str(), "yield;");
    assert_eq!(LogicalOp::Or.as_str(), "||");
    assert_eq!(RelOp::Subtype.as_str(), "<:");
    assert_eq!(RelOp::Le.as_str(), "<=");
    assert_eq!(AddOp::Sub.as_str(), "-");
    assert_eq!(MulOp::Div.as_str(), "div");
    assert_eq!(MulOp::RealDiv.as_str(), "/");
    assert_eq!(NegOp::Logical.as_str(), "!");
    assert_eq!(ArithCoercionKind::Real.as_str(), "real");
    assert_eq!(QuantKind::Lambda.as_str(), "lambda");
}

#[test]
fn boogie_literals() {
    let dec = Dec {
        whole: "12".to_string(),
        fract: Some("5".to_string()),
        exp: Some(Exp { is_neg: true, digits: "3".to_string() }),
    };
    assert_eq!(dec.to_string(), "12.5e-3");
    assert_eq!(Dec { whole: "7".to_string(), fract: None, exp: None }.to_string(), "7");
    let float = Float {
        value: FloatValue::Plain(PlainFloatValue {
            is_neg: true,
            whole: "1".to_string(),
            fract: "8".to_string(),
            exp: Exp { is_neg: false, digits: "2".to_string() },
        }),
        sig_size: "24".to_string(),
        exp_size: "8".to_string(),
    };
    assert_eq!(float.to_string(), "-0x1.8e2f24e8");
    let nan = Float { value: FloatValue::NotANumber, sig_size: "53".to_string(), exp_size: "11".to_string() };
    assert_eq!(nan.to_string(), "0NaN53e11");
    let inf = Float { value: FloatValue::NegInfinity, sig_size: "53".to_string(), exp_size: "11".to_string() };
    assert_eq!(inf.to_string(), "0-oo53e11");
    assert_eq!(BvLit { n: "5".to_string(), width: "32".to_string() }.to_string(), "5bv32");
    assert_eq!(StringLit { text: "a\\\"b".to_string() }.to_string(), "\"a\\\"b\"");
}

#[test]
fn generated_boogie_names() {
    assert_eq!(NativeTypeIdent::Bool.to_string(), "bool");
    assert_eq!(NativeTypeIdent::BitVec(BitVecTypeIdent { width: 32 }).to_string(), "bv32");
    assert_eq!(NativeTypeIdent::Float(FloatTypeIdent { sig_width: 24, exp_width: 8 }).to_string(), "float24e8");
    assert_eq!(PreludeTypeIdent::EmitPath.as_str(), "EmitPath");
    assert_eq!(IrMemberTypeSelector::Op.as_str(), "Op");
    assert_eq!(IrMemberGlobalVarSelector::LabelPcs.as_str(), "labelPcs");
    assert_eq!(SyntheticVarIdent { kind: SyntheticVarKind::Out, index: 12 }.to_string(), "out'12");
    assert_eq!(PreludeFnIdent::EmitPathPcField.as_str(), "emitPath#Pc");
    assert_eq!(NegateTypeMemberFnSelector::new(NegateKind::Arith).as_str(), "negate");
    assert_eq!(NegateTypeMemberFnSelector::new(NegateKind::Bitwise).as_str(), "bitNot");
    assert_eq!(BinOperTypeMemberFnSelector::Bitwise(BitwiseBinOper::And).as_str(), "bitAnd");
    assert_eq!(BinOperTypeMemberFnSelector::NumericCompare(NumericCompareBinOper::Gte).as_str(), "gte");
    assert_eq!(BinOperTypeMemberFnSelector::Arith(ArithBinOper::Mod).as_str(), "mod");
    assert_eq!(TypeAttr::DataType.as_str(), "{:datatype}");
    assert_eq!(FnAttr::Ctor.as_str(), "{:constructor}");
    assert_eq!(ProcAttr::EntryPoint.to_string(), "{:entrypoint}");
    assert_eq!(ProcAttr::Inline(InlineProcAttr { depth: 3 }).to_string(), "{:inline 3}");
    assert_eq!(CheckAttr::Partition.as_str(), "{:partition}");
    assert_eq!(BplBinOper::Compare(CompareBinOper::Numeric(NumericCompareBinOper::Lte)).as_str(), "<=");
    assert_eq!(BplBinOper::Logical(LogicalBinOper::And).as_str(), "&&");
    assert_eq!(BplBinOper::Arith(ArithBinOper::Mul).as_str(), "*");
}

#[test]
fn emit_labels() {
    assert_eq!(EmitLabelIdent::exit().to_string(), "emit^Exit");
    let label = EmitLabelIdent {
        segments: vec![
            EmitLabelSegment {
                local_emit_index: 0,
                ident: EmitLabelSegmentIdent::Op(EmitOpLabelSegment {
                    ir_ident: IrIdent { ident: ident("CacheIR") },
                    op_selector: OpSelector::User(UserOpSelector { op_ident: ident("GuardShape") }),
                }),
            },
            EmitLabelSegment {
                local_emit_index: 2,
                ident: EmitLabelSegmentIdent::Fn(EmitFnLabelSegment {
                    user_fn_ident: UserFnIdent { parent_ident: Some(ident("MASM")), fn_ident: ident("jump") },
                }),
            },
        ],
    };
    assert_eq!(label.to_string(), "emit'0#CacheIR~GuardShape'2#MASM~jump");
}

#[test]
fn parse_error_messages_and_spans() {
    let file = FileId(3);
    let e = ParseError::new(file, RawParseError::InvalidToken { location: 7 });
    assert_eq!(e.message(), "invalid token");
    assert!(e.file_id() == file);
    assert!(e.span() == Span::External(ExternalSpan { file_id: file, span: RawSpan::new(7, 7) }));
    let e = ParseError::new(
        file,
        RawParseError::UnrecognizedToken {
            token: (2, "}".to_string(), 3),
            expected: vec!["r#\"[A-Za-z_][A-Za-z0-9_]*\"#".to_string(), "\";\"".to_string()],
        },
    );
    assert_eq!(e.message(), "unexpected token `}`; expected identiifer or `;`");
    assert!(e.span() == Span::External(ExternalSpan { file_id: file, span: RawSpan::new(2, 3) }));
    let e = ParseError::new(file, RawParseError::UnrecognizedEOF { location: 9, expected: vec![] });
    assert_eq!(e.message(), "unexpected end of input");
    let e = ParseError::new(
        file,
        RawParseError::UnrecognizedEOF {
            location: 9,
            expected: vec!["\"(\"".to_string(), "r#\"[0-9]+_u16\"#".to_string(), "\"{\"".to_string()],
        },
    );
    assert_eq!(e.message(), "unexpected end of input; expected `(`, UInt16 literal or `{`");
    let e = ParseError::new(file, RawParseError::ExtraToken { token: (4, "x".to_string(), 5) });
    assert_eq!(e.message(), "extra token `x`");
    let user_span = Span::new(FileId(1), 0, 4);
    let e = ParseError::new(
        file,
        RawParseError::User { error: Spanned::new(user_span, "bad literal".to_string()) },
    );
    assert_eq!(e.message(), "bad literal");
    assert!(e.span() == user_span);
}

#[test]
fn parse_error_clone_keeps_file_and_error() {
    let file = FileId(5);
    let e = ParseError::new(
        file,
        RawParseError::UnrecognizedToken {
            token: (2, "}".to_string(), 3),
            expected: vec!["\";\"".to_string()],
        },
    );
    let c = e.clone();
    assert!(e.file_id() == file);
    assert!(c.file_id() == file);
    assert_eq!(c.message(), e.message());
    assert!(c.span() == e.span());
}
