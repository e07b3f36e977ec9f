//! Translation of an inline-cache stub into a Cachet program that replays
//! it: the stub's operands, output, fields and heap facts become set-up
//! statements, and its operations are emitted in order.

use std::collections::BTreeSet;

use vstd::prelude::*;
use vstd::std_specs::btree::spec_btree_keys_iter;
use vstd::std_specs::cmp::OrdSpec;
use vstd::std_specs::iter::IteratorSpec;

use crate::ident::{Ident, Path};
use crate::span::{Span, Spanned};
use crate::stub::{
    CallFlags, Fact, Field, FieldData, FieldType, ImmValue, InputOperand, MirType, Op, OpArg,
    OpArgData, OperandId, OperandIdType, Stub, Typed, ValueType,
};
use crate::syntax::{
    Arg, BinOper, BinOperExpr, Block, CallableItem, Call, CheckKind, CheckStmt, Comment,
    CompareBinOper, Expr, ImportItem, IrItem, Item, Literal, Mod, Stmt,
};
use crate::text::{bool_text, push_str};

verus! {

broadcast use vstd::std_specs::btree::group_btree_axioms, vstd::laws_cmp::group_laws_cmp;

// ---------------------------------------------------------------------
// The shapes of synthesized syntax.
// ---------------------------------------------------------------------

/// `e` names the variable at path `p`; every part of it is synthesized.
pub open spec fn is_var(e: Expr, p: Seq<Seq<char>>) -> bool {
    e matches Expr::Var(v) && v.span == Span::Internal && v.value@ == p
}

/// `c` calls `target` with `n` expression arguments; every part of it is
/// synthesized.
pub open spec fn is_call_shape(c: Call, target: Seq<Seq<char>>, n: int) -> bool {
    &&& c.target.span == Span::Internal
    &&& c.target.value@ == target
    &&& c.args.span == Span::Internal
    &&& c.args.value@.len() == n
    &&& forall|i: int|
        #![trigger c.args.value@[i]]
        0 <= i < n ==> c.args.value@[i].span == Span::Internal && c.args.value@[i].value is Expr
}

/// The expression of an expression argument.
pub open spec fn arg_expr(a: Arg) -> Expr {
    match a {
        Arg::Expr(e) => e,
        _ => Expr::Literal(Literal::UInt8(0)),
    }
}

/// The `i`-th argument of a call, when it is an expression.
pub open spec fn call_arg(c: Call, i: int) -> Expr {
    arg_expr(c.args.value@[i].value)
}

/// `e` calls `target` with `n` expression arguments.
pub open spec fn is_call(e: Expr, target: Seq<Seq<char>>, n: int) -> bool {
    e matches Expr::Invoke(c) && is_call_shape(c, target, n)
}

/// The `i`-th argument of a call expression.
pub open spec fn expr_arg(e: Expr, i: int) -> Expr {
    match e {
        Expr::Invoke(c) => call_arg(c, i),
        _ => Expr::Literal(Literal::UInt8(0)),
    }
}

/// `e` is `target(lit)`.
pub open spec fn is_lit_call(e: Expr, target: Seq<Seq<char>>, lit: Literal) -> bool {
    is_call(e, target, 1) && expr_arg(e, 0) == Expr::Literal(lit)
}

/// `e` is `<ty>::fromAddr(addr)`.
pub open spec fn is_from_addr(e: Expr, ty: Seq<char>, addr: u64) -> bool {
    is_lit_call(e, seq![ty, "fromAddr"@], Literal::UInt64(addr))
}

/// `e` is `<ty>::<method>(<ty>::fromAddr(addr))`.
pub open spec fn is_addr_method(e: Expr, ty: Seq<char>, method: Seq<char>, addr: u64) -> bool {
    is_call(e, seq![ty, method], 1) && is_from_addr(expr_arg(e, 0), ty, addr)
}

// ---------------------------------------------------------------------
// Names of the Cachet types that stand for stub types.
// ---------------------------------------------------------------------

/// The Cachet type of an operand id of type `t`.
pub open spec fn operand_id_type_name(t: OperandIdType) -> Seq<char> {
    match t {
        OperandIdType::ValId => "ValueId"@,
        OperandIdType::ObjId => "ObjectId"@,
        OperandIdType::BooleanId => "BoolId"@,
        OperandIdType::RawId => "OperandId"@,
        _ => t.spec_name(),
    }
}

/// The Cachet type of a field of type `t`.
pub open spec fn field_type_name(t: FieldType) -> Seq<char> {
    match t {
        FieldType::AtomField => "StringField"@,
        FieldType::PropertyNameField => "StringField"@,
        FieldType::RawInt32Field => "Int32Field"@,
        FieldType::RawPointerField => "IntPtrField"@,
        FieldType::RawInt64Field => "Int64Field"@,
        _ => t.spec_name(),
    }
}

/// The Cachet variable for a value type: `ValueType::<name>`.
pub open spec fn value_type_path(t: ValueType) -> Seq<Seq<char>> {
    seq![
        "ValueType"@,
        match t {
            ValueType::Boolean => "Bool"@,
            ValueType::PrivateGcThing => "PrivateGCThing"@,
            _ => t.spec_name(),
        },
    ]
}

/// The Cachet variable for a MIR type: `MIRType::<name>`.
pub open spec fn mir_type_path(t: MirType) -> Seq<Seq<char>> {
    seq!["MIRType"@, if t == MirType::Bool { "Boolean"@ } else { t.spec_name() }]
}

/// `e` is `<Type>::fromId(id)` for the Cachet type of operand ids of type `t`.
pub open spec fn is_operand_id_expr(e: Expr, id: u16, t: OperandIdType) -> bool {
    is_lit_call(e, seq![operand_id_type_name(t), "fromId"@], Literal::UInt16(id))
}

/// `e` is `<Type>::fromOffset(offset)` for the Cachet type of fields of type `t`.
pub open spec fn is_field_expr(e: Expr, offset: u32, t: FieldType) -> bool {
    is_lit_call(e, seq![field_type_name(t), "fromOffset"@], Literal::UInt32(offset))
}

/// `e` is the variable `true` or `false`.
pub open spec fn is_bool_expr(e: Expr, b: bool) -> bool {
    is_var(e, seq![bool_text(b)])
}

/// `e` is `CallFlags::new(ArgFormat::<format>, <constructing>, <same realm>,
/// <needs uninitialized this>)`.
pub open spec fn is_call_flags_expr(e: Expr, f: CallFlags) -> bool {
    &&& is_call(e, seq!["CallFlags"@, "new"@], 4)
    &&& is_var(expr_arg(e, 0), seq!["ArgFormat"@, f.arg_format@])
    &&& is_bool_expr(expr_arg(e, 1), f.is_constructing)
    &&& is_bool_expr(expr_arg(e, 2), f.is_same_realm)
    &&& is_bool_expr(expr_arg(e, 3), f.needs_uninitialized_this)
}

/// `e` is the Cachet expression for an immediate operand: a named constant
/// becomes a variable of its enumeration, a number a literal of its width,
/// and a native function its address.
pub open spec fn is_imm_value_expr(e: Expr, v: ImmValue) -> bool {
    match v {
        ImmValue::JSOp(i) => is_var(e, seq!["JSOp"@, i@]),
        ImmValue::Bool(b) => is_bool_expr(e, b),
        ImmValue::Byte(n) => e == Expr::Literal(Literal::UInt8(n)),
        ImmValue::GuardClassKind(i) => is_var(e, seq!["GuardClassKind"@, i@]),
        ImmValue::ValueType(t) => is_var(e, value_type_path(t)),
        ImmValue::JSWhyMagic(i) => is_var(e, seq!["JSWhyMagic"@, i@]),
        ImmValue::CallFlags(f) => is_call_flags_expr(e, f),
        ImmValue::ScalarType(i) => is_var(e, seq!["ScalarType"@, i@]),
        ImmValue::UnaryMathFunction(i) => is_var(e, seq!["UnaryMathFunction"@, i@]),
        ImmValue::WasmValType(i) => is_var(e, seq!["WasmValType"@, i@]),
        ImmValue::Int32(n) => e == Expr::Literal(Literal::Int32(n)),
        ImmValue::UInt32(n) => e == Expr::Literal(Literal::UInt32(n)),
        ImmValue::JSNative(a) => is_from_addr(e, "JSNative"@, a),
        ImmValue::AllocKind(i) => is_var(e, seq!["AllocKind"@, i@]),
    }
}

// ---------------------------------------------------------------------
// The shapes of synthesized statements.
// ---------------------------------------------------------------------

/// `s` is the synthesized comment `text`.
pub open spec fn is_comment_stmt(s: Spanned<Stmt>, text: Seq<char>) -> bool {
    &&& s.span == Span::Internal
    &&& s.value matches Stmt::Comment(c) && c.text@ == text
}

/// `s` is a synthesized expression statement.
pub open spec fn is_expr_stmt(s: Spanned<Stmt>) -> bool {
    s.span == Span::Internal && s.value is Expr
}

/// The expression of an expression statement.
pub open spec fn stmt_expr(s: Spanned<Stmt>) -> Expr {
    match s.value {
        Stmt::Expr(e) => e,
        _ => Expr::Literal(Literal::UInt8(0)),
    }
}

/// `s` is the synthesized statement `target();`.
pub open spec fn is_call0_stmt(s: Spanned<Stmt>, target: Seq<Seq<char>>) -> bool {
    is_expr_stmt(s) && is_call(stmt_expr(s), target, 0)
}

/// `s` is a synthesized `assume` of a synthesized condition.
pub open spec fn is_assume_stmt(s: Spanned<Stmt>) -> bool {
    &&& s.span == Span::Internal
    &&& s.value matches Stmt::Check(c) && c.kind == CheckKind::Assume && c.cond.span
        == Span::Internal
}

/// The condition of an `assume` statement.
pub open spec fn assumed(s: Spanned<Stmt>) -> Expr {
    match s.value {
        Stmt::Check(c) => c.cond.value,
        _ => Expr::Literal(Literal::UInt8(0)),
    }
}

/// `e` is the synthesized equality `lhs == rhs`.
pub open spec fn is_eq_expr(e: Expr) -> bool {
    &&& e matches Expr::BinOper(b) && b.oper.span == Span::Internal && b.oper.value
        == BinOper::Compare(CompareBinOper::Eq) && b.lhs.span == Span::Internal && b.rhs.span
        == Span::Internal
}

/// The left operand of a binary operation.
pub open spec fn eq_lhs(e: Expr) -> Expr {
    match e {
        Expr::BinOper(b) => b.lhs.value,
        _ => Expr::Literal(Literal::UInt8(0)),
    }
}

/// The right operand of a binary operation.
pub open spec fn eq_rhs(e: Expr) -> Expr {
    match e {
        Expr::BinOper(b) => b.rhs.value,
        _ => Expr::Literal(Literal::UInt8(0)),
    }
}

/// `s` is `assume lhs == rhs;` where `lhs` is `<ty>::<method>(<ty>::fromAddr(addr))`.
pub open spec fn is_assume_addr_method_eq(
    s: Spanned<Stmt>,
    ty: Seq<char>,
    method: Seq<char>,
    addr: u64,
) -> bool {
    &&& is_assume_stmt(s)
    &&& is_eq_expr(assumed(s))
    &&& is_addr_method(eq_lhs(assumed(s)), ty, method, addr)
}

/// `s` is `assume <ty>::<method>(<ty>::fromAddr(addr));`.
pub open spec fn is_assume_addr_method(
    s: Spanned<Stmt>,
    ty: Seq<char>,
    method: Seq<char>,
    addr: u64,
) -> bool {
    is_assume_stmt(s) && is_addr_method(assumed(s), ty, method, addr)
}

// ---------------------------------------------------------------------
// What the translation of each part of a stub is.
// ---------------------------------------------------------------------

/// The operand ids that the operands of one operation refer to.
pub open spec fn op_arg_ids(args: Seq<OpArg>) -> Set<u16> {
    Set::new(
        |id: u16|
            exists|j: int|
                0 <= j < args.len() && ((#[trigger] args[j]).data matches OpArgData::OperandId(o)
                    && o.id == id),
    )
}

/// The operand ids that the operands of some operation refer to.
pub open spec fn ops_operand_ids(ops: Seq<Op>) -> Set<u16> {
    Set::new(
        |id: u16| exists|i: int| 0 <= i < ops.len() && op_arg_ids((#[trigger] ops[i]).args@).contains(id),
    )
}

/// The operand ids of the stub inputs.
pub open spec fn input_operand_ids(inputs: Seq<InputOperand>) -> Set<u16> {
    Set::new(|id: u16| exists|i: int| 0 <= i < inputs.len() && (#[trigger] inputs[i]).data.id == id)
}

/// Every operand id that the stub mentions: those of its inputs and those
/// that its operations take.
pub open spec fn operand_id_set(stub: Stub) -> Set<u16> {
    input_operand_ids(stub.input_operands@) + ops_operand_ids(stub.ops@)
}

/// `s` is `initOperandId(OperandId::fromId(id));`.
pub open spec fn is_init_operand_id_stmt(s: Spanned<Stmt>, id: u16) -> bool {
    &&& is_expr_stmt(s)
    &&& is_call(stmt_expr(s), seq!["initOperandId"@], 1)
    &&& is_operand_id_expr(expr_arg(stmt_expr(s), 0), id, OperandIdType::RawId)
}

/// `seg` initializes each id of `ids` once, in increasing order.
pub open spec fn operand_ids_seg_ok(ids: Set<u16>, seg: Seq<Spanned<Stmt>>) -> bool {
    exists|order: Seq<u16>|
        {
            &&& #[trigger] order.to_set() == ids
            &&& order.len() == seg.len()
            &&& forall|i: int, j: int| 0 <= i < j < order.len() ==> order[i] < order[j]
            &&& forall|i: int| 0 <= i < order.len() ==> is_init_operand_id_stmt(seg[i], order[i])
        }
}

/// `s` is `initInput<Type>(<Type>::fromId(id));` for the input operand `o`.
pub open spec fn is_init_input_stmt(s: Spanned<Stmt>, o: OperandId) -> bool {
    &&& is_expr_stmt(s)
    &&& is_call(stmt_expr(s), seq!["initInput"@ + operand_id_type_name(o.type_)], 1)
    &&& is_operand_id_expr(expr_arg(stmt_expr(s), 0), o.id, o.type_)
}

/// `seg` describes and initializes each input operand, in order.
pub open spec fn inputs_seg_ok(inputs: Seq<InputOperand>, seg: Seq<Spanned<Stmt>>) -> bool {
    &&& seg.len() == 2 * inputs.len()
    &&& forall|i: int|
        #![trigger inputs[i]]
        0 <= i < inputs.len() ==> is_comment_stmt(seg[2 * i], "Input "@ + inputs[i].text())
            && is_init_input_stmt(seg[2 * i + 1], inputs[i].data)
}

/// The number of statements that set up the output.
pub open spec fn output_len(output: Option<MirType>) -> int {
    if output is Some { 2 } else { 0 }
}

/// `seg` describes and initializes the output, if there is one: a boxed
/// value or a value of a given MIR type.
pub open spec fn output_seg_ok(output: Option<MirType>, seg: Seq<Spanned<Stmt>>) -> bool {
    match output {
        None => seg.len() == 0,
        Some(t) => {
            &&& seg.len() == 2
            &&& is_comment_stmt(seg[0], "Output "@ + t.spec_name())
            &&& if t == MirType::Value {
                is_call0_stmt(seg[1], seq!["initValueOutput"@])
            } else {
                &&& is_expr_stmt(seg[1])
                &&& is_call(stmt_expr(seg[1]), seq!["initTypedOutput"@], 1)
                &&& is_var(expr_arg(stmt_expr(seg[1]), 0), mir_type_path(t))
            }
        },
    }
}

/// Whether the translation states what a field holds: shapes, strings and
/// raw integers.
pub open spec fn field_selected(f: Field) -> bool {
    f.data is Shape || f.data is String || f.data is RawInt32 || f.data is RawInt64
}

/// The fields whose contents the translation states, in order.
pub open spec fn selected_fields(fields: Seq<Field>) -> Seq<Field> {
    fields.filter(|f: Field| field_selected(f))
}

/// `e` is the Cachet value of field data `d`.
pub open spec fn is_field_data_expr(e: Expr, d: FieldData) -> bool {
    match d {
        FieldData::Shape(a) => is_from_addr(e, "Shape"@, a),
        FieldData::String(a) => is_from_addr(e, "String"@, a),
        FieldData::RawInt32(n) => e == Expr::Literal(Literal::Int32(n)),
        FieldData::RawInt64(n) => e == Expr::Literal(Literal::Int64(n)),
        _ => false,
    }
}

/// `s` is `assume CacheIR::read<Type>(<Type>::fromOffset(offset)) == <data>;`.
pub open spec fn is_field_assume_stmt(s: Spanned<Stmt>, f: Field) -> bool {
    let t = f.data.spec_type();
    let lhs = eq_lhs(assumed(s));
    &&& is_assume_stmt(s)
    &&& is_eq_expr(assumed(s))
    &&& is_call(lhs, seq!["CacheIR"@, "read"@ + field_type_name(t)], 1)
    &&& is_field_expr(expr_arg(lhs, 0), f.offset, t)
    &&& is_field_data_expr(eq_rhs(assumed(s)), f.data)
}

/// `seg` describes each selected field and assumes its contents, in order.
pub open spec fn fields_seg_ok(fields: Seq<Field>, seg: Seq<Spanned<Stmt>>) -> bool {
    let sel = selected_fields(fields);
    &&& seg.len() == 2 * sel.len()
    &&& forall|i: int|
        #![trigger sel[i]]
        0 <= i < sel.len() ==> is_comment_stmt(seg[2 * i], sel[i].text()) && is_field_assume_stmt(
            seg[2 * i + 1],
            sel[i],
        )
}

/// `s` assumes the heap fact `f`.
pub open spec fn is_fact_stmt(s: Spanned<Stmt>, f: Fact) -> bool {
    match f {
        Fact::ShapeBase(x) => is_assume_addr_method_eq(s, "Shape"@, "baseShapeOf"@, x.shape)
            && is_from_addr(eq_rhs(assumed(s)), "BaseShape"@, x.base_shape),
        Fact::ShapeClass(x) => is_assume_addr_method_eq(s, "Shape"@, "classOf"@, x.shape)
            && is_from_addr(eq_rhs(assumed(s)), "Class"@, x.class),
        Fact::ShapeNumFixedSlots(x) => is_assume_addr_method_eq(
            s,
            "Shape"@,
            "numFixedSlots"@,
            x.shape,
        ) && eq_rhs(assumed(s)) == Expr::Literal(Literal::UInt32(x.num_fixed_slots)),
        Fact::ShapeSlotSpan(x) => is_assume_addr_method_eq(s, "Shape"@, "slotSpan"@, x.shape)
            && eq_rhs(assumed(s)) == Expr::Literal(Literal::UInt32(x.slot_span)),
        Fact::BaseShapeTaggedProto(x) => is_assume_addr_method_eq(
            s,
            "BaseShape"@,
            "protoOf"@,
            x.base_shape,
        ) && is_from_addr(eq_rhs(assumed(s)), "TaggedProto"@, x.tagged_proto),
        Fact::ClassIsNativeObject(x) => is_assume_addr_method(
            s,
            "Class"@,
            "isNativeObject"@,
            x.class,
        ),
        Fact::TaggedProtoIsObject(x) => is_assume_addr_method(
            s,
            "TaggedProto"@,
            "isObject"@,
            x.tagged_proto,
        ),
        Fact::TaggedProtoIsLazy(x) => is_assume_addr_method(
            s,
            "TaggedProto"@,
            "isLazy"@,
            x.tagged_proto,
        ),
        Fact::TaggedProtoIsNull(x) => is_assume_addr_method(
            s,
            "TaggedProto"@,
            "isNull"@,
            x.tagged_proto,
        ),
        Fact::StringIsAtom(x) => is_assume_addr_method(s, "String"@, "isAtom"@, x.string),
    }
}

/// `seg` describes and assumes each fact, in order.
pub open spec fn facts_seg_ok(facts: Seq<Fact>, seg: Seq<Spanned<Stmt>>) -> bool {
    &&& seg.len() == 2 * facts.len()
    &&& forall|i: int|
        #![trigger facts[i]]
        0 <= i < facts.len() ==> is_comment_stmt(seg[2 * i], facts[i].text()) && is_fact_stmt(
            seg[2 * i + 1],
            facts[i],
        )
}

/// `e` is the Cachet expression for operand data `d`.
pub open spec fn is_op_arg_expr(e: Expr, d: OpArgData) -> bool {
    match d {
        OpArgData::OperandId(o) => is_operand_id_expr(e, o.id, o.type_),
        OpArgData::FieldOffset(f) => is_field_expr(e, f.offset, f.type_),
        OpArgData::ImmValue(v) => is_imm_value_expr(e, v),
    }
}

/// `s` is `emit CacheIR::<op>(<args>);` for the operation `op`.
pub open spec fn is_emit_op_stmt(s: Spanned<Stmt>, op: Op) -> bool {
    &&& s.span == Span::Internal
    &&& s.value matches Stmt::Emit(c) && is_call_shape(c, seq!["CacheIR"@, op.ident@], op.args@.len() as int)
        && forall|j: int|
        #![trigger op.args@[j]]
        0 <= j < op.args@.len() ==> is_op_arg_expr(call_arg(c, j), op.args@[j].data)
}

/// `seg` describes and emits each operation, in order.
pub open spec fn ops_seg_ok(ops: Seq<Op>, seg: Seq<Spanned<Stmt>>) -> bool {
    &&& seg.len() == 2 * ops.len()
    &&& forall|i: int|
        #![trigger ops[i]]
        0 <= i < ops.len() ==> is_comment_stmt(seg[2 * i], ops[i].text()) && is_emit_op_stmt(
            seg[2 * i + 1],
            ops[i],
        )
}

/// The body of the translated operation: it sets up the register state,
/// then the operand ids, the inputs, the output, the fields and the facts,
/// and then emits the operations.
pub open spec fn body_ok(stub: Stub, stmts: Seq<Spanned<Stmt>>) -> bool {
    let ids = operand_id_set(stub);
    let a: int = 1 + ids.len() as int;
    let b: int = a + 2 * stub.input_operands@.len();
    let c: int = b + output_len(stub.output);
    let d: int = c + 2 * selected_fields(stub.fields@).len();
    let e: int = d + 2 * stub.facts@.len();
    &&& stmts.len() == e + 2 * stub.ops@.len()
    &&& is_call0_stmt(stmts[0], seq!["initRegState"@])
    &&& operand_ids_seg_ok(ids, stmts.subrange(1, a))
    &&& inputs_seg_ok(stub.input_operands@, stmts.subrange(a, b))
    &&& output_seg_ok(stub.output, stmts.subrange(b, c))
    &&& fields_seg_ok(stub.fields@, stmts.subrange(c, d))
    &&& facts_seg_ok(stub.facts@, stmts.subrange(d, e))
    &&& ops_seg_ok(stub.ops@, stmts.subrange(e, stmts.len() as int))
}

/// The translation of `stub`: a module that imports the CacheIR and utility
/// definitions and declares the IR `CacheStub`, which emits `CacheIR` and
/// holds one operation, named after the stub's kind, without parameters,
/// whose body replays the stub.
pub open spec fn translation_ok(stub: Stub, m: Mod) -> bool {
    &&& m.items@.len() == 3
    &&& m.items@[0].span == Span::Internal
    &&& m.items@[0].value matches Item::Import(i) && i.file_path.span == Span::Internal
        && i.file_path.value@ == "../../../../../notes/cacheir.cachet"@
    &&& m.items@[1].span == Span::Internal
    &&& m.items@[1].value matches Item::Import(i) && i.file_path.span == Span::Internal
        && i.file_path.value@ == "../../../../../notes/utils.cachet"@
    &&& m.items@[2].span == Span::Internal
    &&& m.items@[2].value matches Item::Ir(ir) && {
        &&& ir.ident.span == Span::Internal
        &&& ir.ident.value@ == "CacheStub"@
        &&& ir.emits matches Some(e) && e.span == Span::Internal && e.value@ == seq!["CacheIR"@]
        &&& ir.items@.len() == 1
        &&& ir.items@[0].span == Span::Internal
        &&& ir.items@[0].value matches Item::Op(op) && {
            &&& op.ident.span == Span::Internal
            &&& op.ident.value@ == stub.kind@
            &&& op.attrs@.len() == 0
            &&& !op.is_unsafe
            &&& op.params@.len() == 0
            &&& op.emits is None
            &&& op.ret is None
            &&& op.body.span == Span::Internal
            &&& op.body.value matches Some(body) && body.value.span == Span::Internal
                && body.value.value is None && body_ok(stub, body.stmts@)
        }
    }
}

// ---------------------------------------------------------------------
// Building synthesized syntax.
// ---------------------------------------------------------------------

/// The one-segment path `a`.
fn path1(a: &str) -> (r: Path)
    ensures
        r@ == seq![a@],
{
    Path::from_ident(Ident::from_str(a))
}

/// The two-segment path `a::b`.
fn path2(a: &str, b: &str) -> (r: Path)
    ensures
        r@ == seq![a@, b@],
{
    path_nest(a, Ident::from_str(b))
}

/// The two-segment path `a::ident`.
fn path_nest(a: &str, ident: Ident) -> (r: Path)
    ensures
        r@ == seq![a@, ident@],
{
    let r = path1(a).nest(ident);
    assert(r@ =~= seq![a@, ident@]);
    r
}

/// The variable expression `p`.
fn var_expr(p: Path) -> (e: Expr)
    ensures
        is_var(e, p@),
{
    Expr::Var(Spanned::internal(p))
}

/// The call `target()`.
fn call0(target: Path) -> (c: Call)
    ensures
        is_call_shape(c, target@, 0),
{
    Call { target: Spanned::internal(target), args: Spanned::internal(Vec::new()) }
}

/// The call `target(a0)`.
fn call1(target: Path, a0: Expr) -> (c: Call)
    ensures
        is_call_shape(c, target@, 1),
        call_arg(c, 0) == a0,
{
    let mut args = Vec::new();
    args.push(Spanned::internal(Arg::Expr(a0)));
    Call { target: Spanned::internal(target), args: Spanned::internal(args) }
}

/// The call expression `target(lit)`.
fn lit_call(target: Path, lit: Literal) -> (e: Expr)
    ensures
        is_lit_call(e, target@, lit),
{
    Expr::Invoke(call1(target, Expr::Literal(lit)))
}

/// The call `target(a0, a1, a2, a3)`.
fn call4(target: Path, a0: Expr, a1: Expr, a2: Expr, a3: Expr) -> (c: Call)
    ensures
        is_call_shape(c, target@, 4),
        call_arg(c, 0) == a0,
        call_arg(c, 1) == a1,
        call_arg(c, 2) == a2,
        call_arg(c, 3) == a3,
{
    let mut args = Vec::new();
    args.push(Spanned::internal(Arg::Expr(a0)));
    args.push(Spanned::internal(Arg::Expr(a1)));
    args.push(Spanned::internal(Arg::Expr(a2)));
    args.push(Spanned::internal(Arg::Expr(a3)));
    Call { target: Spanned::internal(target), args: Spanned::internal(args) }
}

/// The Cachet type of operand ids of type `operand_type`.
fn type_path_for_operand_id_type(operand_type: OperandIdType) -> (r: Path)
    ensures
        r@ == seq![operand_id_type_name(operand_type)],
{
    match operand_type {
        OperandIdType::ValId => path1("ValueId"),
        OperandIdType::ObjId => path1("ObjectId"),
        OperandIdType::StringId => path1("StringId"),
        OperandIdType::SymbolId => path1("SymbolId"),
        OperandIdType::BooleanId => path1("BoolId"),
        OperandIdType::Int32Id => path1("Int32Id"),
        OperandIdType::NumberId => path1("NumberId"),
        OperandIdType::BigIntId => path1("BigIntId"),
        OperandIdType::ValueTagId => path1("ValueTagId"),
        OperandIdType::IntPtrId => path1("IntPtrId"),
        OperandIdType::RawId => path1("OperandId"),
    }
}

/// The Cachet type of fields of type `field_type`.
fn type_path_for_field_type(field_type: FieldType) -> (r: Path)
    ensures
        r@ == seq![field_type_name(field_type)],
    decreases (if field_type is AtomField || field_type is PropertyNameField { 1int } else { 0 }),
{
    match field_type {
        FieldType::ShapeField => path1("ShapeField"),
        FieldType::GetterSetterField => path1("GetterSetterField"),
        FieldType::ObjectField => path1("ObjectField"),
        FieldType::StringField => path1("StringField"),
        FieldType::AtomField => type_path_for_field_type(FieldType::StringField),
        FieldType::PropertyNameField => type_path_for_field_type(FieldType::StringField),
        FieldType::SymbolField => path1("SymbolField"),
        FieldType::BaseScriptField => path1("BaseScriptField"),
        FieldType::RawInt32Field => path1("Int32Field"),
        FieldType::RawPointerField => path1("IntPtrField"),
        FieldType::IdField => path1("IdField"),
        FieldType::ValueField => path1("ValueField"),
        FieldType::RawInt64Field => path1("Int64Field"),
        FieldType::AllocSiteField => path1("AllocSiteField"),
    }
}

/// The Cachet variable for `value_type`.
fn var_path_for_value_type(value_type: ValueType) -> (r: Path)
    ensures
        r@ == value_type_path(value_type),
{
    match value_type {
        ValueType::Double => path2("ValueType", "Double"),
        ValueType::Int32 => path2("ValueType", "Int32"),
        ValueType::Boolean => path2("ValueType", "Bool"),
        ValueType::Undefined => path2("ValueType", "Undefined"),
        ValueType::Null => path2("ValueType", "Null"),
        ValueType::Magic => path2("ValueType", "Magic"),
        ValueType::String => path2("ValueType", "String"),
        ValueType::Symbol => path2("ValueType", "Symbol"),
        ValueType::PrivateGcThing => path2("ValueType", "PrivateGCThing"),
        ValueType::BigInt => path2("ValueType", "BigInt"),
        ValueType::Object => path2("ValueType", "Object"),
        ValueType::Unknown => path2("ValueType", "Unknown"),
    }
}

/// The Cachet variable for `mir_type`.
fn var_path_for_mir_type(mir_type: MirType) -> (r: Path)
    ensures
        r@ == mir_type_path(mir_type),
{
    match mir_type {
        MirType::Undefined => path2("MIRType", "Undefined"),
        MirType::Null => path2("MIRType", "Null"),
        MirType::Bool => path2("MIRType", "Boolean"),
        MirType::Int32 => path2("MIRType", "Int32"),
        MirType::Int64 => path2("MIRType", "Int64"),
        MirType::IntPtr => path2("MIRType", "IntPtr"),
        MirType::Double => path2("MIRType", "Double"),
        MirType::Float32 => path2("MIRType", "Float32"),
        MirType::String => path2("MIRType", "String"),
        MirType::Symbol => path2("MIRType", "Symbol"),
        MirType::BigInt => path2("MIRType", "BigInt"),
        MirType::Simd128 => path2("MIRType", "Simd128"),
        MirType::Object => path2("MIRType", "Object"),
        MirType::MagicOptimizedOut => path2("MIRType", "MagicOptimizedOut"),
        MirType::MagicHole => path2("MIRType", "MagicHole"),
        MirType::MagicIsConstructing => path2("MIRType", "MagicIsConstructing"),
        MirType::MagicUninitializedLexical => path2("MIRType", "MagicUninitializedLexical"),
        MirType::Value => path2("MIRType", "Value"),
        MirType::NoneType => path2("MIRType", "None"),
        MirType::Slots => path2("MIRType", "Slots"),
        MirType::Elements => path2("MIRType", "Elements"),
        MirType::Pointer => path2("MIRType", "Pointer"),
        MirType::RefOrNull => path2("MIRType", "RefOrNull"),
        MirType::StackResults => path2("MIRType", "StackResults"),
        MirType::Shape => path2("MIRType", "Shape"),
    }
}

/// `<Type>::fromId(id)` for operand ids of type `type_`.
fn generate_operand_id_from_id_call(id: u16, type_: OperandIdType) -> (e: Expr)
    ensures
        is_operand_id_expr(e, id, type_),
{
    let target = type_path_for_operand_id_type(type_).nest(Ident::from_str("fromId"));
    assert(target@ =~= seq![operand_id_type_name(type_), "fromId"@]);
    lit_call(target, Literal::UInt16(id))
}

/// `<Type>::fromOffset(offset)` for fields of type `type_`.
fn generate_field_from_offset_call(offset: u32, type_: FieldType) -> (e: Expr)
    ensures
        is_field_expr(e, offset, type_),
{
    let target = type_path_for_field_type(type_).nest(Ident::from_str("fromOffset"));
    assert(target@ =~= seq![field_type_name(type_), "fromOffset"@]);
    lit_call(target, Literal::UInt32(offset))
}

/// `<type_path>::fromAddr(addr)`.
fn generate_from_addr_call(type_path: Path, addr: u64) -> (e: Expr)
    ensures
        is_lit_call(e, type_path@.push("fromAddr"@), Literal::UInt64(addr)),
{
    lit_call(type_path.nest(Ident::from_str("fromAddr")), Literal::UInt64(addr))
}

/// `<ty>::fromAddr(addr)` for the one-segment type `ty`.
fn from_addr_call(ty: &str, addr: u64) -> (e: Expr)
    ensures
        is_from_addr(e, ty@, addr),
{
    let e = generate_from_addr_call(path1(ty), addr);
    assert(seq![ty@].push("fromAddr"@) =~= seq![ty@, "fromAddr"@]);
    e
}

/// The variable `true` or `false`.
fn translate_bool(b: bool) -> (e: Expr)
    ensures
        is_bool_expr(e, b),
{
    if b {
        var_expr(path1("true"))
    } else {
        var_expr(path1("false"))
    }
}

/// The Cachet expression for an immediate operand.
fn translate_imm_value(imm_value: &ImmValue) -> (e: Expr)
    ensures
        is_imm_value_expr(e, *imm_value),
{
    match imm_value {
        ImmValue::JSOp(ident) => var_expr(path_nest("JSOp", ident.clone())),
        ImmValue::Bool(b) => translate_bool(*b),
        ImmValue::Byte(n) => Expr::Literal(Literal::UInt8(*n)),
        ImmValue::GuardClassKind(ident) => var_expr(path_nest("GuardClassKind", ident.clone())),
        ImmValue::ValueType(value_type) => var_expr(var_path_for_value_type(*value_type)),
        ImmValue::JSWhyMagic(ident) => var_expr(path_nest("JSWhyMagic", ident.clone())),
        ImmValue::CallFlags(call_flags) => Expr::Invoke(
            call4(
                path2("CallFlags", "new"),
                var_expr(path_nest("ArgFormat", call_flags.arg_format.clone())),
                translate_bool(call_flags.is_constructing),
                translate_bool(call_flags.is_same_realm),
                translate_bool(call_flags.needs_uninitialized_this),
            ),
        ),
        ImmValue::ScalarType(ident) => var_expr(path_nest("ScalarType", ident.clone())),
        ImmValue::UnaryMathFunction(ident) => var_expr(
            path_nest("UnaryMathFunction", ident.clone()),
        ),
        ImmValue::WasmValType(ident) => var_expr(path_nest("WasmValType", ident.clone())),
        ImmValue::Int32(n) => Expr::Literal(Literal::Int32(*n)),
        ImmValue::UInt32(n) => Expr::Literal(Literal::UInt32(*n)),
        ImmValue::JSNative(addr) => from_addr_call("JSNative", *addr),
        ImmValue::AllocKind(ident) => var_expr(path_nest("AllocKind", ident.clone())),
    }
}

/// A set of operand ids yields them in increasing order.
proof fn lemma_keys_ascending(ids: &BTreeSet<u16>)
    ensures
        forall|a: int, b: int|
            0 <= a < b < spec_btree_keys_iter(ids).remaining().len() ==> *(
            #[trigger] spec_btree_keys_iter(ids).remaining()[a])
                < *(#[trigger] spec_btree_keys_iter(ids).remaining()[b]),
{
    let keys = spec_btree_keys_iter(ids).remaining();
    assert(vstd::laws_cmp::obeys_cmp::<u16>());
    assert(vstd::laws_cmp::obeys_cmp::<&u16>());
    assert(vstd::std_specs::btree::increasing_seq(keys));
    assert forall|a: int, b: int| 0 <= a < b < keys.len() implies *keys[a] < *keys[b] by {
        assert(OrdSpec::cmp_spec(&keys[a], &keys[b]) is Less);
    }
}

/// Every operand id that the stub mentions, in increasing order.
fn sorted_operand_ids(stub: &Stub) -> (r: Vec<u16>)
    ensures
        r@.to_set() == operand_id_set(*stub),
        forall|i: int, j: int| 0 <= i < j < r@.len() ==> r@[i] < r@[j],
{
    let mut ids: BTreeSet<u16> = BTreeSet::new();
    let inputs = &stub.input_operands;
    let n = inputs.len();
    let mut i: usize = 0;
    while i < n
        invariant
            n == inputs@.len(),
            i <= n,
            ids@ == input_operand_ids(inputs@.take(i as int)),
        decreases n - i,
    {
        ids.insert(inputs[i].data.id);
        proof {
            let prev = inputs@.take(i as int);
            let next = inputs@.take(i + 1);
            assert(input_operand_ids(next) =~= input_operand_ids(prev).insert(inputs@[i as int].data.id))
                by {
                assert(next[i as int] == inputs@[i as int]);
                assert forall|id: u16| input_operand_ids(next).contains(id) implies input_operand_ids(
                    prev,
                ).insert(inputs@[i as int].data.id).contains(id) by {
                    let k = choose|k: int| 0 <= k < next.len() && (#[trigger] next[k]).data.id == id;
                    if k < i {
                        assert(prev[k] == next[k]);
                    }
                }
                assert forall|id: u16| input_operand_ids(prev).contains(id) implies input_operand_ids(
                    next,
                ).contains(id) by {
                    let k = choose|k: int| 0 <= k < prev.len() && (#[trigger] prev[k]).data.id == id;
                    assert(next[k] == prev[k]);
                }
            }
        }
        i += 1;
    }
    assert(inputs@.take(n as int) =~= inputs@);
    let ghost input_ids = ids@;
    let ops = &stub.ops;
    let m = ops.len();
    let mut i: usize = 0;
    while i < m
        invariant
            m == ops@.len(),
            i <= m,
            input_ids == input_operand_ids(inputs@),
            ids@ == input_ids + ops_operand_ids(ops@.take(i as int)),
        decreases m - i,
    {
        let args = &ops[i].args;
        let k = args.len();
        let mut j: usize = 0;
        while j < k
            invariant
                k == args@.len(),
                j <= k,
                ids@ == input_ids + ops_operand_ids(ops@.take(i as int)) + op_arg_ids(
                    args@.take(j as int),
                ),
            decreases k - j,
        {
            let ghost before = ids@;
            if let OpArgData::OperandId(o) = &args[j].data {
                ids.insert(o.id);
            }
            proof {
                let prev = args@.take(j as int);
                let next = args@.take(j + 1);
                assert(next[j as int] == args@[j as int]);
                assert forall|id: u16| op_arg_ids(prev).contains(id) implies op_arg_ids(
                    next,
                ).contains(id) by {
                    let l = choose|l: int|
                        0 <= l < prev.len() && ((#[trigger] prev[l]).data matches OpArgData::OperandId(
                            o,
                        ) && o.id == id);
                    assert(next[l] == prev[l]);
                }
                assert forall|id: u16| op_arg_ids(next).contains(id) implies (op_arg_ids(
                    prev,
                ).contains(id) || (args@[j as int].data matches OpArgData::OperandId(o) && o.id
                    == id)) by {
                    let l = choose|l: int|
                        0 <= l < next.len() && ((#[trigger] next[l]).data matches OpArgData::OperandId(
                            o,
                        ) && o.id == id);
                    if l < j {
                        assert(prev[l] == next[l]);
                    }
                }
                assert(ids@ =~= input_ids + ops_operand_ids(ops@.take(i as int)) + op_arg_ids(next));
            }
            j += 1;
        }
        proof {
            assert(args@.take(k as int) =~= args@);
            let prev = ops@.take(i as int);
            let next = ops@.take(i + 1);
            assert(next[i as int] == ops@[i as int]);
            assert forall|id: u16| ops_operand_ids(prev).contains(id) implies ops_operand_ids(
                next,
            ).contains(id) by {
                let l = choose|l: int| 0 <= l < prev.len() && op_arg_ids((#[trigger] prev[l]).args@).contains(id);
                assert(next[l] == prev[l]);
            }
            assert forall|id: u16| ops_operand_ids(next).contains(id) implies (ops_operand_ids(
                prev,
            ).contains(id) || op_arg_ids(ops@[i as int].args@).contains(id)) by {
                let l = choose|l: int| 0 <= l < next.len() && op_arg_ids((#[trigger] next[l]).args@).contains(id);
                if l < i {
                    assert(prev[l] == next[l]);
                }
            }
            assert(ids@ =~= input_ids + ops_operand_ids(next));
        }
        i += 1;
    }
    assert(ops@.take(m as int) =~= ops@);
    let mut r: Vec<u16> = Vec::new();
    for id in it: ids.iter()
        invariant
            it.seq() == spec_btree_keys_iter(&ids).remaining(),
            r@.len() == it.index(),
            forall|l: int| 0 <= l < it.index() ==> r@[l] == *it.seq()[l],
    {
        r.push(*id);
    }
    proof {
        let keys = spec_btree_keys_iter(&ids).remaining();
        assert(r@ =~= keys.unref());
        lemma_keys_ascending(&ids);
    }
    r
}

// ---------------------------------------------------------------------
// Building statements.
// ---------------------------------------------------------------------

/// The synthesized comment `text`.
fn comment_stmt(text: String) -> (s: Spanned<Stmt>)
    ensures
        is_comment_stmt(s, text@),
{
    Spanned::internal(Stmt::Comment(Comment { text }))
}

/// The synthesized expression statement `call;`.
fn call_stmt(call: Call) -> (s: Spanned<Stmt>)
    ensures
        is_expr_stmt(s),
        stmt_expr(s) == Expr::Invoke(call),
{
    Spanned::internal(Stmt::Expr(Expr::Invoke(call)))
}

/// `assume cond;`.
fn assume_stmt(cond: Expr) -> (s: Spanned<Stmt>)
    ensures
        is_assume_stmt(s),
        assumed(s) == cond,
{
    Spanned::internal(Stmt::Check(CheckStmt { kind: CheckKind::Assume, cond: Spanned::internal(cond) }))
}

/// `assume lhs == rhs;`.
fn assume_eq_stmt(lhs: Expr, rhs: Expr) -> (s: Spanned<Stmt>)
    ensures
        is_assume_stmt(s),
        is_eq_expr(assumed(s)),
        eq_lhs(assumed(s)) == lhs,
        eq_rhs(assumed(s)) == rhs,
{
    assume_stmt(
        Expr::BinOper(
            Box::new(
                BinOperExpr {
                    oper: Spanned::internal(BinOper::Compare(CompareBinOper::Eq)),
                    lhs: Spanned::internal(lhs),
                    rhs: Spanned::internal(rhs),
                },
            ),
        ),
    )
}

/// `<ty>::<method>(<ty>::fromAddr(addr))`.
fn addr_method_call(ty: &str, method: &str, addr: u64) -> (e: Expr)
    ensures
        is_addr_method(e, ty@, method@, addr),
{
    Expr::Invoke(call1(path2(ty, method), from_addr_call(ty, addr)))
}

/// `initOperandId(OperandId::fromId(id));` for each id, in order.
fn operand_id_stmts(ids: &Vec<u16>) -> (seg: Vec<Spanned<Stmt>>)
    ensures
        seg@.len() == ids@.len(),
        forall|i: int| 0 <= i < ids@.len() ==> is_init_operand_id_stmt(seg@[i], ids@[i]),
{
    let mut seg: Vec<Spanned<Stmt>> = Vec::new();
    let n = ids.len();
    let mut i: usize = 0;
    while i < n
        invariant
            n == ids@.len(),
            i <= n,
            seg@.len() == i,
            forall|k: int| 0 <= k < i ==> is_init_operand_id_stmt(seg@[k], ids@[k]),
        decreases n - i,
    {
        let id = ids[i];
        seg.push(
            call_stmt(
                call1(path1("initOperandId"), generate_operand_id_from_id_call(id, OperandIdType::RawId)),
            ),
        );
        i += 1;
    }
    seg
}

/// The name `initInput<Type>` of the function that sets up an input
/// operand of type `t`.
fn init_input_path(t: OperandIdType) -> (r: Path)
    ensures
        r@ == seq!["initInput"@ + operand_id_type_name(t)],
{
    let mut name = String::new();
    push_str(&mut name, "initInput");
    let type_path = type_path_for_operand_id_type(t);
    let type_text = type_path.to_string();
    push_str(&mut name, type_text.as_str());
    let r = Path::from_ident(Ident::from_string(name));
    assert(name@ =~= "initInput"@ + operand_id_type_name(t));
    r
}

/// For each input operand, a comment that describes it and the statement
/// that sets it up.
fn input_stmts(inputs: &Vec<InputOperand>) -> (seg: Vec<Spanned<Stmt>>)
    ensures
        inputs_seg_ok(inputs@, seg@),
{
    let mut seg: Vec<Spanned<Stmt>> = Vec::new();
    let n = inputs.len();
    let mut i: usize = 0;
    while i < n
        invariant
            n == inputs@.len(),
            i <= n,
            inputs_seg_ok(inputs@.take(i as int), seg@),
        decreases n - i,
    {
        let input = &inputs[i];
        let mut text = String::new();
        push_str(&mut text, "Input ");
        input.push_text(&mut text);
        assert(text@ =~= "Input "@ + input.text());
        let ghost prev = seg@;
        seg.push(comment_stmt(text));
        let t = input.data.type_;
        seg.push(
            call_stmt(
                call1(init_input_path(t), generate_operand_id_from_id_call(input.data.id, t)),
            ),
        );
        proof {
            let next = inputs@.take(i + 1);
            assert forall|k: int| #![trigger next[k]] 0 <= k < next.len() implies is_comment_stmt(
                seg@[2 * k],
                "Input "@ + next[k].text(),
            ) && is_init_input_stmt(seg@[2 * k + 1], next[k].data) by {
                if k < i {
                    assert(next[k] == inputs@.take(i as int)[k]);
                    assert(seg@[2 * k] == prev[2 * k]);
                    assert(seg@[2 * k + 1] == prev[2 * k + 1]);
                }
            }
        }
        i += 1;
    }
    assert(inputs@.take(n as int) =~= inputs@);
    seg
}

/// A comment that describes the output and the statement that sets it up,
/// if the stub has an output.
fn output_stmts(output: Option<MirType>) -> (seg: Vec<Spanned<Stmt>>)
    ensures
        output_seg_ok(output, seg@),
{
    let mut seg: Vec<Spanned<Stmt>> = Vec::new();
    if let Some(t) = output {
        let mut text = String::new();
        push_str(&mut text, "Output ");
        push_str(&mut text, t.name());
        assert(text@ =~= "Output "@ + t.spec_name());
        seg.push(comment_stmt(text));
        let call = match t {
            MirType::Value => call0(path1("initValueOutput")),
            _ => call1(path1("initTypedOutput"), var_expr(var_path_for_mir_type(t))),
        };
        seg.push(call_stmt(call));
    }
    seg
}

/// For each field whose contents the translation states, a comment that
/// describes it and an assumption about what it holds.
fn field_stmts(fields: &Vec<Field>) -> (seg: Vec<Spanned<Stmt>>)
    ensures
        fields_seg_ok(fields@, seg@),
{
    let mut seg: Vec<Spanned<Stmt>> = Vec::new();
    let n = fields.len();
    let mut i: usize = 0;
    while i < n
        invariant
            n == fields@.len(),
            i <= n,
            fields_seg_ok(fields@.take(i as int), seg@),
        decreases n - i,
    {
        let field = &fields[i];
        let data_expr = match field.data {
            FieldData::Shape(shape) => Some(from_addr_call("Shape", shape)),
            FieldData::String(string) => Some(from_addr_call("String", string)),
            FieldData::RawInt32(n) => Some(Expr::Literal(Literal::Int32(n))),
            FieldData::RawInt64(n) => Some(Expr::Literal(Literal::Int64(n))),
            _ => None,
        };
        let ghost prev = seg@;
        proof {
            let pick = |f: Field| field_selected(f);
            assert(fields@.take(i + 1) =~= fields@.take(i as int).push(fields@[i as int]));
            fields@.take(i as int).lemma_filter_push(fields@[i as int], pick);
        }
        if let Some(data_expr) = data_expr {
            let field_expr = generate_field_from_offset_call(field.offset, field.type_());
            let mut read_name = String::new();
            push_str(&mut read_name, "read");
            let type_text = type_path_for_field_type(field.type_()).to_string();
            push_str(&mut read_name, type_text.as_str());
            assert(read_name@ =~= "read"@ + field_type_name(field.data.spec_type()));
            let read_field_expr = Expr::Invoke(
                call1(path_nest("CacheIR", Ident::from_string(read_name)), field_expr),
            );
            seg.push(comment_stmt(field.to_string()));
            seg.push(assume_eq_stmt(read_field_expr, data_expr));
            proof {
                let sel = selected_fields(fields@.take(i + 1));
                let old_sel = selected_fields(fields@.take(i as int));
                assert forall|k: int| #![trigger sel[k]] 0 <= k < sel.len() implies is_comment_stmt(
                    seg@[2 * k],
                    sel[k].text(),
                ) && is_field_assume_stmt(seg@[2 * k + 1], sel[k]) by {
                    if k < old_sel.len() {
                        assert(sel[k] == old_sel[k]);
                        assert(seg@[2 * k] == prev[2 * k]);
                        assert(seg@[2 * k + 1] == prev[2 * k + 1]);
                    }
                }
            }
        } else {
            assert(!field_selected(fields@[i as int]));
        }
        i += 1;
    }
    assert(fields@.take(n as int) =~= fields@);
    seg
}

/// The assumption that states the heap fact `fact`.
fn fact_stmt(fact: &Fact) -> (s: Spanned<Stmt>)
    ensures
        is_fact_stmt(s, *fact),
{
    match *fact {
        Fact::ShapeBase(fact) => assume_eq_stmt(
            addr_method_call("Shape", "baseShapeOf", fact.shape),
            from_addr_call("BaseShape", fact.base_shape),
        ),
        Fact::ShapeClass(fact) => assume_eq_stmt(
            addr_method_call("Shape", "classOf", fact.shape),
            from_addr_call("Class", fact.class),
        ),
        Fact::ShapeNumFixedSlots(fact) => assume_eq_stmt(
            addr_method_call("Shape", "numFixedSlots", fact.shape),
            Expr::Literal(Literal::UInt32(fact.num_fixed_slots)),
        ),
        Fact::ShapeSlotSpan(fact) => assume_eq_stmt(
            addr_method_call("Shape", "slotSpan", fact.shape),
            Expr::Literal(Literal::UInt32(fact.slot_span)),
        ),
        Fact::BaseShapeTaggedProto(fact) => assume_eq_stmt(
            addr_method_call("BaseShape", "protoOf", fact.base_shape),
            from_addr_call("TaggedProto", fact.tagged_proto),
        ),
        Fact::ClassIsNativeObject(fact) => assume_stmt(
            addr_method_call("Class", "isNativeObject", fact.class),
        ),
        Fact::TaggedProtoIsObject(fact) => assume_stmt(
            addr_method_call("TaggedProto", "isObject", fact.tagged_proto),
        ),
        Fact::TaggedProtoIsLazy(fact) => assume_stmt(
            addr_method_call("TaggedProto", "isLazy", fact.tagged_proto),
        ),
        Fact::TaggedProtoIsNull(fact) => assume_stmt(
            addr_method_call("TaggedProto", "isNull", fact.tagged_proto),
        ),
        Fact::StringIsAtom(fact) => assume_stmt(addr_method_call("String", "isAtom", fact.string)),
    }
}

/// For each heap fact, a comment that describes it and the assumption that
/// states it.
fn fact_stmts(facts: &Vec<Fact>) -> (seg: Vec<Spanned<Stmt>>)
    ensures
        facts_seg_ok(facts@, seg@),
{
    let mut seg: Vec<Spanned<Stmt>> = Vec::new();
    let n = facts.len();
    let mut i: usize = 0;
    while i < n
        invariant
            n == facts@.len(),
            i <= n,
            facts_seg_ok(facts@.take(i as int), seg@),
        decreases n - i,
    {
        let fact = &facts[i];
        let ghost prev = seg@;
        seg.push(comment_stmt(fact.to_string()));
        seg.push(fact_stmt(fact));
        proof {
            let next = facts@.take(i + 1);
            assert forall|k: int| #![trigger next[k]] 0 <= k < next.len() implies is_comment_stmt(
                seg@[2 * k],
                next[k].text(),
            ) && is_fact_stmt(seg@[2 * k + 1], next[k]) by {
                if k < i {
                    assert(next[k] == facts@.take(i as int)[k]);
                    assert(seg@[2 * k] == prev[2 * k]);
                    assert(seg@[2 * k + 1] == prev[2 * k + 1]);
                }
            }
        }
        i += 1;
    }
    assert(facts@.take(n as int) =~= facts@);
    seg
}

/// The Cachet expression for the data of an operand of an operation.
fn op_arg_expr(data: &OpArgData) -> (e: Expr)
    ensures
        is_op_arg_expr(e, *data),
{
    match data {
        OpArgData::OperandId(data) => generate_operand_id_from_id_call(data.id, data.type_),
        OpArgData::FieldOffset(data) => generate_field_from_offset_call(data.offset, data.type_),
        OpArgData::ImmValue(data) => translate_imm_value(data),
    }
}

/// `emit CacheIR::<op>(<args>);`.
fn emit_op_stmt(op: &Op) -> (s: Spanned<Stmt>)
    ensures
        is_emit_op_stmt(s, *op),
{
    let mut args: Vec<Spanned<Arg>> = Vec::new();
    let n = op.args.len();
    let mut j: usize = 0;
    while j < n
        invariant
            n == op.args@.len(),
            j <= n,
            args@.len() == j,
            forall|k: int|
                #![trigger args@[k]]
                0 <= k < j ==> args@[k].span == Span::Internal && args@[k].value is Expr
                    && is_op_arg_expr(arg_expr(args@[k].value), op.args@[k].data),
        decreases n - j,
    {
        args.push(Spanned::internal(Arg::Expr(op_arg_expr(&op.args[j].data))));
        j += 1;
    }
    let call = Call {
        target: Spanned::internal(path_nest("CacheIR", op.ident.clone())),
        args: Spanned::internal(args),
    };
    Spanned::internal(Stmt::Emit(call))
}

/// For each operation, a comment that describes it and the statement that
/// emits it.
fn op_stmts(ops: &Vec<Op>) -> (seg: Vec<Spanned<Stmt>>)
    ensures
        ops_seg_ok(ops@, seg@),
{
    let mut seg: Vec<Spanned<Stmt>> = Vec::new();
    let n = ops.len();
    let mut i: usize = 0;
    while i < n
        invariant
            n == ops@.len(),
            i <= n,
            ops_seg_ok(ops@.take(i as int), seg@),
        decreases n - i,
    {
        let op = &ops[i];
        let ghost prev = seg@;
        seg.push(comment_stmt(op.to_string()));
        seg.push(emit_op_stmt(op));
        proof {
            let next = ops@.take(i + 1);
            assert forall|k: int| #![trigger next[k]] 0 <= k < next.len() implies is_comment_stmt(
                seg@[2 * k],
                next[k].text(),
            ) && is_emit_op_stmt(seg@[2 * k + 1], next[k]) by {
                if k < i {
                    assert(next[k] == ops@.take(i as int)[k]);
                    assert(seg@[2 * k] == prev[2 * k]);
                    assert(seg@[2 * k + 1] == prev[2 * k + 1]);
                }
            }
        }
        i += 1;
    }
    assert(ops@.take(n as int) =~= ops@);
    seg
}

/// The body of the operation that replays `stub`.
fn translate_body(stub: &Stub) -> (stmts: Vec<Spanned<Stmt>>)
    ensures
        body_ok(*stub, stmts@),
{
    let mut stmts: Vec<Spanned<Stmt>> = Vec::new();
    stmts.push(call_stmt(call0(path1("initRegState"))));
    let operand_ids = sorted_operand_ids(stub);
    let mut ids_seg = operand_id_stmts(&operand_ids);
    let mut inputs_seg = input_stmts(&stub.input_operands);
    let mut output_seg = output_stmts(stub.output);
    let mut fields_seg = field_stmts(&stub.fields);
    let mut facts_seg = fact_stmts(&stub.facts);
    let mut ops_seg = op_stmts(&stub.ops);
    let ghost s0 = stmts@;
    let ghost s1 = ids_seg@;
    let ghost s2 = inputs_seg@;
    let ghost s3 = output_seg@;
    let ghost s4 = fields_seg@;
    let ghost s5 = facts_seg@;
    let ghost s6 = ops_seg@;
    stmts.append(&mut ids_seg);
    stmts.append(&mut inputs_seg);
    stmts.append(&mut output_seg);
    stmts.append(&mut fields_seg);
    stmts.append(&mut facts_seg);
    stmts.append(&mut ops_seg);
    proof {
        let ids = operand_ids@;
        assert(ids.no_duplicates()) by {
            assert forall|i: int, j: int| 0 <= i < ids.len() && 0 <= j < ids.len() && i != j implies ids[i]
                != ids[j] by {
                if i < j {
                    assert(ids[i] < ids[j]);
                } else {
                    assert(ids[j] < ids[i]);
                }
            }
        }
        ids.unique_seq_to_set();
        let a: int = 1 + s1.len() as int;
        let b: int = a + s2.len();
        let c: int = b + s3.len();
        let d: int = c + s4.len();
        let e: int = d + s5.len();
        let all = stmts@;
        assert(all =~= s0 + s1 + s2 + s3 + s4 + s5 + s6);
        assert(all.subrange(1, a) =~= s1);
        assert(all.subrange(a, b) =~= s2);
        assert(all.subrange(b, c) =~= s3);
        assert(all.subrange(c, d) =~= s4);
        assert(all.subrange(d, e) =~= s5);
        assert(all.subrange(e, all.len() as int) =~= s6);
        assert(all[0] == s0[0]);
        assert(ids.to_set() == operand_id_set(*stub));
        assert(operand_ids_seg_ok(operand_id_set(*stub), all.subrange(1, a)));
    }
    stmts
}

/// Translates a stub into a Cachet module: the module imports the CacheIR
/// and utility definitions and declares the IR `CacheStub`, which emits
/// `CacheIR` and holds one operation named after the stub's kind. That
/// operation sets up the register state, each operand id the stub mentions
/// (once, in increasing order), the inputs, the output, the fields and the
/// heap facts, and then emits the stub's operations in order.
pub fn translate(stub: &Stub) -> (m: Mod)
    ensures
        translation_ok(*stub, m),
{
    let body = Block { stmts: translate_body(stub), value: Spanned::internal(None) };
    let op_item = CallableItem {
        ident: Spanned::internal(stub.kind.clone()),
        attrs: Vec::new(),
        is_unsafe: false,
        params: Vec::new(),
        emits: None,
        ret: None,
        body: Spanned::internal(Some(body)),
    };
    let mut ir_items = Vec::new();
    ir_items.push(Spanned::internal(Item::Op(op_item)));
    let ir_item = IrItem {
        ident: Spanned::internal(Ident::from_str("CacheStub")),
        emits: Some(Spanned::internal(path1("CacheIR"))),
        items: ir_items,
    };
    let mut items = Vec::new();
    items.push(
        Spanned::internal(
            Item::Import(
                ImportItem {
                    file_path: Spanned::internal(
                        String::from_str("../../../../../notes/cacheir.cachet"),
                    ),
                },
            ),
        ),
    );
    items.push(
        Spanned::internal(
            Item::Import(
                ImportItem {
                    file_path: Spanned::internal(String::from_str("../../../../../notes/utils.cachet")),
                },
            ),
        ),
    );
    items.push(Spanned::internal(Item::Ir(ir_item)));
    Mod { items }
}

/// The statements of the one operation of a translated module.
pub open spec fn replay_stmts(m: Mod) -> Seq<Spanned<Stmt>> {
    match m.items@[2].value {
        Item::Ir(ir) => match ir.items@[0].value {
            Item::Op(op) => match op.body.value {
                Some(body) => body.stmts@,
                None => Seq::empty(),
            },
            _ => Seq::empty(),
        },
        _ => Seq::empty(),
    }
}

/// `s` is `assume CacheIR::read<Type>(<Type>::fromOffset(offset)) == <rhs>;`
/// for the offset and the Cachet field type of `f`.
pub open spec fn assumes_read_of_field(s: Spanned<Stmt>, f: Field) -> bool {
    let t = f.data.spec_type();
    let lhs = eq_lhs(assumed(s));
    &&& is_assume_stmt(s)
    &&& is_eq_expr(assumed(s))
    &&& is_call(lhs, seq!["CacheIR"@, "read"@ + field_type_name(t)], 1)
    &&& is_field_expr(expr_arg(lhs, 0), f.offset, t)
}

/// Every field of the stub that holds a shape, a string, a raw 32-bit or a
/// raw 64-bit integer has its contents assumed in the translated operation:
/// right after a comment that describes the field, a statement reads the
/// field at its offset and equates it with `Shape::fromAddr(<address>)`,
/// `String::fromAddr(<address>)`, or the integer as a literal of its own
/// width.
pub proof fn law_translation_assumes_field_contents(stub: Stub, m: Mod, k: int)
    requires
        translation_ok(stub, m),
        0 <= k < stub.fields@.len(),
    ensures
        ({
            let f = stub.fields@[k];
            let body = replay_stmts(m);
            match f.data {
                FieldData::Shape(a) => exists|j: int|
                    1 <= j < body.len() && assumes_read_of_field(#[trigger] body[j], f)
                        && is_comment_stmt(body[j - 1], f.text())
                        && is_from_addr(eq_rhs(assumed(body[j])), "Shape"@, a),
                FieldData::String(a) => exists|j: int|
                    1 <= j < body.len() && assumes_read_of_field(#[trigger] body[j], f)
                        && is_comment_stmt(body[j - 1], f.text())
                        && is_from_addr(eq_rhs(assumed(body[j])), "String"@, a),
                FieldData::RawInt32(n) => exists|j: int|
                    1 <= j < body.len() && assumes_read_of_field(#[trigger] body[j], f)
                        && is_comment_stmt(body[j - 1], f.text())
                        && eq_rhs(assumed(body[j])) == Expr::Literal(Literal::Int32(n)),
                FieldData::RawInt64(n) => exists|j: int|
                    1 <= j < body.len() && assumes_read_of_field(#[trigger] body[j], f)
                        && is_comment_stmt(body[j - 1], f.text())
                        && eq_rhs(assumed(body[j])) == Expr::Literal(Literal::Int64(n)),
                _ => true,
            }
        }),
{
    let f = stub.fields@[k];
    let body = replay_stmts(m);
    if f.data is Shape || f.data is String || f.data is RawInt32 || f.data is RawInt64 {
        let pick = |g: Field| field_selected(g);
        stub.fields@.lemma_filter_contains(pick, k);
        let sel = selected_fields(stub.fields@);
        assert(sel.contains(f));
        let i = choose|i: int| 0 <= i < sel.len() && sel[i] == f;
        let ids = operand_id_set(stub);
        let a: int = 1 + ids.len() as int;
        let b: int = a + 2 * stub.input_operands@.len();
        let c: int = b + output_len(stub.output);
        let d: int = c + 2 * sel.len();
        assert(fields_seg_ok(stub.fields@, body.subrange(c, d)));
        let j = c + 2 * i + 1;
        assert(body.subrange(c, d)[2 * i + 1] == body[j]);
        assert(body.subrange(c, d)[2 * i] == body[j - 1]);
        assert(is_field_assume_stmt(body[j], sel[i]));
        assert(assumes_read_of_field(body[j], f));
    }
}

} // verus!

