//! Inline-cache stubs: what the JIT recorded about one cache, to be
//! translated into a Cachet program.

use vstd::prelude::*;

use crate::ident::Ident;
use crate::text::{
    bool_text, dec_text, hex_text, join, join_leading, lemma_join_push, push_bool,
    push_dec, push_hex, push_signed_dec, push_str, signed_dec_text,
};

verus! {

/// A machine word.
pub type Word = u64;

/// A machine address.
pub type Addr = Word;

/// Values that carry a type.
pub trait Typed {
    type Type;

    /// The type of the value.
    spec fn spec_type(&self) -> Self::Type;

    /// The type of the value.
    fn type_(&self) -> (r: Self::Type)
        ensures
            r == self.spec_type(),
    ;
}

/// The JIT tier a stub was compiled for.
#[derive(Clone, Copy, PartialEq, Eq, Structural, Debug)]
pub enum Engine {
    Baseline,
    IonIC,
}

impl Engine {
    /// The name of the variant.
    pub open spec fn spec_name(self) -> Seq<char> {
        match self {
            Engine::Baseline => "Baseline"@,
            Engine::IonIC => "IonIC"@,
        }
    }

    /// The name of the variant.
    pub fn name(self) -> (r: &'static str)
        ensures
            r@ == self.spec_name(),
    {
        match self {
            Engine::Baseline => "Baseline",
            Engine::IonIC => "IonIC",
        }
    }
}

/// The kind of value an operand id refers to.
#[derive(Clone, Copy, PartialEq, Eq, Structural, Debug)]
pub enum OperandIdType {
    ValId,
    ObjId,
    StringId,
    SymbolId,
    BooleanId,
    Int32Id,
    NumberId,
    BigIntId,
    ValueTagId,
    IntPtrId,
    RawId,
}

impl OperandIdType {
    /// The name of the variant.
    pub open spec fn spec_name(self) -> Seq<char> {
        match self {
            OperandIdType::ValId => "ValId"@,
            OperandIdType::ObjId => "ObjId"@,
            OperandIdType::StringId => "StringId"@,
            OperandIdType::SymbolId => "SymbolId"@,
            OperandIdType::BooleanId => "BooleanId"@,
            OperandIdType::Int32Id => "Int32Id"@,
            OperandIdType::NumberId => "NumberId"@,
            OperandIdType::BigIntId => "BigIntId"@,
            OperandIdType::ValueTagId => "ValueTagId"@,
            OperandIdType::IntPtrId => "IntPtrId"@,
            OperandIdType::RawId => "RawId"@,
        }
    }

    /// The name of the variant.
    pub fn name(self) -> (r: &'static str)
        ensures
            r@ == self.spec_name(),
    {
        match self {
            OperandIdType::ValId => "ValId",
            OperandIdType::ObjId => "ObjId",
            OperandIdType::StringId => "StringId",
            OperandIdType::SymbolId => "SymbolId",
            OperandIdType::BooleanId => "BooleanId",
            OperandIdType::Int32Id => "Int32Id",
            OperandIdType::NumberId => "NumberId",
            OperandIdType::BigIntId => "BigIntId",
            OperandIdType::ValueTagId => "ValueTagId",
            OperandIdType::IntPtrId => "IntPtrId",
            OperandIdType::RawId => "RawId",
        }
    }
}

/// The kind of data stored in a stub field.
#[derive(Clone, Copy, PartialEq, Eq, Structural, Debug)]
pub enum FieldType {
    ShapeField,
    GetterSetterField,
    ObjectField,
    StringField,
    AtomField,
    PropertyNameField,
    SymbolField,
    BaseScriptField,
    RawInt32Field,
    RawPointerField,
    IdField,
    ValueField,
    RawInt64Field,
    AllocSiteField,
}

impl FieldType {
    /// The name of the variant.
    pub open spec fn spec_name(self) -> Seq<char> {
        match self {
            FieldType::ShapeField => "ShapeField"@,
            FieldType::GetterSetterField => "GetterSetterField"@,
            FieldType::ObjectField => "ObjectField"@,
            FieldType::StringField => "StringField"@,
            FieldType::AtomField => "AtomField"@,
            FieldType::PropertyNameField => "PropertyNameField"@,
            FieldType::SymbolField => "SymbolField"@,
            FieldType::BaseScriptField => "BaseScriptField"@,
            FieldType::RawInt32Field => "RawInt32Field"@,
            FieldType::RawPointerField => "RawPointerField"@,
            FieldType::IdField => "IdField"@,
            FieldType::ValueField => "ValueField"@,
            FieldType::RawInt64Field => "RawInt64Field"@,
            FieldType::AllocSiteField => "AllocSiteField"@,
        }
    }

    /// The name of the variant.
    pub fn name(self) -> (r: &'static str)
        ensures
            r@ == self.spec_name(),
    {
        match self {
            FieldType::ShapeField => "ShapeField",
            FieldType::GetterSetterField => "GetterSetterField",
            FieldType::ObjectField => "ObjectField",
            FieldType::StringField => "StringField",
            FieldType::AtomField => "AtomField",
            FieldType::PropertyNameField => "PropertyNameField",
            FieldType::SymbolField => "SymbolField",
            FieldType::BaseScriptField => "BaseScriptField",
            FieldType::RawInt32Field => "RawInt32Field",
            FieldType::RawPointerField => "RawPointerField",
            FieldType::IdField => "IdField",
            FieldType::ValueField => "ValueField",
            FieldType::RawInt64Field => "RawInt64Field",
            FieldType::AllocSiteField => "AllocSiteField",
        }
    }
}

/// The kind of an immediate operand.
#[derive(Clone, Copy, PartialEq, Eq, Structural, Debug)]
pub enum ImmValueType {
    JSOpImm,
    BoolImm,
    ByteImm,
    GuardClassKindImm,
    ValueTypeImm,
    JSWhyMagicImm,
    CallFlagsImm,
    ScalarTypeImm,
    UnaryMathFunctionImm,
    WasmValTypeImm,
    Int32Imm,
    UInt32Imm,
    JSNativeImm,
    AllocKindImm,
}

impl ImmValueType {
    /// The name of the variant.
    pub open spec fn spec_name(self) -> Seq<char> {
        match self {
            ImmValueType::JSOpImm => "JSOpImm"@,
            ImmValueType::BoolImm => "BoolImm"@,
            ImmValueType::ByteImm => "ByteImm"@,
            ImmValueType::GuardClassKindImm => "GuardClassKindImm"@,
            ImmValueType::ValueTypeImm => "ValueTypeImm"@,
            ImmValueType::JSWhyMagicImm => "JSWhyMagicImm"@,
            ImmValueType::CallFlagsImm => "CallFlagsImm"@,
            ImmValueType::ScalarTypeImm => "ScalarTypeImm"@,
            ImmValueType::UnaryMathFunctionImm => "UnaryMathFunctionImm"@,
            ImmValueType::WasmValTypeImm => "WasmValTypeImm"@,
            ImmValueType::Int32Imm => "Int32Imm"@,
            ImmValueType::UInt32Imm => "UInt32Imm"@,
            ImmValueType::JSNativeImm => "JSNativeImm"@,
            ImmValueType::AllocKindImm => "AllocKindImm"@,
        }
    }

    /// The name of the variant.
    pub fn name(self) -> (r: &'static str)
        ensures
            r@ == self.spec_name(),
    {
        match self {
            ImmValueType::JSOpImm => "JSOpImm",
            ImmValueType::BoolImm => "BoolImm",
            ImmValueType::ByteImm => "ByteImm",
            ImmValueType::GuardClassKindImm => "GuardClassKindImm",
            ImmValueType::ValueTypeImm => "ValueTypeImm",
            ImmValueType::JSWhyMagicImm => "JSWhyMagicImm",
            ImmValueType::CallFlagsImm => "CallFlagsImm",
            ImmValueType::ScalarTypeImm => "ScalarTypeImm",
            ImmValueType::UnaryMathFunctionImm => "UnaryMathFunctionImm",
            ImmValueType::WasmValTypeImm => "WasmValTypeImm",
            ImmValueType::Int32Imm => "Int32Imm",
            ImmValueType::UInt32Imm => "UInt32Imm",
            ImmValueType::JSNativeImm => "JSNativeImm",
            ImmValueType::AllocKindImm => "AllocKindImm",
        }
    }
}

/// The type tag of a JavaScript value.
#[derive(Clone, Copy, PartialEq, Eq, Structural, Debug)]
pub enum ValueType {
    Double,
    Int32,
    Boolean,
    Undefined,
    Null,
    Magic,
    String,
    Symbol,
    PrivateGcThing,
    BigInt,
    Object,
    Unknown,
}

impl ValueType {
    /// The name of the variant.
    pub open spec fn spec_name(self) -> Seq<char> {
        match self {
            ValueType::Double => "Double"@,
            ValueType::Int32 => "Int32"@,
            ValueType::Boolean => "Boolean"@,
            ValueType::Undefined => "Undefined"@,
            ValueType::Null => "Null"@,
            ValueType::Magic => "Magic"@,
            ValueType::String => "String"@,
            ValueType::Symbol => "Symbol"@,
            ValueType::PrivateGcThing => "PrivateGcThing"@,
            ValueType::BigInt => "BigInt"@,
            ValueType::Object => "Object"@,
            ValueType::Unknown => "Unknown"@,
        }
    }

    /// The name of the variant.
    pub fn name(self) -> (r: &'static str)
        ensures
            r@ == self.spec_name(),
    {
        match self {
            ValueType::Double => "Double",
            ValueType::Int32 => "Int32",
            ValueType::Boolean => "Boolean",
            ValueType::Undefined => "Undefined",
            ValueType::Null => "Null",
            ValueType::Magic => "Magic",
            ValueType::String => "String",
            ValueType::Symbol => "Symbol",
            ValueType::PrivateGcThing => "PrivateGcThing",
            ValueType::BigInt => "BigInt",
            ValueType::Object => "Object",
            ValueType::Unknown => "Unknown",
        }
    }
}

/// The type of a value in the optimizing compiler.
#[derive(Clone, Copy, PartialEq, Eq, Structural, Debug)]
pub enum MirType {
    Undefined,
    Null,
    Bool,
    Int32,
    Int64,
    IntPtr,
    Double,
    Float32,
    String,
    Symbol,
    BigInt,
    Simd128,
    Object,
    MagicOptimizedOut,
    MagicHole,
    MagicIsConstructing,
    MagicUninitializedLexical,
    Value,
    NoneType,
    Slots,
    Elements,
    Pointer,
    RefOrNull,
    StackResults,
    Shape,
}

impl MirType {
    /// The name of the variant.
    pub open spec fn spec_name(self) -> Seq<char> {
        match self {
            MirType::Undefined => "Undefined"@,
            MirType::Null => "Null"@,
            MirType::Bool => "Bool"@,
            MirType::Int32 => "Int32"@,
            MirType::Int64 => "Int64"@,
            MirType::IntPtr => "IntPtr"@,
            MirType::Double => "Double"@,
            MirType::Float32 => "Float32"@,
            MirType::String => "String"@,
            MirType::Symbol => "Symbol"@,
            MirType::BigInt => "BigInt"@,
            MirType::Simd128 => "Simd128"@,
            MirType::Object => "Object"@,
            MirType::MagicOptimizedOut => "MagicOptimizedOut"@,
            MirType::MagicHole => "MagicHole"@,
            MirType::MagicIsConstructing => "MagicIsConstructing"@,
            MirType::MagicUninitializedLexical => "MagicUninitializedLexical"@,
            MirType::Value => "Value"@,
            MirType::NoneType => "None"@,
            MirType::Slots => "Slots"@,
            MirType::Elements => "Elements"@,
            MirType::Pointer => "Pointer"@,
            MirType::RefOrNull => "RefOrNull"@,
            MirType::StackResults => "StackResults"@,
            MirType::Shape => "Shape"@,
        }
    }

    /// The name of the variant.
    pub fn name(self) -> (r: &'static str)
        ensures
            r@ == self.spec_name(),
    {
        match self {
            MirType::Undefined => "Undefined",
            MirType::Null => "Null",
            MirType::Bool => "Bool",
            MirType::Int32 => "Int32",
            MirType::Int64 => "Int64",
            MirType::IntPtr => "IntPtr",
            MirType::Double => "Double",
            MirType::Float32 => "Float32",
            MirType::String => "String",
            MirType::Symbol => "Symbol",
            MirType::BigInt => "BigInt",
            MirType::Simd128 => "Simd128",
            MirType::Object => "Object",
            MirType::MagicOptimizedOut => "MagicOptimizedOut",
            MirType::MagicHole => "MagicHole",
            MirType::MagicIsConstructing => "MagicIsConstructing",
            MirType::MagicUninitializedLexical => "MagicUninitializedLexical",
            MirType::Value => "Value",
            MirType::NoneType => "None",
            MirType::Slots => "Slots",
            MirType::Elements => "Elements",
            MirType::Pointer => "Pointer",
            MirType::RefOrNull => "RefOrNull",
            MirType::StackResults => "StackResults",
            MirType::Shape => "Shape",
        }
    }
}

/// One cache stub: its kind, the engine that produced it, its input
/// operands, its output type, its operations, its fields and the facts known
/// about the heap.
pub struct Stub {
    pub kind: Ident,
    pub engine: Engine,
    pub input_operands: Vec<InputOperand>,
    pub output: Option<MirType>,
    pub ops: Vec<Op>,
    pub fields: Vec<Field>,
    pub facts: Vec<Fact>,
}

/// An input operand of a stub.
pub type InputOperand = Arg<OperandId>;

/// An operand of an operation.
pub type OpArg = Arg<OpArgData>;

/// A named piece of data.
pub struct Arg<T> {
    pub ident: Ident,
    pub data: T,
}

/// One operation of a stub.
pub struct Op {
    pub ident: Ident,
    pub args: Vec<OpArg>,
}

/// A reference to an operand of a stub, by number.
#[derive(Clone, Copy, PartialEq, Eq, Structural, Debug)]
pub struct OperandId {
    pub id: u16,
    pub type_: OperandIdType,
}

/// A reference to a field of a stub, by offset.
#[derive(Clone, Copy, PartialEq, Eq, Structural, Debug)]
pub struct FieldOffset {
    pub offset: u32,
    pub type_: FieldType,
}

/// A field of a stub, at a given offset.
pub struct Field {
    pub offset: u32,
    pub data: FieldData,
}

/// The data stored in a field.
#[derive(Clone, Copy, PartialEq, Eq, Structural, Debug)]
pub enum FieldData {
    Shape(Addr),
    GetterSetter(Addr),
    Object(Addr),
    String(Addr),
    Atom(Addr),
    PropertyName(Word),
    Symbol(Addr),
    BaseScript(Addr),
    RawInt32(i32),
    RawPointer(Addr),
    Id(Word),
    Value(u64),
    RawInt64(i64),
    AllocSite(Addr),
}

/// The type of an operand of an operation.
#[derive(Clone, Copy, PartialEq, Eq, Structural, Debug)]
pub enum OpArgType {
    OperandId(OperandIdType),
    FieldOffset(FieldType),
    ImmValue(ImmValueType),
}

/// The data of an operand of an operation.
pub enum OpArgData {
    OperandId(OperandId),
    FieldOffset(FieldOffset),
    ImmValue(ImmValue),
}

/// An immediate operand.
pub enum ImmValue {
    JSOp(Ident),
    Bool(bool),
    Byte(u8),
    GuardClassKind(Ident),
    ValueType(ValueType),
    JSWhyMagic(Ident),
    CallFlags(CallFlags),
    ScalarType(Ident),
    UnaryMathFunction(Ident),
    WasmValType(Ident),
    Int32(i32),
    UInt32(u32),
    JSNative(Addr),
    AllocKind(Ident),
}

/// The flags of a call operation.
pub struct CallFlags {
    pub arg_format: Ident,
    pub is_constructing: bool,
    pub is_same_realm: bool,
    pub needs_uninitialized_this: bool,
}

/// A fact about the heap that held when the stub was attached.
#[derive(Clone, Copy, PartialEq, Eq, Structural, Debug)]
pub enum Fact {
    ShapeBase(ShapeBaseFact),
    ShapeClass(ShapeClassFact),
    ShapeNumFixedSlots(ShapeNumFixedSlotsFact),
    ShapeSlotSpan(ShapeSlotSpanFact),
    BaseShapeTaggedProto(BaseShapeTaggedProtoFact),
    ClassIsNativeObject(ClassIsNativeObjectFact),
    TaggedProtoIsObject(TaggedProtoIsObjectFact),
    TaggedProtoIsLazy(TaggedProtoIsLazyFact),
    TaggedProtoIsNull(TaggedProtoIsNullFact),
    StringIsAtom(StringIsAtomFact),
}

/// The base shape of a shape.
#[derive(Clone, Copy, PartialEq, Eq, Structural, Debug)]
pub struct ShapeBaseFact {
    pub shape: Addr,
    pub base_shape: Addr,
}

/// The class of a shape.
#[derive(Clone, Copy, PartialEq, Eq, Structural, Debug)]
pub struct ShapeClassFact {
    pub shape: Addr,
    pub class: Addr,
}

/// The number of fixed slots of a shape.
#[derive(Clone, Copy, PartialEq, Eq, Structural, Debug)]
pub struct ShapeNumFixedSlotsFact {
    pub shape: Addr,
    pub num_fixed_slots: u32,
}

/// The slot span of a shape.
#[derive(Clone, Copy, PartialEq, Eq, Structural, Debug)]
pub struct ShapeSlotSpanFact {
    pub shape: Addr,
    pub slot_span: u32,
}

/// The prototype of a base shape.
#[derive(Clone, Copy, PartialEq, Eq, Structural, Debug)]
pub struct BaseShapeTaggedProtoFact {
    pub base_shape: Addr,
    pub tagged_proto: Addr,
}

/// A class that describes native objects.
#[derive(Clone, Copy, PartialEq, Eq, Structural, Debug)]
pub struct ClassIsNativeObjectFact {
    pub class: Addr,
}

/// A prototype that is an object.
#[derive(Clone, Copy, PartialEq, Eq, Structural, Debug)]
pub struct TaggedProtoIsObjectFact {
    pub tagged_proto: Addr,
}

/// A prototype that is computed lazily.
#[derive(Clone, Copy, PartialEq, Eq, Structural, Debug)]
pub struct TaggedProtoIsLazyFact {
    pub tagged_proto: Addr,
}

/// A prototype that is null.
#[derive(Clone, Copy, PartialEq, Eq, Structural, Debug)]
pub struct TaggedProtoIsNullFact {
    pub tagged_proto: Addr,
}

/// A string that is an atom.
#[derive(Clone, Copy, PartialEq, Eq, Structural, Debug)]
pub struct StringIsAtomFact {
    pub string: Addr,
}

// Types of operands and data.

impl Typed for OperandId {
    type Type = OperandIdType;

    open spec fn spec_type(&self) -> OperandIdType {
        self.type_
    }

    fn type_(&self) -> (r: OperandIdType) {
        self.type_
    }
}

impl Typed for FieldOffset {
    type Type = FieldType;

    open spec fn spec_type(&self) -> FieldType {
        self.type_
    }

    fn type_(&self) -> (r: FieldType) {
        self.type_
    }
}

impl Typed for FieldData {
    type Type = FieldType;

    open spec fn spec_type(&self) -> FieldType {
        match self {
            FieldData::Shape(_) => FieldType::ShapeField,
            FieldData::GetterSetter(_) => FieldType::GetterSetterField,
            FieldData::Object(_) => FieldType::ObjectField,
            FieldData::String(_) => FieldType::StringField,
            FieldData::Atom(_) => FieldType::AtomField,
            FieldData::PropertyName(_) => FieldType::PropertyNameField,
            FieldData::Symbol(_) => FieldType::SymbolField,
            FieldData::BaseScript(_) => FieldType::BaseScriptField,
            FieldData::RawInt32(_) => FieldType::RawInt32Field,
            FieldData::RawPointer(_) => FieldType::RawPointerField,
            FieldData::Id(_) => FieldType::IdField,
            FieldData::Value(_) => FieldType::ValueField,
            FieldData::RawInt64(_) => FieldType::RawInt64Field,
            FieldData::AllocSite(_) => FieldType::AllocSiteField,
        }
    }

    fn type_(&self) -> (r: FieldType) {
        match self {
            FieldData::Shape(_) => FieldType::ShapeField,
            FieldData::GetterSetter(_) => FieldType::GetterSetterField,
            FieldData::Object(_) => FieldType::ObjectField,
            FieldData::String(_) => FieldType::StringField,
            FieldData::Atom(_) => FieldType::AtomField,
            FieldData::PropertyName(_) => FieldType::PropertyNameField,
            FieldData::Symbol(_) => FieldType::SymbolField,
            FieldData::BaseScript(_) => FieldType::BaseScriptField,
            FieldData::RawInt32(_) => FieldType::RawInt32Field,
            FieldData::RawPointer(_) => FieldType::RawPointerField,
            FieldData::Id(_) => FieldType::IdField,
            FieldData::Value(_) => FieldType::ValueField,
            FieldData::RawInt64(_) => FieldType::RawInt64Field,
            FieldData::AllocSite(_) => FieldType::AllocSiteField,
        }
    }
}

impl Typed for Field {
    type Type = FieldType;

    open spec fn spec_type(&self) -> FieldType {
        self.data.spec_type()
    }

    fn type_(&self) -> (r: FieldType) {
        self.data.type_()
    }
}

impl Typed for ImmValue {
    type Type = ImmValueType;

    open spec fn spec_type(&self) -> ImmValueType {
        match self {
            ImmValue::JSOp(_) => ImmValueType::JSOpImm,
            ImmValue::Bool(_) => ImmValueType::BoolImm,
            ImmValue::Byte(_) => ImmValueType::ByteImm,
            ImmValue::GuardClassKind(_) => ImmValueType::GuardClassKindImm,
            ImmValue::ValueType(_) => ImmValueType::ValueTypeImm,
            ImmValue::JSWhyMagic(_) => ImmValueType::JSWhyMagicImm,
            ImmValue::CallFlags(_) => ImmValueType::CallFlagsImm,
            ImmValue::ScalarType(_) => ImmValueType::ScalarTypeImm,
            ImmValue::UnaryMathFunction(_) => ImmValueType::UnaryMathFunctionImm,
            ImmValue::WasmValType(_) => ImmValueType::WasmValTypeImm,
            ImmValue::Int32(_) => ImmValueType::Int32Imm,
            ImmValue::UInt32(_) => ImmValueType::UInt32Imm,
            ImmValue::JSNative(_) => ImmValueType::JSNativeImm,
            ImmValue::AllocKind(_) => ImmValueType::AllocKindImm,
        }
    }

    fn type_(&self) -> (r: ImmValueType) {
        match self {
            ImmValue::JSOp(_) => ImmValueType::JSOpImm,
            ImmValue::Bool(_) => ImmValueType::BoolImm,
            ImmValue::Byte(_) => ImmValueType::ByteImm,
            ImmValue::GuardClassKind(_) => ImmValueType::GuardClassKindImm,
            ImmValue::ValueType(_) => ImmValueType::ValueTypeImm,
            ImmValue::JSWhyMagic(_) => ImmValueType::JSWhyMagicImm,
            ImmValue::CallFlags(_) => ImmValueType::CallFlagsImm,
            ImmValue::ScalarType(_) => ImmValueType::ScalarTypeImm,
            ImmValue::UnaryMathFunction(_) => ImmValueType::UnaryMathFunctionImm,
            ImmValue::WasmValType(_) => ImmValueType::WasmValTypeImm,
            ImmValue::Int32(_) => ImmValueType::Int32Imm,
            ImmValue::UInt32(_) => ImmValueType::UInt32Imm,
            ImmValue::JSNative(_) => ImmValueType::JSNativeImm,
            ImmValue::AllocKind(_) => ImmValueType::AllocKindImm,
        }
    }
}

impl Typed for OpArgData {
    type Type = OpArgType;

    open spec fn spec_type(&self) -> OpArgType {
        match self {
            OpArgData::OperandId(data) => OpArgType::OperandId(data.type_),
            OpArgData::FieldOffset(data) => OpArgType::FieldOffset(data.type_),
            OpArgData::ImmValue(data) => OpArgType::ImmValue(data.spec_type()),
        }
    }

    fn type_(&self) -> (r: OpArgType) {
        match self {
            OpArgData::OperandId(data) => OpArgType::OperandId(data.type_),
            OpArgData::FieldOffset(data) => OpArgType::FieldOffset(data.type_),
            OpArgData::ImmValue(data) => OpArgType::ImmValue(data.type_()),
        }
    }
}

impl<T: Typed> Typed for Arg<T> {
    type Type = T::Type;

    open spec fn spec_type(&self) -> T::Type {
        self.data.spec_type()
    }

    fn type_(&self) -> (r: T::Type) {
        self.data.type_()
    }
}

// Text of stubs, as the JIT prints them.

impl OpArgType {
    /// The name of the type.
    pub open spec fn text(self) -> Seq<char> {
        match self {
            OpArgType::OperandId(t) => t.spec_name(),
            OpArgType::FieldOffset(t) => t.spec_name(),
            OpArgType::ImmValue(t) => t.spec_name(),
        }
    }

    /// Appends the name of the type.
    pub fn push_text(self, s: &mut String)
        ensures
            final(s)@ == old(s)@ + self.text(),
    {
        match self {
            OpArgType::OperandId(t) => push_str(s, t.name()),
            OpArgType::FieldOffset(t) => push_str(s, t.name()),
            OpArgType::ImmValue(t) => push_str(s, t.name()),
        }
    }
}

impl OperandId {
    /// The operand number, in decimal.
    pub open spec fn text(self) -> Seq<char> {
        dec_text(self.id as nat)
    }

    /// Appends the operand number.
    pub fn push_text(&self, s: &mut String)
        ensures
            final(s)@ == old(s)@ + self.text(),
    {
        push_dec(s, self.id as u64);
    }
}

impl FieldOffset {
    /// The offset, in decimal.
    pub open spec fn text(self) -> Seq<char> {
        dec_text(self.offset as nat)
    }

    /// Appends the offset.
    pub fn push_text(&self, s: &mut String)
        ensures
            final(s)@ == old(s)@ + self.text(),
    {
        push_dec(s, self.offset as u64);
    }
}

impl FieldData {
    /// Addresses and words in hexadecimal, raw integers in decimal.
    pub open spec fn text(self) -> Seq<char> {
        match self {
            FieldData::Shape(a) => hex_text(a as nat),
            FieldData::GetterSetter(a) => hex_text(a as nat),
            FieldData::Object(a) => hex_text(a as nat),
            FieldData::String(a) => hex_text(a as nat),
            FieldData::Atom(a) => hex_text(a as nat),
            FieldData::PropertyName(a) => hex_text(a as nat),
            FieldData::Symbol(a) => hex_text(a as nat),
            FieldData::BaseScript(a) => hex_text(a as nat),
            FieldData::RawInt32(n) => signed_dec_text(n as int),
            FieldData::RawPointer(a) => hex_text(a as nat),
            FieldData::Id(a) => hex_text(a as nat),
            FieldData::Value(a) => hex_text(a as nat),
            FieldData::RawInt64(n) => signed_dec_text(n as int),
            FieldData::AllocSite(a) => hex_text(a as nat),
        }
    }

    /// Appends the text of the data.
    pub fn push_text(&self, s: &mut String)
        ensures
            final(s)@ == old(s)@ + self.text(),
    {
        match *self {
            FieldData::Shape(a) => push_hex(s, a),
            FieldData::GetterSetter(a) => push_hex(s, a),
            FieldData::Object(a) => push_hex(s, a),
            FieldData::String(a) => push_hex(s, a),
            FieldData::Atom(a) => push_hex(s, a),
            FieldData::PropertyName(a) => push_hex(s, a),
            FieldData::Symbol(a) => push_hex(s, a),
            FieldData::BaseScript(a) => push_hex(s, a),
            FieldData::RawInt32(n) => push_signed_dec(s, n as i64),
            FieldData::RawPointer(a) => push_hex(s, a),
            FieldData::Id(a) => push_hex(s, a),
            FieldData::Value(a) => push_hex(s, a),
            FieldData::RawInt64(n) => push_signed_dec(s, n),
            FieldData::AllocSite(a) => push_hex(s, a),
        }
    }
}

impl Field {
    /// `<type> <offset>, <data>`.
    pub open spec fn text(&self) -> Seq<char> {
        self.data.spec_type().spec_name() + " "@ + dec_text(self.offset as nat) + ", "@
            + self.data.text()
    }

    /// Appends the text of the field.
    pub fn push_text(&self, s: &mut String)
        ensures
            final(s)@ == old(s)@ + self.text(),
    {
        push_str(s, self.type_().name());
        push_str(s, " ");
        push_dec(s, self.offset as u64);
        push_str(s, ", ");
        self.data.push_text(s);
        assert(final(s)@ =~= old(s)@ + self.text());
    }

    /// The text of the field.
    pub fn to_string(&self) -> (r: String)
        ensures
            r@ == self.text(),
    {
        let mut s = String::new();
        self.push_text(&mut s);
        assert(s@ =~= self.text());
        s
    }
}

impl CallFlags {
    /// The argument format followed by the flags that are set.
    pub open spec fn text(&self) -> Seq<char> {
        self.arg_format@
            + (if self.is_constructing { "+ isConstructing"@ } else { Seq::empty() })
            + (if self.is_same_realm { "+ isSameRealm"@ } else { Seq::empty() })
            + (if self.needs_uninitialized_this { "+ needsUninitializedThis"@ } else { Seq::empty() })
    }

    /// Appends the text of the flags.
    pub fn push_text(&self, s: &mut String)
        ensures
            final(s)@ == old(s)@ + self.text(),
    {
        let ghost s0 = s@;
        push_str(s, self.arg_format.as_str());
        let ghost s1 = s@;
        if self.is_constructing {
            push_str(s, "+ isConstructing");
        }
        let ghost s2 = s@;
        if self.is_same_realm {
            push_str(s, "+ isSameRealm");
        }
        let ghost s3 = s@;
        if self.needs_uninitialized_this {
            push_str(s, "+ needsUninitializedThis");
        }
        assert(s@ =~= s0 + self.text());
    }
}

impl ImmValue {
    /// Identifiers and names as they are, numbers in decimal, native
    /// functions by hexadecimal address.
    pub open spec fn text(&self) -> Seq<char> {
        match self {
            ImmValue::JSOp(i) => i@,
            ImmValue::Bool(b) => bool_text(*b),
            ImmValue::Byte(n) => dec_text(*n as nat),
            ImmValue::GuardClassKind(i) => i@,
            ImmValue::ValueType(t) => t.spec_name(),
            ImmValue::JSWhyMagic(i) => i@,
            ImmValue::CallFlags(f) => f.text(),
            ImmValue::ScalarType(i) => i@,
            ImmValue::UnaryMathFunction(i) => i@,
            ImmValue::WasmValType(i) => i@,
            ImmValue::Int32(n) => signed_dec_text(*n as int),
            ImmValue::UInt32(n) => dec_text(*n as nat),
            ImmValue::JSNative(a) => hex_text(*a as nat),
            ImmValue::AllocKind(i) => i@,
        }
    }

    /// Appends the text of the value.
    pub fn push_text(&self, s: &mut String)
        ensures
            final(s)@ == old(s)@ + self.text(),
    {
        match self {
            ImmValue::JSOp(i) => push_str(s, i.as_str()),
            ImmValue::Bool(b) => push_bool(s, *b),
            ImmValue::Byte(n) => push_dec(s, *n as u64),
            ImmValue::GuardClassKind(i) => push_str(s, i.as_str()),
            ImmValue::ValueType(t) => push_str(s, t.name()),
            ImmValue::JSWhyMagic(i) => push_str(s, i.as_str()),
            ImmValue::CallFlags(f) => f.push_text(s),
            ImmValue::ScalarType(i) => push_str(s, i.as_str()),
            ImmValue::UnaryMathFunction(i) => push_str(s, i.as_str()),
            ImmValue::WasmValType(i) => push_str(s, i.as_str()),
            ImmValue::Int32(n) => push_signed_dec(s, *n as i64),
            ImmValue::UInt32(n) => push_dec(s, *n as u64),
            ImmValue::JSNative(a) => push_hex(s, *a),
            ImmValue::AllocKind(i) => push_str(s, i.as_str()),
        }
    }
}

impl OpArgData {
    /// The text of the operand data.
    pub open spec fn text(&self) -> Seq<char> {
        match self {
            OpArgData::OperandId(d) => d.text(),
            OpArgData::FieldOffset(d) => d.text(),
            OpArgData::ImmValue(d) => d.text(),
        }
    }

    /// Appends the text of the operand data.
    pub fn push_text(&self, s: &mut String)
        ensures
            final(s)@ == old(s)@ + self.text(),
    {
        match self {
            OpArgData::OperandId(d) => d.push_text(s),
            OpArgData::FieldOffset(d) => d.push_text(s),
            OpArgData::ImmValue(d) => d.push_text(s),
        }
    }
}

impl Arg<OperandId> {
    /// `[<type> <ident>] <data>`.
    pub open spec fn text(&self) -> Seq<char> {
        "["@ + self.data.type_.spec_name() + " "@ + self.ident@ + "] "@ + self.data.text()
    }

    /// Appends the text of the operand.
    pub fn push_text(&self, s: &mut String)
        ensures
            final(s)@ == old(s)@ + self.text(),
    {
        let ghost s0 = s@;
        push_str(s, "[");
        push_str(s, self.data.type_().name());
        push_str(s, " ");
        push_str(s, self.ident.as_str());
        push_str(s, "] ");
        self.data.push_text(s);
        assert(s@ =~= s0 + self.text());
    }
}

impl Arg<OpArgData> {
    /// `[<type> <ident>] <data>`.
    pub open spec fn text(&self) -> Seq<char> {
        "["@ + self.data.spec_type().text() + " "@ + self.ident@ + "] "@ + self.data.text()
    }

    /// Appends the text of the operand.
    pub fn push_text(&self, s: &mut String)
        ensures
            final(s)@ == old(s)@ + self.text(),
    {
        let ghost s0 = s@;
        push_str(s, "[");
        self.data.type_().push_text(s);
        push_str(s, " ");
        push_str(s, self.ident.as_str());
        push_str(s, "] ");
        self.data.push_text(s);
        assert(s@ =~= s0 + self.text());
    }
}

/// The texts of operation operands.
pub open spec fn op_arg_texts(args: Seq<OpArg>) -> Seq<Seq<char>> {
    args.map_values(|a: OpArg| a.text())
}

impl Op {
    /// The operation name, followed by its operands separated by `, `.
    pub open spec fn text(&self) -> Seq<char> {
        if self.args@.len() == 0 {
            self.ident@
        } else {
            self.ident@ + " "@ + join(op_arg_texts(self.args@), ", "@)
        }
    }

    /// Appends the text of the operation.
    pub fn push_text(&self, s: &mut String)
        ensures
            final(s)@ == old(s)@ + self.text(),
    {
        let ghost s0 = s@;
        push_str(s, self.ident.as_str());
        let n = self.args.len();
        if n == 0 {
            return;
        }
        push_str(s, " ");
        let ghost s1 = s@;
        let mut i: usize = 0;
        while i < n
            invariant
                n == self.args@.len(),
                i <= n,
                s@ == s1 + join(op_arg_texts(self.args@).take(i as int), ", "@),
            decreases n - i,
        {
            let ghost prev = s@;
            if i > 0 {
                push_str(s, ", ");
            }
            self.args[i].push_text(s);
            proof {
                let t = op_arg_texts(self.args@);
                lemma_join_push(t.take(i as int), ", "@, t[i as int]);
                assert(t.take(i as int).push(t[i as int]) =~= t.take(i + 1));
            }
            i += 1;
        }
        assert(op_arg_texts(self.args@).take(n as int) =~= op_arg_texts(self.args@));
    }

    /// The text of the operation.
    pub fn to_string(&self) -> (r: String)
        ensures
            r@ == self.text(),
    {
        let mut s = String::new();
        self.push_text(&mut s);
        assert(s@ =~= self.text());
        s
    }
}

impl Fact {
    /// The name of the fact followed by its operands.
    pub open spec fn text(&self) -> Seq<char> {
        match self {
            Fact::ShapeBase(f) => "ShapeBase "@ + hex_text(f.shape as nat) + ", "@
                + hex_text(f.base_shape as nat),
            Fact::ShapeClass(f) => "ShapeClass "@ + hex_text(f.shape as nat) + ", "@
                + hex_text(f.class as nat),
            Fact::ShapeNumFixedSlots(f) => "ShapeNumFixedSlots "@ + hex_text(f.shape as nat)
                + ", "@ + dec_text(f.num_fixed_slots as nat),
            Fact::ShapeSlotSpan(f) => "ShapeSlotSpan "@ + hex_text(f.shape as nat) + ", "@
                + dec_text(f.slot_span as nat),
            Fact::BaseShapeTaggedProto(f) => "BaseShapeTaggedProto "@ + hex_text(
                f.base_shape as nat,
            ) + ", "@ + hex_text(f.tagged_proto as nat),
            Fact::ClassIsNativeObject(f) => "ClassIsNativeObject "@ + hex_text(f.class as nat),
            Fact::TaggedProtoIsObject(f) => "TaggedProtoIsObject "@ + hex_text(
                f.tagged_proto as nat,
            ),
            Fact::TaggedProtoIsLazy(f) => "TaggedProtoIsLazy "@ + hex_text(f.tagged_proto as nat),
            Fact::TaggedProtoIsNull(f) => "TaggedProtoIsNull "@ + hex_text(f.tagged_proto as nat),
            Fact::StringIsAtom(f) => "StringIsAtom "@ + hex_text(f.string as nat),
        }
    }

    /// Appends the text of the fact.
    pub fn push_text(&self, s: &mut String)
        ensures
            final(s)@ == old(s)@ + self.text(),
    {
        let ghost s0 = s@;
        match *self {
            Fact::ShapeBase(f) => {
                push_str(s, "ShapeBase ");
                push_hex(s, f.shape);
                push_str(s, ", ");
                push_hex(s, f.base_shape);
            },
            Fact::ShapeClass(f) => {
                push_str(s, "ShapeClass ");
                push_hex(s, f.shape);
                push_str(s, ", ");
                push_hex(s, f.class);
            },
            Fact::ShapeNumFixedSlots(f) => {
                push_str(s, "ShapeNumFixedSlots ");
                push_hex(s, f.shape);
                push_str(s, ", ");
                push_dec(s, f.num_fixed_slots as u64);
            },
            Fact::ShapeSlotSpan(f) => {
                push_str(s, "ShapeSlotSpan ");
                push_hex(s, f.shape);
                push_str(s, ", ");
                push_dec(s, f.slot_span as u64);
            },
            Fact::BaseShapeTaggedProto(f) => {
                push_str(s, "BaseShapeTaggedProto ");
                push_hex(s, f.base_shape);
                push_str(s, ", ");
                push_hex(s, f.tagged_proto);
            },
            Fact::ClassIsNativeObject(f) => {
                push_str(s, "ClassIsNativeObject ");
                push_hex(s, f.class);
            },
            Fact::TaggedProtoIsObject(f) => {
                push_str(s, "TaggedProtoIsObject ");
                push_hex(s, f.tagged_proto);
            },
            Fact::TaggedProtoIsLazy(f) => {
                push_str(s, "TaggedProtoIsLazy ");
                push_hex(s, f.tagged_proto);
            },
            Fact::TaggedProtoIsNull(f) => {
                push_str(s, "TaggedProtoIsNull ");
                push_hex(s, f.tagged_proto);
            },
            Fact::StringIsAtom(f) => {
                push_str(s, "StringIsAtom ");
                push_hex(s, f.string);
            },
        }
        assert(s@ =~= s0 + self.text());
    }

    /// The text of the fact.
    pub fn to_string(&self) -> (r: String)
        ensures
            r@ == self.text(),
    {
        let mut s = String::new();
        self.push_text(&mut s);
        assert(s@ =~= self.text());
        s
    }
}

/// The texts of a sequence of items, as given by `f`.
pub open spec fn texts<T>(items: Seq<T>, f: spec_fn(T) -> Seq<char>) -> Seq<Seq<char>> {
    items.map_values(f)
}

impl Stub {
    /// The kind and engine, then the inputs, operations, fields and facts,
    /// one per line, with the sections separated by `%` lines.
    pub open spec fn text(&self) -> Seq<char> {
        self.kind@ + " "@ + self.engine.spec_name()
            + join_leading(texts(self.input_operands@, |a: InputOperand| a.text()), "\nInput "@)
            + "\n%\n"@
            + join_leading(texts(self.ops@, |o: Op| o.text()), "\n"@)
            + "\n%\n"@
            + join_leading(texts(self.fields@, |f: Field| f.text()), "\n"@)
            + "\n%"@
            + (if self.facts@.len() == 0 { Seq::empty() } else {
                "\n"@ + join_leading(texts(self.facts@, |f: Fact| f.text()), "\n"@)
            })
    }

    /// The text of the stub.
    pub fn to_string(&self) -> (r: String)
        ensures
            r@ == self.text(),
    {
        let mut s = String::new();
        push_str(&mut s, self.kind.as_str());
        push_str(&mut s, " ");
        push_str(&mut s, self.engine.name());
        let ghost s0 = s@;
        let n = self.input_operands.len();
        let mut i: usize = 0;
        while i < n
            invariant
                n == self.input_operands@.len(),
                i <= n,
                s@ == s0 + join_leading(
                    texts(self.input_operands@, |a: InputOperand| a.text()).take(i as int),
                    "\nInput "@,
                ),
            decreases n - i,
        {
            push_str(&mut s, "\nInput ");
            self.input_operands[i].push_text(&mut s);
            proof {
                let t = texts(self.input_operands@, |a: InputOperand| a.text());
                lemma_join_push(t.take(i as int), "\nInput "@, t[i as int]);
                assert(t.take(i as int).push(t[i as int]) =~= t.take(i + 1));
            }
            i += 1;
        }
        push_str(&mut s, "\n%\n");
        let ghost s1 = s@;
        let n = self.ops.len();
        let mut i: usize = 0;
        while i < n
            invariant
                n == self.ops@.len(),
                i <= n,
                s@ == s1 + join_leading(texts(self.ops@, |o: Op| o.text()).take(i as int), "\n"@),
            decreases n - i,
        {
            push_str(&mut s, "\n");
            self.ops[i].push_text(&mut s);
            proof {
                let t = texts(self.ops@, |o: Op| o.text());
                lemma_join_push(t.take(i as int), "\n"@, t[i as int]);
                assert(t.take(i as int).push(t[i as int]) =~= t.take(i + 1));
            }
            i += 1;
        }
        push_str(&mut s, "\n%\n");
        let ghost s2 = s@;
        let n = self.fields.len();
        let mut i: usize = 0;
        while i < n
            invariant
                n == self.fields@.len(),
                i <= n,
                s@ == s2 + join_leading(
                    texts(self.fields@, |f: Field| f.text()).take(i as int),
                    "\n"@,
                ),
            decreases n - i,
        {
            push_str(&mut s, "\n");
            self.fields[i].push_text(&mut s);
            proof {
                let t = texts(self.fields@, |f: Field| f.text());
                lemma_join_push(t.take(i as int), "\n"@, t[i as int]);
                assert(t.take(i as int).push(t[i as int]) =~= t.take(i + 1));
            }
            i += 1;
        }
        push_str(&mut s, "\n%");
        let ghost s3 = s@;
        let n = self.facts.len();
        if n != 0 {
            push_str(&mut s, "\n");
        }
        let ghost s4 = s@;
        let mut i: usize = 0;
        while i < n
            invariant
                n == self.facts@.len(),
                i <= n,
                s@ == s4 + join_leading(texts(self.facts@, |f: Fact| f.text()).take(i as int), "\n"@),
            decreases n - i,
        {
            push_str(&mut s, "\n");
            self.facts[i].push_text(&mut s);
            proof {
                let t = texts(self.facts@, |f: Fact| f.text());
                lemma_join_push(t.take(i as int), "\n"@, t[i as int]);
                assert(t.take(i as int).push(t[i as int]) =~= t.take(i + 1));
            }
            i += 1;
        }
        proof {
            assert(texts(self.input_operands@, |a: InputOperand| a.text()).take(
                self.input_operands@.len() as int,
            ) =~= texts(self.input_operands@, |a: InputOperand| a.text()));
            assert(texts(self.ops@, |o: Op| o.text()).take(self.ops@.len() as int) =~= texts(
                self.ops@,
                |o: Op| o.text(),
            ));
            assert(texts(self.fields@, |f: Field| f.text()).take(self.fields@.len() as int)
                =~= texts(self.fields@, |f: Field| f.text()));
            assert(texts(self.facts@, |f: Fact| f.text()).take(n as int) =~= texts(
                self.facts@,
                |f: Fact| f.text(),
            ));
            if n == 0 {
                assert(join_leading(texts(self.facts@, |f: Fact| f.text()), "\n"@)
                    =~= Seq::<char>::empty());
            }
            assert(s@ =~= self.text());
        }
        s
    }
}

} // verus!
