//! Names and attributes in the Boogie code that the compiler generates.

use vstd::prelude::*;

use crate::ident::Ident;
use crate::syntax::{
    ArithBinOper, BitwiseBinOper, CompareBinOper, LogicalBinOper, NegateKind, NumericCompareBinOper,
};
use crate::text::{dec_text, join_leading, lemma_join_push, push_dec, push_str};

verus! {

/// The identifier of an IR: `#<ident>`.
pub struct IrIdent {
    pub ident: Ident,
}

impl Clone for IrIdent {
    fn clone(&self) -> (r: Self)
        ensures
            r == *self,
    {
        IrIdent { ident: self.ident.clone() }
    }
}

impl IrIdent {
    /// `#<ident>`.
    pub open spec fn text(&self) -> Seq<char> {
        "#"@ + self.ident@
    }

    /// Appends the text of the identifier.
    pub fn push_text(&self, s: &mut String)
        ensures
            final(s)@ == old(s)@ + self.text(),
    {
        let ghost s0 = s@;
        push_str(s, "#");
        push_str(s, self.ident.as_str());
        assert(s@ =~= s0 + self.text());
    }
}

/// A bit-vector type: `bv<width>`.
#[derive(Clone, Copy, PartialEq, Eq, Structural, Debug)]
pub struct BitVecTypeIdent {
    pub width: u8,
}

impl BitVecTypeIdent {
    /// `bv<width>`.
    pub open spec fn text(self) -> Seq<char> {
        "bv"@ + dec_text(self.width as nat)
    }

    /// Appends the text of the type.
    pub fn push_text(self, s: &mut String)
        ensures
            final(s)@ == old(s)@ + self.text(),
    {
        let ghost s0 = s@;
        push_str(s, "bv");
        push_dec(s, self.width as u64);
        assert(s@ =~= s0 + self.text());
    }
}

/// A floating-point type: `float<significand width>e<exponent width>`.
#[derive(Clone, Copy, PartialEq, Eq, Structural, Debug)]
pub struct FloatTypeIdent {
    pub sig_width: u8,
    pub exp_width: u8,
}

impl FloatTypeIdent {
    /// `float<significand width>e<exponent width>`.
    pub open spec fn text(self) -> Seq<char> {
        "float"@ + dec_text(self.sig_width as nat) + "e"@ + dec_text(self.exp_width as nat)
    }

    /// Appends the text of the type.
    pub fn push_text(self, s: &mut String)
        ensures
            final(s)@ == old(s)@ + self.text(),
    {
        let ghost s0 = s@;
        push_str(s, "float");
        push_dec(s, self.sig_width as u64);
        push_str(s, "e");
        push_dec(s, self.exp_width as u64);
        assert(s@ =~= s0 + self.text());
    }
}

/// The types that Boogie provides.
#[derive(Clone, Copy, PartialEq, Eq, Structural, Debug)]
pub enum NativeTypeIdent {
    Bool,
    Int,
    BitVec(BitVecTypeIdent),
    Float(FloatTypeIdent),
}

impl NativeTypeIdent {
    /// The Boogie text.
    pub open spec fn text(self) -> Seq<char> {
        match self {
            NativeTypeIdent::Bool => "bool"@,
            NativeTypeIdent::Int => "int"@,
            NativeTypeIdent::BitVec(t) => t.text(),
            NativeTypeIdent::Float(t) => t.text(),
        }
    }

    /// The Boogie text.
    pub fn to_string(self) -> (r: String)
        ensures
            r@ == self.text(),
    {
        let mut s = String::new();
        match self {
            NativeTypeIdent::Bool => push_str(&mut s, "bool"),
            NativeTypeIdent::Int => push_str(&mut s, "int"),
            NativeTypeIdent::BitVec(t) => t.push_text(&mut s),
            NativeTypeIdent::Float(t) => t.push_text(&mut s),
        }
        assert(s@ =~= self.text());
        s
    }
}

/// The types that the Boogie prelude declares.
#[derive(Clone, Copy, PartialEq, Eq, Structural, Debug)]
pub enum PreludeTypeIdent {
    EmitPath,
    Label,
    Pc,
}

impl PreludeTypeIdent {
    /// The Boogie text.
    pub open spec fn text(self) -> Seq<char> {
        match self {
            PreludeTypeIdent::EmitPath => "EmitPath"@,
            PreludeTypeIdent::Label => "Label"@,
            PreludeTypeIdent::Pc => "Pc"@,
        }
    }

    /// The Boogie text.
    pub fn as_str(self) -> (r: &'static str)
        ensures
            r@ == self.text(),
    {
        match self {
            PreludeTypeIdent::EmitPath => "EmitPath",
            PreludeTypeIdent::Label => "Label",
            PreludeTypeIdent::Pc => "Pc",
        }
    }
}

/// The types that each IR declares.
#[derive(Clone, Copy, PartialEq, Eq, Structural, Debug)]
pub enum IrMemberTypeSelector {
    Op,
}

impl IrMemberTypeSelector {
    /// The Boogie text.
    pub open spec fn text(self) -> Seq<char> {
        match self {
            IrMemberTypeSelector::Op => "Op"@,
        }
    }

    /// The Boogie text.
    pub fn as_str(self) -> (r: &'static str)
        ensures
            r@ == self.text(),
    {
        match self {
            IrMemberTypeSelector::Op => "Op",
        }
    }
}

/// The global variables that each IR declares.
#[derive(Clone, Copy, PartialEq, Eq, Structural, Debug)]
pub enum IrMemberGlobalVarSelector {
    Pc,
    NextLabel,
    LabelPcs,
}

impl IrMemberGlobalVarSelector {
    /// The Boogie text.
    pub open spec fn text(self) -> Seq<char> {
        match self {
            IrMemberGlobalVarSelector::Pc => "pc"@,
            IrMemberGlobalVarSelector::NextLabel => "nextLabel"@,
            IrMemberGlobalVarSelector::LabelPcs => "labelPcs"@,
        }
    }

    /// The Boogie text.
    pub fn as_str(self) -> (r: &'static str)
        ensures
            r@ == self.text(),
    {
        match self {
            IrMemberGlobalVarSelector::Pc => "pc",
            IrMemberGlobalVarSelector::NextLabel => "nextLabel",
            IrMemberGlobalVarSelector::LabelPcs => "labelPcs",
        }
    }
}

/// The kinds of variables that the compiler introduces.
#[derive(Clone, Copy, PartialEq, Eq, Structural, Debug)]
pub enum SyntheticVarKind {
    Out,
}

impl SyntheticVarKind {
    /// The Boogie text.
    pub open spec fn text(self) -> Seq<char> {
        match self {
            SyntheticVarKind::Out => "out"@,
        }
    }

    /// The Boogie text.
    pub fn as_str(self) -> (r: &'static str)
        ensures
            r@ == self.text(),
    {
        match self {
            SyntheticVarKind::Out => "out",
        }
    }
}

/// The functions that the Boogie prelude declares.
#[derive(Clone, Copy, PartialEq, Eq, Structural, Debug)]
pub enum PreludeFnIdent {
    ConsEmitPath,
    ConsPcEmitPath,
    EmitPathPcField,
    ExitLabel,
    ExitPc,
    Label,
    NilEmitPath,
    NilPc,
}

impl PreludeFnIdent {
    /// The Boogie text.
    pub open spec fn text(self) -> Seq<char> {
        match self {
            PreludeFnIdent::ConsEmitPath => "ConsEmitPath"@,
            PreludeFnIdent::ConsPcEmitPath => "ConsPcEmitPath"@,
            PreludeFnIdent::EmitPathPcField => "emitPath#Pc"@,
            PreludeFnIdent::ExitLabel => "ExitLabel"@,
            PreludeFnIdent::ExitPc => "ExitPc"@,
            PreludeFnIdent::Label => "Label"@,
            PreludeFnIdent::NilEmitPath => "NilEmitPath"@,
            PreludeFnIdent::NilPc => "NilPc"@,
        }
    }

    /// The Boogie text.
    pub fn as_str(self) -> (r: &'static str)
        ensures
            r@ == self.text(),
    {
        match self {
            PreludeFnIdent::ConsEmitPath => "ConsEmitPath",
            PreludeFnIdent::ConsPcEmitPath => "ConsPcEmitPath",
            PreludeFnIdent::EmitPathPcField => "emitPath#Pc",
            PreludeFnIdent::ExitLabel => "ExitLabel",
            PreludeFnIdent::ExitPc => "ExitPc",
            PreludeFnIdent::Label => "Label",
            PreludeFnIdent::NilEmitPath => "NilEmitPath",
            PreludeFnIdent::NilPc => "NilPc",
        }
    }
}

/// Attributes of type declarations.
#[derive(Clone, Copy, PartialEq, Eq, Structural, Debug)]
pub enum TypeAttr {
    DataType,
}

impl TypeAttr {
    /// The Boogie text.
    pub open spec fn text(self) -> Seq<char> {
        match self {
            TypeAttr::DataType => "{:datatype}"@,
        }
    }

    /// The Boogie text.
    pub fn as_str(self) -> (r: &'static str)
        ensures
            r@ == self.text(),
    {
        match self {
            TypeAttr::DataType => "{:datatype}",
        }
    }
}

/// Attributes of function declarations.
#[derive(Clone, Copy, PartialEq, Eq, Structural, Debug)]
pub enum FnAttr {
    Ctor,
    Inline,
}

impl FnAttr {
    /// The Boogie text.
    pub open spec fn text(self) -> Seq<char> {
        match self {
            FnAttr::Ctor => "{:constructor}"@,
            FnAttr::Inline => "{:inline}"@,
        }
    }

    /// The Boogie text.
    pub fn as_str(self) -> (r: &'static str)
        ensures
            r@ == self.text(),
    {
        match self {
            FnAttr::Ctor => "{:constructor}",
            FnAttr::Inline => "{:inline}",
        }
    }
}

/// Attributes of assertions.
#[derive(Clone, Copy, PartialEq, Eq, Structural, Debug)]
pub enum CheckAttr {
    Partition,
}

impl CheckAttr {
    /// The Boogie text.
    pub open spec fn text(self) -> Seq<char> {
        match self {
            CheckAttr::Partition => "{:partition}"@,
        }
    }

    /// The Boogie text.
    pub fn as_str(self) -> (r: &'static str)
        ensures
            r@ == self.text(),
    {
        match self {
            CheckAttr::Partition => "{:partition}",
        }
    }
}

/// A variable that the compiler introduces: `<kind>'<index>`.
#[derive(Clone, Copy, PartialEq, Eq, Structural, Debug)]
pub struct SyntheticVarIdent {
    pub kind: SyntheticVarKind,
    pub index: usize,
}

impl SyntheticVarIdent {
    /// `<kind>'<index>`.
    pub open spec fn text(self) -> Seq<char> {
        self.kind.text() + "'"@ + dec_text(self.index as nat)
    }

    /// The Boogie text.
    pub fn to_string(self) -> (r: String)
        ensures
            r@ == self.text(),
    {
        let mut s = String::new();
        push_str(&mut s, self.kind.as_str());
        push_str(&mut s, "'");
        push_dec(&mut s, self.index as u64);
        assert(s@ =~= self.text());
        s
    }
}

/// The member function of a type that negates its values.
#[derive(Clone, Copy, PartialEq, Eq, Structural, Debug)]
pub struct NegateTypeMemberFnSelector {
    kind: NegateKind,
}

impl NegateTypeMemberFnSelector {
    /// The member function for negation of the given kind.
    pub fn new(kind: NegateKind) -> (r: Self)
        ensures
            r.kind() == kind,
    {
        NegateTypeMemberFnSelector { kind }
    }

    /// The kind of negation.
    pub closed spec fn kind(self) -> NegateKind {
        self.kind
    }

    /// Only arithmetic and bitwise negation go through a member function.
    pub open spec fn has_text(self) -> bool {
        self.kind() != NegateKind::Logical
    }

    /// `negate` or `bitNot`.
    pub open spec fn text(self) -> Seq<char> {
        match self.kind() {
            NegateKind::Arith => "negate"@,
            _ => "bitNot"@,
        }
    }

    /// `negate` or `bitNot`; logical negation has no member function.
    pub fn as_str(self) -> (r: &'static str)
        requires
            self.has_text(),
        ensures
            r@ == self.text(),
    {
        match self.kind {
            NegateKind::Arith => "negate",
            NegateKind::Bitwise => "bitNot",
            NegateKind::Logical => "bitNot",
        }
    }
}

/// The member functions of a type that implement binary operators.
#[derive(Clone, Copy, PartialEq, Eq, Structural, Debug)]
pub enum BinOperTypeMemberFnSelector {
    Arith(ArithBinOper),
    Bitwise(BitwiseBinOper),
    NumericCompare(NumericCompareBinOper),
}

impl BinOperTypeMemberFnSelector {
    /// The name of the member function.
    pub open spec fn text(self) -> Seq<char> {
        match self {
            BinOperTypeMemberFnSelector::Arith(o) => match o {
                ArithBinOper::Mul => "mul"@,
                ArithBinOper::Div => "div"@,
                ArithBinOper::Mod => "mod"@,
                ArithBinOper::Add => "add"@,
                ArithBinOper::Sub => "sub"@,
            },
            BinOperTypeMemberFnSelector::Bitwise(o) => match o {
                BitwiseBinOper::Shl => "shl"@,
                BitwiseBinOper::Shr => "shr"@,
                BitwiseBinOper::And => "bitAnd"@,
                BitwiseBinOper::Xor => "xor"@,
                BitwiseBinOper::Or => "bitOr"@,
            },
            BinOperTypeMemberFnSelector::NumericCompare(o) => match o {
                NumericCompareBinOper::Lt => "lt"@,
                NumericCompareBinOper::Gt => "gt"@,
                NumericCompareBinOper::Lte => "lte"@,
                NumericCompareBinOper::Gte => "gte"@,
            },
        }
    }

    /// The name of the member function.
    pub fn as_str(self) -> (r: &'static str)
        ensures
            r@ == self.text(),
    {
        match self {
            BinOperTypeMemberFnSelector::Arith(o) => match o {
                ArithBinOper::Mul => "mul",
                ArithBinOper::Div => "div",
                ArithBinOper::Mod => "mod",
                ArithBinOper::Add => "add",
                ArithBinOper::Sub => "sub",
            },
            BinOperTypeMemberFnSelector::Bitwise(o) => match o {
                BitwiseBinOper::Shl => "shl",
                BitwiseBinOper::Shr => "shr",
                BitwiseBinOper::And => "bitAnd",
                BitwiseBinOper::Xor => "xor",
                BitwiseBinOper::Or => "bitOr",
            },
            BinOperTypeMemberFnSelector::NumericCompare(o) => match o {
                NumericCompareBinOper::Lt => "lt",
                NumericCompareBinOper::Gt => "gt",
                NumericCompareBinOper::Lte => "lte",
                NumericCompareBinOper::Gte => "gte",
            },
        }
    }
}

/// The inlining attribute of a procedure: `{:inline <depth>}`.
#[derive(Clone, Copy, PartialEq, Eq, Structural, Debug)]
pub struct InlineProcAttr {
    pub depth: u8,
}

impl InlineProcAttr {
    /// `{:inline <depth>}`.
    pub open spec fn text(self) -> Seq<char> {
        "{:inline "@ + dec_text(self.depth as nat) + "}"@
    }
}

/// Attributes of procedure declarations.
#[derive(Clone, Copy, PartialEq, Eq, Structural, Debug)]
pub enum ProcAttr {
    EntryPoint,
    Inline(InlineProcAttr),
}

impl ProcAttr {
    /// The Boogie text.
    pub open spec fn text(self) -> Seq<char> {
        match self {
            ProcAttr::EntryPoint => "{:entrypoint}"@,
            ProcAttr::Inline(a) => a.text(),
        }
    }

    /// The Boogie text.
    pub fn to_string(self) -> (r: String)
        ensures
            r@ == self.text(),
    {
        let mut s = String::new();
        match self {
            ProcAttr::EntryPoint => push_str(&mut s, "{:entrypoint}"),
            ProcAttr::Inline(a) => {
                push_str(&mut s, "{:inline ");
                push_dec(&mut s, a.depth as u64);
                push_str(&mut s, "}");
            },
        }
        assert(s@ =~= self.text());
        s
    }
}

/// The binary operators of generated Boogie expressions.
#[derive(Clone, Copy, PartialEq, Eq, Structural, Debug)]
pub enum BplBinOper {
    Arith(ArithBinOper),
    Compare(CompareBinOper),
    Logical(LogicalBinOper),
}

/// The symbol of an arithmetic operator.
pub open spec fn arith_symbol(o: ArithBinOper) -> Seq<char> {
    match o {
        ArithBinOper::Mul => "*"@,
        ArithBinOper::Div => "/"@,
        ArithBinOper::Mod => "%"@,
        ArithBinOper::Add => "+"@,
        ArithBinOper::Sub => "-"@,
    }
}

/// The symbol of a comparison.
pub open spec fn compare_symbol(o: CompareBinOper) -> Seq<char> {
    match o {
        CompareBinOper::Eq => "=="@,
        CompareBinOper::Neq => "!="@,
        CompareBinOper::Numeric(n) => match n {
            NumericCompareBinOper::Lt => "<"@,
            NumericCompareBinOper::Gt => ">"@,
            NumericCompareBinOper::Lte => "<="@,
            NumericCompareBinOper::Gte => ">="@,
        },
    }
}

impl BplBinOper {
    /// The operator's symbol.
    pub open spec fn text(self) -> Seq<char> {
        match self {
            BplBinOper::Arith(o) => arith_symbol(o),
            BplBinOper::Compare(o) => compare_symbol(o),
            BplBinOper::Logical(o) => match o {
                LogicalBinOper::And => "&&"@,
                LogicalBinOper::Or => "||"@,
            },
        }
    }

    /// The operator's symbol.
    pub fn as_str(self) -> (r: &'static str)
        ensures
            r@ == self.text(),
    {
        match self {
            BplBinOper::Arith(o) => match o {
                ArithBinOper::Mul => "*",
                ArithBinOper::Div => "/",
                ArithBinOper::Mod => "%",
                ArithBinOper::Add => "+",
                ArithBinOper::Sub => "-",
            },
            BplBinOper::Compare(o) => match o {
                CompareBinOper::Eq => "==",
                CompareBinOper::Neq => "!=",
                CompareBinOper::Numeric(n) => match n {
                    NumericCompareBinOper::Lt => "<",
                    NumericCompareBinOper::Gt => ">",
                    NumericCompareBinOper::Lte => "<=",
                    NumericCompareBinOper::Gte => ">=",
                },
            },
            BplBinOper::Logical(o) => match o {
                LogicalBinOper::And => "&&",
                LogicalBinOper::Or => "||",
            },
        }
    }
}

/// A user-defined operation of an IR: `~<op>`.
pub struct UserOpSelector {
    pub op_ident: Ident,
}

impl Clone for UserOpSelector {
    fn clone(&self) -> (r: Self)
        ensures
            r == *self,
    {
        UserOpSelector { op_ident: self.op_ident.clone() }
    }
}

impl UserOpSelector {
    /// `~<op>`.
    pub open spec fn text(&self) -> Seq<char> {
        "~"@ + self.op_ident@
    }
}

/// An operation of an IR: the exit operation or a user-defined one.
pub enum OpSelector {
    Exit,
    User(UserOpSelector),
}

impl Clone for OpSelector {
    fn clone(&self) -> (r: Self)
        ensures
            r == *self,
    {
        match self {
            OpSelector::Exit => OpSelector::Exit,
            OpSelector::User(u) => OpSelector::User(u.clone()),
        }
    }
}

impl OpSelector {
    /// `^Exit` or `~<op>`.
    pub open spec fn text(&self) -> Seq<char> {
        match self {
            OpSelector::Exit => "^Exit"@,
            OpSelector::User(u) => u.text(),
        }
    }

    /// Appends the text of the selector.
    pub fn push_text(&self, s: &mut String)
        ensures
            final(s)@ == old(s)@ + self.text(),
    {
        let ghost s0 = s@;
        match self {
            OpSelector::Exit => push_str(s, "^Exit"),
            OpSelector::User(u) => {
                push_str(s, "~");
                push_str(s, u.op_ident.as_str());
            },
        }
        assert(s@ =~= s0 + self.text());
    }
}

/// A user-defined function, possibly a member of a parent type:
/// `#<parent>~<fn>` or `#<fn>`.
pub struct UserFnIdent {
    pub parent_ident: Option<Ident>,
    pub fn_ident: Ident,
}

impl Clone for UserFnIdent {
    fn clone(&self) -> (r: Self)
        ensures
            r == *self,
    {
        let parent_ident = match &self.parent_ident {
            Some(p) => Some(p.clone()),
            None => None,
        };
        UserFnIdent { parent_ident, fn_ident: self.fn_ident.clone() }
    }
}

impl UserFnIdent {
    /// `#<parent>~<fn>` or `#<fn>`.
    pub open spec fn text(&self) -> Seq<char> {
        "#"@ + match self.parent_ident {
            Some(p) => p@ + "~"@,
            None => Seq::empty(),
        } + self.fn_ident@
    }

    /// Appends the text of the identifier.
    pub fn push_text(&self, s: &mut String)
        ensures
            final(s)@ == old(s)@ + self.text(),
    {
        let ghost s0 = s@;
        push_str(s, "#");
        if let Some(parent_ident) = &self.parent_ident {
            push_str(s, parent_ident.as_str());
            push_str(s, "~");
        }
        push_str(s, self.fn_ident.as_str());
        assert(s@ =~= s0 + self.text());
    }
}

/// An emitted operation in an emit label: `#<ir><op selector>`.
pub struct EmitOpLabelSegment {
    pub ir_ident: IrIdent,
    pub op_selector: OpSelector,
}

/// A called function in an emit label.
pub struct EmitFnLabelSegment {
    pub user_fn_ident: UserFnIdent,
}

/// What one step of an emit label names.
pub enum EmitLabelSegmentIdent {
    Op(EmitOpLabelSegment),
    Fn(EmitFnLabelSegment),
}

impl Clone for EmitLabelSegmentIdent {
    fn clone(&self) -> (r: Self)
        ensures
            r == *self,
    {
        match self {
            EmitLabelSegmentIdent::Op(o) => EmitLabelSegmentIdent::Op(
                EmitOpLabelSegment { ir_ident: o.ir_ident.clone(), op_selector: o.op_selector.clone() },
            ),
            EmitLabelSegmentIdent::Fn(f) => EmitLabelSegmentIdent::Fn(
                EmitFnLabelSegment { user_fn_ident: f.user_fn_ident.clone() },
            ),
        }
    }
}

impl EmitLabelSegmentIdent {
    /// The text of the step.
    pub open spec fn text(&self) -> Seq<char> {
        match self {
            EmitLabelSegmentIdent::Op(o) => o.ir_ident.text() + o.op_selector.text(),
            EmitLabelSegmentIdent::Fn(f) => f.user_fn_ident.text(),
        }
    }
}

/// One step of an emit label: the local index of the emit and what it
/// emits or calls.
pub struct EmitLabelSegment {
    pub local_emit_index: usize,
    pub ident: EmitLabelSegmentIdent,
}

impl Clone for EmitLabelSegment {
    fn clone(&self) -> (r: Self)
        ensures
            r == *self,
    {
        EmitLabelSegment { local_emit_index: self.local_emit_index, ident: self.ident.clone() }
    }
}

impl EmitLabelSegment {
    /// `<index><step>`.
    pub open spec fn text(&self) -> Seq<char> {
        dec_text(self.local_emit_index as nat) + self.ident.text()
    }

    /// Appends the text of the step.
    pub fn push_text(&self, s: &mut String)
        ensures
            final(s)@ == old(s)@ + self.text(),
    {
        let ghost s0 = s@;
        push_dec(s, self.local_emit_index as u64);
        match &self.ident {
            EmitLabelSegmentIdent::Op(o) => {
                o.ir_ident.push_text(s);
                o.op_selector.push_text(s);
            },
            EmitLabelSegmentIdent::Fn(f) => f.user_fn_ident.push_text(s),
        }
        assert(s@ =~= s0 + self.text());
    }
}

/// The label of a point in the emitted code, named after the chain of emits
/// and calls that leads to it.
pub struct EmitLabelIdent {
    pub segments: Vec<EmitLabelSegment>,
}

impl Clone for EmitLabelIdent {
    fn clone(&self) -> (r: Self)
        ensures
            r.segments@ == self.segments@,
    {
        let segments = self.segments.clone();
        assert(segments@ =~= self.segments@);
        EmitLabelIdent { segments }
    }
}

/// The texts of emit label steps.
pub open spec fn segment_texts(segments: Seq<EmitLabelSegment>) -> Seq<Seq<char>> {
    segments.map_values(|g: EmitLabelSegment| g.text())
}

impl EmitLabelIdent {
    /// The label with no steps, which names the exit point.
    pub fn exit() -> (r: EmitLabelIdent)
        ensures
            r.segments@.len() == 0,
    {
        EmitLabelIdent { segments: Vec::new() }
    }

    /// `emit^Exit` for the exit label; otherwise `emit` followed by each
    /// step, each preceded by `'`.
    pub open spec fn text(&self) -> Seq<char> {
        "emit"@ + if self.segments@.len() == 0 {
            "^Exit"@
        } else {
            join_leading(segment_texts(self.segments@), "'"@)
        }
    }

    /// The text of the label.
    pub fn to_string(&self) -> (r: String)
        ensures
            r@ == self.text(),
    {
        let mut s = String::new();
        push_str(&mut s, "emit");
        let n = self.segments.len();
        if n == 0 {
            push_str(&mut s, "^Exit");
            assert(s@ =~= self.text());
            return s;
        }
        let ghost s0 = s@;
        let mut i: usize = 0;
        while i < n
            invariant
                n == self.segments@.len(),
                i <= n,
                s@ == s0 + join_leading(segment_texts(self.segments@).take(i as int), "'"@),
            decreases n - i,
        {
            push_str(&mut s, "'");
            self.segments[i].push_text(&mut s);
            proof {
                let t = segment_texts(self.segments@);
                lemma_join_push(t.take(i as int), "'"@, t[i as int]);
                assert(t.take(i as int).push(t[i as int]) =~= t.take(i + 1));
            }
            i += 1;
        }
        assert(segment_texts(self.segments@).take(n as int) =~= segment_texts(self.segments@));
        assert(s@ =~= self.text());
        s
    }
}

} // verus!
