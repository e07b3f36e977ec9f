//! Types, variables, function names and expressions of the Boogie code that
//! the compiler generates, with their exact text.

use vstd::prelude::*;

use crate::bpl_names::{
    IrIdent, IrMemberGlobalVarSelector, IrMemberTypeSelector, NativeTypeIdent,
    BinOperTypeMemberFnSelector, BplBinOper, CheckAttr, FnAttr, NegateTypeMemberFnSelector,
    ProcAttr, TypeAttr, OpSelector, PreludeFnIdent,
    PreludeTypeIdent, SyntheticVarIdent, UserFnIdent, UserOpSelector, EmitLabelIdent,
};
use crate::ident::Ident;
use crate::syntax::{CheckKind, NegateKind};
use crate::text::{bool_text, dec_text, join, lemma_join_push, push_bool, push_dec, push_str};

verus! {

/// `#<parent>~<name>` or `#<name>`: the text of a name that may belong to
/// a parent type.
pub open spec fn member_text(parent: Option<Ident>, name: Ident) -> Seq<char> {
    "#"@ + match parent {
        Some(p) => p@ + "~"@,
        None => Seq::empty(),
    } + name@
}

fn push_member(parent: &Option<Ident>, name: &Ident, s: &mut String)
    ensures
        final(s)@ == old(s)@ + member_text(*parent, *name),
{
    let ghost s0 = s@;
    push_str(s, "#");
    if let Some(p) = parent {
        push_str(s, p.as_str());
        push_str(s, "~");
    }
    push_str(s, name.as_str());
    assert(s@ =~= s0 + member_text(*parent, *name));
}

/// A type declared by the program: `#<ident>`.
pub struct UserTypeIdent {
    pub ident: Ident,
}

impl UserTypeIdent {
    /// `#<ident>`.
    pub open spec fn text(&self) -> Seq<char> {
        "#"@ + self.ident@
    }

    /// Appends the text of the type.
    pub fn push_text(&self, s: &mut String)
        ensures
            final(s)@ == old(s)@ + self.text(),
    {
        let ghost s0 = s@;
        push_str(s, "#");
        push_str(s, self.ident.as_str());
        assert(s@ =~= s0 + self.text());
    }
}

/// A type that an IR declares: `#<ir>^<selector>`.
pub struct IrMemberTypeIdent {
    pub ir_ident: IrIdent,
    pub selector: IrMemberTypeSelector,
}

impl IrMemberTypeIdent {
    /// `#<ir>^<selector>`.
    pub open spec fn text(&self) -> Seq<char> {
        self.ir_ident.text() + "^"@ + self.selector.text()
    }

    /// Appends the text of the type.
    pub fn push_text(&self, s: &mut String)
        ensures
            final(s)@ == old(s)@ + self.text(),
    {
        let ghost s0 = s@;
        self.ir_ident.push_text(s);
        push_str(s, "^");
        push_str(s, self.selector.as_str());
        assert(s@ =~= s0 + self.text());
    }
}

/// The name of a type.
pub enum TypeIdent {
    Native(NativeTypeIdent),
    Prelude(PreludeTypeIdent),
    IrMember(IrMemberTypeIdent),
    User(UserTypeIdent),
}

impl TypeIdent {
    /// The text of the name.
    pub open spec fn text(&self) -> Seq<char> {
        match self {
            TypeIdent::Native(t) => t.text(),
            TypeIdent::Prelude(t) => t.text(),
            TypeIdent::IrMember(t) => t.text(),
            TypeIdent::User(t) => t.text(),
        }
    }

    /// Appends the text of the name.
    pub fn push_text(&self, s: &mut String)
        ensures
            final(s)@ == old(s)@ + self.text(),
    {
        match self {
            TypeIdent::Native(t) => {
                let t = t.to_string();
                push_str(s, t.as_str());
            },
            TypeIdent::Prelude(t) => push_str(s, t.as_str()),
            TypeIdent::IrMember(t) => t.push_text(s),
            TypeIdent::User(t) => t.push_text(s),
        }
    }
}

/// A type: a named type or a map type.
pub enum Type {
    Ident(TypeIdent),
    MapType(Box<MapType>),
}

/// A map type: `[<key>]...[<key>]<value>`.
pub struct MapType {
    pub key_types: Vec<Type>,
    pub value_type: Type,
}

/// The text of a type.
pub open spec fn type_text(t: Type) -> Seq<char>
    decreases t,
{
    match t {
        Type::Ident(i) => i.text(),
        Type::MapType(m) => key_types_text(m.key_types@) + type_text(m.value_type),
    }
}

/// Each key type in square brackets, one after the other.
pub open spec fn key_types_text(keys: Seq<Type>) -> Seq<char>
    decreases keys,
{
    if keys.len() == 0 {
        Seq::empty()
    } else {
        key_types_text(keys.subrange(0, keys.len() - 1)) + "["@ + type_text(keys[keys.len() - 1])
            + "]"@
    }
}

/// Appends the text of a type.
pub fn push_type(t: &Type, s: &mut String)
    ensures
        final(s)@ == old(s)@ + type_text(*t),
    decreases t,
{
    match t {
        Type::Ident(i) => i.push_text(s),
        Type::MapType(m) => {
            let ghost s0 = s@;
            let n = m.key_types.len();
            let mut i: usize = 0;
            while i < n
                invariant
                    *t == Type::MapType(*m),
                    n == m.key_types@.len(),
                    i <= n,
                    s@ == s0 + key_types_text(m.key_types@.subrange(0, i as int)),
                decreases n - i,
            {
                let ghost before = s@;
                push_str(s, "[");
                proof {
                    assert(decreases_to!(*t => (*t)->MapType_0));
                    assert(decreases_to!(**m => m.key_types));
                    assert(decreases_to!(m.key_types => m.key_types@));
                    assert(decreases_to!(m.key_types@ => m.key_types@[i as int]));
                }
                push_type(&m.key_types[i], s);
                push_str(s, "]");
                proof {
                    let k = m.key_types@.subrange(0, i + 1);
                    assert(k.subrange(0, k.len() - 1) =~= m.key_types@.subrange(0, i as int));
                    assert(s@ =~= s0 + key_types_text(k));
                }
                i += 1;
            }
            assert(m.key_types@.subrange(0, n as int) =~= m.key_types@);
            push_type(&m.value_type, s);
            assert(s@ =~= s0 + type_text(*t));
        },
    }
}

/// A global variable that an IR declares: `#<ir>^<selector>`.
pub struct IrMemberGlobalVarIdent {
    pub ir_ident: IrIdent,
    pub selector: IrMemberGlobalVarSelector,
}

/// A global variable declared by the program, possibly a member of a
/// parent type: `#<parent>~<var>` or `#<var>`.
pub struct UserGlobalVarIdent {
    pub parent_ident: Option<Ident>,
    pub var_ident: Ident,
}

/// The name of a global variable.
pub enum GlobalVarIdent {
    IrMember(IrMemberGlobalVarIdent),
    User(UserGlobalVarIdent),
}

impl GlobalVarIdent {
    /// The text of the name.
    pub open spec fn text(&self) -> Seq<char> {
        match self {
            GlobalVarIdent::IrMember(g) => g.ir_ident.text() + "^"@ + g.selector.text(),
            GlobalVarIdent::User(g) => member_text(g.parent_ident, g.var_ident),
        }
    }

    /// Appends the text of the name.
    pub fn push_text(&self, s: &mut String)
        ensures
            final(s)@ == old(s)@ + self.text(),
    {
        let ghost s0 = s@;
        match self {
            GlobalVarIdent::IrMember(g) => {
                g.ir_ident.push_text(s);
                push_str(s, "^");
                push_str(s, g.selector.as_str());
            },
            GlobalVarIdent::User(g) => push_member(&g.parent_ident, &g.var_ident, s),
        }
        assert(s@ =~= s0 + self.text());
    }
}

/// A parameter declared by the program: `$<ident>`.
pub struct UserParamVarIdent {
    pub ident: Ident,
}

/// The name of a parameter: one of those the compiler adds, or one declared
/// by the program.
pub enum ParamVarIdent {
    In,
    Init,
    Instance,
    Label,
    Last,
    Op,
    Pc,
    User(UserParamVarIdent),
}

impl ParamVarIdent {
    /// The text of the name.
    pub open spec fn text(&self) -> Seq<char> {
        match self {
            ParamVarIdent::In => "in"@,
            ParamVarIdent::Init => "init"@,
            ParamVarIdent::Instance => "instance"@,
            ParamVarIdent::Label => "label"@,
            ParamVarIdent::Last => "last"@,
            ParamVarIdent::Op => "op"@,
            ParamVarIdent::Pc => "pc"@,
            ParamVarIdent::User(p) => "$"@ + p.ident@,
        }
    }

    /// Appends the text of the name.
    pub fn push_text(&self, s: &mut String)
        ensures
            final(s)@ == old(s)@ + self.text(),
    {
        let ghost s0 = s@;
        match self {
            ParamVarIdent::In => push_str(s, "in"),
            ParamVarIdent::Init => push_str(s, "init"),
            ParamVarIdent::Instance => push_str(s, "instance"),
            ParamVarIdent::Label => push_str(s, "label"),
            ParamVarIdent::Last => push_str(s, "last"),
            ParamVarIdent::Op => push_str(s, "op"),
            ParamVarIdent::Pc => push_str(s, "pc"),
            ParamVarIdent::User(p) => {
                push_str(s, "$");
                push_str(s, p.ident.as_str());
            },
        }
        assert(s@ =~= s0 + self.text());
    }
}

/// A local variable, numbered by its place among the locals of its
/// callable: `$<ident>'v<index>`.
pub struct LocalVarIdent {
    pub ident: Ident,
    pub index: usize,
}

/// The name of a variable.
pub enum VarIdent {
    Global(GlobalVarIdent),
    Param(ParamVarIdent),
    Ret,
    Op,
    Pc,
    Local(LocalVarIdent),
    Synthetic(SyntheticVarIdent),
}

impl VarIdent {
    /// The text of the name.
    pub open spec fn text(&self) -> Seq<char> {
        match self {
            VarIdent::Global(g) => g.text(),
            VarIdent::Param(p) => p.text(),
            VarIdent::Ret => "ret"@,
            VarIdent::Op => "op"@,
            VarIdent::Pc => "pc"@,
            VarIdent::Local(l) => "$"@ + l.ident@ + "'v"@ + dec_text(l.index as nat),
            VarIdent::Synthetic(v) => v.text(),
        }
    }

    /// Appends the text of the name.
    pub fn push_text(&self, s: &mut String)
        ensures
            final(s)@ == old(s)@ + self.text(),
    {
        let ghost s0 = s@;
        match self {
            VarIdent::Global(g) => g.push_text(s),
            VarIdent::Param(p) => p.push_text(s),
            VarIdent::Ret => push_str(s, "ret"),
            VarIdent::Op => push_str(s, "op"),
            VarIdent::Pc => push_str(s, "pc"),
            VarIdent::Local(l) => {
                push_str(s, "$");
                push_str(s, l.ident.as_str());
                push_str(s, "'v");
                push_dec(s, l.index as u64);
            },
            VarIdent::Synthetic(v) => {
                let t = v.to_string();
                push_str(s, t.as_str());
            },
        }
        assert(s@ =~= s0 + self.text());
    }
}

/// The member function of a type that converts to another type:
/// `to#<target>`.
pub struct CastTypeMemberFnSelector {
    pub target_type_ident: UserTypeIdent,
}

/// The member function of an enum type that makes one of its variants:
/// `Variant~<variant>`.
pub struct VariantCtorTypeMemberFnSelector {
    pub variant_ident: Ident,
}

/// The member function of a struct type that reads one of its fields:
/// `field~<field>`.
pub struct FieldTypeMemberFnSelector {
    pub field_ident: Ident,
}

/// Which member function of a type.
pub enum TypeMemberFnSelector {
    Negate(NegateTypeMemberFnSelector),
    Cast(CastTypeMemberFnSelector),
    Variant(VariantCtorTypeMemberFnSelector),
    Field(FieldTypeMemberFnSelector),
    BinOper(BinOperTypeMemberFnSelector),
}

impl TypeMemberFnSelector {
    /// Every selector has a text but that of logical negation, which no
    /// member function implements.
    pub open spec fn has_text(&self) -> bool {
        match self {
            TypeMemberFnSelector::Negate(n) => n.has_text(),
            _ => true,
        }
    }

    /// The text of the selector.
    pub open spec fn text(&self) -> Seq<char> {
        match self {
            TypeMemberFnSelector::Negate(n) => n.text(),
            TypeMemberFnSelector::Cast(c) => "to"@ + c.target_type_ident.text(),
            TypeMemberFnSelector::Variant(v) => "Variant~"@ + v.variant_ident@,
            TypeMemberFnSelector::Field(f) => "field~"@ + f.field_ident@,
            TypeMemberFnSelector::BinOper(b) => b.text(),
        }
    }

    /// Appends the text of the selector.
    pub fn push_text(&self, s: &mut String)
        requires
            self.has_text(),
        ensures
            final(s)@ == old(s)@ + self.text(),
    {
        let ghost s0 = s@;
        match self {
            TypeMemberFnSelector::Negate(n) => push_str(s, n.as_str()),
            TypeMemberFnSelector::Cast(c) => {
                push_str(s, "to");
                c.target_type_ident.push_text(s);
            },
            TypeMemberFnSelector::Variant(v) => {
                push_str(s, "Variant~");
                push_str(s, v.variant_ident.as_str());
            },
            TypeMemberFnSelector::Field(f) => {
                push_str(s, "field~");
                push_str(s, f.field_ident.as_str());
            },
            TypeMemberFnSelector::BinOper(b) => push_str(s, b.as_str()),
        }
        assert(s@ =~= s0 + self.text());
    }
}

/// A member function of a type: `#<type>^<selector>`.
pub struct TypeMemberFnIdent {
    pub type_ident: UserTypeIdent,
    pub selector: TypeMemberFnSelector,
}

/// The constructor of one operation of an IR: `Op<op selector>`.
pub struct OpCtorIrMemberFnSelector {
    pub op_selector: OpSelector,
}

/// Which function that an IR declares.
pub enum IrMemberFnSelector {
    Bind,
    BindExit,
    Emit,
    Goto,
    LabelBoundPc,
    NextPc,
    Op(OpCtorIrMemberFnSelector),
    OpAt,
    Step,
}

impl IrMemberFnSelector {
    /// The text of the selector.
    pub open spec fn text(&self) -> Seq<char> {
        match self {
            IrMemberFnSelector::Bind => "bind"@,
            IrMemberFnSelector::BindExit => "bindExit"@,
            IrMemberFnSelector::Emit => "emit"@,
            IrMemberFnSelector::Goto => "goto"@,
            IrMemberFnSelector::LabelBoundPc => "labelBoundPc"@,
            IrMemberFnSelector::NextPc => "nextPc"@,
            IrMemberFnSelector::Op(o) => "Op"@ + o.op_selector.text(),
            IrMemberFnSelector::OpAt => "opAt"@,
            IrMemberFnSelector::Step => "step"@,
        }
    }

    /// Appends the text of the selector.
    pub fn push_text(&self, s: &mut String)
        ensures
            final(s)@ == old(s)@ + self.text(),
    {
        let ghost s0 = s@;
        match self {
            IrMemberFnSelector::Bind => push_str(s, "bind"),
            IrMemberFnSelector::BindExit => push_str(s, "bindExit"),
            IrMemberFnSelector::Emit => push_str(s, "emit"),
            IrMemberFnSelector::Goto => push_str(s, "goto"),
            IrMemberFnSelector::LabelBoundPc => push_str(s, "labelBoundPc"),
            IrMemberFnSelector::NextPc => push_str(s, "nextPc"),
            IrMemberFnSelector::Op(o) => {
                push_str(s, "Op");
                o.op_selector.push_text(s);
            },
            IrMemberFnSelector::OpAt => push_str(s, "opAt"),
            IrMemberFnSelector::Step => push_str(s, "step"),
        }
        assert(s@ =~= s0 + self.text());
    }
}

/// A function that an IR declares: `#<ir>^<selector>`.
pub struct IrMemberFnIdent {
    pub ir_ident: IrIdent,
    pub selector: IrMemberFnSelector,
}

impl IrMemberFnIdent {
    /// `#<ir>^<selector>`.
    pub open spec fn text(&self) -> Seq<char> {
        self.ir_ident.text() + "^"@ + self.selector.text()
    }

    /// Appends the text of the name.
    pub fn push_text(&self, s: &mut String)
        ensures
            final(s)@ == old(s)@ + self.text(),
    {
        let ghost s0 = s@;
        self.ir_ident.push_text(s);
        push_str(s, "^");
        self.selector.push_text(s);
        assert(s@ =~= s0 + self.text());
    }
}

/// The function that reads a parameter out of an operation:
/// `<param>#<op constructor>`.
pub struct OpCtorFieldFnIdent {
    pub param_var_ident: ParamVarIdent,
    pub op_ctor_ident: IrMemberFnIdent,
}

/// The helper function that gives one result of an external function:
/// `<fn>^<result variable>`.
pub struct ExternalUserFnHelperFnIdent {
    pub fn_ident: UserFnIdent,
    pub ret_var_ident: VarIdent,
}

/// The procedure that runs one operation of an IR:
/// `EntryPoint#<ir>~<op>`.
pub struct EntryPointFnIdent {
    pub ir_ident: IrIdent,
    pub user_op_selector: UserOpSelector,
}

/// The name of a function or procedure.
pub enum FnIdent {
    Prelude(PreludeFnIdent),
    TypeMember(TypeMemberFnIdent),
    IrMember(IrMemberFnIdent),
    User(UserFnIdent),
    ExternalUserFnHelper(ExternalUserFnHelperFnIdent),
    EntryPoint(EntryPointFnIdent),
    OpCtorField(OpCtorFieldFnIdent),
}

impl FnIdent {
    /// Every name has a text but a member function for logical negation.
    pub open spec fn has_text(&self) -> bool {
        match self {
            FnIdent::TypeMember(t) => t.selector.has_text(),
            _ => true,
        }
    }

    /// The text of the name.
    pub open spec fn text(&self) -> Seq<char> {
        match self {
            FnIdent::Prelude(p) => p.text(),
            FnIdent::TypeMember(t) => t.type_ident.text() + "^"@ + t.selector.text(),
            FnIdent::IrMember(i) => i.text(),
            FnIdent::User(u) => u.text(),
            FnIdent::ExternalUserFnHelper(h) => h.fn_ident.text() + "^"@ + h.ret_var_ident.text(),
            FnIdent::EntryPoint(e) => "EntryPoint"@ + e.ir_ident.text() + e.user_op_selector.text(),
            FnIdent::OpCtorField(f) => f.param_var_ident.text() + "#"@ + f.op_ctor_ident.text(),
        }
    }

    /// Appends the text of the name.
    pub fn push_text(&self, s: &mut String)
        requires
            self.has_text(),
        ensures
            final(s)@ == old(s)@ + self.text(),
    {
        let ghost s0 = s@;
        match self {
            FnIdent::Prelude(p) => push_str(s, p.as_str()),
            FnIdent::TypeMember(t) => {
                t.type_ident.push_text(s);
                push_str(s, "^");
                t.selector.push_text(s);
            },
            FnIdent::IrMember(i) => i.push_text(s),
            FnIdent::User(u) => u.push_text(s),
            FnIdent::ExternalUserFnHelper(h) => {
                h.fn_ident.push_text(s);
                push_str(s, "^");
                h.ret_var_ident.push_text(s);
            },
            FnIdent::EntryPoint(e) => {
                push_str(s, "EntryPoint");
                e.ir_ident.push_text(s);
                push_str(s, "~");
                push_str(s, e.user_op_selector.op_ident.as_str());
            },
            FnIdent::OpCtorField(f) => {
                f.param_var_ident.push_text(s);
                push_str(s, "#");
                f.op_ctor_ident.push_text(s);
            },
        }
        assert(s@ =~= s0 + self.text());
    }
}

/// The name of a label.
pub enum LabelIdent {
    Emit(EmitLabelIdent),
}

impl LabelIdent {
    /// The text of the label.
    pub open spec fn text(&self) -> Seq<char> {
        match self {
            LabelIdent::Emit(e) => e.text(),
        }
    }

    /// Appends the text of the label.
    pub fn push_text(&self, s: &mut String)
        ensures
            final(s)@ == old(s)@ + self.text(),
    {
        match self {
            LabelIdent::Emit(e) => {
                let t = e.to_string();
                push_str(s, t.as_str());
            },
        }
    }
}

/// A variable with its type: `<var>: <type>`.
pub struct TypedVar {
    pub ident: VarIdent,
    pub type_: Type,
}

impl TypedVar {
    /// `<var>: <type>`.
    pub open spec fn text(&self) -> Seq<char> {
        self.ident.text() + ": "@ + type_text(self.type_)
    }

    /// Appends the text of the declaration.
    pub fn push_text(&self, s: &mut String)
        ensures
            final(s)@ == old(s)@ + self.text(),
    {
        let ghost s0 = s@;
        self.ident.push_text(s);
        push_str(s, ": ");
        push_type(&self.type_, s);
        assert(s@ =~= s0 + self.text());
    }
}

/// A list of variables with their types.
pub struct TypedVars {
    pub vars: Vec<TypedVar>,
}

/// The texts of typed variables.
pub open spec fn typed_var_texts(vars: Seq<TypedVar>) -> Seq<Seq<char>> {
    vars.map_values(|v: TypedVar| v.text())
}

impl TypedVars {
    /// The variables joined by `, `.
    pub open spec fn text(&self) -> Seq<char> {
        join(typed_var_texts(self.vars@), ", "@)
    }

    /// Appends the text of the list.
    pub fn push_text(&self, s: &mut String)
        ensures
            final(s)@ == old(s)@ + self.text(),
    {
        let ghost s0 = s@;
        let n = self.vars.len();
        let mut i: usize = 0;
        while i < n
            invariant
                n == self.vars@.len(),
                i <= n,
                s@ == s0 + join(typed_var_texts(self.vars@).take(i as int), ", "@),
            decreases n - i,
        {
            if i > 0 {
                push_str(s, ", ");
            }
            self.vars[i].push_text(s);
            proof {
                let t = typed_var_texts(self.vars@);
                lemma_join_push(t.take(i as int), ", "@, t[i as int]);
                assert(t.take(i as int).push(t[i as int]) =~= t.take(i + 1));
            }
            i += 1;
        }
        assert(typed_var_texts(self.vars@).take(n as int) =~= typed_var_texts(self.vars@));
    }
}

/// What a comment in an expression says.
pub enum Comment {
    Ident(Ident),
}

/// An expression preceded by a comment: `/* <comment> */ <expr>`.
pub struct CommentedExpr {
    pub comment: Comment,
    pub expr: Expr,
}

/// A literal value.
pub enum Literal {
    Bool(bool),
    Int(usize),
    Bv8(u8),
    Bv16(u16),
    Bv32(u32),
    Bv64(u64),
}

impl Literal {
    /// `true`/`false`, the decimal number, or the decimal number followed by
    /// `bv<width>`.
    pub open spec fn text(&self) -> Seq<char> {
        match self {
            Literal::Bool(b) => bool_text(*b),
            Literal::Int(n) => dec_text(*n as nat),
            Literal::Bv8(n) => dec_text(*n as nat) + "bv8"@,
            Literal::Bv16(n) => dec_text(*n as nat) + "bv16"@,
            Literal::Bv32(n) => dec_text(*n as nat) + "bv32"@,
            Literal::Bv64(n) => dec_text(*n as nat) + "bv64"@,
        }
    }

    /// Appends the text of the literal.
    pub fn push_text(&self, s: &mut String)
        ensures
            final(s)@ == old(s)@ + self.text(),
    {
        let ghost s0 = s@;
        match self {
            Literal::Bool(b) => push_bool(s, *b),
            Literal::Int(n) => push_dec(s, *n as u64),
            Literal::Bv8(n) => {
                push_dec(s, *n as u64);
                push_str(s, "bv8");
            },
            Literal::Bv16(n) => {
                push_dec(s, *n as u64);
                push_str(s, "bv16");
            },
            Literal::Bv32(n) => {
                push_dec(s, *n as u64);
                push_str(s, "bv32");
            },
            Literal::Bv64(n) => {
                push_dec(s, *n);
                push_str(s, "bv64");
            },
        }
        assert(s@ =~= s0 + self.text());
    }
}

/// A call of a function: `<target>(<arg>, ..., <arg>)`.
pub struct CallExpr {
    pub target: FnIdent,
    pub arg_exprs: Vec<Expr>,
}

/// A map lookup `<base>[<key>]`, or a map update `<base>[<key> := <value>]`.
pub struct IndexExpr {
    pub base: Expr,
    pub key: Expr,
    pub value: Option<Expr>,
}

/// A negation: `<symbol><expr>`.
pub struct NegateExpr {
    pub kind: NegateKind,
    pub expr: Expr,
}

/// A binary operation: `<lhs> <oper> <rhs>`.
pub struct BinOperExpr {
    pub oper: BplBinOper,
    pub lhs: Expr,
    pub rhs: Expr,
}

/// A universal quantification: `(forall <vars> :: <expr>)`.
pub struct ForAllExpr {
    pub vars: TypedVars,
    pub expr: Expr,
}

/// An expression.
pub enum Expr {
    Commented(Box<CommentedExpr>),
    Literal(Literal),
    Var(VarIdent),
    Call(CallExpr),
    Index(Box<IndexExpr>),
    Negate(Box<NegateExpr>),
    BinOper(Box<BinOperExpr>),
    ForAll(Box<ForAllExpr>),
}

/// The symbol of a negation.
pub open spec fn negate_symbol(kind: NegateKind) -> Seq<char> {
    match kind {
        NegateKind::Arith => "-"@,
        NegateKind::Bitwise => "~"@,
        NegateKind::Logical => "!"@,
    }
}

fn negate_str(kind: NegateKind) -> (r: &'static str)
    ensures
        r@ == negate_symbol(kind),
{
    match kind {
        NegateKind::Arith => "-",
        NegateKind::Bitwise => "~",
        NegateKind::Logical => "!",
    }
}

/// Negations and binary operations are put in parentheses where they stand
/// inside another expression or statement; the other expressions delimit
/// themselves.
pub open spec fn needs_group(e: Expr) -> bool {
    e is Negate || e is BinOper
}

/// The text `text` of `e`, in parentheses if `e` needs them.
pub open spec fn grouped(e: Expr, text: Seq<char>) -> Seq<char> {
    if needs_group(e) {
        "("@ + text + ")"@
    } else {
        text
    }
}

/// The text of an expression.
pub open spec fn expr_text(e: Expr) -> Seq<char>
    decreases e,
{
    match e {
        Expr::Commented(c) => {
            let comment = match c.comment {
                Comment::Ident(i) => i@,
            };
            "/* "@ + comment + " */ "@ + expr_text(c.expr)
        },
        Expr::Literal(l) => l.text(),
        Expr::Var(v) => v.text(),
        Expr::Call(c) => call_text(c),
        Expr::Index(i) => {
            let value = match i.value {
                Some(v) => " := "@ + grouped(v, expr_text(v)),
                None => Seq::empty(),
            };
            grouped(i.base, expr_text(i.base)) + "["@ + grouped(i.key, expr_text(i.key)) + value
                + "]"@
        },
        Expr::Negate(n) => negate_symbol(n.kind) + grouped(n.expr, expr_text(n.expr)),
        Expr::BinOper(b) => grouped(b.lhs, expr_text(b.lhs)) + " "@ + b.oper.text() + " "@
            + grouped(b.rhs, expr_text(b.rhs)),
        Expr::ForAll(f) => "(forall "@ + f.vars.text() + " :: "@ + grouped(f.expr, expr_text(f.expr))
            + ")"@,
    }
}

/// `<target>(<arg>, ..., <arg>)`.
pub open spec fn call_text(c: CallExpr) -> Seq<char>
    decreases c,
{
    c.target.text() + "("@ + args_text(c.arg_exprs@) + ")"@
}

/// The texts of call arguments, joined by `, `.
pub open spec fn args_text(args: Seq<Expr>) -> Seq<char>
    decreases args,
{
    if args.len() == 0 {
        Seq::empty()
    } else if args.len() == 1 {
        expr_text(args[0])
    } else {
        args_text(args.subrange(0, args.len() - 1)) + ", "@ + expr_text(args[args.len() - 1])
    }
}

/// Every function named in the expression has a text (none is the member
/// function of a logical negation).
pub open spec fn expr_printable(e: Expr) -> bool
    decreases e,
{
    match e {
        Expr::Commented(c) => expr_printable(c.expr),
        Expr::Literal(_) => true,
        Expr::Var(_) => true,
        Expr::Call(c) => call_printable(c),
        Expr::Index(i) => {
            &&& expr_printable(i.base)
            &&& expr_printable(i.key)
            &&& match i.value {
                Some(v) => expr_printable(v),
                None => true,
            }
        },
        Expr::Negate(n) => expr_printable(n.expr),
        Expr::BinOper(b) => expr_printable(b.lhs) && expr_printable(b.rhs),
        Expr::ForAll(f) => expr_printable(f.expr),
    }
}

/// The target of the call has a text and every argument is printable.
pub open spec fn call_printable(c: CallExpr) -> bool
    decreases c,
{
    c.target.has_text() && args_printable(c.arg_exprs@)
}

/// Every argument is printable.
pub open spec fn args_printable(args: Seq<Expr>) -> bool
    decreases args,
{
    if args.len() == 0 {
        true
    } else {
        args_printable(args.subrange(0, args.len() - 1)) && expr_printable(args[args.len() - 1])
    }
}

/// An argument of a printable list is printable.
proof fn lemma_args_printable(args: Seq<Expr>, i: int)
    requires
        args_printable(args),
        0 <= i < args.len(),
    ensures
        expr_printable(args[i]),
    decreases args.len(),
{
    if i < args.len() - 1 {
        lemma_args_printable(args.subrange(0, args.len() - 1), i);
    }
}

fn is_grouped(e: &Expr) -> (r: bool)
    ensures
        r == needs_group(*e),
{
    match e {
        Expr::Negate(_) => true,
        Expr::BinOper(_) => true,
        _ => false,
    }
}

/// Appends the text of `e`, in parentheses if it needs them.
fn push_grouped(e: &Expr, s: &mut String)
    requires
        expr_printable(*e),
    ensures
        final(s)@ == old(s)@ + grouped(*e, expr_text(*e)),
    decreases e, 1nat,
{
    let ghost s0 = s@;
    let g = is_grouped(e);
    if g {
        push_str(s, "(");
    }
    push_expr(e, s);
    if g {
        push_str(s, ")");
    }
    assert(s@ =~= s0 + grouped(*e, expr_text(*e)));
}

/// Appends the text of a call.
pub fn push_call(c: &CallExpr, s: &mut String)
    requires
        call_printable(*c),
    ensures
        final(s)@ == old(s)@ + call_text(*c),
    decreases c, 0nat,
{
    let ghost s0 = s@;
    c.target.push_text(s);
    push_str(s, "(");
    let ghost s1 = s@;
    let n = c.arg_exprs.len();
    let mut i: usize = 0;
    while i < n
        invariant
            call_printable(*c),
            n == c.arg_exprs@.len(),
            i <= n,
            s@ == s1 + args_text(c.arg_exprs@.subrange(0, i as int)),
        decreases n - i,
    {
        if i > 0 {
            push_str(s, ", ");
        }
        proof {
            assert(decreases_to!(c.arg_exprs => c.arg_exprs@));
            assert(decreases_to!(c.arg_exprs@ => c.arg_exprs@[i as int]));
            lemma_args_printable(c.arg_exprs@, i as int);
        }
        push_expr(&c.arg_exprs[i], s);
        proof {
            let a = c.arg_exprs@.subrange(0, i + 1);
            assert(a.subrange(0, a.len() - 1) =~= c.arg_exprs@.subrange(0, i as int));
            assert(s@ =~= s1 + args_text(a));
        }
        i += 1;
    }
    assert(c.arg_exprs@.subrange(0, n as int) =~= c.arg_exprs@);
    push_str(s, ")");
    assert(s@ =~= s0 + call_text(*c));
}

/// Appends the text of an expression.
#[verifier::rlimit(40)]
pub fn push_expr(e: &Expr, s: &mut String)
    requires
        expr_printable(*e),
    ensures
        final(s)@ == old(s)@ + expr_text(*e),
    decreases e, 0nat,
{
    let ghost s0 = s@;
    match e {
        Expr::Commented(c) => {
            push_str(s, "/* ");
            match &c.comment {
                Comment::Ident(i) => push_str(s, i.as_str()),
            }
            push_str(s, " */ ");
            proof {
                assert(decreases_to!(*e => (*e)->Commented_0));
            }
            push_expr(&c.expr, s);
        },
        Expr::Literal(l) => l.push_text(s),
        Expr::Var(v) => v.push_text(s),
        Expr::Call(c) => {
            proof {
                assert(decreases_to!(*e => (*e)->Call_0));
            }
            push_call(c, s);
        },
        Expr::Index(x) => {
            proof {
                assert(decreases_to!(*e => (*e)->Index_0));
            }
            push_grouped(&x.base, s);
            push_str(s, "[");
            push_grouped(&x.key, s);
            if let Some(v) = &x.value {
                push_str(s, " := ");
                push_grouped(v, s);
            }
            push_str(s, "]");
        },
        Expr::Negate(x) => {
            proof {
                assert(decreases_to!(*e => (*e)->Negate_0));
            }
            push_str(s, negate_str(x.kind));
            push_grouped(&x.expr, s);
        },
        Expr::BinOper(x) => {
            proof {
                assert(decreases_to!(*e => (*e)->BinOper_0));
            }
            push_grouped(&x.lhs, s);
            push_str(s, " ");
            push_str(s, x.oper.as_str());
            push_str(s, " ");
            push_grouped(&x.rhs, s);
        },
        Expr::ForAll(x) => {
            proof {
                assert(decreases_to!(*e => (*e)->ForAll_0));
            }
            push_str(s, "(forall ");
            x.vars.push_text(s);
            push_str(s, " :: ");
            push_grouped(&x.expr, s);
            push_str(s, ")");
        },
    }
    assert(s@ =~= s0 + expr_text(*e));
}

impl Expr {
    /// The text of the expression.
    pub fn to_string(&self) -> (r: String)
        requires
            expr_printable(*self),
        ensures
            r@ == expr_text(*self),
    {
        let mut s = String::new();
        push_expr(self, &mut s);
        s
    }
}

/// Appends the text of `e`, in parentheses if it needs them.
pub fn push_expr_grouped(e: &Expr, s: &mut String)
    requires
        expr_printable(*e),
    ensures
        final(s)@ == old(s)@ + grouped(*e, expr_text(*e)),
{
    push_grouped(e, s);
}

/// A list of statements in braces.
pub struct Block {
    pub stmts: Vec<Stmt>,
}

/// `if (<cond>) <then>`, with an optional else clause.
pub struct IfStmt {
    pub cond: Expr,
    pub then_block: Block,
    pub else_: Option<ElseClause>,
}

/// `else if ...` or `else <block>`.
pub enum ElseClause {
    ElseIf(Box<IfStmt>),
    Else(Block),
}

/// `assert <cond>;` or `assume <cond>;`, with an optional attribute.
pub struct CheckStmt {
    pub kind: CheckKind,
    pub attr: Option<CheckAttr>,
    pub cond: Expr,
}

impl CheckStmt {
    /// `assert [<attr> ]<cond>;` or `assume [<attr> ]<cond>;`, the condition
    /// in parentheses where it needs them.
    pub open spec fn text(&self) -> Seq<char> {
        let keyword = match self.kind {
            CheckKind::Assert => "assert "@,
            CheckKind::Assume => "assume "@,
        };
        let attr = match self.attr {
            Some(a) => a.text() + " "@,
            None => Seq::empty(),
        };
        keyword + attr + grouped(self.cond, expr_text(self.cond)) + ";"@
    }

    /// The text of the statement.
    pub fn to_string(&self) -> (r: String)
        requires
            expr_printable(self.cond),
        ensures
            r@ == self.text(),
    {
        let mut s = String::new();
        match self.kind {
            CheckKind::Assert => push_str(&mut s, "assert "),
            CheckKind::Assume => push_str(&mut s, "assume "),
        }
        if let Some(a) = self.attr {
            push_str(&mut s, a.as_str());
            push_str(&mut s, " ");
        }
        push_grouped(&self.cond, &mut s);
        push_str(&mut s, ";");
        assert(s@ =~= self.text());
        s
    }
}

/// A label, on a line of its own after an empty line: `\n<label>:`.
pub struct LabelStmt {
    pub label_ident: LabelIdent,
}

impl LabelStmt {
    /// A newline, the label, and `:`.
    pub open spec fn text(&self) -> Seq<char> {
        "\n"@ + self.label_ident.text() + ":"@
    }

    /// The text of the statement.
    pub fn to_string(&self) -> (r: String)
        ensures
            r@ == self.text(),
    {
        let mut s = String::new();
        push_str(&mut s, "\n");
        self.label_ident.push_text(&mut s);
        push_str(&mut s, ":");
        assert(s@ =~= self.text());
        s
    }
}

/// A jump to one of several labels: `goto <label>, ..., <label>;`.
pub struct GotoStmt {
    pub labels: Vec<LabelIdent>,
}

/// The texts of labels.
pub open spec fn label_texts(labels: Seq<LabelIdent>) -> Seq<Seq<char>> {
    labels.map_values(|l: LabelIdent| l.text())
}

impl GotoStmt {
    /// `goto ` and the labels joined by `, `, then `;`.
    pub open spec fn text(&self) -> Seq<char> {
        "goto "@ + join(label_texts(self.labels@), ", "@) + ";"@
    }

    /// The text of the statement.
    pub fn to_string(&self) -> (r: String)
        ensures
            r@ == self.text(),
    {
        let mut s = String::new();
        push_str(&mut s, "goto ");
        let ghost s0 = s@;
        let n = self.labels.len();
        let mut i: usize = 0;
        while i < n
            invariant
                n == self.labels@.len(),
                i <= n,
                s@ == s0 + join(label_texts(self.labels@).take(i as int), ", "@),
            decreases n - i,
        {
            if i > 0 {
                push_str(&mut s, ", ");
            }
            self.labels[i].push_text(&mut s);
            proof {
                let t = label_texts(self.labels@);
                lemma_join_push(t.take(i as int), ", "@, t[i as int]);
                assert(t.take(i as int).push(t[i as int]) =~= t.take(i + 1));
            }
            i += 1;
        }
        assert(label_texts(self.labels@).take(n as int) =~= label_texts(self.labels@));
        push_str(&mut s, ";");
        assert(s@ =~= self.text());
        s
    }
}

/// A procedure call, with the variables that receive its results:
/// `call [<var>, ..., <var> := ]<call>;`.
pub struct CallStmt {
    pub call: CallExpr,
    pub ret_var_idents: Vec<VarIdent>,
}

/// The texts of variable names.
pub open spec fn var_texts(vars: Seq<VarIdent>) -> Seq<Seq<char>> {
    vars.map_values(|v: VarIdent| v.text())
}

impl CallStmt {
    /// The call statement with no result variables.
    pub fn from_call(call: CallExpr) -> (r: CallStmt)
        ensures
            r.call == call,
            r.ret_var_idents@.len() == 0,
    {
        CallStmt { call, ret_var_idents: Vec::new() }
    }

    /// `call `, the result variables joined by `, ` and followed by ` := `
    /// where there are any, the call, and `;`.
    pub open spec fn text(&self) -> Seq<char> {
        "call "@ + if self.ret_var_idents@.len() == 0 {
            Seq::empty()
        } else {
            join(var_texts(self.ret_var_idents@), ", "@) + " := "@
        } + call_text(self.call) + ";"@
    }

    /// The text of the statement.
    pub fn to_string(&self) -> (r: String)
        requires
            call_printable(self.call),
        ensures
            r@ == self.text(),
    {
        let mut s = String::new();
        push_str(&mut s, "call ");
        let ghost s0 = s@;
        let n = self.ret_var_idents.len();
        let mut i: usize = 0;
        while i < n
            invariant
                n == self.ret_var_idents@.len(),
                i <= n,
                s@ == s0 + join(var_texts(self.ret_var_idents@).take(i as int), ", "@),
            decreases n - i,
        {
            if i > 0 {
                push_str(&mut s, ", ");
            }
            self.ret_var_idents[i].push_text(&mut s);
            proof {
                let t = var_texts(self.ret_var_idents@);
                lemma_join_push(t.take(i as int), ", "@, t[i as int]);
                assert(t.take(i as int).push(t[i as int]) =~= t.take(i + 1));
            }
            i += 1;
        }
        assert(var_texts(self.ret_var_idents@).take(n as int) =~= var_texts(self.ret_var_idents@));
        if n > 0 {
            push_str(&mut s, " := ");
        }
        push_call(&self.call, &mut s);
        push_str(&mut s, ";");
        assert(s@ =~= self.text());
        s
    }
}

/// An assignment: `<lhs> := <rhs>;`, each side in parentheses where it
/// needs them.
pub struct AssignStmt {
    pub lhs: Expr,
    pub rhs: Expr,
}

impl AssignStmt {
    /// `<lhs> := <rhs>;`.
    pub open spec fn text(&self) -> Seq<char> {
        grouped(self.lhs, expr_text(self.lhs)) + " := "@ + grouped(self.rhs, expr_text(self.rhs))
            + ";"@
    }

    /// The text of the statement.
    pub fn to_string(&self) -> (r: String)
        requires
            expr_printable(self.lhs),
            expr_printable(self.rhs),
        ensures
            r@ == self.text(),
    {
        let mut s = String::new();
        push_grouped(&self.lhs, &mut s);
        push_str(&mut s, " := ");
        push_grouped(&self.rhs, &mut s);
        push_str(&mut s, ";");
        assert(s@ =~= self.text());
        s
    }
}

/// A statement; `Ret` is `return;`.
pub enum Stmt {
    If(IfStmt),
    Check(CheckStmt),
    Label(LabelStmt),
    Goto(GotoStmt),
    Call(CallStmt),
    Assign(AssignStmt),
    Ret,
}

/// A local variable declaration: `var <var>: <type>;`.
pub struct LocalVar {
    pub var: TypedVar,
}

/// The body of a procedure: its local variables, then its statements.
pub struct Body {
    pub local_vars: Vec<LocalVar>,
    pub stmts: Vec<Stmt>,
}

/// A type declaration: `type [<attr> ]<name>[ = <type>];`.
pub struct TypeItem {
    pub ident: TypeIdent,
    pub attr: Option<TypeAttr>,
    pub type_: Option<Type>,
}

impl TypeItem {
    /// `type [<attr> ]<name>[ = <type>];`.
    pub open spec fn text(&self) -> Seq<char> {
        "type "@ + match self.attr {
            Some(a) => a.text() + " "@,
            None => Seq::empty(),
        } + self.ident.text() + match self.type_ {
            Some(t) => " = "@ + type_text(t),
            None => Seq::empty(),
        } + ";"@
    }

    /// The text of the declaration.
    pub fn to_string(&self) -> (r: String)
        ensures
            r@ == self.text(),
    {
        let mut s = String::new();
        push_str(&mut s, "type ");
        if let Some(a) = self.attr {
            push_str(&mut s, a.as_str());
            push_str(&mut s, " ");
        }
        self.ident.push_text(&mut s);
        if let Some(t) = &self.type_ {
            push_str(&mut s, " = ");
            push_type(t, &mut s);
        }
        push_str(&mut s, ";");
        assert(s@ =~= self.text());
        s
    }
}

/// A constant declaration: `const <var>: <type>;`.
pub struct ConstItem {
    pub var: TypedVar,
}

impl ConstItem {
    /// `const <var>: <type>;`.
    pub open spec fn text(&self) -> Seq<char> {
        "const "@ + self.var.text() + ";"@
    }

    /// The text of the declaration.
    pub fn to_string(&self) -> (r: String)
        ensures
            r@ == self.text(),
    {
        let mut s = String::new();
        push_str(&mut s, "const ");
        self.var.push_text(&mut s);
        push_str(&mut s, ";");
        assert(s@ =~= self.text());
        s
    }
}

/// A global variable declaration: `var <var>: <type>;`.
pub struct GlobalVarItem {
    pub var: TypedVar,
}

impl GlobalVarItem {
    /// `var <var>: <type>;`.
    pub open spec fn text(&self) -> Seq<char> {
        "var "@ + self.var.text() + ";"@
    }

    /// The text of the declaration.
    pub fn to_string(&self) -> (r: String)
        ensures
            r@ == self.text(),
    {
        let mut s = String::new();
        push_str(&mut s, "var ");
        self.var.push_text(&mut s);
        push_str(&mut s, ";");
        assert(s@ =~= self.text());
        s
    }
}

impl LocalVar {
    /// `var <var>: <type>;`.
    pub open spec fn text(&self) -> Seq<char> {
        "var "@ + self.var.text() + ";"@
    }

    /// The text of the declaration.
    pub fn to_string(&self) -> (r: String)
        ensures
            r@ == self.text(),
    {
        let mut s = String::new();
        push_str(&mut s, "var ");
        self.var.push_text(&mut s);
        push_str(&mut s, ";");
        assert(s@ =~= self.text());
        s
    }
}

/// An axiom: `axiom <cond>;`, the condition in parentheses where it needs
/// them.
pub struct AxiomItem {
    pub cond: Expr,
}

impl AxiomItem {
    /// `axiom <cond>;`.
    pub open spec fn text(&self) -> Seq<char> {
        "axiom "@ + grouped(self.cond, expr_text(self.cond)) + ";"@
    }

    /// The text of the declaration.
    pub fn to_string(&self) -> (r: String)
        requires
            expr_printable(self.cond),
        ensures
            r@ == self.text(),
    {
        let mut s = String::new();
        push_str(&mut s, "axiom ");
        push_grouped(&self.cond, &mut s);
        push_str(&mut s, ";");
        assert(s@ =~= self.text());
        s
    }
}

/// A function declaration, with its defining expression if it has one.
pub struct FnItem {
    pub ident: FnIdent,
    pub attr: Option<FnAttr>,
    pub param_vars: TypedVars,
    pub ret: Type,
    pub value: Option<Expr>,
}

/// A procedure declaration, with its body if it has one.
pub struct ProcItem {
    pub ident: FnIdent,
    pub attr: Option<ProcAttr>,
    pub param_vars: TypedVars,
    pub ret_vars: TypedVars,
    pub body: Option<Body>,
}

/// A top-level declaration.
pub enum Item {
    Type(TypeItem),
    Const(ConstItem),
    GlobalVar(GlobalVarItem),
    Axiom(AxiomItem),
    Fn(FnItem),
    Proc(ProcItem),
}

/// A Boogie program: its declarations in order.
pub struct Code {
    pub items: Vec<Item>,
}

} // verus!
