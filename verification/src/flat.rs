//! The flattened Cachet program that the Boogie backend compiles: its
//! enumerations, structures, IRs and global variables, each held as the plain
//! values that the backend reads.

use vstd::prelude::*;

use crate::ident::Ident;
use crate::ident::idents_view;
use crate::syntax::{Literal, VarParamKind};

verus! {

/// A type of the flattened program: a built-in type, known by its name, or
/// an enumeration or structure, known by its index.
pub enum FlatTypeIndex {
    BuiltIn(Ident),
    Enum(usize),
    Struct(usize),
}

/// An enumeration: its name and the names of its variants, in order.
pub struct FlatEnumItem {
    pub ident: Ident,
    pub variants: Vec<Ident>,
}

/// A field of a structure: a variable of some type, or a label.
pub enum FlatField {
    Var { ident: Ident, type_: FlatTypeIndex },
    Label { ident: Ident },
}

impl FlatField {
    /// The field's name.
    pub open spec fn spec_ident(&self) -> Ident {
        match self {
            FlatField::Var { ident, .. } => *ident,
            FlatField::Label { ident } => *ident,
        }
    }
}

/// A structure: its name, its declared supertype and its fields, in order.
pub struct FlatStructItem {
    pub ident: Ident,
    pub supertype: Option<FlatTypeIndex>,
    pub fields: Vec<FlatField>,
}

/// An IR: its name, and the IR that it emits into, if any.
pub struct FlatIrItem {
    pub ident: Ident,
    pub emits: Option<usize>,
}

/// A built-in variable: the two boolean constants, or another one known by
/// its name and type.
pub enum FlatBuiltInVar {
    True,
    False,
    Named { ident: Ident, type_: FlatTypeIndex },
}

/// A variable parameter of the callable whose body is being compiled: its
/// name, type and how it is passed.
pub struct FlatVarParam {
    pub ident: Ident,
    pub type_: FlatTypeIndex,
    pub kind: VarParamKind,
}

/// A local variable of the body being compiled: its name and type.
pub struct FlatLocalVar {
    pub ident: Ident,
    pub type_: FlatTypeIndex,
}

/// A variable that an expression reads.
pub enum FlatVarIndex {
    BuiltIn(FlatBuiltInVar),
    EnumVariant { enum_index: usize, variant_index: usize },
    Global(usize),
    Param(usize),
    Local(usize),
}

/// The value of a global constant: a literal, or another variable.
pub enum FlatValue {
    Literal(Literal),
    Var(FlatVarIndex),
}

/// A global variable: the name of its parent, if it has one, its own name,
/// its type, its value if it is a constant with one, whether it may be
/// assigned, and whether the prelude declares it.
pub struct FlatGlobalVarItem {
    pub parent_ident: Option<Ident>,
    pub ident: Ident,
    pub type_: FlatTypeIndex,
    pub value: Option<FlatValue>,
    pub is_mut: bool,
    pub is_prelude: bool,
}

/// A parameter of a function or op: a variable, passed in, by reference or
/// out; or a label of an IR, passed in or out.
pub enum FlatParam {
    Var { ident: Ident, type_: FlatTypeIndex, kind: VarParamKind },
    Label { ident: Ident, ir: usize, is_out: bool },
}

impl FlatParam {
    /// Whether the parameter is passed out.
    pub open spec fn spec_is_out(&self) -> bool {
        match self {
            FlatParam::Var { kind, .. } => *kind == VarParamKind::Out,
            FlatParam::Label { is_out, .. } => *is_out,
        }
    }

    /// Whether the parameter is a variable passed out.
    pub open spec fn is_out_var(&self) -> bool {
        self matches FlatParam::Var { kind: VarParamKind::Out, .. }
    }
}

/// A function or an op: its path (the segments before its name, and its
/// name), whether it is an op and the IR it belongs to if so, its
/// parameters in order, its return type, whether it emits ops,
/// the IR whose ops it interprets (for an op), whether it is marked inline,
/// whether the prelude declares it, and whether it has a body.
pub struct FlatCallableItem {
    pub parents: Vec<Ident>,
    pub ident: Ident,
    pub is_op: bool,
    pub parent_ir: Option<usize>,
    pub params: Vec<FlatParam>,
    pub ret: Option<FlatTypeIndex>,
    pub emits: bool,
    pub interprets: Option<usize>,
    pub is_inline: bool,
    pub is_prelude: bool,
    pub has_body: bool,
}

impl FlatCallableItem {
    /// The callable's path, segment by segment.
    pub open spec fn spec_path(&self) -> Seq<Seq<char>> {
        idents_view(self.parents@).push(self.ident@)
    }

    /// The last segment before the callable's name, if any.
    pub open spec fn spec_parent_ident(&self) -> Option<Ident> {
        if self.parents@.len() == 0 {
            None
        } else {
            Some(self.parents@.last())
        }
    }

    /// For each parameter, whether it is passed out.
    pub open spec fn param_outs(&self) -> Seq<bool> {
        self.params@.map_values(|p: FlatParam| p.spec_is_out())
    }
}

/// The flattened program.
pub struct FlatEnv {
    pub enum_items: Vec<FlatEnumItem>,
    pub struct_items: Vec<FlatStructItem>,
    pub ir_items: Vec<FlatIrItem>,
    pub global_var_items: Vec<FlatGlobalVarItem>,
    pub fn_items: Vec<FlatCallableItem>,
    pub op_items: Vec<FlatCallableItem>,
}

impl FlatEnv {
    /// The type refers to a declared enumeration or structure.
    pub open spec fn type_ok(&self, t: FlatTypeIndex) -> bool {
        match t {
            FlatTypeIndex::BuiltIn(_) => true,
            FlatTypeIndex::Enum(e) => e < self.enum_items@.len(),
            FlatTypeIndex::Struct(s) => s < self.struct_items@.len(),
        }
    }

    /// The variable, apart from parameters and locals, refers to a declared
    /// item.
    pub open spec fn global_ref_ok(&self, v: FlatVarIndex) -> bool {
        match v {
            FlatVarIndex::EnumVariant { enum_index, variant_index } => enum_index
                < self.enum_items@.len() && variant_index
                < self.enum_items@[enum_index as int].variants@.len(),
            FlatVarIndex::Global(g) => g < self.global_var_items@.len(),
            _ => true,
        }
    }

    /// The variable refers to a declared item, or to one of `n_params`
    /// parameters or `n_locals` locals.
    pub open spec fn var_ok(&self, v: FlatVarIndex, n_params: nat, n_locals: nat) -> bool {
        self.global_ref_ok(v) && match v {
            FlatVarIndex::Param(p) => p < n_params,
            FlatVarIndex::Local(l) => l < n_locals,
            _ => true,
        }
    }

    /// Every type and every variable that an item mentions is declared, and
    /// a constant's value refers to no parameter or local.
    pub open spec fn wf(&self) -> bool {
        &&& forall|s: int|
            0 <= s < self.struct_items@.len() ==> {
                let item = #[trigger] self.struct_items@[s];
                &&& (item.supertype matches Some(t) ==> self.type_ok(t))
                &&& forall|f: int|
                    0 <= f < item.fields@.len() ==> (#[trigger] item.fields@[f] matches FlatField::Var {
                        type_,
                        ..
                    } ==> self.type_ok(type_))
            }
        &&& forall|g: int|
            0 <= g < self.global_var_items@.len() ==> {
                let item = #[trigger] self.global_var_items@[g];
                &&& self.type_ok(item.type_)
                &&& (item.value matches Some(FlatValue::Var(v)) ==> self.var_ok(v, 0, 0))
            }
        &&& forall|i: int|
            0 <= i < self.ir_items@.len() ==> (#[trigger] self.ir_items@[i].emits matches Some(e)
                ==> e < self.ir_items@.len())
        &&& forall|i: int| 0 <= i < self.fn_items@.len() ==> self.callable_ok(#[trigger] self.fn_items@[i])
        &&& forall|i: int| 0 <= i < self.op_items@.len() ==> self.callable_ok(#[trigger] self.op_items@[i])
    }

    /// Every type and IR that a callable mentions is declared.
    pub open spec fn callable_ok(&self, c: FlatCallableItem) -> bool {
        &&& (c.ret matches Some(t) ==> self.type_ok(t))
        &&& (c.interprets matches Some(i) ==> i < self.ir_items@.len())
        &&& (c.parent_ir matches Some(i) ==> i < self.ir_items@.len())
        &&& forall|k: int|
            0 <= k < c.params@.len() ==> match #[trigger] c.params@[k] {
                FlatParam::Var { type_, .. } => self.type_ok(type_),
                FlatParam::Label { ir, .. } => ir < self.ir_items@.len(),
            }
    }

    /// The name of a type.
    pub open spec fn spec_type_name(&self, t: FlatTypeIndex) -> Ident {
        match t {
            FlatTypeIndex::BuiltIn(i) => i,
            FlatTypeIndex::Enum(e) => self.enum_items@[e as int].ident,
            FlatTypeIndex::Struct(s) => self.struct_items@[s as int].ident,
        }
    }
}

} // verus!
