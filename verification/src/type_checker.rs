//! Pieces of the Cachet type checker: the built-in types, the comparison of
//! types in the presence of the internal "unknown" type, upcasts along
//! supertype chains, and the folding of casts of integer literals.

use vstd::prelude::*;

use crate::syntax::Literal;

verus! {

/// Whether an integer type is signed.
#[derive(Clone, Copy, PartialEq, Eq, Structural, Debug)]
pub enum Signedness {
    Signed,
    Unsigned,
}

/// The width of an integer type.
#[derive(Clone, Copy, PartialEq, Eq, Structural, Debug)]
pub enum Width {
    W8,
    W16,
    W32,
    W64,
}

/// The types built into Cachet.
#[derive(Clone, Copy, PartialEq, Eq, Structural, Debug)]
pub enum BuiltInType {
    Unit,
    Bool,
    Double,
    Integral(Signedness, Width),
}

/// A type: built in, or a user enumeration or structure by index.
#[derive(Clone, Copy, PartialEq, Eq, Structural, Debug)]
pub enum TypeIndex {
    BuiltIn(BuiltInType),
    Enum(usize),
    Struct(usize),
}

impl TypeIndex {
    /// Integers and doubles are numeric.
    pub open spec fn spec_is_numeric(self) -> bool {
        self matches TypeIndex::BuiltIn(b) && (b is Integral || b is Double)
    }

    /// Signed integers and doubles are signed numbers.
    pub open spec fn spec_is_signed_numeric(self) -> bool {
        self matches TypeIndex::BuiltIn(b) && (b matches BuiltInType::Integral(Signedness::Signed, _)
            || b is Double)
    }

    /// The integer types.
    pub open spec fn spec_is_integral(self) -> bool {
        self matches TypeIndex::BuiltIn(b) && b is Integral
    }

    /// Whether the type is numeric.
    pub fn is_numeric(self) -> (r: bool)
        ensures
            r == self.spec_is_numeric(),
    {
        match self {
            TypeIndex::BuiltIn(BuiltInType::Integral(_, _)) => true,
            TypeIndex::BuiltIn(BuiltInType::Double) => true,
            _ => false,
        }
    }

    /// Whether the type is a signed number.
    pub fn is_signed_numeric(self) -> (r: bool)
        ensures
            r == self.spec_is_signed_numeric(),
    {
        match self {
            TypeIndex::BuiltIn(BuiltInType::Integral(Signedness::Signed, _)) => true,
            TypeIndex::BuiltIn(BuiltInType::Double) => true,
            _ => false,
        }
    }

    /// Whether the type is an integer type.
    pub fn is_integral(self) -> (r: bool)
        ensures
            r == self.spec_is_integral(),
    {
        match self {
            TypeIndex::BuiltIn(BuiltInType::Integral(_, _)) => true,
            _ => false,
        }
    }
}

/// What the type checker knows of the program's types: the supertype of
/// each structure, and the placeholder structure, enumeration and IR that
/// stand for what could not be resolved.
pub struct TypeChecker {
    pub struct_supertypes: Vec<Option<TypeIndex>>,
    pub unknown_struct: usize,
    pub unknown_enum: usize,
    pub unknown_ir: usize,
}

impl TypeChecker {
    /// A type checker over the given structures and placeholders.
    pub fn new(
        struct_supertypes: Vec<Option<TypeIndex>>,
        unknown_struct_index: usize,
        unknown_enum_index: usize,
        unknown_ir_index: usize,
    ) -> (r: TypeChecker)
        ensures
            r.struct_supertypes@ == struct_supertypes@,
            r.unknown_struct == unknown_struct_index,
            r.unknown_enum == unknown_enum_index,
            r.unknown_ir == unknown_ir_index,
    {
        TypeChecker {
            struct_supertypes,
            unknown_struct: unknown_struct_index,
            unknown_enum: unknown_enum_index,
            unknown_ir: unknown_ir_index,
        }
    }

    /// The internal "unknown" type.
    pub open spec fn spec_unknown_type(&self) -> TypeIndex {
        TypeIndex::Struct(self.unknown_struct)
    }

    /// The unknown type unifies with every type.
    pub open spec fn spec_is_same_type(&self, lhs: TypeIndex, rhs: TypeIndex) -> bool {
        lhs == rhs || lhs == self.spec_unknown_type() || rhs == self.spec_unknown_type()
    }

    /// The internal "unknown" type.
    pub fn unknown_type(&self) -> (r: TypeIndex)
        ensures
            r == self.spec_unknown_type(),
    {
        TypeIndex::Struct(self.unknown_struct)
    }

    /// Whether `type_index` is the unknown type.
    pub fn is_unknown_type(&self, type_index: TypeIndex) -> (r: bool)
        ensures
            r == (type_index == self.spec_unknown_type()),
    {
        type_index == self.unknown_type()
    }

    /// Whether the two types are the same; the unknown type is the same as
    /// every type.
    pub fn is_same_type(&self, lhs: TypeIndex, rhs: TypeIndex) -> (r: bool)
        ensures
            r == self.spec_is_same_type(lhs, rhs),
    {
        lhs == rhs || self.is_unknown_type(lhs) || self.is_unknown_type(rhs)
    }

    /// Whether the type is numeric; the unknown type counts as numeric.
    pub fn is_numeric_type(&self, type_index: TypeIndex) -> (r: bool)
        ensures
            r == (type_index.spec_is_numeric() || type_index == self.spec_unknown_type()),
    {
        type_index.is_numeric() || self.is_unknown_type(type_index)
    }

    /// Whether the type is a signed number; the unknown type counts as one.
    pub fn is_signed_numeric_type(&self, type_index: TypeIndex) -> (r: bool)
        ensures
            r == (type_index.spec_is_signed_numeric() || type_index == self.spec_unknown_type()),
    {
        type_index.is_signed_numeric() || self.is_unknown_type(type_index)
    }

    /// Whether the type is an integer type; the unknown type counts as one.
    pub fn is_integral_type(&self, type_index: TypeIndex) -> (r: bool)
        ensures
            r == (type_index.spec_is_integral() || type_index == self.spec_unknown_type()),
    {
        type_index.is_integral() || self.is_unknown_type(type_index)
    }

    /// Whether two IRs are the same; the unknown IR is the same as every IR.
    pub fn is_same_ir(&self, found_ir_index: usize, expected_ir_index: usize) -> (r: bool)
        ensures
            r == (found_ir_index == expected_ir_index || found_ir_index == self.unknown_ir
                || expected_ir_index == self.unknown_ir),
    {
        found_ir_index == expected_ir_index || found_ir_index == self.unknown_ir || expected_ir_index
            == self.unknown_ir
    }

    /// The declared supertype of `t`: only structures have one.
    pub open spec fn supertype_of(&self, t: TypeIndex) -> Option<TypeIndex> {
        match t {
            TypeIndex::Struct(i) => self.struct_supertypes@[i as int],
            _ => None,
        }
    }

    /// The walk up the supertypes from `curr` towards `supertype`, for at
    /// most `fuel` more steps, stays among the declared structures and never
    /// meets the unknown type.
    pub open spec fn upcast_walk_ok(
        &self,
        supertype: TypeIndex,
        subtype: TypeIndex,
        curr: TypeIndex,
        fuel: nat,
    ) -> bool
        decreases fuel,
    {
        fuel == 0 || match curr {
            TypeIndex::Struct(i) => i < self.struct_supertypes@.len() && match self.struct_supertypes@[
                i as int
            ] {
                None => true,
                Some(next) => next != self.spec_unknown_type() && (next == subtype || next
                    == supertype || self.upcast_walk_ok(supertype, subtype, next, (fuel - 1) as nat)),
            },
            _ => true,
        }
    }

    /// The supertypes met walking up from `curr` until `supertype`, or
    /// `None` if the walk ends first, comes back to `subtype`, or takes more
    /// than `fuel` steps.
    pub open spec fn upcast_from(
        &self,
        supertype: TypeIndex,
        subtype: TypeIndex,
        curr: TypeIndex,
        fuel: nat,
    ) -> Option<Seq<TypeIndex>>
        decreases fuel,
    {
        if fuel == 0 {
            None
        } else {
            match self.supertype_of(curr) {
                None => None,
                Some(next) => if next == subtype {
                    None
                } else if next == supertype {
                    Some(seq![next])
                } else {
                    match self.upcast_from(supertype, subtype, next, (fuel - 1) as nat) {
                        Some(rest) => Some(seq![next] + rest),
                        None => None,
                    }
                },
            }
        }
    }

    /// How many steps a walk up the supertypes takes at most before it has
    /// passed some structure twice: one per declared structure. A walk that
    /// goes on longer goes round a cycle that holds neither end.
    pub open spec fn walk_bound(&self) -> nat {
        self.struct_supertypes@.len()
    }

    /// Looking for an upcast route does so without fault: each structure
    /// that the walk passes is declared, and none is the unknown type.
    pub open spec fn upcast_ok(&self, supertype: TypeIndex, subtype: TypeIndex) -> bool {
        self.spec_is_same_type(supertype, subtype) || self.upcast_walk_ok(
            supertype,
            subtype,
            subtype,
            self.walk_bound(),
        )
    }

    /// The chain of supertypes that leads from `subtype` up to `supertype`:
    /// empty when they are the same type, and `None` when `supertype` is not
    /// among the supertypes of `subtype`, also when the chain of supertypes
    /// runs into a cycle.
    pub open spec fn spec_upcast_route(&self, supertype: TypeIndex, subtype: TypeIndex) -> Option<
        Seq<TypeIndex>,
    > {
        if self.spec_is_same_type(supertype, subtype) {
            Some(Seq::empty())
        } else {
            self.upcast_from(supertype, subtype, subtype, self.walk_bound())
        }
    }

    /// The chain of supertypes that leads from `subtype` up to `supertype`;
    /// a walk that comes round a cycle gives no route.
    pub fn find_upcast_route(&self, supertype_index: TypeIndex, subtype_index: TypeIndex) -> (r:
        Option<Vec<TypeIndex>>)
        requires
            self.upcast_ok(supertype_index, subtype_index),
        ensures
            match (r, self.spec_upcast_route(supertype_index, subtype_index)) {
                (Some(route), Some(expected)) => route@ == expected,
                (None, None) => true,
                _ => false,
            },
    {
        if self.is_same_type(supertype_index, subtype_index) {
            return Some(Vec::new());
        }
        let ghost total = self.walk_bound();
        let mut left: usize = self.struct_supertypes.len();
        let mut upcast_route: Vec<TypeIndex> = Vec::new();
        let mut curr_type_index = subtype_index;
        loop
            invariant
                left <= total,
                total == self.walk_bound(),
                self.upcast_walk_ok(supertype_index, subtype_index, curr_type_index, left as nat),
                !self.spec_is_same_type(supertype_index, subtype_index),
                self.upcast_from(supertype_index, subtype_index, subtype_index, total) == match self.upcast_from(
                    supertype_index,
                    subtype_index,
                    curr_type_index,
                    left as nat,
                ) {
                    Some(rest) => Some(upcast_route@ + rest),
                    None => None::<Seq<TypeIndex>>,
                },
            decreases left,
        {
            if left == 0 {
                // Every structure has been passed once: the walk has come
                // round a cycle that holds neither end.
                return None;
            }
            let ghost prev_route = upcast_route@;
            let next = match curr_type_index {
                TypeIndex::BuiltIn(_) | TypeIndex::Enum(_) => return None,
                TypeIndex::Struct(struct_index) => match self.struct_supertypes[struct_index] {
                    Some(t) => t,
                    None => return None,
                },
            };
            curr_type_index = next;
            if curr_type_index == subtype_index {
                return None;
            }
            upcast_route.push(curr_type_index);
            if curr_type_index == supertype_index {
                proof {
                    assert(upcast_route@ =~= prev_route + seq![next]);
                }
                return Some(upcast_route);
            }
            proof {
                assert(upcast_route@ + self.upcast_from(
                    supertype_index,
                    subtype_index,
                    next,
                    (left - 1) as nat,
                ).unwrap_or(Seq::empty()) =~= prev_route + (seq![next] + self.upcast_from(
                    supertype_index,
                    subtype_index,
                    next,
                    (left - 1) as nat,
                ).unwrap_or(Seq::empty())));
            }
            left = left - 1;
        }
    }
}

/// The item being checked: a callable, whose parameters and locals are in
/// scope, or a global variable, which has none.
pub enum ItemContext<'b, P, L> {
    Callable { index: usize, params: &'b Vec<P>, locals: &'b mut Vec<L> },
    Var { index: usize },
}

impl<'b, P, L> ItemContext<'b, P, L> {
    /// The parameter at `index`; only a callable has parameters.
    pub fn param(&self, index: usize) -> (r: &P)
        requires
            self matches ItemContext::Callable { params, .. } && index < params@.len(),
        ensures
            self matches ItemContext::Callable { params, .. } && *r == params@[index as int],
    {
        match self {
            ItemContext::Callable { params, .. } => &params[index],
            ItemContext::Var { .. } => {
                proof {
                    assert(false);
                }
                unreached()
            },
        }
    }

    /// The local at `index`; only a callable has locals.
    pub fn local(&self, index: usize) -> (r: &L)
        requires
            self matches ItemContext::Callable { locals, .. } && index < locals@.len(),
        ensures
            self matches ItemContext::Callable { locals, .. } && *r == locals@[index as int],
    {
        match self {
            ItemContext::Callable { locals, .. } => &locals[index],
            ItemContext::Var { .. } => {
                proof {
                    assert(false);
                }
                unreached()
            },
        }
    }

    /// The local at `index`, to be changed in place; only a callable has
    /// locals.
    pub fn local_mut(&mut self, index: usize) -> (r: &mut L)
        requires
            *old(self) matches ItemContext::Callable { locals, .. } && index < locals@.len(),
        ensures
            *old(self) matches ItemContext::Callable { locals, .. } && *r == locals@[index as int],
            *final(self) matches ItemContext::Callable { locals: new_locals, .. } && *old(
                self,
            ) matches ItemContext::Callable { locals: old_locals, .. } && new_locals@
                == old_locals@.update(index as int, *final(r)),
    {
        match self {
            ItemContext::Callable { locals, .. } => &mut locals[index],
            ItemContext::Var { .. } => {
                proof {
                    assert(false);
                }
                unreached()
            },
        }
    }
}

// ---------------------------------------------------------------------
// Casts of integer literals.
// ---------------------------------------------------------------------

/// The value of an integer literal.
pub open spec fn literal_value(l: Literal) -> int {
    match l {
        Literal::Int8(v) => v as int,
        Literal::Int16(v) => v as int,
        Literal::Int32(v) => v as int,
        Literal::Int64(v) => v as int,
        Literal::UInt8(v) => v as int,
        Literal::UInt16(v) => v as int,
        Literal::UInt32(v) => v as int,
        Literal::UInt64(v) => v as int,
    }
}

/// Whether `v` is a value of the integer type of the given signedness and
/// width.
pub open spec fn in_range(s: Signedness, w: Width, v: int) -> bool {
    match (s, w) {
        (Signedness::Signed, Width::W8) => i8::MIN <= v <= i8::MAX,
        (Signedness::Signed, Width::W16) => i16::MIN <= v <= i16::MAX,
        (Signedness::Signed, Width::W32) => i32::MIN <= v <= i32::MAX,
        (Signedness::Signed, Width::W64) => i64::MIN <= v <= i64::MAX,
        (Signedness::Unsigned, Width::W8) => 0 <= v <= u8::MAX,
        (Signedness::Unsigned, Width::W16) => 0 <= v <= u16::MAX,
        (Signedness::Unsigned, Width::W32) => 0 <= v <= u32::MAX,
        (Signedness::Unsigned, Width::W64) => 0 <= v <= u64::MAX,
    }
}

/// The literal of the integer type of the given signedness and width.
pub open spec fn literal_of(s: Signedness, w: Width, v: int) -> Literal {
    match (s, w) {
        (Signedness::Signed, Width::W8) => Literal::Int8(v as i8),
        (Signedness::Signed, Width::W16) => Literal::Int16(v as i16),
        (Signedness::Signed, Width::W32) => Literal::Int32(v as i32),
        (Signedness::Signed, Width::W64) => Literal::Int64(v as i64),
        (Signedness::Unsigned, Width::W8) => Literal::UInt8(v as u8),
        (Signedness::Unsigned, Width::W16) => Literal::UInt16(v as u16),
        (Signedness::Unsigned, Width::W32) => Literal::UInt32(v as u32),
        (Signedness::Unsigned, Width::W64) => Literal::UInt64(v as u64),
    }
}

/// The literal of type `t` with value `v`: only integer types have
/// literals, and only values in range.
pub open spec fn spec_construct_lit(t: BuiltInType, v: int) -> Option<Literal> {
    match t {
        BuiltInType::Integral(s, w) => if in_range(s, w, v) {
            Some(literal_of(s, w, v))
        } else {
            None
        },
        _ => None,
    }
}

/// The literal of type `t` with value `v`, if `t` is an integer type that
/// holds `v`.
pub fn try_construct_lit(t: BuiltInType, v: i128) -> (r: Option<Literal>)
    ensures
        r == spec_construct_lit(t, v as int),
{
    match t {
        BuiltInType::Unit | BuiltInType::Bool | BuiltInType::Double => None,
        BuiltInType::Integral(Signedness::Signed, Width::W8) => if -128 <= v && v <= 127 {
            Some(Literal::Int8(v as i8))
        } else {
            None
        },
        BuiltInType::Integral(Signedness::Signed, Width::W16) => if -32768 <= v && v <= 32767 {
            Some(Literal::Int16(v as i16))
        } else {
            None
        },
        BuiltInType::Integral(Signedness::Signed, Width::W32) => if -2147483648 <= v && v
            <= 2147483647 {
            Some(Literal::Int32(v as i32))
        } else {
            None
        },
        BuiltInType::Integral(Signedness::Signed, Width::W64) => if -9223372036854775808 <= v && v
            <= 9223372036854775807 {
            Some(Literal::Int64(v as i64))
        } else {
            None
        },
        BuiltInType::Integral(Signedness::Unsigned, Width::W8) => if 0 <= v && v <= 255 {
            Some(Literal::UInt8(v as u8))
        } else {
            None
        },
        BuiltInType::Integral(Signedness::Unsigned, Width::W16) => if 0 <= v && v <= 65535 {
            Some(Literal::UInt16(v as u16))
        } else {
            None
        },
        BuiltInType::Integral(Signedness::Unsigned, Width::W32) => if 0 <= v && v <= 4294967295 {
            Some(Literal::UInt32(v as u32))
        } else {
            None
        },
        BuiltInType::Integral(Signedness::Unsigned, Width::W64) => if 0 <= v && v
            <= 18446744073709551615 {
            Some(Literal::UInt64(v as u64))
        } else {
            None
        },
    }
}

/// The literal that casting the literal `l` to type `t` gives, if the cast
/// keeps its value.
pub fn cast_literal(l: &Literal, t: BuiltInType) -> (r: Option<Literal>)
    ensures
        r == spec_construct_lit(t, literal_value(*l)),
{
    match *l {
        Literal::Int8(v) => try_construct_lit(t, v as i128),
        Literal::Int16(v) => try_construct_lit(t, v as i128),
        Literal::Int32(v) => try_construct_lit(t, v as i128),
        Literal::Int64(v) => try_construct_lit(t, v as i128),
        Literal::UInt8(v) => try_construct_lit(t, v as i128),
        Literal::UInt16(v) => try_construct_lit(t, v as i128),
        Literal::UInt32(v) => try_construct_lit(t, v as i128),
        Literal::UInt64(v) => try_construct_lit(t, v as i128),
    }
}

/// A value has a literal of an integer type exactly when it lies between
/// that type's least and greatest value; the literal is then of that very
/// type and holds the value. No other type has literals.
pub proof fn law_construct_lit_bounds(t: BuiltInType, v: int)
    ensures
        match t {
            BuiltInType::Integral(Signedness::Signed, Width::W8) => (spec_construct_lit(t, v)
                is Some <==> -128 <= v <= 127) && (spec_construct_lit(t, v) is Some
                ==> (spec_construct_lit(t, v) matches Some(Literal::Int8(n)) && n == v)),
            BuiltInType::Integral(Signedness::Signed, Width::W16) => (spec_construct_lit(t, v)
                is Some <==> -32768 <= v <= 32767) && (spec_construct_lit(t, v) is Some
                ==> (spec_construct_lit(t, v) matches Some(Literal::Int16(n)) && n == v)),
            BuiltInType::Integral(Signedness::Signed, Width::W32) => (spec_construct_lit(t, v)
                is Some <==> -2147483648 <= v <= 2147483647) && (spec_construct_lit(t, v) is Some
                ==> (spec_construct_lit(t, v) matches Some(Literal::Int32(n)) && n == v)),
            BuiltInType::Integral(Signedness::Signed, Width::W64) => (spec_construct_lit(t, v)
                is Some <==> -9223372036854775808 <= v <= 9223372036854775807) && (
            spec_construct_lit(t, v) is Some ==> (spec_construct_lit(t, v) matches Some(Literal::Int64(n)) && n == v)),
            BuiltInType::Integral(Signedness::Unsigned, Width::W8) => (spec_construct_lit(t, v)
                is Some <==> 0 <= v <= 255) && (spec_construct_lit(t, v) is Some
                ==> (spec_construct_lit(t, v) matches Some(Literal::UInt8(n)) && n == v)),
            BuiltInType::Integral(Signedness::Unsigned, Width::W16) => (spec_construct_lit(t, v)
                is Some <==> 0 <= v <= 65535) && (spec_construct_lit(t, v) is Some
                ==> (spec_construct_lit(t, v) matches Some(Literal::UInt16(n)) && n == v)),
            BuiltInType::Integral(Signedness::Unsigned, Width::W32) => (spec_construct_lit(t, v)
                is Some <==> 0 <= v <= 4294967295) && (spec_construct_lit(t, v) is Some
                ==> (spec_construct_lit(t, v) matches Some(Literal::UInt32(n)) && n == v)),
            BuiltInType::Integral(Signedness::Unsigned, Width::W64) => (spec_construct_lit(t, v)
                is Some <==> 0 <= v <= 18446744073709551615) && (spec_construct_lit(t, v) is Some
                ==> (spec_construct_lit(t, v) matches Some(Literal::UInt64(n)) && n == v)),
            _ => spec_construct_lit(t, v) is None,
        },
{
}

/// Casting a literal to the type it already has gives it back.
pub proof fn law_cast_literal_to_own_type(s: Signedness, w: Width, v: int)
    requires
        in_range(s, w, v),
    ensures
        spec_construct_lit(BuiltInType::Integral(s, w), literal_value(literal_of(s, w, v)))
            == Some(literal_of(s, w, v)),
{
}

/// The unknown type is the same as every type, and sameness of types is
/// symmetric.
pub proof fn law_same_type(checker: TypeChecker, a: TypeIndex, b: TypeIndex)
    ensures
        checker.spec_is_same_type(checker.spec_unknown_type(), a),
        checker.spec_is_same_type(a, checker.spec_unknown_type()),
        checker.spec_is_same_type(a, a),
        checker.spec_is_same_type(a, b) == checker.spec_is_same_type(b, a),
{
}

/// The supertypes met walking up from `curr`, when they reach `supertype`,
/// follow the declared supertypes one by one, end at `supertype`, and pass
/// neither end before.
proof fn lemma_upcast_from_chain(
    checker: TypeChecker,
    supertype: TypeIndex,
    subtype: TypeIndex,
    curr: TypeIndex,
    fuel: nat,
)
    requires
        checker.upcast_from(supertype, subtype, curr, fuel) is Some,
    ensures
        ({
            let r = checker.upcast_from(supertype, subtype, curr, fuel)->0;
            &&& r.len() > 0
            &&& checker.supertype_of(curr) == Some(r[0])
            &&& r.last() == supertype
            &&& forall|j: int| 0 <= j < r.len() ==> r[j] != subtype
            &&& forall|j: int| 0 <= j < r.len() - 1 ==> r[j] != supertype
            &&& forall|j: int|
                0 <= j < r.len() - 1 ==> #[trigger] checker.supertype_of(r[j]) == Some(r[j + 1])
        }),
    decreases fuel,
{
    let next = checker.supertype_of(curr)->0;
    if next != subtype && next != supertype {
        lemma_upcast_from_chain(checker, supertype, subtype, next, (fuel - 1) as nat);
        let rest = checker.upcast_from(supertype, subtype, next, (fuel - 1) as nat)->0;
        let r = checker.upcast_from(supertype, subtype, curr, fuel)->0;
        assert(r == seq![next] + rest);
        assert forall|j: int| 0 <= j < r.len() - 1 implies #[trigger] checker.supertype_of(r[j]) == Some(
            r[j + 1],
        ) by {
            if j > 0 {
                assert(r[j] == rest[j - 1]);
                assert(r[j + 1] == rest[j]);
            }
        }
        assert forall|j: int| 0 <= j < r.len() implies r[j] != subtype by {
            if j > 0 {
                assert(r[j] == rest[j - 1]);
            }
        }
        assert forall|j: int| 0 <= j < r.len() - 1 implies r[j] != supertype by {
            if j > 0 {
                assert(r[j] == rest[j - 1]);
            }
        }
    }
}

/// A route found between two different types climbs the declared
/// supertypes one step at a time from the subtype, reaches the supertype
/// at its end and not before, and never comes back to the subtype.
pub proof fn law_upcast_route_follows_supertypes(
    checker: TypeChecker,
    supertype: TypeIndex,
    subtype: TypeIndex,
)
    requires
        !checker.spec_is_same_type(supertype, subtype),
        checker.spec_upcast_route(supertype, subtype) is Some,
    ensures
        ({
            let r = checker.spec_upcast_route(supertype, subtype)->0;
            &&& r.len() > 0
            &&& checker.supertype_of(subtype) == Some(r[0])
            &&& r.last() == supertype
            &&& forall|j: int| 0 <= j < r.len() ==> r[j] != subtype
            &&& forall|j: int| 0 <= j < r.len() - 1 ==> r[j] != supertype
            &&& forall|j: int|
                0 <= j < r.len() - 1 ==> #[trigger] checker.supertype_of(r[j]) == Some(r[j + 1])
        }),
{
    lemma_upcast_from_chain(checker, supertype, subtype, subtype, checker.walk_bound());
}

/// Each structure that a supertype names is declared.
pub open spec fn supertypes_declared(checker: TypeChecker) -> bool {
    forall|i: int|
        0 <= i < checker.struct_supertypes@.len() ==> (#[trigger] checker.struct_supertypes@[i] matches Some(
            TypeIndex::Struct(t),
        ) ==> t < checker.struct_supertypes@.len())
}

/// A route found with some fuel is found with any larger fuel.
proof fn lemma_upcast_from_more_fuel(
    checker: TypeChecker,
    supertype: TypeIndex,
    subtype: TypeIndex,
    curr: TypeIndex,
    fuel: nat,
    more: nat,
)
    requires
        checker.upcast_from(supertype, subtype, curr, fuel) is Some,
        checker.upcast_from(supertype, subtype, curr, fuel)->0.len() <= more,
    ensures
        checker.upcast_from(supertype, subtype, curr, more) == checker.upcast_from(
            supertype,
            subtype,
            curr,
            fuel,
        ),
    decreases fuel,
{
    let next = checker.supertype_of(curr)->0;
    if next != subtype && next != supertype {
        let rest = checker.upcast_from(supertype, subtype, next, (fuel - 1) as nat)->0;
        assert(checker.upcast_from(supertype, subtype, curr, fuel)->0 == seq![next] + rest);
        lemma_upcast_from_more_fuel(checker, supertype, subtype, next, (fuel - 1) as nat, (more - 1) as nat);
    }
}

/// On a chain of supertypes, two equal types are followed by equal types.
proof fn lemma_chain_repeats(checker: TypeChecker, r: Seq<TypeIndex>, i: int, j: int, m: nat)
    requires
        0 <= i < j,
        j + m < r.len(),
        r[i] == r[j],
        forall|x: int| 0 <= x < r.len() - 1 ==> #[trigger] checker.supertype_of(r[x]) == Some(r[x + 1]),
    ensures
        r[i + m] == r[j + m],
    decreases m,
{
    if m > 0 {
        lemma_chain_repeats(checker, r, i, j, (m - 1) as nat);
        assert(checker.supertype_of(r[i + m - 1]) == Some(r[i + m]));
        assert(checker.supertype_of(r[j + m - 1]) == Some(r[j + m]));
    }
}

/// Walking up declared supertypes from a declared structure, every type
/// before the last of the route is a declared structure.
proof fn lemma_chain_declared(checker: TypeChecker, subtype: TypeIndex, r: Seq<TypeIndex>, x: int)
    requires
        supertypes_declared(checker),
        subtype matches TypeIndex::Struct(i) && i < checker.struct_supertypes@.len(),
        0 <= x < r.len(),
        checker.supertype_of(subtype) == Some(r[0]),
        forall|y: int| 0 <= y < r.len() - 1 ==> #[trigger] checker.supertype_of(r[y]) == Some(r[y + 1]),
    ensures
        (seq![subtype] + r.drop_last())[x] matches TypeIndex::Struct(i) && i
            < checker.struct_supertypes@.len(),
    decreases x,
{
    let s = seq![subtype] + r.drop_last();
    if x > 0 {
        lemma_chain_declared(checker, subtype, r, x - 1);
        assert(s[x] == r[x - 1]);
        let prev = s[x - 1];
        let pi = prev->Struct_0;
        assert(checker.supertype_of(prev) == Some(r[x - 1])) by {
            if x > 1 {
                assert(prev == r[x - 2]);
            }
        }
        assert(checker.struct_supertypes@[pi as int] == Some(r[x - 1]));
        assert(checker.supertype_of(r[x - 1]) == Some(r[x]));
    }
}

/// A route that exists at all is no longer than the number of structures,
/// so looking that far finds it: once every structure has been passed, a
/// walk can only go round a cycle.
pub proof fn law_upcast_route_needs_no_more_steps(
    checker: TypeChecker,
    supertype: TypeIndex,
    subtype: TypeIndex,
    fuel: nat,
)
    requires
        supertypes_declared(checker),
        subtype matches TypeIndex::Struct(i) && i < checker.struct_supertypes@.len(),
        !checker.spec_is_same_type(supertype, subtype),
        checker.upcast_from(supertype, subtype, subtype, fuel) is Some,
    ensures
        checker.spec_upcast_route(supertype, subtype) == checker.upcast_from(
            supertype,
            subtype,
            subtype,
            fuel,
        ),
{
    let n = checker.struct_supertypes@.len();
    let r = checker.upcast_from(supertype, subtype, subtype, fuel)->0;
    lemma_upcast_from_chain(checker, supertype, subtype, subtype, fuel);
    let k = r.len();
    // the types of the route are pairwise different
    assert forall|a: int, b: int| 0 <= a < b < k implies r[a] != r[b] by {
        if r[a] == r[b] {
            if b < k - 1 {
                lemma_chain_repeats(checker, r, a, b, (k - 1 - b) as nat);
                assert(r[a + (k - 1 - b)] == r[k - 1]);
            }
        }
    }
    // the subtype and all but the last type of the route are structures,
    // each declared
    let s = seq![subtype] + r.drop_last();
    assert(s.len() == k);
    assert forall|x: int| 0 <= x < k implies (#[trigger] s[x] matches TypeIndex::Struct(i) && i < n) by {
        lemma_chain_declared(checker, subtype, r, x);
    }
    let ix = s.map_values(|t: TypeIndex| t->Struct_0 as int);
    assert forall|a: int, b: int| 0 <= a < b < k implies ix[a] != ix[b] by {
        if a > 0 {
            assert(s[a] == r[a - 1]);
        }
        assert(s[b] == r[b - 1]);
        assert(s[a] != s[b]);
    }
    assert(ix.no_duplicates());
    ix.unique_seq_to_set();
    vstd::set_lib::lemma_int_range(0, n as int);
    assert(ix.to_set().subset_of(vstd::set_lib::set_int_range(0, n as int)));
    vstd::set_lib::lemma_len_subset(ix.to_set(), vstd::set_lib::set_int_range(0, n as int));
    assert(k <= n);
    lemma_upcast_from_more_fuel(checker, supertype, subtype, subtype, fuel, n);
}

/// The route is the one that walking up the supertypes without bound
/// finds: there is a route exactly when some walk reaches the supertype,
/// and then it is that walk's route.
pub proof fn law_upcast_route_is_the_unbounded_route(
    checker: TypeChecker,
    supertype: TypeIndex,
    subtype: TypeIndex,
)
    requires
        supertypes_declared(checker),
        subtype matches TypeIndex::Struct(i) ==> i < checker.struct_supertypes@.len(),
        !checker.spec_is_same_type(supertype, subtype),
    ensures
        checker.spec_upcast_route(supertype, subtype) is Some <==> exists|fuel: nat|
            #[trigger] checker.upcast_from(supertype, subtype, subtype, fuel) is Some,
        forall|fuel: nat|
            #[trigger] checker.upcast_from(supertype, subtype, subtype, fuel) is Some
                ==> checker.spec_upcast_route(supertype, subtype) == checker.upcast_from(
                supertype,
                subtype,
                subtype,
                fuel,
            ),
{
    assert forall|fuel: nat|
        #[trigger] checker.upcast_from(supertype, subtype, subtype, fuel) is Some implies checker.spec_upcast_route(
            supertype,
            subtype,
        ) == checker.upcast_from(supertype, subtype, subtype, fuel) by {
        if !(subtype is Struct) {
            assert(checker.supertype_of(subtype) is None);
            assert(fuel > 0);
        }
        law_upcast_route_needs_no_more_steps(checker, supertype, subtype, fuel);
    }
    if checker.spec_upcast_route(supertype, subtype) is Some {
        assert(checker.upcast_from(supertype, subtype, subtype, checker.walk_bound()) is Some);
    }
}

} // verus!
