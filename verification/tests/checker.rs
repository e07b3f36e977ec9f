use cachet::callable_repr::{blocked_path_repr, CallableRepr};
use cachet::cpp::{global_var_tag, var_param_tag, ExprTag, Scope};
use cachet::ident::{Ident, Path};
use cachet::syntax::{Literal, VarParamKind};
use cachet::type_checker::{
    cast_literal, try_construct_lit, BuiltInType, ItemContext, Signedness, TypeChecker, TypeIndex,
    Width,
};

fn checker() -> TypeChecker {
    // structure 0 <: structure 1 <: enum 0; structure 2 has no supertype;
    // structure 3 is the unknown structure; structures 4 and 5 form a cycle
    TypeChecker::new(
        vec![
            Some(TypeIndex::Struct(1)),
            Some(TypeIndex::Enum(0)),
            None,
            None,
            Some(TypeIndex::Struct(5)),
            Some(TypeIndex::Struct(4)),
        ],
        3,
        0,
        7,
    )
}

#[test]
fn unknown_type_unifies_with_everything() {
    let c = checker();
    let unknown = c.unknown_type();
    assert!(unknown == TypeIndex::Struct(3));
    assert!(c.is_unknown_type(unknown));
    assert!(c.is_same_type(unknown, TypeIndex::Enum(5)));
    assert!(c.is_same_type(TypeIndex::BuiltIn(BuiltInType::Bool), unknown));
    assert!(c.is_same_type(TypeIndex::Struct(0), TypeIndex::Struct(0)));
    assert!(!c.is_same_type(TypeIndex::Struct(0), TypeIndex::Struct(1)));
}

#[test]
fn numeric_type_predicates() {
    let c = checker();
    let i32_ = TypeIndex::BuiltIn(BuiltInType::Integral(Signedness::Signed, Width::W32));
    let u8_ = TypeIndex::BuiltIn(BuiltInType::Integral(Signedness::Unsigned, Width::W8));
    let double = TypeIndex::BuiltIn(BuiltInType::Double);
    let bool_ = TypeIndex::BuiltIn(BuiltInType::Bool);
    assert!(c.is_numeric_type(i32_) && c.is_numeric_type(double) && !c.is_numeric_type(bool_));
    assert!(c.is_signed_numeric_type(i32_) && !c.is_signed_numeric_type(u8_));
    assert!(c.is_integral_type(u8_) && !c.is_integral_type(double));
    let unknown = c.unknown_type();
    assert!(c.is_numeric_type(unknown) && c.is_signed_numeric_type(unknown) && c.is_integral_type(unknown));
}

#[test]
fn same_ir_with_unknown_ir() {
    let c = checker();
    assert!(c.is_same_ir(2, 2));
    assert!(c.is_same_ir(7, 2));
    assert!(c.is_same_ir(2, 7));
    assert!(!c.is_same_ir(1, 2));
}

#[test]
fn upcast_routes() {
    let c = checker();
    assert_eq!(c.find_upcast_route(TypeIndex::Struct(0), TypeIndex::Struct(0)).unwrap().len(), 0);
    let route = c.find_upcast_route(TypeIndex::Enum(0), TypeIndex::Struct(0)).unwrap();
    assert!(route == vec![TypeIndex::Struct(1), TypeIndex::Enum(0)]);
    let route = c.find_upcast_route(TypeIndex::Struct(1), TypeIndex::Struct(0)).unwrap();
    assert!(route == vec![TypeIndex::Struct(1)]);
    assert!(c.find_upcast_route(TypeIndex::Struct(2), TypeIndex::Struct(0)).is_none());
    assert!(c.find_upcast_route(TypeIndex::Struct(0), TypeIndex::Struct(2)).is_none());
    // a cycle through the subtype ends the walk
    assert!(c.find_upcast_route(TypeIndex::Struct(2), TypeIndex::Struct(4)).is_none());
    // the unknown type is the same as anything
    assert_eq!(c.find_upcast_route(TypeIndex::Struct(3), TypeIndex::Struct(0)).unwrap().len(), 0);
}

#[test]
fn upcast_route_through_a_cycle_away_from_the_subtype() {
    // structure 0 <: structure 1 <: structure 2 <: structure 1
    let c = TypeChecker::new(
        vec![Some(TypeIndex::Struct(1)), Some(TypeIndex::Struct(2)), Some(TypeIndex::Struct(1)), None],
        3,
        0,
        0,
    );
    assert!(c.find_upcast_route(TypeIndex::Enum(0), TypeIndex::Struct(0)).is_none());
    let route = c.find_upcast_route(TypeIndex::Struct(2), TypeIndex::Struct(0)).unwrap();
    assert!(route == vec![TypeIndex::Struct(1), TypeIndex::Struct(2)]);
}

#[test]
fn literal_casts() {
    let i8_ = BuiltInType::Integral(Signedness::Signed, Width::W8);
    let u16_ = BuiltInType::Integral(Signedness::Unsigned, Width::W16);
    assert_eq!(cast_literal(&Literal::UInt32(100), i8_), Some(Literal::Int8(100)));
    assert_eq!(cast_literal(&Literal::UInt32(200), i8_), None);
    assert_eq!(cast_literal(&Literal::Int64(-1), u16_), None);
    assert_eq!(cast_literal(&Literal::Int8(-128), i8_), Some(Literal::Int8(-128)));
    assert_eq!(cast_literal(&Literal::UInt64(65535), u16_), Some(Literal::UInt16(65535)));
    assert_eq!(cast_literal(&Literal::UInt8(1), BuiltInType::Bool), None);
    assert_eq!(try_construct_lit(BuiltInType::Double, 1), None);
    assert_eq!(
        try_construct_lit(BuiltInType::Integral(Signedness::Unsigned, Width::W64), u64::MAX as i128),
        Some(Literal::UInt64(u64::MAX))
    );
    assert_eq!(
        try_construct_lit(BuiltInType::Integral(Signedness::Signed, Width::W64), i64::MIN as i128 - 1),
        None
    );
}

#[test]
fn item_context_lookups() {
    let params = vec![10u32, 11];
    let mut locals = vec![20u32, 21, 22];
    {
        let mut ctx = ItemContext::Callable { index: 0, params: &params, locals: &mut locals };
        assert_eq!(*ctx.param(1), 11);
        assert_eq!(*ctx.local(2), 22);
        *ctx.local_mut(0) = 99;
    }
    assert_eq!(locals, vec![99, 21, 22]);
}

#[test]
fn expression_tags() {
    assert!(global_var_tag(true) == ExprTag::MutRef);
    assert!(global_var_tag(false) == ExprTag::Ref);
    assert!(var_param_tag(VarParamKind::In) == ExprTag::Ref);
    assert!(var_param_tag(VarParamKind::Mut) == ExprTag::Local);
    assert!(var_param_tag(VarParamKind::Out) == ExprTag::MutRef);
}

#[test]
fn scope_lookups() {
    let params = vec!["p0", "p1"];
    let locals = vec!["l0"];
    let scope: Scope<&str, &str> = Scope::for_callable(&params, Some(&locals));
    assert_eq!(*scope.param(1), "p1");
    assert_eq!(*scope.local(0), "l0");
    let empty: Scope<&str, &str> = Scope::for_callable(&params, None);
    assert!(matches!(empty, Scope::Empty));
}

fn path(segments: &[&str]) -> Path {
    Path::from_segments(segments.iter().map(|s| Ident::from_str(s)).collect())
}

#[test]
fn callable_representations() {
    assert!(blocked_path_repr(&path(&["GeneralRegSet", "contains"])) == Some(CallableRepr::Fn));
    assert!(blocked_path_repr(&path(&["MASM", "getValue"])) == Some(CallableRepr::Proc));
    assert!(blocked_path_repr(&path(&["initRegState"])) == Some(CallableRepr::Proc));
    assert!(blocked_path_repr(&path(&["MASM"])) == None);
    assert!(blocked_path_repr(&path(&["A", "B", "C"])) == None);
    // blocked paths keep their form whatever the callable looks like
    assert!(CallableRepr::for_callable(&path(&["FloatRegSet", "contains"]), &vec![true], false, true) == CallableRepr::Fn);
    // external functions with a return value and no out-parameter are functions
    assert!(CallableRepr::for_callable(&path(&["f"]), &vec![false, false], true, false) == CallableRepr::Fn);
    assert!(CallableRepr::for_callable(&path(&["f"]), &vec![false, true], true, false) == CallableRepr::Proc);
    assert!(CallableRepr::for_callable(&path(&["f"]), &vec![], true, true) == CallableRepr::Proc);
    assert!(CallableRepr::for_callable(&path(&["f"]), &vec![], false, false) == CallableRepr::Proc);
}

#[test]
fn upcast_route_along_a_long_chain() {
    // structure 0 <: 1 <: 2 <: 3, structure 4 is the unknown structure
    let c = TypeChecker::new(
        vec![
            Some(TypeIndex::Struct(1)),
            Some(TypeIndex::Struct(2)),
            Some(TypeIndex::Struct(3)),
            None,
            None,
        ],
        4,
        0,
        0,
    );
    let route = c.find_upcast_route(TypeIndex::Struct(3), TypeIndex::Struct(0)).unwrap();
    assert!(route == vec![TypeIndex::Struct(1), TypeIndex::Struct(2), TypeIndex::Struct(3)]);
    assert!(c.find_upcast_route(TypeIndex::Struct(0), TypeIndex::Struct(3)).is_none());
}
