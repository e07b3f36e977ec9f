use std::collections::HashSet;

use cachet::ident::{Ident, Path};
use cachet::registry::{LookupError, NameKind, Registrable, Registry};
use cachet::span::{FileId, MaybeSpanned, Span, Spanned};

#[derive(Debug, PartialEq)]
struct Def {
    kind: NameKind,
    shadows: bool,
    tag: u32,
}

impl Registrable for Def {
    fn spec_name_kind(&self) -> NameKind {
        self.kind
    }

    fn spec_shadows(&self) -> bool {
        self.shadows
    }

    fn name_kind(&self) -> NameKind {
        self.kind
    }

    fn shadows(&self) -> bool {
        self.shadows
    }
}

fn path(s: &str) -> Path {
    Path::from_ident(Ident::from_str(s))
}

fn kinds(ks: &[NameKind]) -> HashSet<NameKind> {
    ks.iter().copied().collect()
}

fn at(start: u32) -> Span {
    Span::new(FileId(0), start, start + 1)
}

#[test]
fn lookup_finds_registered_value() {
    let mut registry: Registry<Def> = Registry::new();
    assert!(registry.register(MaybeSpanned::new(Some(at(3)), path("x")), Def { kind: 1, shadows: false, tag: 7 }).is_ok());
    match registry.lookup(Spanned::new(at(10), path("x")), &kinds(&[1, 2])) {
        Ok((Some(def), defined_at)) => {
            assert_eq!(def.tag, 7);
            assert!(defined_at == Some(at(3)));
        }
        _ => panic!("expected the registered value"),
    }
}

#[test]
fn lookup_of_unregistered_path_is_undefined() {
    let registry: Registry<Def> = Registry::with_capacity(4);
    match registry.lookup(Spanned::new(at(1), path("y")), &kinds(&[1])) {
        Err(LookupError::Undefined(e)) => {
            assert_eq!(e.path.value.to_string(), "y");
            assert_eq!(e.expected, kinds(&[1]));
        }
        _ => panic!("expected an undefined path"),
    }
}

#[test]
fn lookup_of_wrong_kind() {
    let mut registry: Registry<Def> = Registry::new();
    let _ = registry.register(MaybeSpanned::new(None, path("x")), Def { kind: 4, shadows: false, tag: 0 });
    match registry.lookup(Spanned::new(at(1), path("x")), &kinds(&[1, 2])) {
        Err(LookupError::WrongKind(e)) => {
            assert_eq!(e.found, kinds(&[4]));
            assert_eq!(e.expected, kinds(&[1, 2]));
            assert!(e.defined_at.is_none());
        }
        _ => panic!("expected a wrong kind"),
    }
}

#[test]
fn duplicate_definitions_are_reported() {
    let mut registry: Registry<Def> = Registry::new();
    assert!(registry.register(MaybeSpanned::new(Some(at(1)), path("x")), Def { kind: 1, shadows: false, tag: 1 }).is_ok());
    match registry.register(MaybeSpanned::new(Some(at(5)), path("x")), Def { kind: 2, shadows: false, tag: 2 }) {
        Err(e) => {
            assert_eq!(e.path.to_string(), "x");
            assert!(e.first_defined_at == Some(at(1)));
            assert!(e.redefined_at == at(5));
        }
        Ok(()) => panic!("expected a duplicate definition"),
    }
    let e = registry
        .register(MaybeSpanned::new(None, path("x")), Def { kind: 3, shadows: false, tag: 3 })
        .unwrap_err();
    assert!(e.redefined_at == Span::Internal);
    // a duplicated path names no value, whichever of its kinds is expected
    match registry.lookup(Spanned::new(at(9), path("x")), &kinds(&[3])) {
        Ok((None, defined_at)) => assert!(defined_at == Some(at(1))),
        _ => panic!("expected a duplicated path"),
    }
    match registry.lookup(Spanned::new(at(9), path("x")), &kinds(&[5])) {
        Err(LookupError::WrongKind(e)) => assert_eq!(e.found, kinds(&[1, 2, 3])),
        _ => panic!("expected a wrong kind"),
    }
}

#[test]
fn shadowing_definitions_replace() {
    let mut registry: Registry<Def> = Registry::new();
    let _ = registry.register(MaybeSpanned::new(Some(at(1)), path("x")), Def { kind: 1, shadows: false, tag: 1 });
    assert!(registry.register(MaybeSpanned::new(Some(at(2)), path("x")), Def { kind: 1, shadows: true, tag: 2 }).is_ok());
    match registry.lookup(Spanned::new(at(9), path("x")), &kinds(&[1])) {
        Ok((Some(def), defined_at)) => {
            assert_eq!(def.tag, 2);
            assert!(defined_at == Some(at(2)));
        }
        _ => panic!("expected the shadowing value"),
    }
    registry.register_shadowing(MaybeSpanned::new(None, path("y")), Def { kind: 0, shadows: false, tag: 5 });
    match registry.lookup(Spanned::new(at(9), path("y")), &kinds(&[0])) {
        Ok((Some(def), None)) => assert_eq!(def.tag, 5),
        _ => panic!("expected the registered value"),
    }
}
