//! The registry that name resolution fills: each path is defined once, or
//! marked as defined more than once together with the kinds of all its
//! definitions; lookups check the kind of what they find.

use std::collections::HashSet;

use vstd::prelude::*;
use vstd::std_specs::hash::spec_hash_keys_iter;
use vstd::std_specs::iter::IteratorSpec;

use crate::ident::Path;
use crate::span::{MaybeSpanned, Span, Spanned};

verus! {

broadcast use vstd::std_specs::hash::group_hash_axioms;

/// The kind of a name, by number: what sort of item a path names.
pub type NameKind = u8;

/// What can be registered under a name.
pub trait Registrable {
    /// The kind of name the value is.
    spec fn spec_name_kind(&self) -> NameKind;

    /// Whether the value replaces an earlier definition of its name.
    spec fn spec_shadows(&self) -> bool;

    /// The kind of name the value is.
    fn name_kind(&self) -> (r: NameKind)
        ensures
            r == self.spec_name_kind(),
    ;

    /// Whether the value replaces an earlier definition of its name.
    fn shadows(&self) -> (r: bool)
        ensures
            r == self.spec_shadows(),
    ;
}

/// A path that names nothing of an expected kind.
pub struct UndefinedError {
    pub path: Spanned<Path>,
    pub expected: HashSet<NameKind>,
}

/// A path that names something, but not of an expected kind.
pub struct WrongKindError {
    pub path: Spanned<Path>,
    pub expected: HashSet<NameKind>,
    pub found: HashSet<NameKind>,
    pub defined_at: Option<Span>,
}

/// A path defined a second time.
pub struct DuplicateDefError {
    pub path: Path,
    pub first_defined_at: Option<Span>,
    pub redefined_at: Span,
}

/// Why a lookup failed.
pub enum LookupError {
    Undefined(UndefinedError),
    WrongKind(WrongKindError),
}

/// What is registered under a path.
pub enum RegisterStatus<V> {
    RegisteredOnce(V),
    Duplicated(HashSet<NameKind>),
}

/// What is registered under a path, and where it was first defined.
pub struct Registered<V> {
    pub first_defined_at: Option<Span>,
    pub status: RegisterStatus<V>,
}

/// The kinds of the definitions registered under a path.
pub open spec fn found_kinds<V: Registrable>(r: Registered<V>) -> Set<NameKind> {
    match r.status {
        RegisterStatus::RegisteredOnce(v) => set![v.spec_name_kind()],
        RegisterStatus::Duplicated(kinds) => kinds@,
    }
}

/// The registrations that a sequence of entries holds; later entries win.
pub open spec fn entries_map<V>(entries: Seq<(Path, Registered<V>)>) -> Map<
    Seq<Seq<char>>,
    Registered<V>,
>
    decreases entries.len(),
{
    if entries.len() == 0 {
        Map::empty()
    } else {
        entries_map(entries.drop_last()).insert(entries.last().0@, entries.last().1)
    }
}

/// The paths of a sequence of entries.
pub open spec fn entry_keys<V>(entries: Seq<(Path, Registered<V>)>) -> Seq<Seq<Seq<char>>> {
    entries.map_values(|e: (Path, Registered<V>)| e.0@)
}

/// A path is registered exactly when some entry has it, with the value of
/// that entry when no path occurs twice.
proof fn lemma_entries_map_lookup<V>(entries: Seq<(Path, Registered<V>)>, i: int)
    requires
        entry_keys(entries).no_duplicates(),
        0 <= i < entries.len(),
    ensures
        entries_map(entries).contains_key(entries[i].0@),
        entries_map(entries)[entries[i].0@] == entries[i].1,
    decreases entries.len(),
{
    if i < entries.len() - 1 {
        let prefix = entries.drop_last();
        assert(entry_keys(prefix) =~= entry_keys(entries).drop_last());
        assert(prefix[i] == entries[i]);
        lemma_entries_map_lookup(prefix, i);
        assert(entry_keys(entries)[i] != entry_keys(entries)[entries.len() - 1]);
    }
}

/// A path that no entry has is not registered.
proof fn lemma_entries_map_absent<V>(entries: Seq<(Path, Registered<V>)>, k: Seq<Seq<char>>)
    requires
        !entry_keys(entries).contains(k),
    ensures
        !entries_map(entries).contains_key(k),
    decreases entries.len(),
{
    if entries.len() > 0 {
        let prefix = entries.drop_last();
        assert(entry_keys(prefix) =~= entry_keys(entries).drop_last());
        assert(entry_keys(entries)[entries.len() - 1] == entries.last().0@);
        lemma_entries_map_absent(prefix, k);
    }
}

/// Replacing the entry of a path replaces its registration.
proof fn lemma_entries_map_update<V>(
    entries: Seq<(Path, Registered<V>)>,
    i: int,
    e: (Path, Registered<V>),
)
    requires
        entry_keys(entries).no_duplicates(),
        0 <= i < entries.len(),
        entries[i].0@ == e.0@,
    ensures
        entries_map(entries.update(i, e)) == entries_map(entries).insert(e.0@, e.1),
        entry_keys(entries.update(i, e)) == entry_keys(entries),
    decreases entries.len(),
{
    let updated = entries.update(i, e);
    assert(entry_keys(updated) =~= entry_keys(entries));
    let prefix = entries.drop_last();
    assert(entry_keys(prefix) =~= entry_keys(entries).drop_last());
    if i == entries.len() - 1 {
        assert(updated.drop_last() =~= prefix);
    } else {
        assert(updated.drop_last() =~= prefix.update(i, e));
        lemma_entries_map_update(prefix, i, e);
        assert(entry_keys(entries)[i] != entry_keys(entries)[entries.len() - 1]);
        assert(entries_map(updated) =~= entries_map(entries).insert(e.0@, e.1));
    }
}

/// The paths registered so far, each with what is registered under it.
pub struct Registry<V> {
    entries: Vec<(Path, Registered<V>)>,
}

impl<V: Registrable> Registry<V> {
    /// No path occurs twice.
    pub closed spec fn wf(&self) -> bool {
        entry_keys(self.entries@).no_duplicates()
    }

    /// The registrations, by path.
    pub closed spec fn view(&self) -> Map<Seq<Seq<char>>, Registered<V>> {
        entries_map(self.entries@)
    }

    /// The empty registry.
    pub fn new() -> (r: Self)
        ensures
            r.wf(),
            r.view() == Map::<Seq<Seq<char>>, Registered<V>>::empty(),
    {
        Registry { entries: Vec::new() }
    }

    /// The empty registry, with room for `capacity` paths.
    pub fn with_capacity(capacity: usize) -> (r: Self)
        ensures
            r.wf(),
            r.view() == Map::<Seq<Seq<char>>, Registered<V>>::empty(),
    {
        let entries = Vec::with_capacity(capacity);
        let r = Registry { entries };
        assert(r.entries@.len() == 0);
        r
    }

    /// The index of the entry of `key`, if it has one.
    fn find(&self, key: &Path) -> (r: Option<usize>)
        requires
            self.wf(),
        ensures
            match r {
                Some(i) => i < self.entries@.len() && self.entries@[i as int].0@ == key@
                    && self.view().contains_key(key@) && self.view()[key@] == self.entries@[i as int].1,
                None => !self.view().contains_key(key@),
            },
    {
        let n = self.entries.len();
        let mut i: usize = 0;
        while i < n
            invariant
                self.wf(),
                n == self.entries@.len(),
                i <= n,
                forall|j: int| 0 <= j < i ==> self.entries@[j].0@ != key@,
            decreases n - i,
        {
            if self.entries[i].0 == *key {
                proof {
                    lemma_entries_map_lookup(self.entries@, i as int);
                }
                return Some(i);
            }
            i += 1;
        }
        proof {
            assert(!entry_keys(self.entries@).contains(key@)) by {
                if entry_keys(self.entries@).contains(key@) {
                    let j = choose|j: int|
                        0 <= j < entry_keys(self.entries@).len() && entry_keys(self.entries@)[j]
                            == key@;
                    assert(self.entries@[j].0@ == key@);
                }
            }
            lemma_entries_map_absent(self.entries@, key@);
        }
        None
    }

    /// Registers `value` under `key`, replacing whatever was registered
    /// there.
    pub fn register_shadowing(&mut self, key: MaybeSpanned<Path>, value: V)
        requires
            old(self).wf(),
        ensures
            final(self).wf(),
            final(self).view() == old(self).view().insert(
                key.value@,
                Registered { first_defined_at: key.span, status: RegisterStatus::RegisteredOnce(value) },
            ),
    {
        let registered = Registered { first_defined_at: key.span, status: RegisterStatus::RegisteredOnce(value) };
        match self.find(&key.value) {
            Some(i) => {
                proof {
                    lemma_entries_map_update(self.entries@, i as int, (key.value, registered));
                }
                self.entries.set(i, (key.value, registered));
            },
            None => {
                proof {
                    assert(!entry_keys(self.entries@).contains(key.value@)) by {
                        if entry_keys(self.entries@).contains(key.value@) {
                            let j = choose|j: int|
                                0 <= j < entry_keys(self.entries@).len() && entry_keys(
                                    self.entries@,
                                )[j] == key.value@;
                            lemma_entries_map_lookup(self.entries@, j);
                        }
                    }
                }
                let ghost before = self.entries@;
                self.entries.push((key.value, registered));
                proof {
                    assert(self.entries@.drop_last() =~= before);
                    assert(entry_keys(self.entries@) =~= entry_keys(before).push(key.value@));
                }
            },
        }
    }

    /// Registers `value` under `key`. A value that shadows replaces what was
    /// there; otherwise registering a path that is already registered marks
    /// it as defined more than once, keeps where it was first defined, adds
    /// the new kind to its kinds, and reports the duplicate.
    pub fn register(&mut self, key: MaybeSpanned<Path>, value: V) -> (r: Result<(), DuplicateDefError>)
        requires
            old(self).wf(),
        ensures
            final(self).wf(),
            value.spec_shadows() || !old(self).view().contains_key(key.value@) ==> {
                &&& r is Ok
                &&& final(self).view() == old(self).view().insert(
                    key.value@,
                    Registered { first_defined_at: key.span, status: RegisterStatus::RegisteredOnce(value) },
                )
            },
            !value.spec_shadows() && old(self).view().contains_key(key.value@) ==> {
                let prev = old(self).view()[key.value@];
                &&& r matches Err(e) && e.path@ == key.value@ && e.first_defined_at == prev.first_defined_at
                    && e.redefined_at == match key.span {
                    Some(s) => s,
                    None => Span::Internal,
                }
                &&& final(self).view().dom() == old(self).view().dom()
                &&& forall|k: Seq<Seq<char>>|
                    k != key.value@ && #[trigger] old(self).view().contains_key(k) ==> final(self).view()[k]
                        == old(self).view()[k]
                &&& final(self).view()[key.value@].first_defined_at == prev.first_defined_at
                &&& final(self).view()[key.value@].status matches RegisterStatus::Duplicated(kinds)
                    && kinds@ == found_kinds(prev).insert(value.spec_name_kind())
            },
    {
        if value.shadows() {
            self.register_shadowing(key, value);
            return Ok(());
        }
        match self.find(&key.value) {
            None => {
                self.register_shadowing(key, value);
                Ok(())
            },
            Some(i) => {
                let new_kind = value.name_kind();
                let first_defined_at = self.entries[i].1.first_defined_at;
                let kinds = match &self.entries[i].1.status {
                    RegisterStatus::RegisteredOnce(registered_value) => {
                        let mut kinds = HashSet::new();
                        kinds.insert(registered_value.name_kind());
                        kinds.insert(new_kind);
                        kinds
                    },
                    RegisterStatus::Duplicated(name_kinds) => {
                        let mut kinds = copy_kinds(name_kinds);
                        kinds.insert(new_kind);
                        kinds
                    },
                };
                let ghost prev = self.entries@[i as int].1;
                proof {
                    assert(kinds@ =~= found_kinds(prev).insert(value.spec_name_kind()));
                }
                let path = self.entries[i].0.clone();
                let updated = Registered { first_defined_at, status: RegisterStatus::Duplicated(kinds) };
                proof {
                    lemma_entries_map_update(self.entries@, i as int, (path, updated));
                }
                let ghost old_view = self.view();
                self.entries.set(i, (path, updated));
                proof {
                    assert(self.view() == old_view.insert(key.value@, updated));
                    assert(self.view().dom() =~= old_view.dom());
                }
                let redefined_at = match key.span {
                    Some(span) => span,
                    None => Span::Internal,
                };
                Err(DuplicateDefError { path: key.value, first_defined_at, redefined_at })
            },
        }
    }

    /// Looks up `key`, expecting one of the kinds in `expected`. An
    /// unregistered path is undefined; a path whose kinds are all unexpected
    /// has the wrong kind; otherwise the lookup gives the value registered
    /// once (none for a path defined more than once) and where the path was
    /// first defined.
    pub fn lookup(&self, key: Spanned<Path>, expected: &HashSet<NameKind>) -> (r: Result<
        (Option<&V>, Option<Span>),
        LookupError,
    >)
        requires
            self.wf(),
        ensures
            !self.view().contains_key(key.value@) ==> (r matches Err(LookupError::Undefined(e))
                && e.path.value@ == key.value@ && e.path.span == key.span && e.expected@
                == expected@),
            self.view().contains_key(key.value@) ==> {
                let reg = self.view()[key.value@];
                if found_kinds(reg).disjoint(expected@) {
                    r matches Err(LookupError::WrongKind(e)) && e.path.value@ == key.value@
                        && e.path.span == key.span && e.expected@ == expected@ && e.found@
                        == found_kinds(reg) && e.defined_at == reg.first_defined_at
                } else {
                    r matches Ok((value, defined_at)) && defined_at == reg.first_defined_at
                        && match reg.status {
                        RegisterStatus::RegisteredOnce(v) => value == Some(&v),
                        RegisterStatus::Duplicated(_) => value is None,
                    }
                }
            },
    {
        let i = match self.find(&key.value) {
            Some(i) => i,
            None => {
                return Err(LookupError::Undefined(UndefinedError { path: key, expected: copy_kinds(expected) }));
            },
        };
        let registered = &self.entries[i].1;
        let (value, found) = match &registered.status {
            RegisterStatus::RegisteredOnce(value) => {
                let mut found = HashSet::new();
                found.insert(value.name_kind());
                assert(found@ =~= set![value.spec_name_kind()]);
                (Some(value), found)
            },
            RegisterStatus::Duplicated(found) => (None, copy_kinds(found)),
        };
        if is_disjoint(&found, expected) {
            Err(
                LookupError::WrongKind(
                    WrongKindError {
                        path: key,
                        expected: copy_kinds(expected),
                        found,
                        defined_at: registered.first_defined_at,
                    },
                ),
            )
        } else {
            Ok((value, registered.first_defined_at))
        }
    }
}

/// A copy of a set of kinds.
fn copy_kinds(kinds: &HashSet<NameKind>) -> (r: HashSet<NameKind>)
    ensures
        r@ == kinds@,
{
    let mut r: HashSet<NameKind> = HashSet::new();
    for k in it: kinds.iter()
        invariant
            it.seq() == spec_hash_keys_iter(kinds).remaining(),
            r@ == Set::new(|y: NameKind| exists|j: int| 0 <= j < it.index() && *it.seq()[j] == y),
    {
        r.insert(*k);
        proof {
            let k0 = it.index();
            assert(r@ =~= Set::new(|y: NameKind| exists|j: int| 0 <= j < k0 + 1 && *it.seq()[j] == y))
                by {
                assert forall|y: NameKind| r@.contains(y) implies exists|j: int|
                    0 <= j < k0 + 1 && *it.seq()[j] == y by {
                    if y == *k {
                        assert(*it.seq()[k0] == y);
                    }
                }
            }
        }
    }
    proof {
        let keys = spec_hash_keys_iter(kinds).remaining();
        assert(r@ =~= kinds@) by {
            assert forall|y: NameKind| kinds@.contains(y) implies r@.contains(y) by {
                assert(keys.unref().to_set().contains(y));
                let j = choose|j: int| 0 <= j < keys.unref().len() && keys.unref()[j] == y;
                assert(*keys[j] == y);
            }
            assert forall|y: NameKind| r@.contains(y) implies kinds@.contains(y) by {
                let j = choose|j: int| 0 <= j < keys.len() && *keys[j] == y;
                assert(keys.unref()[j] == y);
                assert(keys.unref().to_set().contains(y));
            }
        }
    }
    r
}

/// Whether the two sets of kinds have no kind in common.
fn is_disjoint(a: &HashSet<NameKind>, b: &HashSet<NameKind>) -> (r: bool)
    ensures
        r == a@.disjoint(b@),
{
    for k in it: a.iter()
        invariant
            it.seq() == spec_hash_keys_iter(a).remaining(),
            forall|j: int| 0 <= j < it.index() ==> !b@.contains(*it.seq()[j]),
    {
        if b.contains(k) {
            proof {
                let keys = it.seq();
                assert(keys.unref()[it.index()] == *k);
                assert(keys.unref().to_set().contains(*k));
            }
            return false;
        }
    }
    proof {
        let keys = spec_hash_keys_iter(a).remaining();
        assert forall|y: NameKind| a@.contains(y) implies !b@.contains(y) by {
            assert(keys.unref().to_set().contains(y));
            let j = choose|j: int| 0 <= j < keys.unref().len() && keys.unref()[j] == y;
            assert(*keys[j] == y);
        }
    }
    true
}

} // verus!
