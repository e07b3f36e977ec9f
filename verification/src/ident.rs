//! Identifiers and `::`-separated paths of identifiers.

use vstd::prelude::*;

use crate::text::{join, lemma_join_push, push_str};

verus! {

/// A name in the source language.
///
/// An identifier stands for its text: two identifiers are the same exactly
/// when their texts are.
pub struct Ident {
    text: String,
}

impl View for Ident {
    type V = Seq<char>;

    closed spec fn view(&self) -> Seq<char> {
        self.text@
    }
}

impl Clone for Ident {
    fn clone(&self) -> (r: Self)
        ensures
            r == *self,
    {
        Ident { text: self.text.clone() }
    }
}

impl PartialEq for Ident {
    fn eq(&self, other: &Self) -> (r: bool) {
        self.text == other.text
    }
}

impl vstd::std_specs::cmp::PartialEqSpecImpl for Ident {
    open spec fn obeys_eq_spec() -> bool {
        true
    }

    open spec fn eq_spec(&self, other: &Self) -> bool {
        self@ == other@
    }
}

impl Ident {
    /// The identifier with the given text.
    pub fn from_str(text: &str) -> (r: Ident)
        ensures
            r@ == text@,
    {
        Ident { text: String::from_str(text) }
    }

    /// The identifier with the given text.
    pub fn from_string(text: String) -> (r: Ident)
        ensures
            r@ == text@,
    {
        Ident { text }
    }

    /// The text of the identifier.
    pub fn as_str(&self) -> (r: &str)
        ensures
            r@ == self@,
    {
        self.text.as_str()
    }

    /// The text of the identifier, as an owned string.
    pub fn to_string(&self) -> (r: String)
        ensures
            r@ == self@,
    {
        self.text.clone()
    }

    /// The two-segment path `self::ident`.
    pub fn nest(&self, ident: Ident) -> (r: Path)
        ensures
            r@ == seq![self@, ident@],
    {
        Path::new(Some(Path::from_ident(self.clone())), ident)
    }
}

/// A non-empty sequence of identifiers, written `a::b::c`.
///
/// A path is its parent path (if any) extended by its last identifier.
pub struct Path {
    parents: Vec<Ident>,
    last: Ident,
}

/// The views of a sequence of identifiers.
pub open spec fn idents_view(idents: Seq<Ident>) -> Seq<Seq<char>> {
    idents.map_values(|i: Ident| i@)
}

/// The text of a path: its segments joined by `::`.
pub open spec fn path_text(segments: Seq<Seq<char>>) -> Seq<char> {
    join(segments, "::"@)
}

impl View for Path {
    type V = Seq<Seq<char>>;

    closed spec fn view(&self) -> Seq<Seq<char>> {
        idents_view(self.parents@).push(self.last@)
    }
}

impl Clone for Path {
    fn clone(&self) -> (r: Self)
        ensures
            r@ == self@,
    {
        let r = Path { parents: self.parents.clone(), last: self.last.clone() };
        assert(idents_view(r.parents@) =~= idents_view(self.parents@));
        r
    }
}

impl PartialEq for Path {
    fn eq(&self, other: &Self) -> (r: bool) {
        let n = self.parents.len();
        if n != other.parents.len() {
            assert(self@.len() != other@.len());
            return false;
        }
        if !(self.last == other.last) {
            assert(self@.last() != other@.last());
            return false;
        }
        let mut i: usize = 0;
        while i < n
            invariant
                n == self.parents@.len(),
                n == other.parents@.len(),
                i <= n,
                forall|j: int| 0 <= j < i ==> self.parents@[j]@ == other.parents@[j]@,
            decreases n - i,
        {
            if !(self.parents[i] == other.parents[i]) {
                assert(self@[i as int] != other@[i as int]);
                return false;
            }
            i += 1;
        }
        assert(idents_view(self.parents@) =~= idents_view(other.parents@));
        true
    }
}

impl vstd::std_specs::cmp::PartialEqSpecImpl for Path {
    open spec fn obeys_eq_spec() -> bool {
        true
    }

    open spec fn eq_spec(&self, other: &Self) -> bool {
        self@ == other@
    }
}

impl Path {
    /// Every path has at least one segment.
    pub proof fn lemma_nonempty(&self)
        ensures
            self@.len() >= 1,
    {
    }

    /// The path `parent::ident`, or the one-segment path `ident`.
    pub fn new(parent: Option<Path>, ident: Ident) -> (r: Path)
        ensures
            r@ == match parent {
                Some(p) => p@.push(ident@),
                None => seq![ident@],
            },
    {
        match parent {
            Some(p) => {
                let mut parents = p.parents;
                parents.push(p.last);
                let r = Path { parents, last: ident };
                assert(idents_view(r.parents@) =~= idents_view(p.parents@).push(p.last@));
                r
            },
            None => {
                let r = Path { parents: Vec::new(), last: ident };
                assert(idents_view(r.parents@) =~= Seq::<Seq<char>>::empty());
                r
            },
        }
    }

    /// The one-segment path `ident`.
    pub fn from_ident(ident: Ident) -> (r: Path)
        ensures
            r@ == seq![ident@],
    {
        Path::new(None, ident)
    }

    /// The path without its last segment, if it has more than one segment.
    pub fn parent(&self) -> (r: Option<Path>)
        ensures
            self@.len() == 1 ==> r is None,
            self@.len() > 1 ==> (r matches Some(p) && p@ == self@.drop_last()),
    {
        let n = self.parents.len();
        if n == 0 {
            None
        } else {
            let mut parents = self.parents.clone();
            let last = parents.pop().unwrap();
            let r = Path { parents, last };
            assert(idents_view(r.parents@).push(r.last@) =~= idents_view(self.parents@));
            Some(r)
        }
    }

    /// Whether the path has more than one segment.
    pub fn has_parent(&self) -> (r: bool)
        ensures
            r == (self@.len() > 1),
    {
        self.parents.len() != 0
    }

    /// The last segment of the path.
    pub fn ident(&self) -> (r: Ident)
        ensures
            r@ == self@.last(),
    {
        self.last.clone()
    }

    /// The path `self::ident`.
    pub fn nest(&self, ident: Ident) -> (r: Path)
        ensures
            r@ == self@.push(ident@),
    {
        Path::new(Some(self.clone()), ident)
    }

    /// Extends the path by one segment.
    pub fn push(&mut self, ident: Ident)
        ensures
            final(self)@ == old(self)@.push(ident@),
    {
        let mut last = ident;
        std::mem::swap(&mut self.last, &mut last);
        self.parents.push(last);
        assert(idents_view(self.parents@) =~= idents_view(old(self).parents@).push(old(self).last@));
    }

    /// The number of segments.
    pub fn len(&self) -> (r: usize)
        requires
            self@.len() <= usize::MAX,
        ensures
            r == self@.len(),
    {
        self.parents.len() + 1
    }

    /// The segments, first to last.
    pub fn segments(&self) -> (r: Vec<Ident>)
        ensures
            idents_view(r@) == self@,
    {
        let mut r = self.parents.clone();
        r.push(self.last.clone());
        assert(idents_view(r@) =~= idents_view(self.parents@).push(self.last@));
        r
    }

    /// The path made of the given segments, which must not be empty.
    pub fn from_segments(segments: Vec<Ident>) -> (r: Path)
        requires
            segments@.len() >= 1,
        ensures
            r@ == idents_view(segments@),
    {
        let mut parents = segments;
        let last = parents.pop().unwrap();
        let r = Path { parents, last };
        assert(idents_view(r.parents@).push(r.last@) =~= idents_view(segments@));
        r
    }

    /// Extends the path by each of the given identifiers, in order.
    pub fn extend(&mut self, idents: Vec<Ident>)
        ensures
            final(self)@ == old(self)@ + idents_view(idents@),
    {
        let mut idents = idents;
        let ghost all = idents_view(idents@);
        let ghost start = self@;
        let mut rest: Vec<Ident> = Vec::new();
        // Move the identifiers over in order: reverse them first, then pop.
        while idents.len() > 0
            invariant
                idents_view(idents@) + idents_view(rest@).reverse() == all,
            decreases idents.len(),
        {
            let x = idents.pop().unwrap();
            let ghost prev_rest = rest@;
            rest.push(x);
            assert(idents_view(rest@).reverse() =~= seq![x@] + idents_view(prev_rest).reverse());
            assert(idents_view(idents@) + idents_view(rest@).reverse() =~= all);
        }
        assert(idents_view(rest@).reverse() =~= all);
        while rest.len() > 0
            invariant
                self@ + idents_view(rest@).reverse() == start + all,
            decreases rest.len(),
        {
            let x = rest.pop().unwrap();
            let ghost prev = self@;
            self.push(x);
            assert(self@ + idents_view(rest@).reverse() =~= prev + (seq![x@] + idents_view(rest@).reverse()));
        }
        assert(self@ =~= start + all);
    }

    /// The text of the path, with its segments joined by `::`.
    pub fn to_string(&self) -> (r: String)
        ensures
            r@ == path_text(self@),
    {
        let mut r = String::new();
        let n = self.parents.len();
        let mut i: usize = 0;
        while i < n
            invariant
                n == self.parents@.len(),
                i <= n,
                r@ == if i == 0 { Seq::<char>::empty() } else {
                    join(idents_view(self.parents@).take(i as int), "::"@) + "::"@
                },
            decreases n - i,
        {
            push_str(&mut r, self.parents[i].as_str());
            proof {
                let v = idents_view(self.parents@);
                lemma_join_push(v.take(i as int), "::"@, v[i as int]);
                assert(v.take(i as int).push(v[i as int]) =~= v.take(i + 1));
            }
            push_str(&mut r, "::");
            i += 1;
        }
        push_str(&mut r, self.last.as_str());
        proof {
            let v = idents_view(self.parents@);
            lemma_join_push(v, "::"@, self.last@);
            assert(v.take(n as int) =~= v);
        }
        r
    }
}

/// Paths built by `nest` extend their parent by one segment, and `parent`
/// and `ident` take them apart again.
pub proof fn law_nest_parent_ident(p: Seq<Seq<char>>, i: Seq<char>)
    ensures
        p.push(i).drop_last() == p,
        p.push(i).last() == i,
        p.push(i).len() == p.len() + 1,
{
    assert(p.push(i).drop_last() =~= p);
}

} // verus!
