//! Named fuzzy labels.

use crate::membership::{MembershipKind, Segment};
use crate::scalar::Scalar;
use vstd::prelude::*;

verus! {

/// A fuzzy label such as "hot": a name and the shape of its membership function.
#[derive(Debug, Clone)]
pub struct Term {
    pub name: String,
    pub kind: MembershipKind,
}

impl Term {
    /// A term with the given name and shape.
    pub fn new(name: &str, kind: MembershipKind) -> (t: Term)
        ensures
            t.name@ == name@,
            t.kind == kind,
    {
        Term { name: name.to_owned(), kind }
    }

    /// The degree of membership of `x` in the term; see
    /// [`MembershipKind::degree`] for `slope`.
    pub fn degree(&self, x: Scalar, slope: Scalar) -> (r: Scalar)
        ensures
            r@ == self.kind.degree_at(x@, slope@),
    {
        self.kind.degree(x, slope)
    }

    /// Finds the segment of the term's shape that `x` falls on.
    pub fn segment(&self, x: Scalar) -> (r: Segment)
        ensures
            r == self.kind.segment_at(x@),
    {
        self.kind.segment(x)
    }
}

/// Some term of `terms` has the given name.
pub open spec fn has_term(terms: Seq<Term>, name: Seq<char>) -> bool {
    exists|i: int| 0 <= i < terms.len() && #[trigger] terms[i].name@ == name
}

/// `i` is the position of the first term of `terms` with the given name.
pub open spec fn is_first_named(terms: Seq<Term>, name: Seq<char>, i: int) -> bool {
    &&& 0 <= i < terms.len()
    &&& terms[i].name@ == name
    &&& forall|j: int| 0 <= j < i ==> #[trigger] terms[j].name@ != name
}

/// The position of the first term of `terms` with the given name.
pub open spec fn position_of(terms: Seq<Term>, name: Seq<char>) -> int {
    choose|i: int| is_first_named(terms, name, i)
}

/// No two terms of `terms` share a name.
pub open spec fn distinct_names(terms: Seq<Term>) -> bool {
    forall|i: int, j: int|
        0 <= i < j < terms.len() ==> #[trigger] terms[i].name@ != #[trigger] terms[j].name@
}

/// The first position of a name is unique, and `position_of` gives it.
pub proof fn lemma_first_named_is_position(terms: Seq<Term>, name: Seq<char>, i: int)
    requires
        is_first_named(terms, name, i),
    ensures
        position_of(terms, name) == i,
        has_term(terms, name),
{
    let p = position_of(terms, name);
    assert(is_first_named(terms, name, p));
    if p < i {
        assert(terms[p].name@ != name);
    }
    if i < p {
        assert(terms[i].name@ != name);
    }
}

/// A name that some term has has a first position.
pub proof fn lemma_has_term_has_position(terms: Seq<Term>, name: Seq<char>)
    requires
        has_term(terms, name),
    ensures
        is_first_named(terms, name, position_of(terms, name)),
    decreases terms.len(),
{
    let w = choose|i: int| 0 <= i < terms.len() && #[trigger] terms[i].name@ == name;
    lemma_least_named(terms, name, w);
}

/// Below any position that carries the name there is a first one.
proof fn lemma_least_named(terms: Seq<Term>, name: Seq<char>, w: int)
    requires
        0 <= w < terms.len(),
        terms[w].name@ == name,
    ensures
        exists|i: int| is_first_named(terms, name, i),
    decreases w,
{
    if exists|j: int| 0 <= j < w && #[trigger] terms[j].name@ == name {
        let j = choose|j: int| 0 <= j < w && #[trigger] terms[j].name@ == name;
        lemma_least_named(terms, name, j);
    } else {
        assert(is_first_named(terms, name, w));
    }
}

/// Where names are distinct, the term that has a name is the only one.
pub proof fn lemma_distinct_names_single(terms: Seq<Term>, name: Seq<char>, i: int)
    requires
        distinct_names(terms),
        0 <= i < terms.len(),
        terms[i].name@ == name,
    ensures
        is_first_named(terms, name, i),
        forall|j: int| 0 <= j < terms.len() && #[trigger] terms[j].name@ == name ==> j == i,
{
}

} // verus!
