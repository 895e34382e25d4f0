//! If-then rules and the connectives that combine their antecedent degrees.

use crate::scalar::{one_rank, spec_max, spec_min, Scalar};
use vstd::prelude::*;

verus! {

/// How a rule combines the degrees of its antecedent positions.
#[derive(Debug, Clone, Copy)]
pub enum Connective {
    /// The least of the degrees.
    And,
    /// The greatest of the degrees.
    Or,
}

impl Connective {
    /// The strength of a rule with no antecedent positions: one for `And`,
    /// zero for `Or`.
    pub open spec fn identity(self) -> int {
        match self {
            Connective::And => one_rank(),
            Connective::Or => 0,
        }
    }

    /// One step of the fold: the lesser of the two for `And`, the greater for `Or`.
    pub open spec fn combine(self, acc: int, degree: int) -> int {
        match self {
            Connective::And => spec_min(acc, degree),
            Connective::Or => spec_max(acc, degree),
        }
    }

    /// The fold of `degrees` from the left, starting from the identity.
    pub open spec fn fold(self, degrees: Seq<int>) -> int
        decreases degrees.len(),
    {
        if degrees.len() == 0 {
            self.identity()
        } else {
            self.combine(self.fold(degrees.drop_last()), degrees.last())
        }
    }

    /// The scalar a fold starts from.
    pub fn start(self) -> (r: Scalar)
        ensures
            r@ == self.identity(),
    {
        match self {
            Connective::And => Scalar::one(),
            Connective::Or => Scalar::zero(),
        }
    }

    /// Folds one more degree into an accumulated strength.
    pub fn step(self, acc: Scalar, degree: Scalar) -> (r: Scalar)
        ensures
            r@ == self.combine(acc@, degree@),
    {
        match self {
            Connective::And => acc.min(degree),
            Connective::Or => acc.max(degree),
        }
    }

    /// Under `And` the fold is the greatest lower bound of one and the degrees.
    pub proof fn lemma_and_is_least(degrees: Seq<int>)
        ensures
            Connective::And.fold(degrees) <= one_rank(),
            forall|i: int| 0 <= i < degrees.len() ==> Connective::And.fold(degrees) <= degrees[i],
            Connective::And.fold(degrees) == one_rank() || exists|i: int|
                0 <= i < degrees.len() && Connective::And.fold(degrees) == degrees[i],
        decreases degrees.len(),
    {
        if degrees.len() > 0 {
            let init = degrees.drop_last();
            Self::lemma_and_is_least(init);
            assert forall|i: int| 0 <= i < degrees.len() implies Connective::And.fold(degrees)
                <= degrees[i] by {
                if i < init.len() {
                    assert(init[i] == degrees[i]);
                }
            }
            if Connective::And.fold(degrees) != one_rank() {
                if Connective::And.fold(degrees) == degrees.last() {
                    assert(degrees[degrees.len() - 1] == degrees.last());
                } else {
                    let i = choose|i: int|
                        0 <= i < init.len() && Connective::And.fold(init) == init[i];
                    assert(init[i] == degrees[i]);
                }
            }
        }
    }

    /// Under `Or` the fold is the least upper bound of zero and the degrees.
    pub proof fn lemma_or_is_greatest(degrees: Seq<int>)
        ensures
            Connective::Or.fold(degrees) >= 0,
            forall|i: int| 0 <= i < degrees.len() ==> Connective::Or.fold(degrees) >= degrees[i],
            Connective::Or.fold(degrees) == 0 || exists|i: int|
                0 <= i < degrees.len() && Connective::Or.fold(degrees) == degrees[i],
        decreases degrees.len(),
    {
        if degrees.len() > 0 {
            let init = degrees.drop_last();
            Self::lemma_or_is_greatest(init);
            assert forall|i: int| 0 <= i < degrees.len() implies Connective::Or.fold(degrees)
                >= degrees[i] by {
                if i < init.len() {
                    assert(init[i] == degrees[i]);
                }
            }
            if Connective::Or.fold(degrees) != 0 {
                if Connective::Or.fold(degrees) == degrees.last() {
                    assert(degrees[degrees.len() - 1] == degrees.last());
                } else {
                    let i = choose|i: int|
                        0 <= i < init.len() && Connective::Or.fold(init) == init[i];
                    assert(init[i] == degrees[i]);
                }
            }
        }
    }
}

/// One if-then rule. `antecedent[i]` names a term of the i-th input variable
/// (`None` stands for any value); `consequent[j]` names a term of the j-th
/// output variable.
#[derive(Debug, Clone)]
pub struct Rule {
    pub antecedent: Vec<Option<String>>,
    pub consequent: Vec<String>,
    pub connective: Connective,
}

impl Rule {
    /// A rule made of exactly the given parts.
    pub fn new(antecedent: Vec<Option<String>>, consequent: Vec<String>, connective: Connective) -> (r:
        Rule)
        ensures
            r.antecedent == antecedent,
            r.consequent == consequent,
            r.connective == connective,
    {
        Rule { antecedent, consequent, connective }
    }

    /// Whether antecedent position `i` is a wildcard.
    pub open spec fn is_wildcard(&self, i: int) -> bool {
        self.antecedent@[i] is None
    }
}

} // verus!
