//! Linguistic variables: a named range with its terms.

use crate::fis::FisError;
use crate::output::{best_match, is_best, lemma_best_is_unique, none_matches, OutputResult};
use crate::scalar::Scalar;
use crate::term::{
    distinct_names, has_term, is_first_named, lemma_first_named_is_position, position_of, Term,
};
use vstd::prelude::*;

verus! {

/// The interval of values that a variable takes.
#[derive(Debug, Clone, Copy)]
pub struct Range {
    pub min: Scalar,
    pub max: Scalar,
}

impl Range {
    /// The lower bound lies strictly below the upper bound.
    pub open spec fn well_formed(&self) -> bool {
        self.min@ < self.max@
    }

    /// Checks that the lower bound lies strictly below the upper bound.
    pub fn is_well_formed(&self) -> (r: bool)
        ensures
            r == self.well_formed(),
    {
        self.min.lt(self.max)
    }
}

/// One input or output signal: a name, a range and the terms declared on it,
/// in the order of their declaration.
#[derive(Debug, Clone)]
pub struct LinguisticVariable {
    pub name: String,
    pub range: Range,
    pub terms: Vec<Term>,
}

impl LinguisticVariable {
    /// No two terms of the variable share a name.
    pub open spec fn well_formed(&self) -> bool {
        distinct_names(self.terms@)
    }

    /// A variable without terms.
    pub fn new(name: &str, range: Range) -> (v: LinguisticVariable)
        ensures
            v.name@ == name@,
            v.range == range,
            v.terms@.len() == 0,
            v.well_formed(),
    {
        LinguisticVariable { name: name.to_owned(), range, terms: Vec::new() }
    }

    /// The position of the first term called `name`, if there is one.
    pub fn position(&self, name: &String) -> (r: Option<usize>)
        ensures
            r is Some <==> has_term(self.terms@, name@),
            r matches Some(i) ==> is_first_named(self.terms@, name@, i as int) && i
                == position_of(self.terms@, name@),
    {
        let mut i: usize = 0;
        while i < self.terms.len()
            invariant
                i <= self.terms.len(),
                forall|j: int| 0 <= j < i ==> #[trigger] self.terms@[j].name@ != name@,
            decreases self.terms.len() - i,
        {
            if self.terms[i].name == *name {
                proof {
                    lemma_first_named_is_position(self.terms@, name@, i as int);
                }
                return Some(i);
            }
            i += 1;
        }
        None
    }

    /// Appends `term`, unless the variable already has a term of that name:
    /// then the variable stays as it is and the error carries the name.
    pub fn add_term(&mut self, term: Term) -> (res: Result<(), FisError>)
        ensures
            res is Ok <==> !has_term(old(self).terms@, term.name@),
            res is Ok ==> final(self).terms@ == old(self).terms@.push(term),
            res is Err ==> final(self).terms@ == old(self).terms@,
            res matches Err(e) ==> e matches FisError::DuplicateTerm(n) && n@ == term.name@,
            final(self).name == old(self).name,
            final(self).range == old(self).range,
            old(self).well_formed() ==> final(self).well_formed(),
    {
        if self.position(&term.name).is_some() {
            return Err(FisError::DuplicateTerm(term.name.clone()));
        }
        proof {
            let before = self.terms@;
            let after = before.push(term);
            if distinct_names(before) {
                assert forall|i: int, j: int| 0 <= i < j < after.len() implies #[trigger] after[i].name@
                    != #[trigger] after[j].name@ by {
                    if j < before.len() {
                        assert(before[i].name@ != before[j].name@);
                    } else {
                        assert(before[i].name@ != term.name@);
                    }
                }
            }
        }
        self.terms.push(term);
        Ok(())
    }

    /// The first term called `name`, if there is one.
    pub fn term(&self, name: &str) -> (r: Option<&Term>)
        ensures
            r is Some <==> has_term(self.terms@, name@),
            r matches Some(t) ==> *t == self.terms@[position_of(self.terms@, name@)]
                && is_first_named(self.terms@, name@, position_of(self.terms@, name@)),
    {
        let wanted: String = name.to_owned();
        match self.position(&wanted) {
            Some(i) => Some(&self.terms[i]),
            None => None,
        }
    }

    /// `out` is the summary of this variable at the crisp value `value`,
    /// where `degrees` and `kinds` hold, term by term, the degree of the
    /// term at that value and a description of its shape. It names the
    /// variable, its range and the value, and the term whose degree is the
    /// best of `degrees`; no term where no degree lies above minus one.
    pub open spec fn summarizes(
        &self,
        out: OutputResult,
        value: Scalar,
        degrees: Seq<Scalar>,
        kinds: Seq<String>,
    ) -> bool {
        &&& out.variable_name@ == self.name@
        &&& out.range == self.range
        &&& out.value@ == seq![value]
        &&& none_matches(degrees) ==> out.best_term is None && out.term_kind is None
        &&& !none_matches(degrees) ==> exists|i: int|
            {
                &&& #[trigger] is_best(degrees, i)
                &&& out.best_term matches Some(name)
                &&& name@ == self.terms@[i].name@
                &&& out.term_kind matches Some(kind)
                &&& kind@ == kinds[i]@
            }
    }

    /// Summarises the variable at a crisp value: picks the term with the
    /// strictly greatest degree, the first declared among equals.
    pub fn summarize(&self, value: Scalar, degrees: &Vec<Scalar>, kinds: &Vec<String>) -> (out:
        OutputResult)
        requires
            degrees.len() == self.terms.len(),
            kinds.len() == self.terms.len(),
        ensures
            self.summarizes(out, value, degrees@, kinds@),
    {
        let mut held: Vec<Scalar> = Vec::new();
        held.push(value);
        let best = best_match(degrees);
        let (best_term, term_kind) = match best {
            Some(i) => {
                proof {
                    lemma_best_is_unique(degrees@, i as int, i as int);
                }
                (Some(self.terms[i].name.clone()), Some(kinds[i].clone()))
            },
            None => (None, None),
        };
        OutputResult {
            variable_name: self.name.clone(),
            range: self.range,
            value: held,
            best_term,
            term_kind,
        }
    }
}

} // verus!
