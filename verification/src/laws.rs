//! What holds of every inference, stated over the engine's own definitions.

use crate::fis::FuzzyInferenceSystem;
use crate::rule::{Connective, Rule};
use crate::scalar::{one_rank, spec_max, spec_min, Scalar};
use crate::term::{lemma_has_term_has_position, position_of};
use vstd::prelude::*;

verus! {

impl FuzzyInferenceSystem {
    /// A rule blames at most one term for an output variable, and none
    /// where it can be evaluated.
    pub proof fn lemma_rule_blames_one_term(
        &self,
        rule: &Rule,
        j: int,
        first: Seq<char>,
        second: Seq<char>,
    )
        requires
            self.rule_blames(rule, j, first),
        ensures
            !self.rule_resolves(rule, j),
            self.rule_blames(rule, j, second) ==> first == second,
    {
        if self.blames_antecedent(rule, first) {
            let i = choose|i: int| #[trigger]
                self.is_first_unresolved(rule, i) && rule.antecedent@[i]->0@ == first;
            assert(!self.antecedent_resolves(rule, i));
            if self.blames_antecedent(rule, second) {
                let k = choose|k: int| #[trigger]
                    self.is_first_unresolved(rule, k) && rule.antecedent@[k]->0@ == second;
                if i < k {
                    assert(self.antecedent_resolves(rule, i));
                }
                if k < i {
                    assert(self.antecedent_resolves(rule, k));
                }
            }
        } else if self.blames_antecedent(rule, second) {
            let k = choose|k: int| #[trigger]
                self.is_first_unresolved(rule, k) && rule.antecedent@[k]->0@ == second;
            assert(!self.antecedent_resolves(rule, k));
        }
    }

    /// The inference blames at most one term, and none where every rule can
    /// be evaluated: the error that `compute` returns is determined by the
    /// system.
    pub proof fn lemma_blames_one_term(&self, first: Seq<char>, second: Seq<char>)
        requires
            self.blames(first),
        ensures
            !self.resolves(),
            self.blames(second) ==> first == second,
    {
        let j = choose|j: int| #[trigger]
            self.is_first_failing_output(j) && self.output_blames(j, first);
        let r = choose|r: int| #[trigger]
            self.is_first_failing_rule(j, r) && self.rule_blames(&self.rules@[r], j, first);
        assert(!self.output_resolves(j));
        if self.blames(second) {
            let h = choose|h: int| #[trigger]
                self.is_first_failing_output(h) && self.output_blames(h, second);
            if j < h {
                assert(self.output_resolves(j));
            }
            if h < j {
                assert(self.output_resolves(h));
            }
            let q = choose|q: int| #[trigger]
                self.is_first_failing_rule(j, q) && self.rule_blames(&self.rules@[q], j, second);
            if r < q {
                assert(self.rule_resolves(&self.rules@[r], j));
            }
            if q < r {
                assert(self.rule_resolves(&self.rules@[q], j));
            }
            self.lemma_rule_blames_one_term(&self.rules@[r], j, first, second);
        }
    }

    /// A wildcard resolves and contributes degree one, whatever the
    /// fuzzified input holds.
    pub proof fn lemma_wildcard_contributes_one(
        &self,
        rule: &Rule,
        i: int,
        input_degrees: Seq<Vec<Scalar>>,
    )
        requires
            0 <= i < rule.antecedent.len(),
            rule.is_wildcard(i),
        ensures
            self.antecedent_resolves(rule, i),
            self.antecedent_degree(rule, i, input_degrees) == one_rank(),
    {
    }

    /// A rule whose antecedent positions are all wildcards fires with
    /// strength one, whatever the fuzzified input holds: under `And` always,
    /// under `Or` where it has a position at all.
    pub proof fn lemma_wildcard_rule_fires_fully(&self, rule: &Rule, input_degrees: Seq<Vec<Scalar>>)
        requires
            forall|i: int| 0 <= i < rule.antecedent.len() ==> rule.is_wildcard(i),
            rule.connective is And || rule.antecedent.len() > 0,
        ensures
            self.antecedents_resolve(rule),
            self.strength(rule, input_degrees) == one_rank(),
    {
        let degrees = self.antecedent_degrees(rule, input_degrees);
        assert forall|i: int| 0 <= i < degrees.len() implies degrees[i] == one_rank() by {
            assert(rule.is_wildcard(i));
        }
        assert forall|i: int| 0 <= i < rule.antecedent.len() implies self.antecedent_resolves(
            rule,
            i,
        ) by {
            assert(rule.is_wildcard(i));
        }
        match rule.connective {
            Connective::And => {
                Connective::lemma_and_is_least(degrees);
            },
            Connective::Or => {
                Connective::lemma_or_is_greatest(degrees);
                assert(degrees[0] == one_rank());
            },
        }
    }

    /// In a system whose single rule has only wildcards in its antecedent,
    /// the aggregate of an output variable that the rule names a term for is
    /// that term's own curve, cut off at zero and at one, whatever the
    /// fuzzified input holds.
    pub proof fn lemma_wildcard_system_aggregates_consequent(
        &self,
        j: int,
        k: int,
        input_degrees: Seq<Vec<Scalar>>,
        curves: Seq<Vec<Scalar>>,
    )
        requires
            self.rules.len() == 1,
            forall|i: int| 0 <= i < self.rules@[0].antecedent.len() ==> self.rules@[0].is_wildcard(i),
            self.rules@[0].connective is And || self.rules@[0].antecedent.len() > 0,
            0 <= j < self.rules@[0].consequent.len(),
        ensures
            self.aggregated(j, 1, k, input_degrees, curves) == spec_max(
                0,
                spec_min(
                    one_rank(),
                    curves[position_of(
                        self.outputs@[j].terms@,
                        self.rules@[0].consequent@[j]@,
                    )]@[k]@,
                ),
            ),
    {
        self.lemma_wildcard_rule_fires_fully(&self.rules@[0], input_degrees);
        reveal_with_fuel(FuzzyInferenceSystem::aggregated, 2);
    }

    /// The firing strength of a rule is bounded by its antecedent degrees:
    /// under `And` it is the least of one and the degrees, under `Or` the
    /// greatest of zero and the degrees.
    pub proof fn lemma_strength_is_bound(&self, rule: &Rule, input_degrees: Seq<Vec<Scalar>>)
        ensures
            rule.connective is And ==> {
                &&& self.strength(rule, input_degrees) <= one_rank()
                &&& forall|i: int|
                    0 <= i < rule.antecedent.len() ==> self.strength(rule, input_degrees)
                        <= #[trigger] self.antecedent_degree(rule, i, input_degrees)
                &&& self.strength(rule, input_degrees) == one_rank() || exists|i: int|
                    0 <= i < rule.antecedent.len() && self.strength(rule, input_degrees)
                        == #[trigger] self.antecedent_degree(rule, i, input_degrees)
            },
            rule.connective is Or ==> {
                &&& self.strength(rule, input_degrees) >= 0
                &&& forall|i: int|
                    0 <= i < rule.antecedent.len() ==> self.strength(rule, input_degrees)
                        >= #[trigger] self.antecedent_degree(rule, i, input_degrees)
                &&& self.strength(rule, input_degrees) == 0 || exists|i: int|
                    0 <= i < rule.antecedent.len() && self.strength(rule, input_degrees)
                        == #[trigger] self.antecedent_degree(rule, i, input_degrees)
            },
    {
        let degrees = self.antecedent_degrees(rule, input_degrees);
        match rule.connective {
            Connective::And => {
                Connective::lemma_and_is_least(degrees);
                assert forall|i: int| 0 <= i < rule.antecedent.len() implies self.strength(
                    rule,
                    input_degrees,
                ) <= #[trigger] self.antecedent_degree(rule, i, input_degrees) by {
                    assert(degrees[i] == self.antecedent_degree(rule, i, input_degrees));
                }
                if self.strength(rule, input_degrees) != one_rank() {
                    let i = choose|i: int|
                        0 <= i < degrees.len() && Connective::And.fold(degrees) == degrees[i];
                    assert(degrees[i] == self.antecedent_degree(rule, i, input_degrees));
                }
            },
            Connective::Or => {
                Connective::lemma_or_is_greatest(degrees);
                assert forall|i: int| 0 <= i < rule.antecedent.len() implies self.strength(
                    rule,
                    input_degrees,
                ) >= #[trigger] self.antecedent_degree(rule, i, input_degrees) by {
                    assert(degrees[i] == self.antecedent_degree(rule, i, input_degrees));
                }
                if self.strength(rule, input_degrees) != 0 {
                    let i = choose|i: int|
                        0 <= i < degrees.len() && Connective::Or.fold(degrees) == degrees[i];
                    assert(degrees[i] == self.antecedent_degree(rule, i, input_degrees));
                }
            },
        }
    }

    /// The aggregate is the least upper bound of zero and the contributions
    /// of the rules taken: it is at least zero and at least each
    /// contribution, and it is zero or one of the contributions. So the
    /// order of the rules does not matter to it.
    pub proof fn lemma_aggregated_is_least_upper_bound(
        &self,
        j: int,
        n: int,
        k: int,
        input_degrees: Seq<Vec<Scalar>>,
        curves: Seq<Vec<Scalar>>,
    )
        requires
            0 <= n <= self.rules.len(),
        ensures
            self.aggregated(j, n, k, input_degrees, curves) >= 0,
            forall|r: int|
                0 <= r < n && (#[trigger] self.contribution(
                    &self.rules@[r],
                    j,
                    k,
                    input_degrees,
                    curves,
                )) is Some ==> self.aggregated(j, n, k, input_degrees, curves)
                    >= self.contribution(&self.rules@[r], j, k, input_degrees, curves)->0,
            self.aggregated(j, n, k, input_degrees, curves) == 0 || exists|r: int|
                0 <= r < n && #[trigger] self.contribution(
                    &self.rules@[r],
                    j,
                    k,
                    input_degrees,
                    curves,
                ) == Some(self.aggregated(j, n, k, input_degrees, curves)),
        decreases n,
    {
        if n > 0 {
            self.lemma_aggregated_is_least_upper_bound(j, n - 1, k, input_degrees, curves);
            let before = self.aggregated(j, n - 1, k, input_degrees, curves);
            let now = self.aggregated(j, n, k, input_degrees, curves);
            if now != 0 {
                if now == before {
                    let r = choose|r: int|
                        0 <= r < n - 1 && #[trigger] self.contribution(
                            &self.rules@[r],
                            j,
                            k,
                            input_degrees,
                            curves,
                        ) == Some(before);
                    assert(self.contribution(&self.rules@[r], j, k, input_degrees, curves) == Some(now));
                } else {
                    assert(self.contribution(&self.rules@[n - 1], j, k, input_degrees, curves)
                        == Some(now));
                }
            }
        }
    }

    /// The aggregate is zero exactly where no rule contributes more than zero.
    pub proof fn lemma_aggregate_is_zero_without_support(
        &self,
        j: int,
        k: int,
        input_degrees: Seq<Vec<Scalar>>,
        curves: Seq<Vec<Scalar>>,
    )
        ensures
            self.aggregated(j, self.rules.len() as int, k, input_degrees, curves) == 0 <==> forall|
                r: int,
            |
                0 <= r < self.rules.len() && (#[trigger] self.contribution(
                    &self.rules@[r],
                    j,
                    k,
                    input_degrees,
                    curves,
                )) is Some ==> self.contribution(&self.rules@[r], j, k, input_degrees, curves)->0
                    <= 0,
    {
        self.lemma_aggregated_is_least_upper_bound(
            j,
            self.rules.len() as int,
            k,
            input_degrees,
            curves,
        );
    }

    /// An output variable for which no rule names a term stays silent: its
    /// aggregate is zero at every sample.
    pub proof fn lemma_unnamed_output_is_silent(
        &self,
        j: int,
        k: int,
        input_degrees: Seq<Vec<Scalar>>,
        curves: Seq<Vec<Scalar>>,
    )
        requires
            forall|r: int| 0 <= r < self.rules.len() ==> (#[trigger] self.rules@[r]).consequent.len() <= j,
        ensures
            self.aggregated(j, self.rules.len() as int, k, input_degrees, curves) == 0,
    {
        self.lemma_aggregate_is_zero_without_support(j, k, input_degrees, curves);
        assert forall|r: int|
            0 <= r < self.rules.len() implies (#[trigger] self.contribution(
            &self.rules@[r],
            j,
            k,
            input_degrees,
            curves,
        )) is None by {
            assert(self.rules@[r].consequent.len() <= j);
        }
    }

    /// Where every degree of the fuzzified input lies between zero and one,
    /// so does the firing strength of a rule whose antecedent resolves.
    pub proof fn lemma_strength_is_a_degree(&self, rule: &Rule, input_degrees: Seq<Vec<Scalar>>)
        requires
            input_degrees.len() == self.inputs.len(),
            self.fits_inputs(input_degrees),
            self.antecedents_resolve(rule),
            forall|i: int, t: int|
                0 <= i < input_degrees.len() && 0 <= t < input_degrees[i]@.len() ==> 0
                    <= (#[trigger] input_degrees[i]@[t])@ <= one_rank(),
        ensures
            0 <= self.strength(rule, input_degrees) <= one_rank(),
    {
        self.lemma_strength_is_bound(rule, input_degrees);
        assert forall|i: int| 0 <= i < rule.antecedent.len() implies 0
            <= #[trigger] self.antecedent_degree(rule, i, input_degrees) <= one_rank() by {
            assert(self.antecedent_resolves(rule, i));
            if let Some(name) = rule.antecedent@[i] {
                let terms = self.inputs@[i].terms@;
                lemma_has_term_has_position(terms, name@);
                let t = position_of(terms, name@);
                assert(input_degrees[i].len() == self.inputs[i].terms.len());
                assert(0 <= input_degrees[i]@[t]@ <= one_rank());
            }
        }
    }

    /// Where every rule fires with a strength of at most one, the aggregate
    /// lies between zero and one.
    pub proof fn lemma_aggregate_is_a_degree(
        &self,
        j: int,
        k: int,
        input_degrees: Seq<Vec<Scalar>>,
        curves: Seq<Vec<Scalar>>,
    )
        requires
            forall|r: int|
                0 <= r < self.rules.len() ==> #[trigger] self.strength(
                    &self.rules@[r],
                    input_degrees,
                ) <= one_rank(),
        ensures
            0 <= self.aggregated(j, self.rules.len() as int, k, input_degrees, curves)
                <= one_rank(),
    {
        let n = self.rules.len() as int;
        self.lemma_aggregated_is_least_upper_bound(j, n, k, input_degrees, curves);
        let v = self.aggregated(j, n, k, input_degrees, curves);
        if v != 0 {
            let r = choose|r: int|
                0 <= r < n && #[trigger] self.contribution(
                    &self.rules@[r],
                    j,
                    k,
                    input_degrees,
                    curves,
                ) == Some(v);
            assert(self.strength(&self.rules@[r], input_degrees) <= one_rank());
        }
    }

    /// Two systems with the same variables agree on what a rule contributes.
    proof fn lemma_contribution_depends_on_variables(
        a: &FuzzyInferenceSystem,
        b: &FuzzyInferenceSystem,
        rule: &Rule,
        j: int,
        k: int,
        input_degrees: Seq<Vec<Scalar>>,
        curves: Seq<Vec<Scalar>>,
    )
        requires
            a.inputs@ == b.inputs@,
            a.outputs@ == b.outputs@,
        ensures
            a.contribution(rule, j, k, input_degrees, curves) == b.contribution(
                rule,
                j,
                k,
                input_degrees,
                curves,
            ),
    {
        assert(a.antecedent_degrees(rule, input_degrees) =~= b.antecedent_degrees(
            rule,
            input_degrees,
        ));
    }

    /// Where every rule of `a` is also a rule of `b`, the aggregate of `a`
    /// is at most that of `b`.
    proof fn lemma_more_rules_raise_the_aggregate(
        a: &FuzzyInferenceSystem,
        b: &FuzzyInferenceSystem,
        j: int,
        k: int,
        input_degrees: Seq<Vec<Scalar>>,
        curves: Seq<Vec<Scalar>>,
    )
        requires
            a.inputs@ == b.inputs@,
            a.outputs@ == b.outputs@,
            forall|rule: Rule| a.rules@.contains(rule) ==> b.rules@.contains(rule),
        ensures
            a.aggregated(j, a.rules.len() as int, k, input_degrees, curves) <= b.aggregated(
                j,
                b.rules.len() as int,
                k,
                input_degrees,
                curves,
            ),
    {
        let na = a.rules.len() as int;
        let nb = b.rules.len() as int;
        a.lemma_aggregated_is_least_upper_bound(j, na, k, input_degrees, curves);
        b.lemma_aggregated_is_least_upper_bound(j, nb, k, input_degrees, curves);
        let va = a.aggregated(j, na, k, input_degrees, curves);
        if va != 0 {
            let r = choose|r: int|
                0 <= r < na && #[trigger] a.contribution(
                    &a.rules@[r],
                    j,
                    k,
                    input_degrees,
                    curves,
                ) == Some(va);
            let rule = a.rules@[r];
            assert(a.rules@.contains(rule));
            assert(b.rules@.contains(rule));
            let q = choose|q: int| 0 <= q < nb && b.rules@[q] == rule;
            Self::lemma_contribution_depends_on_variables(
                a,
                b,
                &rule,
                j,
                k,
                input_degrees,
                curves,
            );
            assert(b.contribution(&b.rules@[q], j, k, input_degrees, curves) == Some(va));
        }
    }

    /// The aggregate does not depend on the order of the rules, nor on how
    /// often a rule is repeated: two systems with the same variables and the
    /// same rules, in whatever order, aggregate to the same degree at every
    /// sample.
    pub proof fn lemma_aggregate_ignores_rule_order(
        a: &FuzzyInferenceSystem,
        b: &FuzzyInferenceSystem,
        j: int,
        k: int,
        input_degrees: Seq<Vec<Scalar>>,
        curves: Seq<Vec<Scalar>>,
    )
        requires
            a.inputs@ == b.inputs@,
            a.outputs@ == b.outputs@,
            forall|rule: Rule| a.rules@.contains(rule) <==> b.rules@.contains(rule),
        ensures
            a.aggregated(j, a.rules.len() as int, k, input_degrees, curves) == b.aggregated(
                j,
                b.rules.len() as int,
                k,
                input_degrees,
                curves,
            ),
    {
        Self::lemma_more_rules_raise_the_aggregate(a, b, j, k, input_degrees, curves);
        Self::lemma_more_rules_raise_the_aggregate(b, a, j, k, input_degrees, curves);
    }
}

} // verus!
