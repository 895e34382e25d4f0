//! The inference engine.

use crate::math_helpers::{point_count, points};
use crate::output::OutputResult;
use crate::rule::Rule;
use crate::scalar::{one_rank, spec_max, spec_min, Scalar};
use crate::term::{has_term, position_of};
use crate::variable::LinguisticVariable;
use vstd::prelude::*;

verus! {

/// What can go wrong while a system is built or evaluated.
#[derive(Debug)]
pub enum FisError {
    /// The number of fuzzified inputs differs from the number of input variables.
    InputLen { expected: usize, got: usize },
    /// The outputs are inconsistent in number. Kept for engines that need it;
    /// nothing here returns it.
    OutputMismatch,
    /// A rule names a term that the variable at that position does not have.
    TermNotFound(String),
    /// A variable already has a term of that name.
    DuplicateTerm(String),
    /// The requested inference method is not supported.
    UndefinedFuzzyInferenceSystemType,
}

/// The inference method.
#[derive(PartialEq, Eq, Structural, Debug, Clone, Copy)]
pub enum FisType {
    Mamdani,
}

/// A fuzzy inference system: input and output variables in the order of their
/// declaration, the rules that connect them, and the number of points at
/// which each output range is sampled.
pub struct FuzzyInferenceSystem {
    pub name: String,
    pub inputs: Vec<LinguisticVariable>,
    pub outputs: Vec<LinguisticVariable>,
    pub rules: Vec<Rule>,
    pub resolution: usize,
}

impl FuzzyInferenceSystem {
    /// The number of sample points of each output range: the resolution, and
    /// a single point where the resolution is 0 or 1.
    pub open spec fn samples(&self) -> int {
        points(self.resolution)
    }

    /// `input_degrees` holds, for each input variable, one degree per term.
    /// Nothing is asked of a table with the wrong number of rows.
    pub open spec fn fits_inputs(&self, input_degrees: Seq<Vec<Scalar>>) -> bool {
        input_degrees.len() == self.inputs.len() ==> forall|i: int|
            0 <= i < self.inputs.len() ==> (#[trigger] input_degrees[i]).len()
                == self.inputs[i].terms.len()
    }

    /// `curves` holds, for each term of output variable `j`, one degree per
    /// sample point.
    pub open spec fn fits_output(&self, j: int, curves: Seq<Vec<Scalar>>) -> bool {
        &&& curves.len() == self.outputs[j].terms.len()
        &&& forall|t: int| 0 <= t < curves.len() ==> (#[trigger] curves[t]).len() == self.samples()
    }

    /// `output_curves` holds a table as `fits_output` asks for each output variable.
    pub open spec fn fits_outputs(&self, output_curves: Seq<Vec<Vec<Scalar>>>) -> bool {
        &&& output_curves.len() == self.outputs.len()
        &&& forall|j: int|
            0 <= j < self.outputs.len() ==> self.fits_output(j, (#[trigger] output_curves[j])@)
    }

    /// Antecedent position `i` of `rule` is a wildcard, or names a term that
    /// the i-th input variable has.
    pub open spec fn antecedent_resolves(&self, rule: &Rule, i: int) -> bool {
        rule.antecedent@[i] matches Some(name) ==> i < self.inputs.len() && has_term(
            self.inputs@[i].terms@,
            name@,
        )
    }

    /// Every antecedent position of `rule` resolves.
    pub open spec fn antecedents_resolve(&self, rule: &Rule) -> bool {
        forall|i: int| 0 <= i < rule.antecedent.len() ==> self.antecedent_resolves(rule, i)
    }

    /// `i` is the first antecedent position of `rule` that does not resolve.
    pub open spec fn is_first_unresolved(&self, rule: &Rule, i: int) -> bool {
        &&& 0 <= i < rule.antecedent.len()
        &&& !self.antecedent_resolves(rule, i)
        &&& forall|k: int| 0 <= k < i ==> self.antecedent_resolves(rule, k)
    }

    /// `name` is the term named at the first antecedent position of `rule`
    /// that does not resolve.
    pub open spec fn blames_antecedent(&self, rule: &Rule, name: Seq<char>) -> bool {
        exists|i: int| #[trigger]
            self.is_first_unresolved(rule, i) && rule.antecedent@[i]->0@ == name
    }

    /// The degree that antecedent position `i` of `rule` contributes: one for
    /// a wildcard, else the degree of the named term in the fuzzified input.
    pub open spec fn antecedent_degree(
        &self,
        rule: &Rule,
        i: int,
        input_degrees: Seq<Vec<Scalar>>,
    ) -> int {
        match rule.antecedent@[i] {
            Some(name) => input_degrees[i]@[position_of(self.inputs@[i].terms@, name@)]@,
            None => one_rank(),
        }
    }

    /// The degrees of all antecedent positions of `rule`, in order.
    pub open spec fn antecedent_degrees(&self, rule: &Rule, input_degrees: Seq<Vec<Scalar>>) -> Seq<
        int,
    > {
        Seq::new(rule.antecedent@.len(), |i: int| self.antecedent_degree(rule, i, input_degrees))
    }

    /// The firing strength of `rule`: its antecedent degrees folded by its connective.
    pub open spec fn strength(&self, rule: &Rule, input_degrees: Seq<Vec<Scalar>>) -> int {
        rule.connective.fold(self.antecedent_degrees(rule, input_degrees))
    }

    /// `rule` names no term for output variable `j`, or names one that the
    /// variable has.
    pub open spec fn consequent_resolves(&self, rule: &Rule, j: int) -> bool {
        j < rule.consequent.len() ==> has_term(self.outputs@[j].terms@, rule.consequent@[j]@)
    }

    /// `rule` can be evaluated for output variable `j`: every term it names
    /// in its antecedent, and the term it names for that output, is found.
    pub open spec fn rule_resolves(&self, rule: &Rule, j: int) -> bool {
        self.antecedents_resolve(rule) && self.consequent_resolves(rule, j)
    }

    /// `name` is the term that stops the evaluation of `rule` for output
    /// variable `j`: the first antecedent term that is not found, or, where
    /// all of those are found, the consequent term for that output.
    pub open spec fn rule_blames(&self, rule: &Rule, j: int, name: Seq<char>) -> bool {
        ||| self.blames_antecedent(rule, name)
        ||| self.antecedents_resolve(rule) && !self.consequent_resolves(rule, j)
            && rule.consequent@[j]@ == name
    }

    /// `r` is the first rule that cannot be evaluated for output variable `j`.
    pub open spec fn is_first_failing_rule(&self, j: int, r: int) -> bool {
        &&& 0 <= r < self.rules.len()
        &&& !self.rule_resolves(&self.rules@[r], j)
        &&& forall|q: int| 0 <= q < r ==> self.rule_resolves(&#[trigger] self.rules@[q], j)
    }

    /// Every rule can be evaluated for output variable `j`.
    pub open spec fn output_resolves(&self, j: int) -> bool {
        forall|r: int| 0 <= r < self.rules.len() ==> self.rule_resolves(&#[trigger] self.rules@[r], j)
    }

    /// `name` is the term that stops the aggregation for output variable `j`:
    /// the one blamed by the first rule that cannot be evaluated for it.
    pub open spec fn output_blames(&self, j: int, name: Seq<char>) -> bool {
        exists|r: int| #[trigger]
            self.is_first_failing_rule(j, r) && self.rule_blames(&self.rules@[r], j, name)
    }

    /// What `rule` contributes to the aggregate of output variable `j` at
    /// sample `k`: the degree of its consequent term there, clipped to the
    /// rule's firing strength; nothing where it names no term for `j`.
    pub open spec fn contribution(
        &self,
        rule: &Rule,
        j: int,
        k: int,
        input_degrees: Seq<Vec<Scalar>>,
        curves: Seq<Vec<Scalar>>,
    ) -> Option<int> {
        if j < rule.consequent.len() {
            Some(
                spec_min(
                    self.strength(rule, input_degrees),
                    curves[position_of(self.outputs@[j].terms@, rule.consequent@[j]@)]@[k]@,
                ),
            )
        } else {
            None
        }
    }

    /// The aggregate of output variable `j` at sample `k` after the first `n`
    /// rules: zero, raised to every contribution in turn.
    pub open spec fn aggregated(
        &self,
        j: int,
        n: int,
        k: int,
        input_degrees: Seq<Vec<Scalar>>,
        curves: Seq<Vec<Scalar>>,
    ) -> int
        decreases n,
    {
        if n <= 0 {
            0
        } else {
            let before = self.aggregated(j, n - 1, k, input_degrees, curves);
            match self.contribution(&self.rules@[n - 1], j, k, input_degrees, curves) {
                Some(c) => spec_max(before, c),
                None => before,
            }
        }
    }

    /// `agg` is the aggregated membership curve of output variable `j`: one
    /// degree per sample point, each the aggregate over all rules.
    pub open spec fn is_aggregate(
        &self,
        j: int,
        agg: Seq<Scalar>,
        input_degrees: Seq<Vec<Scalar>>,
        curves: Seq<Vec<Scalar>>,
    ) -> bool {
        &&& agg.len() == self.samples()
        &&& forall|k: int|
            0 <= k < agg.len() ==> (#[trigger] agg[k])@ == self.aggregated(
                j,
                self.rules.len() as int,
                k,
                input_degrees,
                curves,
            )
    }

    /// Every rule can be evaluated for every output variable.
    pub open spec fn resolves(&self) -> bool {
        forall|j: int| 0 <= j < self.outputs.len() ==> self.output_resolves(j)
    }

    /// `j` is the first output variable for which some rule cannot be evaluated.
    pub open spec fn is_first_failing_output(&self, j: int) -> bool {
        &&& 0 <= j < self.outputs.len()
        &&& !self.output_resolves(j)
        &&& forall|h: int| 0 <= h < j ==> self.output_resolves(h)
    }

    /// `name` is the term that stops the inference: the one blamed for the
    /// first output variable for which some rule cannot be evaluated.
    pub open spec fn blames(&self, name: Seq<char>) -> bool {
        exists|j: int| #[trigger] self.is_first_failing_output(j) && self.output_blames(j, name)
    }

    /// `values` holds one crisp value per output variable, and `degrees` and
    /// `kinds` hold for each output variable one entry per term.
    pub open spec fn fits_readings(
        &self,
        values: Seq<Scalar>,
        degrees: Seq<Vec<Scalar>>,
        kinds: Seq<Vec<String>>,
    ) -> bool {
        &&& values.len() == self.outputs.len()
        &&& degrees.len() == self.outputs.len()
        &&& kinds.len() == self.outputs.len()
        &&& forall|j: int|
            0 <= j < self.outputs.len() ==> (#[trigger] degrees[j]).len()
                == self.outputs[j].terms.len()
        &&& forall|j: int|
            0 <= j < self.outputs.len() ==> (#[trigger] kinds[j]).len()
                == self.outputs[j].terms.len()
    }

    /// A system without variables or rules that samples output ranges at 200 points.
    pub fn new(name: &str) -> (fis: FuzzyInferenceSystem)
        ensures
            fis.name@ == name@,
            fis.inputs@.len() == 0,
            fis.outputs@.len() == 0,
            fis.rules@.len() == 0,
            fis.resolution == 200,
    {
        FuzzyInferenceSystem {
            name: name.to_owned(),
            inputs: Vec::new(),
            outputs: Vec::new(),
            rules: Vec::new(),
            resolution: 200,
        }
    }

    /// Declares `var` as the next input variable.
    pub fn add_input(&mut self, var: LinguisticVariable)
        ensures
            final(self).inputs@ == old(self).inputs@.push(var),
            final(self).name == old(self).name,
            final(self).outputs == old(self).outputs,
            final(self).rules == old(self).rules,
            final(self).resolution == old(self).resolution,
    {
        self.inputs.push(var);
    }

    /// Declares `var` as the next output variable.
    pub fn add_output(&mut self, var: LinguisticVariable)
        ensures
            final(self).outputs@ == old(self).outputs@.push(var),
            final(self).name == old(self).name,
            final(self).inputs == old(self).inputs,
            final(self).rules == old(self).rules,
            final(self).resolution == old(self).resolution,
    {
        self.outputs.push(var);
    }

    /// Replaces the rule set.
    pub fn set_rules(&mut self, rules: Vec<Rule>)
        ensures
            final(self).rules == rules,
            final(self).name == old(self).name,
            final(self).inputs == old(self).inputs,
            final(self).outputs == old(self).outputs,
            final(self).resolution == old(self).resolution,
    {
        self.rules = rules;
    }

    /// The number of sample points of each output range.
    pub fn sample_count(&self) -> (n: usize)
        ensures
            n == self.samples(),
    {
        point_count(self.resolution)
    }

    /// The firing strength of `rule` on a fuzzified input: each antecedent
    /// position contributes the degree of the term it names, a wildcard
    /// contributes one, and the connective folds the contributions. Fails at
    /// the first position whose term cannot be found.
    pub fn firing_strength(&self, rule: &Rule, input_degrees: &Vec<Vec<Scalar>>) -> (res: Result<
        Scalar,
        FisError,
    >)
        requires
            input_degrees.len() == self.inputs.len(),
            self.fits_inputs(input_degrees@),
        ensures
            res is Ok <==> self.antecedents_resolve(rule),
            res matches Ok(s) ==> s@ == self.strength(rule, input_degrees@),
            res matches Err(e) ==> e matches FisError::TermNotFound(n) && self.blames_antecedent(
                rule,
                n@,
            ),
    {
        let ghost degrees = self.antecedent_degrees(rule, input_degrees@);
        let mut acc = rule.connective.start();
        let mut i: usize = 0;
        proof {
            assert(degrees.take(0) =~= Seq::<int>::empty());
        }
        while i < rule.antecedent.len()
            invariant
                i <= rule.antecedent.len(),
                input_degrees.len() == self.inputs.len(),
                self.fits_inputs(input_degrees@),
                degrees == self.antecedent_degrees(rule, input_degrees@),
                forall|k: int| 0 <= k < i ==> self.antecedent_resolves(rule, k),
                acc@ == rule.connective.fold(degrees.take(i as int)),
            decreases rule.antecedent.len() - i,
        {
            let degree = match &rule.antecedent[i] {
                Some(name) => {
                    if i >= self.inputs.len() {
                        proof {
                            assert(self.is_first_unresolved(rule, i as int));
                        }
                        return Err(FisError::TermNotFound(name.clone()));
                    }
                    match self.inputs[i].position(name) {
                        Some(t) => input_degrees[i][t],
                        None => {
                            proof {
                                assert(self.is_first_unresolved(rule, i as int));
                            }
                            return Err(FisError::TermNotFound(name.clone()));
                        },
                    }
                },
                None => Scalar::one(),
            };
            proof {
                let next = degrees.take(i + 1);
                assert(next.drop_last() =~= degrees.take(i as int));
                assert(next.last() == self.antecedent_degree(rule, i as int, input_degrees@));
            }
            acc = rule.connective.step(acc, degree);
            i += 1;
        }
        proof {
            assert(degrees.take(i as int) =~= degrees);
        }
        Ok(acc)
    }

    /// The aggregated membership curve of output variable `j`: at each sample
    /// point the greatest, over the rules that name a term for `j`, of that
    /// term's degree clipped to the rule's firing strength, and zero where
    /// there is no such rule. Fails at the first rule that names a term
    /// which cannot be found.
    pub fn aggregate(
        &self,
        j: usize,
        input_degrees: &Vec<Vec<Scalar>>,
        curves: &Vec<Vec<Scalar>>,
    ) -> (res: Result<Vec<Scalar>, FisError>)
        requires
            j < self.outputs.len(),
            input_degrees.len() == self.inputs.len(),
            self.fits_inputs(input_degrees@),
            self.fits_output(j as int, curves@),
        ensures
            res is Ok <==> self.output_resolves(j as int),
            res matches Ok(agg) ==> self.is_aggregate(j as int, agg@, input_degrees@, curves@),
            res matches Err(e) ==> e matches FisError::TermNotFound(n) && self.output_blames(
                j as int,
                n@,
            ),
    {
        let count = self.sample_count();
        let mut agg: Vec<Scalar> = Vec::new();
        while agg.len() < count
            invariant
                agg.len() <= count,
                forall|k: int| 0 <= k < agg.len() ==> (#[trigger] agg[k])@ == 0,
            decreases count - agg.len(),
        {
            agg.push(Scalar::zero());
        }
        let mut r: usize = 0;
        while r < self.rules.len()
            invariant
                r <= self.rules.len(),
                j < self.outputs.len(),
                count == self.samples(),
                agg.len() == count,
                input_degrees.len() == self.inputs.len(),
                self.fits_inputs(input_degrees@),
                self.fits_output(j as int, curves@),
                forall|q: int| 0 <= q < r ==> self.rule_resolves(&#[trigger] self.rules@[q], j as int),
                forall|k: int|
                    0 <= k < agg.len() ==> (#[trigger] agg[k])@ == self.aggregated(
                        j as int,
                        r as int,
                        k,
                        input_degrees@,
                        curves@,
                    ),
            decreases self.rules.len() - r,
        {
            let rule = &self.rules[r];
            let fire = match self.firing_strength(rule, input_degrees) {
                Ok(fire) => fire,
                Err(e) => {
                    proof {
                        assert(self.is_first_failing_rule(j as int, r as int));
                    }
                    return Err(e);
                },
            };
            if j < rule.consequent.len() {
                let t = match self.outputs[j].position(&rule.consequent[j]) {
                    Some(t) => t,
                    None => {
                        proof {
                            assert(self.is_first_failing_rule(j as int, r as int));
                        }
                        return Err(FisError::TermNotFound(rule.consequent[j].clone()));
                    },
                };
                let curve = &curves[t];
                let mut k: usize = 0;
                while k < count
                    invariant
                        k <= count,
                        r < self.rules.len(),
                        rule == &self.rules@[r as int],
                        j < rule.consequent.len(),
                        agg.len() == count,
                        curve.len() == count,
                        curve == &curves@[t as int],
                        t == position_of(self.outputs@[j as int].terms@, rule.consequent@[j as int]@),
                        fire@ == self.strength(rule, input_degrees@),
                        forall|m: int|
                            0 <= m < k ==> (#[trigger] agg[m])@ == self.aggregated(
                                j as int,
                                r + 1,
                                m,
                                input_degrees@,
                                curves@,
                            ),
                        forall|m: int|
                            k <= m < agg.len() ==> (#[trigger] agg[m])@ == self.aggregated(
                                j as int,
                                r as int,
                                m,
                                input_degrees@,
                                curves@,
                            ),
                    decreases count - k,
                {
                    let clipped = fire.min(curve[k]);
                    if agg[k].lt(clipped) {
                        agg.set(k, clipped);
                    }
                    k += 1;
                }
            }
            r += 1;
        }
        Ok(agg)
    }

    /// Mamdani inference on fuzzified inputs. `input_degrees[i][t]` is the
    /// degree of term `t` of input variable `i` at the crisp input for that
    /// variable; `output_curves[j][t][k]` is the degree of term `t` of output
    /// variable `j` at the k-th sample point of its range. Returns, for each
    /// output variable in the order of declaration, its aggregated
    /// membership curve over the sample points.
    ///
    /// Fails with `InputLen` where the number of fuzzified inputs is not the
    /// number of input variables. Otherwise fails with `TermNotFound` where
    /// some rule, taken for some output variable, names a term that cannot be
    /// found; outputs are taken in order, and the rules in order for each.
    pub fn compute(
        &self,
        fis_type: FisType,
        input_degrees: &Vec<Vec<Scalar>>,
        output_curves: &Vec<Vec<Vec<Scalar>>>,
    ) -> (res: Result<Vec<Vec<Scalar>>, FisError>)
        requires
            self.fits_inputs(input_degrees@),
            self.fits_outputs(output_curves@),
        ensures
            input_degrees.len() != self.inputs.len() ==> (res matches Err(
                FisError::InputLen { expected, got },
            ) && expected == self.inputs.len() && got == input_degrees.len()),
            input_degrees.len() == self.inputs.len() ==> (res is Ok <==> self.resolves()),
            res matches Ok(aggs) ==> aggs.len() == self.outputs.len() && forall|j: int|
                0 <= j < aggs.len() ==> self.is_aggregate(
                    j,
                    (#[trigger] aggs[j])@,
                    input_degrees@,
                    output_curves[j]@,
                ),
            input_degrees.len() == self.inputs.len() ==> (res matches Err(e) ==> (e matches FisError::TermNotFound(
                n,
            ) && self.blames(n@))),
    {
        if input_degrees.len() != self.inputs.len() {
            return Err(
                FisError::InputLen { expected: self.inputs.len(), got: input_degrees.len() },
            );
        }
        match fis_type {
            FisType::Mamdani => {
                let mut aggs: Vec<Vec<Scalar>> = Vec::new();
                let mut j: usize = 0;
                while j < self.outputs.len()
                    invariant
                        j <= self.outputs.len(),
                        aggs.len() == j,
                        input_degrees.len() == self.inputs.len(),
                        self.fits_inputs(input_degrees@),
                        self.fits_outputs(output_curves@),
                        forall|h: int| 0 <= h < j ==> self.output_resolves(h),
                        forall|h: int|
                            0 <= h < aggs.len() ==> self.is_aggregate(
                                h,
                                (#[trigger] aggs[h])@,
                                input_degrees@,
                                output_curves[h]@,
                            ),
                    decreases self.outputs.len() - j,
                {
                    let agg = match self.aggregate(j, input_degrees, &output_curves[j]) {
                        Ok(agg) => agg,
                        Err(e) => {
                            proof {
                                assert(self.is_first_failing_output(j as int));
                            }
                            return Err(e);
                        },
                    };
                    aggs.push(agg);
                    j += 1;
                }
                Ok(aggs)
            },
        }
    }

    /// Summarises crisp outputs. `values[j]` is the crisp value of output
    /// variable `j`; `degrees[j][t]` is the degree of its term `t` at that
    /// value and `kinds[j][t]` a description of that term's shape. Returns one
    /// summary per output variable, in the order of declaration; each names
    /// the term with the strictly greatest degree, the first declared among
    /// equals.
    pub fn compute_verbose(
        &self,
        values: &Vec<Scalar>,
        degrees: &Vec<Vec<Scalar>>,
        kinds: &Vec<Vec<String>>,
    ) -> (res: Vec<OutputResult>)
        requires
            self.fits_readings(values@, degrees@, kinds@),
        ensures
            res.len() == self.outputs.len(),
            forall|j: int|
                0 <= j < res.len() ==> self.outputs@[j].summarizes(
                    #[trigger] res@[j],
                    values@[j],
                    degrees@[j]@,
                    kinds@[j]@,
                ),
    {
        let mut res: Vec<OutputResult> = Vec::new();
        let mut j: usize = 0;
        while j < self.outputs.len()
            invariant
                j <= self.outputs.len(),
                res.len() == j,
                self.fits_readings(values@, degrees@, kinds@),
                forall|h: int|
                    0 <= h < res.len() ==> self.outputs@[h].summarizes(
                        #[trigger] res@[h],
                        values@[h],
                        degrees@[h]@,
                        kinds@[h]@,
                    ),
            decreases self.outputs.len() - j,
        {
            let out = self.outputs[j].summarize(values[j], &degrees[j], &kinds[j]);
            res.push(out);
            j += 1;
        }
        res
    }

    /// Whether the two tables have the shape that `compute` asks for.
    pub fn accepts(&self, input_degrees: &Vec<Vec<Scalar>>, output_curves: &Vec<Vec<Vec<Scalar>>>) -> (r:
        bool)
        ensures
            r == (self.fits_inputs(input_degrees@) && self.fits_outputs(output_curves@)),
    {
        if input_degrees.len() == self.inputs.len() {
            let mut i: usize = 0;
            while i < self.inputs.len()
                invariant
                    i <= self.inputs.len(),
                    input_degrees.len() == self.inputs.len(),
                    forall|h: int|
                        0 <= h < i ==> (#[trigger] input_degrees@[h]).len()
                            == self.inputs[h].terms.len(),
                decreases self.inputs.len() - i,
            {
                if input_degrees[i].len() != self.inputs[i].terms.len() {
                    return false;
                }
                i += 1;
            }
        }
        if output_curves.len() != self.outputs.len() {
            return false;
        }
        let count = self.sample_count();
        let mut j: usize = 0;
        while j < self.outputs.len()
            invariant
                j <= self.outputs.len(),
                count == self.samples(),
                output_curves.len() == self.outputs.len(),
                self.fits_inputs(input_degrees@),
                forall|h: int| 0 <= h < j ==> self.fits_output(h, (#[trigger] output_curves@[h])@),
            decreases self.outputs.len() - j,
        {
            let curves = &output_curves[j];
            if curves.len() != self.outputs[j].terms.len() {
                return false;
            }
            let mut t: usize = 0;
            while t < curves.len()
                invariant
                    t <= curves.len(),
                    j < self.outputs.len(),
                    output_curves.len() == self.outputs.len(),
                    curves == &output_curves@[j as int],
                    curves.len() == self.outputs[j as int].terms.len(),
                    count == self.samples(),
                    forall|u: int| 0 <= u < t ==> (#[trigger] curves@[u]).len() == count,
                decreases curves.len() - t,
            {
                if curves[t].len() != count {
                    return false;
                }
                t += 1;
            }
            j += 1;
        }
        true
    }

    /// Whether the three tables have the shape that `compute_verbose` asks for.
    pub fn accepts_readings(
        &self,
        values: &Vec<Scalar>,
        degrees: &Vec<Vec<Scalar>>,
        kinds: &Vec<Vec<String>>,
    ) -> (r: bool)
        ensures
            r == self.fits_readings(values@, degrees@, kinds@),
    {
        if values.len() != self.outputs.len() || degrees.len() != self.outputs.len() || kinds.len()
            != self.outputs.len() {
            return false;
        }
        let mut j: usize = 0;
        while j < self.outputs.len()
            invariant
                j <= self.outputs.len(),
                values.len() == self.outputs.len(),
                degrees.len() == self.outputs.len(),
                kinds.len() == self.outputs.len(),
                forall|h: int|
                    0 <= h < j ==> (#[trigger] degrees@[h]).len() == self.outputs[h].terms.len(),
                forall|h: int|
                    0 <= h < j ==> (#[trigger] kinds@[h]).len() == self.outputs[h].terms.len(),
            decreases self.outputs.len() - j,
        {
            if degrees[j].len() != self.outputs[j].terms.len() || kinds[j].len()
                != self.outputs[j].terms.len() {
                return false;
            }
            j += 1;
        }
        true
    }
}

} // verus!
