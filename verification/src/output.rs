//! What the engine reports for one output variable.

use crate::scalar::{one_rank, Scalar};
use crate::variable::Range;
use vstd::prelude::*;
use vstd::string::StringExecFns;

verus! {

/// The summary of one output variable after inference: its name and range,
/// the crisp value, and the term that matches the value best together with
/// a description of that term's shape.
#[derive(Debug)]
pub struct OutputResult {
    pub variable_name: String,
    pub range: Range,
    pub value: Vec<Scalar>,
    pub best_term: Option<String>,
    pub term_kind: Option<String>,
}

impl OutputResult {
    /// The sentence that describes the result, given its numbers as text:
    /// the variable, the value (`NaN` where the result holds none) and the
    /// range, followed by the best term and its shape where both are known.
    pub open spec fn description(&self, value: Seq<char>, min: Seq<char>, max: Seq<char>) -> Seq<
        char,
    > {
        let shown = if self.value@.len() > 0 {
            value
        } else {
            "NaN"@
        };
        let head = self.variable_name@ + " = "@ + shown + " in range ["@ + min + ", "@ + max
            + "]"@;
        match (self.best_term, self.term_kind) {
            (Some(term), Some(kind)) => head + " → term '"@ + term@ + "' ("@ + kind@ + ")"@,
            _ => head,
        }
    }

    /// Describes the result in one sentence. `value`, `min` and `max` are
    /// the first value of the result and the bounds of its range, as the
    /// caller wants them printed.
    pub fn describe(&self, value: &str, min: &str, max: &str) -> (text: String)
        ensures
            text@ == self.description(value@, min@, max@),
    {
        let mut text = self.variable_name.clone();
        text.append(" = ");
        if self.value.len() > 0 {
            text.append(value);
        } else {
            text.append("NaN");
        }
        text.append(" in range [");
        text.append(min);
        text.append(", ");
        text.append(max);
        text.append("]");
        match (&self.best_term, &self.term_kind) {
            (Some(term), Some(kind)) => {
                text.append(" → term '");
                text.append(term.as_str());
                text.append("' (");
                text.append(kind.as_str());
                text.append(")");
            },
            _ => {},
        }
        text
    }
}

/// Position `i` holds the best of `degrees`: a degree above minus one that
/// is strictly greater than every earlier one and at least every later one.
pub open spec fn is_best(degrees: Seq<Scalar>, i: int) -> bool {
    &&& 0 <= i < degrees.len()
    &&& degrees[i]@ > -one_rank()
    &&& forall|j: int| 0 <= j < i ==> (#[trigger] degrees[j])@ < degrees[i]@
    &&& forall|j: int| i < j < degrees.len() ==> (#[trigger] degrees[j])@ <= degrees[i]@
}

/// No position of `degrees` holds a degree above minus one.
pub open spec fn none_matches(degrees: Seq<Scalar>) -> bool {
    forall|j: int| 0 <= j < degrees.len() ==> (#[trigger] degrees[j])@ <= -one_rank()
}

/// At most one position is the best, and there is one exactly when some
/// degree lies above minus one.
pub proof fn lemma_best_is_unique(degrees: Seq<Scalar>, i: int, j: int)
    requires
        is_best(degrees, i),
    ensures
        !none_matches(degrees),
        is_best(degrees, j) ==> i == j,
{
    assert(degrees[i]@ > -one_rank());
    if is_best(degrees, j) {
        if i < j {
            assert(degrees[i]@ < degrees[j]@);
            assert(degrees[j]@ <= degrees[i]@);
        }
        if j < i {
            assert(degrees[j]@ < degrees[i]@);
            assert(degrees[i]@ <= degrees[j]@);
        }
    }
}

/// Where some degree lies above minus one, some position is the best.
pub proof fn lemma_best_exists(degrees: Seq<Scalar>)
    requires
        !none_matches(degrees),
    ensures
        exists|i: int| is_best(degrees, i),
    decreases degrees.len(),
{
    let last = degrees.len() - 1;
    let init = degrees.drop_last();
    if none_matches(init) {
        assert forall|j: int| 0 <= j < last implies (#[trigger] degrees[j])@ <= -one_rank() by {
            assert(init[j] == degrees[j]);
        }
        assert(is_best(degrees, last));
    } else {
        lemma_best_exists(init);
        let i = choose|i: int| is_best(init, i);
        assert(init[i] == degrees[i]);
        if degrees[last]@ > degrees[i]@ {
            assert forall|j: int| 0 <= j < last implies (#[trigger] degrees[j])@
                < degrees[last]@ by {
                assert(init[j] == degrees[j]);
                if j < i {
                    assert(init[j]@ < init[i]@);
                } else if j > i {
                    assert(init[j]@ <= init[i]@);
                }
            }
            assert(is_best(degrees, last));
        } else {
            assert forall|j: int| 0 <= j < i implies (#[trigger] degrees[j])@ < degrees[i]@ by {
                assert(init[j] == degrees[j]);
                assert(init[j]@ < init[i]@);
            }
            assert forall|j: int| i < j < degrees.len() implies (#[trigger] degrees[j])@
                <= degrees[i]@ by {
                if j < last {
                    assert(init[j] == degrees[j]);
                    assert(init[j]@ <= init[i]@);
                }
            }
            assert(is_best(degrees, i));
        }
    }
}

/// The position of the greatest degree, the first one among equals; `None`
/// where no degree lies above minus one.
pub fn best_match(degrees: &Vec<Scalar>) -> (r: Option<usize>)
    ensures
        r is None <==> none_matches(degrees@),
        r matches Some(i) ==> is_best(degrees@, i as int),
{
    let mut best: Option<usize> = None;
    let mut best_degree = Scalar::minus_one();
    let mut j: usize = 0;
    while j < degrees.len()
        invariant
            j <= degrees.len(),
            best is None ==> best_degree@ == -one_rank(),
            best is None ==> none_matches(degrees@.take(j as int)),
            best matches Some(i) ==> i < j && best_degree == degrees@[i as int] && is_best(
                degrees@.take(j as int),
                i as int,
            ),
        decreases degrees.len() - j,
    {
        let ghost before = degrees@.take(j as int);
        let ghost after = degrees@.take(j + 1);
        if best_degree.lt(degrees[j]) {
            proof {
                assert forall|m: int| 0 <= m < j implies (#[trigger] after[m])@ < after[j as int]@ by {
                    assert(after[m] == before[m]);
                    if let Some(i) = best {
                        if m < i {
                            assert(before[m]@ < before[i as int]@);
                        } else if m > i {
                            assert(before[m]@ <= before[i as int]@);
                        }
                    }
                }
            }
            best_degree = degrees[j];
            best = Some(j);
        } else {
            proof {
                if let Some(i) = best {
                    assert forall|m: int| 0 <= m < i implies (#[trigger] after[m])@ < after[i as int]@ by {
                        assert(after[m] == before[m]);
                    }
                    assert forall|m: int| i < m < after.len() implies (#[trigger] after[m])@
                        <= after[i as int]@ by {
                        if m < j {
                            assert(after[m] == before[m]);
                        }
                    }
                } else {
                    assert forall|m: int| 0 <= m < after.len() implies (#[trigger] after[m])@
                        <= -one_rank() by {
                        if m < j {
                            assert(after[m] == before[m]);
                        }
                    }
                }
            }
        }
        j += 1;
    }
    proof {
        assert(degrees@.take(j as int) =~= degrees@);
        if let Some(i) = best {
            lemma_best_is_unique(degrees@, i as int, i as int);
        }
    }
    best
}

} // verus!
