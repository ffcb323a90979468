use vstd::prelude::*;

use crate::cliff_score::CliffScore;
use crate::knapsack::Knapsack;

verus! {

/// The cliff score of a choice: `Overloaded` when the chosen weight exceeds
/// the capacity, the chosen value otherwise.
pub open spec fn cliff_score_of(k: &Knapsack, choices: Seq<bool>) -> CliffScore {
    if k.weight_of(choices) > k.capacity() {
        CliffScore::Overloaded
    } else {
        CliffScore::Score(k.value_of(choices) as u64)
    }
}

/// Scores choices of items against one knapsack instance with a hard
/// capacity threshold: no partial credit for an overloaded choice.
#[derive(Debug)]
pub struct CliffScorer {
    knapsack: Knapsack,
}

impl CliffScorer {
    pub closed spec fn spec_knapsack(&self) -> &Knapsack {
        &self.knapsack
    }

    pub fn new(knapsack: Knapsack) -> (r: CliffScorer)
        ensures
            *r.spec_knapsack() == knapsack,
    {
        CliffScorer { knapsack }
    }

    pub fn knapsack(&self) -> (r: &Knapsack)
        ensures
            *r == *self.spec_knapsack(),
    {
        &self.knapsack
    }

    /// The score of `choices`. The sums are taken only as far as they are
    /// needed: the value only of a choice within the capacity.
    pub fn score(&self, choices: &[bool]) -> (r: CliffScore)
        requires
            self.spec_knapsack().weight_of(choices@) <= u64::MAX,
            self.spec_knapsack().weight_of(choices@) <= self.spec_knapsack().capacity()
                ==> self.spec_knapsack().value_of(choices@) <= u64::MAX,
        ensures
            r == cliff_score_of(self.spec_knapsack(), choices@),
    {
        let total_weight = self.knapsack.weight(choices);
        if total_weight > self.knapsack.capacity() {
            CliffScore::Overloaded
        } else {
            CliffScore::Score(self.knapsack.value(choices))
        }
    }
}

} // verus!
