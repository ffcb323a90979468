use vstd::prelude::*;

verus! {

/// The score of a candidate choice of items.
///
/// `Overloaded` marks a candidate whose total weight exceeds the capacity;
/// it is worse than every `Score`, `Score(0)` included. Among `Score`s the
/// larger total value is better.
#[derive(Debug, Clone, Copy, PartialEq, Eq, Structural, Ord)]
pub enum CliffScore {
    Overloaded,
    Score(u64),
}

impl CliffScore {
    /// The strict order on scores: `self` is worse than `other`.
    pub open spec fn worse_than(self, other: CliffScore) -> bool {
        match (self, other) {
            (CliffScore::Overloaded, CliffScore::Score(_)) => true,
            (CliffScore::Score(a), CliffScore::Score(b)) => a < b,
            _ => false,
        }
    }

    pub open spec fn cmp_spec(self, other: CliffScore) -> core::cmp::Ordering {
        if self.worse_than(other) {
            core::cmp::Ordering::Less
        } else if other.worse_than(self) {
            core::cmp::Ordering::Greater
        } else {
            core::cmp::Ordering::Equal
        }
    }

    /// Whether `self` is strictly better than `other`.
    pub fn is_better_than(&self, other: &CliffScore) -> (r: bool)
        ensures
            r == other.worse_than(*self),
    {
        match (*self, *other) {
            (CliffScore::Score(_), CliffScore::Overloaded) => true,
            (CliffScore::Score(a), CliffScore::Score(b)) => a > b,
            _ => false,
        }
    }
}

impl Default for CliffScore {
    fn default() -> (r: CliffScore)
        ensures
            r == CliffScore::Overloaded,
    {
        CliffScore::Overloaded
    }
}

impl PartialOrd for CliffScore {
    fn partial_cmp(&self, other: &CliffScore) -> (r: Option<core::cmp::Ordering>)
        ensures
            r == Some(self.cmp_spec(*other)),
    {
        match (*self, *other) {
            (CliffScore::Overloaded, CliffScore::Overloaded) => Some(core::cmp::Ordering::Equal),
            (CliffScore::Overloaded, CliffScore::Score(_)) => Some(core::cmp::Ordering::Less),
            (CliffScore::Score(_), CliffScore::Overloaded) => Some(core::cmp::Ordering::Greater),
            (CliffScore::Score(a), CliffScore::Score(b)) => {
                if a < b {
                    Some(core::cmp::Ordering::Less)
                } else if a > b {
                    Some(core::cmp::Ordering::Greater)
                } else {
                    Some(core::cmp::Ordering::Equal)
                }
            },
        }
    }
}

impl vstd::std_specs::cmp::PartialOrdSpecImpl for CliffScore {
    open spec fn obeys_partial_cmp_spec() -> bool {
        true
    }

    open spec fn partial_cmp_spec(&self, other: &CliffScore) -> Option<core::cmp::Ordering> {
        Some(self.cmp_spec(*other))
    }
}

/// The order on scores is total: of `a < b`, `a == b` and `b < a`
/// exactly one holds.
pub proof fn lemma_order_total(a: CliffScore, b: CliffScore)
    ensures
        a.worse_than(b) || a == b || b.worse_than(a),
        !(a.worse_than(b) && a == b),
        !(a == b && b.worse_than(a)),
        !(a.worse_than(b) && b.worse_than(a)),
{
}

/// The order on scores is transitive.
pub proof fn lemma_order_transitive(a: CliffScore, b: CliffScore, c: CliffScore)
    requires
        a.worse_than(b),
        b.worse_than(c),
    ensures
        a.worse_than(c),
{
}

/// `Overloaded` is worse than every numeric score, zero included.
pub proof fn lemma_overloaded_is_worst(n: u64)
    ensures
        CliffScore::Overloaded.worse_than(CliffScore::Score(n)),
{
}

/// Numeric scores are ordered as their totals.
pub proof fn lemma_scores_ordered_by_value(a: u64, b: u64)
    ensures
        CliffScore::Score(a).worse_than(CliffScore::Score(b)) <==> a < b,
{
}

} // verus!
