use vstd::prelude::*;

use crate::cliff_score::CliffScore;

verus! {

/// The best score after one more generation whose best score is `s`:
/// replaced only by a strictly better score.
pub open spec fn updated(prev: Option<CliffScore>, s: CliffScore) -> Option<CliffScore> {
    match prev {
        None => Some(s),
        Some(b) => if b.worse_than(s) {
            Some(s)
        } else {
            Some(b)
        },
    }
}

/// Whether a record holding `prev` is set or replaced by a generation whose
/// best score is `s`.
pub open spec fn replaces(prev: Option<CliffScore>, s: CliffScore) -> bool {
    match prev {
        None => true,
        Some(b) => b.worse_than(s),
    }
}

/// The scores of a population's members.
pub open spec fn scores_of<T>(population: Seq<(T, CliffScore)>) -> Seq<CliffScore> {
    population.map_values(|m: (T, CliffScore)| m.1)
}

/// `i` is the first member with the greatest score.
pub open spec fn is_first_best(scores: Seq<CliffScore>, i: int) -> bool {
    &&& 0 <= i < scores.len()
    &&& forall|j: int| 0 <= j < scores.len() ==> !scores[i].worse_than(#[trigger] scores[j])
    &&& forall|j: int| 0 <= j < i ==> #[trigger] scores[j].worse_than(scores[i])
}

/// The recorded best score after generations with best scores `scores`.
pub open spec fn best_after(scores: Seq<CliffScore>) -> Option<CliffScore>
    decreases scores.len(),
{
    if scores.len() == 0 {
        None
    } else {
        updated(best_after(scores.drop_last()), scores.last())
    }
}

/// `m` is a greatest element of `scores` under the score order.
pub open spec fn is_max(m: CliffScore, scores: Seq<CliffScore>) -> bool {
    &&& scores.contains(m)
    &&& forall|j: int| 0 <= j < scores.len() ==> !m.worse_than(#[trigger] scores[j])
}

/// After the first `i` generations the recorded best score is the greatest
/// of their best scores.
pub proof fn lemma_best_after_is_max(scores: Seq<CliffScore>, i: int)
    requires
        0 < i <= scores.len(),
    ensures
        best_after(scores.take(i)) matches Some(m) && is_max(m, scores.take(i)),
    decreases i,
{
    let s = scores.take(i);
    assert(s.drop_last() =~= scores.take(i - 1));
    if i == 1 {
        assert(s[0] == s.last());
    } else {
        lemma_best_after_is_max(scores, i - 1);
        let p = scores.take(i - 1);
        let b = best_after(p)->0;
        let m = best_after(s)->0;
        if b.worse_than(s.last()) {
            assert(s.contains(m)) by {
                assert(s[i - 1] == m);
            }
            assert forall|j: int| 0 <= j < s.len() implies !m.worse_than(#[trigger] s[j]) by {
                if j < i - 1 {
                    assert(s[j] == p[j]);
                }
            }
        } else {
            let k = choose|k: int| 0 <= k < p.len() && p[k] == b;
            assert(s[k] == b);
            assert forall|j: int| 0 <= j < s.len() implies !m.worse_than(#[trigger] s[j]) by {
                if j < i - 1 {
                    assert(s[j] == p[j]);
                }
            }
        }
    }
}

/// Recording the same generation best twice changes nothing the second time.
pub proof fn lemma_update_idempotent(prev: Option<CliffScore>, s: CliffScore)
    ensures
        updated(updated(prev, s), s) == updated(prev, s),
{
}

/// The recorded best never gets worse.
pub proof fn lemma_update_monotone(b: CliffScore, s: CliffScore)
    ensures
        updated(Some(b), s) matches Some(n) && !n.worse_than(b),
{
}

/// The index of the first member with the greatest score, or `None` for an
/// empty population.
pub fn best_of_generation(scores: &[CliffScore]) -> (r: Option<usize>)
    ensures
        r is None <==> scores@.len() == 0,
        r matches Some(i) ==> {
            &&& i < scores@.len()
            &&& forall|j: int| 0 <= j < scores@.len() ==> !scores@[i as int].worse_than(
                #[trigger] scores@[j],
            )
            &&& forall|j: int| 0 <= j < i ==> #[trigger] scores@[j].worse_than(scores@[i as int])
        },
{
    if scores.len() == 0 {
        return None;
    }
    let mut best: usize = 0;
    let mut i: usize = 1;
    while i < scores.len()
        invariant
            0 <= best < i <= scores.len(),
            forall|j: int| 0 <= j < i ==> !scores@[best as int].worse_than(#[trigger] scores@[j]),
            forall|j: int| 0 <= j < best ==> #[trigger] scores@[j].worse_than(scores@[best as int]),
        decreases scores.len() - i,
    {
        if scores[i].is_better_than(&scores[best]) {
            best = i;
        }
        i = i + 1;
    }
    Some(best)
}

/// The bookkeeping of one generation: picks the first member with the
/// greatest score and offers it to the best-ever record. Returns that score,
/// or `None` for an empty population, which leaves the record as it was.
pub fn record_generation<T>(best_in_run: &mut BestInRun<T>, population: Vec<(T, CliffScore)>) -> (r:
    Option<CliffScore>)
    ensures
        r is None <==> population@.len() == 0,
        r is None ==> final(best_in_run).spec_best() == old(best_in_run).spec_best(),
        r matches Some(s) ==> exists|i: int|
            #![trigger population@[i]]
            {
                &&& is_first_best(scores_of(population@), i)
                &&& s == population@[i].1
                &&& final(best_in_run).spec_best() == if replaces(
                    old(best_in_run).spec_best_score(),
                    s,
                ) {
                    Some(population@[i])
                } else {
                    old(best_in_run).spec_best()
                }
            },
{
    let ghost pop = population@;
    let mut scores: Vec<CliffScore> = Vec::new();
    let mut k: usize = 0;
    while k < population.len()
        invariant
            k <= population@.len(),
            scores@ =~= scores_of(population@).take(k as int),
        decreases population.len() - k,
    {
        scores.push(population[k].1);
        k = k + 1;
    }
    assert(scores@ =~= scores_of(pop));
    match best_of_generation(scores.as_slice()) {
        None => None,
        Some(i) => {
            let mut population = population;
            let (candidate, score) = population.swap_remove(i);
            assert(scores@[i as int] == pop[i as int].1);
            best_in_run.observe(candidate, score);
            assert(is_first_best(scores_of(pop), i as int));
            Some(score)
        },
    }
}

/// The best candidate seen over a whole run, with its score.
#[derive(Debug)]
pub struct BestInRun<T> {
    best: Option<(T, CliffScore)>,
}

impl<T> BestInRun<T> {
    pub closed spec fn spec_best(&self) -> Option<(T, CliffScore)> {
        self.best
    }

    pub open spec fn spec_best_score(&self) -> Option<CliffScore> {
        match self.spec_best() {
            None => None,
            Some(b) => Some(b.1),
        }
    }

    /// A record with nothing seen yet.
    pub fn new() -> (r: BestInRun<T>)
        ensures
            r.spec_best() is None,
    {
        BestInRun { best: None }
    }

    /// Takes the best candidate of one generation and its score. The record
    /// is set when empty and replaced when the score is strictly better;
    /// otherwise it is kept. Returns whether the record was set or replaced.
    pub fn observe(&mut self, candidate: T, score: CliffScore) -> (replaced: bool)
        ensures
            replaced == replaces(old(self).spec_best_score(), score),
            replaced ==> final(self).spec_best() == Some((candidate, score)),
            !replaced ==> final(self).spec_best() == old(self).spec_best(),
            final(self).spec_best_score() == updated(old(self).spec_best_score(), score),
    {
        let replace = match &self.best {
            None => true,
            Some(b) => score.is_better_than(&b.1),
        };
        if replace {
            self.best = Some((candidate, score));
        }
        replace
    }

    /// The score of the recorded candidate, if any.
    pub fn best_score(&self) -> (r: Option<CliffScore>)
        ensures
            r == self.spec_best_score(),
    {
        match &self.best {
            None => None,
            Some(b) => Some(b.1),
        }
    }

    /// Gives up the record, returning the recorded candidate and its score.
    pub fn into_best(self) -> (r: Option<(T, CliffScore)>)
        ensures
            r == self.spec_best(),
    {
        self.best
    }
}

} // verus!
