use knapsack::tracker::{best_of_generation, record_generation};
use knapsack::{BestInRun, CliffScore, CliffScorer, Item, Knapsack};
use std::cmp::Ordering;
use CliffScore::{Overloaded, Score};

fn example() -> Knapsack {
    Knapsack::new(
        vec![Item::new(1, 5, 8), Item::new(2, 9, 6), Item::new(3, 2, 7)],
        100,
    )
}

#[test]
fn scores_compare_correctly() {
    let cases = [
        (Score(3), Score(5), Ordering::Less),
        (Score(8), Score(5), Ordering::Greater),
        (Score(3), Score(3), Ordering::Equal),
        (Score(3), Overloaded, Ordering::Greater),
        (Overloaded, Score(0), Ordering::Less),
        (Overloaded, Overloaded, Ordering::Equal),
    ];
    for (x, y, expected) in cases {
        assert_eq!(x.cmp(&y), expected);
        assert_eq!(x.partial_cmp(&y), Some(expected));
        assert_eq!(x.is_better_than(&y), expected == Ordering::Greater);
    }
    assert_eq!(CliffScore::default(), Overloaded);
}

#[test]
fn order_is_total_and_transitive() {
    let all = [
        CliffScore::Overloaded,
        CliffScore::Score(0),
        CliffScore::Score(1),
        CliffScore::Score(u64::MAX),
    ];
    for a in all {
        for b in all {
            let n = [a < b, a == b, a > b].iter().filter(|x| **x).count();
            assert_eq!(n, 1);
            for c in all {
                if a < b && b < c {
                    assert!(a < c);
                }
            }
        }
    }
}

#[test]
fn values() {
    let k = example();
    assert_eq!(k.value(&[false, false, false]), 0);
    assert_eq!(k.value(&[false, true, false]), 9);
    assert_eq!(k.value(&[true, false, true]), 7);
    assert_eq!(k.value(&[]), 0);
}

#[test]
fn weights() {
    let k = example();
    assert_eq!(k.weight(&[false, false, false]), 0);
    assert_eq!(k.weight(&[false, true, false]), 6);
    assert_eq!(k.weight(&[true, false, true]), 15);
    assert_eq!(k.weight(&[]), 0);
}

#[test]
fn choices_and_items_pair_up_to_the_shorter() {
    let k = example();
    assert_eq!(k.value(&[true, true]), 14);
    assert_eq!(k.weight(&[true, true]), 14);
    assert_eq!(k.value(&[false, false, true, true, true]), 2);
    assert_eq!(k.weight(&[false, false, true, true, true]), 7);
}

#[test]
fn aggregation_has_no_hidden_state() {
    let k = example();
    let c = [true, true, false];
    assert_eq!(k.value(&c), k.value(&c));
    assert_eq!(k.weight(&c), k.weight(&c));
    assert_eq!(k.value(&c), 14);
}

#[test]
fn sums_fit_check() {
    assert!(example().fits_u64());
    let big = Knapsack::new(vec![Item::new(1, u64::MAX, 1), Item::new(2, 1, 1)], 5);
    assert!(!big.fits_u64());
    let heavy = Knapsack::new(vec![Item::new(1, 1, u64::MAX), Item::new(2, 1, 1)], 5);
    assert!(!heavy.fits_u64());
}

#[test]
fn scoring_cliff() {
    let mut k = example();
    k = Knapsack::new(k.items().to_vec(), 13);
    let scorer = CliffScorer::new(k);
    assert_eq!(scorer.score(&[true, false, true]), CliffScore::Overloaded);
    assert_eq!(scorer.score(&[false, true, false]), CliffScore::Score(9));
    assert_eq!(scorer.score(&[false, false, false]), CliffScore::Score(0));
    assert_eq!(scorer.knapsack().capacity(), 13);
}

#[test]
fn scoring_at_zero_capacity() {
    let k = Knapsack::new(vec![Item::new(1, 4, 0), Item::new(2, 3, 1)], 0);
    let scorer = CliffScorer::new(k);
    assert_eq!(scorer.score(&[]), CliffScore::Score(0));
    assert_eq!(scorer.score(&[true, false]), CliffScore::Score(4));
    assert_eq!(scorer.score(&[false, true]), CliffScore::Overloaded);
}

#[test]
fn scoring_exactly_at_capacity() {
    let k = Knapsack::new(vec![Item::new(1, 4, 6), Item::new(2, 3, 7)], 13);
    let scorer = CliffScorer::new(k);
    assert_eq!(scorer.score(&[true, true]), CliffScore::Score(7));
}

#[test]
fn best_of_generation_picks_first_greatest() {
    assert_eq!(best_of_generation(&[]), None);
    assert_eq!(best_of_generation(&[Overloaded]), Some(0));
    assert_eq!(
        best_of_generation(&[Overloaded, Score(3), Score(7), Score(7), Score(0)]),
        Some(2)
    );
}

#[test]
fn best_ever_is_running_maximum() {
    let gens = [Overloaded, Score(4), Score(2), Overloaded, Score(9), Score(9), Score(1)];
    let expected = [Overloaded, Score(4), Score(4), Score(4), Score(9), Score(9), Score(9)];
    let mut record: BestInRun<usize> = BestInRun::new();
    assert_eq!(record.best_score(), None);
    for (i, s) in gens.iter().enumerate() {
        record.observe(i, *s);
        assert_eq!(record.best_score(), Some(expected[i]));
    }
    assert_eq!(record.into_best(), Some((4, Score(9))));
}

#[test]
fn observing_twice_changes_nothing() {
    let mut record: BestInRun<&str> = BestInRun::new();
    assert!(record.observe("a", CliffScore::Score(3)));
    assert!(!record.observe("b", CliffScore::Score(3)));
    assert!(!record.observe("c", CliffScore::Overloaded));
    assert!(record.observe("d", CliffScore::Score(4)));
    assert_eq!(record.into_best(), Some(("d", CliffScore::Score(4))));
}

#[test]
fn record_generation_offers_first_best_member() {
    let mut record: BestInRun<&str> = BestInRun::new();
    assert_eq!(record_generation(&mut record, vec![]), None);
    assert_eq!(record.best_score(), None);
    let first = vec![("a", Score(2)), ("b", Score(5)), ("c", Score(5)), ("d", Overloaded)];
    assert_eq!(record_generation(&mut record, first), Some(Score(5)));
    let second = vec![("e", Score(4)), ("f", Overloaded)];
    assert_eq!(record_generation(&mut record, second), Some(Score(4)));
    assert_eq!(record_generation(&mut record, vec![]), None);
    let third = vec![("g", Overloaded), ("h", Score(6))];
    assert_eq!(record_generation(&mut record, third), Some(Score(6)));
    assert_eq!(record.into_best(), Some(("h", Score(6))));
}

#[test]
fn record_generation_keeps_record_on_empty_population() {
    let mut record: BestInRun<&str> = BestInRun::new();
    record.observe("a", Score(1));
    assert_eq!(record_generation(&mut record, vec![]), None);
    assert_eq!(record.into_best(), Some(("a", Score(1))));
}
