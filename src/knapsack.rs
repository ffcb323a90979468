use vstd::prelude::*;

use crate::error::FormatError;
use crate::item::{is_item_line, Item};
use crate::text::{chars_of, decimal_value, is_u64, parse_u64};
use vstd::std_specs::iter::IteratorSpec;

verus! {

/// Total value of the chosen items among the first `n` positions.
pub open spec fn value_upto(items: Seq<Item>, choices: Seq<bool>, n: int) -> nat
    decreases n,
{
    if n <= 0 {
        0
    } else {
        value_upto(items, choices, n - 1) + if choices[n - 1] {
            items[n - 1].value() as nat
        } else {
            0
        }
    }
}

/// Total weight of the chosen items among the first `n` positions.
pub open spec fn weight_upto(items: Seq<Item>, choices: Seq<bool>, n: int) -> nat
    decreases n,
{
    if n <= 0 {
        0
    } else {
        weight_upto(items, choices, n - 1) + if choices[n - 1] {
            items[n - 1].weight() as nat
        } else {
            0
        }
    }
}

/// Number of positions at which items and choices are paired: the shorter
/// of the two lengths.
pub open spec fn paired_len(items: Seq<Item>, choices: Seq<bool>) -> int {
    if items.len() <= choices.len() {
        items.len() as int
    } else {
        choices.len() as int
    }
}

/// Sum of the values of the items whose choice bit is set.
pub open spec fn value_of(items: Seq<Item>, choices: Seq<bool>) -> nat {
    value_upto(items, choices, paired_len(items, choices))
}

/// Sum of the weights of the items whose choice bit is set.
pub open spec fn weight_of(items: Seq<Item>, choices: Seq<bool>) -> nat {
    weight_upto(items, choices, paired_len(items, choices))
}

/// The choice that takes every item.
pub open spec fn all_chosen(n: nat) -> Seq<bool> {
    Seq::new(n, |i: int| true)
}

proof fn lemma_sums_grow(items: Seq<Item>, choices: Seq<bool>, j: int, n: int)
    requires
        0 <= j <= n,
    ensures
        value_upto(items, choices, j) <= value_upto(items, choices, n),
        weight_upto(items, choices, j) <= weight_upto(items, choices, n),
    decreases n - j,
{
    if j < n {
        lemma_sums_grow(items, choices, j, n - 1);
    }
}

proof fn lemma_sums_below_total(items: Seq<Item>, choices: Seq<bool>, n: int)
    requires
        0 <= n <= items.len(),
        n <= choices.len(),
    ensures
        value_upto(items, choices, n) <= value_upto(items, all_chosen(items.len()), n),
        weight_upto(items, choices, n) <= weight_upto(items, all_chosen(items.len()), n),
    decreases n,
{
    if n > 0 {
        lemma_sums_below_total(items, choices, n - 1);
    }
}

/// Whatever is chosen, the chosen total is at most the total of all items.
pub proof fn lemma_chosen_at_most_all(items: Seq<Item>, choices: Seq<bool>)
    ensures
        value_of(items, choices) <= value_of(items, all_chosen(items.len())),
        weight_of(items, choices) <= weight_of(items, all_chosen(items.len())),
{
    let n = paired_len(items, choices);
    lemma_sums_below_total(items, choices, n);
    lemma_sums_grow(items, all_chosen(items.len()), n, items.len() as int);
}

/// When nothing is chosen (in particular for an empty choice), the chosen
/// value and weight are zero.
pub proof fn lemma_nothing_chosen(items: Seq<Item>, choices: Seq<bool>)
    requires
        forall|i: int| 0 <= i < choices.len() ==> !choices[i],
    ensures
        value_of(items, choices) == 0,
        weight_of(items, choices) == 0,
{
    lemma_nothing_chosen_upto(items, choices, paired_len(items, choices));
}

proof fn lemma_nothing_chosen_upto(items: Seq<Item>, choices: Seq<bool>, n: int)
    requires
        n <= choices.len(),
        forall|i: int| 0 <= i < choices.len() ==> !choices[i],
    ensures
        value_upto(items, choices, n) == 0,
        weight_upto(items, choices, n) == 0,
    decreases n,
{
    if n > 0 {
        lemma_nothing_chosen_upto(items, choices, n - 1);
    }
}

/// The sums depend on nothing but the items and the choices: two knapsacks
/// with the same items give the same value and weight for the same choices.
pub proof fn lemma_sums_determined(a: Knapsack, b: Knapsack, choices: Seq<bool>)
    requires
        a.spec_items() == b.spec_items(),
    ensures
        a.value_of(choices) == b.value_of(choices),
        a.weight_of(choices) == b.weight_of(choices),
{
}

/// The text of each line.
pub open spec fn line_texts(lines: Seq<String>) -> Seq<Seq<char>> {
    lines.map_values(|l: String| l@)
}

/// The number of items that the first line declares.
pub open spec fn declared_count(ls: Seq<Seq<char>>) -> int {
    decimal_value(ls[0]) as int
}

/// Every line from the second up to (not including) line `k` is an item line.
pub open spec fn item_lines_before(ls: Seq<Seq<char>>, k: int) -> bool {
    forall|j: int| 1 <= j < k ==> is_item_line(#[trigger] ls[j])
}

/// The lines describe an instance: a count `n`, `n` item lines and a
/// capacity line, with anything after that ignored.
pub open spec fn is_instance(ls: Seq<Seq<char>>) -> bool {
    let n = declared_count(ls);
    &&& ls.len() > 0
    &&& is_u64(ls[0])
    &&& ls.len() > n + 1
    &&& item_lines_before(ls, n + 1)
    &&& is_u64(ls[n + 1])
}

/// The error that reading the lines gives, stated for each kind.
pub open spec fn load_error(ls: Seq<Seq<char>>, e: FormatError) -> bool {
    let n = declared_count(ls);
    match e {
        FormatError::EmptyInput => ls.len() == 0,
        FormatError::BadItemCount(t) => ls.len() > 0 && !is_u64(ls[0]) && t@ == ls[0],
        FormatError::BadItem(t) => {
            &&& ls.len() > 0
            &&& is_u64(ls[0])
            &&& exists|k: int|
                1 <= k <= n && k < ls.len() && item_lines_before(ls, k) && !is_item_line(
                    #[trigger] ls[k],
                ) && t@ == ls[k]
        },
        FormatError::MissingItems { expected, found } => {
            &&& ls.len() > 0
            &&& is_u64(ls[0])
            &&& ls.len() <= n
            &&& item_lines_before(ls, ls.len() as int)
            &&& expected == n
            &&& found == ls.len() - 1
        },
        FormatError::MissingCapacity => {
            &&& ls.len() > 0
            &&& is_u64(ls[0])
            &&& ls.len() == n + 1
            &&& item_lines_before(ls, n + 1)
        },
        FormatError::BadCapacity(t) => {
            &&& ls.len() > 0
            &&& is_u64(ls[0])
            &&& ls.len() > n + 1
            &&& item_lines_before(ls, n + 1)
            &&& !is_u64(ls[n + 1])
            &&& t@ == ls[n + 1]
        },
    }
}

/// A knapsack instance: the items to choose from, in order, and the
/// capacity, the largest total weight that the knapsack holds.
#[derive(Debug)]
pub struct Knapsack {
    items: Vec<Item>,
    capacity: u64,
}

impl Knapsack {
    pub closed spec fn spec_items(&self) -> Seq<Item> {
        self.items@
    }

    pub closed spec fn spec_capacity(&self) -> u64 {
        self.capacity
    }

    /// Sum of the values of the items chosen by `choices`.
    pub open spec fn value_of(&self, choices: Seq<bool>) -> nat {
        value_of(self.spec_items(), choices)
    }

    /// Sum of the weights of the items chosen by `choices`.
    pub open spec fn weight_of(&self, choices: Seq<bool>) -> nat {
        weight_of(self.spec_items(), choices)
    }

    /// Every sum over a choice of this knapsack's items fits in a `u64`.
    pub open spec fn sums_fit(&self) -> bool {
        &&& self.value_of(all_chosen(self.spec_items().len())) <= u64::MAX
        &&& self.weight_of(all_chosen(self.spec_items().len())) <= u64::MAX
    }

    pub fn new(items: Vec<Item>, capacity: u64) -> (r: Knapsack)
        ensures
            r.spec_items() == items@,
            r.capacity() == capacity,
    {
        Knapsack { items, capacity }
    }

    pub fn items(&self) -> (r: &[Item])
        ensures
            r@ == self.spec_items(),
    {
        self.items.as_slice()
    }

    pub fn num_items(&self) -> (r: usize)
        ensures
            r == self.spec_items().len(),
    {
        self.items.len()
    }

    /// The item at `index`, or `None` when `index` is out of range.
    pub fn get_item(&self, index: usize) -> (r: Option<&Item>)
        ensures
            index < self.spec_items().len() ==> r == Some(&self.spec_items()[index as int]),
            index >= self.spec_items().len() ==> r is None,
    {
        if index < self.items.len() {
            Some(&self.items[index])
        } else {
            None
        }
    }

    /// The items in order.
    pub fn iter(&self) -> (r: core::slice::Iter<'_, Item>)
        ensures
            r.remaining() == self.spec_items().as_ref(),
    {
        let r = self.items.iter();
        proof {
            broadcast use vstd::std_specs::slice::axiom_spec_slice_iter;
        }
        r
    }

    #[verifier::when_used_as_spec(spec_capacity)]
    pub fn capacity(&self) -> (r: u64)
        ensures
            r == self.capacity(),
    {
        self.capacity
    }

    /// Whether every choice of items has a total value and a total weight
    /// that fit in a `u64`.
    pub fn fits_u64(&self) -> (r: bool)
        ensures
            r == self.sums_fit(),
            r ==> forall|c: Seq<bool>| #[trigger] self.value_of(c) <= u64::MAX,
            r ==> forall|c: Seq<bool>| #[trigger] self.weight_of(c) <= u64::MAX,
    {
        let ghost all = all_chosen(self.items@.len());
        let mut v: u64 = 0;
        let mut w: u64 = 0;
        let mut i: usize = 0;
        while i < self.items.len()
            invariant
                i <= self.items.len(),
                all == all_chosen(self.items@.len()),
                v == value_upto(self.items@, all, i as int),
                w == weight_upto(self.items@, all, i as int),
            decreases self.items.len() - i,
        {
            proof {
                lemma_sums_grow(self.items@, all, i + 1, self.items@.len() as int);
            }
            let item = self.items[i];
            match (v.checked_add(item.value()), w.checked_add(item.weight())) {
                (Some(nv), Some(nw)) => {
                    v = nv;
                    w = nw;
                },
                _ => {
                    return false;
                },
            }
            i = i + 1;
        }
        proof {
            assert(paired_len(self.items@, all) == self.items@.len());
            assert(self.value_of(all) == v && self.weight_of(all) == w);
            assert forall|c: Seq<bool>| #[trigger] self.value_of(c) <= u64::MAX by {
                lemma_chosen_at_most_all(self.items@, c);
            }
            assert forall|c: Seq<bool>| #[trigger] self.weight_of(c) <= u64::MAX by {
                lemma_chosen_at_most_all(self.items@, c);
            }
        }
        true
    }

    /// Reads an instance from the lines of its text form: a line with the
    /// item count `n`, `n` item lines `<id> <value> <weight>`, then a line
    /// with the capacity. Lines after the capacity line are ignored.
    pub fn from_lines(lines: &[String]) -> (r: Result<Knapsack, FormatError>)
        ensures
            r is Ok <==> is_instance(line_texts(lines@)),
            r matches Ok(k) ==> {
                let ls = line_texts(lines@);
                let n = declared_count(ls);
                &&& k.spec_items().len() == n
                &&& forall|j: int| 0 <= j < n ==> #[trigger] k.spec_items()[j].described_by(ls[j + 1])
                &&& k.capacity() == decimal_value(ls[n + 1])
            },
            r matches Err(e) ==> load_error(line_texts(lines@), e),
    {
        let ghost ls = line_texts(lines@);
        if lines.len() == 0 {
            return Err(FormatError::EmptyInput);
        }
        proof {
            assert(ls[0] == lines@[0]@);
        }
        let head = chars_of(lines[0].as_str());
        let n: u64 = match parse_u64(head.as_slice()) {
            Some(n) => n,
            None => {
                return Err(FormatError::BadItemCount(lines[0].clone()));
            },
        };
        let mut items: Vec<Item> = Vec::new();
        let mut i: usize = 1;
        while (items.len() as u64) < n
            invariant
                ls == line_texts(lines@),
                lines@.len() > 0,
                is_u64(ls[0]),
                n == declared_count(ls),
                items.len() + 1 == i,
                items.len() <= n,
                i <= lines.len(),
                item_lines_before(ls, i as int),
                forall|j: int| 0 <= j < items.len() ==> #[trigger] items@[j].described_by(ls[j + 1]),
            decreases n - items.len(),
        {
            if i >= lines.len() {
                return Err(FormatError::MissingItems { expected: n, found: (lines.len() - 1) as u64 });
            }
            proof {
                assert(ls[i as int] == lines@[i as int]@);
            }
            let item = match Item::parse_line(lines[i].as_str()) {
                Ok(item) => item,
                Err(e) => {
                    proof {
                        assert(1 <= i <= n && i < ls.len() && item_lines_before(ls, i as int)
                            && !is_item_line(ls[i as int]));
                    }
                    return Err(e);
                },
            };
            items.push(item);
            i = i + 1;
        }
        if i >= lines.len() {
            return Err(FormatError::MissingCapacity);
        }
        proof {
            assert(ls[i as int] == lines@[i as int]@);
        }
        let last = chars_of(lines[i].as_str());
        match parse_u64(last.as_slice()) {
            Some(capacity) => Ok(Knapsack { items, capacity }),
            None => Err(FormatError::BadCapacity(lines[i].clone())),
        }
    }

    /// Total value of the items whose choice bit is set. Items and bits are
    /// paired position by position up to the shorter of the two.
    pub fn value(&self, choices: &[bool]) -> (r: u64)
        requires
            self.value_of(choices@) <= u64::MAX,
        ensures
            r == self.value_of(choices@),
    {
        let n: usize = if self.items.len() <= choices.len() {
            self.items.len()
        } else {
            choices.len()
        };
        let mut total: u64 = 0;
        let mut i: usize = 0;
        while i < n
            invariant
                i <= n,
                n == paired_len(self.items@, choices@),
                self.value_of(choices@) <= u64::MAX,
                total == value_upto(self.items@, choices@, i as int),
            decreases n - i,
        {
            proof {
                lemma_sums_grow(self.items@, choices@, i + 1, n as int);
            }
            if choices[i] {
                total = total + self.items[i].value();
            }
            i = i + 1;
        }
        total
    }

    /// Total weight of the items whose choice bit is set. Items and bits are
    /// paired position by position up to the shorter of the two.
    pub fn weight(&self, choices: &[bool]) -> (r: u64)
        requires
            self.weight_of(choices@) <= u64::MAX,
        ensures
            r == self.weight_of(choices@),
    {
        let n: usize = if self.items.len() <= choices.len() {
            self.items.len()
        } else {
            choices.len()
        };
        let mut total: u64 = 0;
        let mut i: usize = 0;
        while i < n
            invariant
                i <= n,
                n == paired_len(self.items@, choices@),
                self.weight_of(choices@) <= u64::MAX,
                total == weight_upto(self.items@, choices@, i as int),
            decreases n - i,
        {
            proof {
                lemma_sums_grow(self.items@, choices@, i + 1, n as int);
            }
            if choices[i] {
                total = total + self.items[i].weight();
            }
            i = i + 1;
        }
        total
    }
}

} // verus!
