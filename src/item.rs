use vstd::prelude::*;

use crate::error::FormatError;
use crate::text::{chars_of, decimal_value, fields, is_u64, parse_u64, split_fields, views};

verus! {

/// Whether a line is an item line: exactly three fields, each an unsigned
/// integer that fits in a `u64`.
pub open spec fn is_item_line(t: Seq<char>) -> bool {
    let f = fields(t);
    f.len() == 3 && is_u64(f[0]) && is_u64(f[1]) && is_u64(f[2])
}

/// An item of a knapsack instance: an identifier, a value and a weight.
#[derive(Debug, Clone, Copy, PartialEq, Eq, Structural)]
pub struct Item {
    id: u64,
    value: u64,
    weight: u64,
}

impl Item {
    pub closed spec fn spec_id(&self) -> u64 {
        self.id
    }

    pub closed spec fn spec_value(&self) -> u64 {
        self.value
    }

    pub closed spec fn spec_weight(&self) -> u64 {
        self.weight
    }

    /// Whether this item is the one that an item line describes.
    pub open spec fn described_by(&self, t: Seq<char>) -> bool {
        let f = fields(t);
        &&& self.id() == decimal_value(f[0])
        &&& self.value() == decimal_value(f[1])
        &&& self.weight() == decimal_value(f[2])
    }

    pub fn new(id: u64, value: u64, weight: u64) -> (r: Item)
        ensures
            r.id() == id,
            r.value() == value,
            r.weight() == weight,
    {
        Item { id, value, weight }
    }

    #[verifier::when_used_as_spec(spec_id)]
    pub fn id(&self) -> (r: u64)
        ensures
            r == self.id(),
    {
        self.id
    }

    #[verifier::when_used_as_spec(spec_value)]
    pub fn value(&self) -> (r: u64)
        ensures
            r == self.value(),
    {
        self.value
    }

    #[verifier::when_used_as_spec(spec_weight)]
    pub fn weight(&self) -> (r: u64)
        ensures
            r == self.weight(),
    {
        self.weight
    }

    /// Reads an item from a line `<id> <value> <weight>`.
    pub fn parse_line(s: &str) -> (r: Result<Item, FormatError>)
        ensures
            r is Ok <==> is_item_line(s@),
            r matches Ok(item) ==> item.described_by(s@),
            r matches Err(e) ==> e matches FormatError::BadItem(t) && t@ == s@,
    {
        let chars = chars_of(s);
        let f = split_fields(&chars);
        proof {
            assert(views(f@).len() == f@.len());
        }
        if f.len() != 3 {
            return Err(FormatError::BadItem(s.to_owned()));
        }
        proof {
            assert(views(f@)[0] == f@[0]@);
            assert(views(f@)[1] == f@[1]@);
            assert(views(f@)[2] == f@[2]@);
        }
        let id = parse_u64(f[0].as_slice());
        let value = parse_u64(f[1].as_slice());
        let weight = parse_u64(f[2].as_slice());
        match (id, value, weight) {
            (Some(id), Some(value), Some(weight)) => Ok(Item::new(id, value, weight)),
            _ => Err(FormatError::BadItem(s.to_owned())),
        }
    }
}

impl core::str::FromStr for Item {
    type Err = FormatError;

    /// Reads an item from a line `<id> <value> <weight>`, as `parse_line`.
    fn from_str(s: &str) -> (r: Result<Item, FormatError>)
        ensures
            r is Ok <==> is_item_line(s@),
            r matches Ok(item) ==> item.described_by(s@),
            r matches Err(e) ==> e matches FormatError::BadItem(t) && t@ == s@,
    {
        Item::parse_line(s)
    }
}

} // verus!
