//! The number of nodes that decoding one stored query may make.

use vstd::prelude::*;

use crate::stored_query::MAX_STORED_QUERY_DECODE_ITEMS;

verus! {

/// The nodes that may still be decoded. Outside of a stored query there is no bound.
#[derive(Clone, Copy, Debug, PartialEq, Eq, Structural)]
pub struct DecodeBudget {
    pub remaining: Option<usize>,
}

impl DecodeBudget {
    /// The budget after that many more nodes, unless they are too many.
    pub open spec fn less(self, units: nat) -> Option<DecodeBudget> {
        match self.remaining {
            Some(remaining) => if units <= remaining {
                Some(DecodeBudget { remaining: Some((remaining - units) as usize) })
            } else {
                None
            },
            None => Some(self),
        }
    }

    /// No query is being decoded.
    pub fn unbounded() -> (budget: Self)
        ensures
            budget.remaining is None,
    {
        DecodeBudget { remaining: None }
    }

    /// Starts a query: a query inside another one shares the budget of the outer one.
    /// Tells whether this is the outermost one.
    pub fn enter_query(&mut self) -> (outermost: bool)
        ensures
            outermost == (old(self).remaining is None),
            final(self).remaining == Some(
                match old(self).remaining {
                    Some(remaining) => remaining,
                    None => MAX_STORED_QUERY_DECODE_ITEMS,
                },
            ),
    {
        if self.remaining.is_some() {
            return false;
        }
        self.remaining = Some(MAX_STORED_QUERY_DECODE_ITEMS);
        true
    }

    /// Counts nodes, and tells whether the budget allows them.
    pub fn consume(&mut self, units: usize) -> (allowed: bool)
        ensures
            match old(self).less(units as nat) {
                Some(rest) => allowed && *final(self) == rest,
                None => !allowed && *final(self) == *old(self),
            },
    {
        match self.remaining {
            Some(remaining) => {
                if units > remaining {
                    return false;
                }
                self.remaining = Some(remaining - units);
                true
            },
            None => true,
        }
    }

    /// Two counts are allowed one after the other exactly where their sum is allowed.
    pub proof fn counts_add_up(self, first: nat, second: nat)
        ensures
            match self.less(first) {
                Some(rest) => rest.less(second) == self.less(first + second),
                None => self.less(first + second) is None,
            },
    {
    }
}

} // verus!
