//! Positions on the ledger's time axis.

use std::cmp::Ordering;
use vstd::prelude::*;
use vstd::std_specs::cmp::PartialOrdSpecImpl;

verus! {

/// A slot of an epoch. Dates are ordered by epoch first, then by slot.
#[derive(Debug, Clone, Copy, PartialEq, Eq, Structural, Ord, Hash)]
pub struct BlockDate {
    pub epoch: u32,
    pub slot_id: u32,
}

impl BlockDate {
    /// `self` comes strictly before `other`.
    pub open spec fn is_before(self, other: BlockDate) -> bool {
        self.epoch < other.epoch || (self.epoch == other.epoch && self.slot_id < other.slot_id)
    }

    /// `self` comes before `other` or is the same date.
    pub open spec fn is_at_or_before(self, other: BlockDate) -> bool {
        self.is_before(other) || self == other
    }
}

impl PartialOrd for BlockDate {
    fn partial_cmp(&self, other: &BlockDate) -> (r: Option<Ordering>) {
        if self.epoch < other.epoch {
            Some(Ordering::Less)
        } else if self.epoch > other.epoch {
            Some(Ordering::Greater)
        } else if self.slot_id < other.slot_id {
            Some(Ordering::Less)
        } else if self.slot_id > other.slot_id {
            Some(Ordering::Greater)
        } else {
            Some(Ordering::Equal)
        }
    }
}

impl PartialOrdSpecImpl for BlockDate {
    open spec fn obeys_partial_cmp_spec() -> bool {
        true
    }

    open spec fn partial_cmp_spec(&self, other: &BlockDate) -> Option<Ordering> {
        if self.is_before(*other) {
            Some(Ordering::Less)
        } else if other.is_before(*self) {
            Some(Ordering::Greater)
        } else {
            Some(Ordering::Equal)
        }
    }
}

/// The order of dates is total: of two dates one comes before the other, or
/// they are the same date, and never two of these at once.
pub proof fn lemma_block_date_order_total(a: BlockDate, b: BlockDate)
    ensures
        a.is_before(b) || b.is_before(a) || a == b,
        !(a.is_before(b) && b.is_before(a)),
        !(a.is_before(b) && a == b),
        a.is_at_or_before(b) <==> !b.is_before(a),
{
}

/// The order of dates is transitive.
pub proof fn lemma_block_date_order_transitive(a: BlockDate, b: BlockDate, c: BlockDate)
    ensures
        a.is_before(b) && b.is_before(c) ==> a.is_before(c),
        a.is_at_or_before(b) && b.is_at_or_before(c) ==> a.is_at_or_before(c),
{
}

} // verus!
