//! The set of IDs that a batch is known by.

use crate::assoc::Key;
use vstd::multiset::Multiset;
use vstd::prelude::*;
use vstd::relations::{sorted_by, total_ordering};

verus! {

/// The order of IDs.
spec fn id_order() -> spec_fn(u64, u64) -> bool {
    |a: u64, b: u64| a <= b
}

/// IDs without regard to their order.
#[derive(Debug)]
pub struct Digest {
    sorted: Vec<u64>,
}

impl View for Digest {
    type V = Multiset<u64>;

    closed spec fn view(&self) -> Multiset<u64> {
        self.sorted@.to_multiset()
    }
}

/// Calls `slice::sort_unstable`, which sorts the slice in place: afterwards it
/// holds the same elements in ascending order.
#[verifier::external_body]
fn sort(ids: &mut Vec<u64>)
    ensures
        forall|i: int, j: int|
            0 <= i <= j < final(ids)@.len() ==> final(ids)@[i] <= final(ids)@[j],
        final(ids)@.to_multiset() == old(ids)@.to_multiset(),
{
    ids.sort_unstable()
}

impl Digest {
    #[verifier::type_invariant]
    spec fn in_order(self) -> bool {
        sorted_by(self.sorted@, id_order())
    }

    /// The digest of the given IDs.
    pub fn new(ids: &Vec<u64>) -> (r: Self)
        ensures
            r@ == ids@.to_multiset(),
    {
        let mut sorted: Vec<u64> = ids.clone();
        assert(sorted@ =~= ids@);
        sort(&mut sorted);
        Digest { sorted }
    }
}

impl Key for Digest {
    fn same(&self, other: &Self) -> (r: bool) {
        proof {
            use_type_invariant(self);
            use_type_invariant(other);
            assert(total_ordering(id_order()));
            if self@ == other@ {
                vstd::seq_lib::lemma_sorted_unique(self.sorted@, other.sorted@, id_order());
            }
        }
        if self.sorted.len() != other.sorted.len() {
            return false;
        }
        let mut i: usize = 0;
        while i < self.sorted.len()
            invariant
                i <= self.sorted@.len(),
                self.sorted@.len() == other.sorted@.len(),
                self@ == other@ ==> self.sorted@ == other.sorted@,
                forall|j: int| 0 <= j < i ==> self.sorted@[j] == other.sorted@[j],
            decreases self.sorted@.len() - i,
        {
            if self.sorted[i] != other.sorted[i] {
                return false;
            }
            i = i + 1;
        }
        assert(self.sorted@ =~= other.sorted@);
        true
    }
}

} // verus!
