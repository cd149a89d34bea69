//! Request IDs, and the limit on the requests under way.

use crate::error::ClientError;
use vstd::prelude::*;

verus! {

/// Hands out request IDs as long as fewer requests are under way than the
/// limit allows.
///
/// A call that got an ID, or several at once, takes up one slot until it
/// gives the slot back.
#[derive(Debug)]
pub struct RequestIdManager {
    next_id: u64,
    pending: usize,
    limit: usize,
}

/// What a [`RequestIdManager`] holds.
pub struct IdState {
    /// The next ID.
    pub next_id: u64,
    /// The number of slots taken.
    pub pending: nat,
    /// The number of slots that there are.
    pub limit: nat,
}

/// The ID that comes `k` places after `id`. After the largest comes zero.
pub open spec fn id_after(id: u64, k: nat) -> u64 {
    ((id + k) % 0x1_0000_0000_0000_0000) as u64
}

impl IdState {
    /// Whether a slot is free.
    pub open spec fn has_slot(self) -> bool {
        self.pending < self.limit
    }

    /// The `n` IDs that come next.
    pub open spec fn next_ids(self, n: nat) -> Seq<u64> {
        Seq::new(n, |i: int| id_after(self.next_id, i as nat))
    }

    /// The state after a call got `n` IDs.
    pub open spec fn take(self, n: nat) -> IdState {
        IdState { next_id: id_after(self.next_id, n), pending: self.pending + 1, ..self }
    }

    /// The state after a call gave its slot back.
    pub open spec fn release(self) -> IdState {
        IdState { pending: (self.pending - 1) as nat, ..self }
    }
}

impl View for RequestIdManager {
    type V = IdState;

    closed spec fn view(&self) -> IdState {
        IdState { next_id: self.next_id, pending: self.pending as nat, limit: self.limit as nat }
    }
}

impl RequestIdManager {
    /// No more slots are taken than there are.
    pub open spec fn wf(&self) -> bool {
        self@.pending <= self@.limit <= usize::MAX
    }

    /// A manager with all its slots free, whose first ID is zero.
    pub fn new(limit: usize) -> (r: Self)
        ensures
            r.wf(),
            r@ == (IdState { next_id: 0, pending: 0, limit: limit as nat }),
    {
        RequestIdManager { next_id: 0, pending: 0, limit }
    }

    /// Takes a slot and the next ID, or fails when all slots are taken.
    pub fn next_request_id(&mut self) -> (r: Result<u64, ClientError>)
        requires
            old(self).wf(),
        ensures
            final(self).wf(),
            match r {
                Ok(id) => {
                    &&& old(self)@.has_slot()
                    &&& id == old(self)@.next_id
                    &&& final(self)@ == old(self)@.take(1)
                },
                Err(error) => !old(self)@.has_slot() && error is MaxSlotsExceeded && final(self)@
                    == old(self)@,
            },
    {
        if self.pending >= self.limit {
            return Err(ClientError::MaxSlotsExceeded);
        }
        self.pending = self.pending + 1;
        let id = self.next_id;
        self.next_id = id.wrapping_add(1);
        Ok(id)
    }

    /// Takes one slot and the next `len` IDs, or fails when all slots are
    /// taken.
    pub fn next_request_ids(&mut self, len: usize) -> (r: Result<Vec<u64>, ClientError>)
        requires
            old(self).wf(),
        ensures
            final(self).wf(),
            match r {
                Ok(ids) => old(self)@.has_slot() && ids@ == old(self)@.next_ids(len as nat)
                    && final(self)@ == old(self)@.take(len as nat),
                Err(error) => !old(self)@.has_slot() && error is MaxSlotsExceeded && final(self)@
                    == old(self)@,
            },
    {
        if self.pending >= self.limit {
            return Err(ClientError::MaxSlotsExceeded);
        }
        self.pending = self.pending + 1;
        let ghost first = self.next_id;
        let mut ids: Vec<u64> = Vec::new();
        let mut i: usize = 0;
        while i < len
            invariant
                i <= len,
                self.next_id == id_after(first, i as nat),
                ids@ =~= Seq::new(i as nat, |j: int| id_after(first, j as nat)),
                self.pending == old(self).pending + 1,
                self.limit == old(self).limit,
            decreases len - i,
        {
            ids.push(self.next_id);
            self.next_id = self.next_id.wrapping_add(1);
            i = i + 1;
        }
        Ok(ids)
    }

    /// Gives a slot back.
    pub fn release(&mut self)
        requires
            old(self).wf(),
            old(self)@.pending > 0,
        ensures
            final(self).wf(),
            final(self)@ == old(self)@.release(),
    {
        self.pending = self.pending - 1;
    }

    /// The number of slots taken.
    pub fn pending(&self) -> (r: usize)
        requires
            self.wf(),
        ensures
            r == self@.pending,
    {
        self.pending
    }
}

/// IDs count up one by one, and start again at zero after the largest.
pub proof fn ids_count_up(id: u64, k: nat)
    ensures
        id_after(id, 0) == id,
        id_after(id, k) < u64::MAX ==> id_after(id, k + 1) == id_after(id, k) + 1,
        id_after(id, k) == u64::MAX ==> id_after(id, k + 1) == 0,
{
}

/// The IDs of a call are as many as it asks for, begin with the next one, and
/// follow one upon another; the next call goes on where they end.
pub proof fn ids_of_a_call_follow_each_other(state: IdState, n: nat, i: int)
    ensures
        state.next_ids(n).len() == n,
        n > 0 ==> state.next_ids(n)[0] == state.next_id,
        0 <= i < n - 1 && state.next_ids(n)[i] < u64::MAX ==> state.next_ids(n)[i + 1]
            == state.next_ids(n)[i] + 1,
        0 <= i < n - 1 && state.next_ids(n)[i] == u64::MAX ==> state.next_ids(n)[i + 1] == 0,
        n == 0 ==> state.take(n).next_id == state.next_id,
        n > 0 && state.next_ids(n)[n - 1] < u64::MAX ==> state.take(n).next_id
            == state.next_ids(n)[n - 1] + 1,
        n > 0 && state.next_ids(n)[n - 1] == u64::MAX ==> state.take(n).next_id == 0,
{
    ids_count_up(state.next_id, 0);
    if 0 <= i < n - 1 {
        ids_count_up(state.next_id, i as nat);
    }
    if n > 0 {
        ids_count_up(state.next_id, (n - 1) as nat);
    }
}

/// The state after `count` calls that got `n` IDs each.
pub open spec fn after_calls(state: IdState, count: nat, n: nat) -> IdState
    decreases count,
{
    if count == 0 {
        state
    } else {
        after_calls(state, (count - 1) as nat, n).take(n)
    }
}

/// With no request under way there is room for as many calls as the limit says,
/// however many IDs each takes, and for no more.
pub proof fn limit_many_calls_get_a_slot(state: IdState, count: nat, n: nat)
    requires
        state.pending == 0,
    ensures
        after_calls(state, count, n).pending == count,
        after_calls(state, count, n).limit == state.limit,
        after_calls(state, count, n).has_slot() <==> count < state.limit,
    decreases count,
{
    if count > 0 {
        limit_many_calls_get_a_slot(state, (count - 1) as nat, n);
    }
}

/// Giving a slot back frees that one slot and changes nothing else.
pub proof fn giving_back_frees_one_slot(state: IdState)
    requires
        state.pending > 0,
    ensures
        state.release().pending == state.pending - 1,
        state.release().limit == state.limit,
        state.release().next_id == state.next_id,
{
}

/// IDs handed out at different places, fewer than 2^64 places apart, differ.
pub proof fn ids_do_not_repeat(first: u64, i: nat, j: nat)
    requires
        i < j,
        j - i < 0x1_0000_0000_0000_0000,
    ensures
        id_after(first, i) != id_after(first, j),
{
}

/// The IDs of a later call continue where those of an earlier one ended, and
/// none of them is among the earlier ones, as long as the two calls together
/// take at most 2^64 IDs.
pub proof fn later_ids_are_new(state: IdState, m: nat, n: nat, i: int, j: int)
    requires
        m + n <= 0x1_0000_0000_0000_0000,
        0 <= i < m,
        0 <= j < n,
    ensures
        state.take(m).next_ids(n)[j] == id_after(state.next_id, m + j as nat),
        state.next_ids(m)[i] != state.take(m).next_ids(n)[j],
        state.take(m).release().next_ids(n)[j] == state.take(m).next_ids(n)[j],
{
    ids_do_not_repeat(state.next_id, i as nat, m + j as nat);
}

/// The IDs of one call are pairwise different.
pub proof fn ids_of_a_call_differ(state: IdState, n: nat)
    requires
        n <= 0x1_0000_0000_0000_0000,
    ensures
        state.next_ids(n).no_duplicates(),
{
    assert forall|i: int, j: int| 0 <= i < n && 0 <= j < n && i != j implies state.next_ids(n)[i]
        != state.next_ids(n)[j] by {
        if i < j {
            ids_do_not_repeat(state.next_id, i as nat, j as nat);
        } else {
            ids_do_not_repeat(state.next_id, j as nat, i as nat);
        }
    }
}

/// A call that gave its slot back has left the number of free slots as it
/// found it, so the next call gets one too.
pub proof fn released_slot_can_be_taken_again(state: IdState, n: nat)
    requires
        state.has_slot(),
    ensures
        state.take(n).release().pending == state.pending,
        state.take(n).release().has_slot(),
{
}

} // verus!
