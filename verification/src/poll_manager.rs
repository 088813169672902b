//! The registry of live filters, keyed by identifier.

use std::collections::hash_map::Entry;
use std::collections::HashMap;
use vstd::prelude::*;
use vstd::std_specs::hash::*;
use crate::changes::{following, next_after};
use crate::types::{Filter, H256, Log};

verus! {

broadcast use vstd::std_specs::hash::group_hash_axioms;

/// Identifier of a registered filter.
pub type PollId = usize;

/// The cursor of one live filter. The variant is chosen at registration and
/// stays for the filter's lifetime.
#[derive(Clone, Debug, PartialEq, Eq)]
pub enum PollFilter {
    /// The lowest block number whose hash was not reported yet.
    Block(u64),
    /// The pending transaction hashes seen by the previous poll.
    PendingTransaction(Vec<H256>),
    /// The lowest block number not searched yet, the pending logs seen by the
    /// previous poll, and the criteria.
    Logs(u64, Vec<Log>, Filter),
    /// The lowest block number whose transactions were not replayed yet.
    ReturnData(u64),
}

impl PollFilter {
    /// The state of a block filter registered while the best block is
    /// `best`: that block counts as reported.
    pub fn block_filter(best: u64) -> (r: PollFilter)
        ensures
            r == PollFilter::Block(following(best)),
    {
        PollFilter::Block(next_after(best))
    }

    /// The state of a pending-transaction filter registered while the pool
    /// lists `current`: all of them count as reported.
    pub fn pending_transaction_filter(current: Vec<H256>) -> (r: PollFilter)
        ensures
            r == PollFilter::PendingTransaction(current),
    {
        PollFilter::PendingTransaction(current)
    }

    /// The state of a log filter registered with `criteria` while the best
    /// block is `best` and the pending logs are `known`: that block counts
    /// as searched and those logs as reported.
    pub fn log_filter(best: u64, known: Vec<Log>, criteria: Filter) -> (r: PollFilter)
        ensures
            r == PollFilter::Logs(following(best), known, criteria),
    {
        PollFilter::Logs(next_after(best), known, criteria)
    }

    /// The state of a return-data filter registered while the best block is
    /// `best`: that block counts as replayed.
    pub fn return_data_filter(best: u64) -> (r: PollFilter)
        ensures
            r == PollFilter::ReturnData(following(best)),
    {
        PollFilter::ReturnData(next_after(best))
    }
}

/// Owns every live filter.
pub struct PollManager {
    polls: HashMap<PollId, PollFilter>,
    next_available_id: PollId,
}

impl View for PollManager {
    type V = Map<PollId, PollFilter>;

    closed spec fn view(&self) -> Map<PollId, PollFilter> {
        self.polls@
    }
}

impl PollManager {
    /// The identifier that the next registration will be given.
    pub closed spec fn next_id(&self) -> PollId {
        self.next_available_id
    }

    /// Every live identifier was issued before the counter reached its
    /// present value: the counter has not wrapped past a live filter.
    pub open spec fn issued_in_order(&self) -> bool {
        forall|id: PollId| #[trigger] self@.contains_key(id) ==> id < self.next_id()
    }

    /// A registry without filters.
    pub fn new() -> (r: PollManager)
        ensures
            r@ == Map::<PollId, PollFilter>::empty(),
            r.next_id() == 0,
            r.issued_in_order(),
    {
        PollManager { polls: HashMap::new(), next_available_id: 0 }
    }

    /// Registers `filter` under the next identifier and returns it. The
    /// counter starts again at zero after the largest identifier.
    pub fn create_poll(&mut self, filter: PollFilter) -> (id: PollId)
        ensures
            id == old(self).next_id(),
            final(self)@ == old(self)@.insert(id, filter),
            final(self).next_id() == (if id == usize::MAX { 0 } else { id + 1 }),
            old(self).issued_in_order() ==> !old(self)@.contains_key(id),
            old(self).issued_in_order() && id < usize::MAX ==> final(self).issued_in_order(),
    {
        let id: PollId = self.next_available_id;
        self.polls.insert(id, filter);
        self.next_available_id = if id == usize::MAX { 0 } else { id + 1 };
        proof {
            if old(self).issued_in_order() && id < usize::MAX {
                assert forall|k: PollId| #[trigger] self@.contains_key(k) implies k < self.next_id() by {
                    if k != id {
                        assert(old(self)@.contains_key(k));
                    }
                }
            }
        }
        id
    }

    /// The state of filter `id`, if it is live.
    pub fn poll(&self, id: &PollId) -> (r: Option<&PollFilter>)
        ensures
            match r {
                Some(filter) => self@.contains_key(*id) && *filter == self@[*id],
                None => !self@.contains_key(*id),
            },
    {
        self.polls.get(id)
    }

    /// Exclusive access to the state of filter `id`, if it is live: what the
    /// caller leaves there is the filter's state afterwards.
    pub fn poll_mut(&mut self, id: &PollId) -> (r: Option<&mut PollFilter>)
        ensures
            final(self).next_id() == old(self).next_id(),
            match r {
                Some(filter) => old(self)@.contains_key(*id) && *filter == old(self)@[*id]
                    && final(self)@ == old(self)@.insert(*id, *final(filter)),
                None => !old(self)@.contains_key(*id) && final(self)@ == old(self)@,
            },
    {
        match self.polls.entry(*id) {
            Entry::Occupied(entry) => Some(entry.into_mut()),
            Entry::Vacant(_) => {
                assert(old(self)@.remove(*id) =~= old(self)@);
                None
            },
        }
    }

    /// Deletes filter `id`; returns whether it was live.
    pub fn remove_poll(&mut self, id: &PollId) -> (r: bool)
        ensures
            r == old(self)@.contains_key(*id),
            final(self)@ == old(self)@.remove(*id),
            final(self).next_id() == old(self).next_id(),
    {
        self.polls.remove(id).is_some()
    }

    /// How many filters are live.
    pub fn len(&self) -> (r: usize)
        ensures
            r == self@.len(),
    {
        self.polls.len()
    }
}

} // verus!
