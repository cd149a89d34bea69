//! Finds the request that a subscription began with.

use crate::types::{SubscriptionId, SubscriptionKey};
use std::collections::HashMap;
use vstd::hash_map::StringHashMap;
use vstd::prelude::*;

verus! {

/// Maps subscription IDs to request IDs.
pub struct SubscriptionIndex {
    by_number: HashMap<u64, u64>,
    by_text: StringHashMap<u64>,
}

impl View for SubscriptionIndex {
    type V = Map<SubscriptionKey, u64>;

    closed spec fn view(&self) -> Map<SubscriptionKey, u64> {
        Map::new(
            |key: SubscriptionKey|
                match key {
                    SubscriptionKey::Num(n) => self.by_number@.contains_key(n),
                    SubscriptionKey::Str(text) => self.by_text@.contains_key(text),
                },
            |key: SubscriptionKey|
                match key {
                    SubscriptionKey::Num(n) => self.by_number@[n],
                    SubscriptionKey::Str(text) => self.by_text@[text],
                },
        )
    }
}

impl SubscriptionIndex {
    /// An empty index.
    pub fn new() -> (r: Self)
        ensures
            r@ == Map::<SubscriptionKey, u64>::empty(),
    {
        let r = SubscriptionIndex { by_number: HashMap::new(), by_text: StringHashMap::new() };
        assert(r@ =~= Map::<SubscriptionKey, u64>::empty());
        r
    }

    /// The request ID of a subscription.
    pub fn get(&self, id: &SubscriptionId) -> (r: Option<u64>)
        ensures
            match r {
                Some(request) => self@.contains_key(id@) && request == self@[id@],
                None => !self@.contains_key(id@),
            },
    {
        match id {
            SubscriptionId::Num(n) => match self.by_number.get(n) {
                Some(request) => Some(*request),
                None => None,
            },
            SubscriptionId::Str(text) => match self.by_text.get(text.as_str()) {
                Some(request) => Some(*request),
                None => None,
            },
        }
    }

    /// Maps a subscription ID to a request ID.
    pub fn insert(&mut self, id: SubscriptionId, request: u64)
        ensures
            final(self)@ == old(self)@.insert(id@, request),
    {
        let ghost key = id@;
        match id {
            SubscriptionId::Num(n) => {
                self.by_number.insert(n, request);
            },
            SubscriptionId::Str(text) => {
                self.by_text.insert(text, request);
            },
        }
        assert(self@ =~= old(self)@.insert(key, request));
    }

    /// Forgets a subscription ID.
    pub fn remove(&mut self, id: &SubscriptionId)
        ensures
            final(self)@ == old(self)@.remove(id@),
    {
        match id {
            SubscriptionId::Num(n) => {
                self.by_number.remove(n);
            },
            SubscriptionId::Str(text) => {
                self.by_text.remove(text.as_str());
            },
        }
        assert(self@ =~= old(self)@.remove(id@));
    }
}

} // verus!
