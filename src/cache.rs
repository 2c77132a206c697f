use vstd::prelude::*;

verus! {

/// The three series a measured link reports to: the last observed latency
/// (gauge), the cumulative latency and the number of samples (counters).
/// Each is a handle into its own metric family.
#[derive(Clone, Copy, Debug, PartialEq, Eq, Structural)]
pub struct MetricHandles {
    pub last_value: usize,
    pub cumulative_sum: usize,
    pub cumulative_count: usize,
}

/// Per-link state, attached to the link's source endpoint.
#[derive(Clone, Copy, Debug, PartialEq, Eq, Structural)]
pub struct CacheEntry {
    /// Timestamp of the unit of work in flight; 0 when none is.
    pub pending_timestamp: u64,
    /// Identity value of the sink endpoint the entry was created for.
    pub peer: u64,
    pub handles: MetricHandles,
}

/// Side table from source endpoint index to its cache entry. Each index has
/// at most one entry; lookup is by position.
pub struct PadPairCache {
    slots: Vec<Option<CacheEntry>>,
}

impl PadPairCache {
    /// The entries, keyed by source endpoint index.
    pub closed spec fn view(&self) -> Map<nat, CacheEntry> {
        Map::new(
            |i: nat| i < self.slots@.len() && self.slots@[i as int] is Some,
            |i: nat| self.slots@[i as int]->Some_0,
        )
    }

    pub fn new() -> (r: PadPairCache)
        ensures
            r.view() == Map::<nat, CacheEntry>::empty(),
    {
        let r = PadPairCache { slots: Vec::new() };
        assert(r.view() =~= Map::<nat, CacheEntry>::empty());
        r
    }

    /// The entry of source endpoint `src`, if any.
    pub fn get(&self, src: usize) -> (r: Option<CacheEntry>)
        ensures
            r == (if self.view().contains_key(src as nat) {
                Some(self.view()[src as nat])
            } else {
                None
            }),
    {
        if src < self.slots.len() {
            self.slots[src]
        } else {
            None
        }
    }

    /// Attaches `e` to `src`, replacing any entry it had.
    pub fn put(&mut self, src: usize, e: CacheEntry)
        ensures
            final(self).view() == old(self).view().insert(src as nat, e),
    {
        while self.slots.len() <= src
            invariant
                self.view() == old(self).view(),
            decreases src + 1 - self.slots.len(),
        {
            let ghost before = self.view();
            self.slots.push(None);
            assert(self.view() =~= before);
        }
        self.slots.set(src, Some(e));
        assert(self.view() =~= old(self).view().insert(src as nat, e));
    }

    /// Detaches the entry of `src`, if any.
    pub fn remove(&mut self, src: usize)
        ensures
            final(self).view() == old(self).view().remove(src as nat),
    {
        if src < self.slots.len() {
            self.slots.set(src, None);
        }
        assert(self.view() =~= old(self).view().remove(src as nat));
    }
}

} // verus!
