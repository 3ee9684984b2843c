use vstd::prelude::*;

verus! {

/// Entries a default cache holds.
pub const DEFAULT_CACHE_CAPACITY: usize = 16;

/// The address cached for `id`, if any.
pub open spec fn lookup(entries: Seq<(usize, usize)>, id: usize) -> Option<usize>
    decreases entries.len(),
{
    if entries.len() == 0 {
        None
    } else if entries.last().0 == id {
        Some(entries.last().1)
    } else {
        lookup(entries.drop_last(), id)
    }
}

/// The entries without those for `id`, in their order.
pub open spec fn without(entries: Seq<(usize, usize)>, id: usize) -> Seq<(usize, usize)>
    decreases entries.len(),
{
    if entries.len() == 0 {
        entries
    } else if entries.last().0 == id {
        without(entries.drop_last(), id)
    } else {
        without(entries.drop_last(), id).push(entries.last())
    }
}

/// The entries after caching `address` for `id`: an earlier entry for `id`
/// goes, and when the cache is full the oldest entry is evicted first.
pub open spec fn inserted(
    entries: Seq<(usize, usize)>,
    capacity: usize,
    id: usize,
    address: usize,
) -> Seq<(usize, usize)> {
    let rest = without(entries, id);
    if capacity == 0 {
        rest
    } else if rest.len() >= capacity {
        rest.drop_first().push((id, address))
    } else {
        rest.push((id, address))
    }
}

/// A bounded first-in-first-out cache from ids to addresses.
pub struct MemoryCache {
    /// Oldest first.
    pub entries: Vec<(usize, usize)>,
    pub capacity: usize,
}

/// What holds of every entry of `entries` holds of every entry of
/// `without(entries, id)`.
pub proof fn lemma_without_keeps(entries: Seq<(usize, usize)>, id: usize, holds: spec_fn((usize, usize)) -> bool)
    requires
        forall|i: int| 0 <= i < entries.len() ==> holds(#[trigger] entries[i]),
    ensures
        forall|i: int| 0 <= i < without(entries, id).len() ==> holds(#[trigger] without(entries, id)[i]),
        without(entries, id).len() <= entries.len(),
    decreases entries.len(),
{
    if entries.len() > 0 {
        let front = entries.drop_last();
        assert forall|i: int| 0 <= i < front.len() implies holds(#[trigger] front[i]) by {
            assert(front[i] == entries[i]);
        }
        lemma_without_keeps(front, id, holds);
        assert(holds(entries[entries.len() - 1]));
    }
}

/// What holds of every entry and of the new one holds of every entry after
/// an insertion.
pub proof fn lemma_inserted_keeps(
    entries: Seq<(usize, usize)>,
    capacity: usize,
    id: usize,
    address: usize,
    holds: spec_fn((usize, usize)) -> bool,
)
    requires
        forall|i: int| 0 <= i < entries.len() ==> holds(#[trigger] entries[i]),
        holds((id, address)),
    ensures
        forall|i: int|
            0 <= i < inserted(entries, capacity, id, address).len() ==> holds(
                #[trigger] inserted(entries, capacity, id, address)[i],
            ),
{
    lemma_without_keeps(entries, id, holds);
    let rest = without(entries, id);
    if capacity != 0 && rest.len() >= capacity {
        assert forall|i: int| 0 <= i < rest.drop_first().len() implies holds(
            #[trigger] rest.drop_first()[i],
        ) by {
            assert(rest.drop_first()[i] == rest[i + 1]);
        }
    }
}

/// An address found for `id` is in some entry for `id`.
pub proof fn lemma_lookup_found(entries: Seq<(usize, usize)>, id: usize)
    requires
        lookup(entries, id) is Some,
    ensures
        exists|i: int| 0 <= i < entries.len() && #[trigger] entries[i] == (id, lookup(entries, id).unwrap()),
    decreases entries.len(),
{
    if entries.last().0 != id {
        lemma_lookup_found(entries.drop_last(), id);
        let i = choose|i: int|
            0 <= i < entries.drop_last().len() && #[trigger] entries.drop_last()[i] == (
                id,
                lookup(entries.drop_last(), id).unwrap(),
            );
        assert(entries[i] == entries.drop_last()[i]);
    } else {
        assert(entries[entries.len() - 1] == (id, lookup(entries, id).unwrap()));
    }
}

impl MemoryCache {
    /// The cache holds no more entries than its capacity.
    pub open spec fn wf(&self) -> bool {
        self.entries@.len() <= self.capacity
    }

    /// An empty cache with room for `capacity` entries.
    pub fn new(capacity: usize) -> (r: Self)
        ensures
            r.entries@.len() == 0,
            r.capacity == capacity,
    {
        MemoryCache { entries: Vec::new(), capacity }
    }

    /// Caches `address` for `id`, evicting the oldest entry when full.
    pub fn add_cache(&mut self, id: usize, address: usize)
        requires
            old(self).wf(),
        ensures
            final(self).wf(),
            final(self).capacity == old(self).capacity,
            final(self).entries@ == inserted(old(self).entries@, old(self).capacity, id, address),
    {
        let mut rest: Vec<(usize, usize)> = Vec::new();
        let mut i: usize = 0;
        while i < self.entries.len()
            invariant
                i <= self.entries@.len(),
                rest@ == without(self.entries@.subrange(0, i as int), id),
            decreases self.entries@.len() - i,
        {
            let entry = self.entries[i];
            assert(self.entries@.subrange(0, i + 1).drop_last() =~= self.entries@.subrange(
                0,
                i as int,
            ));
            if entry.0 != id {
                rest.push(entry);
            }
            i = i + 1;
        }
        assert(self.entries@.subrange(0, i as int) =~= self.entries@);
        proof {
            lemma_without_keeps(self.entries@, id, |e: (usize, usize)| true);
        }
        if self.capacity == 0 {
            self.entries = rest;
            return;
        }
        if rest.len() >= self.capacity {
            let _ = rest.remove(0);
            assert(rest@ =~= without(old(self).entries@, id).drop_first());
        }
        rest.push((id, address));
        self.entries = rest;
    }

    /// The address cached for `id`.
    pub fn get_cache(&self, id: &usize) -> (r: Option<usize>)
        ensures
            r == lookup(self.entries@, *id),
    {
        let mut i: usize = self.entries.len();
        assert(self.entries@.subrange(0, i as int) =~= self.entries@);
        while i > 0
            invariant
                i <= self.entries@.len(),
                lookup(self.entries@, *id) == lookup(self.entries@.subrange(0, i as int), *id),
            decreases i,
        {
            assert(self.entries@.subrange(0, i as int).drop_last() =~= self.entries@.subrange(
                0,
                i - 1,
            ));
            i = i - 1;
            if self.entries[i].0 == *id {
                return Some(self.entries[i].1);
            }
        }
        None
    }

    /// Drops every entry.
    pub fn clear(&mut self)
        ensures
            final(self).entries@.len() == 0,
            final(self).capacity == old(self).capacity,
    {
        self.entries = Vec::new();
    }
}

impl Default for MemoryCache {
    /// A cache of `DEFAULT_CACHE_CAPACITY` entries.
    fn default() -> (r: Self)
        ensures
            r.entries@.len() == 0,
            r.capacity == DEFAULT_CACHE_CAPACITY,
    {
        Self::new(DEFAULT_CACHE_CAPACITY)
    }
}

} // verus!
