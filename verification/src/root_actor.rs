//! The registry of cells: which cell belongs to which location, and the pool
//! of cells made in advance.
//!
//! The registry decides and keeps the books; it starts no cell itself. A cell
//! is known here by its identity. Whoever drives the registry starts the cells
//! and keeps each under the identity that the registry gave it.

use std::collections::VecDeque;
use vstd::hash_map::StringHashMap;
use vstd::prelude::*;

verus! {

/// The identity of a cell. Every cell of a registry has its own.
pub type CellId = u64;

/// Cells made in advance when a registry starts.
pub const INITIAL_POOL_SIZE: usize = 15000;

/// The share of the pool, in hundredths, whose use calls for a refill.
pub const POOL_REFRESH_THRESHOLD_PERCENT: usize = 30;

/// Cells made by one refill.
pub const REFRESH_BATCH_SIZE: usize = INITIAL_POOL_SIZE * POOL_REFRESH_THRESHOLD_PERCENT / 100;

/// A pool smaller than this is refilled.
pub const POOL_LOW_WATER: usize = INITIAL_POOL_SIZE - REFRESH_BATCH_SIZE;

/// Where the cell of a location came from.
#[derive(Clone, Copy, Debug, PartialEq, Eq, Structural)]
pub enum CellSource {
    /// The location had its cell already.
    Existing,
    /// The cell was taken from the pool.
    Pooled,
    /// The pool was empty: the cell is to be started now.
    Fresh,
}

/// The answer of the registry for one location: its cell, where that came
/// from, and the number of cells to make for the pool if a refill is due.
pub struct CellLookup {
    pub cell: CellId,
    pub source: CellSource,
    pub refresh: Option<usize>,
}

/// The state of one registry.
pub struct RootActor {
    addrs: StringHashMap<CellId>,
    pool: VecDeque<CellId>,
    is_refreshing: bool,
    next_cell: CellId,
}

/// What a [`RootActor`] holds: the cell of each location that has one, the
/// pool in the order in which its cells will be taken, whether a refill is
/// under way, and how many identities it has given out.
pub struct RootActorView {
    pub addrs: Map<Seq<char>, CellId>,
    pub pool: Seq<CellId>,
    pub is_refreshing: bool,
    pub next_cell: CellId,
}

impl RootActorView {
    /// A registry that knows no location. It starts with a refill under way:
    /// the first filling of its pool.
    pub open spec fn initial() -> Self {
        RootActorView { addrs: Map::empty(), pool: Seq::empty(), is_refreshing: true, next_cell: 0 }
    }

    /// No cell is in use twice: locations have different cells, the pool
    /// holds none twice and none that a location has, and every cell bears an
    /// identity that this registry has given out.
    pub open spec fn wf(self) -> bool {
        &&& forall|k: Seq<char>| #[trigger] self.addrs.contains_key(k) ==> self.addrs[k] < self.next_cell
        &&& forall|k: Seq<char>, l: Seq<char>|
            #![trigger self.addrs.contains_key(k), self.addrs.contains_key(l)]
            self.addrs.contains_key(k) && self.addrs.contains_key(l) && k != l ==> self.addrs[k]
                != self.addrs[l]
        &&& forall|i: int| 0 <= i < self.pool.len() ==> #[trigger] self.pool[i] < self.next_cell
        &&& forall|i: int, j: int| 0 <= i < j < self.pool.len() ==> self.pool[i] != self.pool[j]
        &&& forall|k: Seq<char>, i: int|
            #![trigger self.addrs.contains_key(k), self.pool[i]]
            self.addrs.contains_key(k) && 0 <= i < self.pool.len() ==> self.addrs[k] != self.pool[i]
    }

    /// Whether nothing can be done for `key`: it has no cell, the pool is
    /// empty, and no identity is left to give.
    pub open spec fn exhausted(self, key: Seq<char>) -> bool {
        !self.addrs.contains_key(key) && self.pool.len() == 0 && self.next_cell == u64::MAX
    }

    /// Whether a refill is due once the pool holds `size` cells: it is below
    /// the low-water mark, and no refill is under way.
    pub open spec fn refill_due(self, size: nat) -> bool {
        size < POOL_LOW_WATER && !self.is_refreshing
    }

    /// The answer for `key`: its cell if it has one, else the first cell of
    /// the pool, else a new one. A refill is asked for when a new binding
    /// leaves the pool below the low-water mark.
    pub open spec fn lookup(self, key: Seq<char>) -> CellLookup {
        if self.addrs.contains_key(key) {
            CellLookup { cell: self.addrs[key], source: CellSource::Existing, refresh: None }
        } else if self.pool.len() > 0 {
            CellLookup {
                cell: self.pool[0],
                source: CellSource::Pooled,
                refresh: if self.refill_due((self.pool.len() - 1) as nat) {
                    Some(REFRESH_BATCH_SIZE)
                } else {
                    None
                },
            }
        } else {
            CellLookup {
                cell: self.next_cell,
                source: CellSource::Fresh,
                refresh: if self.refill_due(0) {
                    Some(REFRESH_BATCH_SIZE)
                } else {
                    None
                },
            }
        }
    }

    /// The registry after `key` was looked up.
    pub open spec fn bind(self, key: Seq<char>) -> Self {
        if self.addrs.contains_key(key) {
            self
        } else {
            let found = self.lookup(key);
            RootActorView {
                addrs: self.addrs.insert(key, found.cell),
                pool: if self.pool.len() > 0 {
                    self.pool.drop_first()
                } else {
                    self.pool
                },
                is_refreshing: self.is_refreshing || found.refresh is Some,
                next_cell: if self.pool.len() > 0 {
                    self.next_cell
                } else {
                    (self.next_cell + 1) as u64
                },
            }
        }
    }

    /// The identities of the cells of a refill of `count` cells.
    pub open spec fn refill(self, count: nat) -> Seq<CellId> {
        Seq::new(count, |i: int| (self.next_cell + i) as u64)
    }

    /// The registry after a refill of `count` cells has come in: they stand
    /// at the end of the pool, and no refill is under way.
    pub open spec fn refilled(self, count: nat) -> Self {
        RootActorView {
            addrs: self.addrs,
            pool: self.pool + self.refill(count),
            is_refreshing: false,
            next_cell: (self.next_cell + count) as u64,
        }
    }
}

/// A lookup keeps the books in order.
pub proof fn lemma_bind_keeps_wf(registry: RootActorView, key: Seq<char>)
    requires
        registry.wf(),
        !registry.exhausted(key),
    ensures
        registry.bind(key).wf(),
{
    let after = registry.bind(key);
    if !registry.addrs.contains_key(key) {
        if registry.pool.len() > 0 {
            assert forall|i: int| 0 <= i < after.pool.len() implies #[trigger] after.pool[i]
                < after.next_cell by {
                assert(after.pool[i] == registry.pool[i + 1]);
            }
            assert forall|k: Seq<char>, i: int|
                #![trigger after.addrs.contains_key(k), after.pool[i]]
                after.addrs.contains_key(k) && 0 <= i < after.pool.len() implies after.addrs[k]
                != after.pool[i] by {
                assert(after.pool[i] == registry.pool[i + 1]);
            }
        }
    }
}

/// A location has one cell, for good: once it was looked up, every further
/// lookup answers with the same cell and changes nothing; the cells of other
/// locations stay what they were and differ from its cell.
pub proof fn lemma_one_cell_per_location(registry: RootActorView, key: Seq<char>, other: Seq<char>)
    requires
        registry.wf(),
        !registry.exhausted(key),
    ensures
        registry.bind(key).addrs.contains_key(key),
        registry.bind(key).addrs[key] == registry.lookup(key).cell,
        registry.bind(key).bind(key) == registry.bind(key),
        registry.bind(key).lookup(key).cell == registry.lookup(key).cell,
        registry.bind(key).lookup(key).source == CellSource::Existing,
        registry.addrs.contains_key(other) ==> registry.bind(key).addrs.contains_key(other)
            && registry.bind(key).addrs[other] == registry.addrs[other],
        registry.addrs.contains_key(other) && other != key ==> registry.addrs[other]
            != registry.lookup(key).cell,
{
    if !registry.addrs.contains_key(key) && registry.addrs.contains_key(other)
        && registry.pool.len() > 0 {
        assert(registry.addrs[other] != registry.pool[0]);
    }
}

/// A refill keeps the books in order.
pub proof fn lemma_refill_keeps_wf(registry: RootActorView, count: nat)
    requires
        registry.wf(),
        registry.next_cell + count <= u64::MAX,
    ensures
        registry.refilled(count).wf(),
{
    let after = registry.refilled(count);
    assert forall|i: int| 0 <= i < after.pool.len() implies #[trigger] after.pool[i]
        < after.next_cell by {
        if i >= registry.pool.len() {
            assert(after.pool[i] == registry.refill(count)[i - registry.pool.len()]);
        }
    }
    assert forall|i: int, j: int| 0 <= i < j < after.pool.len() implies after.pool[i]
        != after.pool[j] by {
        if i >= registry.pool.len() {
            assert(after.pool[i] == registry.refill(count)[i - registry.pool.len()]);
        }
        if j >= registry.pool.len() {
            assert(after.pool[j] == registry.refill(count)[j - registry.pool.len()]);
        }
    }
    assert forall|k: Seq<char>, i: int|
        #![trigger after.addrs.contains_key(k), after.pool[i]]
        after.addrs.contains_key(k) && 0 <= i < after.pool.len() implies after.addrs[k]
        != after.pool[i] by {
        if i >= registry.pool.len() {
            assert(after.pool[i] == registry.refill(count)[i - registry.pool.len()]);
        }
    }
}

impl View for RootActor {
    type V = RootActorView;

    closed spec fn view(&self) -> RootActorView {
        RootActorView {
            addrs: self.addrs@,
            pool: self.pool@,
            is_refreshing: self.is_refreshing,
            next_cell: self.next_cell,
        }
    }
}

impl RootActor {
    /// A registry that knows no location, with the first filling of its pool
    /// under way.
    pub fn new() -> (registry: Self)
        ensures
            registry@.wf(),
            registry@ == RootActorView::initial(),
    {
        let registry = RootActor {
            addrs: StringHashMap::new(),
            pool: VecDeque::with_capacity(INITIAL_POOL_SIZE),
            is_refreshing: true,
            next_cell: 0,
        };
        assert(registry@.pool =~= Seq::empty());
        registry
    }

    /// Asks for a refill where one is due: the pool is below the low-water
    /// mark and no refill is under way. Returns the number of cells to make.
    fn check_pool_size(&mut self) -> (refresh: Option<usize>)
        ensures
            refresh == (if old(self)@.refill_due(old(self)@.pool.len()) {
                Some(REFRESH_BATCH_SIZE)
            } else {
                None
            }),
            final(self).addrs@ == old(self).addrs@,
            final(self).pool == old(self).pool,
            final(self).next_cell == old(self).next_cell,
            final(self).is_refreshing == (old(self).is_refreshing || refresh is Some),
    {
        if self.pool.len() < POOL_LOW_WATER && !self.is_refreshing {
            self.is_refreshing = true;
            Some(REFRESH_BATCH_SIZE)
        } else {
            None
        }
    }

    /// Looks up the cell of `location_id`, and binds one to it where it has
    /// none: the first of the pool, or a new one where the pool is empty.
    /// Fails, and changes nothing, only where a new cell is needed and no
    /// identity is left to give.
    pub fn get_addr(&mut self, location_id: String) -> (r: Result<CellLookup, ()>)
        requires
            old(self)@.wf(),
        ensures
            final(self)@.wf(),
            match r {
                Ok(found) => {
                    &&& !old(self)@.exhausted(location_id@)
                    &&& found == old(self)@.lookup(location_id@)
                    &&& final(self)@ == old(self)@.bind(location_id@)
                },
                Err(_) => old(self)@.exhausted(location_id@) && final(self)@ == old(self)@,
            },
    {
        let ghost before = self@;
        match self.addrs.get(location_id.as_str()) {
            Some(cell) => {
                return Ok(CellLookup { cell: *cell, source: CellSource::Existing, refresh: None });
            },
            None => {},
        }
        let (cell, source) = match self.pool.pop_front() {
            Some(cell) => (cell, CellSource::Pooled),
            None => {
                if self.next_cell == u64::MAX {
                    return Err(());
                }
                let cell = self.next_cell;
                self.next_cell = cell + 1;
                (cell, CellSource::Fresh)
            },
        };
        self.addrs.insert(location_id, cell);
        let refresh = self.check_pool_size();
        proof {
            lemma_bind_keeps_wf(before, location_id@);
            assert(self@.pool =~= before.bind(location_id@).pool);
            assert(self@ == before.bind(location_id@));
        }
        Ok(CellLookup { cell, source, refresh })
    }

    /// Takes in a refill of `count` cells: gives each an identity, puts them
    /// at the end of the pool in that order, and notes that no refill is
    /// under way any more. Returns the identities. Fails, and changes
    /// nothing, only where fewer than `count` identities are left to give.
    pub fn pool_refresh_complete(&mut self, count: usize) -> (r: Result<Vec<CellId>, ()>)
        requires
            old(self)@.wf(),
        ensures
            final(self)@.wf(),
            match r {
                Ok(cells) => {
                    &&& old(self)@.next_cell + count <= u64::MAX
                    &&& cells@ == old(self)@.refill(count as nat)
                    &&& final(self)@ == old(self)@.refilled(count as nat)
                },
                Err(_) => old(self)@.next_cell + count > u64::MAX && final(self)@ == old(self)@,
            },
    {
        let ghost before = self@;
        if count as u64 > u64::MAX - self.next_cell {
            return Err(());
        }
        let first = self.next_cell;
        let mut cells: Vec<CellId> = Vec::with_capacity(count);
        let mut made: usize = 0;
        while made < count
            invariant
                made <= count,
                first + count <= u64::MAX,
                self.addrs@ == old(self).addrs@,
                self.is_refreshing == old(self).is_refreshing,
                self.next_cell == first,
                cells@ == before.refill(made as nat),
                self.pool@ == before.pool + before.refill(made as nat),
                first == before.next_cell,
            decreases count - made,
        {
            let cell = first + made as u64;
            cells.push(cell);
            self.pool.push_back(cell);
            made += 1;
            proof {
                assert(cells@ =~= before.refill(made as nat));
                assert(self.pool@ =~= before.pool + before.refill(made as nat));
            }
        }
        self.next_cell = first + count as u64;
        self.is_refreshing = false;
        proof {
            lemma_refill_keeps_wf(before, count as nat);
            assert(self@ == before.refilled(count as nat));
        }
        Ok(cells)
    }
}

} // verus!
