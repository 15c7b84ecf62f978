//! Grid-based world partitioning: the set of voxel cells that are streamed in
//! around the player. The voxel coordinates of the player are computed by the
//! caller; this module decides which cells are new, which cells have left the
//! player's vicinity and are unloaded, and records the result.

use vstd::prelude::*;

verus! {

/// Integer coordinates of one cell of the voxel grid.
#[derive(Clone, Copy, Debug, PartialEq, Eq, Structural)]
pub struct VoxelCell {
    pub x: i32,
    pub y: i32,
    pub z: i32,
}

impl VoxelCell {
    /// The cell as a coordinate triple, the key of the loaded set.
    pub open spec fn key(self) -> (i32, i32, i32) {
        (self.x, self.y, self.z)
    }
}

/// The cells loaded so far. No cell occurs twice in `loaded_cells`.
pub struct WorldPartitionManager {
    loaded_cells: Vec<(i32, i32, i32)>,
}

/// Whether `cell` lies in the vicinity of `center`: no coordinate differs by
/// more than `radius` cells.
pub open spec fn within(cell: (i32, i32, i32), center: (i32, i32, i32), radius: int) -> bool {
    &&& -radius <= cell.0 - center.0 <= radius
    &&& -radius <= cell.1 - center.1 <= radius
    &&& -radius <= cell.2 - center.2 <= radius
}

/// The result of streaming around `cell` with vicinity `radius` in a world
/// whose loaded cells are `loaded`: the new loaded set (the loaded cells in
/// the vicinity, plus `cell`), and whether `cell` has to be hydrated (it was
/// not loaded before).
pub open spec fn streamed(loaded: Set<(i32, i32, i32)>, cell: (i32, i32, i32), radius: int) -> (Set<(i32, i32, i32)>, bool) {
    (loaded.filter(|a: (i32, i32, i32)| within(a, cell, radius)).insert(cell), !loaded.contains(cell))
}

/// The loaded cells that streaming around `cell` with vicinity `radius`
/// unloads: those outside the vicinity.
pub open spec fn unloaded_by(loaded: Set<(i32, i32, i32)>, cell: (i32, i32, i32), radius: int) -> Set<(i32, i32, i32)> {
    loaded.filter(|a: (i32, i32, i32)| !within(a, cell, radius))
}

/// The coordinate triples of a sequence of cells.
pub open spec fn cell_keys(cells: Seq<VoxelCell>) -> Seq<(i32, i32, i32)> {
    cells.map_values(|c: VoxelCell| c.key())
}

/// What one streaming step asks of the caller: whether the player's cell has
/// to be hydrated, and the cells to drop.
pub struct StreamUpdate {
    pub hydrate: bool,
    pub unloaded: Vec<VoxelCell>,
}

proof fn lemma_push_contains<A>(s: Seq<A>, x: A, a: A)
    ensures
        s.push(x).contains(a) <==> (s.contains(a) || a == x),
{
    if s.contains(a) {
        let j: int = choose|j: int| 0 <= j < s.len() && s[j] == a;
        assert(s.push(x)[j] == a);
    }
    if a == x {
        assert(s.push(x)[s.len() as int] == x);
    }
    if s.push(x).contains(a) {
        let j: int = choose|j: int| 0 <= j < s.push(x).len() && s.push(x)[j] == a;
        if j < s.len() {
            assert(s[j] == a);
        }
    }
}

proof fn lemma_push_no_duplicates<A>(s: Seq<A>, x: A)
    requires
        s.no_duplicates(),
        !s.contains(x),
    ensures
        s.push(x).no_duplicates(),
{
    let t = s.push(x);
    assert forall|i: int, j: int| 0 <= i < t.len() && 0 <= j < t.len() && i != j implies t[i] != t[j] by {
        if i == s.len() {
            assert(s[j] == t[j]);
        } else if j == s.len() {
            assert(s[i] == t[i]);
        } else {
            assert(s[i] == t[i] && s[j] == t[j]);
        }
    }
}

/// Whether `cell` lies within `radius` cells of `center` on every axis.
fn near(cell: (i32, i32, i32), center: (i32, i32, i32), radius: u32) -> (b: bool)
    ensures
        b == (-(radius as int) <= cell.0 - center.0 <= radius as int
            && -(radius as int) <= cell.1 - center.1 <= radius as int
            && -(radius as int) <= cell.2 - center.2 <= radius as int),
{
    let r: i64 = radius as i64;
    let dx: i64 = cell.0 as i64 - center.0 as i64;
    let dy: i64 = cell.1 as i64 - center.1 as i64;
    let dz: i64 = cell.2 as i64 - center.2 as i64;
    -r <= dx && dx <= r && -r <= dy && dy <= r && -r <= dz && dz <= r
}

impl View for WorldPartitionManager {
    type V = Set<(i32, i32, i32)>;

    closed spec fn view(&self) -> Set<(i32, i32, i32)> {
        self.loaded_cells@.to_set()
    }
}

impl WorldPartitionManager {
    /// No cell is recorded twice.
    pub closed spec fn wf(&self) -> bool {
        self.loaded_cells@.no_duplicates()
    }

    /// The number of distinct loaded cells.
    pub closed spec fn spec_len(&self) -> nat {
        self.loaded_cells@.len()
    }

    /// A world with no cell loaded.
    pub fn new() -> (manager: WorldPartitionManager)
        ensures
            manager.wf(),
            manager@ == Set::<(i32, i32, i32)>::empty(),
            manager.spec_len() == 0,
    {
        let manager = WorldPartitionManager { loaded_cells: Vec::new() };
        assert(manager.loaded_cells@.to_set() =~= Set::<(i32, i32, i32)>::empty());
        manager
    }

    /// Whether `cell` has been loaded.
    pub fn is_loaded(&self, cell: VoxelCell) -> (loaded: bool)
        ensures
            loaded == self@.contains(cell.key()),
    {
        let key = (cell.x, cell.y, cell.z);
        let mut i: usize = 0;
        while i < self.loaded_cells.len()
            invariant
                i <= self.loaded_cells@.len(),
                key == cell.key(),
                forall|j: int| 0 <= j < i ==> self.loaded_cells@[j] != key,
            decreases self.loaded_cells@.len() - i,
        {
            let c = self.loaded_cells[i];
            if c.0 == key.0 && c.1 == key.1 && c.2 == key.2 {
                assert(self.loaded_cells@[i as int] == key);
                assert(self.loaded_cells@.contains(key));
                assert(self@.contains(cell.key()));
                return true;
            }
            i = i + 1;
        }
        assert(!self.loaded_cells@.contains(key));
        false
    }

    /// The number of loaded cells.
    pub fn loaded_count(&self) -> (n: usize)
        requires
            self.wf(),
        ensures
            n == self@.len(),
            n == self.spec_len(),
    {
        proof {
            self.loaded_cells@.unique_seq_to_set();
        }
        self.loaded_cells.len()
    }

    /// Streams the world around the cell the player stands in: keeps the
    /// loaded cells within `radius` cells of it on every axis, unloads the
    /// others, and records the player's cell. Returns whether that cell was
    /// new and has to be hydrated from the world data, and the unloaded
    /// cells, each once.
    pub fn update_streaming(&mut self, cell: VoxelCell, radius: u32) -> (update: StreamUpdate)
        requires
            old(self).wf(),
        ensures
            final(self).wf(),
            (final(self)@, update.hydrate) == streamed(old(self)@, cell.key(), radius as int),
            cell_keys(update.unloaded@).to_set() == unloaded_by(old(self)@, cell.key(), radius as int),
            cell_keys(update.unloaded@).no_duplicates(),
            update.hydrate == !old(self)@.contains(cell.key()),
            final(self)@.contains(cell.key()),
            forall|a: (i32, i32, i32)| #![trigger final(self)@.contains(a)]
                old(self)@.contains(a) ==> (final(self)@.contains(a) <==> (
                    -(radius as int) <= a.0 - cell.x <= radius as int
                    && -(radius as int) <= a.1 - cell.y <= radius as int
                    && -(radius as int) <= a.2 - cell.z <= radius as int)),
            forall|a: (i32, i32, i32)| #![trigger cell_keys(update.unloaded@).contains(a)]
                old(self)@.contains(a) ==> (cell_keys(update.unloaded@).contains(a) <==> !(
                    -(radius as int) <= a.0 - cell.x <= radius as int
                    && -(radius as int) <= a.1 - cell.y <= radius as int
                    && -(radius as int) <= a.2 - cell.z <= radius as int)),
            forall|a: (i32, i32, i32)| #![trigger cell_keys(update.unloaded@).contains(a)]
                cell_keys(update.unloaded@).contains(a) ==> old(self)@.contains(a),
            forall|a: (i32, i32, i32)| #![trigger final(self)@.contains(a)]
                final(self)@.contains(a) ==> (old(self)@.contains(a) || a == cell.key()),
            forall|a: (i32, i32, i32)| #![trigger final(self)@.contains(a)]
                final(self)@.contains(a) ==> (
                    -(radius as int) <= a.0 - cell.x <= radius as int
                    && -(radius as int) <= a.1 - cell.y <= radius as int
                    && -(radius as int) <= a.2 - cell.z <= radius as int),
    {
        let ghost old_cells = self.loaded_cells@;
        let key: (i32, i32, i32) = (cell.x, cell.y, cell.z);
        let mut kept: Vec<(i32, i32, i32)> = Vec::new();
        let mut unloaded: Vec<VoxelCell> = Vec::new();
        let mut present: bool = false;
        let mut i: usize = 0;
        assert(old_cells.take(0) =~= Seq::<(i32, i32, i32)>::empty());
        assert(cell_keys(unloaded@) =~= Seq::<(i32, i32, i32)>::empty());
        while i < self.loaded_cells.len()
            invariant
                self.loaded_cells@ == old_cells,
                old_cells.no_duplicates(),
                key == cell.key(),
                i <= old_cells.len(),
                kept@.no_duplicates(),
                cell_keys(unloaded@).no_duplicates(),
                forall|a: (i32, i32, i32)|
                    #![trigger kept@.contains(a)]
                    #![trigger old_cells.take(i as int).contains(a)]
                    kept@.contains(a) <==> (old_cells.take(i as int).contains(a) && within(a, key, radius as int)),
                forall|a: (i32, i32, i32)|
                    #![trigger cell_keys(unloaded@).contains(a)]
                    #![trigger old_cells.take(i as int).contains(a)]
                    cell_keys(unloaded@).contains(a) <==> (old_cells.take(i as int).contains(a) && !within(a, key, radius as int)),
                present <==> old_cells.take(i as int).contains(key),
            decreases old_cells.len() - i,
        {
            let c: (i32, i32, i32) = self.loaded_cells[i];
            let ghost before = old_cells.take(i as int);
            let ghost kept_before = kept@;
            let ghost keys_before = cell_keys(unloaded@);
            proof {
                assert(old_cells.take(i + 1) =~= before.push(c));
                if before.contains(c) {
                    let j: int = choose|j: int| 0 <= j < before.len() && before[j] == c;
                    assert(old_cells[j] == old_cells[i as int]);
                }
            }
            if near(c, key, radius) {
                proof {
                    lemma_push_no_duplicates(kept@, c);
                }
                kept.push(c);
            } else {
                unloaded.push(VoxelCell { x: c.0, y: c.1, z: c.2 });
                proof {
                    assert(cell_keys(unloaded@) =~= keys_before.push(c));
                    lemma_push_no_duplicates(keys_before, c);
                }
            }
            if c.0 == key.0 && c.1 == key.1 && c.2 == key.2 {
                present = true;
            }
            proof {
                assert forall|a: (i32, i32, i32)|
                    #![trigger kept@.contains(a)]
                    #![trigger old_cells.take(i + 1).contains(a)]
                    kept@.contains(a) <==> (old_cells.take(i + 1).contains(a) && within(a, key, radius as int)) by {
                    lemma_push_contains(before, c, a);
                    assert(kept_before.contains(a) <==> (before.contains(a) && within(a, key, radius as int)));
                    if within(c, key, radius as int) {
                        lemma_push_contains(kept_before, c, a);
                    } else {
                        assert(kept@ == kept_before);
                    }
                }
                assert forall|a: (i32, i32, i32)|
                    #![trigger cell_keys(unloaded@).contains(a)]
                    #![trigger old_cells.take(i + 1).contains(a)]
                    cell_keys(unloaded@).contains(a) <==> (old_cells.take(i + 1).contains(a) && !within(a, key, radius as int)) by {
                    lemma_push_contains(before, c, a);
                    assert(keys_before.contains(a) <==> (before.contains(a) && !within(a, key, radius as int)));
                    if within(c, key, radius as int) {
                        assert(cell_keys(unloaded@) == keys_before);
                    } else {
                        lemma_push_contains(keys_before, c, a);
                    }
                }
                lemma_push_contains(before, c, key);
            }
            i = i + 1;
        }
        proof {
            assert(old_cells.take(old_cells.len() as int) =~= old_cells);
            assert(within(key, key, radius as int));
        }
        let ghost kept_before = kept@;
        if !present {
            proof {
                lemma_push_no_duplicates(kept@, key);
            }
            kept.push(key);
        }
        proof {
            let old_set = old_cells.to_set();
            assert forall|a: (i32, i32, i32)| kept@.contains(a) <==> (old_set.filter(|b: (i32, i32, i32)| within(b, key, radius as int)).insert(key).contains(a)) by {
                if !present {
                    lemma_push_contains(kept_before, key, a);
                }
            }
            assert(kept@.to_set() =~= streamed(old_set, key, radius as int).0);
            assert forall|a: (i32, i32, i32)| cell_keys(unloaded@).to_set().contains(a) <==> unloaded_by(old_set, key, radius as int).contains(a) by {
                assert(cell_keys(unloaded@).contains(a) <==> (old_cells.take(old_cells.len() as int).contains(a) && !within(a, key, radius as int)));
            }
            assert(cell_keys(unloaded@).to_set() =~= unloaded_by(old_set, key, radius as int));
            assert forall|a: (i32, i32, i32)| #[trigger] cell_keys(unloaded@).contains(a) <==> cell_keys(unloaded@).to_set().contains(a) by {}
        }
        self.loaded_cells = kept;
        StreamUpdate { hydrate: !present, unloaded }
    }
}

/// Streaming around the same cell twice in a row with the same vicinity
/// hydrates it at most once: the second call finds it loaded, asks for no
/// hydration, unloads nothing, and leaves the loaded set as the first call
/// left it.
pub proof fn lemma_streaming_idempotent(loaded: Set<(i32, i32, i32)>, cell: (i32, i32, i32), radius: nat)
    ensures
        streamed(streamed(loaded, cell, radius as int).0, cell, radius as int).1 == false,
        streamed(streamed(loaded, cell, radius as int).0, cell, radius as int).0 == streamed(loaded, cell, radius as int).0,
        unloaded_by(streamed(loaded, cell, radius as int).0, cell, radius as int) == Set::<(i32, i32, i32)>::empty(),
        streamed(loaded, cell, radius as int).0.contains(cell),
{
    let once = streamed(loaded, cell, radius as int).0;
    assert(within(cell, cell, radius as int));
    assert(once.filter(|a: (i32, i32, i32)| within(a, cell, radius as int)).insert(cell) =~= once);
    assert(unloaded_by(once, cell, radius as int) =~= Set::<(i32, i32, i32)>::empty());
}

/// After streaming, every loaded cell lies in the player's vicinity, so the
/// loaded set stays bounded however far the player travels.
pub proof fn lemma_streaming_bounded(loaded: Set<(i32, i32, i32)>, cell: (i32, i32, i32), radius: nat, other: (i32, i32, i32))
    requires
        streamed(loaded, cell, radius as int).0.contains(other),
    ensures
        -(radius as int) <= other.0 - cell.0 <= radius as int,
        -(radius as int) <= other.1 - cell.1 <= radius as int,
        -(radius as int) <= other.2 - cell.2 <= radius as int,
{
}

/// Streaming splits the cells loaded before into those kept (in the
/// vicinity) and those unloaded (outside it): none is both, none is lost.
pub proof fn lemma_streaming_partitions(loaded: Set<(i32, i32, i32)>, cell: (i32, i32, i32), radius: nat, other: (i32, i32, i32))
    requires
        loaded.contains(other),
    ensures
        streamed(loaded, cell, radius as int).0.contains(other) <==> !unloaded_by(loaded, cell, radius as int).contains(other),
        within(other, cell, radius as int) ==> streamed(loaded, cell, radius as int).0.contains(other),
{
}

/// With the widest vicinity no loaded cell is ever unloaded: two `i32`
/// coordinates differ by at most `u32::MAX`.
pub proof fn lemma_widest_vicinity_unloads_nothing(loaded: Set<(i32, i32, i32)>, cell: (i32, i32, i32))
    ensures
        unloaded_by(loaded, cell, u32::MAX as int) == Set::<(i32, i32, i32)>::empty(),
{
    assert(unloaded_by(loaded, cell, u32::MAX as int) =~= Set::<(i32, i32, i32)>::empty());
}

} // verus!
