//! The grid of chunks: which chunks exist, which chunks lie next to which,
//! and which of them have to be meshed again.
//!
//! One tick of the world streams new chunks into the range of each loader,
//! refreshes the neighbour references if a chunk was added, flips the
//! activation of chunks that entered or left a loader's range, and rebuilds
//! every dirty chunk, in this order.

use crate::chunk::view_of;
use crate::chunk::Chunk;
use crate::chunk::ChunkNeighbors;
use crate::chunk::ChunkNeighborsView;
use crate::chunk::ChunkView;
use crate::face::Direction;
use crate::index::index_entries;
use crate::index::index_get;
use crate::index::index_insert;
use crate::index::index_new;
use crate::index::ChunkIndex;
use crate::keys::key_before;
use crate::keys::key_tuple;
use crate::keys::neighbor_key;
use crate::keys::walked_before;
use crate::keys::ChunkWorldConfig;
use crate::keys::KeyRange;
use crate::mesh_data::MeshData;
use crate::vec3::IVec3;
use vstd::prelude::*;

verus! {

/// The handle of a chunk in the world: chunks are numbered in the order in
/// which they were inserted.
pub type ChunkId = usize;

/// The ids of the chunks next to a chunk in the six directions. They refer
/// to the neighbours without owning them.
#[derive(Clone, Copy, Debug, PartialEq, Eq, Structural)]
pub struct ChunkNeighborsInfo {
    pub front: Option<ChunkId>,
    pub back: Option<ChunkId>,
    pub right: Option<ChunkId>,
    pub left: Option<ChunkId>,
    pub top: Option<ChunkId>,
    pub bottom: Option<ChunkId>,
}

impl ChunkNeighborsInfo {
    /// No neighbour in any direction.
    pub open spec fn spec_none() -> ChunkNeighborsInfo {
        ChunkNeighborsInfo {
            front: None,
            back: None,
            right: None,
            left: None,
            top: None,
            bottom: None,
        }
    }

    /// The id of the neighbour in direction `d`, if there is one.
    pub open spec fn spec_get(&self, d: Direction) -> Option<ChunkId> {
        match d {
            Direction::Front => self.front,
            Direction::Back => self.back,
            Direction::Right => self.right,
            Direction::Left => self.left,
            Direction::Top => self.top,
            Direction::Bottom => self.bottom,
        }
    }

    /// The id of the neighbour in direction `d`, if there is one.
    #[verifier::when_used_as_spec(spec_get)]
    pub fn get(&self, d: Direction) -> (id: Option<ChunkId>)
        ensures
            id == self.spec_get(d),
    {
        match d {
            Direction::Front => self.front,
            Direction::Back => self.back,
            Direction::Right => self.right,
            Direction::Left => self.left,
            Direction::Top => self.top,
            Direction::Bottom => self.bottom,
        }
    }
}

/// Whether two sets of neighbour references name the same chunks.
pub fn same_neighbors(a: &ChunkNeighborsInfo, b: &ChunkNeighborsInfo) -> (same: bool)
    ensures
        same == (*a == *b),
{
    same_id(a.front, b.front) && same_id(a.back, b.back) && same_id(a.right, b.right) && same_id(
        a.left,
        b.left,
    ) && same_id(a.top, b.top) && same_id(a.bottom, b.bottom)
}

/// Whether two references name the same chunk, or both name none.
fn same_id(a: Option<ChunkId>, b: Option<ChunkId>) -> (same: bool)
    ensures
        same == (a == b),
{
    match (a, b) {
        (Some(i), Some(j)) => i == j,
        (None, None) => true,
        _ => false,
    }
}

impl Default for ChunkNeighborsInfo {
    /// No neighbour in any direction.
    fn default() -> (info: ChunkNeighborsInfo)
        ensures
            info == ChunkNeighborsInfo::spec_none(),
    {
        ChunkNeighborsInfo {
            front: None,
            back: None,
            right: None,
            left: None,
            top: None,
            bottom: None,
        }
    }
}

/// A sequence that got one more item holds what it held before and that
/// item.
proof fn lemma_push_contains<A>(s: Seq<A>, a: A, k: A)
    ensures
        s.push(a).contains(k) <==> s.contains(k) || k == a,
{
    if s.contains(k) {
        let i = choose|i: int| 0 <= i < s.len() && s[i] == k;
        assert(s.push(a)[i] == k);
    }
    if k == a {
        assert(s.push(a)[s.len() as int] == k);
    }
}

/// The mathematical content of a [`ChunkWorld`].
pub struct ChunkWorldView {
    /// The id of the chunk at each key that has one.
    pub ids: Map<(i32, i32, i32), ChunkId>,
    /// The key of each chunk, by id.
    pub keys: Seq<IVec3>,
    /// The chunks, by id.
    pub chunks: Seq<ChunkView>,
    /// The neighbour references of each chunk, by id.
    pub neighbors: Seq<ChunkNeighborsInfo>,
    /// Whether each chunk has to be meshed again, by id.
    pub dirty: Seq<bool>,
    /// Whether a chunk was inserted since the neighbour references were
    /// last refreshed.
    pub neighbors_changed: bool,
}

impl ChunkWorldView {
    /// The world without chunks.
    pub open spec fn empty() -> ChunkWorldView {
        ChunkWorldView {
            ids: Map::empty(),
            keys: Seq::empty(),
            chunks: Seq::empty(),
            neighbors: Seq::empty(),
            dirty: Seq::empty(),
            neighbors_changed: false,
        }
    }

    /// The number of chunks.
    pub open spec fn len(self) -> nat {
        self.keys.len()
    }

    /// The world's invariant: every chunk has a key, neighbour references
    /// and a dirty flag; the table of ids and the list of keys say the same;
    /// neighbour references name chunks of the world; and every chunk is
    /// whole and small enough to be meshed.
    pub open spec fn wf(self) -> bool {
        &&& self.chunks.len() == self.keys.len()
        &&& self.neighbors.len() == self.keys.len()
        &&& self.dirty.len() == self.keys.len()
        &&& forall|i: int|
            0 <= i < self.keys.len() ==> self.ids.contains_key(key_tuple(#[trigger] self.keys[i]))
                && self.ids[key_tuple(self.keys[i])] == i
        &&& forall|k: (i32, i32, i32)| #[trigger]
            self.ids.contains_key(k) ==> self.ids[k] < self.keys.len() && key_tuple(
                self.keys[self.ids[k] as int],
            ) == k
        &&& forall|i: int|
            0 <= i < self.chunks.len() ==> (#[trigger] self.chunks[i]).wf()
                && self.chunks[i].meshable()
        &&& forall|i: int, d: Direction|
            0 <= i < self.neighbors.len() ==> ((#[trigger] self.neighbors[i].spec_get(d))
                matches Some(j) ==> j < self.keys.len())
    }

    /// The id of the chunk at `key`, if the world holds one there.
    pub open spec fn id_of(self, key: IVec3) -> Option<ChunkId> {
        if self.ids.contains_key(key_tuple(key)) {
            Some(self.ids[key_tuple(key)])
        } else {
            None
        }
    }

    /// The id of the chunk next to `key` in direction `d`, if the world
    /// holds one there.
    pub open spec fn neighbor_id(self, key: IVec3, d: Direction) -> Option<ChunkId> {
        match neighbor_key(key, d) {
            Some(next) => self.id_of(next),
            None => None,
        }
    }

    /// The ids of the chunks next to `key` in the six directions.
    pub open spec fn neighbors_of(self, key: IVec3) -> ChunkNeighborsInfo {
        ChunkNeighborsInfo {
            front: self.neighbor_id(key, Direction::Front),
            back: self.neighbor_id(key, Direction::Back),
            right: self.neighbor_id(key, Direction::Right),
            left: self.neighbor_id(key, Direction::Left),
            top: self.neighbor_id(key, Direction::Top),
            bottom: self.neighbor_id(key, Direction::Bottom),
        }
    }

    /// The world after its neighbour references were refreshed. Where no
    /// chunk was inserted since the last refresh, nothing changes.
    /// Otherwise every chunk gets the ids of the chunks that now lie next to
    /// its key, a chunk whose references changed becomes dirty, and the
    /// world is no longer due for a refresh.
    pub open spec fn refreshed(self) -> ChunkWorldView {
        if self.neighbors_changed {
            ChunkWorldView {
                neighbors: Seq::new(self.keys.len(), |i: int| self.neighbors_of(self.keys[i])),
                dirty: Seq::new(
                    self.keys.len(),
                    |i: int| self.dirty[i] || self.neighbors_of(self.keys[i]) != self.neighbors[i],
                ),
                neighbors_changed: false,
                ..self
            }
        } else {
            self
        }
    }

    /// The world after the chunk `id` was told whether it lies inside a
    /// loader's range: its activation follows the verdict, and it becomes
    /// dirty if its activation flipped. An id that names no chunk changes
    /// nothing.
    pub open spec fn with_activation(self, id: ChunkId, inside: bool) -> ChunkWorldView {
        if id < self.chunks.len() && self.chunks[id as int].activated != inside {
            ChunkWorldView {
                chunks: self.chunks.update(
                    id as int,
                    ChunkView { activated: inside, ..self.chunks[id as int] },
                ),
                dirty: self.dirty.update(id as int, true),
                ..self
            }
        } else {
            self
        }
    }

    /// The world after the wireframe flag of every chunk was flipped: every
    /// chunk is dirty.
    pub open spec fn with_wireframes_toggled(self) -> ChunkWorldView {
        ChunkWorldView {
            chunks: Seq::new(
                self.chunks.len(),
                |i: int| ChunkView { wireframe: !self.chunks[i].wireframe, ..self.chunks[i] },
            ),
            dirty: Seq::new(self.dirty.len(), |i: int| true),
            ..self
        }
    }

    /// The chunk `id`, if the world holds it.
    pub open spec fn chunk(self, id: Option<ChunkId>) -> Option<ChunkView> {
        match id {
            Some(j) => if j < self.chunks.len() {
                Some(self.chunks[j as int])
            } else {
                None
            },
            None => None,
        }
    }

    /// The chunks that the neighbour references of chunk `id` name, as they
    /// stand.
    pub open spec fn snapshot(self, id: int) -> ChunkNeighborsView {
        ChunkNeighborsView {
            front: self.chunk(self.neighbors[id].front),
            back: self.chunk(self.neighbors[id].back),
            right: self.chunk(self.neighbors[id].right),
            left: self.chunk(self.neighbors[id].left),
            top: self.chunk(self.neighbors[id].top),
            bottom: self.chunk(self.neighbors[id].bottom),
        }
    }

    /// The world after every dirty chunk was rebuilt: its faces are culled
    /// against the chunks that its neighbour references name, all taken as
    /// they stood before any chunk was rebuilt, and no chunk is dirty.
    pub open spec fn rebuilt(self) -> ChunkWorldView {
        ChunkWorldView {
            chunks: Seq::new(
                self.chunks.len(),
                |i: int|
                    if self.dirty[i] {
                        self.chunks[i].updated(self.snapshot(i))
                    } else {
                        self.chunks[i]
                    },
            ),
            dirty: Seq::new(self.dirty.len(), |i: int| false),
            ..self
        }
    }

    /// The world after `chunk` was offered for `key`: inserted, where the
    /// world held no chunk at `key`, else turned away.
    pub open spec fn with_offered(self, key: IVec3, chunk: ChunkView) -> ChunkWorldView {
        if self.id_of(key).is_some() {
            self
        } else {
            self.inserted(key, chunk)
        }
    }

    /// The world after the first `n` of the chunks `spawned` were offered
    /// for their keys, one after the other.
    pub open spec fn with_spawned(self, spawned: Seq<(IVec3, ChunkView)>, n: nat) -> ChunkWorldView
        decreases n,
    {
        if n == 0 {
            self
        } else {
            self.with_spawned(spawned, (n - 1) as nat).with_offered(
                spawned[n - 1].0,
                spawned[n - 1].1,
            )
        }
    }

    /// The world after the first `n` of the verdicts were passed on to the
    /// chunks that they name, one after the other.
    pub open spec fn with_verdicts(self, verdicts: Seq<(ChunkId, bool)>, n: nat) -> ChunkWorldView
        decreases n,
    {
        if n == 0 {
            self
        } else {
            self.with_verdicts(verdicts, (n - 1) as nat).with_activation(
                verdicts[n - 1].0,
                verdicts[n - 1].1,
            )
        }
    }

    /// The world after one tick, up to the rebuild. If the wireframe toggle
    /// was triggered, every chunk's wireframe flag is flipped. Then the new
    /// chunks are registered, the neighbour references are refreshed, and
    /// the verdicts of the loaders are passed on, in this order.
    pub open spec fn advanced(
        self,
        toggle_wireframes: bool,
        spawned: Seq<(IVec3, ChunkView)>,
        verdicts: Seq<(ChunkId, bool)>,
    ) -> ChunkWorldView {
        let toggled = if toggle_wireframes {
            self.with_wireframes_toggled()
        } else {
            self
        };
        toggled.with_spawned(spawned, spawned.len()).refreshed().with_verdicts(
            verdicts,
            verdicts.len(),
        )
    }

    /// The world after `chunk` was inserted at `key`, where the world held
    /// no chunk: the chunk takes the next id, has no neighbour references
    /// yet, is dirty, and the neighbour references of the world are due for
    /// a refresh.
    pub open spec fn inserted(self, key: IVec3, chunk: ChunkView) -> ChunkWorldView {
        ChunkWorldView {
            ids: self.ids.insert(key_tuple(key), self.keys.len() as usize),
            keys: self.keys.push(key),
            chunks: self.chunks.push(chunk),
            neighbors: self.neighbors.push(ChunkNeighborsInfo::spec_none()),
            dirty: self.dirty.push(true),
            neighbors_changed: true,
        }
    }
}

/// The new chunks of a tick as the world's model sees them.
pub open spec fn spawned_views(spawned: Seq<(IVec3, Chunk)>) -> Seq<(IVec3, ChunkView)> {
    Seq::new(spawned.len(), |i: int| (spawned[i].0, spawned[i].1@))
}

/// A world stays well-formed when only the flags and face masks of its
/// chunks and its dirty flags change.
proof fn lemma_flags_keep_wf(before: ChunkWorldView, after: ChunkWorldView)
    requires
        before.wf(),
        after.ids == before.ids,
        after.keys == before.keys,
        after.neighbors == before.neighbors,
        after.chunks.len() == before.chunks.len(),
        after.dirty.len() == before.dirty.len(),
        forall|i: int|
            0 <= i < after.chunks.len() ==> (#[trigger] after.chunks[i]).size
                == before.chunks[i].size && after.chunks[i].blocks.len()
                == before.chunks[i].blocks.len(),
    ensures
        after.wf(),
{
    assert forall|i: int| 0 <= i < after.chunks.len() implies (#[trigger] after.chunks[i]).wf()
        && after.chunks[i].meshable() by {
        assert(before.chunks[i].wf() && before.chunks[i].meshable());
    }
}

/// Activation follows the loaders. A chunk that is not drawn and is told
/// that it lies inside a loader's range becomes drawn and dirty; told so
/// again, it is left as it is. Once the dirty chunks have been rebuilt, the
/// chunk is clean, and told that it lies outside it stops being drawn and
/// becomes dirty again. No other chunk is touched by either verdict.
pub proof fn lemma_activation_follows_loader(world: ChunkWorldView, id: ChunkId)
    requires
        world.wf(),
        id < world.len(),
        !world.chunks[id as int].activated,
    ensures
        ({
            let entered = world.with_activation(id, true);
            let rebuilt = entered.rebuilt();
            let left = rebuilt.with_activation(id, false);
            &&& entered.chunks[id as int].activated
            &&& entered.dirty[id as int]
            &&& entered.with_activation(id, true) == entered
            &&& rebuilt.chunks[id as int].activated
            &&& !rebuilt.dirty[id as int]
            &&& !left.chunks[id as int].activated
            &&& left.dirty[id as int]
            &&& left.with_activation(id, false) == left
            &&& forall|other: int|
                0 <= other < world.len() && other != id ==> (#[trigger] entered.chunks[other])
                    == world.chunks[other] && entered.dirty[other] == world.dirty[other]
                    && left.chunks[other] == rebuilt.chunks[other] && left.dirty[other]
                    == rebuilt.dirty[other]
        }),
{
}

/// The streaming grid: every chunk that was ever generated, by key and by
/// id, with its neighbour references and its dirty flag.
pub struct ChunkWorld {
    index: ChunkIndex,
    keys: Vec<IVec3>,
    chunks: Vec<Chunk>,
    neighbors: Vec<ChunkNeighborsInfo>,
    dirty: Vec<bool>,
    neighbors_changed: bool,
}

impl View for ChunkWorld {
    type V = ChunkWorldView;

    closed spec fn view(&self) -> ChunkWorldView {
        ChunkWorldView {
            ids: index_entries(self.index),
            keys: self.keys@,
            chunks: Seq::new(self.chunks@.len(), |i: int| self.chunks@[i]@),
            neighbors: self.neighbors@,
            dirty: self.dirty@,
            neighbors_changed: self.neighbors_changed,
        }
    }
}

impl ChunkWorld {
    /// A world without chunks.
    pub fn new() -> (world: ChunkWorld)
        ensures
            world@ == ChunkWorldView::empty(),
            world@.wf(),
    {
        let world = ChunkWorld {
            index: index_new(),
            keys: Vec::new(),
            chunks: Vec::new(),
            neighbors: Vec::new(),
            dirty: Vec::new(),
            neighbors_changed: false,
        };
        assert(world@.chunks =~= Seq::empty());
        world
    }

    /// The number of chunks.
    pub fn len(&self) -> (n: usize)
        requires
            self@.wf(),
        ensures
            n == self@.len(),
    {
        self.keys.len()
    }

    /// The id of the chunk at `key`, if the world holds one there.
    pub fn get(&self, key: IVec3) -> (id: Option<ChunkId>)
        ensures
            id == self@.id_of(key),
    {
        index_get(&self.index, (key.x, key.y, key.z))
    }

    /// Whether the world holds a chunk at `key`.
    pub fn contains_key(&self, key: IVec3) -> (found: bool)
        ensures
            found == self@.id_of(key).is_some(),
    {
        self.get(key).is_some()
    }

    /// Registers `chunk` at `key` unless the world holds a chunk there.
    ///
    /// A new chunk takes the next id, which is returned; it is marked dirty,
    /// and the neighbour references of the world become due for a refresh.
    /// Where the world holds a chunk at `key`, nothing changes and nothing
    /// is returned.
    pub fn insert(&mut self, key: IVec3, chunk: Chunk) -> (id: Option<ChunkId>)
        requires
            old(self)@.wf(),
            chunk@.wf(),
            chunk@.meshable(),
        ensures
            final(self)@.wf(),
            old(self)@.id_of(key).is_some() ==> id.is_none() && final(self)@ == old(self)@,
            old(self)@.id_of(key).is_none() ==> id == Some(old(self)@.len() as usize)
                && final(self)@ == old(self)@.inserted(key, chunk@),
    {
        if self.contains_key(key) {
            return None;
        }
        let id: usize = self.keys.len();
        let ghost before = self@;
        index_insert(&mut self.index, (key.x, key.y, key.z), id);
        self.keys.push(key);
        self.chunks.push(chunk);
        self.neighbors.push(ChunkNeighborsInfo::default());
        self.dirty.push(true);
        self.neighbors_changed = true;
        proof {
            assert(self@.chunks =~= before.chunks.push(chunk@));
            assert(self@ == before.inserted(key, chunk@));
            let after = self@;
            assert forall|i: int| 0 <= i < after.keys.len() implies after.ids.contains_key(
                key_tuple(#[trigger] after.keys[i]),
            ) && after.ids[key_tuple(after.keys[i])] == i by {
                if i < before.keys.len() {
                    assert(before.ids.contains_key(key_tuple(before.keys[i])));
                }
            }
            assert forall|i: int, d: Direction| 0 <= i < after.neighbors.len() implies ((
            #[trigger] after.neighbors[i].spec_get(d)) matches Some(j) ==> j < after.keys.len()) by {
                if i < before.neighbors.len() {
                    assert(after.neighbors[i] == before.neighbors[i]);
                    assert(before.neighbors[i].spec_get(d) matches Some(j) ==> j
                        < before.keys.len());
                }
            }
        }
        Some(id)
    }
    /// The keys that `range` covers and at which the world holds no chunk
    /// yet, in the order in which the range is walked: by `x`, then by `y`,
    /// then by `z`.
    pub fn missing_keys(&self, range: KeyRange, config: &ChunkWorldConfig) -> (keys: Vec<IVec3>)
        ensures
            forall|k: IVec3|
                keys@.contains(k) <==> range.covers(k, config.y_chunks) && self@.id_of(k).is_none(),
            forall|i: int, j: int|
                0 <= i < j < keys@.len() ==> key_before(#[trigger] keys@[i], #[trigger] keys@[j]),
    {
        let y_chunks: i32 = config.y_chunks;
        let mut keys: Vec<IVec3> = Vec::new();
        let mut x: i32 = range.min_x;
        while x < range.max_x
            invariant
                range.min_x <= x,
                forall|k: IVec3|
                    keys@.contains(k) <==> range.covers(k, y_chunks) && self@.id_of(k).is_none()
                        && walked_before(k, x as int, 0, range.min_z as int),
                forall|i: int, j: int|
                    0 <= i < j < keys@.len() ==> key_before(
                        #[trigger] keys@[i],
                        #[trigger] keys@[j],
                    ),
            decreases range.max_x - x,
        {
            let mut y: i32 = 0;
            while y < y_chunks
                invariant
                    0 <= y,
                    range.min_x <= x < range.max_x,
                    forall|k: IVec3|
                        keys@.contains(k) <==> range.covers(k, y_chunks) && self@.id_of(
                            k,
                        ).is_none() && walked_before(k, x as int, y as int, range.min_z as int),
                    forall|i: int, j: int|
                        0 <= i < j < keys@.len() ==> key_before(
                            #[trigger] keys@[i],
                            #[trigger] keys@[j],
                        ),
                decreases y_chunks - y,
            {
                let mut z: i32 = range.min_z;
                while z < range.max_z
                    invariant
                        range.min_z <= z,
                        0 <= y < y_chunks,
                        range.min_x <= x < range.max_x,
                        forall|k: IVec3|
                            keys@.contains(k) <==> range.covers(k, y_chunks) && self@.id_of(
                                k,
                            ).is_none() && walked_before(k, x as int, y as int, z as int),
                        forall|i: int, j: int|
                            0 <= i < j < keys@.len() ==> key_before(
                                #[trigger] keys@[i],
                                #[trigger] keys@[j],
                            ),
                    decreases range.max_z - z,
                {
                    let key = IVec3 { x, y, z };
                    if !self.contains_key(key) {
                        proof {
                            let before = keys@;
                            assert forall|k: IVec3| before.push(key).contains(k) <==> range.covers(
                                k,
                                y_chunks,
                            ) && self@.id_of(k).is_none() && walked_before(
                                k,
                                x as int,
                                y as int,
                                z + 1,
                            ) by {
                                lemma_push_contains(before, key, k);
                            }
                            assert forall|i: int| 0 <= i < before.len() implies key_before(
                                #[trigger] before[i],
                                key,
                            ) by {
                                assert(before.contains(before[i]));
                            }
                        }
                        keys.push(key);
                    }
                    z += 1;
                }
                y += 1;
            }
            x += 1;
        }
        keys
    }

    /// The id of the chunk next to `key` in direction `d`, if the world
    /// holds one there.
    pub fn neighbor_id(&self, key: IVec3, d: Direction) -> (id: Option<ChunkId>)
        ensures
            id == self@.neighbor_id(key, d),
    {
        let at_edge: bool = match d {
            Direction::Front => key.z == i32::MAX,
            Direction::Back => key.z == i32::MIN,
            Direction::Right => key.x == i32::MAX,
            Direction::Left => key.x == i32::MIN,
            Direction::Top => key.y == i32::MAX,
            Direction::Bottom => key.y == i32::MIN,
        };
        if at_edge {
            return None;
        }
        let next: IVec3 = match d {
            Direction::Front => IVec3 { x: key.x, y: key.y, z: key.z + 1 },
            Direction::Back => IVec3 { x: key.x, y: key.y, z: key.z - 1 },
            Direction::Right => IVec3 { x: key.x + 1, y: key.y, z: key.z },
            Direction::Left => IVec3 { x: key.x - 1, y: key.y, z: key.z },
            Direction::Top => IVec3 { x: key.x, y: key.y + 1, z: key.z },
            Direction::Bottom => IVec3 { x: key.x, y: key.y - 1, z: key.z },
        };
        self.get(next)
    }

    /// The ids of the chunks next to `key` in the six directions.
    pub fn neighbors_of(&self, key: IVec3) -> (info: ChunkNeighborsInfo)
        ensures
            info == self@.neighbors_of(key),
    {
        ChunkNeighborsInfo {
            front: self.neighbor_id(key, Direction::Front),
            back: self.neighbor_id(key, Direction::Back),
            right: self.neighbor_id(key, Direction::Right),
            left: self.neighbor_id(key, Direction::Left),
            top: self.neighbor_id(key, Direction::Top),
            bottom: self.neighbor_id(key, Direction::Bottom),
        }
    }

    /// Brings the neighbour references of every chunk up to date, if a
    /// chunk was inserted since they were last refreshed. A chunk whose
    /// references change becomes dirty.
    pub fn refresh_neighbors(&mut self)
        requires
            old(self)@.wf(),
        ensures
            final(self)@ == old(self)@.refreshed(),
            final(self)@.wf(),
    {
        if !self.neighbors_changed {
            return ;
        }
        let ghost before = self@;
        let count: usize = self.keys.len();
        let mut i: usize = 0;
        while i < count
            invariant
                i <= count,
                count == before.keys.len(),
                before.wf(),
                before.neighbors_changed,
                self@.ids == before.ids,
                self@.keys == before.keys,
                self@.chunks == before.chunks,
                self@.neighbors_changed == before.neighbors_changed,
                self@.neighbors.len() == count,
                self@.dirty.len() == count,
                forall|k: int|
                    0 <= k < i ==> (#[trigger] self@.neighbors[k]) == before.refreshed().neighbors[k],
                forall|k: int| i <= k < count ==> (#[trigger] self@.neighbors[k]) == before.neighbors[k],
                forall|k: int| 0 <= k < i ==> (#[trigger] self@.dirty[k]) == before.refreshed().dirty[k],
                forall|k: int| i <= k < count ==> (#[trigger] self@.dirty[k]) == before.dirty[k],
            decreases count - i,
        {
            let info = self.neighbors_of(self.keys[i]);
            if !same_neighbors(&info, &self.neighbors[i]) {
                self.dirty.set(i, true);
            }
            self.neighbors.set(i, info);
            i += 1;
        }
        self.neighbors_changed = false;
        proof {
            let after = self@;
            assert(after.neighbors =~= before.refreshed().neighbors);
            assert(after.dirty =~= before.refreshed().dirty);
            assert forall|k: int, d: Direction| 0 <= k < after.neighbors.len() implies ((
            #[trigger] after.neighbors[k].spec_get(d)) matches Some(j) ==> j < after.keys.len()) by {
                assert(after.neighbors[k] == before.neighbors_of(before.keys[k]));
            }
        }
    }

    /// Whether a chunk was inserted since the neighbour references were
    /// last refreshed.
    pub fn neighbors_changed(&self) -> (changed: bool)
        ensures
            changed == self@.neighbors_changed,
    {
        self.neighbors_changed
    }

    /// The key of the chunk `id`.
    pub fn key(&self, id: ChunkId) -> (key: IVec3)
        requires
            self@.wf(),
            id < self@.len(),
        ensures
            key == self@.keys[id as int],
    {
        self.keys[id]
    }

    /// The chunk `id`.
    pub fn chunk(&self, id: ChunkId) -> (chunk: &Chunk)
        requires
            self@.wf(),
            id < self@.len(),
        ensures
            chunk@ == self@.chunks[id as int],
    {
        &self.chunks[id]
    }

    /// The neighbour references of the chunk `id`.
    pub fn neighbors(&self, id: ChunkId) -> (info: ChunkNeighborsInfo)
        requires
            self@.wf(),
            id < self@.len(),
        ensures
            info == self@.neighbors[id as int],
    {
        self.neighbors[id]
    }

    /// Whether the chunk `id` has to be meshed again.
    pub fn is_dirty(&self, id: ChunkId) -> (dirty: bool)
        requires
            self@.wf(),
            id < self@.len(),
        ensures
            dirty == self@.dirty[id as int],
    {
        self.dirty[id]
    }

    /// Tells the chunk `id` whether it lies inside a loader's range. Its
    /// activation follows the verdict; if that flips it, the chunk becomes
    /// dirty and `true` is returned.
    pub fn set_activation(&mut self, id: ChunkId, inside: bool) -> (flipped: bool)
        requires
            old(self)@.wf(),
        ensures
            final(self)@ == old(self)@.with_activation(id, inside),
            final(self)@.wf(),
            flipped == (id < old(self)@.len() && old(self)@.chunks[id as int].activated != inside),
    {
        if id >= self.chunks.len() || self.chunks[id].activated == inside {
            return false;
        }
        let ghost before = self@;
        self.chunks[id].activated = inside;
        self.dirty.set(id, true);
        proof {
            assert(self@.chunks =~= before.with_activation(id, inside).chunks);
            assert(self@.dirty =~= before.with_activation(id, inside).dirty);
            lemma_flags_keep_wf(before, self@);
        }
        true
    }

    /// Flips the wireframe flag of every chunk and marks every chunk dirty.
    pub fn toggle_wireframes(&mut self)
        requires
            old(self)@.wf(),
        ensures
            final(self)@ == old(self)@.with_wireframes_toggled(),
            final(self)@.wf(),
    {
        let ghost before = self@;
        let count: usize = self.chunks.len();
        let mut i: usize = 0;
        while i < count
            invariant
                i <= count,
                count == before.chunks.len(),
                before.wf(),
                self@.ids == before.ids,
                self@.keys == before.keys,
                self@.neighbors == before.neighbors,
                self@.neighbors_changed == before.neighbors_changed,
                self.chunks@.len() == count,
                self.dirty@.len() == count,
                forall|k: int|
                    0 <= k < i ==> (#[trigger] self.chunks@[k])@
                        == before.with_wireframes_toggled().chunks[k],
                forall|k: int| i <= k < count ==> (#[trigger] self.chunks@[k])@ == before.chunks[k],
                forall|k: int| 0 <= k < i ==> (#[trigger] self.dirty@[k]),
                forall|k: int| i <= k < count ==> (#[trigger] self.dirty@[k]) == before.dirty[k],
            decreases count - i,
        {
            let wireframe: bool = self.chunks[i].wireframe;
            self.chunks[i].wireframe = !wireframe;
            self.dirty.set(i, true);
            i += 1;
        }
        proof {
            assert(self@.chunks =~= before.with_wireframes_toggled().chunks);
            assert(self@.dirty =~= before.with_wireframes_toggled().dirty);
            lemma_flags_keep_wf(before, self@);
        }
    }

    /// A copy of the chunk that `id` names, if it names one.
    fn copy_of(&self, id: Option<ChunkId>) -> (chunk: Option<Chunk>)
        requires
            self@.wf(),
        ensures
            view_of(chunk) == self@.chunk(id),
    {
        match id {
            Some(j) => if j < self.chunks.len() {
                Some(self.chunks[j].clone())
            } else {
                None
            },
            None => None,
        }
    }

    /// Copies of the chunks that the neighbour references of the chunk `id`
    /// name, as they stand.
    pub fn snapshot(&self, id: ChunkId) -> (neighbors: ChunkNeighbors)
        requires
            self@.wf(),
            id < self@.len(),
        ensures
            neighbors@ == self@.snapshot(id as int),
            neighbors@.wf(),
    {
        let info: ChunkNeighborsInfo = self.neighbors[id];
        let neighbors = ChunkNeighbors {
            front: self.copy_of(info.front),
            back: self.copy_of(info.back),
            right: self.copy_of(info.right),
            left: self.copy_of(info.left),
            top: self.copy_of(info.top),
            bottom: self.copy_of(info.bottom),
        };
        proof {
            let world = self@;
            assert forall|d: Direction| (#[trigger] neighbors@.get(d)) matches Some(chunk)
                ==> chunk.wf() by {
                if let Some(j) = info.spec_get(d) {
                    if j < world.chunks.len() {
                        assert(world.chunks[j as int].wf());
                    }
                }
            }
        }
        neighbors
    }

    /// Rebuilds every dirty chunk once and clears its dirty flag.
    ///
    /// First a snapshot of the neighbours of each dirty chunk is taken.
    /// Then, in ascending order of the ids, each dirty chunk has its faces
    /// culled against its snapshot and is meshed. What comes back is the
    /// mesh of each rebuilt chunk with the chunk's id, in that order.
    pub fn rebuild_dirty(&mut self) -> (meshes: Vec<(ChunkId, MeshData)>)
        requires
            old(self)@.wf(),
        ensures
            final(self)@ == old(self)@.rebuilt(),
            final(self)@.wf(),
            forall|id: ChunkId|
                (exists|k: int| 0 <= k < meshes@.len() && (#[trigger] meshes@[k]).0 == id) <==> id
                    < old(self)@.len() && old(self)@.dirty[id as int],
            forall|k: int, l: int|
                0 <= k < l < meshes@.len() ==> (#[trigger] meshes@[k]).0 < (#[trigger] meshes@[l]).0,
            forall|k: int|
                0 <= k < meshes@.len() ==> (#[trigger] meshes@[k]).0 < final(self)@.len()
                    && meshes@[k].1@ == final(self)@.chunks[meshes@[k].0 as int].mesh(),
    {
        let ghost before = self@;
        let count: usize = self.chunks.len();
        let mut snapshots: Vec<Option<ChunkNeighbors>> = Vec::new();
        let mut i: usize = 0;
        while i < count
            invariant
                i <= count,
                count == before.len(),
                self@ == before,
                before.wf(),
                snapshots@.len() == i,
                forall|k: int|
                    0 <= k < i && before.dirty[k] ==> ((#[trigger] snapshots@[k]) matches Some(n)
                        && n@ == before.snapshot(k) && n@.wf()),
            decreases count - i,
        {
            if self.dirty[i] {
                let neighbors = self.snapshot(i);
                snapshots.push(Some(neighbors));
            } else {
                snapshots.push(None);
            }
            i += 1;
        }
        let mut meshes: Vec<(ChunkId, MeshData)> = Vec::new();
        let mut i: usize = 0;
        while i < count
            invariant
                i <= count,
                count == before.len(),
                before.wf(),
                snapshots@.len() == count,
                forall|k: int|
                    0 <= k < count && before.dirty[k] ==> ((#[trigger] snapshots@[k]) matches Some(
                        n,
                    ) && n@ == before.snapshot(k) && n@.wf()),
                self@.ids == before.ids,
                self@.keys == before.keys,
                self@.neighbors == before.neighbors,
                self@.neighbors_changed == before.neighbors_changed,
                self.chunks@.len() == count,
                self.dirty@.len() == count,
                forall|k: int|
                    0 <= k < i ==> (#[trigger] self.chunks@[k])@ == before.rebuilt().chunks[k],
                forall|k: int| i <= k < count ==> (#[trigger] self.chunks@[k])@ == before.chunks[k],
                forall|k: int| 0 <= k < i ==> !(#[trigger] self.dirty@[k]),
                forall|k: int| i <= k < count ==> (#[trigger] self.dirty@[k]) == before.dirty[k],
                forall|id: ChunkId|
                    (exists|k: int| 0 <= k < meshes@.len() && (#[trigger] meshes@[k]).0 == id)
                        <==> id < i && before.dirty[id as int],
                forall|k: int, l: int|
                    0 <= k < l < meshes@.len() ==> (#[trigger] meshes@[k]).0
                        < (#[trigger] meshes@[l]).0,
                forall|k: int|
                    0 <= k < meshes@.len() ==> (#[trigger] meshes@[k]).0 < i && meshes@[k].1@
                        == before.rebuilt().chunks[meshes@[k].0 as int].mesh(),
            decreases count - i,
        {
            if self.dirty[i] {
                assert(before.chunks[i as int].wf() && before.chunks[i as int].meshable());
                match &snapshots[i] {
                    Some(neighbors) => {
                        self.chunks[i].update(neighbors);
                    },
                    None => {},
                }
                self.dirty.set(i, false);
                let mesh = self.chunks[i].mesh_data();
                proof {
                    let earlier = meshes@;
                    let entry = (i, mesh);
                    assert forall|id: ChunkId|
                        (exists|k: int|
                            0 <= k < earlier.push(entry).len() && (#[trigger] earlier.push(
                                entry,
                            )[k]).0 == id) <==> id < i + 1 && before.dirty[id as int] by {
                        if id < i + 1 && before.dirty[id as int] {
                            if id == i {
                                assert(earlier.push(entry)[earlier.len() as int].0 == id);
                            } else {
                                let k = choose|k: int|
                                    0 <= k < earlier.len() && (#[trigger] earlier[k]).0 == id;
                                assert(earlier.push(entry)[k].0 == id);
                            }
                        }
                        if exists|k: int|
                            0 <= k < earlier.push(entry).len() && (#[trigger] earlier.push(
                                entry,
                            )[k]).0 == id {
                            let k = choose|k: int|
                                0 <= k < earlier.push(entry).len() && (#[trigger] earlier.push(
                                    entry,
                                )[k]).0 == id;
                            if k < earlier.len() {
                                assert(earlier[k].0 == id);
                            }
                        }
                    }
                }
                meshes.push((i, mesh));
            }
            i += 1;
        }
        proof {
            assert(self@.chunks =~= before.rebuilt().chunks);
            assert(self@.dirty =~= before.rebuilt().dirty);
            lemma_flags_keep_wf(before, self@);
        }
        meshes
    }

    /// One tick of the world.
    ///
    /// `toggle_wireframes` says whether the wireframe toggle was triggered,
    /// `spawned` holds the chunks generated for the keys that the loaders
    /// newly cover, and `verdicts` says of chunks whether they lie inside a
    /// loader's range. The steps run in a fixed order: the toggle, the
    /// registration of the new chunks, the refresh of the neighbour
    /// references, the verdicts, and last the rebuild of every dirty chunk,
    /// so that a rebuild always sees neighbour references that are up to
    /// date. What comes back is the mesh of each rebuilt chunk with the
    /// chunk's id, in ascending order of the ids.
    pub fn tick(
        &mut self,
        toggle_wireframes: bool,
        spawned: Vec<(IVec3, Chunk)>,
        verdicts: &Vec<(ChunkId, bool)>,
    ) -> (meshes: Vec<(ChunkId, MeshData)>)
        requires
            old(self)@.wf(),
            forall|i: int|
                0 <= i < spawned@.len() ==> (#[trigger] spawned@[i]).1@.wf()
                    && spawned@[i].1@.meshable(),
        ensures
            final(self)@ == old(self)@.advanced(
                toggle_wireframes,
                spawned_views(spawned@),
                verdicts@,
            ).rebuilt(),
            final(self)@.wf(),
            !final(self)@.neighbors_changed,
            forall|id: ChunkId|
                (exists|k: int| 0 <= k < meshes@.len() && (#[trigger] meshes@[k]).0 == id) <==> id
                    < final(self)@.len() && old(self)@.advanced(
                    toggle_wireframes,
                    spawned_views(spawned@),
                    verdicts@,
                ).dirty[id as int],
            forall|k: int, l: int|
                0 <= k < l < meshes@.len() ==> (#[trigger] meshes@[k]).0 < (#[trigger] meshes@[l]).0,
            forall|k: int|
                0 <= k < meshes@.len() ==> (#[trigger] meshes@[k]).0 < final(self)@.len()
                    && meshes@[k].1@ == final(self)@.chunks[meshes@[k].0 as int].mesh(),
    {
        if toggle_wireframes {
            self.toggle_wireframes();
        }
        let ghost toggled = self@;
        let ghost views = spawned_views(spawned@);
        let ghost offered = spawned@;
        for entry in iter: spawned
            invariant
                iter.seq() == offered,
                views == spawned_views(offered),
                forall|i: int|
                    0 <= i < offered.len() ==> (#[trigger] offered[i]).1@.wf()
                        && offered[i].1@.meshable(),
                self@.wf(),
                self@ == toggled.with_spawned(views, iter.index() as nat),
        {
            let ghost i = iter.index();
            assert(offered[i] == entry);
            assert(views[i] == (entry.0, entry.1@));
            let (key, chunk) = entry;
            self.insert(key, chunk);
        }
        self.refresh_neighbors();
        let ghost refreshed = self@;
        let mut i: usize = 0;
        while i < verdicts.len()
            invariant
                i <= verdicts@.len(),
                self@.wf(),
                !self@.neighbors_changed,
                self@ == refreshed.with_verdicts(verdicts@, i as nat),
            decreases verdicts@.len() - i,
        {
            let (id, inside) = verdicts[i];
            self.set_activation(id, inside);
            i += 1;
        }
        self.rebuild_dirty()
    }

}

} // verus!
