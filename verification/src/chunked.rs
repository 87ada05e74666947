//! The chunked incremental mesh cache: block meshes with version stamps,
//! dirty tracking fed by space change notifications, and a per-frame
//! budgeted chunk mesh updater.

use vstd::prelude::*;

use crate::math::{Face, GridAab, GridVector};
use crate::space::{BlockIndex, Space, SpaceChange};
use crate::triangulator::{
    triangulate_block, triangulate_blocks, BlockTriangulation, SpaceTriangulation,
    TextureAllocator, TextureTile,
};

verus! {

/// Position of a chunk: the chunk covering cubes
/// `[x*size, (x+1)*size)` on each axis.
#[derive(Clone, Copy, Debug, PartialEq, Eq, Hash, Structural)]
pub struct ChunkPos {
    pub x: i32,
    pub y: i32,
    pub z: i32,
}

impl ChunkPos {
    pub fn new(x: i32, y: i32, z: i32) -> (r: ChunkPos)
        ensures
            r == (ChunkPos { x, y, z }),
    {
        ChunkPos { x, y, z }
    }
}

/// The chunk containing a cube: floor division of each coordinate.
pub open spec fn spec_cube_to_chunk(cube: GridVector, chunk_size: int) -> ChunkPos {
    ChunkPos {
        x: (cube.x as int / chunk_size) as i32,
        y: (cube.y as int / chunk_size) as i32,
        z: (cube.z as int / chunk_size) as i32,
    }
}

/// Floor division for coordinates in a safe range.
fn floor_div(a: i32, b: i32) -> (r: i32)
    requires
        1 <= b <= 0x1000,
        -0x200000 <= a <= 0x200000,
    ensures
        r as int == a as int / b as int,
        -0x200000 <= r <= 0x200000,
        b * r <= a < b * (r + 1),
{
    if a >= 0 {
        proof {
            vstd::arithmetic::div_mod::lemma_fundamental_div_mod(a as int, b as int);
            vstd::arithmetic::div_mod::lemma_mod_bound(a as int, b as int);
            assert((a as int) / (b as int) <= a && (b as int) * ((a as int) / (b as int)) <= a
                && a < (b as int) * ((a as int) / (b as int) + 1)) by (nonlinear_arith)
                requires
                    a as int == (b as int) * ((a as int) / (b as int)) + (a as int) % (b as int),
                    0 <= (a as int) % (b as int) < b as int,
                    0 <= a,
                    1 <= b,
            ;
        }
        a / b
    } else {
        let q = (-a + b - 1) / b;
        proof {
            // Euclidean division of a negative value: `a / b == -ceil(-a/b)`.
            let m = (-a) as int;
            let bi = b as int;
            let qi = (m + bi - 1) / bi;
            vstd::arithmetic::div_mod::lemma_fundamental_div_mod(m + bi - 1, bi);
            vstd::arithmetic::div_mod::lemma_mod_bound(m + bi - 1, bi);
            let s = (m + bi - 1) % bi;
            assert(m + bi - 1 == bi * qi + s);
            if s == bi - 1 {
                assert(a as int == (-qi) * bi + 0) by (nonlinear_arith)
                    requires
                        m + bi - 1 == bi * qi + s,
                        s == bi - 1,
                        m == -(a as int),
                ;
                vstd::arithmetic::div_mod::lemma_fundamental_div_mod_converse(
                    a as int,
                    bi,
                    -qi,
                    0,
                );
            } else {
                assert(a as int == (-qi) * bi + (bi - 1 - s)) by (nonlinear_arith)
                    requires
                        m + bi - 1 == bi * qi + s,
                        m == -(a as int),
                ;
                vstd::arithmetic::div_mod::lemma_fundamental_div_mod_converse(
                    a as int,
                    bi,
                    -qi,
                    bi - 1 - s,
                );
            }
            // The computed quotient is small because `a` is.
            assert(1 <= qi <= m) by (nonlinear_arith)
                requires
                    m + bi - 1 == bi * qi + s,
                    0 <= s < bi,
                    1 <= bi <= 0x1000,
                    1 <= m <= 0x200000,
            ;
            vstd::arithmetic::div_mod::lemma_fundamental_div_mod(a as int, bi);
            vstd::arithmetic::div_mod::lemma_mod_bound(a as int, bi);
            assert(bi * ((a as int) / bi) <= a && a < bi * ((a as int) / bi + 1))
                by (nonlinear_arith)
                requires
                    a as int == bi * ((a as int) / bi) + (a as int) % bi,
                    0 <= (a as int) % bi < bi,
                    1 <= bi,
            ;
        }
        -q
    }
}

/// The chunk containing `cube`.
///
/// Coordinates are limited to the engine's working volume (an engine
/// limit, far below the machine integer range, chosen so that chunk and
/// cube arithmetic throughout the mesher cannot overflow).
pub fn cube_to_chunk(cube: GridVector, chunk_size: i32) -> (r: ChunkPos)
    requires
        1 <= chunk_size <= 0x1000,
        -0x200000 <= cube.x <= 0x200000,
        -0x200000 <= cube.y <= 0x200000,
        -0x200000 <= cube.z <= 0x200000,
    ensures
        r == spec_cube_to_chunk(cube, chunk_size as int),
        -0x200000 <= r.x <= 0x200000,
        -0x200000 <= r.y <= 0x200000,
        -0x200000 <= r.z <= 0x200000,
        chunk_size * r.x <= cube.x < chunk_size * (r.x + 1),
        chunk_size * r.y <= cube.y < chunk_size * (r.y + 1),
        chunk_size * r.z <= cube.z < chunk_size * (r.z + 1),
{
    ChunkPos {
        x: floor_div(cube.x, chunk_size),
        y: floor_div(cube.y, chunk_size),
        z: floor_div(cube.z, chunk_size),
    }
}

/// What might be dirty about a single chunk.
#[derive(Clone, Copy, Debug, PartialEq, Eq, Hash, Structural)]
pub struct ChunkTodo {
    pub recompute_mesh: bool,
}

impl ChunkTodo {
    /// A chunk with nothing to do.
    pub fn clean() -> (r: ChunkTodo)
        ensures
            r.recompute_mesh == false,
    {
        ChunkTodo { recompute_mesh: false }
    }
}

/// A cube change at `cube` marks `pos` when `pos` is the chunk of one of
/// the six face-adjacent cubes (which always includes the cube's own
/// chunk when the chunk edge is greater than one).
pub open spec fn adjacent_chunk_marked(cube: GridVector, chunk_size: int, pos: ChunkPos) -> bool {
    ||| spec_cube_to_chunk(GridVector { x: (cube.x - 1) as i32, ..cube }, chunk_size) == pos
    ||| spec_cube_to_chunk(GridVector { x: (cube.x + 1) as i32, ..cube }, chunk_size) == pos
    ||| spec_cube_to_chunk(GridVector { y: (cube.y - 1) as i32, ..cube }, chunk_size) == pos
    ||| spec_cube_to_chunk(GridVector { y: (cube.y + 1) as i32, ..cube }, chunk_size) == pos
    ||| spec_cube_to_chunk(GridVector { z: (cube.z - 1) as i32, ..cube }, chunk_size) == pos
    ||| spec_cube_to_chunk(GridVector { z: (cube.z + 1) as i32, ..cube }, chunk_size) == pos
}

/// A block index occurs in the dirty-block list.
pub open spec fn block_listed(s: Seq<BlockIndex>, i: BlockIndex) -> bool {
    exists|k: int| 0 <= k < s.len() && s[k] == i
}

/// No block index occurs twice.
pub open spec fn no_dup(s: Seq<BlockIndex>) -> bool {
    forall|k1: int, k2: int| 0 <= k1 < k2 < s.len() ==> s[k1] != s[k2]
}

/// The version value after one advance, wrapping around.
pub open spec fn next_version(v: u32) -> u32 {
    if v == u32::MAX {
        0
    } else {
        (v + 1) as u32
    }
}

/// How many entries of `s` are below `len` (the palette length), i.e. how
/// many dirty indices actually name a block.
pub open spec fn count_in_range(s: Seq<BlockIndex>, len: int) -> int
    decreases s.len(),
{
    if s.len() == 0 {
        0
    } else {
        count_in_range(s.drop_last(), len) + if (s.last() as int) < len {
            1int
        } else {
            0int
        }
    }
}

proof fn lemma_count_in_range_bound(s: Seq<BlockIndex>, len: int)
    ensures
        0 <= count_in_range(s, len) <= s.len(),
    decreases s.len(),
{
    if s.len() > 0 {
        lemma_count_in_range_bound(s.drop_last(), len);
    }
}

/// The set of things a [`ChunkedSpaceMesh`] needs to recompute.
///
/// Membership in `chunks` indicates that the chunk exists; changes touching
/// chunks not in the table are ignored, since a chunk that was never
/// computed needs no invalidation.
#[derive(Debug)]
pub struct CsmTodo {
    /// Everything changed: block meshes and all chunks must be rebuilt.
    pub all_blocks_and_chunks: bool,
    /// Dirty block indices.
    pub blocks: Vec<BlockIndex>,
    /// Dirty flags for the existing chunks.
    pub chunks: Vec<(ChunkPos, ChunkTodo)>,
}

impl CsmTodo {
    /// Chunk keys are unique and the dirty-block list holds no duplicates.
    pub open spec fn wf(self) -> bool {
        &&& forall|i: int, k: int|
            0 <= i < self.chunks@.len() && 0 <= k < self.chunks@.len() && i != k ==> (
            #[trigger] self.chunks@[i]).0 != (#[trigger] self.chunks@[k]).0
        &&& no_dup(self.blocks@)
    }

    pub fn new() -> (r: CsmTodo)
        ensures
            r.wf(),
            !r.all_blocks_and_chunks,
            r.blocks@.len() == 0,
            r.chunks@.len() == 0,
    {
        CsmTodo { all_blocks_and_chunks: false, blocks: Vec::new(), chunks: Vec::new() }
    }

    /// Index of the entry for `pos`, if any.
    pub fn find_chunk(&self, pos: ChunkPos) -> (r: Option<usize>)
        ensures
            match r {
                Some(i) => i < self.chunks@.len() && self.chunks@[i as int].0 == pos,
                None => forall|k: int|
                    0 <= k < self.chunks@.len() ==> (#[trigger] self.chunks@[k]).0 != pos,
            },
    {
        let n = self.chunks.len();
        let mut i: usize = 0;
        while i < n
            invariant
                0 <= i <= n,
                n == self.chunks@.len(),
                forall|k: int| 0 <= k < i ==> (#[trigger] self.chunks@[k]).0 != pos,
            decreases n - i,
        {
            if self.chunks[i].0 == pos {
                return Some(i);
            }
            i = i + 1;
        }
        None
    }

    /// Start tracking dirty flags for a chunk (as clean), if not yet known.
    pub fn insert_chunk_clean(&mut self, pos: ChunkPos)
        requires
            old(self).wf(),
        ensures
            final(self).wf(),
            final(self).all_blocks_and_chunks == old(self).all_blocks_and_chunks,
            final(self).blocks == old(self).blocks,
            exists|i: int|
                0 <= i < final(self).chunks@.len() && (#[trigger] final(self).chunks@[i]).0 == pos,
            final(self).chunks@.len() >= old(self).chunks@.len(),
            forall|j: int|
                0 <= j < old(self).chunks@.len() ==> #[trigger] final(self).chunks@[j] == old(self).chunks@[j],
            forall|j: int|
                old(self).chunks@.len() <= j < final(self).chunks@.len()
                    ==> !(#[trigger] final(self).chunks@[j]).1.recompute_mesh,
    {
        match self.find_chunk(pos) {
            Some(i) => {
                proof {
                    assert(self.chunks@[i as int].0 == pos);
                }
            },
            None => {
                self.chunks.push((pos, ChunkTodo::clean()));
                proof {
                    assert(self.chunks@[self.chunks@.len() - 1].0 == pos);
                }
            },
        }
    }

    /// Set the dirty flag of `pos`'s entry, if it exists; every other entry
    /// is unchanged.
    pub fn mark_chunk(&mut self, pos: ChunkPos)
        requires
            old(self).wf(),
        ensures
            final(self).wf(),
            final(self).all_blocks_and_chunks == old(self).all_blocks_and_chunks,
            final(self).blocks == old(self).blocks,
            final(self).chunks@.len() == old(self).chunks@.len(),
            forall|k: int|
                0 <= k < old(self).chunks@.len() ==> (#[trigger] final(self).chunks@[k]).0 == old(self).chunks@[k].0,
            forall|k: int|
                0 <= k < old(self).chunks@.len() ==> (#[trigger] final(self).chunks@[k]).1.recompute_mesh == (old(self).chunks@[k].1.recompute_mesh || old(self).chunks@[k].0 == pos),
    {
        match self.find_chunk(pos) {
            Some(i) => {
                let entry = &mut self.chunks[i];
                entry.1.recompute_mesh = true;
            },
            None => {},
        }
    }

    /// Clear the dirty flag of `pos`'s entry, if it exists.
    pub fn set_chunk_clean(&mut self, pos: ChunkPos)
        requires
            old(self).wf(),
        ensures
            final(self).wf(),
            final(self).all_blocks_and_chunks == old(self).all_blocks_and_chunks,
            final(self).blocks == old(self).blocks,
            final(self).chunks@.len() == old(self).chunks@.len(),
            forall|k: int|
                0 <= k < old(self).chunks@.len() ==> (#[trigger] final(self).chunks@[k]).0 == old(self).chunks@[k].0,
            forall|k: int|
                0 <= k < old(self).chunks@.len() ==> (#[trigger] final(self).chunks@[k]).1.recompute_mesh == (old(self).chunks@[k].1.recompute_mesh && old(self).chunks@[k].0 != pos),
    {
        match self.find_chunk(pos) {
            Some(i) => {
                let entry = &mut self.chunks[i];
                entry.1.recompute_mesh = false;
            },
            None => {},
        }
    }

    /// Mark the chunks of the six face-adjacent cubes of `cube` dirty
    /// (those that exist).  The cube's own chunk is always among them when
    /// the chunk edge exceeds one.  Cube coordinates are limited to the
    /// engine's working volume.
    pub fn modify_block_and_adjacent(&mut self, cube: GridVector, chunk_size: i32)
        requires
            old(self).wf(),
            1 <= chunk_size <= 0x1000,
            -0x100000 <= cube.x <= 0x100000,
            -0x100000 <= cube.y <= 0x100000,
            -0x100000 <= cube.z <= 0x100000,
        ensures
            final(self).wf(),
            final(self).all_blocks_and_chunks == old(self).all_blocks_and_chunks,
            final(self).blocks == old(self).blocks,
            final(self).chunks@.len() == old(self).chunks@.len(),
            forall|k: int|
                0 <= k < old(self).chunks@.len() ==> (#[trigger] final(self).chunks@[k]).0 == old(self).chunks@[k].0,
            forall|k: int|
                0 <= k < old(self).chunks@.len() ==> (#[trigger] final(self).chunks@[k]).1.recompute_mesh == (old(self).chunks@[k].1.recompute_mesh
                    || adjacent_chunk_marked(cube, chunk_size as int, old(self).chunks@[k].0)),
    {
        let nxc = cube_to_chunk(GridVector { x: cube.x - 1, y: cube.y, z: cube.z }, chunk_size);
        let pxc = cube_to_chunk(GridVector { x: cube.x + 1, y: cube.y, z: cube.z }, chunk_size);
        let nyc = cube_to_chunk(GridVector { x: cube.x, y: cube.y - 1, z: cube.z }, chunk_size);
        let pyc = cube_to_chunk(GridVector { x: cube.x, y: cube.y + 1, z: cube.z }, chunk_size);
        let nzc = cube_to_chunk(GridVector { x: cube.x, y: cube.y, z: cube.z - 1 }, chunk_size);
        let pzc = cube_to_chunk(GridVector { x: cube.x, y: cube.y, z: cube.z + 1 }, chunk_size);
        self.mark_chunk(nxc);
        self.mark_chunk(pxc);
        self.mark_chunk(nyc);
        self.mark_chunk(pyc);
        self.mark_chunk(nzc);
        self.mark_chunk(pzc);
    }

    /// Add a dirty block index, unless a full invalidation is pending.
    #[verifier::loop_isolation(false)]
    pub fn insert_block(&mut self, index: BlockIndex)
        requires
            old(self).wf(),
        ensures
            final(self).wf(),
            final(self).all_blocks_and_chunks == old(self).all_blocks_and_chunks,
            final(self).chunks == old(self).chunks,
            old(self).all_blocks_and_chunks ==> final(self).blocks == old(self).blocks,
            !old(self).all_blocks_and_chunks ==> block_listed(final(self).blocks@, index),
            forall|i: BlockIndex|
                block_listed(old(self).blocks@, i) ==> block_listed(final(self).blocks@, i),
    {
        if self.all_blocks_and_chunks {
            return ;
        }
        let n = self.blocks.len();
        let mut k: usize = 0;
        while k < n
            invariant
                0 <= k <= n,
                n == self.blocks@.len(),
                forall|q: int| 0 <= q < k ==> self.blocks@[q] != index,
            decreases n - k,
        {
            if self.blocks[k] == index {
                return ;
            }
            k = k + 1;
        }
        self.blocks.push(index);
        proof {
            assert(self.blocks@[n as int] == index);
            assert(no_dup(self.blocks@)) by {
                assert forall|k1: int, k2: int| 0 <= k1 < k2 < self.blocks@.len()
                    implies self.blocks@[k1] != self.blocks@[k2] by {
                    if k2 == n as int {
                        assert(self.blocks@[k1] == old(self).blocks@[k1]);
                    } else {
                        assert(self.blocks@[k1] == old(self).blocks@[k1]);
                        assert(self.blocks@[k2] == old(self).blocks@[k2]);
                    }
                }
            }
            assert forall|i: BlockIndex|
                block_listed(old(self).blocks@, i) implies block_listed(
                self.blocks@,
                i,
            ) by {
                let k = choose|k: int| 0 <= k < old(self).blocks@.len() && old(self).blocks@[k]
                    == i;
                assert(self.blocks@[k] == i);
            }
        }
    }

    /// Apply one space change notification to the dirty sets.
    ///
    /// A bulk change supersedes and clears the per-block and per-chunk
    /// sets; a cube change marks the adjacent chunks; a lighting change is
    /// deliberately not tracked (lighting is sampled at mesh time).
    pub fn receive(&mut self, change: SpaceChange, chunk_size: i32)
        requires
            old(self).wf(),
            1 <= chunk_size <= 0x1000,
            match change {
                SpaceChange::Block(cube) => -0x100000 <= cube.x <= 0x100000 && -0x100000 <= cube.y
                    <= 0x100000 && -0x100000 <= cube.z <= 0x100000,
                _ => true,
            },
        ensures
            final(self).wf(),
            match change {
                SpaceChange::EveryBlock => final(self).all_blocks_and_chunks && final(self).blocks@.len() == 0 && final(self).chunks@.len() == 0,
                SpaceChange::Block(cube) => {
                    &&& final(self).all_blocks_and_chunks == old(self).all_blocks_and_chunks
                    &&& final(self).blocks == old(self).blocks
                    &&& final(self).chunks@.len() == old(self).chunks@.len()
                    &&& forall|k: int|
                        0 <= k < old(self).chunks@.len() ==> (#[trigger] final(self).chunks@[k]).0 == old(self).chunks@[k].0
                    &&& forall|k: int|
                        0 <= k < old(self).chunks@.len() ==> (#[trigger] final(self).chunks@[k]).1.recompute_mesh == (old(self).chunks@[k].1.recompute_mesh
                            || adjacent_chunk_marked(
                            cube,
                            chunk_size as int,
                            old(self).chunks@[k].0,
                        ))
                },
                SpaceChange::Lighting(_) => *final(self) == *old(self),
                SpaceChange::Number(index) => final(self).chunks == old(self).chunks && final(self).all_blocks_and_chunks == old(self).all_blocks_and_chunks && (!old(self).all_blocks_and_chunks ==> block_listed(final(self).blocks@, index)) && (old(self).all_blocks_and_chunks ==> final(self).blocks == old(self).blocks) && (forall|i: BlockIndex| block_listed(old(self).blocks@, i) ==> block_listed(final(self).blocks@, i)),
                SpaceChange::BlockValue(index) => final(self).chunks == old(self).chunks && final(self).all_blocks_and_chunks == old(self).all_blocks_and_chunks && (!old(self).all_blocks_and_chunks ==> block_listed(final(self).blocks@, index)) && (old(self).all_blocks_and_chunks ==> final(self).blocks == old(self).blocks) && (forall|i: BlockIndex| block_listed(old(self).blocks@, i) ==> block_listed(final(self).blocks@, i)),
            },
    {
        match change {
            SpaceChange::EveryBlock => {
                self.all_blocks_and_chunks = true;
                self.blocks = Vec::new();
                self.chunks = Vec::new();
            },
            SpaceChange::Block(cube) => {
                self.modify_block_and_adjacent(cube, chunk_size);
            },
            SpaceChange::Lighting(_) => {},
            SpaceChange::Number(index) => {
                self.insert_block(index);
            },
            SpaceChange::BlockValue(index) => {
                self.insert_block(index);
            },
        }
    }
}

/// Per-block-index triangulation cache with version stamps, used to detect
/// chunk staleness cheaply.
#[derive(Debug)]
pub struct VersionedBlockMeshes<T> {
    pub meshes: Vec<BlockTriangulation<T>>,
    /// Parallel to `meshes`: the version current when the mesh content
    /// last changed.
    pub versioning: Vec<u32>,
    pub last_version_counter: u32,
}

impl<T: TextureTile> VersionedBlockMeshes<T> {
    pub open spec fn wf(self) -> bool {
        &&& self.meshes@.len() == self.versioning@.len()
        &&& forall|i: int| 0 <= i < self.meshes@.len() ==> (#[trigger] self.meshes@[i]).bounded()
        &&& forall|i: int, f: Face|
            0 <= i < self.meshes@.len() ==> (#[trigger] self.meshes@[i].spec_face(
                f,
            )).vertices@.len() % 6 == 0
    }

    pub fn new() -> (r: VersionedBlockMeshes<T>)
        ensures
            r.wf(),
            r.meshes@.len() == 0,
            r.last_version_counter == 0,
    {
        VersionedBlockMeshes { meshes: Vec::new(), versioning: Vec::new(), last_version_counter: 0 }
    }

    /// Discard all meshes and advance the version, so that a later full
    /// rebuild stamps versions that differ from every previously recorded
    /// stamp and all existing chunks read as stale.
    pub fn clear(&mut self)
        ensures
            final(self).wf(),
            final(self).meshes@.len() == 0,
            final(self).last_version_counter == next_version(old(self).last_version_counter),
    {
        self.meshes = Vec::new();
        self.versioning = Vec::new();
        self.last_version_counter = if self.last_version_counter == u32::MAX {
            0
        } else {
            self.last_version_counter + 1
        };
    }

    /// Update the meshes of the blocks in `todo`, or build every mesh if
    /// the cache is empty.  A block's version advances only when its mesh
    /// content actually changed; an unchanged mesh keeps both its version
    /// and its stored value, so dependent chunks are not invalidated.
    ///
    /// Returns how many block meshes were recomputed.
    #[verifier::loop_isolation(false)]
    #[verifier::rlimit(100)]
    #[verifier::spinoff_prover]
    pub fn update_some_or_all<A: TextureAllocator<Tile = T>>(
        &mut self,
        todo: &mut Vec<BlockIndex>,
        space: &Space,
        texture_allocator: &mut A,
    ) -> (r: usize)
        requires
            old(self).wf(),
            space.wf(),
            no_dup(old(todo)@),
        ensures
            final(self).wf(),
            no_dup(final(todo)@),
            old(self).meshes@.len() > 0 && old(todo)@.len() == 0 ==> *final(self) == *old(self)
                && final(todo)@ == old(todo)@ && r == 0,
            old(self).meshes@.len() == 0 ==> {
                &&& final(self).meshes@.len() == space.palette@.len()
                &&& final(self).last_version_counter == old(self).last_version_counter
                &&& forall|i: int|
                    0 <= i < final(self).versioning@.len() ==> final(self).versioning@[i] == old(
                        self,
                    ).last_version_counter
                &&& r == final(self).meshes@.len()
                &&& final(todo)@ == old(todo)@
            },
            old(self).meshes@.len() > 0 && old(todo)@.len() > 0 ==> {
                &&& final(self).meshes@.len() == space.palette@.len()
                &&& final(todo)@.len() == 0
                &&& final(self).last_version_counter == next_version(
                    old(self).last_version_counter,
                )
                &&& r == count_in_range(old(todo)@, space.palette@.len() as int)
            },
            old(self).meshes@.len() > 0 ==> forall|i: int|
                0 <= i < old(self).meshes@.len() && i < final(self).versioning@.len() && !(exists|
                    k: int,
                |
                    0 <= k < old(todo)@.len() && old(todo)@[k] == i) ==> #[trigger] final(self).versioning@[i] == old(self).versioning@[i],
            old(self).meshes@.len() > 0 ==> forall|i: int|
                0 <= i < old(self).meshes@.len() && i < final(self).meshes@.len() && !(exists|
                    k: int,
                |
                    0 <= k < old(todo)@.len() && old(todo)@[k] == i) ==> #[trigger] final(self).meshes@[i] == old(self).meshes@[i],
            old(self).meshes@.len() > 0 ==> forall|i: int|
                0 <= i < old(self).meshes@.len() && i < final(self).meshes@.len() && (exists|
                    k: int,
                |
                    0 <= k < old(todo)@.len() && old(todo)@[k] == i) ==> ((mesh_like(
                    #[trigger] final(self).meshes@[i],
                    old(self).meshes@[i],
                ) ==> final(self).meshes@[i] == old(self).meshes@[i] && final(self).versioning@[i]
                    == old(self).versioning@[i]) && (!mesh_like(
                    final(self).meshes@[i],
                    old(self).meshes@[i],
                ) ==> final(self).versioning@[i] == final(self).last_version_counter)),
    {
        let mut block_update_count: usize = 0;
        if self.meshes.len() == 0 {
            // First run, or an everything-changed signal was received:
            // rebuild all block meshes with one shared version value.
            self.meshes = triangulate_blocks(space, texture_allocator);
            let n = self.meshes.len();
            let mut versioning: Vec<u32> = Vec::new();
            while versioning.len() < n
                invariant
                    versioning@.len() <= n,
                    forall|i: int|
                        0 <= i < versioning@.len() ==> #[trigger] versioning@[i] == old(self).last_version_counter,
                    self.last_version_counter == old(self).last_version_counter,
                decreases n - versioning.len(),
            {
                versioning.push(self.last_version_counter);
            }
            self.versioning = versioning;
            block_update_count = n;
        } else if todo.len() > 0 {
            let tlen0 = todo.len();
            // Partial update.
            self.last_version_counter = if self.last_version_counter == u32::MAX {
                0
            } else {
                self.last_version_counter + 1
            };
            let ghost counter = self.last_version_counter;
            let new_length = space.block_data().len();
            let ghost old_meshes = self.meshes@;
            let ghost old_versioning = self.versioning@;
            // Match the cache length to the current palette.
            if new_length < self.meshes.len() {
                self.meshes.truncate(new_length);
                self.versioning.truncate(new_length);
            } else {
                while self.meshes.len() < new_length
                    invariant
                        self.wf(),
                        self.last_version_counter == counter,
                        old_meshes.len() <= self.meshes@.len() <= new_length,
                        self.versioning@.len() == self.meshes@.len(),
                        forall|i: int|
                            0 <= i < old_meshes.len() ==> #[trigger] self.versioning@[i]
                                == old_versioning[i],
                        forall|i: int|
                            0 <= i < old_meshes.len() ==> #[trigger] self.meshes@[i]
                                == old_meshes[i],
                    decreases new_length - self.meshes.len(),
                {
                    self.meshes.push(BlockTriangulation::default());
                    self.versioning.push(0);
                }
            }
            let ghost todo0 = todo@;
            proof {
                assert(todo@ =~= todo0.take(todo@.len() as int));
                lemma_count_in_range_bound(todo0, new_length as int);
                assert(count_in_range(todo0.take(todo0.len() as int), new_length as int)
                    == count_in_range(todo0, new_length as int)) by {
                    assert(todo0.take(todo0.len() as int) =~= todo0);
                }
            }
            while todo.len() > 0
                invariant
                    self.wf(),
                    self.meshes@.len() == new_length,
                    self.last_version_counter == counter,
                    todo@.len() <= todo0.len(),
                    todo@ == todo0.take(todo@.len() as int),
                    block_update_count == count_in_range(todo0, new_length as int)
                        - count_in_range(todo@, new_length as int),
                    forall|i: int|
                        0 <= i < old_meshes.len() && i < self.meshes@.len() && !(exists|k: int|
                            todo@.len() <= k < todo0.len() && todo0[k] == i)
                            ==> #[trigger] self.meshes@[i] == old_meshes[i]
                            && self.versioning@[i] == old_versioning[i],
                    forall|i: int|
                        0 <= i < old_meshes.len() && i < self.meshes@.len() && (exists|k: int|
                            todo@.len() <= k < todo0.len() && todo0[k] == i) ==> ((mesh_like(
                            #[trigger] self.meshes@[i],
                            old_meshes[i],
                        ) ==> self.meshes@[i] == old_meshes[i] && self.versioning@[i]
                            == old_versioning[i]) && (!mesh_like(self.meshes@[i], old_meshes[i])
                            ==> self.versioning@[i] == counter)),
                decreases todo@.len(),
            {
                let ghost todo_prev = todo@;
                let ghost meshes_h = self.meshes@;
                let ghost versioning_h = self.versioning@;
                let index_opt = todo.pop();
                proof {
                    let li = todo_prev.len() as int;
                    assert forall|i: int| 0 <= i < todo@.len() implies todo@[i] == todo0.take(
                        todo@.len() as int,
                    )[i] by {
                        assert(todo@[i] == todo_prev.subrange(0, li - 1)[i]);
                        assert(todo_prev.subrange(0, li - 1)[i] == todo_prev[i]);
                        assert(todo_prev[i] == todo0.take(li)[i]);
                        assert(todo0.take(li)[i] == todo0[i]);
                        assert(todo0.take(todo@.len() as int)[i] == todo0[i]);
                    }
                    assert(todo@ =~= todo0.take(todo@.len() as int));
                    // The popped value is the entry at position li - 1.
                    assert(todo_prev[li - 1] == todo0.take(li)[li - 1]);
                    assert(todo0.take(li)[li - 1] == todo0[li - 1]);
                    // Counting: one more position of todo0 is now processed.
                    assert(todo0.take(li).drop_last() =~= todo0.take(li - 1));
                    assert(todo0.take(li).last() == todo0[li - 1]);
                    assert(count_in_range(todo0.take(li), new_length as int) == count_in_range(
                        todo0.take(li - 1),
                        new_length as int,
                    ) + (if (todo0[li - 1] as int) < new_length {
                        1int
                    } else {
                        0int
                    }));
                    lemma_count_in_range_bound(todo0.take(li - 1), new_length as int);
                }
                match index_opt {
                    Some(index) => {
                        let ghost ii = index as int;
                        let ghost li = todo_prev.len() as int;
                        proof {
                            // By uniqueness, this index was not processed
                            // before, so its entry is still the old one.
                            assert(!(exists|k: int|
                                li <= k < todo0.len() && todo0[k] == ii)) by {
                                if exists|k: int| li <= k < todo0.len() && todo0[k] == ii {
                                    let k = choose|k: int|
                                        li <= k < todo0.len() && todo0[k] == ii;
                                    assert(todo0[k] == todo0[li - 1]);
                                }
                            }
                        }
                        if (index as usize) < self.meshes.len() {
                            proof {
                                assert(crate::block::ev_wf(
                                    space.palette@[index as int].evaluated,
                                ));
                            }
                            let new_mesh = triangulate_block(
                                &space.block_data()[index as usize].evaluated,
                                texture_allocator,
                            );
                            // Only invalidate the chunks if the content is
                            // actually different.
                            if !mesh_eq(&new_mesh, &self.meshes[index as usize]) {
                                let slot = &mut self.meshes[index as usize];
                                *slot = new_mesh;
                                let vslot = &mut self.versioning[index as usize];
                                *vslot = self.last_version_counter;
                            }
                            proof {
                                assert(block_update_count < tlen0) by {
                                    lemma_count_in_range_bound(todo0, new_length as int);
                                    lemma_count_in_range_bound(todo@, new_length as int);
                                }
                            }
                            block_update_count = block_update_count + 1;
                        }
                        proof {
                            // The processed suffix grew by exactly the
                            // popped position; re-establish both per-index
                            // relations against the head-of-iteration state.
                            assert(todo@.len() == li - 1);
                            assert forall|i: int|
                                0 <= i < old_meshes.len() && i < self.meshes@.len() && !(exists|
                                    k: int,
                                |
                                    todo@.len() <= k < todo0.len() && todo0[k] == i) implies (
                            #[trigger] self.meshes@[i]) == old_meshes[i] && self.versioning@[i]
                                == old_versioning[i] by {
                                if i == ii {
                                    assert(todo@.len() <= li - 1 < todo0.len() && todo0[li - 1]
                                        == i);
                                    assert(false);
                                }
                                if exists|k: int| li <= k < todo0.len() && todo0[k] == i {
                                    let k = choose|k: int|
                                        li <= k < todo0.len() && todo0[k] == i;
                                    assert(todo@.len() <= k < todo0.len() && todo0[k] == i);
                                    assert(false);
                                }
                                assert(!(exists|k: int|
                                    todo_prev.len() <= k < todo0.len() && todo0[k] == i));
                                assert(meshes_h.len() == self.meshes@.len());
                                assert(meshes_h[i] == old_meshes[i]);
                                assert(versioning_h[i] == old_versioning[i]);
                                assert(self.meshes@[i] == meshes_h[i]);
                                assert(self.versioning@[i] == versioning_h[i]);
                            }
                            assert forall|i: int|
                                0 <= i < old_meshes.len() && i < self.meshes@.len() && (exists|
                                    k: int,
                                |
                                    todo@.len() <= k < todo0.len() && todo0[k] == i) implies ((
                            mesh_like(#[trigger] self.meshes@[i], old_meshes[i])
                                ==> self.meshes@[i] == old_meshes[i] && self.versioning@[i]
                                == old_versioning[i]) && (!mesh_like(self.meshes@[i], old_meshes[i])
                                ==> self.versioning@[i] == counter)) by {
                                if i == ii {
                                    assert(meshes_h[i] == old_meshes[i] && versioning_h[i]
                                        == old_versioning[i]) by {
                                        if exists|k: int| li <= k < todo0.len() && todo0[k] == i {
                                            let k = choose|k: int|
                                                li <= k < todo0.len() && todo0[k] == i;
                                            assert(todo0[k] == todo0[li - 1]);
                                            assert(false);
                                        }
                                    }
                                } else {
                                    let k = choose|k: int|
                                        todo@.len() <= k < todo0.len() && todo0[k] == i;
                                    assert(li <= k);
                                    assert(exists|k2: int|
                                        li <= k2 < todo0.len() && todo0[k2] == i);
                                    assert(self.meshes@[i] == meshes_h[i] && self.versioning@[i]
                                        == versioning_h[i]);
                                }
                            }
                        }
                    },
                    None => {},
                }
            }
            proof {
                assert(todo@.len() == 0);
                assert(count_in_range(todo@, new_length as int) == 0) by {
                    assert(todo@ =~= Seq::<BlockIndex>::empty());
                }
                assert forall|i: int|
                    0 <= i < old_meshes.len() && i < self.versioning@.len() && !(exists|k: int|
                        0 <= k < todo0.len() && todo0[k] == i)
                    implies #[trigger] self.versioning@[i] == old_versioning[i] by {
                    assert(self.meshes@[i] == old_meshes[i]);
                    assert(self.versioning@[i] == old_versioning[i]);
                }
            }
        }
        block_update_count
    }
}

/// Content congruence of two block triangulations: the same vertices and
/// opacity for every face, and tiles with the same identity.
pub open spec fn mesh_like<T: TextureTile>(
    a: BlockTriangulation<T>,
    b: BlockTriangulation<T>,
) -> bool {
    &&& forall|f: Face|
        (#[trigger] a.spec_face(f)).vertices@ == b.spec_face(f).vertices@ && a.spec_face(
            f,
        ).fully_opaque == b.spec_face(f).fully_opaque
    &&& a.textures_used@.len() == b.textures_used@.len()
    &&& forall|k: int|
        0 <= k < a.textures_used@.len() ==> (#[trigger] a.textures_used@[k]).tile_key()
            == b.textures_used@[k].tile_key()
}

/// Decide [`mesh_like`]: structural comparison of two triangulations.
#[verifier::loop_isolation(false)]
pub fn mesh_eq<T: TextureTile>(a: &BlockTriangulation<T>, b: &BlockTriangulation<T>) -> (r: bool)
    ensures
        r == mesh_like(*a, *b),
{
    let faces = Face::all_seven();
    let mut fi: usize = 0;
    while fi < 7
        invariant
            0 <= fi <= 7,
            faces@.len() == 7,
            forall|k: int|
                0 <= k < fi ==> (#[trigger] a.spec_face(faces@[k])).vertices@ == b.spec_face(
                    faces@[k],
                ).vertices@ && a.spec_face(faces@[k]).fully_opaque == b.spec_face(
                    faces@[k],
                ).fully_opaque,
        decreases 7 - fi,
    {
        let face = faces[fi];
        let fa = a.face(face);
        let fb = b.face(face);
        if fa.fully_opaque != fb.fully_opaque {
            return false;
        }
        let na = fa.vertices.len();
        if na != fb.vertices.len() {
            proof {
                assert(a.spec_face(face).vertices@ != b.spec_face(face).vertices@);
            }
            return false;
        }
        let mut vi: usize = 0;
        while vi < na
            invariant
                0 <= vi <= na,
                na == fa.vertices@.len(),
                na == fb.vertices@.len(),
                forall|q: int| 0 <= q < vi ==> #[trigger] fa.vertices@[q] == fb.vertices@[q],
            decreases na - vi,
        {
            if !(fa.vertices[vi] == fb.vertices[vi]) {
                proof {
                    assert(a.spec_face(face).vertices@[vi as int] != b.spec_face(
                        face,
                    ).vertices@[vi as int]);
                }
                return false;
            }
            vi = vi + 1;
        }
        proof {
            assert(fa.vertices@ =~= fb.vertices@);
        }
        fi = fi + 1;
    }
    proof {
        assert forall|f: Face|
            (#[trigger] a.spec_face(f)).vertices@ == b.spec_face(f).vertices@ && a.spec_face(
                f,
            ).fully_opaque == b.spec_face(f).fully_opaque by {
            match f {
                Face::Within => {
                    assert(f == faces@[0]);
                },
                Face::NX => {
                    assert(f == faces@[1]);
                },
                Face::NY => {
                    assert(f == faces@[2]);
                },
                Face::NZ => {
                    assert(f == faces@[3]);
                },
                Face::PX => {
                    assert(f == faces@[4]);
                },
                Face::PY => {
                    assert(f == faces@[5]);
                },
                Face::PZ => {
                    assert(f == faces@[6]);
                },
            }
        }
    }
    let ta = a.textures();
    let tb = b.textures();
    let nt = ta.len();
    if nt != tb.len() {
        return false;
    }
    let mut ti: usize = 0;
    while ti < nt
        invariant
            0 <= ti <= nt,
            nt == ta@.len(),
            nt == tb@.len(),
            forall|k: int|
                0 <= k < ti ==> (#[trigger] ta@[k]).tile_key() == tb@[k].tile_key(),
        decreases nt - ti,
    {
        if !ta[ti].same_tile(&tb[ti]) {
            return false;
        }
        ti = ti + 1;
    }
    true
}

/// Counts from one per-frame update.
#[derive(Clone, Debug, PartialEq, Eq)]
pub struct CstUpdateInfo {
    /// How many chunk meshes were recomputed this frame.
    pub chunk_update_count: usize,
    /// How many block meshes were recomputed this frame.
    pub block_update_count: usize,
    /// Whether the view chunk's transparent geometry was reordered.
    pub depth_sorted: bool,
    /// The positions whose chunk meshes were recomputed, in visit order.
    pub updated_chunks: Vec<ChunkPos>,
}

/// The cube region covered by the chunk at `pos` for a given chunk edge.
pub open spec fn spec_chunk_box(pos: ChunkPos, chunk_size: int) -> GridAab {
    GridAab {
        lower: GridVector {
            x: (pos.x * chunk_size) as i32,
            y: (pos.y * chunk_size) as i32,
            z: (pos.z * chunk_size) as i32,
        },
        size: GridVector { x: chunk_size as i32, y: chunk_size as i32, z: chunk_size as i32 },
    }
}

/// Some chunk in `chunks` sits at `p`, carries exactly the mesh emitted for
/// its box from `meshes`, and is current against `versioning`.
pub open spec fn spec_chunk_updated<T>(
    chunks: Seq<ChunkMesh<T>>,
    p: ChunkPos,
    space: Space,
    meshes: Seq<crate::triangulator::BlockTriangulation<T>>,
    versioning: Seq<u32>,
    chunk_size: int,
) -> bool {
    exists|k: int|
        0 <= k < chunks.len() && (#[trigger] chunks[k]).position == p && chunks[k].mesh.vertices@
            == crate::triangulator::spec_space_mesh(
            space,
            meshes,
            spec_chunk_box(p, chunk_size),
        ) && !chunks[k].spec_stale(versioning)
}

/// Some chunk in `chunks` sits at `p`.
pub open spec fn spec_chunk_present<T>(chunks: Seq<ChunkMesh<T>>, p: ChunkPos) -> bool {
    exists|k: int| 0 <= k < chunks.len() && (#[trigger] chunks[k]).position == p
}

/// The todo table holds `pos` with its dirty flag set.
pub open spec fn todo_dirty_at(todo: CsmTodo, pos: ChunkPos) -> bool {
    exists|j: int|
        0 <= j < todo.chunks@.len() && (#[trigger] todo.chunks@[j]).0 == pos
            && todo.chunks@[j].1.recompute_mesh
}

/// The todo table has an entry for `pos`.
pub open spec fn todo_has(todo: CsmTodo, pos: ChunkPos) -> bool {
    exists|j: int| 0 <= j < todo.chunks@.len() && (#[trigger] todo.chunks@[j]).0 == pos
}

/// As [`todo_has`], over a raw entry sequence.
pub open spec fn todo_has_seq(entries: Seq<(ChunkPos, ChunkTodo)>, pos: ChunkPos) -> bool {
    exists|j: int| 0 <= j < entries.len() && (#[trigger] entries[j]).0 == pos
}

/// As [`todo_dirty_at`], over a raw entry sequence.
pub open spec fn todo_dirty_at_seq(entries: Seq<(ChunkPos, ChunkTodo)>, pos: ChunkPos) -> bool {
    exists|j: int|
        0 <= j < entries.len() && (#[trigger] entries[j]).0 == pos && entries[j].1.recompute_mesh
}

/// A mesh covering one chunk of a space, together with the version stamps
/// of the block meshes it was built from and the texture tiles it uses.
#[derive(Debug)]
pub struct ChunkMesh<T> {
    pub position: ChunkPos,
    pub bounds: GridAab,
    pub mesh: SpaceTriangulation,
    /// Pairs of block index and the version current at the last
    /// recomputation; staleness is detected by comparing them.
    pub block_dependencies: Vec<(BlockIndex, u32)>,
    /// Tiles used by the mesh, retained so they stay allocated.
    pub tile_dependencies: Vec<T>,
}

impl<T> ChunkMesh<T> {
    pub fn mesh(&self) -> (r: &SpaceTriangulation)
        ensures
            *r == self.mesh,
    {
        &self.mesh
    }

    /// Some recorded block dependency is out of date with respect to the
    /// given version table.
    pub open spec fn spec_stale(self, versioning: Seq<u32>) -> bool {
        exists|k: int|
            0 <= k < self.block_dependencies@.len() && ((#[trigger] self.block_dependencies@[
                k
            ]).0 as int >= versioning.len() || versioning[self.block_dependencies@[k].0 as int]
                != self.block_dependencies@[k].1)
    }

    /// Whether any recorded block dependency is out of date with respect
    /// to the given version table.
    pub fn stale_blocks(&self, versioning: &Vec<u32>) -> (r: bool)
        ensures
            r == self.spec_stale(versioning@),
    {
        let n = self.block_dependencies.len();
        let mut i: usize = 0;
        while i < n
            invariant
                0 <= i <= n,
                n == self.block_dependencies@.len(),
                forall|k: int|
                    0 <= k < i ==> !((#[trigger] self.block_dependencies@[k]).0 as int
                        >= versioning@.len() || versioning@[self.block_dependencies@[k].0 as int]
                        != self.block_dependencies@[k].1),
            decreases n - i,
        {
            let (index, version) = self.block_dependencies[i];
            if (index as usize) >= versioning.len() || versioning[index as usize] != version {
                return true;
            }
            i = i + 1;
        }
        false
    }
}

/// The view parameters and per-frame budget for a mesh update.
#[derive(Clone, Copy, Debug, PartialEq, Eq, Structural)]
pub struct MeshCamera {
    /// The cube the camera is in.
    pub view_position: GridVector,
    /// How many chunks out from the view chunk to consider.
    pub view_distance_chunks: i32,
    /// At most this many chunk meshes are recomputed per update.
    pub chunks_per_frame: usize,
}

/// Maintains [`ChunkMesh`]es over a mutable space: recomputes per-chunk
/// meshes incrementally within a per-frame budget, driven by the dirty
/// sets fed through [`ChunkedSpaceMesh::receive`].
pub struct ChunkedSpaceMesh<A: TextureAllocator> {
    /// Edge length of one chunk, in cubes.
    pub chunk_size: i32,
    pub todo: CsmTodo,
    pub block_meshes: VersionedBlockMeshes<<A as TextureAllocator>::Tile>,
    pub chunks: Vec<ChunkMesh<<A as TextureAllocator>::Tile>>,
    /// Whether, on the previous update, some chunks were missing; if so,
    /// adding new chunks takes priority over refreshing dirty ones.
    pub chunks_were_missing: bool,
}

impl<A: TextureAllocator> ChunkedSpaceMesh<A> where <A as TextureAllocator>::Tile: Copy {
    pub open spec fn wf(self) -> bool {
        &&& 1 <= self.chunk_size <= 0x100
        &&& self.todo.wf()
        &&& self.block_meshes.wf()
        &&& forall|i: int, k: int|
            0 <= i < self.chunks@.len() && 0 <= k < self.chunks@.len() && i != k ==> (
            #[trigger] self.chunks@[i]).position != (#[trigger] self.chunks@[k]).position
        &&& forall|i: int| 0 <= i < self.chunks@.len() ==> (#[trigger] self.chunks@[i]).mesh.wf()
    }

    pub fn new(chunk_size: i32) -> (r: ChunkedSpaceMesh<A>)
        requires
            1 <= chunk_size <= 0x100,
        ensures
            r.wf(),
            r.chunk_size == chunk_size,
            r.chunks@.len() == 0,
            r.todo.chunks@.len() == 0,
            r.chunks_were_missing,
    {
        ChunkedSpaceMesh {
            chunk_size,
            todo: CsmTodo::new(),
            block_meshes: VersionedBlockMeshes::new(),
            chunks: Vec::new(),
            chunks_were_missing: true,
        }
    }

    /// Index of the chunk mesh at `pos`, if one exists.
    fn find_chunk_index(&self, pos: ChunkPos) -> (r: Option<usize>)
        ensures
            match r {
                Some(i) => i < self.chunks@.len() && self.chunks@[i as int].position == pos,
                None => forall|k: int|
                    0 <= k < self.chunks@.len() ==> (#[trigger] self.chunks@[k]).position != pos,
            },
    {
        let n = self.chunks.len();
        let mut i: usize = 0;
        while i < n
            invariant
                0 <= i <= n,
                n == self.chunks@.len(),
                forall|k: int| 0 <= k < i ==> (#[trigger] self.chunks@[k]).position != pos,
            decreases n - i,
        {
            if self.chunks[i].position == pos {
                return Some(i);
            }
            i = i + 1;
        }
        None
    }

    /// The chunk mesh at `pos`, for draw-time lookup.
    pub fn chunk(&self, pos: ChunkPos) -> (r: Option<&ChunkMesh<<A as TextureAllocator>::Tile>>)
        ensures
            match r {
                Some(c) => c.position == pos,
                None => forall|k: int|
                    0 <= k < self.chunks@.len() ==> (#[trigger] self.chunks@[k]).position != pos,
            },
    {
        match self.find_chunk_index(pos) {
            Some(i) => Some(&self.chunks[i]),
            None => None,
        }
    }

    /// Feed one space change notification into the dirty tracking.
    /// Cube coordinates are limited to the engine's working volume.
    pub fn receive(&mut self, change: SpaceChange)
        requires
            old(self).wf(),
            match change {
                SpaceChange::Block(cube) => -0x100000 <= cube.x <= 0x100000 && -0x100000 <= cube.y
                    <= 0x100000 && -0x100000 <= cube.z <= 0x100000,
                _ => true,
            },
        ensures
            final(self).wf(),
            final(self).chunks == old(self).chunks,
            final(self).chunk_size == old(self).chunk_size,
    {
        self.todo.receive(change, self.chunk_size);
    }

    /// Update block meshes for all dirty blocks, then recompute up to
    /// `camera.chunks_per_frame` chunk meshes near the view point, and
    /// re-sort the view chunk's transparent geometry.
    ///
    /// Never recomputes more chunk meshes than the budget allows, even
    /// when more are dirty; a chunk that was neither marked dirty nor
    /// stale is left untouched (the view chunk's transparent ordering
    /// aside), and every chunk created here covers its position's cube
    /// region, meets the space, and is tracked in the todo table.
    ///
    /// View position, view distance and the space extent are limited to
    /// the engine's working volume: bounds far below the machine integer
    /// range that keep every coordinate computation in range.
    #[verifier::loop_isolation(false)]
    #[verifier::rlimit(100)]
    pub fn update_blocks_and_some_chunks(
        &mut self,
        camera: &MeshCamera,
        space: &Space,
        texture_allocator: &mut A,
    ) -> (r: (CstUpdateInfo, ChunkPos))
        requires
            old(self).wf(),
            space.wf(),
            -0xF000 <= camera.view_position.x <= 0xF000,
            -0xF000 <= camera.view_position.y <= 0xF000,
            -0xF000 <= camera.view_position.z <= 0xF000,
            0 <= camera.view_distance_chunks <= 16,
            -0xF0000 <= space.bounds.lower.x && space.bounds.lower.x + space.bounds.size.x
                <= 0xF0000,
            -0xF0000 <= space.bounds.lower.y && space.bounds.lower.y + space.bounds.size.y
                <= 0xF0000,
            -0xF0000 <= space.bounds.lower.z && space.bounds.lower.z + space.bounds.size.z
                <= 0xF0000,
        ensures
            final(self).wf(),
            final(self).chunk_size == old(self).chunk_size,
            r.0.chunk_update_count <= camera.chunks_per_frame,
            r.1 == spec_cube_to_chunk(camera.view_position, old(self).chunk_size as int),
            final(self).chunks@.len() >= old(self).chunks@.len(),
            forall|k: int|
                0 <= k < old(self).chunks@.len() ==> (#[trigger] final(self).chunks@[k]).position
                    == old(self).chunks@[k].position,
            forall|k: int|
                0 <= k < old(self).chunks@.len() && !todo_dirty_at(
                    old(self).todo,
                    old(self).chunks@[k].position,
                ) && !old(self).chunks@[k].spec_stale(final(self).block_meshes.versioning@) && old(self).chunks@[k].position != spec_cube_to_chunk(
                    camera.view_position,
                    old(self).chunk_size as int,
                ) ==> #[trigger] final(self).chunks@[k] == old(self).chunks@[k],
            forall|k: int|
                old(self).chunks@.len() <= k < final(self).chunks@.len() ==> (#[trigger] final(self).chunks@[k]).bounds == spec_chunk_box(
                    final(self).chunks@[k].position,
                    old(self).chunk_size as int,
                ) && space.bounds.overlaps(final(self).chunks@[k].bounds) && todo_has(
                    final(self).todo,
                    final(self).chunks@[k].position,
                ),
            (forall|k: int|
                0 <= k < old(self).chunks@.len() ==> todo_has(
                    old(self).todo,
                    (#[trigger] old(self).chunks@[k]).position,
                )) ==> (forall|k: int|
                0 <= k < final(self).chunks@.len() ==> todo_has(
                    final(self).todo,
                    (#[trigger] final(self).chunks@[k]).position,
                )),
            r.0.updated_chunks@.len() == r.0.chunk_update_count,
            r.0.chunk_update_count < camera.chunks_per_frame && space.bounds.overlaps(
                spec_chunk_box(r.1, old(self).chunk_size as int),
            ) ==> spec_chunk_present(final(self).chunks@, r.1),
            old(self).todo.all_blocks_and_chunks || old(self).block_meshes.meshes@.len() == 0
                ==> r.0.block_update_count == space.palette@.len(),
            !old(self).todo.all_blocks_and_chunks && old(self).block_meshes.meshes@.len() > 0
                ==> r.0.block_update_count as int == count_in_range(
                old(self).todo.blocks@,
                space.palette@.len() as int,
            ),
            r.0.depth_sorted == exists|k: int|
                0 <= k < final(self).chunks@.len() && (#[trigger] final(self).chunks@[k]).position
                    == r.1 && final(self).chunks@[k].mesh.transparent_triangles@.len() > 0,
            forall|u: int|
                #![trigger r.0.updated_chunks@[u]]
                0 <= u < r.0.updated_chunks@.len() ==> spec_chunk_updated(
                    final(self).chunks@,
                    r.0.updated_chunks@[u],
                    *space,
                    final(self).block_meshes.meshes@,
                    final(self).block_meshes.versioning@,
                    old(self).chunk_size as int,
                ),
    {
        let cs = self.chunk_size;
        if self.todo.all_blocks_and_chunks {
            // Every chunk will read as stale against the fresh versions.
            self.todo.all_blocks_and_chunks = false;
            self.block_meshes.clear();
        }
        let block_update_count = self.block_meshes.update_some_or_all(
            &mut self.todo.blocks,
            space,
            texture_allocator,
        );
        proof {
            if old(self).block_meshes.meshes@.len() > 0 && old(self).todo.blocks@.len() == 0 {
                assert(count_in_range(old(self).todo.blocks@, space.palette@.len() as int) == 0);
            }
        }
        let view_chunk = cube_to_chunk(camera.view_position, cs);
        proof {
            assert(-0xF100 <= cs * view_chunk.x <= 0xF000 && -0xF100 <= cs * view_chunk.y
                <= 0xF000 && -0xF100 <= cs * view_chunk.z <= 0xF000) by (nonlinear_arith)
                requires
                    1 <= cs <= 0x100,
                    cs * view_chunk.x <= camera.view_position.x < cs * (view_chunk.x + 1),
                    cs * view_chunk.y <= camera.view_position.y < cs * (view_chunk.y + 1),
                    cs * view_chunk.z <= camera.view_position.z < cs * (view_chunk.z + 1),
                    -0xF000 <= camera.view_position.x <= 0xF000,
                    -0xF000 <= camera.view_position.y <= 0xF000,
                    -0xF000 <= camera.view_position.z <= 0xF000,
            ;
            assert(-0xF100 <= view_chunk.x <= 0xF000 && -0xF100 <= view_chunk.y <= 0xF000
                && -0xF100 <= view_chunk.z <= 0xF000) by (nonlinear_arith)
                requires
                    1 <= cs <= 0x100,
                    -0xF100 <= cs * view_chunk.x <= 0xF000,
                    -0xF100 <= cs * view_chunk.y <= 0xF000,
                    -0xF100 <= cs * view_chunk.z <= 0xF000,
            ;
        }
        let ghost chunks0 = self.chunks@;
        let ghost todo_chunks0 = self.todo.chunks@;
        let ghost vers_g = self.block_meshes.versioning@;
        let ghost meshes_g = self.block_meshes.meshes@;
        let ghost reg0 = forall|k: int|
            0 <= k < chunks0.len() ==> todo_has_seq(todo_chunks0, (#[trigger] chunks0[k]).position);
        proof {
            assert(todo_chunks0 == old(self).todo.chunks@);
        }
        let vd = camera.view_distance_chunks;
        let budget = camera.chunks_per_frame;
        let mut chunk_update_count: usize = 0;
        let mut updated_chunks: Vec<ChunkPos> = Vec::new();
        let mut chunks_are_missing = false;
        let mut dx = -vd;
        while dx <= vd
            invariant
                -vd <= dx <= vd + 1,
                self.wf(),
                self.chunk_size == cs,
                chunk_update_count <= budget,
                self.block_meshes.versioning@ == vers_g,
                self.block_meshes.meshes@ == meshes_g,
                self.chunks@.len() >= chunks0.len(),
                forall|k: int|
                    0 <= k < chunks0.len() ==> (#[trigger] self.chunks@[k]).position
                        == chunks0[k].position,
                forall|k: int|
                    0 <= k < chunks0.len() && !todo_dirty_at_seq(
                        todo_chunks0,
                        chunks0[k].position,
                    ) && !chunks0[k].spec_stale(vers_g) ==> #[trigger] self.chunks@[k]
                        == chunks0[k],
                forall|k: int|
                    chunks0.len() <= k < self.chunks@.len() ==> (#[trigger] self.chunks@[k]).bounds
                        == spec_chunk_box(self.chunks@[k].position, cs as int)
                        && space.bounds.overlaps(self.chunks@[k].bounds) && todo_has(
                        self.todo,
                        self.chunks@[k].position,
                    ),
                self.todo.chunks@.len() >= todo_chunks0.len(),
                forall|j: int|
                    0 <= j < todo_chunks0.len() ==> (#[trigger] self.todo.chunks@[j]).0
                        == todo_chunks0[j].0,
                forall|j: int|
                    0 <= j < self.todo.chunks@.len() && (#[trigger] self.todo.chunks@[
                        j
                    ]).1.recompute_mesh ==> j < todo_chunks0.len() && todo_chunks0[
                        j
                    ].1.recompute_mesh,
                updated_chunks@.len() == chunk_update_count,
                chunk_update_count < budget && dx > 0 && space.bounds.overlaps(
                    spec_chunk_box(view_chunk, cs as int),
                ) ==> spec_chunk_present(self.chunks@, view_chunk),
                forall|u: int|
                    #![trigger updated_chunks@[u]]
                    0 <= u < updated_chunks@.len() ==> spec_chunk_updated(
                        self.chunks@,
                        updated_chunks@[u],
                        *space,
                        meshes_g,
                        vers_g,
                        cs as int,
                    ),
                reg0 ==> forall|k: int|
                    0 <= k < self.chunks@.len() ==> todo_has(
                        self.todo,
                        (#[trigger] self.chunks@[k]).position,
                    ),
            decreases vd + 1 - dx,
        {
            let mut dy = -vd;
            while dy <= vd
                invariant
                    -vd <= dy <= vd + 1,
                    -vd <= dx <= vd,
                    self.wf(),
                    self.chunk_size == cs,
                    chunk_update_count <= budget,
                    self.block_meshes.versioning@ == vers_g,
                    self.block_meshes.meshes@ == meshes_g,
                    self.chunks@.len() >= chunks0.len(),
                    forall|k: int|
                        0 <= k < chunks0.len() ==> (#[trigger] self.chunks@[k]).position
                            == chunks0[k].position,
                    forall|k: int|
                        0 <= k < chunks0.len() && !todo_dirty_at_seq(
                            todo_chunks0,
                            chunks0[k].position,
                        ) && !chunks0[k].spec_stale(vers_g) ==> #[trigger] self.chunks@[k]
                            == chunks0[k],
                    forall|k: int|
                        chunks0.len() <= k < self.chunks@.len() ==> (
                        #[trigger] self.chunks@[k]).bounds == spec_chunk_box(
                            self.chunks@[k].position,
                            cs as int,
                        ) && space.bounds.overlaps(self.chunks@[k].bounds) && todo_has(
                            self.todo,
                            self.chunks@[k].position,
                        ),
                    self.todo.chunks@.len() >= todo_chunks0.len(),
                    forall|j: int|
                        0 <= j < todo_chunks0.len() ==> (#[trigger] self.todo.chunks@[j]).0
                            == todo_chunks0[j].0,
                    forall|j: int|
                        0 <= j < self.todo.chunks@.len() && (#[trigger] self.todo.chunks@[
                            j
                        ]).1.recompute_mesh ==> j < todo_chunks0.len() && todo_chunks0[
                            j
                        ].1.recompute_mesh,
                    updated_chunks@.len() == chunk_update_count,
                chunk_update_count < budget && (dx > 0 || (dx == 0 && dy > 0)) && space.bounds.overlaps(
                    spec_chunk_box(view_chunk, cs as int),
                ) ==> spec_chunk_present(self.chunks@, view_chunk),
                forall|u: int|
                    #![trigger updated_chunks@[u]]
                    0 <= u < updated_chunks@.len() ==> spec_chunk_updated(
                        self.chunks@,
                        updated_chunks@[u],
                        *space,
                        meshes_g,
                        vers_g,
                        cs as int,
                    ),
                reg0 ==> forall|k: int|
                        0 <= k < self.chunks@.len() ==> todo_has(
                            self.todo,
                            (#[trigger] self.chunks@[k]).position,
                        ),
                decreases vd + 1 - dy,
            {
                let mut dz = -vd;
                while dz <= vd
                    invariant
                        -vd <= dz <= vd + 1,
                        -vd <= dx <= vd,
                        -vd <= dy <= vd,
                        self.wf(),
                        self.chunk_size == cs,
                        chunk_update_count <= budget,
                        self.block_meshes.versioning@ == vers_g,
                        self.block_meshes.meshes@ == meshes_g,
                        self.chunks@.len() >= chunks0.len(),
                        forall|k: int|
                            0 <= k < chunks0.len() ==> (#[trigger] self.chunks@[k]).position
                                == chunks0[k].position,
                        forall|k: int|
                            0 <= k < chunks0.len() && !todo_dirty_at_seq(
                                todo_chunks0,
                                chunks0[k].position,
                            ) && !chunks0[k].spec_stale(vers_g) ==> #[trigger] self.chunks@[k]
                                == chunks0[k],
                        forall|k: int|
                            chunks0.len() <= k < self.chunks@.len() ==> (
                            #[trigger] self.chunks@[k]).bounds == spec_chunk_box(
                                self.chunks@[k].position,
                                cs as int,
                            ) && space.bounds.overlaps(self.chunks@[k].bounds) && todo_has(
                                self.todo,
                                self.chunks@[k].position,
                            ),
                        self.todo.chunks@.len() >= todo_chunks0.len(),
                        forall|j: int|
                            0 <= j < todo_chunks0.len() ==> (#[trigger] self.todo.chunks@[j]).0
                                == todo_chunks0[j].0,
                        forall|j: int|
                            0 <= j < self.todo.chunks@.len() && (#[trigger] self.todo.chunks@[
                                j
                            ]).1.recompute_mesh ==> j < todo_chunks0.len() && todo_chunks0[
                                j
                            ].1.recompute_mesh,
                        updated_chunks@.len() == chunk_update_count,
                chunk_update_count < budget && (dx > 0 || (dx == 0 && (dy > 0 || (dy == 0 && dz > 0)))) && space.bounds.overlaps(
                    spec_chunk_box(view_chunk, cs as int),
                ) ==> spec_chunk_present(self.chunks@, view_chunk),
                forall|u: int|
                    #![trigger updated_chunks@[u]]
                    0 <= u < updated_chunks@.len() ==> spec_chunk_updated(
                        self.chunks@,
                        updated_chunks@[u],
                        *space,
                        meshes_g,
                        vers_g,
                        cs as int,
                    ),
                reg0 ==> forall|k: int|
                            0 <= k < self.chunks@.len() ==> todo_has(
                                self.todo,
                                (#[trigger] self.chunks@[k]).position,
                            ),
                    decreases vd + 1 - dz,
                {
                    let pos = ChunkPos {
                        x: view_chunk.x + dx,
                        y: view_chunk.y + dy,
                        z: view_chunk.z + dz,
                    };
                    proof {
                        assert(-0x11000 <= pos.x * cs <= 0x11000 && -0x11000 <= pos.y * cs
                            <= 0x11000 && -0x11000 <= pos.z * cs <= 0x11000 && (cs as int) * (
                        cs as int) * (cs as int) <= 0x1000000) by (nonlinear_arith)
                            requires
                                1 <= cs <= 0x100,
                                pos.x == view_chunk.x + dx,
                                pos.y == view_chunk.y + dy,
                                pos.z == view_chunk.z + dz,
                                -0xF100 <= cs * view_chunk.x <= 0xF000,
                                -0xF100 <= cs * view_chunk.y <= 0xF000,
                                -0xF100 <= cs * view_chunk.z <= 0xF000,
                                -16 <= dx <= 16,
                                -16 <= dy <= 16,
                                -16 <= dz <= 16,
                        ;
                    }
                    proof {
                        if dx == 0 && dy == 0 && dz == 0 {
                            assert(pos == view_chunk);
                        }
                    }
                    let chunk_box = GridAab::from_lower_size(
                        [pos.x * cs, pos.y * cs, pos.z * cs],
                        [cs, cs, cs],
                    );
                    let inter = space.grid().intersection(chunk_box);
                    let in_space = inter.is_some();
                    if in_space && chunk_update_count < budget {
                        let existing = self.find_chunk_index(pos);
                        let dirty = match self.todo.find_chunk(pos) {
                            Some(ti) => self.todo.chunks[ti].1.recompute_mesh,
                            None => false,
                        };
                        let stale = match existing {
                            Some(ci) => self.chunks[ci].stale_blocks(
                                &self.block_meshes.versioning,
                            ),
                            None => false,
                        };
                        let missing = existing.is_none();
                        if (dirty && !self.chunks_were_missing) || missing || stale {
                            if missing {
                                chunks_are_missing = true;
                            }
                            // Track dirty flags for this chunk from now on
                            // (re-registering it after a bulk invalidation
                            // cleared the table).
                            let ghost todo_pre = self.todo;
                            self.todo.insert_chunk_clean(pos);
                            let ghost todo_mid = self.todo;
                            let mut mesh = SpaceTriangulation::new();
                            let mut seen: Vec<bool> = Vec::new();
                            mesh.compute(space, chunk_box, &self.block_meshes.meshes, &mut seen);
                            // Record the block meshes this chunk now
                            // depends on, and retain their tiles.
                            let mut block_dependencies: Vec<(BlockIndex, u32)> = Vec::new();
                            let mut tile_dependencies: Vec<<A as TextureAllocator>::Tile> =
                                Vec::new();
                            let ns = seen.len();
                            let mut k: usize = 0;
                            while k < ns
                                invariant
                                    0 <= k <= ns,
                                    ns == seen@.len(),
                                    forall|d: int|
                                        0 <= d < block_dependencies@.len() ==> (((
                                        #[trigger] block_dependencies@[d]).0 as int)
                                            < vers_g.len()) && (vers_g[(block_dependencies@[
                                            d
                                        ].0) as int] == block_dependencies@[d].1),
                                decreases ns - k,
                            {
                                if seen[k] && k < self.block_meshes.versioning.len() && k
                                    < 0xFFFF {
                                    block_dependencies.push(
                                        (k as u16, self.block_meshes.versioning[k]),
                                    );
                                    if k < self.block_meshes.meshes.len() {
                                        let tiles = self.block_meshes.meshes[k].textures();
                                        let nt = tiles.len();
                                        let mut t: usize = 0;
                                        while t < nt
                                            invariant
                                                0 <= t <= nt,
                                                nt == tiles@.len(),
                                            decreases nt - t,
                                        {
                                            tile_dependencies.push(tiles[t]);
                                            t = t + 1;
                                        }
                                    }
                                }
                                k = k + 1;
                            }
                            let new_chunk = ChunkMesh {
                                position: pos,
                                bounds: chunk_box,
                                mesh,
                                block_dependencies,
                                tile_dependencies,
                            };
                            let ghost chunks_pre = self.chunks@;
                            let ghost upd_pre = updated_chunks@;
                            proof {
                                assert(chunk_box == spec_chunk_box(pos, cs as int));
                                assert(!new_chunk.spec_stale(vers_g)) by {
                                    assert forall|k2: int|
                                        0 <= k2 < new_chunk.block_dependencies@.len() implies !(((
                                        #[trigger] new_chunk.block_dependencies@[k2]).0 as int)
                                            >= vers_g.len() || vers_g[new_chunk.block_dependencies@[k2].0 as int]
                                            != new_chunk.block_dependencies@[k2].1) by {}
                                }
                            }
                            proof {
                                // The chunk box meets the space: the
                                // nonempty intersection witnesses it.
                                assert(space.bounds.overlaps(chunk_box)) by {
                                    let ib = inter->Some_0;
                                    assert(ib.size.x >= 1 && ib.size.y >= 1 && ib.size.z >= 1)
                                        by (nonlinear_arith)
                                        requires
                                            ib.size.x >= 0,
                                            ib.size.y >= 0,
                                            ib.size.z >= 0,
                                            ib.size.x * ib.size.y * ib.size.z > 0,
                                    ;
                                    assert(ib.contains_cube(ib.lower));
                                    assert(space.bounds.contains_cube(ib.lower)
                                        && chunk_box.contains_cube(ib.lower));
                                }
                            }
                            match existing {
                                Some(ci) => {
                                    let slot = &mut self.chunks[ci];
                                    *slot = new_chunk;
                                    proof {
                                        assert forall|i: int, k2: int|
                                            0 <= i < self.chunks@.len() && 0 <= k2
                                                < self.chunks@.len() && i != k2 implies (
                                            #[trigger] self.chunks@[i]).position != (
                                            #[trigger] self.chunks@[k2]).position by {}
                                        assert(exists|w: int|
                                            0 <= w < self.chunks@.len() && #[trigger] self.chunks@[
                                                w
                                            ] == new_chunk) by {
                                            assert(self.chunks@[ci as int] == new_chunk);
                                        }
                                        assert forall|k2: int|
                                            0 <= k2 < chunks_pre.len() && chunks_pre[k2].position
                                                != pos implies #[trigger] self.chunks@[k2]
                                            == chunks_pre[k2] by {}
                                        assert forall|k2: int|
                                            0 <= k2 < chunks_pre.len() implies (
                                            #[trigger] self.chunks@[k2]).position == chunks_pre[
                                                k2
                                            ].position by {}
                                    }
                                },
                                None => {
                                    self.chunks.push(new_chunk);
                                    proof {
                                        assert forall|i: int, k2: int|
                                            0 <= i < self.chunks@.len() && 0 <= k2
                                                < self.chunks@.len() && i != k2 implies (
                                            #[trigger] self.chunks@[i]).position != (
                                            #[trigger] self.chunks@[k2]).position by {
                                            if i == self.chunks@.len() - 1 || k2
                                                == self.chunks@.len() - 1 {
                                                assert(self.chunks@[self.chunks@.len()
                                                    - 1].position == pos);
                                            }
                                        }
                                        assert(exists|w: int|
                                            0 <= w < self.chunks@.len() && #[trigger] self.chunks@[
                                                w
                                            ] == new_chunk) by {
                                            assert(self.chunks@[chunks_pre.len() as int]
                                                == new_chunk);
                                        }
                                        assert forall|k2: int|
                                            0 <= k2 < chunks_pre.len() && chunks_pre[k2].position
                                                != pos implies #[trigger] self.chunks@[k2]
                                            == chunks_pre[k2] by {}
                                        assert forall|k2: int|
                                            0 <= k2 < chunks_pre.len() implies (
                                            #[trigger] self.chunks@[k2]).position == chunks_pre[
                                                k2
                                            ].position by {}
                                    }
                                },
                            }
                            self.todo.set_chunk_clean(pos);
                            updated_chunks.push(pos);
                            proof {
                                // Registrations survive both todo updates:
                                // entries are only appended or re-flagged.
                                assert forall|p: ChunkPos| todo_has(todo_pre, p)
                                    implies todo_has(self.todo, p) by {
                                    let j = choose|j: int|
                                        0 <= j < todo_pre.chunks@.len() && (
                                        #[trigger] todo_pre.chunks@[j]).0 == p;
                                    assert(todo_mid.chunks@[j].0 == p);
                                    assert(self.todo.chunks@[j].0 == p);
                                }
                                assert(todo_has(self.todo, pos)) by {
                                    let j = choose|j: int|
                                        0 <= j < todo_mid.chunks@.len() && (
                                        #[trigger] todo_mid.chunks@[j]).0 == pos;
                                    assert(self.todo.chunks@[j].0 == pos);
                                }
                                // Every recorded position still points at a
                                // chunk holding its freshly emitted mesh.
                                let w = choose|w: int|
                                    0 <= w < self.chunks@.len() && #[trigger] self.chunks@[w]
                                        == new_chunk;
                                assert(updated_chunks@ == upd_pre.push(pos));
                                assert forall|u: int|
                                    #![trigger updated_chunks@[u]]
                                    0 <= u < updated_chunks@.len() implies spec_chunk_updated(
                                    self.chunks@,
                                    updated_chunks@[u],
                                    *space,
                                    meshes_g,
                                    vers_g,
                                    cs as int,
                                ) by {
                                    if u == updated_chunks@.len() - 1 {
                                        assert(updated_chunks@[u] == pos);
                                        assert(0 <= w < self.chunks@.len()
                                            && self.chunks@[w].position == updated_chunks@[u]
                                            && self.chunks@[w].mesh.vertices@
                                            == crate::triangulator::spec_space_mesh(
                                            *space,
                                            meshes_g,
                                            spec_chunk_box(updated_chunks@[u], cs as int),
                                        ) && !self.chunks@[w].spec_stale(vers_g));
                                    } else {
                                        assert(updated_chunks@[u] == upd_pre[u]);
                                        assert(spec_chunk_updated(
                                            chunks_pre,
                                            upd_pre[u],
                                            *space,
                                            meshes_g,
                                            vers_g,
                                            cs as int,
                                        ));
                                        let k = choose|k: int|
                                            0 <= k < chunks_pre.len() && (
                                            #[trigger] chunks_pre[k]).position == upd_pre[
                                                u
                                            ] && chunks_pre[k].mesh.vertices@
                                                == crate::triangulator::spec_space_mesh(
                                                *space,
                                                meshes_g,
                                                spec_chunk_box(upd_pre[u], cs as int),
                                            ) && !chunks_pre[k].spec_stale(vers_g);
                                        if chunks_pre[k].position == pos {
                                            assert(self.chunks@[w].position
                                                == updated_chunks@[u]);
                                            assert(0 <= w < self.chunks@.len()
                                                && self.chunks@[w].mesh.vertices@
                                                == crate::triangulator::spec_space_mesh(
                                                *space,
                                                meshes_g,
                                                spec_chunk_box(updated_chunks@[u], cs as int),
                                            ) && !self.chunks@[w].spec_stale(vers_g));
                                        } else {
                                            assert(self.chunks@[k] == chunks_pre[k]);
                                            assert(0 <= k < self.chunks@.len()
                                                && self.chunks@[k].position == updated_chunks@[u]
                                                && self.chunks@[k].mesh.vertices@
                                                == crate::triangulator::spec_space_mesh(
                                                *space,
                                                meshes_g,
                                                spec_chunk_box(updated_chunks@[u], cs as int),
                                            ) && !self.chunks@[k].spec_stale(vers_g));
                                        }
                                    }
                                }
                                assert forall|p: ChunkPos| spec_chunk_present(chunks_pre, p)
                                    implies spec_chunk_present(self.chunks@, p) by {
                                    let k = choose|k: int|
                                        0 <= k < chunks_pre.len() && (
                                        #[trigger] chunks_pre[k]).position == p;
                                    assert(self.chunks@[k].position == chunks_pre[k].position);
                                }
                                assert(spec_chunk_present(self.chunks@, pos)) by {
                                    let w2 = choose|w2: int|
                                        0 <= w2 < self.chunks@.len() && #[trigger] self.chunks@[
                                            w2
                                        ] == new_chunk;
                                    assert(self.chunks@[w2].position == pos);
                                }
                            }
                            chunk_update_count = chunk_update_count + 1;
                        }
                    }
                    dz = dz + 1;
                }
                dy = dy + 1;
            }
            dx = dx + 1;
        }
        self.chunks_were_missing = chunks_are_missing;
        // Re-sort the transparent geometry of the chunk the camera is in.
        let mut depth_sorted = false;
        match self.find_chunk_index(view_chunk) {
            Some(ci) => {
                let ghost chunks_end = self.chunks@;
                let cm = &mut self.chunks[ci];
                let ghost pos0 = cm.position;
                depth_sorted = cm.mesh.depth_sort_for_view(camera.view_position);
                proof {
                    assert(self.chunks@[ci as int].position == pos0);
                    assert forall|i: int, k2: int|
                        0 <= i < self.chunks@.len() && 0 <= k2 < self.chunks@.len() && i != k2
                        implies (#[trigger] self.chunks@[i]).position != (
                        #[trigger] self.chunks@[k2]).position by {}
                    assert forall|p: ChunkPos| spec_chunk_present(chunks_end, p)
                        implies spec_chunk_present(self.chunks@, p) by {
                        let k = choose|k: int|
                            0 <= k < chunks_end.len() && (#[trigger] chunks_end[k]).position == p;
                        assert(self.chunks@[k].position == chunks_end[k].position);
                    }
                    if depth_sorted {
                        assert(self.chunks@[ci as int].position == view_chunk && self.chunks@[
                            ci as int
                        ].mesh.transparent_triangles@.len() > 0);
                    } else {
                        assert forall|k: int|
                            0 <= k < self.chunks@.len() implies !((
                            #[trigger] self.chunks@[k]).position == view_chunk && self.chunks@[
                                k
                            ].mesh.transparent_triangles@.len() > 0) by {
                            if k != ci as int {
                                assert(self.chunks@[k].position != self.chunks@[
                                    ci as int
                                ].position);
                            }
                        }
                    }
                    // Re-sorting permutes transparent triangle order only:
                    // the vertex list and the dependency table are intact,
                    // so every recorded position keeps its witness.
                    assert forall|u: int|
                        #![trigger updated_chunks@[u]]
                        0 <= u < updated_chunks@.len() implies spec_chunk_updated(
                        self.chunks@,
                        updated_chunks@[u],
                        *space,
                        meshes_g,
                        vers_g,
                        cs as int,
                    ) by {
                        assert(spec_chunk_updated(
                            chunks_end,
                            updated_chunks@[u],
                            *space,
                            meshes_g,
                            vers_g,
                            cs as int,
                        ));
                        let k = choose|k: int|
                            0 <= k < chunks_end.len() && (#[trigger] chunks_end[k]).position
                                == updated_chunks@[u] && chunks_end[k].mesh.vertices@
                                == crate::triangulator::spec_space_mesh(
                                *space,
                                meshes_g,
                                spec_chunk_box(updated_chunks@[u], cs as int),
                            ) && !chunks_end[k].spec_stale(vers_g);
                        if k == ci as int {
                            assert(self.chunks@[k].position == chunks_end[k].position);
                            assert(self.chunks@[k].mesh.vertices@ == chunks_end[k].mesh.vertices@);
                            assert(self.chunks@[k].block_dependencies@
                                == chunks_end[k].block_dependencies@);
                            assert(!self.chunks@[k].spec_stale(vers_g));
                            assert(0 <= k < self.chunks@.len()
                                && self.chunks@[k].position == updated_chunks@[u]
                                && self.chunks@[k].mesh.vertices@
                                == crate::triangulator::spec_space_mesh(
                                *space,
                                meshes_g,
                                spec_chunk_box(updated_chunks@[u], cs as int),
                            ));
                        } else {
                            assert(self.chunks@[k] == chunks_end[k]);
                        }
                    }
                }
            },
            None => {},
        }
        (
            CstUpdateInfo { chunk_update_count, block_update_count, depth_sorted, updated_chunks },
            view_chunk,
        )
    }
}

} // verus!
