//! Texture-atlas management on top of the octree region allocator.
//!
//! The allocator hands out reference-counted tiles, each owning one region
//! of the atlas.  Tile pixel data is buffered and copied to the backing
//! store by [`AtlasAllocator::flush`], which touches exactly the regions of
//! the tiles written since the previous flush.
//!
//! Ownership is arena-style: a tile is an index into the allocator's slot
//! table, and the reference count is maintained by explicit
//! [`AtlasAllocator::tile_clone`] / [`AtlasAllocator::release`] calls
//! instead of a drop hook.

use vstd::prelude::*;

use crate::alloctree::{
    corner_of, free_slots, min_fit_exp, non_extreme, pow2, spec_fits, spec_max_edge, Alloctree,
    AlloctreeHandle,
};
use crate::grid_array::GridArray;
use crate::math::{GridAab, GridVector};

verus! {

/// RGBA color data stored in the atlas, one byte per channel.
pub type Texel = (u8, u8, u8, u8);

/// Storage and bookkeeping for one allocated tile.
pub struct TileBacking {
    /// The region of the atlas this tile owns; `None` once released.
    pub handle: Option<AlloctreeHandle>,
    /// Pixel data that might not have been flushed yet, in tile-local
    /// coordinates (the caller's requested box).
    pub data: Option<GridArray<Texel>>,
    /// Whether `data` needs to be copied to the store on the next flush.
    pub dirty: bool,
    /// Number of live [`AtlasTile`] handles for this slot.
    pub refcount: usize,
}

/// Handle to one allocated, independently writable region of the atlas.
///
/// Tiles compare equal exactly when they share a backing slot.
#[derive(Debug, PartialEq, Eq, Structural)]
pub struct AtlasTile {
    /// Index of the backing slot in the allocator.
    pub id: usize,
    /// The vector that carries the caller's box onto the granted region.
    pub offset: GridVector,
}

/// The atlas backing store: a cube of texels of edge `2^size_exponent`.
pub struct AtlasTexture {
    pub contents: GridArray<Texel>,
}

/// Counts returned by [`AtlasAllocator::flush`] for observability.
#[derive(Clone, Copy, Debug, PartialEq, Eq, Structural)]
pub struct BlockTextureInfo {
    /// Tiles whose data was copied by this flush.
    pub flushed: usize,
    /// Tiles currently alive.
    pub in_use_tiles: usize,
    /// Texels allocated to live tiles (request volume).
    pub in_use_texels: usize,
    /// Total capacity of the atlas in texels.
    pub capacity_texels: usize,
}

/// Allocator of atlas regions with dirty-tile tracking.
pub struct AtlasAllocator {
    pub alloctree: Alloctree,
    /// Whether any tile was written since the last flush.
    pub dirty: bool,
    /// Slot table; tile ids index into it.  Slots are never removed, so
    /// ids stay stable.
    pub in_use: Vec<TileBacking>,
}

/// A slot whose data a flush must copy.
pub open spec fn flushable(s: TileBacking) -> bool {
    s.refcount > 0 && s.dirty && s.data is Some
}

/// How many of the first `n` slots a flush must copy.
pub open spec fn flush_count(s: Seq<TileBacking>, n: int) -> int
    decreases n,
{
    if n <= 0 || s.len() < n {
        0
    } else {
        flush_count(s, n - 1) + if flushable(s[n - 1]) {
            1int
        } else {
            0int
        }
    }
}

/// How many of the first `n` slots are alive.
pub open spec fn live_count(s: Seq<TileBacking>, n: int) -> int
    decreases n,
{
    if n <= 0 || s.len() < n {
        0
    } else {
        live_count(s, n - 1) + if s[n - 1].refcount > 0 {
            1int
        } else {
            0int
        }
    }
}

impl AtlasAllocator {
    pub open spec fn slot_live(self, i: int) -> bool {
        0 <= i < self.in_use@.len() && self.in_use@[i].refcount > 0
    }

    /// Region owned by live slot `i`.
    pub open spec fn region(self, i: int) -> GridAab {
        self.in_use@[i].handle->Some_0.allocation
    }

    pub open spec fn wf(self) -> bool {
        &&& self.alloctree.wf()
        &&& forall|i: int|
            0 <= i < self.in_use@.len() ==> {
                let s = #[trigger] self.in_use@[i];
                &&& (s.refcount > 0 <==> s.handle is Some)
                &&& (s.handle is Some ==> {
                    let h = s.handle->Some_0;
                    &&& self.alloctree.allocs@.contains_key(corner_of(h.allocation.lower))
                    &&& self.alloctree.allocs@[corner_of(h.allocation.lower)] == h.allocation
                })
                &&& (s.refcount > 0 && s.data is Some ==> {
                    let d = s.data->Some_0;
                    &&& d.wf()
                    &&& d.bounds.size == s.handle->Some_0.allocation.size
                    &&& i32::MIN <= s.handle->Some_0.allocation.lower.x - s.handle->Some_0.offset.x
                        <= i32::MAX
                    &&& i32::MIN <= s.handle->Some_0.allocation.lower.y - s.handle->Some_0.offset.y
                        <= i32::MAX
                    &&& i32::MIN <= s.handle->Some_0.allocation.lower.z - s.handle->Some_0.offset.z
                        <= i32::MAX
                    &&& d.bounds.lower == (GridVector {
                        x: (s.handle->Some_0.allocation.lower.x - s.handle->Some_0.offset.x) as i32,
                        y: (s.handle->Some_0.allocation.lower.y - s.handle->Some_0.offset.y) as i32,
                        z: (s.handle->Some_0.allocation.lower.z - s.handle->Some_0.offset.z) as i32,
                    })
                })
            }
        &&& forall|i: int, k: int|
            0 <= i < self.in_use@.len() && 0 <= k < self.in_use@.len() && i != k && (
            #[trigger] self.in_use@[i]).handle is Some && (#[trigger] self.in_use@[k]).handle
                is Some ==> corner_of(self.in_use@[i].handle->Some_0.allocation.lower) != corner_of(
                self.in_use@[k].handle->Some_0.allocation.lower,
            )
    }

    /// A tile handle that designates a live slot of this allocator.
    pub open spec fn tile_valid(self, t: AtlasTile) -> bool {
        &&& self.slot_live(t.id as int)
        &&& self.in_use@[t.id as int].handle->Some_0.offset == t.offset
    }

    /// Creates an atlas allocator of edge `2^size_exponent` with no tiles.
    pub fn new(size_exponent: u8) -> (r: AtlasAllocator)
        requires
            size_exponent <= 10,
        ensures
            r.wf(),
            r.alloctree.size_exponent == size_exponent,
            r.alloctree.allocs@ == Map::<crate::alloctree::Corner, GridAab>::empty(),
            r.in_use@.len() == 0,
            !r.dirty,
    {
        AtlasAllocator { alloctree: Alloctree::new(size_exponent), dirty: false, in_use: Vec::new() }
    }

    /// Allocate a region of the atlas for `request`, if room remains.
    ///
    /// On success the new tile's slot holds a region of exactly the
    /// requested size and a reference count of one; on failure nothing
    /// changes.  Success is owed whenever a slot of the request's minimal
    /// fitting exponent is free (for non-pathological coordinates).
    pub fn allocate(&mut self, request: GridAab) -> (r: Option<AtlasTile>)
        requires
            old(self).wf(),
            request.wf(),
        ensures
            final(self).wf(),
            final(self).alloctree.size_exponent == old(self).alloctree.size_exponent,
            final(self).dirty == old(self).dirty,
            spec_fits(request.size, old(self).alloctree.exp()) && non_extreme(request)
                && free_slots(
                old(self).alloctree.root,
                old(self).alloctree.exp(),
                min_fit_exp(spec_max_edge(request.size)),
            ) > 0 ==> r is Some,
            match r {
                None => {
                    &&& final(self).in_use@ == old(self).in_use@
                    &&& final(self).alloctree.allocs@ == old(self).alloctree.allocs@
                    &&& final(self).alloctree.occupied_volume == old(
                        self,
                    ).alloctree.occupied_volume
                },
                Some(t) => {
                    &&& t.id == old(self).in_use@.len()
                    &&& final(self).in_use@.len() == old(self).in_use@.len() + 1
                    &&& forall|i: int|
                        0 <= i < old(self).in_use@.len() ==> final(self).in_use@[i] == old(
                            self,
                        ).in_use@[i]
                    &&& final(self).tile_valid(t)
                    &&& final(self).in_use@[t.id as int].refcount == 1
                    &&& final(self).in_use@[t.id as int].data is None
                    &&& !final(self).in_use@[t.id as int].dirty
                    &&& final(self).region(t.id as int).size == request.size
                    &&& final(self).region(t.id as int).wf()
                    &&& t.offset.x == final(self).region(t.id as int).lower.x - request.lower.x
                    &&& t.offset.y == final(self).region(t.id as int).lower.y - request.lower.y
                    &&& t.offset.z == final(self).region(t.id as int).lower.z - request.lower.z
                    &&& final(self).alloctree.occupied_volume == old(
                        self,
                    ).alloctree.occupied_volume + request.spec_volume()
                },
            },
    {
        let ghost old_tree = self.alloctree;
        let r = self.alloctree.allocate(request);
        match r {
            None => None,
            Some(h) => {
                let ghost hg = h;
                let id = self.in_use.len();
                let offset = h.offset;
                let tile = AtlasTile { id, offset };
                self.in_use.push(
                    TileBacking { handle: Some(h), data: None, dirty: false, refcount: 1 },
                );
                proof {
                    assert forall|i: int| 0 <= i < self.in_use@.len() implies {
                        let s = #[trigger] self.in_use@[i];
                        &&& (s.refcount > 0 <==> s.handle is Some)
                        &&& (s.handle is Some ==> {
                            let h2 = s.handle->Some_0;
                            &&& self.alloctree.allocs@.contains_key(corner_of(h2.allocation.lower))
                            &&& self.alloctree.allocs@[corner_of(h2.allocation.lower)]
                                == h2.allocation
                        })
                        &&& (s.refcount > 0 && s.data is Some ==> {
                            let d = s.data->Some_0;
                            &&& d.wf()
                            &&& d.bounds.size == s.handle->Some_0.allocation.size
                            &&& i32::MIN <= s.handle->Some_0.allocation.lower.x
                                - s.handle->Some_0.offset.x <= i32::MAX
                            &&& i32::MIN <= s.handle->Some_0.allocation.lower.y
                                - s.handle->Some_0.offset.y <= i32::MAX
                            &&& i32::MIN <= s.handle->Some_0.allocation.lower.z
                                - s.handle->Some_0.offset.z <= i32::MAX
                            &&& d.bounds.lower == (GridVector {
                                x: (s.handle->Some_0.allocation.lower.x
                                    - s.handle->Some_0.offset.x) as i32,
                                y: (s.handle->Some_0.allocation.lower.y
                                    - s.handle->Some_0.offset.y) as i32,
                                z: (s.handle->Some_0.allocation.lower.z
                                    - s.handle->Some_0.offset.z) as i32,
                            })
                        })
                    } by {
                        if i < self.in_use@.len() - 1 {
                            assert(old(self).in_use@[i] == self.in_use@[i]);
                            assert(old_tree.allocs@.contains_key(
                                corner_of(self.in_use@[i].handle->Some_0.allocation.lower),
                            ) ==> self.alloctree.allocs@.contains_key(
                                corner_of(self.in_use@[i].handle->Some_0.allocation.lower),
                            ));
                        }
                    }
                }
                Some(tile)
            },
        }
    }

    /// Create another handle to the same tile, bumping its reference count.
    pub fn tile_clone(&mut self, tile: &AtlasTile) -> (r: AtlasTile)
        requires
            old(self).wf(),
            old(self).tile_valid(*tile),
            old(self).in_use@[tile.id as int].refcount < usize::MAX,
        ensures
            final(self).wf(),
            r == *tile,
            final(self).in_use@ == old(self).in_use@.update(
                tile.id as int,
                TileBacking {
                    refcount: (old(self).in_use@[tile.id as int].refcount + 1) as usize,
                    ..old(self).in_use@[tile.id as int]
                },
            ),
            final(self).alloctree == old(self).alloctree,
            final(self).dirty == old(self).dirty,
    {
        let slot = &mut self.in_use[tile.id];
        slot.refcount = slot.refcount + 1;
        AtlasTile { id: tile.id, offset: tile.offset }
    }

    /// Store pixel data for a tile, in the tile's own (request) coordinates,
    /// and mark the tile and the allocator dirty.
    ///
    /// The data must cover exactly the allocated region.
    pub fn write(&mut self, tile: &AtlasTile, data: GridArray<Texel>)
        requires
            old(self).wf(),
            old(self).tile_valid(*tile),
            data.wf(),
            data.bounds.size == old(self).region(tile.id as int).size,
            data.bounds.lower.x == old(self).region(tile.id as int).lower.x - tile.offset.x,
            i32::MIN <= old(self).region(tile.id as int).lower.x - tile.offset.x <= i32::MAX,
            i32::MIN <= old(self).region(tile.id as int).lower.y - tile.offset.y <= i32::MAX,
            i32::MIN <= old(self).region(tile.id as int).lower.z - tile.offset.z <= i32::MAX,
            data.bounds.lower.y == old(self).region(tile.id as int).lower.y - tile.offset.y,
            data.bounds.lower.z == old(self).region(tile.id as int).lower.z - tile.offset.z,
        ensures
            final(self).wf(),
            final(self).dirty,
            final(self).in_use@ == old(self).in_use@.update(
                tile.id as int,
                TileBacking {
                    data: Some(data),
                    dirty: true,
                    ..old(self).in_use@[tile.id as int]
                },
            ),
            final(self).alloctree == old(self).alloctree,
    {
        let slot = &mut self.in_use[tile.id];
        slot.data = Some(data);
        slot.dirty = true;
        self.dirty = true;
    }

    /// Release one reference to a tile.  When the last reference goes, the
    /// tile's region returns to the region allocator, so an identical
    /// request is owed success again.
    pub fn release(&mut self, tile: AtlasTile)
        requires
            old(self).wf(),
            old(self).tile_valid(tile),
        ensures
            final(self).wf(),
            final(self).alloctree.size_exponent == old(self).alloctree.size_exponent,
            final(self).dirty == old(self).dirty,
            final(self).in_use@.len() == old(self).in_use@.len(),
            forall|i: int|
                0 <= i < old(self).in_use@.len() && i != tile.id as int ==> final(self).in_use@[i]
                    == old(self).in_use@[i],
            old(self).in_use@[tile.id as int].refcount > 1 ==> {
                &&& final(self).in_use@[tile.id as int].refcount == old(
                    self,
                ).in_use@[tile.id as int].refcount - 1
                &&& final(self).alloctree == old(self).alloctree
            },
            old(self).in_use@[tile.id as int].refcount == 1 ==> {
                let region = old(self).region(tile.id as int);
                &&& final(self).in_use@[tile.id as int].refcount == 0
                &&& final(self).alloctree.allocs@ == old(self).alloctree.allocs@.remove(
                    corner_of(region.lower),
                )
                &&& final(self).alloctree.occupied_volume == old(self).alloctree.occupied_volume
                    - region.spec_volume()
                &&& free_slots(
                    final(self).alloctree.root,
                    old(self).alloctree.exp(),
                    min_fit_exp(spec_max_edge(region.size)),
                ) == free_slots(
                    old(self).alloctree.root,
                    old(self).alloctree.exp(),
                    min_fit_exp(spec_max_edge(region.size)),
                ) + 1
            },
    {
        let slot = &mut self.in_use[tile.id];
        if slot.refcount > 1 {
            slot.refcount = slot.refcount - 1;
        } else {
            slot.refcount = 0;
            let handle_opt = slot.handle.take();
            slot.data = None;
            slot.dirty = false;
            match handle_opt {
                Some(h) => {
                    self.alloctree.free(h);
                },
                None => {
                    proof {
                        assert(false);
                    }
                },
            }
            proof {
                assert forall|i: int|
                    0 <= i < self.in_use@.len() && (#[trigger] self.in_use@[i]).handle is Some
                    implies {
                    let h2 = self.in_use@[i].handle->Some_0;
                    &&& self.alloctree.allocs@.contains_key(corner_of(h2.allocation.lower))
                    &&& self.alloctree.allocs@[corner_of(h2.allocation.lower)] == h2.allocation
                } by {
                    assert(i != tile.id as int);
                    assert(old(self).in_use@[i] == self.in_use@[i]);
                }
            }
        }
    }
}


/// `c` precedes the position `(x, y, z)` in the x-major copy order.
pub open spec fn before3(c: GridVector, x: int, y: int, z: int) -> bool {
    ||| c.x < x
    ||| (c.x == x && (c.y < y || (c.y == y && c.z < z)))
}

impl AtlasTexture {
    pub open spec fn wf(self, size_exponent: int) -> bool {
        &&& self.contents.wf()
        &&& self.contents.bounds.lower == (GridVector { x: 0, y: 0, z: 0 })
        &&& self.contents.bounds.size.x == pow2(size_exponent)
        &&& self.contents.bounds.size.y == pow2(size_exponent)
        &&& self.contents.bounds.size.z == pow2(size_exponent)
    }

    /// A store of edge `2^size_exponent`, initially all transparent black.
    pub fn new(size_exponent: u8) -> (r: AtlasTexture)
        requires
            size_exponent <= 10,
        ensures
            r.wf(size_exponent as int),
            forall|c: GridVector|
                r.contents.bounds.contains_cube(c) ==> r.contents.at(c) == (0u8, 0u8, 0u8, 0u8),
    {
        let size = crate::alloctree::expsize(size_exponent);
        proof {
            crate::alloctree::lemma_pow2_bound(size_exponent as int);
            crate::alloctree::lemma_pow2_pos(size_exponent as int);
            assert((size as int) * (size as int) * (size as int) <= usize::MAX)
                by (nonlinear_arith)
                requires
                    1 <= size <= 1024,
            ;
        }
        let bounds = GridAab::from_lower_size([0, 0, 0], [size, size, size]);
        AtlasTexture { contents: GridArray::repeat(bounds, (0, 0, 0, 0)) }
    }
}

impl AtlasAllocator {
    /// Copy the data of every written, still-referenced tile into the
    /// backing store and clear all dirtiness.
    ///
    /// If nothing was written since the last flush, nothing is copied and
    /// the store is untouched.  Otherwise exactly the written tiles'
    /// regions are overwritten with the written texels, and every other
    /// texel of the store is unchanged.
    #[verifier::loop_isolation(false)]
    #[verifier::rlimit(60)]
    pub fn flush(&mut self, texture: &mut AtlasTexture) -> (r: BlockTextureInfo)
        requires
            old(self).wf(),
            old(texture).wf(old(self).alloctree.exp()),
        ensures
            final(self).wf(),
            final(texture).wf(old(self).alloctree.exp()),
            final(self).alloctree == old(self).alloctree,
            !final(self).dirty,
            final(self).in_use@.len() == old(self).in_use@.len(),
            forall|i: int|
                0 <= i < old(self).in_use@.len() ==> {
                    let s0 = old(self).in_use@[i];
                    let s1 = #[trigger] final(self).in_use@[i];
                    &&& s1.handle == s0.handle
                    &&& s1.data == s0.data
                    &&& s1.refcount == s0.refcount
                    &&& s1.dirty == (s0.dirty && !(old(self).dirty && flushable(s0)))
                },
            old(self).dirty ==> forall|i: int, c: GridVector|
                #![trigger old(self).region(i).contains_cube(c)]
                0 <= i < old(self).in_use@.len() && flushable(old(self).in_use@[i])
                    && old(self).region(i).contains_cube(c) ==> final(texture).contents.at(c)
                    == old(self).in_use@[i].data->Some_0.at(
                    GridVector {
                        x: (c.x - old(self).in_use@[i].handle->Some_0.offset.x) as i32,
                        y: (c.y - old(self).in_use@[i].handle->Some_0.offset.y) as i32,
                        z: (c.z - old(self).in_use@[i].handle->Some_0.offset.z) as i32,
                    },
                ),
            forall|c: GridVector|
                old(texture).contents.bounds.contains_cube(c) && !(exists|i: int|
                    0 <= i < old(self).in_use@.len() && old(self).dirty && flushable(
                        #[trigger] old(self).in_use@[i],
                    ) && old(self).region(i).contains_cube(c)) ==> final(texture).contents.at(c)
                    == old(texture).contents.at(c),
            r.flushed == if old(self).dirty {
                flush_count(old(self).in_use@, old(self).in_use@.len() as int)
            } else {
                0
            },
            r.in_use_tiles == live_count(old(self).in_use@, old(self).in_use@.len() as int),
            r.in_use_texels == old(self).alloctree.occupied_volume,
            r.capacity_texels as int == pow2(old(self).alloctree.exp()) * pow2(
                old(self).alloctree.exp(),
            ) * pow2(old(self).alloctree.exp()),
    {
        let ghost in0 = self.in_use@;
        let ghost tex0 = texture.contents;
        let n = self.in_use.len();
        let mut count: usize = 0;
        if self.dirty {
            let mut i: usize = 0;
            while i < n
                invariant
                    0 <= i <= n,
                    self.in_use@.len() == n,
                    self.alloctree == old(self).alloctree,
                    forall|t: int|
                        0 <= t < n ==> {
                            let s0 = in0[t];
                            let s1 = #[trigger] self.in_use@[t];
                            &&& s1.handle == s0.handle
                            &&& s1.data == s0.data
                            &&& s1.refcount == s0.refcount
                            &&& s1.dirty == (s0.dirty && !(t < i && flushable(s0)))
                        },
                    texture.contents.wf(),
                    texture.contents.bounds == tex0.bounds,
                    forall|t: int, c: GridVector|
                        #![trigger in0[t].handle->Some_0.allocation.contains_cube(c)]
                        0 <= t < i && flushable(in0[t])
                            && in0[t].handle->Some_0.allocation.contains_cube(c)
                            ==> texture.contents.at(c)
                            == in0[t].data->Some_0.at(
                            GridVector {
                                x: (c.x - in0[t].handle->Some_0.offset.x) as i32,
                                y: (c.y - in0[t].handle->Some_0.offset.y) as i32,
                                z: (c.z - in0[t].handle->Some_0.offset.z) as i32,
                            },
                        ),
                    forall|c: GridVector|
                        tex0.bounds.contains_cube(c) && !(exists|t: int|
                            0 <= t < i && flushable(#[trigger] in0[t]) && in0[t].handle->Some_0.allocation.contains_cube(c))
                            ==> texture.contents.at(c) == tex0.at(c),
                    count == flush_count(in0, i as int),
                    count <= i,
                decreases n - i,
            {
                let sref = &self.in_use[i];
                let do_flush = sref.refcount > 0 && sref.dirty && sref.data.is_some();
                if do_flush {
                    proof {
                        assert(flushable(in0[i as int]));
                        // The region of a live slot lies within the store.
                        crate::alloctree::lemma_region_in_root(
                            self.alloctree,
                            corner_of(in0[i as int].handle->Some_0.allocation.lower),
                        );
                    }
                    match (&sref.handle, &sref.data) {
                        (Some(h), Some(d)) => {
                            let region = h.allocation;
                            let off = h.offset;
                            let ghost tex_s = texture.contents;
                            let upper = region.upper_bounds();
                            let mut x = region.lower_bounds().x;
                            while x < upper.x
                                invariant
                                    region.lower.x <= x <= upper.x,
                                    texture.contents.wf(),
                                    texture.contents.bounds == tex0.bounds,
                                    forall|c: GridVector|
                                        region.contains_cube(c) && c.x < x
                                            ==> texture.contents.at(c) == d.at(
                                            GridVector {
                                                x: (c.x - off.x) as i32,
                                                y: (c.y - off.y) as i32,
                                                z: (c.z - off.z) as i32,
                                            },
                                        ),
                                    forall|c: GridVector|
                                        tex0.bounds.contains_cube(c) && !(region.contains_cube(c)
                                            && c.x < x) ==> texture.contents.at(c) == tex_s.at(c),
                                decreases upper.x - x,
                            {
                                let mut y = region.lower_bounds().y;
                                while y < upper.y
                                    invariant
                                        region.lower.x <= x < upper.x,
                                        region.lower.y <= y <= upper.y,
                                        texture.contents.wf(),
                                        texture.contents.bounds == tex0.bounds,
                                        forall|c: GridVector|
                                            region.contains_cube(c) && before3(c, x as int, y as int, region.lower.z as int)
                                                ==> texture.contents.at(c) == d.at(
                                                GridVector {
                                                    x: (c.x - off.x) as i32,
                                                    y: (c.y - off.y) as i32,
                                                    z: (c.z - off.z) as i32,
                                                },
                                            ),
                                        forall|c: GridVector|
                                            tex0.bounds.contains_cube(c) && !(region.contains_cube(
                                                c,
                                            ) && before3(c, x as int, y as int, region.lower.z as int))
                                                ==> texture.contents.at(c) == tex_s.at(c),
                                    decreases upper.y - y,
                                {
                                    let mut z = region.lower_bounds().z;
                                    while z < upper.z
                                        invariant
                                            region.lower.x <= x < upper.x,
                                            region.lower.y <= y < upper.y,
                                            region.lower.z <= z <= upper.z,
                                            texture.contents.wf(),
                                            texture.contents.bounds == tex0.bounds,
                                            forall|c: GridVector|
                                                region.contains_cube(c) && before3(c, x as int, y as int, z as int)
                                                    ==> texture.contents.at(c) == d.at(
                                                    GridVector {
                                                        x: (c.x - off.x) as i32,
                                                        y: (c.y - off.y) as i32,
                                                        z: (c.z - off.z) as i32,
                                                    },
                                                ),
                                            forall|c: GridVector|
                                                tex0.bounds.contains_cube(c) && !(
                                                region.contains_cube(c) && before3(c, x as int, y as int, z as int))
                                                    ==> texture.contents.at(c) == tex_s.at(c),
                                        decreases upper.z - z,
                                    {
                                        let c = GridVector { x, y, z };
                                        let local = GridVector {
                                            x: x - off.x,
                                            y: y - off.y,
                                            z: z - off.z,
                                        };
                                        let v = *d.get(local);
                                        texture.contents.set(c, v);
                                        z = z + 1;
                                    }
                                    y = y + 1;
                                }
                                x = x + 1;
                            }
                            proof {
                                assert forall|c: GridVector|
                                    region.contains_cube(c) implies texture.contents.at(c) == d.at(
                                    GridVector {
                                        x: (c.x - off.x) as i32,
                                        y: (c.y - off.y) as i32,
                                        z: (c.z - off.z) as i32,
                                    },
                                ) by {}
                                // Regions of distinct live slots are
                                // disjoint, so this copy clobbered no
                                // earlier slot's region.
                                assert forall|t: int, c: GridVector|
                                    #![trigger in0[t].handle->Some_0.allocation.contains_cube(c)]
                                    0 <= t < i && flushable(in0[t])
                                        && in0[t].handle->Some_0.allocation.contains_cube(c)
                                    implies !in0[i as int].handle->Some_0.allocation.contains_cube(
                                    c,
                                ) by {
                                    let rt = in0[t].handle->Some_0.allocation;
                                    let ri = in0[i as int].handle->Some_0.allocation;
                                    if ri.contains_cube(c) {
                                        crate::alloctree::lemma_live_regions_disjoint(
                                            self.alloctree,
                                            corner_of(rt.lower),
                                            corner_of(ri.lower),
                                        );
                                        assert(rt.contains_cube(c) && ri.contains_cube(c));
                                        assert(rt.overlaps(ri));
                                        assert(false);
                                    }
                                }
                                // Re-establish the copied-so-far invariant
                                // with this slot included.
                                assert(in0[i as int].data->Some_0 == *d);
                                assert(in0[i as int].handle->Some_0 == *h);
                                assert forall|t: int, c: GridVector|
                                    #![trigger in0[t].handle->Some_0.allocation.contains_cube(c)]
                                    0 <= t <= i as int && flushable(in0[t])
                                        && in0[t].handle->Some_0.allocation.contains_cube(c)
                                    implies texture.contents.at(c) == in0[t].data->Some_0.at(
                                    GridVector {
                                        x: (c.x - in0[t].handle->Some_0.offset.x) as i32,
                                        y: (c.y - in0[t].handle->Some_0.offset.y) as i32,
                                        z: (c.z - in0[t].handle->Some_0.offset.z) as i32,
                                    },
                                ) by {
                                    if t == i as int {
                                        assert(texture.contents.at(c) == d.at(
                                            GridVector {
                                                x: (c.x - off.x) as i32,
                                                y: (c.y - off.y) as i32,
                                                z: (c.z - off.z) as i32,
                                            },
                                        ));
                                    } else {
                                        assert(!in0[
                                            i as int
                                        ].handle->Some_0.allocation.contains_cube(c));
                                        assert(self.in_use@[t].handle == in0[t].handle);
                                        crate::alloctree::lemma_region_in_root(
                                            self.alloctree,
                                            corner_of(in0[t].handle->Some_0.allocation.lower),
                                        );
                                        assert(tex0.bounds.contains_cube(c));
                                        assert(texture.contents.at(c) == tex_s.at(c));
                                    }
                                }
                            }
                        },
                        _ => {
                            proof {
                                assert(false);
                            }
                        },
                    }
                    let sm = &mut self.in_use[i];
                    sm.dirty = false;
                    count = count + 1;
                }
                i = i + 1;
            }
        }
        self.dirty = false;
        let mut live: usize = 0;
        let mut k: usize = 0;
        while k < n
            invariant
                0 <= k <= n,
                self.in_use@.len() == n,
                live == live_count(in0, k as int),
                live <= k,
                forall|t: int| 0 <= t < n ==> (#[trigger] self.in_use@[t]).refcount == in0[t].refcount,
            decreases n - k,
        {
            if self.in_use[k].refcount > 0 {
                live = live + 1;
            }
            k = k + 1;
        }
        let capacity = self.alloctree.bounds().volume();
        BlockTextureInfo {
            flushed: count,
            in_use_tiles: live,
            in_use_texels: self.alloctree.occupied_volume(),
            capacity_texels: capacity,
        }
    }
}

} // verus!
