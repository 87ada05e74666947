//! Voxel spaces (grids of blocks) and the universe that owns them.
//!
//! A space stores, per cube, an index into its palette of blocks; each
//! palette entry keeps the block together with its evaluation, so lookups
//! during meshing need no re-evaluation.  The universe is an arena of
//! spaces addressed by index, and drives block tick actions.

use vstd::prelude::*;

use crate::block::{
    clone_attributes, clone_block, ev_wf, like_block, Block, BlockAttributes, EvalBlockError,
    EvaluatedBlock, Evoxel, Modifier, Primitive,
};
use crate::grid_array::GridArray;
use crate::math::{GridAab, GridVector};

verus! {

/// Index of a block in a space's palette.
pub type BlockIndex = u16;

/// Light value sampled at a cube.  Lighting is not stored by this core;
/// the sample is a constant full brightness.
#[derive(Clone, Copy, Debug, PartialEq, Eq, Structural)]
pub struct PackedLight {
    pub value: u8,
}

/// Change notifications delivered by a space to its listeners.
#[derive(Clone, Copy, Debug, PartialEq, Eq, Structural)]
pub enum SpaceChange {
    /// Everything changed: all caches must be rebuilt.
    EveryBlock,
    /// The block at the given cube was replaced.
    Block(GridVector),
    /// Lighting at the given cube changed.
    Lighting(GridVector),
    /// The palette entry with the given index changed its definition.
    Number(BlockIndex),
    /// The palette entry with the given index was replaced.
    BlockValue(BlockIndex),
}

/// A palette entry: a block and its evaluation.
#[derive(Debug)]
pub struct SpaceBlockData {
    pub block: Block,
    pub evaluated: EvaluatedBlock,
}

impl SpaceBlockData {
    pub fn evaluated(&self) -> (r: &EvaluatedBlock)
        ensures
            *r == self.evaluated,
    {
        &self.evaluated
    }

    pub fn block(&self) -> (r: &Block)
        ensures
            *r == self.block,
    {
        &self.block
    }
}

/// A bounded grid of blocks.
#[derive(Debug)]
pub struct Space {
    pub bounds: GridAab,
    /// Per-cube palette indices.
    pub contents: GridArray<BlockIndex>,
    /// Block data; index 0 is always air.
    pub palette: Vec<SpaceBlockData>,
}

impl Space {
    pub open spec fn wf(self) -> bool {
        &&& self.bounds.wf()
        &&& self.contents.wf()
        &&& self.contents.bounds == self.bounds
        &&& self.palette@.len() >= 1
        &&& self.palette@.len() <= 0xFFFF
        &&& forall|c: GridVector|
            self.bounds.contains_cube(c) ==> (#[trigger] self.contents.at(c)) < self.palette@.len()
        &&& forall|i: int|
            0 <= i < self.palette@.len() ==> ev_wf((#[trigger] self.palette@[i]).evaluated)
    }

    /// An empty space over the given bounds.
    pub fn empty(bounds: GridAab) -> (r: Space)
        requires
            bounds.wf(),
        ensures
            r.wf(),
            r.bounds == bounds,
            r.palette@.len() == 1,
    {
        let air = Block::air();
        let air_ev = EvaluatedBlock::from_color(
            crate::block::BlockAttributes {
                collision: crate::block::BlockCollision::NoCollision,
                tick_action: None,
                light_emission: crate::color::Rgb::zero(),
            },
            crate::color::Rgba { r: 0, g: 0, b: 0, a: 0 },
        );
        let mut palette: Vec<SpaceBlockData> = Vec::new();
        palette.push(SpaceBlockData { block: air, evaluated: air_ev });
        Space { bounds, contents: GridArray::repeat(bounds, 0), palette }
    }

    /// An empty space from the origin to the given positive corner.
    pub fn empty_positive(x: i32, y: i32, z: i32) -> (r: Space)
        requires
            0 <= x <= 1024,
            0 <= y <= 1024,
            0 <= z <= 1024,
        ensures
            r.wf(),
            r.bounds.lower == (GridVector { x: 0, y: 0, z: 0 }),
            r.bounds.size == (GridVector { x, y, z }),
    {
        proof {
            assert((x as int) * (y as int) * (z as int) <= usize::MAX) by (nonlinear_arith)
                requires
                    0 <= x <= 1024,
                    0 <= y <= 1024,
                    0 <= z <= 1024,
            ;
        }
        Space::empty(GridAab::from_lower_size([0, 0, 0], [x, y, z]))
    }

    pub fn grid(&self) -> (r: GridAab)
        ensures
            r == self.bounds,
    {
        self.bounds
    }

    pub fn block_data(&self) -> (r: &Vec<SpaceBlockData>)
        ensures
            *r == self.palette,
    {
        &self.palette
    }

    /// The palette index of the block at `cube`, or `None` outside bounds.
    pub fn get_block_index(&self, cube: GridVector) -> (r: Option<BlockIndex>)
        requires
            self.wf(),
        ensures
            match r {
                Some(i) => self.bounds.contains_cube(cube) && i == self.contents.at(cube) && (
                i as int) < self.palette@.len(),
                None => !self.bounds.contains_cube(cube),
            },
    {
        if self.bounds.contains(cube) {
            Some(*self.contents.get(cube))
        } else {
            None
        }
    }

    /// The block at `cube`, which must be within bounds.
    pub fn block_at(&self, cube: GridVector) -> (r: &Block)
        requires
            self.wf(),
            self.bounds.contains_cube(cube),
        ensures
            *r == self.palette@[self.contents.at(cube) as int].block,
    {
        let i = *self.contents.get(cube);
        &self.palette[i as usize].block
    }

    /// The evaluation of the block at `cube`.
    pub fn get_evaluated(&self, cube: GridVector) -> (r: &EvaluatedBlock)
        requires
            self.wf(),
            self.bounds.contains_cube(cube),
        ensures
            *r == self.palette@[self.contents.at(cube) as int].evaluated,
            ev_wf(*r),
    {
        let i = *self.contents.get(cube);
        &self.palette[i as usize].evaluated
    }

    /// Sampled light at a cube: constant full brightness.
    pub fn get_lighting(&self, _cube: GridVector) -> (r: PackedLight)
        ensures
            r.value == 255,
    {
        PackedLight { value: 255 }
    }

    /// Place `block` (with the given evaluation) at `cube`.
    pub fn set_evaluated(
        &mut self,
        cube: GridVector,
        block: Block,
        evaluated: EvaluatedBlock,
    ) -> (r: Result<bool, SetCubeError>)
        requires
            old(self).wf(),
            ev_wf(evaluated),
        ensures
            final(self).wf(),
            final(self).bounds == old(self).bounds,
            match r {
                Ok(_) => {
                    &&& old(self).bounds.contains_cube(cube)
                    &&& final(self).palette@.len() == old(self).palette@.len() + 1
                    &&& final(self).palette@[old(self).palette@.len() as int].block == block
                    &&& final(self).palette@[old(self).palette@.len() as int].evaluated
                        == evaluated
                    &&& final(self).contents.at(cube) == old(self).palette@.len()
                    &&& forall|c: GridVector|
                        old(self).bounds.contains_cube(c) && c != cube ==> final(self).contents.at(c) == old(self).contents.at(c)
                    &&& forall|i: int|
                        0 <= i < old(self).palette@.len() ==> final(self).palette@[i] == old(self).palette@[i]
                },
                Err(SetCubeError::OutOfBounds) => !old(self).bounds.contains_cube(cube) && *final(self) == *old(self),
                Err(SetCubeError::PaletteFull) => old(self).palette@.len() >= 0xFFFF && *final(self) == *old(self),
                Err(_) => false,
            },
            !old(self).bounds.contains_cube(cube) <==> r == Err::<bool, SetCubeError>(
                SetCubeError::OutOfBounds,
            ),
    {
        if !self.bounds.contains(cube) {
            return Err(SetCubeError::OutOfBounds);
        }
        if self.palette.len() >= 0xFFFF {
            return Err(SetCubeError::PaletteFull);
        }
        let idx = self.palette.len() as u16;
        self.palette.push(SpaceBlockData { block, evaluated });
        self.contents.set(cube, idx);
        Ok(true)
    }

    /// Evaluate `block` against `universe` and place it at `cube`.
    pub fn set(
        &mut self,
        cube: GridVector,
        block: &Block,
        universe: &Universe,
    ) -> (r: Result<bool, SetCubeError>)
        requires
            old(self).wf(),
            universe.wf(),
        ensures
            final(self).wf(),
            final(self).bounds == old(self).bounds,
            !old(self).bounds.contains_cube(cube) ==> r == Err::<bool, SetCubeError>(
                SetCubeError::OutOfBounds,
            ) && *final(self) == *old(self),
            r matches Ok(_) ==> old(self).bounds.contains_cube(cube) && final(self).contents.at(cube) == old(self).palette@.len() && like_block(
                *block,
                final(self).palette@[old(self).palette@.len() as int].block,
            ) && (forall|c: GridVector|
                old(self).bounds.contains_cube(c) && c != cube ==> final(self).contents.at(c)
                    == old(self).contents.at(c)) && (forall|i: int|
                0 <= i < old(self).palette@.len() ==> final(self).palette@[i] == old(self).palette@[i]) && final(self).palette@.len() == old(self).palette@.len() + 1,
    {
        if !self.bounds.contains(cube) {
            return Err(SetCubeError::OutOfBounds);
        }
        let b = clone_block(block);
        let ev = match b.evaluate(universe) {
            Ok(ev) => ev,
            Err(e) => {
                return Err(SetCubeError::Eval(e));
            },
        };
        self.set_evaluated(cube, b, ev)
    }
}

/// Why a cube could not be set.
#[derive(Clone, Copy, Debug, PartialEq, Eq, Structural)]
pub enum SetCubeError {
    /// The cube is outside the space's bounds.
    OutOfBounds,
    /// The space cannot hold more distinct block placements.
    PaletteFull,
    /// The block could not be evaluated.
    Eval(EvalBlockError),
}

/// One step of simulated time.
#[derive(Clone, Copy, Debug, PartialEq, Eq, Structural)]
pub struct Tick {
    pub number: u64,
}

impl Tick {
    /// An arbitrary tick, for tests and simple callers.
    pub fn arbitrary() -> (r: Tick)
        ensures
            r.number == 0,
    {
        Tick { number: 0 }
    }
}

/// An arena of spaces addressed by index.
#[derive(Debug)]
pub struct Universe {
    pub spaces: Vec<Space>,
}

impl Universe {
    pub open spec fn wf(self) -> bool {
        forall|i: int| 0 <= i < self.spaces@.len() ==> (#[trigger] self.spaces@[i]).wf()
    }

    pub fn new() -> (r: Universe)
        ensures
            r.wf(),
            r.spaces@.len() == 0,
    {
        Universe { spaces: Vec::new() }
    }

    /// Add a space, returning its index.
    pub fn insert_anonymous(&mut self, space: Space) -> (r: usize)
        requires
            old(self).wf(),
            space.wf(),
        ensures
            final(self).wf(),
            r == old(self).spaces@.len(),
            final(self).spaces@ == old(self).spaces@.push(space),
    {
        let r = self.spaces.len();
        self.spaces.push(space);
        r
    }

    pub fn get_space(&self, id: usize) -> (r: Option<&Space>)
        requires
            self.wf(),
        ensures
            match r {
                Some(s) => id < self.spaces@.len() && *s == self.spaces@[id as int] && s.wf(),
                None => id >= self.spaces@.len(),
            },
    {
        if id < self.spaces.len() {
            Some(&self.spaces[id])
        } else {
            None
        }
    }

    /// Advance time: apply every block's tick action once.
    ///
    /// All actions are computed against the state at the start of the
    /// tick, then applied.
    #[verifier::loop_isolation(false)]
    pub fn step(&mut self, _tick: Tick)
        requires
            old(self).wf(),
        ensures
            final(self).wf(),
            final(self).spaces@.len() == old(self).spaces@.len(),
    {
        // Phase 1: collect replacements.
        let mut work: Vec<(usize, GridVector, Block, EvaluatedBlock)> = Vec::new();
        let ns = self.spaces.len();
        let mut si: usize = 0;
        while si < ns
            invariant
                0 <= si <= ns,
                ns == self.spaces@.len(),
                forall|k: int|
                    0 <= k < work@.len() ==> (#[trigger] work@[k]).0 < ns && ev_wf(work@[k].3),
            decreases ns - si,
        {
            let bounds = self.spaces[si].grid();
            let lower = bounds.lower_bounds();
            let upper = bounds.upper_bounds();
            let mut x = lower.x;
            while x < upper.x
                invariant
                    lower.x <= x <= upper.x,
                    forall|k: int|
                        0 <= k < work@.len() ==> (#[trigger] work@[k]).0 < ns && ev_wf(work@[k].3),
                decreases upper.x - x,
            {
                let mut y = lower.y;
                while y < upper.y
                    invariant
                        lower.x <= x < upper.x,
                        lower.y <= y <= upper.y,
                        forall|k: int|
                            0 <= k < work@.len() ==> (#[trigger] work@[k]).0 < ns && ev_wf(
                                work@[k].3,
                            ),
                    decreases upper.y - y,
                {
                    let mut z = lower.z;
                    while z < upper.z
                        invariant
                            lower.x <= x < upper.x,
                            lower.y <= y < upper.y,
                            lower.z <= z <= upper.z,
                            forall|k: int|
                                0 <= k < work@.len() ==> (#[trigger] work@[k]).0 < ns && ev_wf(
                                    work@[k].3,
                                ),
                        decreases upper.z - z,
                    {
                        let cube = GridVector { x, y, z };
                        proof {
                            assert(bounds.contains_cube(cube));
                        }
                        let has_action = {
                            let ev = self.spaces[si].get_evaluated(cube);
                            ev.attributes.tick_action.is_some()
                        };
                        if has_action {
                            let mut bi: usize = 0;
                            let nb = match &self.spaces[si].get_evaluated(cube).attributes.tick_action {
                                Some(brush) => brush.blocks.len(),
                                None => 0,
                            };
                            while bi < nb
                                invariant
                                    0 <= bi <= nb,
                                    forall|k: int|
                                        0 <= k < work@.len() ==> (#[trigger] work@[k]).0 < ns
                                            && ev_wf(work@[k].3),
                                decreases nb - bi,
                            {
                                let entry_block = match &self.spaces[
                                    si
                                ].get_evaluated(cube).attributes.tick_action {
                                    Some(brush) => {
                                        if bi < brush.blocks.len() {
                                            let e = &brush.blocks[bi];
                                            Some((e.0, clone_block(&e.1)))
                                        } else {
                                            None
                                        }
                                    },
                                    None => None,
                                };
                                match entry_block {
                                    Some((offset, b)) => {
                                        if offset.x == 0 && offset.y == 0 && offset.z == 0 {
                                            match b.evaluate(self) {
                                                Ok(ev) => {
                                                    work.push((si, cube, b, ev));
                                                },
                                                Err(_) => {},
                                            }
                                        }
                                    },
                                    None => {},
                                }
                                bi = bi + 1;
                            }
                        }
                        z = z + 1;
                    }
                    y = y + 1;
                }
                x = x + 1;
            }
            si = si + 1;
        }
        // Phase 2: apply them.
        while work.len() > 0
            invariant
                self.spaces@.len() == ns,
                self.wf(),
                forall|k: int|
                    0 <= k < work@.len() ==> (#[trigger] work@[k]).0 < ns && ev_wf(work@[k].3),
            decreases work@.len(),
        {
            match work.pop() {
                Some((si2, cube, block, ev)) => {
                    let sp = &mut self.spaces[si2];
                    let _ = sp.set_evaluated(cube, block, ev);
                },
                None => {},
            }
        }
    }
}


impl Block {
    /// Evaluate this block against the universe: resolve its primitive to
    /// concrete voxel data, then apply its modifiers in order.
    ///
    /// The only failure is a `Recur` primitive naming a space the
    /// universe does not have.
    #[verifier::loop_isolation(false)]
    pub fn evaluate(&self, universe: &Universe) -> (r: Result<EvaluatedBlock, EvalBlockError>)
        requires
            universe.wf(),
        ensures
            r matches Ok(ev) ==> ev_wf(ev),
            r is Err <==> (self.primitive matches Primitive::Recur { space, .. } && space
                >= universe.spaces@.len()),
    {
        let mut ev: EvaluatedBlock = match &self.primitive {
            Primitive::Atom(attrs, color) => {
                let col = if color.r <= 256 && color.g <= 256 && color.b <= 256 && color.a <= 256 {
                    *color
                } else {
                    // Out-of-range channels are clamped to full intensity.
                    crate::color::Rgba { r: 256, g: 256, b: 256, a: 256 }
                };
                EvaluatedBlock::from_color(clone_attributes(attrs), col)
            },
            Primitive::Recur { space, offset, resolution } => {
                let sp = match universe.get_space(*space) {
                    Some(s) => s,
                    None => {
                        return Err(EvalBlockError::MissingSpace);
                    },
                };
                let res = *resolution;
                if res == 0 {
                    EvaluatedBlock::from_color(
                        BlockAttributes::default(),
                        crate::color::Rgba { r: 0, g: 0, b: 0, a: 0 },
                    )
                } else {
                    let bounds = GridAab::for_block(res);
                    let mut voxels: GridArray<Evoxel> = GridArray::repeat(bounds, Evoxel::air());
                    let size = res as i32;
                    let mut x: i32 = 0;
                    while x < size
                        invariant
                            0 <= x <= size,
                            voxels.wf(),
                            voxels.bounds == bounds,
                            forall|c: GridVector|
                                bounds.contains_cube(c) ==> (#[trigger] voxels.at(c)).color.wf(),
                        decreases size - x,
                    {
                        let mut y: i32 = 0;
                        while y < size
                            invariant
                                0 <= x < size,
                                0 <= y <= size,
                                voxels.wf(),
                                voxels.bounds == bounds,
                                forall|c: GridVector|
                                    bounds.contains_cube(c) ==> (#[trigger] voxels.at(
                                        c,
                                    )).color.wf(),
                            decreases size - y,
                        {
                            let mut z: i32 = 0;
                            while z < size
                                invariant
                                    0 <= x < size,
                                    0 <= y < size,
                                    0 <= z <= size,
                                    voxels.wf(),
                                    voxels.bounds == bounds,
                                    forall|c: GridVector|
                                        bounds.contains_cube(c) ==> (#[trigger] voxels.at(
                                            c,
                                        )).color.wf(),
                                decreases size - z,
                            {
                                let c = GridVector { x, y, z };
                                let sx = offset.x as i64 + x as i64;
                                let sy = offset.y as i64 + y as i64;
                                let sz = offset.z as i64 + z as i64;
                                if sx >= i32::MIN as i64 && sx <= i32::MAX as i64 && sy
                                    >= i32::MIN as i64 && sy <= i32::MAX as i64 && sz
                                    >= i32::MIN as i64 && sz <= i32::MAX as i64 {
                                    let sc = GridVector {
                                        x: sx as i32,
                                        y: sy as i32,
                                        z: sz as i32,
                                    };
                                    if sp.grid().contains(sc) {
                                        let vox = Evoxel::from_block(sp.get_evaluated(sc));
                                        proof {
                                            assert(ev_wf(
                                                sp.palette@[sp.contents.at(sc) as int].evaluated,
                                            ));
                                        }
                                        voxels.set(c, vox);
                                    }
                                }
                                z = z + 1;
                            }
                            y = y + 1;
                        }
                        x = x + 1;
                    }
                    EvaluatedBlock::from_voxels(BlockAttributes::default(), res, voxels)
                }
            },
        };
        let n = self.modifiers.len();
        let mut i: usize = 0;
        while i < n
            invariant
                0 <= i <= n,
                n == self.modifiers@.len(),
                ev_wf(ev),
            decreases n - i,
        {
            let m = self.modifiers[i];
            let next = match m {
                Modifier::Quote { ambient } => {
                    match (Modifier::Quote { ambient }).apply(ev) {
                        Ok(e) => e,
                        Err(e) => {
                            proof {
                                assert(false);
                            }
                            return Err(e);
                        },
                    }
                },
                Modifier::Rotate(rot) => {
                    match (Modifier::Rotate(rot)).apply(ev) {
                        Ok(e) => e,
                        Err(e) => {
                            proof {
                                assert(false);
                            }
                            return Err(e);
                        },
                    }
                },
                Modifier::Move(mv) => {
                    if !matches!(mv.direction, crate::math::Face::Within) && mv.velocity
                        != i16::MIN {
                        match mv.evaluate(self, i, ev) {
                            Ok(e) => e,
                            Err(e) => {
                                proof {
                                    assert(false);
                                }
                                return Err(e);
                            },
                        }
                    } else {
                        // A degenerate move (no direction, or unrepresentable
                        // velocity) displaces nothing.
                        ev
                    }
                },
            };
            ev = next;
            i = i + 1;
        }
        Ok(ev)
    }
}

} // verus!
