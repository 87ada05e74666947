//! Blocks, their modifiers, and evaluation to concrete voxel data.
//!
//! A block is a primitive (a solid-colored atom, or a recursion into a
//! voxel space held by a [`crate::space::Universe`]) plus a stack of
//! modifiers.  Evaluating a block yields an [`EvaluatedBlock`]: the data a
//! renderer needs, with no references back into the universe.

use vstd::prelude::*;

use crate::color::{Rgb, Rgba};
use crate::grid_array::GridArray;
use crate::math::{Face, GridAab, GridVector};
use crate::rotation::GridRotation;

verus! {

/// Block resolutions are edge lengths of the voxel cube, at most 255.
pub type Resolution = u8;

/// How a block's volume interacts with collision testing.
#[derive(Clone, Copy, Debug, PartialEq, Eq, Hash, Structural)]
pub enum BlockCollision {
    /// No collision at all.
    NoCollision,
    /// The whole cube is solid.
    Hard,
    /// Collision is tested against the individual voxels.
    Recur,
}

/// A set of blocks to place relative to a cube, used for tick actions.
#[derive(Debug)]
pub struct VoxelBrush {
    /// Blocks to paint, each at an offset from the affected cube.
    pub blocks: Vec<(GridVector, Block)>,
}

/// Miscellaneous properties of a block that are not its shape.
#[derive(Debug)]
pub struct BlockAttributes {
    pub collision: BlockCollision,
    /// What to place here on the next tick, if anything.
    pub tick_action: Option<VoxelBrush>,
    pub light_emission: Rgb,
}

/// The concrete shape a block is made from.
#[derive(Debug)]
pub enum Primitive {
    /// A block of a single uniform color.
    Atom(BlockAttributes, Rgba),
    /// A block whose voxels are read from a region of a space in the
    /// universe, identified by index.
    Recur {
        space: usize,
        offset: GridVector,
        resolution: Resolution,
    },
}

/// A voxel-world block: a primitive plus modifiers, outermost last.
#[derive(Debug)]
pub struct Block {
    pub primitive: Primitive,
    pub modifiers: Vec<Modifier>,
}

/// Modifiers change the result of evaluating a block.
#[derive(Clone, Copy, Debug, PartialEq, Eq, Structural)]
pub enum Modifier {
    /// Suppresses all behaviors of the block that might affect the space
    /// around it; with `ambient` also light emission.
    Quote {
        ambient: bool,
    },
    /// Rotate the block about its cube center.
    Rotate(GridRotation),
    /// Displace the block out of its cube, cropping it.
    Move(Move),
}

/// Data for [`Modifier::Move`]; a pair of `Move`s can depict a block
/// moving between two cubes.
#[derive(Clone, Copy, Debug, PartialEq, Eq, Hash, Structural)]
pub struct Move {
    /// The direction in which the block is displaced.
    pub direction: Face,
    /// The distance, in 256ths of a cube edge, by which it is displaced.
    pub distance: u16,
    /// The change of `distance` per tick.
    pub velocity: i16,
}

/// One voxel of an evaluated block.
#[derive(Clone, Copy, Debug, PartialEq, Eq, Hash, Structural)]
pub struct Evoxel {
    pub color: Rgba,
    pub collision: BlockCollision,
}

/// Visibility class of a voxel.
#[derive(Clone, Copy, Debug, PartialEq, Eq, Hash, Structural)]
pub enum OpacityCategory {
    Invisible,
    Partial,
    Opaque,
}

/// The result of evaluating a block: everything a renderer needs.
#[derive(Debug)]
pub struct EvaluatedBlock {
    pub attributes: BlockAttributes,
    /// Overall volume-averaged color.
    pub color: Rgba,
    /// The individual voxels, if the block has voxel detail.
    pub voxels: Option<GridArray<Evoxel>>,
    pub resolution: Resolution,
    /// Whether every face of the cube is completely opaque.
    pub opaque: bool,
    /// Whether anything of the block is visible at all.
    pub visible: bool,
    /// Per-voxel opacity classes, for cheap content comparison.
    pub voxel_opacity_mask: Option<GridArray<OpacityCategory>>,
}

/// Why evaluating a block failed.
#[derive(Clone, Copy, Debug, PartialEq, Eq, Hash, Structural)]
pub enum EvalBlockError {
    /// A `Recur` primitive named a space the universe does not have.
    MissingSpace,
}

impl BlockAttributes {
    /// Attributes of a plain block: hard collision, no action, no light.
    pub fn default() -> (r: BlockAttributes)
        ensures
            r.collision == BlockCollision::Hard,
            r.tick_action is None,
            r.light_emission == (Rgb { r: 0u16, g: 0u16, b: 0u16 }),
    {
        BlockAttributes {
            collision: BlockCollision::Hard,
            tick_action: None,
            light_emission: Rgb::zero(),
        }
    }
}

impl VoxelBrush {
    /// A brush placing one block at the affected cube itself.
    pub fn single(block: Block) -> (r: VoxelBrush)
        ensures
            r.blocks@.len() == 1,
            r.blocks@[0].0 == (GridVector { x: 0, y: 0, z: 0 }),
            r.blocks@[0].1 == block,
    {
        let mut blocks: Vec<(GridVector, Block)> = Vec::new();
        blocks.push((GridVector::new(0, 0, 0), block));
        VoxelBrush { blocks }
    }
}

impl Evoxel {
    /// The voxel a whole evaluated block collapses to.
    pub fn from_block(ev: &EvaluatedBlock) -> (r: Evoxel)
        ensures
            r.color == ev.color,
            r.collision == ev.attributes.collision,
    {
        Evoxel { color: ev.color, collision: ev.attributes.collision }
    }

    pub fn new(color: Rgba) -> (r: Evoxel)
        ensures
            r.color == color,
            r.collision == BlockCollision::Hard,
    {
        Evoxel { color, collision: BlockCollision::Hard }
    }

    /// Air: invisible and intangible.
    pub fn air() -> (r: Evoxel)
        ensures
            r.color == (Rgba { r: 0u16, g: 0u16, b: 0u16, a: 0u16 }),
            r.collision == BlockCollision::NoCollision,
    {
        Evoxel {
            color: Rgba { r: 0, g: 0, b: 0, a: 0 },
            collision: BlockCollision::NoCollision,
        }
    }

    pub fn opacity_category(&self) -> (r: OpacityCategory)
        ensures
            r == (if self.color.spec_fully_transparent() {
                OpacityCategory::Invisible
            } else if self.color.spec_fully_opaque() {
                OpacityCategory::Opaque
            } else {
                OpacityCategory::Partial
            }),
    {
        if self.color.fully_transparent() {
            OpacityCategory::Invisible
        } else if self.color.fully_opaque() {
            OpacityCategory::Opaque
        } else {
            OpacityCategory::Partial
        }
    }
}

impl Block {
    /// A block that is a single solid color with default attributes.
    pub fn from_color(color: Rgba) -> (r: Block)
        ensures
            r.modifiers@.len() == 0,
            r.primitive matches Primitive::Atom(a, c) && c == color && a.collision
                == BlockCollision::Hard && a.tick_action is None,
    {
        Block {
            primitive: Primitive::Atom(BlockAttributes::default(), color),
            modifiers: Vec::new(),
        }
    }

    /// The empty block.
    pub fn air() -> (r: Block)
        ensures
            r.modifiers@.len() == 0,
            r.primitive matches Primitive::Atom(a, c) && c == (Rgba {
                r: 0u16,
                g: 0u16,
                b: 0u16,
                a: 0u16,
            }) && a.collision == BlockCollision::NoCollision && a.tick_action is None,
    {
        Block {
            primitive: Primitive::Atom(
                BlockAttributes {
                    collision: BlockCollision::NoCollision,
                    tick_action: None,
                    light_emission: Rgb::zero(),
                },
                Rgba { r: 0, g: 0, b: 0, a: 0 },
            ),
            modifiers: Vec::new(),
        }
    }

    /// A block reading its voxels from a space of the universe.
    pub fn recur(space: usize, offset: GridVector, resolution: Resolution) -> (r: Block)
        ensures
            r.modifiers@.len() == 0,
            r.primitive == (Primitive::Recur { space, offset, resolution }),
    {
        Block { primitive: Primitive::Recur { space, offset, resolution }, modifiers: Vec::new() }
    }
}

impl Modifier {
    /// Return the given block with `self` added as the outermost modifier.
    pub fn attach(self, block: Block) -> (r: Block)
        ensures
            r.primitive == block.primitive,
            r.modifiers@ == block.modifiers@.push(self),
    {
        let mut block = block;
        block.modifiers.push(self);
        block
    }

    /// Apply a `Quote` or `Rotate` modifier to an evaluated block.
    /// (`Move` takes more context and has its own entry point.)
    pub fn apply(&self, value: EvaluatedBlock) -> (r: Result<EvaluatedBlock, EvalBlockError>)
        requires
            !(self matches Modifier::Move(_)),
            value.resolution >= 1,
            value.voxels matches Some(v) ==> v.wf() && spec_voxels_in_cube(
                v.bounds,
                value.resolution as int,
            ),
            value.voxel_opacity_mask matches Some(m) ==> m.wf() && spec_voxels_in_cube(
                m.bounds,
                value.resolution as int,
            ),
        ensures
            r matches Ok(ev) && ev.resolution == value.resolution && (ev.voxels matches Some(v)
                ==> v.wf() && spec_voxels_in_cube(v.bounds, ev.resolution as int)) && (
            ev.voxel_opacity_mask matches Some(m) ==> m.wf() && spec_voxels_in_cube(
                m.bounds,
                ev.resolution as int,
            )),
            (value.voxels matches Some(v) && (forall|c: GridVector|
                v.bounds.contains_cube(c) ==> (#[trigger] v.at(c)).color.wf())) ==> (r matches Ok(
                ev,
            ) && (ev.voxels matches Some(v2) ==> forall|c: GridVector|
                v2.bounds.contains_cube(c) ==> (#[trigger] v2.at(c)).color.wf())),
            value.voxels is None ==> (r matches Ok(ev) && ev.voxels is None),
            match *self {
                Modifier::Quote { ambient } => r matches Ok(ev) && ev.attributes.tick_action
                    is None && ev.attributes.collision == value.attributes.collision && ev.color
                    == value.color && ev.voxels == value.voxels && ev.resolution
                    == value.resolution && ev.opaque == value.opaque && ev.visible == value.visible
                    && ev.voxel_opacity_mask == value.voxel_opacity_mask && (!ambient
                    ==> ev.attributes.light_emission == value.attributes.light_emission) && (
                ambient ==> ev.attributes.light_emission == (Rgb { r: 0u16, g: 0u16, b: 0u16 })),
                Modifier::Rotate(_) => r matches Ok(ev) && ev.attributes == value.attributes
                    && ev.color == value.color && ev.resolution == value.resolution && ev.opaque
                    == value.opaque && ev.visible == value.visible,
                Modifier::Move(_) => true,
            },
    {
        match self {
            Modifier::Quote { ambient } => {
                let mut value = value;
                value.attributes.tick_action = None;
                if *ambient {
                    value.attributes.light_emission = Rgb::zero();
                }
                Ok(value)
            },
            Modifier::Rotate(rotation) => {
                if value.voxels.is_none() && value.voxel_opacity_mask.is_none() {
                    // No voxel detail: rotation changes nothing visible.
                    Ok(value)
                } else {
                    let EvaluatedBlock {
                        attributes,
                        color,
                        voxels,
                        resolution,
                        opaque,
                        visible,
                        voxel_opacity_mask,
                    } = value;
                    let size = resolution as i32;
                    let inner_to_outer = rotation.to_positive_octant_matrix(size - 1);
                    let voxels = match voxels {
                        Some(v) => {
                            if v.grid().volume() > 0 {
                                Some(rotate_voxels(&v, &inner_to_outer, resolution))
                            } else {
                                Some(v)
                            }
                        },
                        None => None,
                    };
                    let voxel_opacity_mask = match voxel_opacity_mask {
                        Some(m) => {
                            if m.grid().volume() > 0 {
                                Some(rotate_voxels(&m, &inner_to_outer, resolution))
                            } else {
                                Some(m)
                            }
                        },
                        None => None,
                    };
                    Ok(
                        EvaluatedBlock {
                            voxels,
                            voxel_opacity_mask,
                            attributes,
                            color,
                            resolution,
                            opaque,
                            visible,
                        },
                    )
                }
            },
            Modifier::Move(_) => {
                proof {
                    assert(false);
                }
                Ok(value)
            },
        }
    }
}

/// Voxel bounds that lie within the block's cube `[0, resolution)^3`.
pub open spec fn spec_voxels_in_cube(bounds: GridAab, resolution: int) -> bool {
    &&& 0 <= bounds.lower.x && bounds.lower.x + bounds.size.x <= resolution
    &&& 0 <= bounds.lower.y && bounds.lower.y + bounds.size.y <= resolution
    &&& 0 <= bounds.lower.z && bounds.lower.z + bounds.size.z <= resolution
}

/// Rotate the contents of a voxel array about the block cube's center:
/// every source cube's value is placed at its image, and the result's
/// bounds are the image of the source bounds, clipped to the cube.
#[verifier::loop_isolation(false)]
fn rotate_voxels<T: Copy>(
    array: &GridArray<T>,
    inner_to_outer: &crate::math::GridMatrix,
    resolution: Resolution,
) -> (r: GridArray<T>)
    requires
        array.wf(),
        spec_voxels_in_cube(array.bounds, resolution as int),
        array.bounds.spec_volume() > 0,
        resolution >= 1,
        inner_to_outer.small(),
    ensures
        r.wf(),
        spec_voxels_in_cube(r.bounds, resolution as int),
        forall|c: GridVector|
            r.bounds.contains_cube(c) ==> exists|c2: GridVector|
                array.bounds.contains_cube(c2) && #[trigger] r.at(c) == array.at(c2),
{
    let size = resolution as i32;
    proof {
        assert((size as int) * (size as int) * (size as int) <= usize::MAX) by (nonlinear_arith)
            requires
                1 <= size <= 255,
        ;
        assert(array.bounds.size.x >= 1 && array.bounds.size.y >= 1 && array.bounds.size.z >= 1)
            by (nonlinear_arith)
            requires
                array.bounds.size.x >= 0,
                array.bounds.size.y >= 0,
                array.bounds.size.z >= 0,
                array.bounds.size.x * array.bounds.size.y * array.bounds.size.z > 0,
        ;
    }
    let cube = GridAab::from_lower_size([0, 0, 0], [size, size, size]);
    let lower = array.bounds.lower_bounds();
    let upper = array.bounds.upper_bounds();
    // First pass: find the image bounds.
    proof {
        lemma_transform_cube_bounded(*inner_to_outer, array.bounds.lower);
    }
    let mut lo = inner_to_outer.transform_cube(lower);
    let mut hi = lo;
    let mut x = lower.x;
    while x < upper.x
        invariant
            lower.x <= x <= upper.x,
            -0x40001 <= lo.x <= hi.x <= 0x40001,
            -0x40001 <= lo.y <= hi.y <= 0x40001,
            -0x40001 <= lo.z <= hi.z <= 0x40001,
        decreases upper.x - x,
    {
        let mut y = lower.y;
        while y < upper.y
            invariant
                lower.y <= y <= upper.y,
                lower.x <= x < upper.x,
                -0x40001 <= lo.x <= hi.x <= 0x40001,
                -0x40001 <= lo.y <= hi.y <= 0x40001,
                -0x40001 <= lo.z <= hi.z <= 0x40001,
            decreases upper.y - y,
        {
            let mut z = lower.z;
            while z < upper.z
                invariant
                    lower.z <= z <= upper.z,
                    lower.y <= y < upper.y,
                    lower.x <= x < upper.x,
                    -0x40001 <= lo.x <= hi.x <= 0x40001,
                    -0x40001 <= lo.y <= hi.y <= 0x40001,
                    -0x40001 <= lo.z <= hi.z <= 0x40001,
                decreases upper.z - z,
            {
                let oc = inner_to_outer.transform_cube(GridVector { x, y, z });
                proof {
                    lemma_transform_cube_bounded(*inner_to_outer, GridVector { x, y, z });
                }
                if oc.x < lo.x {
                    lo.x = oc.x;
                }
                if oc.y < lo.y {
                    lo.y = oc.y;
                }
                if oc.z < lo.z {
                    lo.z = oc.z;
                }
                if oc.x > hi.x {
                    hi.x = oc.x;
                }
                if oc.y > hi.y {
                    hi.y = oc.y;
                }
                if oc.z > hi.z {
                    hi.z = oc.z;
                }
                z = z + 1;
            }
            y = y + 1;
        }
        x = x + 1;
    }
    // Clip the image bounds to the block cube.
    if lo.x < 0 {
        lo.x = 0;
    }
    if lo.y < 0 {
        lo.y = 0;
    }
    if lo.z < 0 {
        lo.z = 0;
    }
    if hi.x > size - 1 {
        hi.x = size - 1;
    }
    if hi.y > size - 1 {
        hi.y = size - 1;
    }
    if hi.z > size - 1 {
        hi.z = size - 1;
    }
    let target = if lo.x <= hi.x && lo.y <= hi.y && lo.z <= hi.z {
        proof {
            assert((hi.x + 1 - lo.x) * (hi.y + 1 - lo.y) * (hi.z + 1 - lo.z) <= usize::MAX)
                by (nonlinear_arith)
                requires
                    0 < hi.x + 1 - lo.x <= 255,
                    0 < hi.y + 1 - lo.y <= 255,
                    0 < hi.z + 1 - lo.z <= 255,
            ;
        }
        GridAab::from_lower_upper([lo.x, lo.y, lo.z], [hi.x + 1, hi.y + 1, hi.z + 1])
    } else {
        cube
    };
    let fill = *array.get(lower);
    let mut out: GridArray<T> = GridArray::repeat(target, fill);
    // Second pass: place every source value at its image.
    let mut x = lower.x;
    while x < upper.x
        invariant
            lower.x <= x <= upper.x,
            out.wf(),
            out.bounds == target,
            forall|c: GridVector|
                out.bounds.contains_cube(c) ==> exists|c2: GridVector|
                    array.bounds.contains_cube(c2) && #[trigger] out.at(c) == array.at(c2),
        decreases upper.x - x,
    {
        let mut y = lower.y;
        while y < upper.y
            invariant
                lower.y <= y <= upper.y,
                lower.x <= x < upper.x,
                out.wf(),
                out.bounds == target,
                forall|c: GridVector|
                    out.bounds.contains_cube(c) ==> exists|c2: GridVector|
                        array.bounds.contains_cube(c2) && #[trigger] out.at(c) == array.at(c2),
            decreases upper.y - y,
        {
            let mut z = lower.z;
            while z < upper.z
                invariant
                    lower.z <= z <= upper.z,
                    lower.y <= y < upper.y,
                    lower.x <= x < upper.x,
                    out.wf(),
                    out.bounds == target,
                    forall|c: GridVector|
                        out.bounds.contains_cube(c) ==> exists|c2: GridVector|
                            array.bounds.contains_cube(c2) && #[trigger] out.at(c) == array.at(c2),
                decreases upper.z - z,
            {
                let c = GridVector { x, y, z };
                let oc = inner_to_outer.transform_cube(c);
                if out.bounds.contains(oc) {
                    out.set(oc, *array.get(c));
                }
                z = z + 1;
            }
            y = y + 1;
        }
        x = x + 1;
    }
    out
}

/// Outputs of `transform_cube` on cube-bounded inputs stay in a small range.
proof fn lemma_transform_cube_bounded(m: crate::math::GridMatrix, p: GridVector)
    requires
        m.small(),
        -0x10000 <= p.x <= 0xFFFF,
        -0x10000 <= p.y <= 0xFFFF,
        -0x10000 <= p.z <= 0xFFFF,
    ensures
        -0x40001 <= m.spec_transform_cube(p).x <= 0x40001,
        -0x40001 <= m.spec_transform_cube(p).y <= 0x40001,
        -0x40001 <= m.spec_transform_cube(p).z <= 0x40001,
{
    assert(-0x40000 <= p.x * m.x.x + p.y * m.y.x + p.z * m.z.x + m.w.x <= 0x40000 && -0x40000
        <= p.x * m.x.y + p.y * m.y.y + p.z * m.z.y + m.w.y <= 0x40000 && -0x40000 <= p.x * m.x.z
        + p.y * m.y.z + p.z * m.z.z + m.w.z <= 0x40000) by (nonlinear_arith)
        requires
            m.small(),
            -0x10000 <= p.x <= 0xFFFF,
            -0x10000 <= p.y <= 0xFFFF,
            -0x10000 <= p.z <= 0xFFFF,
    ;
    let q = GridVector { x: (p.x + 1) as i32, y: (p.y + 1) as i32, z: (p.z + 1) as i32 };
    assert(-0x40001 <= q.x * m.x.x + q.y * m.y.x + q.z * m.z.x + m.w.x <= 0x40001 && -0x40001
        <= q.x * m.x.y + q.y * m.y.y + q.z * m.z.y + m.w.y <= 0x40001 && -0x40001 <= q.x * m.x.z
        + q.y * m.y.z + q.z * m.z.z + m.w.z <= 0x40001) by (nonlinear_arith)
        requires
            m.small(),
            -0xFFFF <= q.x <= 0x10000,
            -0xFFFF <= q.y <= 0x10000,
            -0xFFFF <= q.z <= 0x10000,
    ;
}


/// Deep congruence of brushes, blocks being compared by content.
pub open spec fn like_brush(a: VoxelBrush, b: VoxelBrush) -> bool
    decreases a,
{
    &&& a.blocks@.len() == b.blocks@.len()
    &&& forall|i: int|
        0 <= i < a.blocks@.len() ==> (#[trigger] a.blocks@[i]).0 == b.blocks@[i].0 && like_block(
            a.blocks@[i].1,
            b.blocks@[i].1,
        )
}

pub open spec fn like_attributes(a: BlockAttributes, b: BlockAttributes) -> bool
    decreases a,
{
    &&& a.collision == b.collision
    &&& a.light_emission == b.light_emission
    &&& match (a.tick_action, b.tick_action) {
        (Option::Some(x), Option::Some(y)) => like_brush(x, y),
        (Option::None, Option::None) => true,
        _ => false,
    }
}

pub open spec fn like_primitive(a: Primitive, b: Primitive) -> bool
    decreases a,
{
    match (a, b) {
        (Primitive::Atom(aa, ac), Primitive::Atom(ba, bc)) => like_attributes(aa, ba) && ac == bc,
        (
            Primitive::Recur { space: s1, offset: o1, resolution: r1 },
            Primitive::Recur { space: s2, offset: o2, resolution: r2 },
        ) => s1 == s2 && o1 == o2 && r1 == r2,
        _ => false,
    }
}

/// Deep congruence of blocks: same primitive content and same modifiers.
pub open spec fn like_block(a: Block, b: Block) -> bool
    decreases a,
{
    like_primitive(a.primitive, b.primitive) && a.modifiers@ == b.modifiers@
}

/// Copy a brush, preserving its content.
pub fn clone_brush(src: &VoxelBrush) -> (r: VoxelBrush)
    ensures
        like_brush(*src, r),
    decreases *src,
{
    let mut blocks: Vec<(GridVector, Block)> = Vec::new();
    let n = src.blocks.len();
    let mut i: usize = 0;
    while i < n
        invariant
            0 <= i <= n,
            n == src.blocks@.len(),
            blocks@.len() == i,
            forall|k: int|
                0 <= k < i ==> (#[trigger] blocks@[k]).0 == src.blocks@[k].0 && like_block(
                    src.blocks@[k].1,
                    blocks@[k].1,
                ),
        decreases n - i,
    {
        let entry = &src.blocks[i];
        let b = clone_block(&entry.1);
        blocks.push((entry.0, b));
        i = i + 1;
    }
    VoxelBrush { blocks }
}

/// Copy attributes, preserving their content.
pub fn clone_attributes(src: &BlockAttributes) -> (r: BlockAttributes)
    ensures
        like_attributes(*src, r),
    decreases *src,
{
    let tick_action = match &src.tick_action {
        Some(brush) => Some(clone_brush(brush)),
        None => None,
    };
    BlockAttributes { collision: src.collision, tick_action, light_emission: src.light_emission }
}

/// Copy a block, preserving its content.
pub fn clone_block(src: &Block) -> (r: Block)
    ensures
        like_block(*src, r),
    decreases *src,
{
    let primitive = match &src.primitive {
        Primitive::Atom(attrs, color) => Primitive::Atom(clone_attributes(attrs), *color),
        Primitive::Recur { space, offset, resolution } => Primitive::Recur {
            space: *space,
            offset: *offset,
            resolution: *resolution,
        },
    };
    let mut modifiers: Vec<Modifier> = Vec::new();
    let n = src.modifiers.len();
    let mut i: usize = 0;
    while i < n
        invariant
            0 <= i <= n,
            n == src.modifiers@.len(),
            modifiers@.len() == i,
            forall|k: int| 0 <= k < i ==> #[trigger] modifiers@[k] == src.modifiers@[k],
        decreases n - i,
    {
        let m = src.modifiers[i];
        modifiers.push(m);
        i = i + 1;
    }
    proof {
        assert(modifiers@ =~= src.modifiers@);
    }
    Block { primitive, modifiers }
}

/// Compare two brushes for content equality.
pub fn eq_brush(a: &VoxelBrush, b: &VoxelBrush) -> (r: bool)
    ensures
        r == like_brush(*a, *b),
    decreases *a,
{
    let n = a.blocks.len();
    if n != b.blocks.len() {
        return false;
    }
    let mut i: usize = 0;
    while i < n
        invariant
            0 <= i <= n,
            n == a.blocks@.len(),
            n == b.blocks@.len(),
            forall|k: int|
                0 <= k < i ==> (#[trigger] a.blocks@[k]).0 == b.blocks@[k].0 && like_block(
                    a.blocks@[k].1,
                    b.blocks@[k].1,
                ),
        decreases n - i,
    {
        let ea = &a.blocks[i];
        let eb = &b.blocks[i];
        if !(ea.0.x == eb.0.x && ea.0.y == eb.0.y && ea.0.z == eb.0.z) {
            return false;
        }
        if !eq_block(&ea.1, &eb.1) {
            return false;
        }
        i = i + 1;
    }
    true
}

/// Compare two attribute sets for content equality.
pub fn eq_attributes(a: &BlockAttributes, b: &BlockAttributes) -> (r: bool)
    ensures
        r == like_attributes(*a, *b),
    decreases *a,
{
    let collision_eq = match (a.collision, b.collision) {
        (BlockCollision::NoCollision, BlockCollision::NoCollision) => true,
        (BlockCollision::Hard, BlockCollision::Hard) => true,
        (BlockCollision::Recur, BlockCollision::Recur) => true,
        _ => false,
    };
    if !collision_eq {
        return false;
    }
    if !(a.light_emission.r == b.light_emission.r && a.light_emission.g == b.light_emission.g
        && a.light_emission.b == b.light_emission.b) {
        return false;
    }
    match (&a.tick_action, &b.tick_action) {
        (Some(x), Some(y)) => eq_brush(x, y),
        (None, None) => true,
        _ => false,
    }
}

/// Compare two blocks for content equality.
pub fn eq_block(a: &Block, b: &Block) -> (r: bool)
    ensures
        r == like_block(*a, *b),
    decreases *a,
{
    let prim_eq = match (&a.primitive, &b.primitive) {
        (Primitive::Atom(aa, ac), Primitive::Atom(ba, bc)) => {
            if ac.r == bc.r && ac.g == bc.g && ac.b == bc.b && ac.a == bc.a {
                eq_attributes(aa, ba)
            } else {
                false
            }
        },
        (
            Primitive::Recur { space: s1, offset: o1, resolution: r1 },
            Primitive::Recur { space: s2, offset: o2, resolution: r2 },
        ) => *s1 == *s2 && o1.x == o2.x && o1.y == o2.y && o1.z == o2.z && *r1 == *r2,
        _ => false,
    };
    if !prim_eq {
        return false;
    }
    let n = a.modifiers.len();
    if n != b.modifiers.len() {
        proof {
            assert(a.modifiers@ != b.modifiers@);
        }
        return false;
    }
    let mut i: usize = 0;
    while i < n
        invariant
            0 <= i <= n,
            n == a.modifiers@.len(),
            n == b.modifiers@.len(),
            forall|k: int| 0 <= k < i ==> #[trigger] a.modifiers@[k] == b.modifiers@[k],
        decreases n - i,
    {
        let ma = a.modifiers[i];
        let mb = b.modifiers[i];
        if !(ma == mb) {
            proof {
                assert(a.modifiers@[i as int] != b.modifiers@[i as int]);
            }
            return false;
        }
        i = i + 1;
    }
    proof {
        assert(a.modifiers@ =~= b.modifiers@);
    }
    true
}

/// Whether `c` lies in the block cube `[0, resolution)^3`.
pub open spec fn in_block_cube(c: GridVector, resolution: int) -> bool {
    0 <= c.x < resolution && 0 <= c.y < resolution && 0 <= c.z < resolution
}

impl EvaluatedBlock {
    /// An evaluated block of one uniform color and no voxel detail.
    pub fn from_color(attributes: BlockAttributes, color: Rgba) -> (r: EvaluatedBlock)
        ensures
            r.attributes == attributes,
            r.color == color,
            r.voxels is None,
            r.resolution == 1,
            r.opaque == color.spec_fully_opaque(),
            r.visible == !color.spec_fully_transparent(),
            r.voxel_opacity_mask is None,
    {
        let opaque = color.fully_opaque();
        let visible = !color.fully_transparent();
        EvaluatedBlock {
            attributes,
            color,
            voxels: None,
            resolution: 1,
            opaque,
            visible,
            voxel_opacity_mask: None,
        }
    }

    /// Derive the summary fields of an evaluated block from its voxels:
    /// volume-averaged color, opacity of the whole cube, visibility, and
    /// the per-voxel opacity mask.
    #[verifier::loop_isolation(false)]
    #[verifier::rlimit(60)]
    pub fn from_voxels(
        attributes: BlockAttributes,
        resolution: Resolution,
        voxels: GridArray<Evoxel>,
    ) -> (r: EvaluatedBlock)
        requires
            resolution >= 1,
            voxels.wf(),
            spec_voxels_in_cube(voxels.bounds, resolution as int),
            forall|c: GridVector|
                voxels.bounds.contains_cube(c) ==> (#[trigger] voxels.at(c)).color.wf(),
        ensures
            r.attributes == attributes,
            r.resolution == resolution,
            r.voxels == Some(voxels),
            r.color.wf(),
            r.opaque == (forall|c: GridVector|
                in_block_cube(c, resolution as int) ==> voxels.bounds.contains_cube(c) && (
                #[trigger] voxels.at(c)).color.spec_fully_opaque()),
            r.visible == (exists|c: GridVector|
                voxels.bounds.contains_cube(c) && !(#[trigger] voxels.at(
                    c,
                )).color.spec_fully_transparent()),
            r.voxel_opacity_mask matches Some(m) && m.wf() && m.bounds == voxels.bounds && (forall|
                c: GridVector,
            |
                voxels.bounds.contains_cube(c) ==> #[trigger] m.at(c) == (if voxels.at(
                    c,
                ).color.spec_fully_transparent() {
                    OpacityCategory::Invisible
                } else if voxels.at(c).color.spec_fully_opaque() {
                    OpacityCategory::Opaque
                } else {
                    OpacityCategory::Partial
                })),
    {
        let size = resolution as i32;
        let ghost szi = size as int;
        let mut sum_r: u64 = 0;
        let mut sum_g: u64 = 0;
        let mut sum_b: u64 = 0;
        let mut sum_a: u64 = 0;
        let mut opaque = true;
        let mut visible = false;
        let ghost res = resolution as int;
        proof {
            lemma_cells_bound(szi);
        }
        let mut x: i32 = 0;
        while x < size
            invariant
                0 <= x <= size,
                sum_r <= cells3(x as int, 0, 0, szi) * 0x10000,
                sum_g <= cells3(x as int, 0, 0, szi) * 0x10000,
                sum_b <= cells3(x as int, 0, 0, szi) * 0x10000,
                sum_a <= cells3(x as int, 0, 0, szi) * 0x10000,
                opaque == (forall|c: GridVector|
                    in_block_cube(c, res) && c.x < x ==> voxels.bounds.contains_cube(c) && (
                    #[trigger] voxels.at(c)).color.spec_fully_opaque()),
                visible == (exists|c: GridVector|
                    voxels.bounds.contains_cube(c) && c.x < x && !(#[trigger] voxels.at(
                        c,
                    )).color.spec_fully_transparent()),
            decreases size - x,
        {
            proof {
                lemma_cells_mono(x as int, 0, 0, szi);
            }
            let mut y: i32 = 0;
            while y < size
                invariant
                    0 <= x < size,
                    0 <= y <= size,
                    sum_r <= cells3(x as int, y as int, 0, szi) * 0x10000,
                    sum_g <= cells3(x as int, y as int, 0, szi) * 0x10000,
                    sum_b <= cells3(x as int, y as int, 0, szi) * 0x10000,
                    sum_a <= cells3(x as int, y as int, 0, szi) * 0x10000,
                    opaque == (forall|c: GridVector|
                        in_block_cube(c, res) && (c.x < x || (c.x == x && c.y < y))
                            ==> voxels.bounds.contains_cube(c) && (#[trigger] voxels.at(
                            c,
                        )).color.spec_fully_opaque()),
                    visible == (exists|c: GridVector|
                        voxels.bounds.contains_cube(c) && (c.x < x || (c.x == x && c.y < y)) && !(
                        #[trigger] voxels.at(c)).color.spec_fully_transparent()),
                decreases size - y,
            {
                let mut z: i32 = 0;
                while z < size
                    invariant
                        0 <= x < size,
                        0 <= y < size,
                        0 <= z <= size,
                        sum_r <= cells3(x as int, y as int, z as int, szi) * 0x10000,
                        sum_g <= cells3(x as int, y as int, z as int, szi) * 0x10000,
                        sum_b <= cells3(x as int, y as int, z as int, szi) * 0x10000,
                        sum_a <= cells3(x as int, y as int, z as int, szi) * 0x10000,
                        opaque == (forall|c: GridVector|
                            in_block_cube(c, res) && (c.x < x || (c.x == x && (c.y < y || (c.y == y
                                && c.z < z)))) ==> voxels.bounds.contains_cube(c) && (
                            #[trigger] voxels.at(c)).color.spec_fully_opaque()),
                        visible == (exists|c: GridVector|
                            voxels.bounds.contains_cube(c) && (c.x < x || (c.x == x && (c.y < y || (
                            c.y == y && c.z < z)))) && !(#[trigger] voxels.at(
                                c,
                            )).color.spec_fully_transparent()),
                    decreases size - z,
                {
                    proof {
                        lemma_cells_step(x as int, y as int, z as int, szi);
                    }
                    let c = GridVector { x, y, z };
                    match voxels.get_checked(c) {
                        Some(v) => {
                            let col = v.color;
                            proof {
                                assert(voxels.at(c).color.wf());
                                assert((col.r as int) * (col.a as int) <= 0x10000 && (col.g as int)
                                    * (col.a as int) <= 0x10000 && (col.b as int) * (col.a as int)
                                    <= 0x10000) by (nonlinear_arith)
                                    requires
                                        col.r <= 256,
                                        col.g <= 256,
                                        col.b <= 256,
                                        col.a <= 256,
                                ;
                            }
                            sum_r = sum_r + (col.r as u64) * (col.a as u64);
                            sum_g = sum_g + (col.g as u64) * (col.a as u64);
                            sum_b = sum_b + (col.b as u64) * (col.a as u64);
                            sum_a = sum_a + col.a as u64;
                            if !col.fully_opaque() {
                                opaque = false;
                            }
                            if !col.fully_transparent() {
                                visible = true;
                            }
                        },
                        None => {
                            opaque = false;
                        },
                    }
                    z = z + 1;
                }
                proof {
                    lemma_cells_wrap_z(x as int, y as int, szi);
                }
                y = y + 1;
            }
            proof {
                lemma_cells_wrap_y(x as int, szi);
            }
            x = x + 1;
        }
        proof {
            lemma_cells_mono(size as int, 0, 0, szi);
        }
        // Volume-weighted average color, premultiplied by alpha.
        proof {
            assert(1 <= (size as int) * (size as int) <= 0x10000 && 1 <= (size as int) * (
            size as int) * (size as int) <= 0x1000000) by (nonlinear_arith)
                requires
                    1 <= size <= 255,
            ;
        }
        let volume = (size as u64) * (size as u64) * (size as u64);
        let color = if sum_a == 0 {
            Rgba { r: 0, g: 0, b: 0, a: 0 }
        } else {
            let r64 = (sum_r + sum_a / 2) / sum_a;
            let g64 = (sum_g + sum_a / 2) / sum_a;
            let b64 = (sum_b + sum_a / 2) / sum_a;
            let a64 = (sum_a + volume / 2) / volume;
            let r16: u16 = if r64 > 256 {
                256
            } else {
                r64 as u16
            };
            let g16: u16 = if g64 > 256 {
                256
            } else {
                g64 as u16
            };
            let b16: u16 = if b64 > 256 {
                256
            } else {
                b64 as u16
            };
            let a16: u16 = if a64 > 256 {
                256
            } else {
                a64 as u16
            };
            Rgba { r: r16, g: g16, b: b16, a: a16 }
        };
        // Per-voxel opacity mask.
        let mut mask: GridArray<OpacityCategory> = GridArray::repeat(
            voxels.grid(),
            OpacityCategory::Invisible,
        );
        let lower = voxels.grid().lower_bounds();
        let upper = voxels.grid().upper_bounds();
        let mut mx = lower.x;
        while mx < upper.x
            invariant
                lower.x <= mx <= upper.x,
                mask.wf(),
                mask.bounds == voxels.bounds,
                forall|c: GridVector|
                    voxels.bounds.contains_cube(c) && c.x < mx ==> #[trigger] mask.at(c) == (
                    if voxels.at(c).color.spec_fully_transparent() {
                        OpacityCategory::Invisible
                    } else if voxels.at(c).color.spec_fully_opaque() {
                        OpacityCategory::Opaque
                    } else {
                        OpacityCategory::Partial
                    }),
            decreases upper.x - mx,
        {
            let mut my = lower.y;
            while my < upper.y
                invariant
                    lower.x <= mx < upper.x,
                    lower.y <= my <= upper.y,
                    mask.wf(),
                    mask.bounds == voxels.bounds,
                    forall|c: GridVector|
                        voxels.bounds.contains_cube(c) && (c.x < mx || (c.x == mx && c.y < my))
                            ==> #[trigger] mask.at(c) == (if voxels.at(
                            c,
                        ).color.spec_fully_transparent() {
                            OpacityCategory::Invisible
                        } else if voxels.at(c).color.spec_fully_opaque() {
                            OpacityCategory::Opaque
                        } else {
                            OpacityCategory::Partial
                        }),
                decreases upper.y - my,
            {
                let mut mz = lower.z;
                while mz < upper.z
                    invariant
                        lower.x <= mx < upper.x,
                        lower.y <= my < upper.y,
                        lower.z <= mz <= upper.z,
                        mask.wf(),
                        mask.bounds == voxels.bounds,
                        forall|c: GridVector|
                            voxels.bounds.contains_cube(c) && (c.x < mx || (c.x == mx && (c.y < my
                                || (c.y == my && c.z < mz)))) ==> #[trigger] mask.at(c) == (
                            if voxels.at(c).color.spec_fully_transparent() {
                                OpacityCategory::Invisible
                            } else if voxels.at(c).color.spec_fully_opaque() {
                                OpacityCategory::Opaque
                            } else {
                                OpacityCategory::Partial
                            }),
                    decreases upper.z - mz,
                {
                    let c = GridVector { x: mx, y: my, z: mz };
                    let cat = voxels.get(c).opacity_category();
                    mask.set(c, cat);
                    mz = mz + 1;
                }
                my = my + 1;
            }
            mx = mx + 1;
        }
        EvaluatedBlock {
            attributes,
            color,
            voxels: Some(voxels),
            resolution,
            opaque,
            visible,
            voxel_opacity_mask: Some(mask),
        }
    }
}


/// Number of cube cells scanned before position `(x, y, z)` in x-major
/// order within a cube of edge `s`.
pub open spec fn cells3(x: int, y: int, z: int, s: int) -> int {
    (x * s + y) * s + z
}

proof fn lemma_cells_bound(s: int)
    requires
        1 <= s <= 255,
    ensures
        cells3(s, 0, 0, s) * 0x10000 <= 0x1_0000_0000_0000,
{
    assert((s * s + 0) * s + 0 <= 0xFD_3356 && ((s * s) * s) * 0x10000 <= 0x1_0000_0000_0000)
        by (nonlinear_arith)
        requires
            1 <= s <= 255,
    ;
}

/// Scanning one more cell advances the bound by one step; all counts stay
/// under the total.
proof fn lemma_cells_step(x: int, y: int, z: int, s: int)
    requires
        0 <= x < s,
        0 <= y < s,
        0 <= z < s,
        s <= 255,
    ensures
        cells3(x, y, z + 1, s) == cells3(x, y, z, s) + 1,
        cells3(x, y, z + 1, s) * 0x10000 == cells3(x, y, z, s) * 0x10000 + 0x10000,
        0 <= cells3(x, y, z, s) * 0x10000 <= 0xFFFF_FFFF_0000,
{
    assert((x * s + y) * s + z + 1 == cells3(x, y, z, s) + 1);
    assert((cells3(x, y, z, s) + 1) * 0x10000 == cells3(x, y, z, s) * 0x10000 + 0x10000
        && 0 <= cells3(x, y, z, s) && cells3(x, y, z, s) <= 0xFF_FFFF && cells3(x, y, z, s)
        * 0x10000 <= 0xFFFF_FFFF_0000) by (nonlinear_arith)
        requires
            0 <= x < s,
            0 <= y < s,
            0 <= z < s,
            s <= 255,
    ;
}

proof fn lemma_cells_wrap_z(x: int, y: int, s: int)
    ensures
        cells3(x, y, s, s) == cells3(x, y + 1, 0, s),
{
    assert((x * s + y) * s + s == (x * s + y + 1) * s) by (nonlinear_arith);
}

proof fn lemma_cells_wrap_y(x: int, s: int)
    ensures
        cells3(x, s, 0, s) == cells3(x + 1, 0, 0, s),
{
    assert((x * s + s) * s == ((x + 1) * s) * s) by (nonlinear_arith);
}

/// The count at any position is at most the total.
proof fn lemma_cells_mono(x: int, y: int, z: int, s: int)
    requires
        0 <= x <= s,
        0 <= y,
        0 <= z,
        s <= 255,
    ensures
        0 <= cells3(x, y, z, s) * 0x10000,
{
    assert(0 <= ((x * s + y) * s + z) * 0x10000) by (nonlinear_arith)
        requires
            0 <= x,
            0 <= y,
            0 <= z,
            0 <= s,
    ;
}


/// Well-formedness of an evaluated block: a positive resolution, channel
/// ranges respected, and voxel data confined to the block cube.
pub open spec fn ev_wf(ev: EvaluatedBlock) -> bool {
    &&& ev.resolution >= 1
    &&& ev.color.wf()
    &&& (ev.voxels matches Some(v) ==> v.wf() && spec_voxels_in_cube(
        v.bounds,
        ev.resolution as int,
    ) && (forall|c: GridVector|
        v.bounds.contains_cube(c) ==> (#[trigger] v.at(c)).color.wf()))
    &&& (ev.voxel_opacity_mask matches Some(m) ==> m.wf() && spec_voxels_in_cube(
        m.bounds,
        ev.resolution as int,
    ))
}

impl Move {
    /// Create a pair of `Modifier::Move`s to displace a block: the first
    /// goes on the block being moved and the second on the air it is
    /// moving into.
    pub fn paired_move(direction: Face, distance: u16, velocity: i16) -> (r: (Modifier, Modifier))
        requires
            direction != Face::Within,
            distance <= 256,
            velocity != i16::MIN,
        ensures
            r.0 == Modifier::Move(Move { direction, distance, velocity }),
            r.1 == Modifier::Move(
                Move {
                    direction: direction.spec_opposite(),
                    distance: (256 - distance) as u16,
                    velocity: (-velocity) as i16,
                },
            ),
    {
        (
            Modifier::Move(Move { direction, distance, velocity }),
            Modifier::Move(
                Move { direction: direction.opposite(), distance: 256 - distance, velocity: -velocity },
            ),
        )
    }

    /// Evaluate a `Move` modifier: quote the block, crop its voxels to the
    /// displaced region, and schedule the next animation step.
    #[verifier::loop_isolation(false)]
    #[verifier::rlimit(60)]
    pub fn evaluate(
        &self,
        block: &Block,
        this_modifier_index: usize,
        input: EvaluatedBlock,
    ) -> (r: Result<EvaluatedBlock, EvalBlockError>)
        requires
            ev_wf(input),
            self.direction != Face::Within,
            self.velocity != i16::MIN,
            this_modifier_index < block.modifiers@.len(),
            block.modifiers@[this_modifier_index as int] == Modifier::Move(*self),
        ensures
            r matches Ok(ev) && ev_wf(ev),
    {
        let Move { direction, distance, velocity } = *self;

        // Apply Quote to ensure that the block's own tick action and other
        // effects do not interfere with movement or cause duplication.
        let input = match (Modifier::Quote { ambient: false }).apply(input) {
            Ok(ev) => ev,
            Err(e) => {
                proof {
                    assert(false);
                }
                return Err(e);
            },
        };

        let (original_bounds, effective_resolution): (GridAab, Resolution) = match &input.voxels {
            Some(array) => (array.grid(), input.resolution),
            // Color blocks are treated as having a resolution of 16.
            None => (GridAab::for_block(16), 16),
        };

        let res_i = effective_resolution as i32;
        proof {
            assert(0 <= (distance as i32) * res_i <= 0x1000000) by (nonlinear_arith)
                requires
                    0 <= distance <= 0x10000,
                    1 <= res_i <= 255,
            ;
        }
        // Work in units of the block's resolution.
        let distance_in_res = (distance as i32) * res_i / 256;
        let normal = direction.normal_vector();
        proof {
            assert(-0x10000 <= normal.x * distance_in_res <= 0x10000 && -0x10000 <= normal.y
                * distance_in_res <= 0x10000 && -0x10000 <= normal.z * distance_in_res <= 0x10000)
                by (nonlinear_arith)
                requires
                    -1 <= normal.x <= 1,
                    -1 <= normal.y <= 1,
                    -1 <= normal.z <= 1,
                    0 <= distance_in_res <= 0x10000,
            ;
        }
        let translation = GridVector {
            x: normal.x * distance_in_res,
            y: normal.y * distance_in_res,
            z: normal.z * distance_in_res,
        };

        // This is None when the displacement puts the block entirely out
        // of view.
        let translated = original_bounds.translate(translation);
        let block_box = GridAab::for_block(effective_resolution);
        let displaced_bounds: Option<GridAab> = translated.intersection(block_box);

        let translation_is_zero = translation.x == 0 && translation.y == 0 && translation.z == 0;
        let animation_action: Option<VoxelBrush> = if displaced_bounds.is_none() && velocity >= 0 {
            // Displaced to invisibility; turn into just plain air.
            Some(VoxelBrush::single(Block::air()))
        } else if (translation_is_zero && velocity == 0) || (distance == 0 && velocity < 0) {
            // A stationary displacement which is invisible, or an animated
            // one which has finished its work: remove the modifier.
            let mut new_block = clone_block(block);
            new_block.modifiers.remove(this_modifier_index);
            Some(VoxelBrush::single(new_block))
        } else if velocity != 0 {
            // Movement in progress.
            let mut new_block = clone_block(block);
            let d32 = distance as i32 + velocity as i32;
            let new_distance: u16 = if d32 < 0 {
                0
            } else if d32 > 0xFFFF {
                0xFFFF
            } else {
                d32 as u16
            };
            let slot = &mut new_block.modifiers[this_modifier_index];
            *slot = Modifier::Move(Move { direction, distance: new_distance, velocity });
            Some(VoxelBrush::single(new_block))
        } else {
            // Stationary displacement; take no action.
            None
        };

        // Used by the solid color case.
        let voxel = Evoxel::from_block(&input);

        let attributes = BlockAttributes {
            // Switch to `Recur` collision so that the displacement
            // collides as expected.
            collision: match input.attributes.collision {
                BlockCollision::NoCollision => BlockCollision::NoCollision,
                BlockCollision::Hard | BlockCollision::Recur => {
                    if displaced_bounds.is_some() {
                        BlockCollision::Recur
                    } else {
                        BlockCollision::NoCollision
                    }
                },
            },
            tick_action: animation_action,
            light_emission: input.attributes.light_emission,
        };

        match displaced_bounds {
            Some(db) => {
                proof {
                    assert(db.size.x >= 1 && db.size.y >= 1 && db.size.z >= 1)
                        by (nonlinear_arith)
                        requires
                            db.size.x >= 0,
                            db.size.y >= 0,
                            db.size.z >= 0,
                            db.size.x * db.size.y * db.size.z > 0,
                    ;
                    let lo = db.lower;
                    let hi = GridVector {
                        x: (db.lower.x + db.size.x - 1) as i32,
                        y: (db.lower.y + db.size.y - 1) as i32,
                        z: (db.lower.z + db.size.z - 1) as i32,
                    };
                    assert(db.contains_cube(lo));
                    assert(block_box.contains_cube(lo));
                    assert(db.contains_cube(hi));
                    assert(block_box.contains_cube(hi));
                    assert(spec_voxels_in_cube(db, effective_resolution as int));
                }
                let displaced_voxels = match &input.voxels {
                    Some(voxels) => {
                        let mut arr: GridArray<Evoxel> = GridArray::repeat(db, voxel);
                        let lower = db.lower_bounds();
                        let upper = db.upper_bounds();
                        let mut x = lower.x;
                        while x < upper.x
                            invariant
                                lower.x <= x <= upper.x,
                                arr.wf(),
                                arr.bounds == db,
                                forall|c: GridVector|
                                    db.contains_cube(c) ==> (#[trigger] arr.at(c)).color.wf(),
                            decreases upper.x - x,
                        {
                            let mut y = lower.y;
                            while y < upper.y
                                invariant
                                    lower.x <= x < upper.x,
                                    lower.y <= y <= upper.y,
                                    arr.wf(),
                                    arr.bounds == db,
                                    forall|c: GridVector|
                                        db.contains_cube(c) ==> (#[trigger] arr.at(c)).color.wf(),
                                decreases upper.y - y,
                            {
                                let mut z = lower.z;
                                while z < upper.z
                                    invariant
                                        lower.x <= x < upper.x,
                                        lower.y <= y < upper.y,
                                        lower.z <= z <= upper.z,
                                        arr.wf(),
                                        arr.bounds == db,
                                        forall|c: GridVector|
                                            db.contains_cube(c) ==> (#[trigger] arr.at(
                                                c,
                                            )).color.wf(),
                                    decreases upper.z - z,
                                {
                                    let c = GridVector { x, y, z };
                                    proof {
                                        assert(db.contains_cube(c));
                                        assert(translated.contains_cube(c));
                                    }
                                    let src = GridVector {
                                        x: x - translation.x,
                                        y: y - translation.y,
                                        z: z - translation.z,
                                    };
                                    proof {
                                        assert(original_bounds.contains_cube(src));
                                    }
                                    arr.set(c, *voxels.get(src));
                                    z = z + 1;
                                }
                                y = y + 1;
                            }
                            x = x + 1;
                        }
                        arr
                    },
                    None => GridArray::repeat(db, voxel),
                };
                Ok(EvaluatedBlock::from_voxels(attributes, effective_resolution, displaced_voxels))
            },
            None => Ok(EvaluatedBlock::from_color(attributes, Rgba { r: 0, g: 0, b: 0, a: 0 })),
        }
    }
}

} // verus!
