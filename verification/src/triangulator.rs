//! Algorithms for converting blocks and voxels to triangle meshes.
//!
//! Vertex positions are exact rationals: integer numerators over a
//! per-vertex denominator (the block resolution), so the geometry the
//! voxel data determines is represented without rounding.

use vstd::prelude::*;

use crate::atlas::Texel;
use crate::block::EvaluatedBlock;
use crate::color::Rgba;
use crate::grid_array::GridArray;
use crate::math::{Face, GridAab, GridVector};
use crate::space::{PackedLight, Space};

verus! {

/// A rational point: coordinates are `x/den` and so on.
#[derive(Clone, Copy, Debug, PartialEq, Eq, Hash, Structural)]
pub struct FreePoint {
    pub x: i64,
    pub y: i64,
    pub z: i64,
    pub den: i64,
}

/// A rational texture coordinate, also numerators over `den`.
#[derive(Clone, Copy, Debug, PartialEq, Eq, Hash, Structural)]
pub struct TexPoint {
    pub x: i64,
    pub y: i64,
    pub z: i64,
    pub den: i64,
}

/// The two ways a vertex may be colored: by a solid color or a texture.
#[derive(Clone, Copy, Debug, PartialEq, Eq, Structural)]
pub enum Coloring {
    Solid(Rgba),
    Texture(TexPoint),
}

/// Generic output vertex of the triangulator.
#[derive(Clone, Copy, Debug, PartialEq, Eq, Structural)]
pub struct BlockVertex {
    /// Vertex position within the block's unit cube (or the space).
    pub position: FreePoint,
    /// Vertex normal, always axis-aligned.
    pub face: Face,
    /// Surface color or texture coordinate.
    pub coloring: Coloring,
}

/// Position numerators bounded enough for distance arithmetic.
pub open spec fn vertex_bounded(v: BlockVertex) -> bool {
    &&& 1 <= v.position.den <= 0x1000
    &&& -0x4000_0000 <= v.position.x <= 0x4000_0000
    &&& -0x4000_0000 <= v.position.y <= 0x4000_0000
    &&& -0x4000_0000 <= v.position.z <= 0x4000_0000
}

impl BlockVertex {
    /// Instantiate a block-model vertex at a position in the space.
    /// Lighting is accepted for interface completeness and discarded.
    pub fn instantiate(&self, offset: GridVector, _lighting: PackedLight) -> (r: BlockVertex)
        requires
            vertex_bounded(*self),
            -0x100000 <= offset.x <= 0x100000,
            -0x100000 <= offset.y <= 0x100000,
            -0x100000 <= offset.z <= 0x100000,
        ensures
            r.face == self.face,
            r.coloring == self.coloring,
            r.position.den == self.position.den,
            r.position.x == self.position.x + offset.x * self.position.den,
            r.position.y == self.position.y + offset.y * self.position.den,
            r.position.z == self.position.z + offset.z * self.position.den,
            -0x2000_0000_0000 <= r.position.x <= 0x2000_0000_0000,
            -0x2000_0000_0000 <= r.position.y <= 0x2000_0000_0000,
            -0x2000_0000_0000 <= r.position.z <= 0x2000_0000_0000,
    {
        proof {
            assert(-0x1000_0000_0000 <= (offset.x as i64) * self.position.den <= 0x1000_0000_0000
                && -0x1000_0000_0000 <= (offset.y as i64) * self.position.den
                <= 0x1000_0000_0000 && -0x1000_0000_0000 <= (offset.z as i64) * self.position.den
                <= 0x1000_0000_0000) by (nonlinear_arith)
                requires
                    1 <= self.position.den <= 0x1000,
                    -0x100000 <= offset.x <= 0x100000,
                    -0x100000 <= offset.y <= 0x100000,
                    -0x100000 <= offset.z <= 0x100000,
            ;
        }
        BlockVertex {
            position: FreePoint {
                x: self.position.x + (offset.x as i64) * self.position.den,
                y: self.position.y + (offset.y as i64) * self.position.den,
                z: self.position.z + (offset.z as i64) * self.position.den,
                den: self.position.den,
            },
            face: self.face,
            coloring: self.coloring,
        }
    }
}

/// Texture tiles produced by a [`TextureAllocator`].
pub trait TextureTile: Sized {
    /// Length the tile's pixel data must have.
    spec fn spec_data_len(&self) -> int;

    /// Identity of the tile's storage; two tiles are interchangeable
    /// exactly when their keys agree.
    spec fn tile_key(&self) -> int;

    /// Transform a tile-local texture coordinate (numerators over `den`)
    /// into a general texture coordinate.
    fn texcoord(&self, s: i64, t: i64, den: i64) -> (r: TexPoint);

    /// Write texture data as RGBA color.
    fn write(&mut self, data: &Vec<Texel>)
        requires
            data@.len() == self.spec_data_len(),
    ;

    /// Whether two tiles are handles to the same storage.
    fn same_tile(&self, other: &Self) -> (r: bool)
        ensures
            r == (self.tile_key() == other.tile_key()),
    ;
}

/// Allocator of texture tiles for block faces.
pub trait TextureAllocator: Sized {
    type Tile: TextureTile;

    spec fn spec_resolution(&self) -> int;

    /// How many tiles this allocator has handed out so far.
    spec fn spec_allocated(&self) -> int;

    /// Edge length of the texture tiles.
    fn resolution(&self) -> (r: i32)
        ensures
            r == self.spec_resolution(),
            1 <= r <= 0x1000,
    ;

    /// Allocate a tile, or `None` if no space is available for another.
    fn allocate(&mut self) -> (r: Option<Self::Tile>)
        ensures
            final(self).spec_resolution() == old(self).spec_resolution(),
            r matches Some(t) ==> t.spec_data_len() == old(self).spec_resolution() * old(
                self,
            ).spec_resolution() && final(self).spec_allocated() == old(self).spec_allocated()
                + 1,
            r is None ==> final(self).spec_allocated() == old(self).spec_allocated(),
    ;
}

/// Describes how to draw one face of a block.
#[derive(Clone, Debug, PartialEq)]
pub struct FaceTriangulation {
    /// Vertices of triangles (length a multiple of 6: two triangles per
    /// quad) in counterclockwise order.
    pub vertices: Vec<BlockVertex>,
    /// Whether the block entirely fills its cube behind this face, such
    /// that nothing can be seen through it and faces of adjacent blocks
    /// may be removed.
    pub fully_opaque: bool,
}

impl FaceTriangulation {
    pub fn default() -> (r: FaceTriangulation)
        ensures
            r.vertices@.len() == 0,
            !r.fully_opaque,
    {
        FaceTriangulation { vertices: Vec::new(), fully_opaque: false }
    }
}

/// Describes how to draw a block, vertices grouped by the face they
/// belong to; triangles not lying on the cube surface are grouped under
/// `Within`.
#[derive(Debug)]
pub struct BlockTriangulation<T> {
    pub within: FaceTriangulation,
    pub nx: FaceTriangulation,
    pub ny: FaceTriangulation,
    pub nz: FaceTriangulation,
    pub px: FaceTriangulation,
    pub py: FaceTriangulation,
    pub pz: FaceTriangulation,
    /// Texture tiles used by the vertices; holding them keeps the texture
    /// coordinates valid.
    pub textures_used: Vec<T>,
}

impl<T> BlockTriangulation<T> {
    pub open spec fn spec_face(self, face: Face) -> FaceTriangulation {
        match face {
            Face::Within => self.within,
            Face::NX => self.nx,
            Face::NY => self.ny,
            Face::NZ => self.nz,
            Face::PX => self.px,
            Face::PY => self.py,
            Face::PZ => self.pz,
        }
    }

    /// All vertices bounded, for later distance arithmetic.
    pub open spec fn bounded(self) -> bool {
        forall|f: Face, i: int|
            0 <= i < self.spec_face(f).vertices@.len() ==> vertex_bounded(
                #[trigger] self.spec_face(f).vertices@[i],
            )
    }

    pub fn face(&self, face: Face) -> (r: &FaceTriangulation)
        ensures
            *r == self.spec_face(face),
    {
        match face {
            Face::Within => &self.within,
            Face::NX => &self.nx,
            Face::NY => &self.ny,
            Face::NZ => &self.nz,
            Face::PX => &self.px,
            Face::PY => &self.py,
            Face::PZ => &self.pz,
        }
    }

    /// The textures used for this block, for retaining them as long as
    /// the vertices are in use.
    pub fn textures(&self) -> (r: &Vec<T>)
        ensures
            *r == self.textures_used,
    {
        &self.textures_used
    }

    pub fn default() -> (r: BlockTriangulation<T>)
        ensures
            forall|f: Face| (#[trigger] r.spec_face(f)).vertices@.len() == 0,
            forall|f: Face| !(#[trigger] r.spec_face(f)).fully_opaque,
            r.textures_used@.len() == 0,
            r.bounded(),
    {
        BlockTriangulation {
            within: FaceTriangulation::default(),
            nx: FaceTriangulation::default(),
            ny: FaceTriangulation::default(),
            nz: FaceTriangulation::default(),
            px: FaceTriangulation::default(),
            py: FaceTriangulation::default(),
            pz: FaceTriangulation::default(),
            textures_used: Vec::new(),
        }
    }
}

/// Helper for [`push_quad`]: texturing for an entire quad, or one color.
enum QuadColoring<'a, T> {
    Solid(Rgba),
    Texture(&'a T, i64),
}

/// The block resolution of a voxel array, if its bounds are the block
/// cube of some resolution.
pub fn evaluated_block_resolution(bounds: GridAab) -> (r: Option<u8>)
    ensures
        match r {
            Some(res) => 1 <= res && bounds.lower == (GridVector { x: 0, y: 0, z: 0 })
                && bounds.size.x == res && bounds.size.y == res && bounds.size.z == res,
            None => !(bounds.lower == (GridVector { x: 0, y: 0, z: 0 }) && bounds.size.x
                == bounds.size.y && bounds.size.y == bounds.size.z && 1 <= bounds.size.x <= 255),
        },
{
    if bounds.lower.x == 0 && bounds.lower.y == 0 && bounds.lower.z == 0 && bounds.size.x
        == bounds.size.y && bounds.size.y == bounds.size.z && bounds.size.x >= 1 && bounds.size.x
        <= 255 {
        Some(bounds.size.x as u8)
    } else {
        None
    }
}

/// Push the six vertices of one quad (two triangles) of `face`, covering
/// the rectangle `low..high` at `depth`, in units of `1/den`.
#[verifier::loop_isolation(false)]
fn push_quad<T: TextureTile>(
    vertices: &mut Vec<BlockVertex>,
    face: Face,
    den: i32,
    depth: i32,
    low_s: i32,
    low_t: i32,
    high_s: i32,
    high_t: i32,
    coloring: QuadColoring<'_, T>,
    tile_resolution: i32,
)
    requires
        1 <= den <= 0x1000,
        0 <= depth <= den,
        0 <= low_s <= den,
        0 <= low_t <= den,
        0 <= high_s <= den,
        0 <= high_t <= den,
        1 <= tile_resolution <= 0x1000,
        forall|i: int| 0 <= i < old(vertices)@.len() ==> vertex_bounded(#[trigger] old(vertices)@[i]),
    ensures
        final(vertices)@.len() == old(vertices)@.len() + 6,
        forall|i: int|
            0 <= i < old(vertices)@.len() ==> #[trigger] final(vertices)@[i] == old(vertices)@[i],
        forall|i: int|
            0 <= i < final(vertices)@.len() ==> vertex_bounded(#[trigger] final(vertices)@[i]),
        forall|i: int|
            old(vertices)@.len() <= i < final(vertices)@.len() ==> (#[trigger] final(vertices)@[i]).face == face,
        forall|i: int|
            old(vertices)@.len() <= i < final(vertices)@.len() ==> (coloring matches
                QuadColoring::Solid(col) ==> (#[trigger] final(vertices)@[i]).coloring
                == Coloring::Solid(col)),
{
    let m = face.matrix(den);
    // The two-triangle quad, wound counterclockwise as seen from outside.
    let corners: [(i32, i32); 6] = [
        (low_s, low_t),
        (low_s, high_t),
        (high_s, low_t),
        (high_s, low_t),
        (low_s, high_t),
        (high_s, high_t),
    ];
    let mut k: usize = 0;
    while k < 6
        invariant
            0 <= k <= 6,
            vertices@.len() == old(vertices)@.len() + k,
            forall|i: int|
                0 <= i < old(vertices)@.len() ==> #[trigger] vertices@[i] == old(vertices)@[i],
            forall|i: int| 0 <= i < vertices@.len() ==> vertex_bounded(#[trigger] vertices@[i]),
            forall|i: int|
                old(vertices)@.len() <= i < vertices@.len() ==> (#[trigger] vertices@[i]).face
                    == face,
            forall|i: int|
                old(vertices)@.len() <= i < vertices@.len() ==> (coloring matches
                    QuadColoring::Solid(col) ==> (#[trigger] vertices@[i]).coloring
                    == Coloring::Solid(col)),
        decreases 6 - k,
    {
        let (s, t) = corners[k];
        proof {
            assert(m.small()) by {
                assert(m == face.spec_matrix(den));
            }
        }
        let p = m.transform_point(GridVector { x: s, y: t, z: depth });
        proof {
            assert(-0x40000 <= (s as int) * m.x.x + (t as int) * m.y.x + (depth as int) * m.z.x
                + m.w.x <= 0x40000 && -0x40000 <= (s as int) * m.x.y + (t as int) * m.y.y + (
            depth as int) * m.z.y + m.w.y <= 0x40000 && -0x40000 <= (s as int) * m.x.z + (
            t as int) * m.y.z + (depth as int) * m.z.z + m.w.z <= 0x40000) by (nonlinear_arith)
                requires
                    m.small(),
                    0 <= s <= 0x1000,
                    0 <= t <= 0x1000,
                    0 <= depth <= 0x1000,
            ;
        }
        let coloring_v = match coloring {
            QuadColoring::Solid(color) => Coloring::Solid(color),
            QuadColoring::Texture(tile, _scale) => Coloring::Texture(
                tile.texcoord(s as i64, t as i64, tile_resolution as i64),
            ),
        };
        vertices.push(
            BlockVertex {
                position: FreePoint { x: p.x as i64, y: p.y as i64, z: p.z as i64, den: den as i64 },
                face,
                coloring: coloring_v,
            },
        );
        k = k + 1;
    }
}

/// Whether the rectangle `low..high` of the texel grid holds one single
/// color, and which.
#[verifier::loop_isolation(false)]
fn rectangle_is_uniform_color(
    texels: &Vec<Texel>,
    resolution: i32,
    low_s: i32,
    low_t: i32,
    high_s: i32,
    high_t: i32,
) -> (r: Option<Texel>)
    requires
        1 <= resolution <= 0x1000,
        0 <= low_s <= high_s <= resolution,
        0 <= low_t <= high_t <= resolution,
        texels@.len() == resolution * resolution,
{
    let mut first: Option<Texel> = None;
    let mut t = low_t;
    while t < high_t
        invariant
            low_t <= t <= high_t,
        decreases high_t - t,
    {
        proof {
            assert(0 <= (t as int) * resolution && (t as int) * resolution + resolution
                <= resolution * resolution && resolution * resolution <= 0x1000000)
                by (nonlinear_arith)
                requires
                    0 <= t < resolution,
                    1 <= resolution <= 0x1000,
            ;
        }
        let row = (t as usize) * (resolution as usize);
        let mut s = low_s;
        while s < high_s
            invariant
                low_s <= s <= high_s,
                low_t <= t < high_t,
                row == (t as int) * resolution,
                row + resolution <= texels@.len(),
            decreases high_s - s,
        {
            let texel = texels[row + s as usize];
            match first {
                None => {
                    first = Some(texel);
                },
                Some(f) => {
                    if !(texel.0 == f.0 && texel.1 == f.1 && texel.2 == f.2 && texel.3 == f.3) {
                        return None;
                    }
                },
            }
            s = s + 1;
        }
        t = t + 1;
    }
    first
}

/// Color shown where a voxel lookup lands outside the voxel data.
fn missing_voxel_fallback() -> (r: Rgba)
    ensures
        r == (Rgba { r: 256u16, g: 0u16, b: 256u16, a: 256u16 }),
        r.wf(),
{
    Rgba { r: 256, g: 0, b: 256, a: 256 }
}

/// Color shown where texture allocation failed.
fn missing_texture_fallback() -> (r: Rgba)
    ensures
        r.wf(),
{
    Rgba { r: 256, g: 0, b: 256, a: 256 }
}

/// The surface (outermost-layer) texel of `face` at `(s, t)` reads as
/// fully opaque: the voxel there is opaque, or lies outside the voxel
/// data and reads as the (opaque) fallback color.
pub open spec fn spec_surface_opaque(
    voxels: GridArray<crate::block::Evoxel>,
    face: Face,
    res: int,
    s: int,
    t: int,
) -> bool {
    let m = face.spec_matrix((res - 1) as i32);
    let cube = m.spec_transform_point(GridVector { x: s as i32, y: t as i32, z: 0 });
    if voxels.bounds.contains_cube(cube) {
        voxels.at(cube).color.spec_fully_opaque()
    } else {
        true
    }
}

/// Every surface texel of `face` is opaque.
pub open spec fn spec_face_surface_opaque(
    voxels: GridArray<crate::block::Evoxel>,
    face: Face,
    res: int,
) -> bool {
    forall|si: int, ti: int|
        0 <= si < res && 0 <= ti < res ==> spec_surface_opaque(voxels, face, res, si, ti)
}

/// Scan one depth layer of a voxel block's face: collect the layer's
/// texels (padded to the tile resolution), the bounding rectangle of its
/// visible texels, and — for the surface layer — whether every surface
/// texel reads as fully opaque.
#[verifier::loop_isolation(false)]
#[verifier::rlimit(100)]
fn scan_layer(
    voxels: &GridArray<crate::block::Evoxel>,
    face: Face,
    m: &crate::math::GridMatrix,
    layer: i32,
    block_resolution: i32,
    tile_resolution: i32,
) -> (r: (Vec<Texel>, i32, i32, i32, i32, bool, bool))
    requires
        voxels.wf(),
        1 <= block_resolution <= tile_resolution <= 0x1000,
        0 <= layer < block_resolution,
        *m == face.spec_matrix((block_resolution - 1) as i32),
    ensures
        r.0@.len() == tile_resolution * tile_resolution,
        0 <= r.1 <= block_resolution,
        0 <= r.2 <= block_resolution,
        0 <= r.3 <= block_resolution,
        0 <= r.4 <= block_resolution,
        r.5 ==> r.1 < r.3 && r.2 < r.4,
        layer == 0 ==> r.6 == spec_face_surface_opaque(
            *voxels,
            face,
            block_resolution as int,
        ),
{
    let ghost bres = block_resolution as int;
    let mut surface_opaque = true;
        // One texture tile's worth of texels for this layer.
        let mut tile_texels: Vec<Texel> = Vec::new();
        let mut layer_is_visible_somewhere = false;
        // Bounding rectangle of the visible texels,
        // inclusive-exclusive.
        let mut visible_low_s: i32 = block_resolution;
        let mut visible_low_t: i32 = block_resolution;
        let mut visible_high_s: i32 = 0;
        let mut visible_high_t: i32 = 0;
        let mut t: i32 = 0;
        while t < block_resolution
            invariant
                layer == 0 ==> surface_opaque == (forall|si: int, ti: int|
                    0 <= si < bres && 0 <= ti < bres && ti < t ==> spec_surface_opaque(
                        *voxels,
                        face,
                        bres,
                        si,
                        ti,
                    )),
                layer != 0 ==> surface_opaque,
                0 <= t <= block_resolution,
                0 <= layer < block_resolution,
                *m == face.spec_matrix((bres - 1) as i32),
                1 <= block_resolution <= tile_resolution,
                1 <= tile_resolution <= 0x1000,
                tile_texels@.len() == t * tile_resolution,
                0 <= visible_low_s <= block_resolution,
                0 <= visible_low_t <= block_resolution,
                0 <= visible_high_s <= block_resolution,
                0 <= visible_high_t <= block_resolution,
                layer_is_visible_somewhere ==> visible_low_s < visible_high_s
                    && visible_low_t < visible_high_t,
            decreases block_resolution - t,
        {
            let mut s: i32 = 0;
            while s < block_resolution
                invariant
                    layer == 0 ==> surface_opaque == (forall|si: int, ti: int|
                        0 <= si < bres && 0 <= ti < bres && (ti < t || (ti == t && si < s))
                            ==> spec_surface_opaque(*voxels, face, bres, si, ti)),
                    layer != 0 ==> surface_opaque,
                    0 <= s <= block_resolution,
                    0 <= t < block_resolution,
                    0 <= layer < block_resolution,
                    *m == face.spec_matrix((bres - 1) as i32),
                    1 <= block_resolution <= tile_resolution,
                    1 <= tile_resolution <= 0x1000,
                    tile_texels@.len() == t * tile_resolution + s,
                    0 <= visible_low_s <= block_resolution,
                    0 <= visible_low_t <= block_resolution,
                    0 <= visible_high_s <= block_resolution,
                    0 <= visible_high_t <= block_resolution,
                    layer_is_visible_somewhere ==> visible_low_s < visible_high_s
                        && visible_low_t < visible_high_t,
                decreases block_resolution - s,
            {
                proof {
                    assert(m.small()) by {
                        assert(m == face.spec_matrix((bres - 1) as i32));
                    }
                    assert(-0x40000 <= (s as int) * m.x.x + (t as int) * m.y.x + (
                    layer as int) * m.z.x + m.w.x <= 0x40000 && -0x40000 <= (s as int)
                        * m.x.y + (t as int) * m.y.y + (layer as int) * m.z.y + m.w.y
                        <= 0x40000 && -0x40000 <= (s as int) * m.x.z + (t as int)
                        * m.y.z + (layer as int) * m.z.z + m.w.z <= 0x40000)
                        by (nonlinear_arith)
                        requires
                            m.small(),
                            0 <= s <= 0x1000,
                            0 <= t <= 0x1000,
                            0 <= layer <= 0x1000,
                    ;
                }
                let cube = m.transform_point(GridVector { x: s, y: t, z: layer });
                let color = match voxels.get_checked(cube) {
                    Some(v) => v.color,
                    None => missing_voxel_fallback(),
                };
                proof {
                    if layer == 0 {
                        assert(color.spec_fully_opaque() == spec_surface_opaque(
                            *voxels,
                            face,
                            bres,
                            s as int,
                            t as int,
                        ));
                    }
                }
                let obscured = {
                    let n = face.normal_vector();
                    let oc = GridVector {
                        x: cube.x + n.x,
                        y: cube.y + n.y,
                        z: cube.z + n.z,
                    };
                    match voxels.get_checked(oc) {
                        Some(ov) => ov.color.fully_opaque(),
                        None => false,
                    }
                };
                if !color.fully_transparent() && !obscured {
                    layer_is_visible_somewhere = true;
                    if s < visible_low_s {
                        visible_low_s = s;
                    }
                    if t < visible_low_t {
                        visible_low_t = t;
                    }
                    if s + 1 > visible_high_s {
                        visible_high_s = s + 1;
                    }
                    if t + 1 > visible_high_t {
                        visible_high_t = t + 1;
                    }
                }
                if layer == 0 && !color.fully_opaque() {
                    // The outermost layer is transparent here,
                    // so this face of the cube is see-through.
                    surface_opaque = false;
                }
                let texel = if color.r <= 256 && color.g <= 256 && color.b <= 256
                    && color.a <= 256 {
                    color.to_texel()
                } else {
                    (255, 0, 255, 255)
                };
                tile_texels.push(texel);
                s = s + 1;
            }
            // Pad the row out to the tile resolution.
            while tile_texels.len() % (tile_resolution as usize) != 0
                invariant
                    t * tile_resolution < tile_texels@.len() <= t * tile_resolution
                        + tile_resolution,
                    1 <= tile_resolution <= 0x1000,
                    0 <= t < block_resolution,
                    block_resolution <= tile_resolution,
                decreases t * tile_resolution + tile_resolution - tile_texels@.len(),
            {
                proof {
                    assert((t as int) * tile_resolution + tile_resolution == ((
                    t as int) + 1) * tile_resolution && (((t as int) + 1)
                        * tile_resolution) % (tile_resolution as int) == 0)
                        by (nonlinear_arith)
                        requires
                            tile_resolution >= 1,
                    ;
                    assert(tile_texels@.len() != 0) by {
                        if tile_texels@.len() == 0 {
                            assert(0int % (tile_resolution as int) == 0);
                        }
                    }
                    assert(tile_texels@.len() < (t as int) * tile_resolution
                        + tile_resolution);
                }
                let last = tile_texels[tile_texels.len() - 1];
                tile_texels.push(last);
            }
            proof {
                assert(tile_texels@.len() == (t + 1) * tile_resolution)
                    by (nonlinear_arith)
                    requires
                        tile_texels@.len() as int % (tile_resolution as int) == 0,
                        t * tile_resolution < tile_texels@.len() <= t
                            * tile_resolution + tile_resolution,
                        tile_resolution >= 1,
                ;
            }
            t = t + 1;
        }
        proof {
            if layer == 0 {
                assert(surface_opaque == spec_face_surface_opaque(*voxels, face, bres));
            }
        }
        // Pad remaining rows out to the tile resolution.
        proof {
            assert(block_resolution * tile_resolution <= tile_resolution
                * tile_resolution && tile_resolution * tile_resolution <= 0x1000000)
                by (nonlinear_arith)
                requires
                    1 <= block_resolution <= tile_resolution <= 0x1000,
            ;
        }
        while (tile_texels.len() as i32) < tile_resolution * tile_resolution
            invariant
                block_resolution * tile_resolution <= tile_texels@.len()
                    <= tile_resolution * tile_resolution,
                1 <= block_resolution <= tile_resolution <= 0x1000,
            decreases tile_resolution * tile_resolution - tile_texels@.len(),
        {
            proof {
                assert(tile_texels@.len() >= 1) by (nonlinear_arith)
                    requires
                        tile_texels@.len() >= block_resolution * tile_resolution,
                        block_resolution >= 1,
                        tile_resolution >= 1,
                ;
            }
            let last = tile_texels[tile_texels.len() - 1];
            tile_texels.push(last);
        }
        (
        tile_texels,
        visible_low_s,
        visible_low_t,
        visible_high_s,
        visible_high_t,
        layer_is_visible_somewhere,
        surface_opaque,
    )
}

/// Generate a [`BlockTriangulation`] for a block.
///
/// For a block without voxel detail the result is pinned exactly: each of
/// the six faces is fully opaque exactly when the block's color is, and
/// carries one solid-colored quad exactly when the color is not fully
/// transparent.  Voxel blocks get one quad per visible rectangle per
/// layer, and newly allocated tiles are retained in `textures_used`.
#[verifier::loop_isolation(false)]
#[verifier::rlimit(100)]
#[verifier::spinoff_prover]
pub fn triangulate_block<A: TextureAllocator>(
    block: &EvaluatedBlock,
    texture_allocator: &mut A,
) -> (r: BlockTriangulation<A::Tile>)
    requires
        crate::block::ev_wf(*block),
    ensures
        r.bounded(),
        r.spec_face(Face::Within).fully_opaque == false,
        r.textures_used@.len() == final(texture_allocator).spec_allocated() - old(
            texture_allocator,
        ).spec_allocated(),
        (block.voxels is Some && block.voxels->Some_0.bounds.lower == (GridVector {
            x: 0,
            y: 0,
            z: 0,
        }) && block.voxels->Some_0.bounds.size.x == block.voxels->Some_0.bounds.size.y
            && block.voxels->Some_0.bounds.size.y == block.voxels->Some_0.bounds.size.z && 1
            <= block.voxels->Some_0.bounds.size.x <= 255) ==> ({
            let v = block.voxels->Some_0;
            let bres = if v.bounds.size.x as int > old(texture_allocator).spec_resolution() {
                old(texture_allocator).spec_resolution()
            } else {
                v.bounds.size.x as int
            };
            forall|f: Face|
                f != Face::Within ==> (#[trigger] r.spec_face(f)).fully_opaque
                    == spec_face_surface_opaque(v, f, bres)
        }),
        block.voxels is None ==> {
            &&& forall|f: Face|
                f != Face::Within ==> (#[trigger] r.spec_face(f)).fully_opaque
                    == block.color.spec_fully_opaque()
            &&& forall|f: Face|
                f != Face::Within ==> (#[trigger] r.spec_face(f)).vertices@.len() == (
                if block.color.spec_fully_transparent() {
                    0int
                } else {
                    6int
                })
            &&& r.spec_face(Face::Within).vertices@.len() == 0
            &&& r.textures_used@.len() == 0
            &&& forall|f: Face, i: int|
                0 <= i < r.spec_face(f).vertices@.len() ==> (#[trigger] r.spec_face(
                    f,
                ).vertices@[i]).coloring == Coloring::Solid(block.color)
        },
        forall|f: Face| (#[trigger] r.spec_face(f)).vertices@.len() % 6 == 0,
{
    match &block.voxels {
        None => {
            let mut result: BlockTriangulation<A::Tile> = BlockTriangulation::default();
            let ghost d0 = result;
            if !block.color.fully_transparent() {
                let mut verts_nx: Vec<BlockVertex> = Vec::new();
                push_quad::<A::Tile>(
                    &mut verts_nx,
                    Face::NX,
                    1,
                    0,
                    0,
                    0,
                    1,
                    1,
                    QuadColoring::Solid(block.color),
                    1,
                );
                proof {
                    assert(forall|i: int|
                        0 <= i < verts_nx@.len() ==> vertex_bounded(#[trigger] verts_nx@[i])
                            && verts_nx@[i].coloring == Coloring::Solid(block.color));
                }
                let ghost gv_nx = verts_nx@;
                result.nx = FaceTriangulation {
                    vertices: verts_nx,
                    fully_opaque: block.color.fully_opaque(),
                };
                let mut verts_ny: Vec<BlockVertex> = Vec::new();
                push_quad::<A::Tile>(
                    &mut verts_ny,
                    Face::NY,
                    1,
                    0,
                    0,
                    0,
                    1,
                    1,
                    QuadColoring::Solid(block.color),
                    1,
                );
                proof {
                    assert(forall|i: int|
                        0 <= i < verts_ny@.len() ==> vertex_bounded(#[trigger] verts_ny@[i])
                            && verts_ny@[i].coloring == Coloring::Solid(block.color));
                }
                let ghost gv_ny = verts_ny@;
                result.ny = FaceTriangulation {
                    vertices: verts_ny,
                    fully_opaque: block.color.fully_opaque(),
                };
                let mut verts_nz: Vec<BlockVertex> = Vec::new();
                push_quad::<A::Tile>(
                    &mut verts_nz,
                    Face::NZ,
                    1,
                    0,
                    0,
                    0,
                    1,
                    1,
                    QuadColoring::Solid(block.color),
                    1,
                );
                proof {
                    assert(forall|i: int|
                        0 <= i < verts_nz@.len() ==> vertex_bounded(#[trigger] verts_nz@[i])
                            && verts_nz@[i].coloring == Coloring::Solid(block.color));
                }
                let ghost gv_nz = verts_nz@;
                result.nz = FaceTriangulation {
                    vertices: verts_nz,
                    fully_opaque: block.color.fully_opaque(),
                };
                let mut verts_px: Vec<BlockVertex> = Vec::new();
                push_quad::<A::Tile>(
                    &mut verts_px,
                    Face::PX,
                    1,
                    0,
                    0,
                    0,
                    1,
                    1,
                    QuadColoring::Solid(block.color),
                    1,
                );
                proof {
                    assert(forall|i: int|
                        0 <= i < verts_px@.len() ==> vertex_bounded(#[trigger] verts_px@[i])
                            && verts_px@[i].coloring == Coloring::Solid(block.color));
                }
                let ghost gv_px = verts_px@;
                result.px = FaceTriangulation {
                    vertices: verts_px,
                    fully_opaque: block.color.fully_opaque(),
                };
                let mut verts_py: Vec<BlockVertex> = Vec::new();
                push_quad::<A::Tile>(
                    &mut verts_py,
                    Face::PY,
                    1,
                    0,
                    0,
                    0,
                    1,
                    1,
                    QuadColoring::Solid(block.color),
                    1,
                );
                proof {
                    assert(forall|i: int|
                        0 <= i < verts_py@.len() ==> vertex_bounded(#[trigger] verts_py@[i])
                            && verts_py@[i].coloring == Coloring::Solid(block.color));
                }
                let ghost gv_py = verts_py@;
                result.py = FaceTriangulation {
                    vertices: verts_py,
                    fully_opaque: block.color.fully_opaque(),
                };
                let mut verts_pz: Vec<BlockVertex> = Vec::new();
                push_quad::<A::Tile>(
                    &mut verts_pz,
                    Face::PZ,
                    1,
                    0,
                    0,
                    0,
                    1,
                    1,
                    QuadColoring::Solid(block.color),
                    1,
                );
                proof {
                    assert(forall|i: int|
                        0 <= i < verts_pz@.len() ==> vertex_bounded(#[trigger] verts_pz@[i])
                            && verts_pz@[i].coloring == Coloring::Solid(block.color));
                }
                let ghost gv_pz = verts_pz@;
                result.pz = FaceTriangulation {
                    vertices: verts_pz,
                    fully_opaque: block.color.fully_opaque(),
                };
                proof {
                    assert forall|f: Face, i: int|
                        0 <= i < result.spec_face(f).vertices@.len() implies vertex_bounded(
                        #[trigger] result.spec_face(f).vertices@[i],
                    ) && result.spec_face(f).vertices@[i].coloring == Coloring::Solid(block.color)
                        by {
                        match f {
                            Face::Within => {
                                assert(result.within == d0.within);
                                assert(d0.spec_face(Face::Within).vertices@.len() == 0);
                            },
                            Face::NX => {
                                assert(result.spec_face(f).vertices@ == gv_nx);
                            },
                            Face::NY => {
                                assert(result.spec_face(f).vertices@ == gv_ny);
                            },
                            Face::NZ => {
                                assert(result.spec_face(f).vertices@ == gv_nz);
                            },
                            Face::PX => {
                                assert(result.spec_face(f).vertices@ == gv_px);
                            },
                            Face::PY => {
                                assert(result.spec_face(f).vertices@ == gv_py);
                            },
                            Face::PZ => {
                                assert(result.spec_face(f).vertices@ == gv_pz);
                            },
                        }
                    }
                    assert(result.spec_face(Face::Within).fully_opaque == false) by {
                        assert(result.within == d0.within);
                        assert(!d0.spec_face(Face::Within).fully_opaque);
                    }
                    assert(result.spec_face(Face::Within).vertices@.len() == 0) by {
                        assert(result.within == d0.within);
                        assert(d0.spec_face(Face::Within).vertices@.len() == 0);
                    }
                    assert forall|f: Face| f != Face::Within implies (#[trigger] result.spec_face(
                        f,
                    )).fully_opaque == block.color.spec_fully_opaque() && result.spec_face(
                        f,
                    ).vertices@.len() == 6 by {
                        match f {
                            Face::Within => {},
                            Face::NX => {
                                assert(result.spec_face(f).vertices@ == gv_nx);
                                assert(gv_nx.len() == 6);
                            },
                            Face::NY => {
                                assert(result.spec_face(f).vertices@ == gv_ny);
                                assert(gv_ny.len() == 6);
                            },
                            Face::NZ => {
                                assert(result.spec_face(f).vertices@ == gv_nz);
                                assert(gv_nz.len() == 6);
                            },
                            Face::PX => {
                                assert(result.spec_face(f).vertices@ == gv_px);
                                assert(gv_px.len() == 6);
                            },
                            Face::PY => {
                                assert(result.spec_face(f).vertices@ == gv_py);
                                assert(gv_py.len() == 6);
                            },
                            Face::PZ => {
                                assert(result.spec_face(f).vertices@ == gv_pz);
                                assert(gv_pz.len() == 6);
                            },
                        }
                    }
                    assert forall|f: Face| (#[trigger] result.spec_face(f)).vertices@.len() % 6
                        == 0 by {
                        if f == Face::Within {
                            assert(result.spec_face(f).vertices@.len() == 0);
                        } else {
                            assert(result.spec_face(f).vertices@.len() == 6);
                        }
                    }
                }
                result
            } else {
                proof {
                    assert forall|f: Face| (#[trigger] result.spec_face(f)).vertices@.len() == 0
                        && !result.spec_face(f).fully_opaque by {}
                }
                result
            }
        },
        Some(voxels) => {
            let tile_resolution: i32 = texture_allocator.resolution();
            let block_resolution_opt = evaluated_block_resolution(voxels.grid());
            let block_resolution_raw = match block_resolution_opt {
                Some(res) => res as i32,
                None => {
                    // Not a block-shaped voxel array: no geometry.
                    return BlockTriangulation::default();
                },
            };
            // Implemented only for block resolution at most the tile
            // resolution; finer voxels are clipped.
            let block_resolution = if block_resolution_raw > tile_resolution {
                tile_resolution
            } else {
                block_resolution_raw
            };
            let ghost bres = block_resolution as int;
            // Start by assuming opacity of each proper face; any
            // transparent surface texel clears it.
            let mut result: BlockTriangulation<A::Tile> = BlockTriangulation::default();
            let ghost alloc0 = texture_allocator.spec_allocated();
            let faces = Face::all_six();
            let mut fi: usize = 0;
            while fi < 6
                invariant
                    0 <= fi <= 6,
                    faces@ == seq![Face::NX, Face::NY, Face::NZ, Face::PX, Face::PY, Face::PZ],
                    1 <= block_resolution <= tile_resolution,
                    1 <= tile_resolution <= 0x1000,
                    texture_allocator.spec_resolution() == tile_resolution,
                    result.bounded(),
                    !result.spec_face(Face::Within).fully_opaque,
                    forall|f: Face| (#[trigger] result.spec_face(f)).vertices@.len() % 6 == 0,
                    result.textures_used@.len() == texture_allocator.spec_allocated() - alloc0,
                    forall|k: int|
                        0 <= k < fi ==> (#[trigger] result.spec_face(faces@[k])).fully_opaque
                            == spec_face_surface_opaque(*voxels, faces@[k], bres),
                decreases 6 - fi,
            {
                let face = faces[fi];
                let m = face.matrix(block_resolution - 1);
                let mut face_opaque = true;
                let mut layer: i32 = 0;
                while layer < block_resolution
                    invariant
                        0 <= layer <= block_resolution,
                        0 <= fi < 6,
                        faces@ == seq![Face::NX, Face::NY, Face::NZ, Face::PX, Face::PY, Face::PZ],
                        face == faces@[fi as int],
                        m == face.spec_matrix((bres - 1) as i32),
                        layer >= 1 ==> face_opaque == spec_face_surface_opaque(
                            *voxels,
                            face,
                            bres,
                        ),
                        layer == 0 ==> face_opaque,
                        forall|k: int|
                            0 <= k < fi ==> (#[trigger] result.spec_face(faces@[k])).fully_opaque
                                == spec_face_surface_opaque(*voxels, faces@[k], bres),
                        1 <= block_resolution <= tile_resolution,
                        1 <= tile_resolution <= 0x1000,
                        texture_allocator.spec_resolution() == tile_resolution,
                        result.bounded(),
                        !result.spec_face(Face::Within).fully_opaque,
                        forall|f: Face| (#[trigger] result.spec_face(f)).vertices@.len() % 6 == 0,
                        result.textures_used@.len() == texture_allocator.spec_allocated()
                            - alloc0,
                    decreases block_resolution - layer,
                {
                    // One texture tile's worth of texels for this layer.
                    let (tile_texels, visible_low_s, visible_low_t, visible_high_s,
                        visible_high_t, layer_is_visible_somewhere, layer_surface_opaque) =
                        scan_layer(voxels, face, &m, layer, block_resolution, tile_resolution);
                    if layer == 0 {
                        face_opaque = layer_surface_opaque;
                    }
                    if layer_is_visible_somewhere {
                        // Emit a quad covering the visible rectangle.
                        // Only the surface layer goes on the proper face.
                        let coloring_choice = rectangle_is_uniform_color(
                            &tile_texels,
                            tile_resolution,
                            visible_low_s,
                            visible_low_t,
                            visible_high_s,
                            visible_high_t,
                        );
                        let mut verts: Vec<BlockVertex> = Vec::new();
                        let target_face = if layer == 0 {
                            face
                        } else {
                            Face::Within
                        };
                        match coloring_choice {
                            Some(uniform) => {
                                // All texels in the quad agree: use a solid
                                // color and skip allocating a tile.
                                let color = Rgba {
                                    r: (uniform.0 as u16) * 256 / 255,
                                    g: (uniform.1 as u16) * 256 / 255,
                                    b: (uniform.2 as u16) * 256 / 255,
                                    a: (uniform.3 as u16) * 256 / 255,
                                };
                                push_quad::<A::Tile>(
                                    &mut verts,
                                    face,
                                    block_resolution,
                                    layer,
                                    visible_low_s,
                                    visible_low_t,
                                    visible_high_s,
                                    visible_high_t,
                                    QuadColoring::Solid(color),
                                    tile_resolution,
                                );
                            },
                            None => {
                                match texture_allocator.allocate() {
                                    Some(mut tile) => {
                                        proof {
                                            assert(tile_texels@.len() == tile.spec_data_len());
                                        }
                                        tile.write(&tile_texels);
                                        push_quad(
                                            &mut verts,
                                            face,
                                            block_resolution,
                                            layer,
                                            visible_low_s,
                                            visible_low_t,
                                            visible_high_s,
                                            visible_high_t,
                                            QuadColoring::Texture(&tile, 1),
                                            tile_resolution,
                                        );
                                        let ghost snap = result;
                                        result.textures_used.push(tile);
                                        proof {
                                            assert forall|f: Face| #[trigger] result.spec_face(f)
                                                == snap.spec_face(f) by {
                                                match f {
                                        Face::Within => {
                                            assert(result.within == snap.within);
                                        },
                                        Face::NX => {
                                            assert(result.nx == snap.nx);
                                        },
                                        Face::NY => {
                                            assert(result.ny == snap.ny);
                                        },
                                        Face::NZ => {
                                            assert(result.nz == snap.nz);
                                        },
                                        Face::PX => {
                                            assert(result.px == snap.px);
                                        },
                                        Face::PY => {
                                            assert(result.py == snap.py);
                                        },
                                        Face::PZ => {
                                            assert(result.pz == snap.pz);
                                        },
                                    }
                                            }
                                            assert forall|f: Face, i: int|
                                                0 <= i < result.spec_face(f).vertices@.len()
                                                    implies vertex_bounded(
                                                #[trigger] result.spec_face(f).vertices@[i],
                                            ) by {
                                                assert(result.spec_face(f) == snap.spec_face(f));
                                                assert(vertex_bounded(
                                                    snap.spec_face(f).vertices@[i],
                                                ));
                                            }
                                            assert forall|f: Face| (#[trigger] result.spec_face(
                                                f,
                                            )).vertices@.len() % 6 == 0 by {
                                                assert(result.spec_face(f) == snap.spec_face(f));
                                                assert(snap.spec_face(f).vertices@.len() % 6
                                                    == 0);
                                            }
                                        }
                                    },
                                    None => {
                                        // Texture allocation failure: fall
                                        // back to a solid color.
                                        push_quad::<A::Tile>(
                                            &mut verts,
                                            face,
                                            block_resolution,
                                            layer,
                                            visible_low_s,
                                            visible_low_t,
                                            visible_high_s,
                                            visible_high_t,
                                            QuadColoring::Solid(missing_texture_fallback()),
                                            tile_resolution,
                                        );
                                    },
                                }
                            },
                        }
                        append_face_vertices(&mut result, target_face, &verts);
                    }
                    layer = layer + 1;
                }
                proof {
                    assert(faces@[fi as int] != Face::Within);
                }
                set_face_opacity(&mut result, face, face_opaque);
                proof {
                    assert(result.spec_face(face).fully_opaque == spec_face_surface_opaque(
                        *voxels,
                        face,
                        bres,
                    ));
                }
                fi = fi + 1;
            }
            proof {
                assert forall|f: Face| f != Face::Within implies (#[trigger] result.spec_face(
                    f,
                )).fully_opaque == spec_face_surface_opaque(*voxels, f, bres) by {
                    match f {
                        Face::Within => {},
                        Face::NX => {
                            assert(f == faces@[0]);
                        },
                        Face::NY => {
                            assert(f == faces@[1]);
                        },
                        Face::NZ => {
                            assert(f == faces@[2]);
                        },
                        Face::PX => {
                            assert(f == faces@[3]);
                        },
                        Face::PY => {
                            assert(f == faces@[4]);
                        },
                        Face::PZ => {
                            assert(f == faces@[5]);
                        },
                    }
                }
            }
            result
        },
    }
}


/// Set the opacity flag of one face, leaving everything else unchanged.
#[verifier::rlimit(100)]
fn set_face_opacity<T>(result: &mut BlockTriangulation<T>, face: Face, value: bool)
    ensures
        final(result).spec_face(face).fully_opaque == value,
        forall|f: Face|
            #[trigger] final(result).spec_face(f).vertices@ == old(result).spec_face(
                f,
            ).vertices@,
        forall|f: Face|
            f != face ==> #[trigger] final(result).spec_face(f) == old(result).spec_face(f),
        final(result).textures_used == old(result).textures_used,
        old(result).bounded() ==> final(result).bounded(),
        (forall|f: Face| (#[trigger] old(result).spec_face(f)).vertices@.len() % 6 == 0)
            ==> (forall|f: Face| (#[trigger] final(result).spec_face(f)).vertices@.len() % 6
            == 0),
{
    match face {
        Face::Within => {
            result.within.fully_opaque = value;
            proof {
                assert forall|f: Face| #[trigger] result.spec_face(f).vertices@ == old(
                    result,
                ).spec_face(f).vertices@ by {
                    match f {
                    Face::Within => {},
                    Face::NX => {},
                    Face::NY => {},
                    Face::NZ => {},
                    Face::PX => {},
                    Face::PY => {},
                    Face::PZ => {},
                }
                }
                assert forall|f: Face|
                    f != Face::Within implies #[trigger] result.spec_face(f) == old(
                    result,
                ).spec_face(f) by {
                    match f {
                    Face::Within => {},
                    Face::NX => {},
                    Face::NY => {},
                    Face::NZ => {},
                    Face::PX => {},
                    Face::PY => {},
                    Face::PZ => {},
                }
                }
                if old(result).bounded() {
                    assert forall|f2: Face, i: int|
                        0 <= i < result.spec_face(f2).vertices@.len() implies vertex_bounded(
                        #[trigger] result.spec_face(f2).vertices@[i],
                    ) by {
                        assert(result.spec_face(f2).vertices@ == old(result).spec_face(
                            f2,
                        ).vertices@);
                        assert(vertex_bounded(old(result).spec_face(f2).vertices@[i]));
                    }
                }
                if forall|f2: Face| (#[trigger] old(result).spec_face(f2)).vertices@.len() % 6
                    == 0 {
                    assert forall|f2: Face| (#[trigger] result.spec_face(f2)).vertices@.len() % 6
                        == 0 by {
                        assert(result.spec_face(f2).vertices@ == old(result).spec_face(
                            f2,
                        ).vertices@);
                        assert(old(result).spec_face(f2).vertices@.len() % 6 == 0);
                    }
                }
            }
        },
        Face::NX => {
            result.nx.fully_opaque = value;
            proof {
                assert forall|f: Face| #[trigger] result.spec_face(f).vertices@ == old(
                    result,
                ).spec_face(f).vertices@ by {
                    match f {
                    Face::Within => {},
                    Face::NX => {},
                    Face::NY => {},
                    Face::NZ => {},
                    Face::PX => {},
                    Face::PY => {},
                    Face::PZ => {},
                }
                }
                assert forall|f: Face|
                    f != Face::NX implies #[trigger] result.spec_face(f) == old(
                    result,
                ).spec_face(f) by {
                    match f {
                    Face::Within => {},
                    Face::NX => {},
                    Face::NY => {},
                    Face::NZ => {},
                    Face::PX => {},
                    Face::PY => {},
                    Face::PZ => {},
                }
                }
                if old(result).bounded() {
                    assert forall|f2: Face, i: int|
                        0 <= i < result.spec_face(f2).vertices@.len() implies vertex_bounded(
                        #[trigger] result.spec_face(f2).vertices@[i],
                    ) by {
                        assert(result.spec_face(f2).vertices@ == old(result).spec_face(
                            f2,
                        ).vertices@);
                        assert(vertex_bounded(old(result).spec_face(f2).vertices@[i]));
                    }
                }
                if forall|f2: Face| (#[trigger] old(result).spec_face(f2)).vertices@.len() % 6
                    == 0 {
                    assert forall|f2: Face| (#[trigger] result.spec_face(f2)).vertices@.len() % 6
                        == 0 by {
                        assert(result.spec_face(f2).vertices@ == old(result).spec_face(
                            f2,
                        ).vertices@);
                        assert(old(result).spec_face(f2).vertices@.len() % 6 == 0);
                    }
                }
            }
        },
        Face::NY => {
            result.ny.fully_opaque = value;
            proof {
                assert forall|f: Face| #[trigger] result.spec_face(f).vertices@ == old(
                    result,
                ).spec_face(f).vertices@ by {
                    match f {
                    Face::Within => {},
                    Face::NX => {},
                    Face::NY => {},
                    Face::NZ => {},
                    Face::PX => {},
                    Face::PY => {},
                    Face::PZ => {},
                }
                }
                assert forall|f: Face|
                    f != Face::NY implies #[trigger] result.spec_face(f) == old(
                    result,
                ).spec_face(f) by {
                    match f {
                    Face::Within => {},
                    Face::NX => {},
                    Face::NY => {},
                    Face::NZ => {},
                    Face::PX => {},
                    Face::PY => {},
                    Face::PZ => {},
                }
                }
                if old(result).bounded() {
                    assert forall|f2: Face, i: int|
                        0 <= i < result.spec_face(f2).vertices@.len() implies vertex_bounded(
                        #[trigger] result.spec_face(f2).vertices@[i],
                    ) by {
                        assert(result.spec_face(f2).vertices@ == old(result).spec_face(
                            f2,
                        ).vertices@);
                        assert(vertex_bounded(old(result).spec_face(f2).vertices@[i]));
                    }
                }
                if forall|f2: Face| (#[trigger] old(result).spec_face(f2)).vertices@.len() % 6
                    == 0 {
                    assert forall|f2: Face| (#[trigger] result.spec_face(f2)).vertices@.len() % 6
                        == 0 by {
                        assert(result.spec_face(f2).vertices@ == old(result).spec_face(
                            f2,
                        ).vertices@);
                        assert(old(result).spec_face(f2).vertices@.len() % 6 == 0);
                    }
                }
            }
        },
        Face::NZ => {
            result.nz.fully_opaque = value;
            proof {
                assert forall|f: Face| #[trigger] result.spec_face(f).vertices@ == old(
                    result,
                ).spec_face(f).vertices@ by {
                    match f {
                    Face::Within => {},
                    Face::NX => {},
                    Face::NY => {},
                    Face::NZ => {},
                    Face::PX => {},
                    Face::PY => {},
                    Face::PZ => {},
                }
                }
                assert forall|f: Face|
                    f != Face::NZ implies #[trigger] result.spec_face(f) == old(
                    result,
                ).spec_face(f) by {
                    match f {
                    Face::Within => {},
                    Face::NX => {},
                    Face::NY => {},
                    Face::NZ => {},
                    Face::PX => {},
                    Face::PY => {},
                    Face::PZ => {},
                }
                }
                if old(result).bounded() {
                    assert forall|f2: Face, i: int|
                        0 <= i < result.spec_face(f2).vertices@.len() implies vertex_bounded(
                        #[trigger] result.spec_face(f2).vertices@[i],
                    ) by {
                        assert(result.spec_face(f2).vertices@ == old(result).spec_face(
                            f2,
                        ).vertices@);
                        assert(vertex_bounded(old(result).spec_face(f2).vertices@[i]));
                    }
                }
                if forall|f2: Face| (#[trigger] old(result).spec_face(f2)).vertices@.len() % 6
                    == 0 {
                    assert forall|f2: Face| (#[trigger] result.spec_face(f2)).vertices@.len() % 6
                        == 0 by {
                        assert(result.spec_face(f2).vertices@ == old(result).spec_face(
                            f2,
                        ).vertices@);
                        assert(old(result).spec_face(f2).vertices@.len() % 6 == 0);
                    }
                }
            }
        },
        Face::PX => {
            result.px.fully_opaque = value;
            proof {
                assert forall|f: Face| #[trigger] result.spec_face(f).vertices@ == old(
                    result,
                ).spec_face(f).vertices@ by {
                    match f {
                    Face::Within => {},
                    Face::NX => {},
                    Face::NY => {},
                    Face::NZ => {},
                    Face::PX => {},
                    Face::PY => {},
                    Face::PZ => {},
                }
                }
                assert forall|f: Face|
                    f != Face::PX implies #[trigger] result.spec_face(f) == old(
                    result,
                ).spec_face(f) by {
                    match f {
                    Face::Within => {},
                    Face::NX => {},
                    Face::NY => {},
                    Face::NZ => {},
                    Face::PX => {},
                    Face::PY => {},
                    Face::PZ => {},
                }
                }
                if old(result).bounded() {
                    assert forall|f2: Face, i: int|
                        0 <= i < result.spec_face(f2).vertices@.len() implies vertex_bounded(
                        #[trigger] result.spec_face(f2).vertices@[i],
                    ) by {
                        assert(result.spec_face(f2).vertices@ == old(result).spec_face(
                            f2,
                        ).vertices@);
                        assert(vertex_bounded(old(result).spec_face(f2).vertices@[i]));
                    }
                }
                if forall|f2: Face| (#[trigger] old(result).spec_face(f2)).vertices@.len() % 6
                    == 0 {
                    assert forall|f2: Face| (#[trigger] result.spec_face(f2)).vertices@.len() % 6
                        == 0 by {
                        assert(result.spec_face(f2).vertices@ == old(result).spec_face(
                            f2,
                        ).vertices@);
                        assert(old(result).spec_face(f2).vertices@.len() % 6 == 0);
                    }
                }
            }
        },
        Face::PY => {
            result.py.fully_opaque = value;
            proof {
                assert forall|f: Face| #[trigger] result.spec_face(f).vertices@ == old(
                    result,
                ).spec_face(f).vertices@ by {
                    match f {
                    Face::Within => {},
                    Face::NX => {},
                    Face::NY => {},
                    Face::NZ => {},
                    Face::PX => {},
                    Face::PY => {},
                    Face::PZ => {},
                }
                }
                assert forall|f: Face|
                    f != Face::PY implies #[trigger] result.spec_face(f) == old(
                    result,
                ).spec_face(f) by {
                    match f {
                    Face::Within => {},
                    Face::NX => {},
                    Face::NY => {},
                    Face::NZ => {},
                    Face::PX => {},
                    Face::PY => {},
                    Face::PZ => {},
                }
                }
                if old(result).bounded() {
                    assert forall|f2: Face, i: int|
                        0 <= i < result.spec_face(f2).vertices@.len() implies vertex_bounded(
                        #[trigger] result.spec_face(f2).vertices@[i],
                    ) by {
                        assert(result.spec_face(f2).vertices@ == old(result).spec_face(
                            f2,
                        ).vertices@);
                        assert(vertex_bounded(old(result).spec_face(f2).vertices@[i]));
                    }
                }
                if forall|f2: Face| (#[trigger] old(result).spec_face(f2)).vertices@.len() % 6
                    == 0 {
                    assert forall|f2: Face| (#[trigger] result.spec_face(f2)).vertices@.len() % 6
                        == 0 by {
                        assert(result.spec_face(f2).vertices@ == old(result).spec_face(
                            f2,
                        ).vertices@);
                        assert(old(result).spec_face(f2).vertices@.len() % 6 == 0);
                    }
                }
            }
        },
        Face::PZ => {
            result.pz.fully_opaque = value;
            proof {
                assert forall|f: Face| #[trigger] result.spec_face(f).vertices@ == old(
                    result,
                ).spec_face(f).vertices@ by {
                    match f {
                    Face::Within => {},
                    Face::NX => {},
                    Face::NY => {},
                    Face::NZ => {},
                    Face::PX => {},
                    Face::PY => {},
                    Face::PZ => {},
                }
                }
                assert forall|f: Face|
                    f != Face::PZ implies #[trigger] result.spec_face(f) == old(
                    result,
                ).spec_face(f) by {
                    match f {
                    Face::Within => {},
                    Face::NX => {},
                    Face::NY => {},
                    Face::NZ => {},
                    Face::PX => {},
                    Face::PY => {},
                    Face::PZ => {},
                }
                }
                if old(result).bounded() {
                    assert forall|f2: Face, i: int|
                        0 <= i < result.spec_face(f2).vertices@.len() implies vertex_bounded(
                        #[trigger] result.spec_face(f2).vertices@[i],
                    ) by {
                        assert(result.spec_face(f2).vertices@ == old(result).spec_face(
                            f2,
                        ).vertices@);
                        assert(vertex_bounded(old(result).spec_face(f2).vertices@[i]));
                    }
                }
                if forall|f2: Face| (#[trigger] old(result).spec_face(f2)).vertices@.len() % 6
                    == 0 {
                    assert forall|f2: Face| (#[trigger] result.spec_face(f2)).vertices@.len() % 6
                        == 0 by {
                        assert(result.spec_face(f2).vertices@ == old(result).spec_face(
                            f2,
                        ).vertices@);
                        assert(old(result).spec_face(f2).vertices@.len() % 6 == 0);
                    }
                }
            }
        },
    }
}

/// Append vertices to the `within` bucket.
#[verifier::loop_isolation(false)]
#[verifier::rlimit(100)]
fn append_face_within<T>(result: &mut BlockTriangulation<T>, verts: &Vec<BlockVertex>)
    requires
        verts@.len() % 6 == 0,
        forall|i: int| 0 <= i < verts@.len() ==> vertex_bounded(#[trigger] verts@[i]),
        old(result).bounded(),
        forall|f: Face| (#[trigger] old(result).spec_face(f)).vertices@.len() % 6 == 0,
    ensures
        final(result).bounded(),
        forall|f: Face| (#[trigger] final(result).spec_face(f)).vertices@.len() % 6 == 0,
        final(result).spec_face(Face::Within).vertices@ == old(result).spec_face(
            Face::Within,
        ).vertices@ + verts@,
        forall|f: Face|
            f != Face::Within ==> #[trigger] final(result).spec_face(f) == old(result).spec_face(f),
        forall|f: Face|
            (#[trigger] final(result).spec_face(f)).fully_opaque == old(result).spec_face(
                f,
            ).fully_opaque,
        final(result).textures_used == old(result).textures_used,
{
    let nv = verts.len();
    let mut vi: usize = 0;
    while vi < nv
        invariant
            0 <= vi <= nv,
            nv == verts@.len(),
            result.within.vertices@ == old(result).within.vertices@ + verts@.take(vi as int),
            result.within.fully_opaque == old(result).within.fully_opaque,
            *result == (BlockTriangulation { within: result.within, ..*old(result) }),
        decreases nv - vi,
    {
        let v = verts[vi];
        result.within.vertices.push(v);
        proof {
            assert(verts@.take(vi as int).push(verts@[vi as int]) =~= verts@.take(vi as int + 1));
        }
        vi = vi + 1;
    }
    proof {
        assert(verts@.take(nv as int) =~= verts@);
        assert forall|f: Face|
            f != Face::Within implies #[trigger] result.spec_face(f) == old(result).spec_face(f) by {
            match f {
                    Face::Within => {},
                    Face::NX => {},
                    Face::NY => {},
                    Face::NZ => {},
                    Face::PX => {},
                    Face::PY => {},
                    Face::PZ => {},
                }
        }
        assert(result.spec_face(Face::Within).vertices@ == old(result).spec_face(Face::Within).vertices@
            + verts@);
        assert forall|f: Face| (#[trigger] result.spec_face(f)).vertices@.len() % 6 == 0 by {
            if f == Face::Within {
                assert(result.spec_face(f).vertices@.len() == old(result).spec_face(
                    f,
                ).vertices@.len() + verts@.len());
            } else {
                assert(result.spec_face(f) == old(result).spec_face(f));
                assert(old(result).spec_face(f).vertices@.len() % 6 == 0);
            }
        }
        assert forall|f: Face, i: int|
            0 <= i < result.spec_face(f).vertices@.len() implies vertex_bounded(
            #[trigger] result.spec_face(f).vertices@[i],
        ) by {
            if f == Face::Within {
                if i < old(result).spec_face(f).vertices@.len() {
                    assert(result.spec_face(f).vertices@[i] == old(result).spec_face(
                        f,
                    ).vertices@[i]);
                    assert(vertex_bounded(old(result).spec_face(f).vertices@[i]));
                } else {
                    assert(result.spec_face(f).vertices@[i] == verts@[i - old(result).spec_face(
                        f,
                    ).vertices@.len()]);
                }
            } else {
                assert(result.spec_face(f) == old(result).spec_face(f));
                assert(vertex_bounded(old(result).spec_face(f).vertices@[i]));
            }
        }
    }
}

/// Append vertices to the `nx` bucket.
#[verifier::loop_isolation(false)]
#[verifier::rlimit(100)]
fn append_face_nx<T>(result: &mut BlockTriangulation<T>, verts: &Vec<BlockVertex>)
    requires
        verts@.len() % 6 == 0,
        forall|i: int| 0 <= i < verts@.len() ==> vertex_bounded(#[trigger] verts@[i]),
        old(result).bounded(),
        forall|f: Face| (#[trigger] old(result).spec_face(f)).vertices@.len() % 6 == 0,
    ensures
        final(result).bounded(),
        forall|f: Face| (#[trigger] final(result).spec_face(f)).vertices@.len() % 6 == 0,
        final(result).spec_face(Face::NX).vertices@ == old(result).spec_face(
            Face::NX,
        ).vertices@ + verts@,
        forall|f: Face|
            f != Face::NX ==> #[trigger] final(result).spec_face(f) == old(result).spec_face(f),
        forall|f: Face|
            (#[trigger] final(result).spec_face(f)).fully_opaque == old(result).spec_face(
                f,
            ).fully_opaque,
        final(result).textures_used == old(result).textures_used,
{
    let nv = verts.len();
    let mut vi: usize = 0;
    while vi < nv
        invariant
            0 <= vi <= nv,
            nv == verts@.len(),
            result.nx.vertices@ == old(result).nx.vertices@ + verts@.take(vi as int),
            result.nx.fully_opaque == old(result).nx.fully_opaque,
            *result == (BlockTriangulation { nx: result.nx, ..*old(result) }),
        decreases nv - vi,
    {
        let v = verts[vi];
        result.nx.vertices.push(v);
        proof {
            assert(verts@.take(vi as int).push(verts@[vi as int]) =~= verts@.take(vi as int + 1));
        }
        vi = vi + 1;
    }
    proof {
        assert(verts@.take(nv as int) =~= verts@);
        assert forall|f: Face|
            f != Face::NX implies #[trigger] result.spec_face(f) == old(result).spec_face(f) by {
            match f {
                    Face::Within => {},
                    Face::NX => {},
                    Face::NY => {},
                    Face::NZ => {},
                    Face::PX => {},
                    Face::PY => {},
                    Face::PZ => {},
                }
        }
        assert(result.spec_face(Face::NX).vertices@ == old(result).spec_face(Face::NX).vertices@
            + verts@);
        assert forall|f: Face| (#[trigger] result.spec_face(f)).vertices@.len() % 6 == 0 by {
            if f == Face::NX {
                assert(result.spec_face(f).vertices@.len() == old(result).spec_face(
                    f,
                ).vertices@.len() + verts@.len());
            } else {
                assert(result.spec_face(f) == old(result).spec_face(f));
                assert(old(result).spec_face(f).vertices@.len() % 6 == 0);
            }
        }
        assert forall|f: Face, i: int|
            0 <= i < result.spec_face(f).vertices@.len() implies vertex_bounded(
            #[trigger] result.spec_face(f).vertices@[i],
        ) by {
            if f == Face::NX {
                if i < old(result).spec_face(f).vertices@.len() {
                    assert(result.spec_face(f).vertices@[i] == old(result).spec_face(
                        f,
                    ).vertices@[i]);
                    assert(vertex_bounded(old(result).spec_face(f).vertices@[i]));
                } else {
                    assert(result.spec_face(f).vertices@[i] == verts@[i - old(result).spec_face(
                        f,
                    ).vertices@.len()]);
                }
            } else {
                assert(result.spec_face(f) == old(result).spec_face(f));
                assert(vertex_bounded(old(result).spec_face(f).vertices@[i]));
            }
        }
    }
}

/// Append vertices to the `ny` bucket.
#[verifier::loop_isolation(false)]
#[verifier::rlimit(100)]
fn append_face_ny<T>(result: &mut BlockTriangulation<T>, verts: &Vec<BlockVertex>)
    requires
        verts@.len() % 6 == 0,
        forall|i: int| 0 <= i < verts@.len() ==> vertex_bounded(#[trigger] verts@[i]),
        old(result).bounded(),
        forall|f: Face| (#[trigger] old(result).spec_face(f)).vertices@.len() % 6 == 0,
    ensures
        final(result).bounded(),
        forall|f: Face| (#[trigger] final(result).spec_face(f)).vertices@.len() % 6 == 0,
        final(result).spec_face(Face::NY).vertices@ == old(result).spec_face(
            Face::NY,
        ).vertices@ + verts@,
        forall|f: Face|
            f != Face::NY ==> #[trigger] final(result).spec_face(f) == old(result).spec_face(f),
        forall|f: Face|
            (#[trigger] final(result).spec_face(f)).fully_opaque == old(result).spec_face(
                f,
            ).fully_opaque,
        final(result).textures_used == old(result).textures_used,
{
    let nv = verts.len();
    let mut vi: usize = 0;
    while vi < nv
        invariant
            0 <= vi <= nv,
            nv == verts@.len(),
            result.ny.vertices@ == old(result).ny.vertices@ + verts@.take(vi as int),
            result.ny.fully_opaque == old(result).ny.fully_opaque,
            *result == (BlockTriangulation { ny: result.ny, ..*old(result) }),
        decreases nv - vi,
    {
        let v = verts[vi];
        result.ny.vertices.push(v);
        proof {
            assert(verts@.take(vi as int).push(verts@[vi as int]) =~= verts@.take(vi as int + 1));
        }
        vi = vi + 1;
    }
    proof {
        assert(verts@.take(nv as int) =~= verts@);
        assert forall|f: Face|
            f != Face::NY implies #[trigger] result.spec_face(f) == old(result).spec_face(f) by {
            match f {
                    Face::Within => {},
                    Face::NX => {},
                    Face::NY => {},
                    Face::NZ => {},
                    Face::PX => {},
                    Face::PY => {},
                    Face::PZ => {},
                }
        }
        assert(result.spec_face(Face::NY).vertices@ == old(result).spec_face(Face::NY).vertices@
            + verts@);
        assert forall|f: Face| (#[trigger] result.spec_face(f)).vertices@.len() % 6 == 0 by {
            if f == Face::NY {
                assert(result.spec_face(f).vertices@.len() == old(result).spec_face(
                    f,
                ).vertices@.len() + verts@.len());
            } else {
                assert(result.spec_face(f) == old(result).spec_face(f));
                assert(old(result).spec_face(f).vertices@.len() % 6 == 0);
            }
        }
        assert forall|f: Face, i: int|
            0 <= i < result.spec_face(f).vertices@.len() implies vertex_bounded(
            #[trigger] result.spec_face(f).vertices@[i],
        ) by {
            if f == Face::NY {
                if i < old(result).spec_face(f).vertices@.len() {
                    assert(result.spec_face(f).vertices@[i] == old(result).spec_face(
                        f,
                    ).vertices@[i]);
                    assert(vertex_bounded(old(result).spec_face(f).vertices@[i]));
                } else {
                    assert(result.spec_face(f).vertices@[i] == verts@[i - old(result).spec_face(
                        f,
                    ).vertices@.len()]);
                }
            } else {
                assert(result.spec_face(f) == old(result).spec_face(f));
                assert(vertex_bounded(old(result).spec_face(f).vertices@[i]));
            }
        }
    }
}

/// Append vertices to the `nz` bucket.
#[verifier::loop_isolation(false)]
#[verifier::rlimit(100)]
fn append_face_nz<T>(result: &mut BlockTriangulation<T>, verts: &Vec<BlockVertex>)
    requires
        verts@.len() % 6 == 0,
        forall|i: int| 0 <= i < verts@.len() ==> vertex_bounded(#[trigger] verts@[i]),
        old(result).bounded(),
        forall|f: Face| (#[trigger] old(result).spec_face(f)).vertices@.len() % 6 == 0,
    ensures
        final(result).bounded(),
        forall|f: Face| (#[trigger] final(result).spec_face(f)).vertices@.len() % 6 == 0,
        final(result).spec_face(Face::NZ).vertices@ == old(result).spec_face(
            Face::NZ,
        ).vertices@ + verts@,
        forall|f: Face|
            f != Face::NZ ==> #[trigger] final(result).spec_face(f) == old(result).spec_face(f),
        forall|f: Face|
            (#[trigger] final(result).spec_face(f)).fully_opaque == old(result).spec_face(
                f,
            ).fully_opaque,
        final(result).textures_used == old(result).textures_used,
{
    let nv = verts.len();
    let mut vi: usize = 0;
    while vi < nv
        invariant
            0 <= vi <= nv,
            nv == verts@.len(),
            result.nz.vertices@ == old(result).nz.vertices@ + verts@.take(vi as int),
            result.nz.fully_opaque == old(result).nz.fully_opaque,
            *result == (BlockTriangulation { nz: result.nz, ..*old(result) }),
        decreases nv - vi,
    {
        let v = verts[vi];
        result.nz.vertices.push(v);
        proof {
            assert(verts@.take(vi as int).push(verts@[vi as int]) =~= verts@.take(vi as int + 1));
        }
        vi = vi + 1;
    }
    proof {
        assert(verts@.take(nv as int) =~= verts@);
        assert forall|f: Face|
            f != Face::NZ implies #[trigger] result.spec_face(f) == old(result).spec_face(f) by {
            match f {
                    Face::Within => {},
                    Face::NX => {},
                    Face::NY => {},
                    Face::NZ => {},
                    Face::PX => {},
                    Face::PY => {},
                    Face::PZ => {},
                }
        }
        assert(result.spec_face(Face::NZ).vertices@ == old(result).spec_face(Face::NZ).vertices@
            + verts@);
        assert forall|f: Face| (#[trigger] result.spec_face(f)).vertices@.len() % 6 == 0 by {
            if f == Face::NZ {
                assert(result.spec_face(f).vertices@.len() == old(result).spec_face(
                    f,
                ).vertices@.len() + verts@.len());
            } else {
                assert(result.spec_face(f) == old(result).spec_face(f));
                assert(old(result).spec_face(f).vertices@.len() % 6 == 0);
            }
        }
        assert forall|f: Face, i: int|
            0 <= i < result.spec_face(f).vertices@.len() implies vertex_bounded(
            #[trigger] result.spec_face(f).vertices@[i],
        ) by {
            if f == Face::NZ {
                if i < old(result).spec_face(f).vertices@.len() {
                    assert(result.spec_face(f).vertices@[i] == old(result).spec_face(
                        f,
                    ).vertices@[i]);
                    assert(vertex_bounded(old(result).spec_face(f).vertices@[i]));
                } else {
                    assert(result.spec_face(f).vertices@[i] == verts@[i - old(result).spec_face(
                        f,
                    ).vertices@.len()]);
                }
            } else {
                assert(result.spec_face(f) == old(result).spec_face(f));
                assert(vertex_bounded(old(result).spec_face(f).vertices@[i]));
            }
        }
    }
}

/// Append vertices to the `px` bucket.
#[verifier::loop_isolation(false)]
#[verifier::rlimit(100)]
fn append_face_px<T>(result: &mut BlockTriangulation<T>, verts: &Vec<BlockVertex>)
    requires
        verts@.len() % 6 == 0,
        forall|i: int| 0 <= i < verts@.len() ==> vertex_bounded(#[trigger] verts@[i]),
        old(result).bounded(),
        forall|f: Face| (#[trigger] old(result).spec_face(f)).vertices@.len() % 6 == 0,
    ensures
        final(result).bounded(),
        forall|f: Face| (#[trigger] final(result).spec_face(f)).vertices@.len() % 6 == 0,
        final(result).spec_face(Face::PX).vertices@ == old(result).spec_face(
            Face::PX,
        ).vertices@ + verts@,
        forall|f: Face|
            f != Face::PX ==> #[trigger] final(result).spec_face(f) == old(result).spec_face(f),
        forall|f: Face|
            (#[trigger] final(result).spec_face(f)).fully_opaque == old(result).spec_face(
                f,
            ).fully_opaque,
        final(result).textures_used == old(result).textures_used,
{
    let nv = verts.len();
    let mut vi: usize = 0;
    while vi < nv
        invariant
            0 <= vi <= nv,
            nv == verts@.len(),
            result.px.vertices@ == old(result).px.vertices@ + verts@.take(vi as int),
            result.px.fully_opaque == old(result).px.fully_opaque,
            *result == (BlockTriangulation { px: result.px, ..*old(result) }),
        decreases nv - vi,
    {
        let v = verts[vi];
        result.px.vertices.push(v);
        proof {
            assert(verts@.take(vi as int).push(verts@[vi as int]) =~= verts@.take(vi as int + 1));
        }
        vi = vi + 1;
    }
    proof {
        assert(verts@.take(nv as int) =~= verts@);
        assert forall|f: Face|
            f != Face::PX implies #[trigger] result.spec_face(f) == old(result).spec_face(f) by {
            match f {
                    Face::Within => {},
                    Face::NX => {},
                    Face::NY => {},
                    Face::NZ => {},
                    Face::PX => {},
                    Face::PY => {},
                    Face::PZ => {},
                }
        }
        assert(result.spec_face(Face::PX).vertices@ == old(result).spec_face(Face::PX).vertices@
            + verts@);
        assert forall|f: Face| (#[trigger] result.spec_face(f)).vertices@.len() % 6 == 0 by {
            if f == Face::PX {
                assert(result.spec_face(f).vertices@.len() == old(result).spec_face(
                    f,
                ).vertices@.len() + verts@.len());
            } else {
                assert(result.spec_face(f) == old(result).spec_face(f));
                assert(old(result).spec_face(f).vertices@.len() % 6 == 0);
            }
        }
        assert forall|f: Face, i: int|
            0 <= i < result.spec_face(f).vertices@.len() implies vertex_bounded(
            #[trigger] result.spec_face(f).vertices@[i],
        ) by {
            if f == Face::PX {
                if i < old(result).spec_face(f).vertices@.len() {
                    assert(result.spec_face(f).vertices@[i] == old(result).spec_face(
                        f,
                    ).vertices@[i]);
                    assert(vertex_bounded(old(result).spec_face(f).vertices@[i]));
                } else {
                    assert(result.spec_face(f).vertices@[i] == verts@[i - old(result).spec_face(
                        f,
                    ).vertices@.len()]);
                }
            } else {
                assert(result.spec_face(f) == old(result).spec_face(f));
                assert(vertex_bounded(old(result).spec_face(f).vertices@[i]));
            }
        }
    }
}

/// Append vertices to the `py` bucket.
#[verifier::loop_isolation(false)]
#[verifier::rlimit(100)]
fn append_face_py<T>(result: &mut BlockTriangulation<T>, verts: &Vec<BlockVertex>)
    requires
        verts@.len() % 6 == 0,
        forall|i: int| 0 <= i < verts@.len() ==> vertex_bounded(#[trigger] verts@[i]),
        old(result).bounded(),
        forall|f: Face| (#[trigger] old(result).spec_face(f)).vertices@.len() % 6 == 0,
    ensures
        final(result).bounded(),
        forall|f: Face| (#[trigger] final(result).spec_face(f)).vertices@.len() % 6 == 0,
        final(result).spec_face(Face::PY).vertices@ == old(result).spec_face(
            Face::PY,
        ).vertices@ + verts@,
        forall|f: Face|
            f != Face::PY ==> #[trigger] final(result).spec_face(f) == old(result).spec_face(f),
        forall|f: Face|
            (#[trigger] final(result).spec_face(f)).fully_opaque == old(result).spec_face(
                f,
            ).fully_opaque,
        final(result).textures_used == old(result).textures_used,
{
    let nv = verts.len();
    let mut vi: usize = 0;
    while vi < nv
        invariant
            0 <= vi <= nv,
            nv == verts@.len(),
            result.py.vertices@ == old(result).py.vertices@ + verts@.take(vi as int),
            result.py.fully_opaque == old(result).py.fully_opaque,
            *result == (BlockTriangulation { py: result.py, ..*old(result) }),
        decreases nv - vi,
    {
        let v = verts[vi];
        result.py.vertices.push(v);
        proof {
            assert(verts@.take(vi as int).push(verts@[vi as int]) =~= verts@.take(vi as int + 1));
        }
        vi = vi + 1;
    }
    proof {
        assert(verts@.take(nv as int) =~= verts@);
        assert forall|f: Face|
            f != Face::PY implies #[trigger] result.spec_face(f) == old(result).spec_face(f) by {
            match f {
                    Face::Within => {},
                    Face::NX => {},
                    Face::NY => {},
                    Face::NZ => {},
                    Face::PX => {},
                    Face::PY => {},
                    Face::PZ => {},
                }
        }
        assert(result.spec_face(Face::PY).vertices@ == old(result).spec_face(Face::PY).vertices@
            + verts@);
        assert forall|f: Face| (#[trigger] result.spec_face(f)).vertices@.len() % 6 == 0 by {
            if f == Face::PY {
                assert(result.spec_face(f).vertices@.len() == old(result).spec_face(
                    f,
                ).vertices@.len() + verts@.len());
            } else {
                assert(result.spec_face(f) == old(result).spec_face(f));
                assert(old(result).spec_face(f).vertices@.len() % 6 == 0);
            }
        }
        assert forall|f: Face, i: int|
            0 <= i < result.spec_face(f).vertices@.len() implies vertex_bounded(
            #[trigger] result.spec_face(f).vertices@[i],
        ) by {
            if f == Face::PY {
                if i < old(result).spec_face(f).vertices@.len() {
                    assert(result.spec_face(f).vertices@[i] == old(result).spec_face(
                        f,
                    ).vertices@[i]);
                    assert(vertex_bounded(old(result).spec_face(f).vertices@[i]));
                } else {
                    assert(result.spec_face(f).vertices@[i] == verts@[i - old(result).spec_face(
                        f,
                    ).vertices@.len()]);
                }
            } else {
                assert(result.spec_face(f) == old(result).spec_face(f));
                assert(vertex_bounded(old(result).spec_face(f).vertices@[i]));
            }
        }
    }
}

/// Append vertices to the `pz` bucket.
#[verifier::loop_isolation(false)]
#[verifier::rlimit(100)]
fn append_face_pz<T>(result: &mut BlockTriangulation<T>, verts: &Vec<BlockVertex>)
    requires
        verts@.len() % 6 == 0,
        forall|i: int| 0 <= i < verts@.len() ==> vertex_bounded(#[trigger] verts@[i]),
        old(result).bounded(),
        forall|f: Face| (#[trigger] old(result).spec_face(f)).vertices@.len() % 6 == 0,
    ensures
        final(result).bounded(),
        forall|f: Face| (#[trigger] final(result).spec_face(f)).vertices@.len() % 6 == 0,
        final(result).spec_face(Face::PZ).vertices@ == old(result).spec_face(
            Face::PZ,
        ).vertices@ + verts@,
        forall|f: Face|
            f != Face::PZ ==> #[trigger] final(result).spec_face(f) == old(result).spec_face(f),
        forall|f: Face|
            (#[trigger] final(result).spec_face(f)).fully_opaque == old(result).spec_face(
                f,
            ).fully_opaque,
        final(result).textures_used == old(result).textures_used,
{
    let nv = verts.len();
    let mut vi: usize = 0;
    while vi < nv
        invariant
            0 <= vi <= nv,
            nv == verts@.len(),
            result.pz.vertices@ == old(result).pz.vertices@ + verts@.take(vi as int),
            result.pz.fully_opaque == old(result).pz.fully_opaque,
            *result == (BlockTriangulation { pz: result.pz, ..*old(result) }),
        decreases nv - vi,
    {
        let v = verts[vi];
        result.pz.vertices.push(v);
        proof {
            assert(verts@.take(vi as int).push(verts@[vi as int]) =~= verts@.take(vi as int + 1));
        }
        vi = vi + 1;
    }
    proof {
        assert(verts@.take(nv as int) =~= verts@);
        assert forall|f: Face|
            f != Face::PZ implies #[trigger] result.spec_face(f) == old(result).spec_face(f) by {
            match f {
                    Face::Within => {},
                    Face::NX => {},
                    Face::NY => {},
                    Face::NZ => {},
                    Face::PX => {},
                    Face::PY => {},
                    Face::PZ => {},
                }
        }
        assert(result.spec_face(Face::PZ).vertices@ == old(result).spec_face(Face::PZ).vertices@
            + verts@);
        assert forall|f: Face| (#[trigger] result.spec_face(f)).vertices@.len() % 6 == 0 by {
            if f == Face::PZ {
                assert(result.spec_face(f).vertices@.len() == old(result).spec_face(
                    f,
                ).vertices@.len() + verts@.len());
            } else {
                assert(result.spec_face(f) == old(result).spec_face(f));
                assert(old(result).spec_face(f).vertices@.len() % 6 == 0);
            }
        }
        assert forall|f: Face, i: int|
            0 <= i < result.spec_face(f).vertices@.len() implies vertex_bounded(
            #[trigger] result.spec_face(f).vertices@[i],
        ) by {
            if f == Face::PZ {
                if i < old(result).spec_face(f).vertices@.len() {
                    assert(result.spec_face(f).vertices@[i] == old(result).spec_face(
                        f,
                    ).vertices@[i]);
                    assert(vertex_bounded(old(result).spec_face(f).vertices@[i]));
                } else {
                    assert(result.spec_face(f).vertices@[i] == verts@[i - old(result).spec_face(
                        f,
                    ).vertices@.len()]);
                }
            } else {
                assert(result.spec_face(f) == old(result).spec_face(f));
                assert(vertex_bounded(old(result).spec_face(f).vertices@[i]));
            }
        }
    }
}

/// Append vertices to the stated face of a block triangulation, leaving
/// every other part unchanged.
fn append_face_vertices<T>(
    result: &mut BlockTriangulation<T>,
    face: Face,
    verts: &Vec<BlockVertex>,
)
    requires
        verts@.len() % 6 == 0,
        forall|i: int| 0 <= i < verts@.len() ==> vertex_bounded(#[trigger] verts@[i]),
        old(result).bounded(),
        forall|f: Face| (#[trigger] old(result).spec_face(f)).vertices@.len() % 6 == 0,
    ensures
        final(result).bounded(),
        forall|f: Face| (#[trigger] final(result).spec_face(f)).vertices@.len() % 6 == 0,
        final(result).spec_face(face).vertices@ == old(result).spec_face(face).vertices@
            + verts@,
        forall|f: Face|
            f != face ==> #[trigger] final(result).spec_face(f) == old(result).spec_face(f),
        forall|f: Face|
            (#[trigger] final(result).spec_face(f)).fully_opaque == old(result).spec_face(
                f,
            ).fully_opaque,
        final(result).textures_used == old(result).textures_used,
{
    match face {
        Face::Within => {
            append_face_within(result, verts);
        },
        Face::NX => {
            append_face_nx(result, verts);
        },
        Face::NY => {
            append_face_ny(result, verts);
        },
        Face::NZ => {
            append_face_nz(result, verts);
        },
        Face::PX => {
            append_face_px(result, verts);
        },
        Face::PY => {
            append_face_py(result, verts);
        },
        Face::PZ => {
            append_face_pz(result, verts);
        },
    }
}


/// A block-model vertex placed at `cube` in the space.
pub open spec fn spec_instantiate(v: BlockVertex, cube: GridVector) -> BlockVertex {
    BlockVertex {
        position: FreePoint {
            x: (v.position.x + cube.x * v.position.den) as i64,
            y: (v.position.y + cube.y * v.position.den) as i64,
            z: (v.position.z + cube.z * v.position.den) as i64,
            den: v.position.den,
        },
        face: v.face,
        coloring: v.coloring,
    }
}

/// The face of the block at `cube` is hidden behind the adjacent cube's
/// opposing fully-opaque face.
pub open spec fn spec_face_obscured<T>(
    space: Space,
    bts: Seq<BlockTriangulation<T>>,
    cube: GridVector,
    face: Face,
) -> bool {
    let n = face.spec_normal();
    let adj = GridVector {
        x: (cube.x + n.x) as i32,
        y: (cube.y + n.y) as i32,
        z: (cube.z + n.z) as i32,
    };
    &&& space.bounds.contains_cube(adj)
    &&& (space.contents.at(adj) as int) < bts.len()
    &&& bts[space.contents.at(adj) as int].spec_face(face.spec_opposite()).fully_opaque
}

/// The vertices one face of the block at `cube` contributes to the space
/// mesh: its block-model face vertices, instantiated at the cube, unless
/// the cube is empty of a known block or the face is obscured.
pub open spec fn spec_emitted_face<T>(
    space: Space,
    bts: Seq<BlockTriangulation<T>>,
    cube: GridVector,
    face: Face,
) -> Seq<BlockVertex> {
    if space.bounds.contains_cube(cube) && (space.contents.at(cube) as int) < bts.len()
        && !spec_face_obscured(space, bts, cube, face) {
        bts[space.contents.at(cube) as int].spec_face(face).vertices@.map(
            |k: int, v: BlockVertex| spec_instantiate(v, cube),
        )
    } else {
        Seq::empty()
    }
}

/// The face scanned at position `fi` of the fixed face order.
pub open spec fn spec_face_at(fi: int) -> Face {
    if fi == 0 {
        Face::Within
    } else if fi == 1 {
        Face::NX
    } else if fi == 2 {
        Face::NY
    } else if fi == 3 {
        Face::NZ
    } else if fi == 4 {
        Face::PX
    } else if fi == 5 {
        Face::PY
    } else {
        Face::PZ
    }
}

/// Vertices contributed by the faces from position `fi` on.
pub open spec fn spec_emitted_faces_from<T>(
    space: Space,
    bts: Seq<BlockTriangulation<T>>,
    cube: GridVector,
    fi: int,
) -> Seq<BlockVertex>
    decreases 7 - fi,
{
    if fi < 0 || fi >= 7 {
        Seq::empty()
    } else {
        spec_emitted_face(space, bts, cube, spec_face_at(fi)) + spec_emitted_faces_from(
            space,
            bts,
            cube,
            fi + 1,
        )
    }
}

/// All vertices the block at `cube` contributes, faces in fixed order.
pub open spec fn spec_emitted_cube<T>(
    space: Space,
    bts: Seq<BlockTriangulation<T>>,
    cube: GridVector,
) -> Seq<BlockVertex> {
    spec_emitted_faces_from(space, bts, cube, 0)
}

/// Vertices of the cubes of the row at `(x, y)` from `z` on.
pub open spec fn spec_emitted_z<T>(
    space: Space,
    bts: Seq<BlockTriangulation<T>>,
    bounds: GridAab,
    x: int,
    y: int,
    z: int,
) -> Seq<BlockVertex>
    decreases bounds.lower.z + bounds.size.z - z,
{
    if z < bounds.lower.z || z >= bounds.lower.z + bounds.size.z {
        Seq::empty()
    } else {
        spec_emitted_cube(space, bts, GridVector { x: x as i32, y: y as i32, z: z as i32 })
            + spec_emitted_z(space, bts, bounds, x, y, z + 1)
    }
}

/// Vertices of the plane at `x` from row `y` on.
pub open spec fn spec_emitted_y<T>(
    space: Space,
    bts: Seq<BlockTriangulation<T>>,
    bounds: GridAab,
    x: int,
    y: int,
) -> Seq<BlockVertex>
    decreases bounds.lower.y + bounds.size.y - y,
{
    if y < bounds.lower.y || y >= bounds.lower.y + bounds.size.y {
        Seq::empty()
    } else {
        spec_emitted_z(space, bts, bounds, x, y, bounds.lower.z as int) + spec_emitted_y(
            space,
            bts,
            bounds,
            x,
            y + 1,
        )
    }
}

/// Vertices of the scanned region from plane `x` on.
pub open spec fn spec_emitted_x<T>(
    space: Space,
    bts: Seq<BlockTriangulation<T>>,
    bounds: GridAab,
    x: int,
) -> Seq<BlockVertex>
    decreases bounds.lower.x + bounds.size.x - x,
{
    if x < bounds.lower.x || x >= bounds.lower.x + bounds.size.x {
        Seq::empty()
    } else {
        spec_emitted_y(space, bts, bounds, x, bounds.lower.y as int) + spec_emitted_x(
            space,
            bts,
            bounds,
            x + 1,
        )
    }
}

/// The whole space mesh of the scanned region: every cube's block faces,
/// instantiated at their cubes, except faces hidden behind a neighboring
/// fully-opaque face; cubes in x-major order, faces in fixed order, and
/// nothing else.
pub open spec fn spec_space_mesh<T>(
    space: Space,
    bts: Seq<BlockTriangulation<T>>,
    bounds: GridAab,
) -> Seq<BlockVertex> {
    spec_emitted_x(space, bts, bounds, bounds.lower.x as int)
}

/// Triangle mesh for (a part of) a space, with the transparent triangles
/// listed separately so their draw order can follow the view point.
#[derive(Debug)]
pub struct SpaceTriangulation {
    pub vertices: Vec<BlockVertex>,
    /// Start indices (multiples of 3) of transparent triangles.
    pub transparent_triangles: Vec<usize>,
}

impl SpaceTriangulation {
    pub open spec fn wf(self) -> bool {
        &&& forall|i: int|
            0 <= i < self.vertices@.len() ==> vertex_bounded_space(#[trigger] self.vertices@[i])
        &&& forall|k: int|
            0 <= k < self.transparent_triangles@.len() ==> (
            #[trigger] self.transparent_triangles@[k]) + 3 <= self.vertices@.len()
    }

    /// Construct an empty triangulation which draws nothing.
    pub fn new() -> (r: SpaceTriangulation)
        ensures
            r.wf(),
            r.vertices@.len() == 0,
            r.transparent_triangles@.len() == 0,
    {
        SpaceTriangulation { vertices: Vec::new(), transparent_triangles: Vec::new() }
    }

    pub fn vertices(&self) -> (r: &Vec<BlockVertex>)
        ensures
            *r == self.vertices,
    {
        &self.vertices
    }

    /// Shorthand for `new()` followed by `compute`.
    pub fn triangulate<T>(
        space: &Space,
        bounds: GridAab,
        block_triangulations: &Vec<BlockTriangulation<T>>,
    ) -> (r: SpaceTriangulation)
        requires
            space.wf(),
            bounds.wf(),
            -0x100000 <= bounds.lower.x && bounds.lower.x + bounds.size.x <= 0x100000,
            -0x100000 <= bounds.lower.y && bounds.lower.y + bounds.size.y <= 0x100000,
            -0x100000 <= bounds.lower.z && bounds.lower.z + bounds.size.z <= 0x100000,
            forall|i: int|
                0 <= i < block_triangulations@.len() ==> (#[trigger] block_triangulations@[i]).bounded(),
            forall|i: int, f: Face|
                0 <= i < block_triangulations@.len() ==> (#[trigger] block_triangulations@[i].spec_face(
                    f,
                )).vertices@.len() % 6 == 0,
        ensures
            r.wf(),
            r.vertices@ == spec_space_mesh(*space, block_triangulations@, bounds),
    {
        let mut this = SpaceTriangulation::new();
        let mut seen: Vec<bool> = Vec::new();
        this.compute(space, bounds, block_triangulations, &mut seen);
        this
    }

    /// Computes triangles for the contents of `space` within `bounds`.
    ///
    /// The result is pinned exactly by [`spec_space_mesh`]: every cube's
    /// block contributes its face vertices instantiated at the cube,
    /// except faces hidden behind an adjacent cube's opposing
    /// fully-opaque face — and nothing else.  `seen` records block
    /// dependencies: marks only accumulate, and afterwards every index a
    /// scanned cube holds is marked.
    #[verifier::loop_isolation(false)]
    #[verifier::rlimit(100)]
    pub fn compute<T>(
        &mut self,
        space: &Space,
        bounds: GridAab,
        block_triangulations: &Vec<BlockTriangulation<T>>,
        seen: &mut Vec<bool>,
    )
        requires
            space.wf(),
            bounds.wf(),
            -0x100000 <= bounds.lower.x && bounds.lower.x + bounds.size.x <= 0x100000,
            -0x100000 <= bounds.lower.y && bounds.lower.y + bounds.size.y <= 0x100000,
            -0x100000 <= bounds.lower.z && bounds.lower.z + bounds.size.z <= 0x100000,
            forall|i: int|
                0 <= i < block_triangulations@.len() ==> (#[trigger] block_triangulations@[i]).bounded(),
            forall|i: int, f: Face|
                0 <= i < block_triangulations@.len() ==> (#[trigger] block_triangulations@[i].spec_face(
                    f,
                )).vertices@.len() % 6 == 0,
        ensures
            final(self).wf(),
            final(self).vertices@ == spec_space_mesh(*space, block_triangulations@, bounds),
            final(seen)@.len() >= old(seen)@.len(),
            forall|k: int|
                0 <= k < old(seen)@.len() ==> (old(seen)@[k] ==> #[trigger] final(seen)@[k]),
            forall|c: GridVector|
                bounds.contains_cube(c) && space.bounds.contains_cube(c) ==> (
                #[trigger] space.contents.at(c)) < final(seen)@.len() && final(seen)@[
                    space.contents.at(c) as int
                ],
    {
        self.vertices = Vec::new();
        self.transparent_triangles = Vec::new();
        let lower = bounds.lower_bounds();
        let upper = bounds.upper_bounds();
        let ghost seen0 = seen@;
        let ghost bts = block_triangulations@;
        let ghost total = spec_space_mesh(*space, bts, bounds);
        let mut x = lower.x;
        while x < upper.x
            invariant
                lower.x <= x <= upper.x,
                self.wf(),
                self.vertices@ + spec_emitted_x(*space, bts, bounds, x as int) == total,
                seen@.len() >= seen0.len(),
                forall|k: int| 0 <= k < seen0.len() ==> (seen0[k] ==> #[trigger] seen@[k]),
                forall|c: GridVector|
                    bounds.contains_cube(c) && space.bounds.contains_cube(c) && c.x < x ==> (
                    #[trigger] space.contents.at(c)) < seen@.len() && seen@[
                        space.contents.at(c) as int
                    ],
            decreases upper.x - x,
        {
            let mut y = lower.y;
            while y < upper.y
                invariant
                    lower.x <= x < upper.x,
                    lower.y <= y <= upper.y,
                    self.wf(),
                    self.vertices@ + spec_emitted_y(*space, bts, bounds, x as int, y as int)
                        + spec_emitted_x(*space, bts, bounds, x as int + 1) == total,
                    seen@.len() >= seen0.len(),
                    forall|k: int| 0 <= k < seen0.len() ==> (seen0[k] ==> #[trigger] seen@[k]),
                    forall|c: GridVector|
                        bounds.contains_cube(c) && space.bounds.contains_cube(c) && (c.x < x || (
                        c.x == x && c.y < y)) ==> (#[trigger] space.contents.at(c)) < seen@.len()
                            && seen@[space.contents.at(c) as int],
                decreases upper.y - y,
            {
                let mut z = lower.z;
                while z < upper.z
                    invariant
                        lower.x <= x < upper.x,
                        lower.y <= y < upper.y,
                        lower.z <= z <= upper.z,
                        self.wf(),
                        self.vertices@ + spec_emitted_z(
                            *space,
                            bts,
                            bounds,
                            x as int,
                            y as int,
                            z as int,
                        ) + spec_emitted_y(*space, bts, bounds, x as int, y as int + 1)
                            + spec_emitted_x(*space, bts, bounds, x as int + 1) == total,
                        seen@.len() >= seen0.len(),
                        forall|k: int| 0 <= k < seen0.len() ==> (seen0[k] ==> #[trigger] seen@[k]),
                        forall|c: GridVector|
                            bounds.contains_cube(c) && space.bounds.contains_cube(c) && (c.x < x
                                || (c.x == x && (c.y < y || (c.y == y && c.z < z)))) ==> (
                            #[trigger] space.contents.at(c)) < seen@.len() && seen@[
                                space.contents.at(c) as int
                            ],
                    decreases upper.z - z,
                {
                    let cube = GridVector { x, y, z };
                    let ghost verts_before = self.vertices@;
                    let ghost seen_before = seen@;
                    emit_cube(self, space, block_triangulations, cube, seen);
                    proof {
                        assert(self.vertices@ == verts_before + spec_emitted_cube(
                            *space,
                            bts,
                            cube,
                        ));
                        assert(spec_emitted_z(*space, bts, bounds, x as int, y as int, z as int)
                            == spec_emitted_cube(*space, bts, cube) + spec_emitted_z(
                            *space,
                            bts,
                            bounds,
                            x as int,
                            y as int,
                            z as int + 1,
                        ));
                        assert((verts_before + spec_emitted_cube(*space, bts, cube))
                            + spec_emitted_z(*space, bts, bounds, x as int, y as int, z as int + 1)
                            =~= verts_before + (spec_emitted_cube(*space, bts, cube)
                            + spec_emitted_z(
                            *space,
                            bts,
                            bounds,
                            x as int,
                            y as int,
                            z as int + 1,
                        )));
                    }
                    z = z + 1;
                }
                proof {
                    assert(spec_emitted_z(*space, bts, bounds, x as int, y as int, upper.z as int)
                        =~= Seq::<BlockVertex>::empty());
                    assert(self.vertices@ + Seq::<BlockVertex>::empty() =~= self.vertices@);
                    assert(spec_emitted_y(*space, bts, bounds, x as int, y as int)
                        == spec_emitted_z(*space, bts, bounds, x as int, y as int, lower.z as int)
                        + spec_emitted_y(*space, bts, bounds, x as int, y as int + 1));
                }
                y = y + 1;
            }
            proof {
                assert(spec_emitted_y(*space, bts, bounds, x as int, upper.y as int) =~= Seq::<
                    BlockVertex,
                >::empty());
                assert(spec_emitted_x(*space, bts, bounds, x as int) == spec_emitted_y(
                    *space,
                    bts,
                    bounds,
                    x as int,
                    lower.y as int,
                ) + spec_emitted_x(*space, bts, bounds, x as int + 1));
            }
            x = x + 1;
        }
        proof {
            assert(spec_emitted_x(*space, bts, bounds, upper.x as int) =~= Seq::<
                BlockVertex,
            >::empty());
            assert(self.vertices@ + Seq::<BlockVertex>::empty() =~= self.vertices@);
        }
    }

    /// Sort the transparent triangles far-to-near from the view point and
    /// report whether there is any transparent geometry at all.
    ///
    /// Afterwards the recorded triangles are exactly the ones recorded
    /// before (same count, same members), ordered by non-increasing exact
    /// squared distance of their first vertices from the view point.
    #[verifier::loop_isolation(false)]
    #[verifier::rlimit(100)]
    pub fn depth_sort_for_view(&mut self, view_position: GridVector) -> (r: bool)
        requires
            old(self).wf(),
            -0x100000 <= view_position.x <= 0x100000,
            -0x100000 <= view_position.y <= 0x100000,
            -0x100000 <= view_position.z <= 0x100000,
        ensures
            final(self).wf(),
            final(self).vertices == old(self).vertices,
            final(self).transparent_triangles@.len() == old(self).transparent_triangles@.len(),
            forall|v: usize|
                #![trigger final(self).transparent_triangles@.contains(v)]
                final(self).transparent_triangles@.contains(v) <==> old(self).transparent_triangles@.contains(v),
            forall|k1: int, k2: int|
                0 <= k1 <= k2 < final(self).transparent_triangles@.len()
                    ==> spec_at_least_as_far(
                    final(self).vertices@,
                    (#[trigger] final(self).transparent_triangles@[k1]) as int,
                    (#[trigger] final(self).transparent_triangles@[k2]) as int,
                    view_position,
                ),
            r == (old(self).transparent_triangles@.len() > 0),
    {
        let n = self.transparent_triangles.len();
        let ghost tt0 = self.transparent_triangles@;
        let ghost verts = self.vertices@;
        // Insertion sort by descending distance from the view point.
        let mut i: usize = 1;
        while i < n
            invariant
                1 <= i <= n || (n == 0 && i == 1),
                self.transparent_triangles@.len() == n,
                self.vertices == old(self).vertices,
                self.wf(),
                forall|v: usize|
                    #![trigger self.transparent_triangles@.contains(v)]
                    self.transparent_triangles@.contains(v) <==> tt0.contains(v),
                forall|k1: int, k2: int|
                    0 <= k1 <= k2 < i ==> spec_at_least_as_far(
                        verts,
                        (#[trigger] self.transparent_triangles@[k1]) as int,
                        (#[trigger] self.transparent_triangles@[k2]) as int,
                        view_position,
                    ),
            decreases n - i,
        {
            let mut j = i;
            while j > 0 && triangle_farther(
                &self.vertices,
                self.transparent_triangles[j],
                self.transparent_triangles[j - 1],
                view_position,
            )
                invariant
                    0 <= j <= i < n,
                    self.transparent_triangles@.len() == n,
                    self.vertices == old(self).vertices,
                    self.wf(),
                    forall|v: usize|
                        #![trigger self.transparent_triangles@.contains(v)]
                        self.transparent_triangles@.contains(v) <==> tt0.contains(v),
                    forall|k1: int, k2: int|
                        0 <= k1 < k2 <= i && k1 != j && k2 != j ==> spec_at_least_as_far(
                            verts,
                            (#[trigger] self.transparent_triangles@[k1]) as int,
                            (#[trigger] self.transparent_triangles@[k2]) as int,
                            view_position,
                        ),
                    forall|k: int|
                        j < k <= i ==> spec_at_least_as_far(
                            verts,
                            self.transparent_triangles@[j as int] as int,
                            (#[trigger] self.transparent_triangles@[k]) as int,
                            view_position,
                        ),
                decreases j,
            {
                let ghost tt_pre = self.transparent_triangles@;
                let a = self.transparent_triangles[j - 1];
                let b = self.transparent_triangles[j];
                let slot_a = &mut self.transparent_triangles[j - 1];
                *slot_a = b;
                let slot_b = &mut self.transparent_triangles[j];
                *slot_b = a;
                proof {
                    let tt_now = self.transparent_triangles@;
                    assert(tt_now =~= tt_pre.update(j - 1, b).update(j as int, a));
                    assert forall|v: usize|
                        #![trigger tt_now.contains(v)]
                        tt_now.contains(v) <==> tt_pre.contains(v) by {
                        if tt_now.contains(v) {
                            let k = choose|k: int| 0 <= k < tt_now.len() && tt_now[k] == v;
                            if k == j - 1 {
                                assert(tt_pre[j as int] == v);
                            } else if k == j {
                                assert(tt_pre[j - 1] == v);
                            } else {
                                assert(tt_pre[k] == v);
                            }
                        }
                        if tt_pre.contains(v) {
                            let k = choose|k: int| 0 <= k < tt_pre.len() && tt_pre[k] == v;
                            if k == j - 1 {
                                assert(tt_now[j as int] == v);
                            } else if k == j {
                                assert(tt_now[j - 1] == v);
                            } else {
                                assert(tt_now[k] == v);
                            }
                        }
                    }
                }
                j = j - 1;
            }
            proof {
                // On exit the first i + 1 entries are sorted: either the
                // sifted element reached the front, or it is at least as
                // near as its predecessor, and farness is transitive.
                let tt = self.transparent_triangles@;
                assert forall|k1: int, k2: int|
                    0 <= k1 <= k2 < i + 1 implies spec_at_least_as_far(
                    verts,
                    (#[trigger] tt[k1]) as int,
                    (#[trigger] tt[k2]) as int,
                    view_position,
                ) by {
                    assert(vertex_bounded_space(verts[tt[k1] as int]) && vertex_bounded_space(
                        verts[tt[k2] as int],
                    ));
                    if k1 == k2 {
                        assert(spec_tri_key_den(verts, tt[k1] as int) > 0) by (nonlinear_arith)
                            requires
                                verts[tt[k1] as int].position.den >= 1,
                                spec_tri_key_den(verts, tt[k1] as int) == verts[
                                    tt[k1] as int
                                ].position.den * verts[tt[k1] as int].position.den,
                        ;
                    } else if j == 0 {
                        if k1 == 0 {
                        } else {
                        }
                    } else {
                        // Not out of order at the boundary pair.
                        assert(spec_at_least_as_far(
                            verts,
                            tt[j - 1] as int,
                            tt[j as int] as int,
                            view_position,
                        ));
                        if k2 == j && k1 < j - 1 {
                            assert(spec_at_least_as_far(
                                verts,
                                tt[k1] as int,
                                tt[j - 1] as int,
                                view_position,
                            ));
                            assert(spec_tri_key_den(verts, tt[k1] as int) > 0 && spec_tri_key_den(
                                verts,
                                tt[j - 1] as int,
                            ) > 0 && spec_tri_key_den(verts, tt[j as int] as int) > 0)
                                by (nonlinear_arith)
                                requires
                                    verts[tt[k1] as int].position.den >= 1,
                                    verts[tt[j - 1] as int].position.den >= 1,
                                    verts[tt[j as int] as int].position.den >= 1,
                                    spec_tri_key_den(verts, tt[k1] as int) == verts[
                                        tt[k1] as int
                                    ].position.den * verts[tt[k1] as int].position.den,
                                    spec_tri_key_den(verts, tt[j - 1] as int) == verts[
                                        tt[j - 1] as int
                                    ].position.den * verts[tt[j - 1] as int].position.den,
                                    spec_tri_key_den(verts, tt[j as int] as int) == verts[
                                        tt[j as int] as int
                                    ].position.den * verts[tt[j as int] as int].position.den,
                            ;
                            lemma_far_trans(
                                spec_tri_key_num(verts, tt[k1] as int, view_position),
                                spec_tri_key_den(verts, tt[k1] as int),
                                spec_tri_key_num(verts, tt[j - 1] as int, view_position),
                                spec_tri_key_den(verts, tt[j - 1] as int),
                                spec_tri_key_num(verts, tt[j as int] as int, view_position),
                                spec_tri_key_den(verts, tt[j as int] as int),
                            );
                        }
                    }
                }
            }
            i = i + 1;
        }
        n > 0
    }
}

/// When the cube holds no renderable block, no face emits anything.
proof fn lemma_emitted_faces_empty<T>(
    space: Space,
    bts: Seq<BlockTriangulation<T>>,
    cube: GridVector,
    fi: int,
)
    requires
        !(space.bounds.contains_cube(cube) && (space.contents.at(cube) as int) < bts.len()),
    ensures
        spec_emitted_faces_from(space, bts, cube, fi) == Seq::<BlockVertex>::empty(),
    decreases 7 - fi,
{
    if 0 <= fi < 7 {
        lemma_emitted_faces_empty(space, bts, cube, fi + 1);
        assert(spec_emitted_face(space, bts, cube, spec_face_at(fi)) =~= Seq::<
            BlockVertex,
        >::empty());
        assert(spec_emitted_faces_from(space, bts, cube, fi) =~= Seq::<BlockVertex>::empty());
    }
}

/// Append the vertices the block at `cube` contributes to the space mesh,
/// and record the cube's block index in `seen`.
#[verifier::loop_isolation(false)]
#[verifier::rlimit(100)]
fn emit_cube<T>(
    dst: &mut SpaceTriangulation,
    space: &Space,
    block_triangulations: &Vec<BlockTriangulation<T>>,
    cube: GridVector,
    seen: &mut Vec<bool>,
)
    requires
        space.wf(),
        -0x100000 <= cube.x <= 0x100000,
        -0x100000 <= cube.y <= 0x100000,
        -0x100000 <= cube.z <= 0x100000,
        forall|i: int|
            0 <= i < block_triangulations@.len() ==> (#[trigger] block_triangulations@[i]).bounded(),
        forall|i: int, f: Face|
            0 <= i < block_triangulations@.len() ==> (#[trigger] block_triangulations@[i].spec_face(
                f,
            )).vertices@.len() % 6 == 0,
        old(dst).wf(),
    ensures
        final(dst).wf(),
        final(dst).vertices@ == old(dst).vertices@ + spec_emitted_cube(
            *space,
            block_triangulations@,
            cube,
        ),
        final(seen)@.len() >= old(seen)@.len(),
        forall|k: int|
            0 <= k < old(seen)@.len() ==> (old(seen)@[k] ==> #[trigger] final(seen)@[k]),
        space.bounds.contains_cube(cube) ==> (space.contents.at(cube) as int) < final(seen)@.len() && final(seen)@[space.contents.at(cube) as int],
    {
    let ghost bts = block_triangulations@;
    let ghost v0 = dst.vertices@;
    match space.get_block_index(cube) {
        Some(index) => {
            // Record the dependency.
            let ghost seen_in = seen@;
            while seen.len() <= index as usize
                invariant
                    seen@.len() >= seen_in.len(),
                    forall|k: int|
                        0 <= k < seen_in.len() ==> (seen_in[k] ==> #[trigger] seen@[k]),
                decreases index as int + 1 - seen@.len(),
            {
                seen.push(false);
            }
            let marker = &mut seen[index as usize];
            *marker = true;
            if (index as usize) < block_triangulations.len() {
                let bt = &block_triangulations[index as usize];
                let faces = Face::all_seven();
                let mut fi: usize = 0;
                while fi < 7
                    invariant
                        0 <= fi <= 7,
                        dst.wf(),
                        dst.vertices@ + spec_emitted_faces_from(*space, bts, cube, fi as int)
                            == v0 + spec_emitted_cube(*space, bts, cube),
                    decreases 7 - fi,
                {
                    let face = faces[fi];
                    proof {
                        assert(face == spec_face_at(fi as int));
                    }
                    let n = face.normal_vector();
                    let adjacent = GridVector {
                        x: cube.x + n.x,
                        y: cube.y + n.y,
                        z: cube.z + n.z,
                    };
                    let obscured = match space.get_block_index(adjacent) {
                        Some(ai) => {
                            if (ai as usize) < block_triangulations.len() {
                                block_triangulations[ai as usize].face(
                                    face.opposite(),
                                ).fully_opaque
                            } else {
                                false
                            }
                        },
                        None => false,
                    };
                    proof {
                        assert(obscured == spec_face_obscured(*space, bts, cube, face));
                    }
                    let ghost vface = dst.vertices@;
                    if !obscured {
                        let lighting = space.get_lighting(adjacent);
                        let fverts = &bt.face(face).vertices;
                        let nv = fverts.len();
                        proof {
                            assert(fverts@ == bts[index as int].spec_face(face).vertices@);
                        }
                        let mut vi: usize = 0;
                        while vi < nv
                            invariant
                                0 <= vi <= nv,
                                vi % 6 == 0,
                                nv == fverts@.len(),
                                nv % 6 == 0,
                                forall|q: int|
                                    0 <= q < fverts@.len() ==> vertex_bounded(
                                        #[trigger] fverts@[q],
                                    ),
                                dst.wf(),
                                dst.vertices@ == vface + fverts@.take(vi as int).map(
                                    |k: int, v: BlockVertex| spec_instantiate(v, cube),
                                ),
                            decreases nv - vi,
                        {
                            // One quad (six vertices) at a time.
                            let base = dst.vertices.len();
                            let mut transparent = false;
                            let mut q: usize = 0;
                            while q < 6
                                invariant
                                    0 <= q <= 6,
                                    vi + 6 <= nv,
                                    nv == fverts@.len(),
                                    forall|q2: int|
                                        0 <= q2 < fverts@.len() ==> vertex_bounded(
                                            #[trigger] fverts@[q2],
                                        ),
                                    dst.vertices@.len() == base + q,
                                    dst.wf(),
                                    dst.vertices@ == vface + fverts@.take((vi + q) as int).map(
                                        |k: int, v: BlockVertex| spec_instantiate(v, cube),
                                    ),
                                decreases 6 - q,
                            {
                                let v = fverts[vi + q];
                                let inst = v.instantiate(cube, lighting);
                                proof {
                                    assert(inst == spec_instantiate(fverts@[(vi + q) as int], cube));
                                    assert(fverts@.take((vi + q) as int).map(
                                        |k: int, v2: BlockVertex| spec_instantiate(v2, cube),
                                    ).push(inst) =~= fverts@.take((vi + q) as int + 1).map(
                                        |k: int, v2: BlockVertex| spec_instantiate(v2, cube),
                                    ));
                                }
                                match inst.coloring {
                                    Coloring::Solid(col) => {
                                        if col.a < 256 {
                                            transparent = true;
                                        }
                                    },
                                    Coloring::Texture(_) => {},
                                }
                                dst.vertices.push(inst);
                                q = q + 1;
                            }
                            if transparent {
                                let total_now = dst.vertices.len();
                                proof {
                                    assert(total_now == base + 6);
                                }
                                dst.transparent_triangles.push(base);
                                dst.transparent_triangles.push(base + 3);
                            }
                            vi = vi + 6;
                        }
                        proof {
                            assert(fverts@.take(nv as int) =~= fverts@);
                            assert(spec_emitted_face(*space, bts, cube, face) == fverts@.map(
                                |k: int, v2: BlockVertex| spec_instantiate(v2, cube),
                            ));
                            assert((vface + spec_emitted_face(*space, bts, cube, face))
                                + spec_emitted_faces_from(*space, bts, cube, fi as int + 1)
                                =~= vface + (spec_emitted_face(*space, bts, cube, face)
                                + spec_emitted_faces_from(*space, bts, cube, fi as int + 1)));
                        }
                    } else {
                        proof {
                            assert(spec_emitted_face(*space, bts, cube, face) =~= Seq::<
                                BlockVertex,
                            >::empty());
                            assert(vface + Seq::<BlockVertex>::empty() =~= vface);
                        }
                    }
                    fi = fi + 1;
                }
                proof {
                    assert(spec_emitted_faces_from(*space, bts, cube, 7) =~= Seq::<
                        BlockVertex,
                    >::empty());
                    assert(dst.vertices@ + Seq::<BlockVertex>::empty() =~= dst.vertices@);
                }
            } else {
                proof {
                    lemma_emitted_faces_empty(*space, bts, cube, 0);
                    assert(v0 + Seq::<BlockVertex>::empty() =~= v0);
                }
            }
        },
        None => {
            proof {
                lemma_emitted_faces_empty(*space, bts, cube, 0);
                assert(v0 + Seq::<BlockVertex>::empty() =~= v0);
            }
        },
    }
}

/// Numerator of the squared distance of triangle `t`'s first vertex from
/// `view`; the true distance is this over [`spec_tri_key_den`].
pub open spec fn spec_tri_key_num(vertices: Seq<BlockVertex>, t: int, view: GridVector) -> int {
    let p = vertices[t].position;
    let dx = p.x - view.x * p.den;
    let dy = p.y - view.y * p.den;
    let dz = p.z - view.z * p.den;
    dx * dx + dy * dy + dz * dz
}

/// Denominator of triangle `t`'s squared distance.
pub open spec fn spec_tri_key_den(vertices: Seq<BlockVertex>, t: int) -> int {
    vertices[t].position.den * vertices[t].position.den
}

/// Triangle `a` is at least as far from `view` as triangle `b`, comparing
/// the exact rational squared distances.
pub open spec fn spec_at_least_as_far(
    vertices: Seq<BlockVertex>,
    a: int,
    b: int,
    view: GridVector,
) -> bool {
    spec_tri_key_num(vertices, a, view) * spec_tri_key_den(vertices, b) >= spec_tri_key_num(
        vertices,
        b,
        view,
    ) * spec_tri_key_den(vertices, a)
}

/// Farness is transitive: rational comparison by cross-multiplication
/// with positive denominators.
proof fn lemma_far_trans(n1: int, d1: int, n2: int, d2: int, n3: int, d3: int)
    requires
        d1 > 0,
        d2 > 0,
        d3 > 0,
        n1 * d2 >= n2 * d1,
        n2 * d3 >= n3 * d2,
    ensures
        n1 * d3 >= n3 * d1,
{
    assert(n1 * d3 >= n3 * d1) by (nonlinear_arith)
        requires
            d1 > 0,
            d2 > 0,
            d3 > 0,
            n1 * d2 >= n2 * d1,
            n2 * d3 >= n3 * d2,
    ;
}

/// Whether triangle `a` is strictly farther from `view` than triangle
/// `b`, comparing the squared distances of their first vertices as exact
/// rationals.
fn triangle_farther(
    vertices: &Vec<BlockVertex>,
    a: usize,
    b: usize,
    view: GridVector,
) -> (r: bool)
    requires
        a < vertices@.len(),
        b < vertices@.len(),
        forall|i: int| 0 <= i < vertices@.len() ==> vertex_bounded_space(#[trigger] vertices@[i]),
        -0x100000 <= view.x <= 0x100000,
        -0x100000 <= view.y <= 0x100000,
        -0x100000 <= view.z <= 0x100000,
    ensures
        r == (spec_tri_key_num(vertices@, a as int, view) * spec_tri_key_den(vertices@, b as int)
            > spec_tri_key_num(vertices@, b as int, view) * spec_tri_key_den(
            vertices@,
            a as int,
        )),
{
    let va = vertices[a].position;
    let vb = vertices[b].position;
    let da = squared_distance_num(va, view);
    let db = squared_distance_num(vb, view);
    proof {
        lemma_den_sq_bounds(va.den, vb.den);
    }
    let da_scaled = da * (vb.den as i128) * (vb.den as i128);
    let db_scaled = db * (va.den as i128) * (va.den as i128);
    proof {
        assert(da_scaled == da * ((vb.den as int) * (vb.den as int)) && db_scaled == db * ((
        va.den as int) * (va.den as int))) by (nonlinear_arith)
            requires
                da_scaled == (da as int) * (vb.den as int) * (vb.den as int),
                db_scaled == (db as int) * (va.den as int) * (va.den as int),
        ;
    }
    da_scaled > db_scaled
}

/// Numerator of the squared distance from `p` (a rational point) to the
/// integer point `v`: the true value is this over `den * den`.
fn squared_distance_num(p: FreePoint, v: GridVector) -> (r: i128)
    requires
        1 <= p.den <= 0x1000,
        -0x2000_0000_0000 <= p.x <= 0x2000_0000_0000,
        -0x2000_0000_0000 <= p.y <= 0x2000_0000_0000,
        -0x2000_0000_0000 <= p.z <= 0x2000_0000_0000,
        -0x100000 <= v.x <= 0x100000,
        -0x100000 <= v.y <= 0x100000,
        -0x100000 <= v.z <= 0x100000,
    ensures
        0 <= r <= 0x3000_0000_0000_0000_0000_0000,
        r == (p.x - v.x * p.den) * (p.x - v.x * p.den) + (p.y - v.y * p.den) * (p.y - v.y
            * p.den) + (p.z - v.z * p.den) * (p.z - v.z * p.den),
{
    proof {
        lemma_sqdist_bounds(p, v);
    }
    let dx = (p.x as i128) - (v.x as i128) * (p.den as i128);
    let dy = (p.y as i128) - (v.y as i128) * (p.den as i128);
    let dz = (p.z as i128) - (v.z as i128) * (p.den as i128);
    dx * dx + dy * dy + dz * dz
}

/// Arithmetic bounds for the squared-distance computation.
proof fn lemma_sqdist_bounds(p: FreePoint, v: GridVector)
    requires
        1 <= p.den <= 0x1000,
        -0x2000_0000_0000 <= p.x <= 0x2000_0000_0000,
        -0x2000_0000_0000 <= p.y <= 0x2000_0000_0000,
        -0x2000_0000_0000 <= p.z <= 0x2000_0000_0000,
        -0x100000 <= v.x <= 0x100000,
        -0x100000 <= v.y <= 0x100000,
        -0x100000 <= v.z <= 0x100000,
    ensures
        -0x4000_0000_0000 <= p.x - v.x * p.den <= 0x4000_0000_0000,
        -0x4000_0000_0000 <= p.y - v.y * p.den <= 0x4000_0000_0000,
        -0x4000_0000_0000 <= p.z - v.z * p.den <= 0x4000_0000_0000,
        forall|d: int|
            -0x4000_0000_0000 <= d <= 0x4000_0000_0000 ==> 0 <= #[trigger] (d * d)
                <= 0x1000_0000_0000_0000_0000_0000,
{
    assert(-0x1000_0000_0000 <= v.x * p.den <= 0x1000_0000_0000 && -0x1000_0000_0000 <= v.y
        * p.den <= 0x1000_0000_0000 && -0x1000_0000_0000 <= v.z * p.den <= 0x1000_0000_0000)
        by (nonlinear_arith)
        requires
            1 <= p.den <= 0x1000,
            -0x100000 <= v.x <= 0x100000,
            -0x100000 <= v.y <= 0x100000,
            -0x100000 <= v.z <= 0x100000,
    ;
    assert forall|d: int| -0x4000_0000_0000 <= d <= 0x4000_0000_0000 implies 0 <= #[trigger] (d
        * d) <= 0x1000_0000_0000_0000_0000_0000 by {
        assert(0 <= d * d <= 0x1000_0000_0000_0000_0000_0000) by (nonlinear_arith)
            requires
                -0x4000_0000_0000 <= d <= 0x4000_0000_0000,
        ;
    }
}

/// Scaling the keys by the other denominator squared stays within `i128`.
proof fn lemma_den_sq_bounds(da: i64, db: i64)
    requires
        1 <= da <= 0x1000,
        1 <= db <= 0x1000,
    ensures
        forall|k: int|
            0 <= k <= 0x3000_0000_0000_0000_0000_0000 ==> 0 <= #[trigger] (k * (db as int))
                <= 0x3000_0000_0000_0000_0000_0000 * 0x1000 && 0 <= (k * (db as int)) * (
            db as int) <= 0x3000_0000_0000_0000_0000_0000 * 0x1000000,
        forall|k: int|
            0 <= k <= 0x3000_0000_0000_0000_0000_0000 ==> 0 <= #[trigger] (k * (da as int))
                <= 0x3000_0000_0000_0000_0000_0000 * 0x1000 && 0 <= (k * (da as int)) * (
            da as int) <= 0x3000_0000_0000_0000_0000_0000 * 0x1000000,
{
    assert forall|k: int| 0 <= k <= 0x3000_0000_0000_0000_0000_0000 implies 0 <= #[trigger] (k * (
    db as int)) <= 0x3000_0000_0000_0000_0000_0000 * 0x1000 && 0 <= (k * (db as int)) * (
    db as int) <= 0x3000_0000_0000_0000_0000_0000 * 0x1000000 by {
        assert(0 <= k * db <= 0x3000_0000_0000_0000_0000_0000 * 0x1000 && 0 <= (k * db) * db
            <= 0x3000_0000_0000_0000_0000_0000 * 0x1000000) by (nonlinear_arith)
            requires
                0 <= k <= 0x3000_0000_0000_0000_0000_0000,
                1 <= db <= 0x1000,
        ;
    }
    assert forall|k: int| 0 <= k <= 0x3000_0000_0000_0000_0000_0000 implies 0 <= #[trigger] (k * (
    da as int)) <= 0x3000_0000_0000_0000_0000_0000 * 0x1000 && 0 <= (k * (da as int)) * (
    da as int) <= 0x3000_0000_0000_0000_0000_0000 * 0x1000000 by {
        assert(0 <= k * da <= 0x3000_0000_0000_0000_0000_0000 * 0x1000 && 0 <= (k * da) * da
            <= 0x3000_0000_0000_0000_0000_0000 * 0x1000000) by (nonlinear_arith)
            requires
                0 <= k <= 0x3000_0000_0000_0000_0000_0000,
                1 <= da <= 0x1000,
        ;
    }
}

/// Space-instantiated vertices: like [`vertex_bounded`] but allowing the
/// larger offsets that placement in a space introduces.
pub open spec fn vertex_bounded_space(v: BlockVertex) -> bool {
    &&& 1 <= v.position.den <= 0x1000
    &&& -0x2000_0000_0000 <= v.position.x <= 0x2000_0000_0000
    &&& -0x2000_0000_0000 <= v.position.y <= 0x2000_0000_0000
    &&& -0x2000_0000_0000 <= v.position.z <= 0x2000_0000_0000
}

/// Precompute triangulations for every block of the space's palette.
pub fn triangulate_blocks<A: TextureAllocator>(
    space: &Space,
    texture_allocator: &mut A,
) -> (r: Vec<BlockTriangulation<A::Tile>>)
    requires
        space.wf(),
    ensures
        r@.len() == space.palette@.len(),
        forall|i: int| 0 <= i < r@.len() ==> (#[trigger] r@[i]).bounded(),
        forall|i: int, f: Face|
            0 <= i < r@.len() ==> (#[trigger] r@[i].spec_face(f)).vertices@.len() % 6 == 0,
{
    let mut out: Vec<BlockTriangulation<A::Tile>> = Vec::new();
    let n = space.block_data().len();
    let mut i: usize = 0;
    while i < n
        invariant
            space.wf(),
            0 <= i <= n,
            n == space.palette@.len(),
            out@.len() == i,
            forall|k: int| 0 <= k < out@.len() ==> (#[trigger] out@[k]).bounded(),
            forall|k: int, f: Face|
                0 <= k < out@.len() ==> (#[trigger] out@[k].spec_face(f)).vertices@.len() % 6
                    == 0,
        decreases n - i,
    {
        proof {
            assert(crate::block::ev_wf(space.palette@[i as int].evaluated));
        }
        let bt = triangulate_block(&space.block_data()[i].evaluated, texture_allocator);
        out.push(bt);
        i = i + 1;
    }
    out
}

/// A texture allocator that discards all input except for counting
/// calls; for tests and benchmarks.
#[derive(Debug, PartialEq, Eq, Structural)]
pub struct TestTextureAllocator {
    pub resolution: i32,
    pub capacity: usize,
    pub count_allocated: usize,
}

/// Tile type for [`TestTextureAllocator`].
#[derive(Clone, Copy, Debug, PartialEq, Eq, Structural)]
pub struct TestTextureTile {
    pub data_length: usize,
}

impl TestTextureAllocator {
    pub fn new(resolution: i32) -> (r: TestTextureAllocator)
        requires
            1 <= resolution <= 0x1000,
        ensures
            r.resolution == resolution,
            r.capacity == usize::MAX,
            r.count_allocated == 0,
    {
        TestTextureAllocator { resolution, capacity: usize::MAX, count_allocated: 0 }
    }

    /// Fail allocations after this many tiles in total.
    pub fn set_capacity(&mut self, capacity: usize)
        ensures
            *final(self) == (TestTextureAllocator { capacity, ..*old(self) }),
    {
        self.capacity = capacity;
    }

    /// Number of tiles allocated; does not decrease on deallocation.
    pub fn count_allocated(&self) -> (r: usize)
        ensures
            r == self.count_allocated,
    {
        self.count_allocated
    }
}

impl TextureAllocator for TestTextureAllocator {
    type Tile = TestTextureTile;

    open spec fn spec_allocated(&self) -> int {
        self.count_allocated as int
    }

    open spec fn spec_resolution(&self) -> int {
        if self.resolution < 1 {
            1
        } else if self.resolution > 0x1000 {
            0x1000
        } else {
            self.resolution as int
        }
    }

    fn resolution(&self) -> (r: i32) {
        if self.resolution < 1 {
            1
        } else if self.resolution > 0x1000 {
            0x1000
        } else {
            self.resolution
        }
    }

    fn allocate(&mut self) -> (r: Option<TestTextureTile>) {
        if self.count_allocated >= self.capacity {
            None
        } else {
            self.count_allocated = self.count_allocated + 1;
            let res = if self.resolution < 1 {
                1
            } else if self.resolution > 0x1000 {
                0x1000
            } else {
                self.resolution
            };
            proof {
                assert(0 <= res * res <= 0x1000000) by (nonlinear_arith)
                    requires
                        0 <= res <= 0x1000,
                ;
            }
            Some(TestTextureTile { data_length: (res as usize) * (res as usize) })
        }
    }
}

impl TextureTile for TestTextureTile {
    open spec fn spec_data_len(&self) -> int {
        self.data_length as int
    }

    open spec fn tile_key(&self) -> int {
        self.data_length as int
    }

    fn texcoord(&self, s: i64, t: i64, den: i64) -> (r: TexPoint) {
        TexPoint { x: s, y: t, z: 0, den }
    }

    fn write(&mut self, _data: &Vec<Texel>) {
    }

    fn same_tile(&self, other: &Self) -> (r: bool) {
        self.data_length == other.data_length
    }
}

/// A texture allocator that refuses all allocation, for meshes that use
/// only solid colors.
#[derive(Clone, Copy, Debug, PartialEq, Eq, Structural)]
pub struct NoTextures;

/// The never-allocated tile of [`NoTextures`].
#[derive(Clone, Copy, Debug, PartialEq, Eq, Structural)]
pub struct NoTexture;

impl TextureAllocator for NoTextures {
    type Tile = NoTexture;

    open spec fn spec_allocated(&self) -> int {
        0
    }

    open spec fn spec_resolution(&self) -> int {
        1
    }

    fn resolution(&self) -> (r: i32) {
        1
    }

    fn allocate(&mut self) -> (r: Option<NoTexture>) {
        None
    }
}

impl TextureTile for NoTexture {
    open spec fn spec_data_len(&self) -> int {
        0
    }

    open spec fn tile_key(&self) -> int {
        0
    }

    fn texcoord(&self, s: i64, t: i64, den: i64) -> (r: TexPoint) {
        TexPoint { x: s, y: t, z: 0, den }
    }

    fn write(&mut self, _data: &Vec<Texel>) {
    }

    fn same_tile(&self, _other: &Self) -> (r: bool) {
        true
    }
}

} // verus!
