//! Integer-grid geometry: coordinates, axis-aligned boxes, faces, and the
//! grid-aligned matrices used for rotating voxel data.

use vstd::prelude::*;

verus! {

/// Coordinate type used for all grid positions and sizes.
pub type GridCoordinate = i32;

/// A point or translation on the integer grid.
#[derive(Clone, Copy, Debug, PartialEq, Eq, Hash, Structural)]
pub struct GridVector {
    pub x: GridCoordinate,
    pub y: GridCoordinate,
    pub z: GridCoordinate,
}

/// Positions and vectors share one representation.
pub type GridPoint = GridVector;

impl GridVector {
    pub fn new(x: GridCoordinate, y: GridCoordinate, z: GridCoordinate) -> (r: Self)
        ensures
            r == (GridVector { x, y, z }),
    {
        GridVector { x, y, z }
    }

    /// Componentwise sum, for vectors already known to stay in range.
    pub fn plus(self, other: Self) -> (r: Self)
        requires
            i32::MIN <= self.x + other.x <= i32::MAX,
            i32::MIN <= self.y + other.y <= i32::MAX,
            i32::MIN <= self.z + other.z <= i32::MAX,
        ensures
            r.x == self.x + other.x,
            r.y == self.y + other.y,
            r.z == self.z + other.z,
    {
        GridVector { x: self.x + other.x, y: self.y + other.y, z: self.z + other.z }
    }

    /// Componentwise difference, for vectors already known to stay in range.
    pub fn minus(self, other: Self) -> (r: Self)
        requires
            i32::MIN <= self.x - other.x <= i32::MAX,
            i32::MIN <= self.y - other.y <= i32::MAX,
            i32::MIN <= self.z - other.z <= i32::MAX,
        ensures
            r.x == self.x - other.x,
            r.y == self.y - other.y,
            r.z == self.z - other.z,
    {
        GridVector { x: self.x - other.x, y: self.y - other.y, z: self.z - other.z }
    }

    pub fn scaled(self, factor: GridCoordinate) -> (r: Self)
        requires
            i32::MIN <= self.x * factor <= i32::MAX,
            i32::MIN <= self.y * factor <= i32::MAX,
            i32::MIN <= self.z * factor <= i32::MAX,
        ensures
            r.x == self.x * factor,
            r.y == self.y * factor,
            r.z == self.z * factor,
    {
        GridVector { x: self.x * factor, y: self.y * factor, z: self.z * factor }
    }

    pub open spec fn is_zero(self) -> bool {
        self.x == 0 && self.y == 0 && self.z == 0
    }

    pub fn zero() -> (r: Self)
        ensures
            r == (GridVector { x: 0, y: 0, z: 0 }),
    {
        GridVector { x: 0, y: 0, z: 0 }
    }
}

/// An axis-aligned box of grid cubes, stored as lower corner plus
/// nonnegative size.
///
/// Well-formedness ([`GridAab::wf`]): sizes are nonnegative, the upper
/// corner still fits in [`GridCoordinate`], and the volume fits in `usize`.
#[derive(Clone, Copy, Debug, PartialEq, Eq, Hash, Structural)]
pub struct GridAab {
    pub lower: GridVector,
    pub size: GridVector,
}

impl GridAab {
    pub open spec fn wf(self) -> bool {
        &&& self.size.x >= 0
        &&& self.size.y >= 0
        &&& self.size.z >= 0
        &&& self.lower.x + self.size.x <= i32::MAX
        &&& self.lower.y + self.size.y <= i32::MAX
        &&& self.lower.z + self.size.z <= i32::MAX
        &&& self.size.x * self.size.y * self.size.z <= usize::MAX
    }

    pub open spec fn spec_lower(self) -> GridVector {
        self.lower
    }

    pub open spec fn spec_size(self) -> GridVector {
        self.size
    }

    pub open spec fn spec_volume(self) -> int {
        self.size.x * self.size.y * self.size.z
    }

    /// Whether `cube` (identified by its low corner) lies inside `self`.
    pub open spec fn contains_cube(self, cube: GridVector) -> bool {
        &&& self.lower.x <= cube.x < self.lower.x + self.size.x
        &&& self.lower.y <= cube.y < self.lower.y + self.size.y
        &&& self.lower.z <= cube.z < self.lower.z + self.size.z
    }

    /// Whether every cube of `self` lies inside `other`.
    pub open spec fn within(self, other: GridAab) -> bool {
        forall|c: GridVector| self.contains_cube(c) ==> other.contains_cube(c)
    }

    /// Whether some cube lies in both boxes.
    pub open spec fn overlaps(self, other: GridAab) -> bool {
        exists|c: GridVector| self.contains_cube(c) && other.contains_cube(c)
    }

    pub fn from_lower_size(lower: [GridCoordinate; 3], size: [GridCoordinate; 3]) -> (r: GridAab)
        requires
            size[0] >= 0,
            size[1] >= 0,
            size[2] >= 0,
            lower[0] + size[0] <= i32::MAX,
            lower[1] + size[1] <= i32::MAX,
            lower[2] + size[2] <= i32::MAX,
            size[0] * size[1] * size[2] <= usize::MAX,
        ensures
            r.wf(),
            r.lower == (GridVector { x: lower[0], y: lower[1], z: lower[2] }),
            r.size == (GridVector { x: size[0], y: size[1], z: size[2] }),
    {
        GridAab {
            lower: GridVector { x: lower[0], y: lower[1], z: lower[2] },
            size: GridVector { x: size[0], y: size[1], z: size[2] },
        }
    }

    pub fn from_lower_upper(lower: [GridCoordinate; 3], upper: [GridCoordinate; 3]) -> (r: GridAab)
        requires
            lower[0] <= upper[0],
            lower[1] <= upper[1],
            lower[2] <= upper[2],
            upper[0] - lower[0] <= i32::MAX,
            upper[1] - lower[1] <= i32::MAX,
            upper[2] - lower[2] <= i32::MAX,
            (upper[0] - lower[0]) * (upper[1] - lower[1]) * (upper[2] - lower[2]) <= usize::MAX,
        ensures
            r.wf(),
            r.lower == (GridVector { x: lower[0], y: lower[1], z: lower[2] }),
            r.size.x == upper[0] - lower[0],
            r.size.y == upper[1] - lower[1],
            r.size.z == upper[2] - lower[2],
    {
        GridAab {
            lower: GridVector { x: lower[0], y: lower[1], z: lower[2] },
            size: GridVector {
                x: upper[0] - lower[0],
                y: upper[1] - lower[1],
                z: upper[2] - lower[2],
            },
        }
    }

    /// The cube `[0, resolution)` on every axis, in which a block's voxels live.
    pub fn for_block(resolution: u8) -> (r: GridAab)
        ensures
            r.wf(),
            r.lower == (GridVector { x: 0, y: 0, z: 0 }),
            r.size.x == resolution as int,
            r.size.y == resolution as int,
            r.size.z == resolution as int,
    {
        let e = resolution as i32;
        assert(e * e * e <= usize::MAX) by (nonlinear_arith)
            requires
                0 <= e <= 255,
        ;
        GridAab {
            lower: GridVector { x: 0, y: 0, z: 0 },
            size: GridVector { x: e, y: e, z: e },
        }
    }

    pub fn lower_bounds(&self) -> (r: GridVector)
        ensures
            r == self.lower,
    {
        self.lower
    }

    pub fn size(&self) -> (r: GridVector)
        ensures
            r == self.size,
    {
        self.size
    }

    pub fn upper_bounds(&self) -> (r: GridVector)
        requires
            self.wf(),
        ensures
            r.x == self.lower.x + self.size.x,
            r.y == self.lower.y + self.size.y,
            r.z == self.lower.z + self.size.z,
    {
        GridVector {
            x: self.lower.x + self.size.x,
            y: self.lower.y + self.size.y,
            z: self.lower.z + self.size.z,
        }
    }

    pub fn volume(&self) -> (r: usize)
        requires
            self.wf(),
        ensures
            r == self.spec_volume(),
    {
        if self.size.x == 0 || self.size.y == 0 || self.size.z == 0 {
            proof {
                assert(self.spec_volume() == 0) by (nonlinear_arith)
                    requires
                        self.size.x == 0 || self.size.y == 0 || self.size.z == 0,
                ;
            }
            0
        } else {
            proof {
                assert(self.size.x * self.size.y >= 1 && self.size.x * self.size.y
                    * self.size.z >= self.size.x * self.size.y && self.size.x * self.size.y
                    * self.size.z >= self.size.z) by (nonlinear_arith)
                    requires
                        self.size.x >= 1,
                        self.size.y >= 1,
                        self.size.z >= 1,
                ;
            }
            let xy = (self.size.x as usize) * (self.size.y as usize);
            proof {
                assert(xy * self.size.z == self.size.x * self.size.y * self.size.z)
                    by (nonlinear_arith)
                    requires
                        xy == self.size.x * self.size.y,
                ;
            }
            xy * (self.size.z as usize)
        }
    }

    pub fn contains(&self, cube: GridVector) -> (r: bool)
        requires
            self.wf(),
        ensures
            r == self.contains_cube(cube),
    {
        self.lower.x <= cube.x && cube.x < self.lower.x + self.size.x && self.lower.y <= cube.y
            && cube.y < self.lower.y + self.size.y && self.lower.z <= cube.z && cube.z
            < self.lower.z + self.size.z
    }

    /// Translate by `offset`; the caller must know the result stays in range.
    pub fn translate(&self, offset: GridVector) -> (r: GridAab)
        requires
            self.wf(),
            i32::MIN <= self.lower.x + offset.x,
            i32::MIN <= self.lower.y + offset.y,
            i32::MIN <= self.lower.z + offset.z,
            self.lower.x + self.size.x + offset.x <= i32::MAX,
            self.lower.y + self.size.y + offset.y <= i32::MAX,
            self.lower.z + self.size.z + offset.z <= i32::MAX,
        ensures
            r.wf(),
            r.size == self.size,
            r.lower.x == self.lower.x + offset.x,
            r.lower.y == self.lower.y + offset.y,
            r.lower.z == self.lower.z + offset.z,
    {
        GridAab {
            lower: GridVector {
                x: self.lower.x + offset.x,
                y: self.lower.y + offset.y,
                z: self.lower.z + offset.z,
            },
            size: self.size,
        }
    }

    /// Intersection of two boxes; `None` when no cube is in both.
    pub fn intersection(&self, other: GridAab) -> (r: Option<GridAab>)
        requires
            self.wf(),
            other.wf(),
        ensures
            match r {
                Some(b) => {
                    &&& b.wf()
                    &&& forall|c: GridVector|
                        b.contains_cube(c) == (self.contains_cube(c) && other.contains_cube(c))
                    &&& b.spec_volume() > 0
                },
                None => !self.overlaps(other),
            },
    {
        let lx = if self.lower.x >= other.lower.x { self.lower.x } else { other.lower.x };
        let ly = if self.lower.y >= other.lower.y { self.lower.y } else { other.lower.y };
        let lz = if self.lower.z >= other.lower.z { self.lower.z } else { other.lower.z };
        let sux = self.lower.x + self.size.x;
        let suy = self.lower.y + self.size.y;
        let suz = self.lower.z + self.size.z;
        let oux = other.lower.x + other.size.x;
        let ouy = other.lower.y + other.size.y;
        let ouz = other.lower.z + other.size.z;
        let ux = if sux <= oux { sux } else { oux };
        let uy = if suy <= ouy { suy } else { ouy };
        let uz = if suz <= ouz { suz } else { ouz };
        if lx < ux && ly < uy && lz < uz {
            let b = GridAab {
                lower: GridVector { x: lx, y: ly, z: lz },
                size: GridVector { x: ux - lx, y: uy - ly, z: uz - lz },
            };
            proof {
                assert((ux - lx) * (uy - ly) * (uz - lz) <= self.size.x * self.size.y * self.size.z
                    && (ux - lx) * (uy - ly) * (uz - lz) >= 1) by (nonlinear_arith)
                    requires
                        0 < ux - lx <= self.size.x,
                        0 < uy - ly <= self.size.y,
                        0 < uz - lz <= self.size.z,
                ;
            }
            Some(b)
        } else {
            assert(!self.overlaps(other));
            None
        }
    }
}

/// The six cube faces plus "within the cube".
#[derive(Clone, Copy, Debug, PartialEq, Eq, Hash, Structural)]
pub enum Face {
    Within,
    NX,
    NY,
    NZ,
    PX,
    PY,
    PZ,
}

impl Face {
    /// The unit vector pointing out of this face (zero for `Within`).
    pub open spec fn spec_normal(self) -> GridVector {
        match self {
            Face::Within => GridVector { x: 0, y: 0, z: 0 },
            Face::NX => GridVector { x: -1i32, y: 0, z: 0 },
            Face::NY => GridVector { x: 0, y: -1i32, z: 0 },
            Face::NZ => GridVector { x: 0, y: 0, z: -1i32 },
            Face::PX => GridVector { x: 1, y: 0, z: 0 },
            Face::PY => GridVector { x: 0, y: 1, z: 0 },
            Face::PZ => GridVector { x: 0, y: 0, z: 1 },
        }
    }

    pub fn normal_vector(self) -> (r: GridVector)
        ensures
            r == self.spec_normal(),
    {
        match self {
            Face::Within => GridVector { x: 0, y: 0, z: 0 },
            Face::NX => GridVector { x: -1, y: 0, z: 0 },
            Face::NY => GridVector { x: 0, y: -1, z: 0 },
            Face::NZ => GridVector { x: 0, y: 0, z: -1 },
            Face::PX => GridVector { x: 1, y: 0, z: 0 },
            Face::PY => GridVector { x: 0, y: 1, z: 0 },
            Face::PZ => GridVector { x: 0, y: 0, z: 1 },
        }
    }

    pub open spec fn spec_opposite(self) -> Face {
        match self {
            Face::Within => Face::Within,
            Face::NX => Face::PX,
            Face::NY => Face::PY,
            Face::NZ => Face::PZ,
            Face::PX => Face::NX,
            Face::PY => Face::NY,
            Face::PZ => Face::NZ,
        }
    }

    pub fn opposite(self) -> (r: Face)
        ensures
            r == self.spec_opposite(),
    {
        match self {
            Face::Within => Face::Within,
            Face::NX => Face::PX,
            Face::NY => Face::PY,
            Face::NZ => Face::PZ,
            Face::PX => Face::NX,
            Face::PY => Face::NY,
            Face::PZ => Face::NZ,
        }
    }

    pub open spec fn is_negative(self) -> bool {
        self == Face::NX || self == Face::NY || self == Face::NZ
    }

    pub open spec fn is_positive(self) -> bool {
        self == Face::PX || self == Face::PY || self == Face::PZ
    }

    pub fn negative(self) -> (r: bool)
        ensures
            r == self.is_negative(),
    {
        match self {
            Face::NX | Face::NY | Face::NZ => true,
            _ => false,
        }
    }

    pub fn positive(self) -> (r: bool)
        ensures
            r == self.is_positive(),
    {
        match self {
            Face::PX | Face::PY | Face::PZ => true,
            _ => false,
        }
    }

    /// 0, 1, or 2 for the x, y, or z axis.
    pub fn axis_number(self) -> (r: usize)
        requires
            self != Face::Within,
        ensures
            r == Face::spec_axis_number(self),
    {
        match self {
            Face::Within => 0,
            Face::NX | Face::PX => 0,
            Face::NY | Face::PY => 1,
            Face::NZ | Face::PZ => 2,
        }
    }

    pub open spec fn spec_axis_number(self) -> usize {
        match self {
            Face::Within => 0,
            Face::NX | Face::PX => 0,
            Face::NY | Face::PY => 1,
            Face::NZ | Face::PZ => 2,
        }
    }

    /// The six proper faces, in the fixed order used by face maps.
    pub fn all_six() -> (r: Vec<Face>)
        ensures
            r@ == seq![Face::NX, Face::NY, Face::NZ, Face::PX, Face::PY, Face::PZ],
    {
        let mut v: Vec<Face> = Vec::new();
        v.push(Face::NX);
        v.push(Face::NY);
        v.push(Face::NZ);
        v.push(Face::PX);
        v.push(Face::PY);
        v.push(Face::PZ);
        proof {
            assert(v@ =~= seq![Face::NX, Face::NY, Face::NZ, Face::PX, Face::PY, Face::PZ]);
        }
        v
    }

    /// All seven values, `Within` first.
    pub fn all_seven() -> (r: Vec<Face>)
        ensures
            r@ == seq![
                Face::Within,
                Face::NX,
                Face::NY,
                Face::NZ,
                Face::PX,
                Face::PY,
                Face::PZ,
            ],
    {
        let mut v: Vec<Face> = Vec::new();
        v.push(Face::Within);
        v.push(Face::NX);
        v.push(Face::NY);
        v.push(Face::NZ);
        v.push(Face::PX);
        v.push(Face::PY);
        v.push(Face::PZ);
        proof {
            assert(v@ =~= seq![
                Face::Within,
                Face::NX,
                Face::NY,
                Face::NZ,
                Face::PX,
                Face::PY,
                Face::PZ,
            ]);
        }
        v
    }

    /// The matrix mapping face-plane coordinates `(s, t, depth)` into cube
    /// coordinates, for a cube spanning `[0, scale]`.
    pub fn matrix(self, scale: GridCoordinate) -> (r: GridMatrix)
        ensures
            r == self.spec_matrix(scale),
    {
        match self {
            Face::Within | Face::NZ => GridMatrix {
                x: GridVector { x: 1, y: 0, z: 0 },
                y: GridVector { x: 0, y: 1, z: 0 },
                z: GridVector { x: 0, y: 0, z: 1 },
                w: GridVector { x: 0, y: 0, z: 0 },
            },
            Face::NX => GridMatrix {
                x: GridVector { x: 0, y: 1, z: 0 },
                y: GridVector { x: 0, y: 0, z: 1 },
                z: GridVector { x: 1, y: 0, z: 0 },
                w: GridVector { x: 0, y: 0, z: 0 },
            },
            Face::NY => GridMatrix {
                x: GridVector { x: 0, y: 0, z: 1 },
                y: GridVector { x: 1, y: 0, z: 0 },
                z: GridVector { x: 0, y: 1, z: 0 },
                w: GridVector { x: 0, y: 0, z: 0 },
            },
            Face::PX => GridMatrix {
                x: GridVector { x: 0, y: -1, z: 0 },
                y: GridVector { x: 0, y: 0, z: 1 },
                z: GridVector { x: -1, y: 0, z: 0 },
                w: GridVector { x: scale, y: scale, z: 0 },
            },
            Face::PY => GridMatrix {
                x: GridVector { x: 0, y: 0, z: 1 },
                y: GridVector { x: -1, y: 0, z: 0 },
                z: GridVector { x: 0, y: -1, z: 0 },
                w: GridVector { x: scale, y: scale, z: 0 },
            },
            Face::PZ => GridMatrix {
                x: GridVector { x: 1, y: 0, z: 0 },
                y: GridVector { x: 0, y: -1, z: 0 },
                z: GridVector { x: 0, y: 0, z: -1 },
                w: GridVector { x: 0, y: scale, z: scale },
            },
        }
    }

    pub open spec fn spec_matrix(self, scale: GridCoordinate) -> GridMatrix {
        match self {
            Face::Within | Face::NZ => GridMatrix {
                x: GridVector { x: 1, y: 0, z: 0 },
                y: GridVector { x: 0, y: 1, z: 0 },
                z: GridVector { x: 0, y: 0, z: 1 },
                w: GridVector { x: 0, y: 0, z: 0 },
            },
            Face::NX => GridMatrix {
                x: GridVector { x: 0, y: 1, z: 0 },
                y: GridVector { x: 0, y: 0, z: 1 },
                z: GridVector { x: 1, y: 0, z: 0 },
                w: GridVector { x: 0, y: 0, z: 0 },
            },
            Face::NY => GridMatrix {
                x: GridVector { x: 0, y: 0, z: 1 },
                y: GridVector { x: 1, y: 0, z: 0 },
                z: GridVector { x: 0, y: 1, z: 0 },
                w: GridVector { x: 0, y: 0, z: 0 },
            },
            Face::PX => GridMatrix {
                x: GridVector { x: 0, y: -1i32, z: 0 },
                y: GridVector { x: 0, y: 0, z: 1 },
                z: GridVector { x: -1i32, y: 0, z: 0 },
                w: GridVector { x: scale, y: scale, z: 0 },
            },
            Face::PY => GridMatrix {
                x: GridVector { x: 0, y: 0, z: 1 },
                y: GridVector { x: -1i32, y: 0, z: 0 },
                z: GridVector { x: 0, y: -1i32, z: 0 },
                w: GridVector { x: scale, y: scale, z: 0 },
            },
            Face::PZ => GridMatrix {
                x: GridVector { x: 1, y: 0, z: 0 },
                y: GridVector { x: 0, y: -1i32, z: 0 },
                z: GridVector { x: 0, y: 0, z: -1i32 },
                w: GridVector { x: 0, y: scale, z: scale },
            },
        }
    }
}

/// An affine grid transform: the images of the three axes plus a translation.
/// A transformed point is `p.x * m.x + p.y * m.y + p.z * m.z + m.w`.
#[derive(Clone, Copy, Debug, PartialEq, Eq, Hash, Structural)]
pub struct GridMatrix {
    pub x: GridVector,
    pub y: GridVector,
    pub z: GridVector,
    pub w: GridVector,
}

/// Bound within which matrix application cannot overflow: rotation matrices
/// have entries in `{-1, 0, 1}` and translations bounded by the volume edge.
pub open spec fn small_coord(c: int) -> bool {
    -0x10000 <= c <= 0x10000
}

impl GridMatrix {
    /// All entries small enough that transforming a small point stays in range.
    pub open spec fn small(self) -> bool {
        &&& -1 <= self.x.x <= 1 && -1 <= self.x.y <= 1 && -1 <= self.x.z <= 1
        &&& -1 <= self.y.x <= 1 && -1 <= self.y.y <= 1 && -1 <= self.y.z <= 1
        &&& -1 <= self.z.x <= 1 && -1 <= self.z.y <= 1 && -1 <= self.z.z <= 1
        &&& small_coord(self.w.x as int) && small_coord(self.w.y as int) && small_coord(self.w.z as int)
    }

    pub open spec fn spec_transform_point(self, p: GridVector) -> GridVector {
        GridVector {
            x: (p.x * self.x.x + p.y * self.y.x + p.z * self.z.x + self.w.x) as i32,
            y: (p.x * self.x.y + p.y * self.y.y + p.z * self.z.y + self.w.y) as i32,
            z: (p.x * self.x.z + p.y * self.y.z + p.z * self.z.z + self.w.z) as i32,
        }
    }

    pub fn transform_point(&self, p: GridVector) -> (r: GridVector)
        requires
            self.small(),
            small_coord(p.x as int),
            small_coord(p.y as int),
            small_coord(p.z as int),
        ensures
            r == self.spec_transform_point(p),
    {
        proof {
            assert(-0x10000 <= p.x * self.x.x <= 0x10000 && -0x10000 <= p.y * self.y.x <= 0x10000
                && -0x10000 <= p.z * self.z.x <= 0x10000 && -0x10000 <= p.x * self.x.y <= 0x10000
                && -0x10000 <= p.y * self.y.y <= 0x10000 && -0x10000 <= p.z * self.z.y <= 0x10000
                && -0x10000 <= p.x * self.x.z <= 0x10000 && -0x10000 <= p.y * self.y.z <= 0x10000
                && -0x10000 <= p.z * self.z.z <= 0x10000) by (nonlinear_arith)
                requires
                    self.small(),
                    small_coord(p.x as int),
                    small_coord(p.y as int),
                    small_coord(p.z as int),
            ;
        }
        GridVector {
            x: p.x * self.x.x + p.y * self.y.x + p.z * self.z.x + self.w.x,
            y: p.x * self.x.y + p.y * self.y.y + p.z * self.z.y + self.w.y,
            z: p.x * self.x.z + p.y * self.y.z + p.z * self.z.z + self.w.z,
        }
    }

    pub open spec fn spec_transform_cube(self, cube: GridVector) -> GridVector {
        let a = self.spec_transform_point(cube);
        let b = self.spec_transform_point(
            GridVector { x: (cube.x + 1) as i32, y: (cube.y + 1) as i32, z: (cube.z + 1) as i32 },
        );
        GridVector {
            x: if a.x <= b.x { a.x } else { b.x },
            y: if a.y <= b.y { a.y } else { b.y },
            z: if a.z <= b.z { a.z } else { b.z },
        }
    }

    /// Transform a cube, identified by its lower corner: both corners are
    /// transformed and the componentwise minimum is the new lower corner.
    pub fn transform_cube(&self, cube: GridVector) -> (r: GridVector)
        requires
            self.small(),
            small_coord(cube.x as int),
            small_coord(cube.y as int),
            small_coord(cube.z as int),
            cube.x < 0x10000,
            cube.y < 0x10000,
            cube.z < 0x10000,
        ensures
            r == self.spec_transform_cube(cube),
    {
        let a = self.transform_point(cube);
        let b = self.transform_point(
            GridVector { x: cube.x + 1, y: cube.y + 1, z: cube.z + 1 },
        );
        GridVector {
            x: if a.x <= b.x { a.x } else { b.x },
            y: if a.y <= b.y { a.y } else { b.y },
            z: if a.z <= b.z { a.z } else { b.z },
        }
    }
}

} // verus!

