//! Grid-aligned rotations: the 48 signed axis permutations.
//!
//! Each variant name lists the unit vectors that the x, y and z axes are
//! carried to; a lowercase letter means the negated axis.

use vstd::prelude::*;

use crate::math::{Face, GridCoordinate, GridMatrix, GridVector};

verus! {

#[derive(Clone, Copy, Debug, PartialEq, Eq, Hash, Structural)]
#[allow(missing_docs)]
pub enum GridRotation {
    RXYZ, RXYz, RXyZ, RXyz, RxYZ, RxYz, RxyZ, Rxyz,
    RXZY, RXZy, RXzY, RXzy, RxZY, RxZy, RxzY, Rxzy,
    RYXZ, RYXz, RYxZ, RYxz, RyXZ, RyXz, RyxZ, Ryxz,
    RYZX, RYZx, RYzX, RYzx, RyZX, RyZx, RyzX, Ryzx,
    RZXY, RZXy, RZxY, RZxy, RzXY, RzXy, RzxY, Rzxy,
    RZYX, RZYx, RZyX, RZyx, RzYX, RzYx, RzyX, Rzyx,
}

/// The three face directions a rotation carries the x, y and z axes to.
pub type Basis = (Face, Face, Face);

/// A triple of proper faces on three distinct axes: exactly the images of
/// the axes under some grid rotation.
pub open spec fn is_rotation_basis(b: Basis) -> bool {
    &&& b.0 != Face::Within && b.1 != Face::Within && b.2 != Face::Within
    &&& Face::spec_axis_number(b.0) != Face::spec_axis_number(b.1)
    &&& Face::spec_axis_number(b.0) != Face::spec_axis_number(b.2)
    &&& Face::spec_axis_number(b.1) != Face::spec_axis_number(b.2)
}

impl GridRotation {
    pub open spec fn spec_to_basis(self) -> Basis {
        match self {
            GridRotation::RXYZ => (Face::PX, Face::PY, Face::PZ),
            GridRotation::RXYz => (Face::PX, Face::PY, Face::NZ),
            GridRotation::RXyZ => (Face::PX, Face::NY, Face::PZ),
            GridRotation::RXyz => (Face::PX, Face::NY, Face::NZ),
            GridRotation::RxYZ => (Face::NX, Face::PY, Face::PZ),
            GridRotation::RxYz => (Face::NX, Face::PY, Face::NZ),
            GridRotation::RxyZ => (Face::NX, Face::NY, Face::PZ),
            GridRotation::Rxyz => (Face::NX, Face::NY, Face::NZ),
            GridRotation::RXZY => (Face::PX, Face::PZ, Face::PY),
            GridRotation::RXZy => (Face::PX, Face::PZ, Face::NY),
            GridRotation::RXzY => (Face::PX, Face::NZ, Face::PY),
            GridRotation::RXzy => (Face::PX, Face::NZ, Face::NY),
            GridRotation::RxZY => (Face::NX, Face::PZ, Face::PY),
            GridRotation::RxZy => (Face::NX, Face::PZ, Face::NY),
            GridRotation::RxzY => (Face::NX, Face::NZ, Face::PY),
            GridRotation::Rxzy => (Face::NX, Face::NZ, Face::NY),
            GridRotation::RYXZ => (Face::PY, Face::PX, Face::PZ),
            GridRotation::RYXz => (Face::PY, Face::PX, Face::NZ),
            GridRotation::RYxZ => (Face::PY, Face::NX, Face::PZ),
            GridRotation::RYxz => (Face::PY, Face::NX, Face::NZ),
            GridRotation::RyXZ => (Face::NY, Face::PX, Face::PZ),
            GridRotation::RyXz => (Face::NY, Face::PX, Face::NZ),
            GridRotation::RyxZ => (Face::NY, Face::NX, Face::PZ),
            GridRotation::Ryxz => (Face::NY, Face::NX, Face::NZ),
            GridRotation::RYZX => (Face::PY, Face::PZ, Face::PX),
            GridRotation::RYZx => (Face::PY, Face::PZ, Face::NX),
            GridRotation::RYzX => (Face::PY, Face::NZ, Face::PX),
            GridRotation::RYzx => (Face::PY, Face::NZ, Face::NX),
            GridRotation::RyZX => (Face::NY, Face::PZ, Face::PX),
            GridRotation::RyZx => (Face::NY, Face::PZ, Face::NX),
            GridRotation::RyzX => (Face::NY, Face::NZ, Face::PX),
            GridRotation::Ryzx => (Face::NY, Face::NZ, Face::NX),
            GridRotation::RZXY => (Face::PZ, Face::PX, Face::PY),
            GridRotation::RZXy => (Face::PZ, Face::PX, Face::NY),
            GridRotation::RZxY => (Face::PZ, Face::NX, Face::PY),
            GridRotation::RZxy => (Face::PZ, Face::NX, Face::NY),
            GridRotation::RzXY => (Face::NZ, Face::PX, Face::PY),
            GridRotation::RzXy => (Face::NZ, Face::PX, Face::NY),
            GridRotation::RzxY => (Face::NZ, Face::NX, Face::PY),
            GridRotation::Rzxy => (Face::NZ, Face::NX, Face::NY),
            GridRotation::RZYX => (Face::PZ, Face::PY, Face::PX),
            GridRotation::RZYx => (Face::PZ, Face::PY, Face::NX),
            GridRotation::RZyX => (Face::PZ, Face::NY, Face::PX),
            GridRotation::RZyx => (Face::PZ, Face::NY, Face::NX),
            GridRotation::RzYX => (Face::NZ, Face::PY, Face::PX),
            GridRotation::RzYx => (Face::NZ, Face::PY, Face::NX),
            GridRotation::RzyX => (Face::NZ, Face::NY, Face::PX),
            GridRotation::Rzyx => (Face::NZ, Face::NY, Face::NX),
        }
    }

    /// The rotation whose basis is `b`; falls back to the identity for a
    /// triple that is not a rotation basis.
    pub open spec fn spec_from_basis(b: Basis) -> GridRotation {
        match b {
            (Face::PX, Face::PY, Face::PZ) => GridRotation::RXYZ,
            (Face::PX, Face::PY, Face::NZ) => GridRotation::RXYz,
            (Face::PX, Face::NY, Face::PZ) => GridRotation::RXyZ,
            (Face::PX, Face::NY, Face::NZ) => GridRotation::RXyz,
            (Face::NX, Face::PY, Face::PZ) => GridRotation::RxYZ,
            (Face::NX, Face::PY, Face::NZ) => GridRotation::RxYz,
            (Face::NX, Face::NY, Face::PZ) => GridRotation::RxyZ,
            (Face::NX, Face::NY, Face::NZ) => GridRotation::Rxyz,
            (Face::PX, Face::PZ, Face::PY) => GridRotation::RXZY,
            (Face::PX, Face::PZ, Face::NY) => GridRotation::RXZy,
            (Face::PX, Face::NZ, Face::PY) => GridRotation::RXzY,
            (Face::PX, Face::NZ, Face::NY) => GridRotation::RXzy,
            (Face::NX, Face::PZ, Face::PY) => GridRotation::RxZY,
            (Face::NX, Face::PZ, Face::NY) => GridRotation::RxZy,
            (Face::NX, Face::NZ, Face::PY) => GridRotation::RxzY,
            (Face::NX, Face::NZ, Face::NY) => GridRotation::Rxzy,
            (Face::PY, Face::PX, Face::PZ) => GridRotation::RYXZ,
            (Face::PY, Face::PX, Face::NZ) => GridRotation::RYXz,
            (Face::PY, Face::NX, Face::PZ) => GridRotation::RYxZ,
            (Face::PY, Face::NX, Face::NZ) => GridRotation::RYxz,
            (Face::NY, Face::PX, Face::PZ) => GridRotation::RyXZ,
            (Face::NY, Face::PX, Face::NZ) => GridRotation::RyXz,
            (Face::NY, Face::NX, Face::PZ) => GridRotation::RyxZ,
            (Face::NY, Face::NX, Face::NZ) => GridRotation::Ryxz,
            (Face::PY, Face::PZ, Face::PX) => GridRotation::RYZX,
            (Face::PY, Face::PZ, Face::NX) => GridRotation::RYZx,
            (Face::PY, Face::NZ, Face::PX) => GridRotation::RYzX,
            (Face::PY, Face::NZ, Face::NX) => GridRotation::RYzx,
            (Face::NY, Face::PZ, Face::PX) => GridRotation::RyZX,
            (Face::NY, Face::PZ, Face::NX) => GridRotation::RyZx,
            (Face::NY, Face::NZ, Face::PX) => GridRotation::RyzX,
            (Face::NY, Face::NZ, Face::NX) => GridRotation::Ryzx,
            (Face::PZ, Face::PX, Face::PY) => GridRotation::RZXY,
            (Face::PZ, Face::PX, Face::NY) => GridRotation::RZXy,
            (Face::PZ, Face::NX, Face::PY) => GridRotation::RZxY,
            (Face::PZ, Face::NX, Face::NY) => GridRotation::RZxy,
            (Face::NZ, Face::PX, Face::PY) => GridRotation::RzXY,
            (Face::NZ, Face::PX, Face::NY) => GridRotation::RzXy,
            (Face::NZ, Face::NX, Face::PY) => GridRotation::RzxY,
            (Face::NZ, Face::NX, Face::NY) => GridRotation::Rzxy,
            (Face::PZ, Face::PY, Face::PX) => GridRotation::RZYX,
            (Face::PZ, Face::PY, Face::NX) => GridRotation::RZYx,
            (Face::PZ, Face::NY, Face::PX) => GridRotation::RZyX,
            (Face::PZ, Face::NY, Face::NX) => GridRotation::RZyx,
            (Face::NZ, Face::PY, Face::PX) => GridRotation::RzYX,
            (Face::NZ, Face::PY, Face::NX) => GridRotation::RzYx,
            (Face::NZ, Face::NY, Face::PX) => GridRotation::RzyX,
            (Face::NZ, Face::NY, Face::NX) => GridRotation::Rzyx,
            _ => GridRotation::RXYZ,
        }
    }

    /// Image of `face` under this rotation; `Within` maps to itself.
    pub open spec fn spec_transform(self, face: Face) -> Face {
        if face == Face::Within {
            face
        } else {
            let b = self.spec_to_basis();
            let p = if Face::spec_axis_number(face) == 0 {
                b.0
            } else if Face::spec_axis_number(face) == 1 {
                b.1
            } else {
                b.2
            };
            if face.is_negative() {
                p.spec_opposite()
            } else {
                p
            }
        }
    }

    /// Concatenation: `spec_mul(a, b)` applies `b`, then `a`.
    pub open spec fn spec_mul(a: GridRotation, b: GridRotation) -> GridRotation {
        let bb = b.spec_to_basis();
        GridRotation::spec_from_basis(
            (a.spec_transform(bb.0), a.spec_transform(bb.1), a.spec_transform(bb.2)),
        )
    }

    /// All 48 rotations, in a fixed order without repetition.
    pub fn all() -> (r: Vec<GridRotation>)
        ensures
            r@.len() == 48,
    {
        let mut v: Vec<GridRotation> = Vec::new();
        v.push(GridRotation::RXYZ);
        v.push(GridRotation::RXYz);
        v.push(GridRotation::RXyZ);
        v.push(GridRotation::RXyz);
        v.push(GridRotation::RxYZ);
        v.push(GridRotation::RxYz);
        v.push(GridRotation::RxyZ);
        v.push(GridRotation::Rxyz);
        v.push(GridRotation::RXZY);
        v.push(GridRotation::RXZy);
        v.push(GridRotation::RXzY);
        v.push(GridRotation::RXzy);
        v.push(GridRotation::RxZY);
        v.push(GridRotation::RxZy);
        v.push(GridRotation::RxzY);
        v.push(GridRotation::Rxzy);
        v.push(GridRotation::RYXZ);
        v.push(GridRotation::RYXz);
        v.push(GridRotation::RYxZ);
        v.push(GridRotation::RYxz);
        v.push(GridRotation::RyXZ);
        v.push(GridRotation::RyXz);
        v.push(GridRotation::RyxZ);
        v.push(GridRotation::Ryxz);
        v.push(GridRotation::RYZX);
        v.push(GridRotation::RYZx);
        v.push(GridRotation::RYzX);
        v.push(GridRotation::RYzx);
        v.push(GridRotation::RyZX);
        v.push(GridRotation::RyZx);
        v.push(GridRotation::RyzX);
        v.push(GridRotation::Ryzx);
        v.push(GridRotation::RZXY);
        v.push(GridRotation::RZXy);
        v.push(GridRotation::RZxY);
        v.push(GridRotation::RZxy);
        v.push(GridRotation::RzXY);
        v.push(GridRotation::RzXy);
        v.push(GridRotation::RzxY);
        v.push(GridRotation::Rzxy);
        v.push(GridRotation::RZYX);
        v.push(GridRotation::RZYx);
        v.push(GridRotation::RZyX);
        v.push(GridRotation::RZyx);
        v.push(GridRotation::RzYX);
        v.push(GridRotation::RzYx);
        v.push(GridRotation::RzyX);
        v.push(GridRotation::Rzyx);
        v
    }

    /// The identity rotation.
    pub fn identity() -> (r: GridRotation)
        ensures
            r == GridRotation::RXYZ,
    {
        GridRotation::RXYZ
    }

    pub fn to_basis(self) -> (r: Basis)
        ensures
            r == self.spec_to_basis(),
            is_rotation_basis(r),
    {
        match self {
            GridRotation::RXYZ => (Face::PX, Face::PY, Face::PZ),
            GridRotation::RXYz => (Face::PX, Face::PY, Face::NZ),
            GridRotation::RXyZ => (Face::PX, Face::NY, Face::PZ),
            GridRotation::RXyz => (Face::PX, Face::NY, Face::NZ),
            GridRotation::RxYZ => (Face::NX, Face::PY, Face::PZ),
            GridRotation::RxYz => (Face::NX, Face::PY, Face::NZ),
            GridRotation::RxyZ => (Face::NX, Face::NY, Face::PZ),
            GridRotation::Rxyz => (Face::NX, Face::NY, Face::NZ),
            GridRotation::RXZY => (Face::PX, Face::PZ, Face::PY),
            GridRotation::RXZy => (Face::PX, Face::PZ, Face::NY),
            GridRotation::RXzY => (Face::PX, Face::NZ, Face::PY),
            GridRotation::RXzy => (Face::PX, Face::NZ, Face::NY),
            GridRotation::RxZY => (Face::NX, Face::PZ, Face::PY),
            GridRotation::RxZy => (Face::NX, Face::PZ, Face::NY),
            GridRotation::RxzY => (Face::NX, Face::NZ, Face::PY),
            GridRotation::Rxzy => (Face::NX, Face::NZ, Face::NY),
            GridRotation::RYXZ => (Face::PY, Face::PX, Face::PZ),
            GridRotation::RYXz => (Face::PY, Face::PX, Face::NZ),
            GridRotation::RYxZ => (Face::PY, Face::NX, Face::PZ),
            GridRotation::RYxz => (Face::PY, Face::NX, Face::NZ),
            GridRotation::RyXZ => (Face::NY, Face::PX, Face::PZ),
            GridRotation::RyXz => (Face::NY, Face::PX, Face::NZ),
            GridRotation::RyxZ => (Face::NY, Face::NX, Face::PZ),
            GridRotation::Ryxz => (Face::NY, Face::NX, Face::NZ),
            GridRotation::RYZX => (Face::PY, Face::PZ, Face::PX),
            GridRotation::RYZx => (Face::PY, Face::PZ, Face::NX),
            GridRotation::RYzX => (Face::PY, Face::NZ, Face::PX),
            GridRotation::RYzx => (Face::PY, Face::NZ, Face::NX),
            GridRotation::RyZX => (Face::NY, Face::PZ, Face::PX),
            GridRotation::RyZx => (Face::NY, Face::PZ, Face::NX),
            GridRotation::RyzX => (Face::NY, Face::NZ, Face::PX),
            GridRotation::Ryzx => (Face::NY, Face::NZ, Face::NX),
            GridRotation::RZXY => (Face::PZ, Face::PX, Face::PY),
            GridRotation::RZXy => (Face::PZ, Face::PX, Face::NY),
            GridRotation::RZxY => (Face::PZ, Face::NX, Face::PY),
            GridRotation::RZxy => (Face::PZ, Face::NX, Face::NY),
            GridRotation::RzXY => (Face::NZ, Face::PX, Face::PY),
            GridRotation::RzXy => (Face::NZ, Face::PX, Face::NY),
            GridRotation::RzxY => (Face::NZ, Face::NX, Face::PY),
            GridRotation::Rzxy => (Face::NZ, Face::NX, Face::NY),
            GridRotation::RZYX => (Face::PZ, Face::PY, Face::PX),
            GridRotation::RZYx => (Face::PZ, Face::PY, Face::NX),
            GridRotation::RZyX => (Face::PZ, Face::NY, Face::PX),
            GridRotation::RZyx => (Face::PZ, Face::NY, Face::NX),
            GridRotation::RzYX => (Face::NZ, Face::PY, Face::PX),
            GridRotation::RzYx => (Face::NZ, Face::PY, Face::NX),
            GridRotation::RzyX => (Face::NZ, Face::NY, Face::PX),
            GridRotation::Rzyx => (Face::NZ, Face::NY, Face::NX),
        }
    }

    /// Constructs a rotation from a basis: the returned rotation carries
    /// `PX` to `basis.0`, `PY` to `basis.1`, and `PZ` to `basis.2`.
    pub fn from_basis(basis: Basis) -> (r: GridRotation)
        requires
            is_rotation_basis(basis),
        ensures
            r == GridRotation::spec_from_basis(basis),
    {
        match basis {
            (Face::PX, Face::PY, Face::PZ) => GridRotation::RXYZ,
            (Face::PX, Face::PY, Face::NZ) => GridRotation::RXYz,
            (Face::PX, Face::NY, Face::PZ) => GridRotation::RXyZ,
            (Face::PX, Face::NY, Face::NZ) => GridRotation::RXyz,
            (Face::NX, Face::PY, Face::PZ) => GridRotation::RxYZ,
            (Face::NX, Face::PY, Face::NZ) => GridRotation::RxYz,
            (Face::NX, Face::NY, Face::PZ) => GridRotation::RxyZ,
            (Face::NX, Face::NY, Face::NZ) => GridRotation::Rxyz,
            (Face::PX, Face::PZ, Face::PY) => GridRotation::RXZY,
            (Face::PX, Face::PZ, Face::NY) => GridRotation::RXZy,
            (Face::PX, Face::NZ, Face::PY) => GridRotation::RXzY,
            (Face::PX, Face::NZ, Face::NY) => GridRotation::RXzy,
            (Face::NX, Face::PZ, Face::PY) => GridRotation::RxZY,
            (Face::NX, Face::PZ, Face::NY) => GridRotation::RxZy,
            (Face::NX, Face::NZ, Face::PY) => GridRotation::RxzY,
            (Face::NX, Face::NZ, Face::NY) => GridRotation::Rxzy,
            (Face::PY, Face::PX, Face::PZ) => GridRotation::RYXZ,
            (Face::PY, Face::PX, Face::NZ) => GridRotation::RYXz,
            (Face::PY, Face::NX, Face::PZ) => GridRotation::RYxZ,
            (Face::PY, Face::NX, Face::NZ) => GridRotation::RYxz,
            (Face::NY, Face::PX, Face::PZ) => GridRotation::RyXZ,
            (Face::NY, Face::PX, Face::NZ) => GridRotation::RyXz,
            (Face::NY, Face::NX, Face::PZ) => GridRotation::RyxZ,
            (Face::NY, Face::NX, Face::NZ) => GridRotation::Ryxz,
            (Face::PY, Face::PZ, Face::PX) => GridRotation::RYZX,
            (Face::PY, Face::PZ, Face::NX) => GridRotation::RYZx,
            (Face::PY, Face::NZ, Face::PX) => GridRotation::RYzX,
            (Face::PY, Face::NZ, Face::NX) => GridRotation::RYzx,
            (Face::NY, Face::PZ, Face::PX) => GridRotation::RyZX,
            (Face::NY, Face::PZ, Face::NX) => GridRotation::RyZx,
            (Face::NY, Face::NZ, Face::PX) => GridRotation::RyzX,
            (Face::NY, Face::NZ, Face::NX) => GridRotation::Ryzx,
            (Face::PZ, Face::PX, Face::PY) => GridRotation::RZXY,
            (Face::PZ, Face::PX, Face::NY) => GridRotation::RZXy,
            (Face::PZ, Face::NX, Face::PY) => GridRotation::RZxY,
            (Face::PZ, Face::NX, Face::NY) => GridRotation::RZxy,
            (Face::NZ, Face::PX, Face::PY) => GridRotation::RzXY,
            (Face::NZ, Face::PX, Face::NY) => GridRotation::RzXy,
            (Face::NZ, Face::NX, Face::PY) => GridRotation::RzxY,
            (Face::NZ, Face::NX, Face::NY) => GridRotation::Rzxy,
            (Face::PZ, Face::PY, Face::PX) => GridRotation::RZYX,
            (Face::PZ, Face::PY, Face::NX) => GridRotation::RZYx,
            (Face::PZ, Face::NY, Face::PX) => GridRotation::RZyX,
            (Face::PZ, Face::NY, Face::NX) => GridRotation::RZyx,
            (Face::NZ, Face::PY, Face::PX) => GridRotation::RzYX,
            (Face::NZ, Face::PY, Face::NX) => GridRotation::RzYx,
            (Face::NZ, Face::NY, Face::PX) => GridRotation::RzyX,
            (Face::NZ, Face::NY, Face::NX) => GridRotation::Rzyx,
            _ => {
                proof {
                    assert(false);
                }
                GridRotation::RXYZ
            },
        }
    }

    pub fn transform(self, face: Face) -> (r: Face)
        ensures
            r == self.spec_transform(face),
    {
        match face {
            Face::Within => face,
            _ => {
                let b = self.to_basis();
                let axis = face.axis_number();
                let p = if axis == 0 {
                    b.0
                } else if axis == 1 {
                    b.1
                } else {
                    b.2
                };
                if face.negative() {
                    p.opposite()
                } else {
                    p
                }
            },
        }
    }

    /// Returns the inverse of this rotation; the one which undoes this.
    pub fn inverse(self) -> (r: GridRotation)
        ensures
            GridRotation::spec_mul(r, self) == GridRotation::RXYZ,
            GridRotation::spec_mul(self, r) == GridRotation::RXYZ,
    {
        match self {
            GridRotation::RXYZ => GridRotation::RXYZ,
            GridRotation::RXYz => GridRotation::RXYz,
            GridRotation::RXyZ => GridRotation::RXyZ,
            GridRotation::RXyz => GridRotation::RXyz,
            GridRotation::RxYZ => GridRotation::RxYZ,
            GridRotation::RxYz => GridRotation::RxYz,
            GridRotation::RxyZ => GridRotation::RxyZ,
            GridRotation::Rxyz => GridRotation::Rxyz,
            GridRotation::RXZY => GridRotation::RXZY,
            GridRotation::RXZy => GridRotation::RXzY,
            GridRotation::RXzY => GridRotation::RXZy,
            GridRotation::RXzy => GridRotation::RXzy,
            GridRotation::RxZY => GridRotation::RxZY,
            GridRotation::RxZy => GridRotation::RxzY,
            GridRotation::RxzY => GridRotation::RxZy,
            GridRotation::Rxzy => GridRotation::Rxzy,
            GridRotation::RYXZ => GridRotation::RYXZ,
            GridRotation::RYXz => GridRotation::RYXz,
            GridRotation::RYxZ => GridRotation::RyXZ,
            GridRotation::RYxz => GridRotation::RyXz,
            GridRotation::RyXZ => GridRotation::RYxZ,
            GridRotation::RyXz => GridRotation::RYxz,
            GridRotation::RyxZ => GridRotation::RyxZ,
            GridRotation::Ryxz => GridRotation::Ryxz,
            GridRotation::RYZX => GridRotation::RZXY,
            GridRotation::RYZx => GridRotation::RzXY,
            GridRotation::RYzX => GridRotation::RZXy,
            GridRotation::RYzx => GridRotation::RzXy,
            GridRotation::RyZX => GridRotation::RZxY,
            GridRotation::RyZx => GridRotation::RzxY,
            GridRotation::RyzX => GridRotation::RZxy,
            GridRotation::Ryzx => GridRotation::Rzxy,
            GridRotation::RZXY => GridRotation::RYZX,
            GridRotation::RZXy => GridRotation::RYzX,
            GridRotation::RZxY => GridRotation::RyZX,
            GridRotation::RZxy => GridRotation::RyzX,
            GridRotation::RzXY => GridRotation::RYZx,
            GridRotation::RzXy => GridRotation::RYzx,
            GridRotation::RzxY => GridRotation::RyZx,
            GridRotation::Rzxy => GridRotation::Ryzx,
            GridRotation::RZYX => GridRotation::RZYX,
            GridRotation::RZYx => GridRotation::RzYX,
            GridRotation::RZyX => GridRotation::RZyX,
            GridRotation::RZyx => GridRotation::RzyX,
            GridRotation::RzYX => GridRotation::RZYx,
            GridRotation::RzYx => GridRotation::RzYx,
            GridRotation::RzyX => GridRotation::RZyx,
            GridRotation::Rzyx => GridRotation::Rzyx,
        }
    }

    /// Concatenation: `a.then_apply... (a * b)` applies `b` first, then `a`.
    pub fn mul(self, rhs: GridRotation) -> (r: GridRotation)
        ensures
            r == GridRotation::spec_mul(self, rhs),
    {
        let b = rhs.to_basis();
        let t = (self.transform(b.0), self.transform(b.1), self.transform(b.2));
        proof {
            lemma_transform_keeps_basis(self, b);
        }
        GridRotation::from_basis(t)
    }

    /// The sequence identity, self, self*self, ... up to (but not
    /// including) the next identity.
    pub fn iterate(self) -> (r: Vec<GridRotation>)
        ensures
            r@.len() >= 1,
            r@[0] == GridRotation::RXYZ,
            forall|i: int|
                1 <= i < r@.len() ==> #[trigger] r@[i] == GridRotation::spec_mul(r@[i - 1], self),
            forall|i: int| 1 <= i < r@.len() ==> #[trigger] r@[i] != GridRotation::RXYZ,
            GridRotation::spec_mul(r@[r@.len() - 1], self) == GridRotation::RXYZ || r@.len() == 48,
    {
        let mut out: Vec<GridRotation> = Vec::new();
        out.push(GridRotation::RXYZ);
        let mut item = GridRotation::RXYZ;
        let mut k: usize = 1;
        while k < 48
            invariant
                1 <= k <= 48,
                out@.len() == k,
                out@[0] == GridRotation::RXYZ,
                item == out@[k - 1],
                forall|i: int|
                    1 <= i < out@.len() ==> #[trigger] out@[i] == GridRotation::spec_mul(
                        out@[i - 1],
                        self,
                    ),
                forall|i: int| 1 <= i < out@.len() ==> #[trigger] out@[i] != GridRotation::RXYZ,
            decreases 48 - k,
        {
            let next = item.mul(self);
            if matches!(next, GridRotation::RXYZ) {
                return out;
            }
            out.push(next);
            item = next;
            k = k + 1;
        }
        out
    }

    /// Expresses this rotation as a matrix which rotates "in place" the
    /// cubes within the volume spanning `[0, size]` on every axis.
    pub fn to_positive_octant_matrix(self, size: GridCoordinate) -> (r: GridMatrix)
        requires
            0 <= size <= 0x5000,
        ensures
            r.small(),
            r.x == self.spec_to_basis().0.spec_normal(),
            r.y == self.spec_to_basis().1.spec_normal(),
            r.z == self.spec_to_basis().2.spec_normal(),
            r.w.x == octant_offset(self.spec_to_basis(), 0, size as int),
            r.w.y == octant_offset(self.spec_to_basis(), 1, size as int),
            r.w.z == octant_offset(self.spec_to_basis(), 2, size as int),
    {
        let b = self.to_basis();
        let ox = offset_part(b.0, size);
        let oy = offset_part(b.1, size);
        let oz = offset_part(b.2, size);
        let w = GridVector {
            x: ox.x + oy.x + oz.x,
            y: ox.y + oy.y + oz.y,
            z: ox.z + oy.z + oz.z,
        };
        GridMatrix { x: b.0.normal_vector(), y: b.1.normal_vector(), z: b.2.normal_vector(), w }
    }

    /// Expresses this rotation as a matrix without any translation.
    pub fn to_rotation_matrix(self) -> (r: GridMatrix)
        ensures
            r.small(),
            r.x == self.spec_to_basis().0.spec_normal(),
            r.y == self.spec_to_basis().1.spec_normal(),
            r.z == self.spec_to_basis().2.spec_normal(),
            r.w == (GridVector { x: 0, y: 0, z: 0 }),
    {
        self.to_positive_octant_matrix(0)
    }
}

/// The translation a negative basis face contributes on each output axis.
pub open spec fn octant_offset(b: Basis, out_axis: int, size: int) -> int {
    let f0 = if out_axis == 0 {
        -b.0.spec_normal().x * size
    } else if out_axis == 1 {
        -b.0.spec_normal().y * size
    } else {
        -b.0.spec_normal().z * size
    };
    let f1 = if out_axis == 0 {
        -b.1.spec_normal().x * size
    } else if out_axis == 1 {
        -b.1.spec_normal().y * size
    } else {
        -b.1.spec_normal().z * size
    };
    let f2 = if out_axis == 0 {
        -b.2.spec_normal().x * size
    } else if out_axis == 1 {
        -b.2.spec_normal().y * size
    } else {
        -b.2.spec_normal().z * size
    };
    (if b.0.is_negative() { f0 } else { 0 }) + (if b.1.is_negative() { f1 } else { 0 })
        + (if b.2.is_negative() { f2 } else { 0 })
}

/// Offset contribution of one basis face: `-normal * size` for negative
/// faces, zero otherwise.
fn offset_part(f: Face, size: GridCoordinate) -> (r: GridVector)
    requires
        0 <= size <= 0x5000,
    ensures
        f.is_negative() ==> r.x == -f.spec_normal().x * size && r.y == -f.spec_normal().y * size
            && r.z == -f.spec_normal().z * size,
        !f.is_negative() ==> r == (GridVector { x: 0, y: 0, z: 0 }),
        -size <= r.x <= size,
        -size <= r.y <= size,
        -size <= r.z <= size,
{
    if f.negative() {
        let n = f.normal_vector();
        proof {
            assert(-1 <= n.x <= 1 && -1 <= n.y <= 1 && -1 <= n.z <= 1);
            assert(-size <= (0 - n.x) * size <= size && -size <= (0 - n.y) * size <= size
                && -size <= (0 - n.z) * size <= size) by (nonlinear_arith)
                requires
                    0 <= size,
                    -1 <= n.x <= 1,
                    -1 <= n.y <= 1,
                    -1 <= n.z <= 1,
            ;
        }
        GridVector { x: (0 - n.x) * size, y: (0 - n.y) * size, z: (0 - n.z) * size }
    } else {
        GridVector { x: 0, y: 0, z: 0 }
    }
}

/// Transforming a rotation basis by a rotation gives a rotation basis.
proof fn lemma_transform_keeps_basis(a: GridRotation, b: Basis)
    requires
        is_rotation_basis(b),
    ensures
        is_rotation_basis((a.spec_transform(b.0), a.spec_transform(b.1), a.spec_transform(b.2))),
{
    assert(is_rotation_basis(a.spec_to_basis()));
    lemma_transform_axis(a, b.0);
    lemma_transform_axis(a, b.1);
    lemma_transform_axis(a, b.2);
}

/// `transform` maps a proper face to a proper face whose axis depends only
/// on the input's axis, through the injective axis map of the basis.
proof fn lemma_transform_axis(a: GridRotation, f: Face)
    requires
        f != Face::Within,
    ensures
        a.spec_transform(f) != Face::Within,
        Face::spec_axis_number(a.spec_transform(f)) == Face::spec_axis_number(
            if Face::spec_axis_number(f) == 0 {
                a.spec_to_basis().0
            } else if Face::spec_axis_number(f) == 1 {
                a.spec_to_basis().1
            } else {
                a.spec_to_basis().2
            },
        ),
{
    assert(is_rotation_basis(a.spec_to_basis()));
}

} // verus!
