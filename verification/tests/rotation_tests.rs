use std::collections::HashSet;

use all_is_cubes::math::Face;
use all_is_cubes::rotation::GridRotation;

#[test]
fn identity() {
    assert_eq!(GridRotation::RXYZ, GridRotation::identity());
    assert_eq!(
        GridRotation::RXYZ,
        GridRotation::from_basis((Face::PX, Face::PY, Face::PZ))
    );
}

#[test]
fn ccw_cw() {
    // Clockwise and counterclockwise about the y axis cancel.
    let clockwise = GridRotation::RZYx;
    let counterclockwise = GridRotation::RzYX;
    assert_eq!(GridRotation::RXYZ, counterclockwise.mul(clockwise));
    assert_eq!(counterclockwise, clockwise.inverse());
}

/// The enumeration of rotations is complete and has no duplicates.
#[test]
fn enumeration() {
    let all = GridRotation::all();
    let mut set = HashSet::new();
    for rot in &all {
        set.insert(*rot);
    }
    assert_eq!(set.len(), all.len());
    assert_eq!(48, all.len());
}
