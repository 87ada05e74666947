//! A dense 3D array addressed by grid positions within an axis-aligned box.

use vstd::prelude::*;

use crate::math::{GridAab, GridVector};

verus! {

/// A `T` for every cube of `bounds`, stored as nested vectors indexed
/// x, then y, then z.
#[derive(Clone, Debug, PartialEq)]
pub struct GridArray<T> {
    pub bounds: GridAab,
    pub contents: Vec<Vec<Vec<T>>>,
}

impl<T> GridArray<T> {
    pub open spec fn wf(self) -> bool {
        &&& self.bounds.wf()
        &&& self.contents@.len() == self.bounds.size.x
        &&& forall|i: int|
            0 <= i < self.contents@.len() ==> (#[trigger] self.contents@[i])@.len()
                == self.bounds.size.y
        &&& forall|i: int, jj: int|
            0 <= i < self.contents@.len() && 0 <= jj < self.contents@[i]@.len() ==> (
            #[trigger] self.contents@[i]@[jj])@.len() == self.bounds.size.z
    }

    /// The element stored for `cube`, which must be within bounds.
    pub open spec fn at(self, cube: GridVector) -> T {
        self.contents@[cube.x - self.bounds.lower.x]@[cube.y - self.bounds.lower.y]@[cube.z
            - self.bounds.lower.z]
    }

    pub fn grid(&self) -> (r: GridAab)
        ensures
            r == self.bounds,
    {
        self.bounds
    }

    pub fn get(&self, cube: GridVector) -> (r: &T)
        requires
            self.wf(),
            self.bounds.contains_cube(cube),
        ensures
            *r == self.at(cube),
    {
        let i = (cube.x - self.bounds.lower.x) as usize;
        let jj = (cube.y - self.bounds.lower.y) as usize;
        let k = (cube.z - self.bounds.lower.z) as usize;
        &self.contents[i][jj][k]
    }

    /// Look up a cube that may be out of bounds.
    pub fn get_checked(&self, cube: GridVector) -> (r: Option<&T>)
        requires
            self.wf(),
        ensures
            match r {
                Some(v) => self.bounds.contains_cube(cube) && *v == self.at(cube),
                None => !self.bounds.contains_cube(cube),
            },
    {
        if self.bounds.contains(cube) {
            Some(self.get(cube))
        } else {
            None
        }
    }

    pub fn set(&mut self, cube: GridVector, value: T)
        requires
            old(self).wf(),
            old(self).bounds.contains_cube(cube),
        ensures
            final(self).wf(),
            final(self).bounds == old(self).bounds,
            final(self).at(cube) == value,
            forall|c: GridVector|
                old(self).bounds.contains_cube(c) && c != cube ==> final(self).at(c) == old(
                    self,
                ).at(c),
    {
        let i = (cube.x - self.bounds.lower.x) as usize;
        let jj = (cube.y - self.bounds.lower.y) as usize;
        let k = (cube.z - self.bounds.lower.z) as usize;
        let plane = &mut self.contents[i];
        let row = &mut plane[jj];
        let elem = &mut row[k];
        *elem = value;
    }
}

impl<T: Copy> GridArray<T> {
    /// An array with every cube of `bounds` holding `value`.
    pub fn repeat(bounds: GridAab, value: T) -> (r: GridArray<T>)
        requires
            bounds.wf(),
        ensures
            r.wf(),
            r.bounds == bounds,
            forall|c: GridVector| bounds.contains_cube(c) ==> r.at(c) == value,
    {
        let sx = bounds.size.x as usize;
        let sy = bounds.size.y as usize;
        let sz = bounds.size.z as usize;
        let mut contents: Vec<Vec<Vec<T>>> = Vec::new();
        while contents.len() < sx
            invariant
                contents@.len() <= sx,
                forall|i: int|
                    0 <= i < contents@.len() ==> (#[trigger] contents@[i])@.len() == sy,
                forall|i: int, jj: int|
                    0 <= i < contents@.len() && 0 <= jj < sy ==> (#[trigger] contents@[i]@[jj])@.len() == sz,
                forall|i: int, jj: int, k: int|
                    0 <= i < contents@.len() && 0 <= jj < sy && 0 <= k < sz
                        ==> (#[trigger] contents@[i]@[jj]@[k]) == value,
            decreases sx - contents.len(),
        {
            let mut plane: Vec<Vec<T>> = Vec::new();
            while plane.len() < sy
                invariant
                    plane@.len() <= sy,
                    forall|jj: int| 0 <= jj < plane@.len() ==> (#[trigger] plane@[jj])@.len() == sz,
                    forall|jj: int, k: int|
                        0 <= jj < plane@.len() && 0 <= k < sz ==> (#[trigger] plane@[jj]@[k])
                            == value,
                decreases sy - plane.len(),
            {
                let mut row: Vec<T> = Vec::new();
                while row.len() < sz
                    invariant
                        row@.len() <= sz,
                        forall|k: int| 0 <= k < row@.len() ==> (#[trigger] row@[k]) == value,
                    decreases sz - row.len(),
                {
                    row.push(value);
                }
                plane.push(row);
            }
            contents.push(plane);
        }
        GridArray { bounds, contents }
    }
}

} // verus!
