//! The visibility grid handed in by the external field-of-view
//! collaborator. The core never computes visibility itself; it treats
//! this per-tile predicate as authoritative for AI activation and
//! targeting.
use vstd::prelude::*;

use crate::tile::in_bounds;
use crate::MAP_HEIGHT;
use crate::MAP_WIDTH;

verus! {

/// A per-tile "currently visible" predicate, indexed `visible[x][y]`.
#[derive(Debug)]
pub struct Fov {
    pub visible: Vec<Vec<bool>>,
}

/// The visibility grid has exactly the fixed level dimensions.
pub open spec fn fov_wf(fov: &Fov) -> bool {
    &&& fov.visible@.len() == MAP_WIDTH
    &&& forall|x: int| 0 <= x < MAP_WIDTH ==> (#[trigger] fov.visible@[x])@.len() == MAP_HEIGHT
}

/// Whether `(x, y)` is currently visible.
pub open spec fn spec_in_fov(fov: &Fov, x: int, y: int) -> bool {
    fov.visible@[x]@[y]
}

impl Fov {
    /// A visibility grid with the same answer everywhere; callers
    /// overwrite it tile by tile.
    pub fn uniform(value: bool) -> (fov: Fov)
        ensures
            fov_wf(&fov),
            forall|x: int, y: int| in_bounds(x, y) ==> spec_in_fov(&fov, x, y) == value,
    {
        let mut columns: Vec<Vec<bool>> = Vec::new();
        let mut x: usize = 0;
        while x < MAP_WIDTH as usize
            invariant
                0 <= x <= MAP_WIDTH,
                columns@.len() == x,
                forall|i: int|
                    0 <= i < x ==> (#[trigger] columns@[i])@ == Seq::new(
                        MAP_HEIGHT as nat,
                        |j: int| value,
                    ),
            decreases MAP_WIDTH - x,
        {
            let mut column: Vec<bool> = Vec::new();
            let mut y: usize = 0;
            while y < MAP_HEIGHT as usize
                invariant
                    0 <= y <= MAP_HEIGHT,
                    column@.len() == y,
                    forall|j: int| 0 <= j < y ==> column@[j] == value,
                decreases MAP_HEIGHT - y,
            {
                column.push(value);
                y += 1;
            }
            proof {
                assert(column@ =~= Seq::new(MAP_HEIGHT as nat, |j: int| value));
            }
            columns.push(column);
            x += 1;
        }
        Fov { visible: columns }
    }

    /// Records the collaborator's answer for one tile.
    pub fn set(&mut self, x: i32, y: i32, value: bool)
        requires
            fov_wf(old(self)),
            in_bounds(x as int, y as int),
        ensures
            fov_wf(final(self)),
            forall|a: int, b: int|
                in_bounds(a, b) ==> spec_in_fov(final(self), a, b) == (if a == x && b == y {
                    value
                } else {
                    spec_in_fov(old(self), a, b)
                }),
    {
        let column = &mut self.visible[x as usize];
        column.set(y as usize, value);
    }

    /// Whether `(x, y)` is currently visible.
    pub fn is_in_fov(&self, x: i32, y: i32) -> (r: bool)
        requires
            fov_wf(self),
            in_bounds(x as int, y as int),
        ensures
            r == spec_in_fov(self, x as int, y as int),
    {
        self.visible[x as usize][y as usize]
    }
}

} // verus!
