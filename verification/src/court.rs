//! The play field: centre lines of the four walls, derived once from the
//! viewport size.

use vstd::prelude::*;

use crate::fixed::abs_s;

verus! {

/// Ghost image of `Bounds`, over mathematical integers.
pub ghost struct BoundsG {
    pub top: int,
    pub bottom: int,
    pub left: int,
    pub right: int,
}

/// Centre lines of the four walls. The playable space reaches to each wall's
/// inner edge, half a wall thickness further in.
#[derive(Clone, Copy, Debug, PartialEq, Eq, Structural)]
pub struct Bounds {
    pub top: i64,
    pub bottom: i64,
    pub left: i64,
    pub right: i64,
}

impl View for Bounds {
    type V = BoundsG;

    open spec fn view(&self) -> BoundsG {
        BoundsG {
            top: self.top as int,
            bottom: self.bottom as int,
            left: self.left as int,
            right: self.right as int,
        }
    }
}

impl BoundsG {
    /// Every field in machine range, the bottom wall below the top wall, and
    /// the left scoring edge strictly left of the right one.
    pub open spec fn wf(self) -> bool {
        &&& abs_s(self.top) <= crate::BOUND_LIMIT
        &&& abs_s(self.bottom) <= crate::BOUND_LIMIT
        &&& abs_s(self.left) <= crate::BOUND_LIMIT
        &&& abs_s(self.right) <= crate::BOUND_LIMIT
        &&& self.bottom <= self.top
        &&& self.left < self.right
    }

    /// Inner edge of the top wall.
    pub open spec fn inner_top(self) -> int {
        self.top - crate::WALL_THICKNESS / 2
    }

    /// Inner edge of the bottom wall.
    pub open spec fn inner_bottom(self) -> int {
        self.bottom + crate::WALL_THICKNESS / 2
    }
}

/// Wall centre lines for a viewport of the given size: each wall sits just
/// inside the viewport edge, inset by half its own thickness.
pub fn field_bounds(window_width: i64, window_height: i64) -> (b: Bounds)
    requires
        2 * crate::WALL_THICKNESS < window_width <= crate::BOUND_LIMIT,
        2 * crate::WALL_THICKNESS < window_height <= crate::BOUND_LIMIT,
    ensures
        b@.wf(),
        b@.top == window_height / 2 - crate::WALL_THICKNESS / 2,
        b@.bottom == -(window_height / 2) + crate::WALL_THICKNESS / 2,
        b@.left == -(window_width / 2) + crate::WALL_THICKNESS / 2,
        b@.right == window_width / 2 - crate::WALL_THICKNESS / 2,
{
    let half_h = crate::fixed::half(window_height);
    let half_w = crate::fixed::half(window_width);
    let half_t = crate::fixed::half(crate::WALL_THICKNESS);
    Bounds {
        top: half_h - half_t,
        bottom: -half_h + half_t,
        left: -half_w + half_t,
        right: half_w - half_t,
    }
}

} // verus!
