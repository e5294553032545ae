use vstd::prelude::*;
use crate::components::{Position, UNITS_PER_PIXEL};

verus! {

/// Scale factor 1.0, in thousandths.
pub const SCALE_ONE: i32 = 1000;

/// A zoom factor per axis, in thousandths.
#[derive(PartialEq, Eq, Structural, Debug, Copy, Clone)]
pub struct Scale {
    pub x: i32,
    pub y: i32,
}

/// The viewport onto the world: where it looks, how large it is before
/// scaling, and its zoom. `prev_pos` is set only while the camera moves.
#[derive(PartialEq, Eq, Structural, Debug, Copy, Clone)]
pub struct Camera {
    pub cur_pos: Position,
    pub prev_pos: Option<Position>,
    pub width: i32,
    pub height: i32,
    pub cur_scale: Scale,
    pub prev_scale: Option<Scale>,
}

impl specs::Component for Camera {
    type Storage = specs::DenseVecStorage<Self>;
}

impl Camera {
    /// A camera at rest at `cur_pos`, zoomed by `scale` on both axes.
    pub open spec fn new_spec(cur_pos: Position, width: i32, height: i32, scale: i32) -> Camera {
        Camera {
            cur_pos,
            prev_pos: None,
            width,
            height,
            cur_scale: Scale { x: scale, y: scale },
            prev_scale: None,
        }
    }

    pub fn new(cur_pos: Position, width: i32, height: i32, scale: i32) -> (r: Self)
        ensures
            r == Camera::new_spec(cur_pos, width, height, scale),
    {
        Self {
            cur_pos,
            prev_pos: None,
            width,
            height,
            cur_scale: Scale { x: scale, y: scale },
            prev_scale: None,
        }
    }
}

impl Default for Camera {
    fn default() -> (r: Self)
        ensures
            r.cur_pos == (Position { x: 0, y: 0 }),
            r.prev_pos.is_none(),
            r.width == 800 * UNITS_PER_PIXEL,
            r.height == 600 * UNITS_PER_PIXEL,
            r.cur_scale == (Scale { x: SCALE_ONE, y: SCALE_ONE }),
            r.prev_scale.is_none(),
    {
        Self::new(Position::new(0, 0), 800 * UNITS_PER_PIXEL, 600 * UNITS_PER_PIXEL, SCALE_ONE)
    }
}

} // verus!
