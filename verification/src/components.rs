//! The indicator contract: every indicator owns a rectangular hit region,
//! reacts to pointer and key events, and is redrawn by the event loop.  The
//! drawing itself goes through the 2D library and lives outside this crate;
//! what lives here is each indicator's geometry and decision logic.

pub mod bspwm;
pub mod date;
pub mod light;
pub mod title;
pub mod volume;

use vstd::prelude::*;

verus! {

/// A pointer or key event delivered to an indicator.  Buttons follow the
/// X11 convention: 1 left, 2 middle, 3 right, 4 wheel-up, 5 wheel-down.
#[derive(Debug, Clone, Copy, PartialEq, Eq, Structural)]
pub enum Event {
    MouseClick { x: i16, y: i16, button: u8 },
    KeyPress { keycode: u8 },
}

/// An indicator's declared hit region: anchor and nominal size.
#[derive(Debug, Clone, Copy, PartialEq, Eq, Structural)]
pub struct Bounds {
    pub x: i16,
    pub y: i16,
    pub width: u16,
    pub height: u16,
}

impl Bounds {
    /// The region fits the coordinate space: its far corner is still
    /// representable.
    pub open spec fn wf(self) -> bool {
        &&& self.x + self.width <= i16::MAX
        &&& self.y + self.height <= i16::MAX
    }

    /// Whether `(x, y)` lies in the region, borders included.
    pub open spec fn spec_contains(self, x: i16, y: i16) -> bool {
        &&& self.x <= x <= self.x + self.width
        &&& self.y <= y <= self.y + self.height
    }

    /// Point-in-rectangle test for event dispatch.
    pub fn contains_point(&self, x: i16, y: i16) -> (r: bool)
        ensures
            r == self.spec_contains(x, y),
    {
        let far_x: i32 = self.x as i32 + self.width as i32;
        let far_y: i32 = self.y as i32 + self.height as i32;
        x >= self.x && x as i32 <= far_x && y >= self.y && y as i32 <= far_y
    }
}

} // verus!
