//! The focused-window title indicator.  The title is queried from the X
//! server by the shell; the geometry lives here.

use vstd::prelude::*;

use crate::components::Bounds;

verus! {

/// The title indicator's declared hit region.
pub fn title_bounds() -> (r: Bounds)
    ensures
        r == (Bounds { x: 0, y: 0, width: 300, height: 40 }),
        r.wf(),
{
    Bounds { x: 0, y: 0, width: 300, height: 40 }
}

/// The color the title text is drawn in.
pub fn title_color() -> (r: &'static str)
    ensures
        r@ == "#ff3329"@,
{
    "#ff3329"
}

} // verus!
