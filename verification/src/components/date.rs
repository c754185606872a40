//! The clock indicator: the current local time inside a rounded background.
//! Reading and formatting the wall clock, and the drawing, are done by the
//! shell; the geometry lives here.

use vstd::prelude::*;

use crate::components::Bounds;

verus! {

/// The clock indicator's declared hit region.
pub fn date_bounds() -> (r: Bounds)
    ensures
        r == (Bounds { x: 820, y: 0, width: 200, height: 40 }),
        r.wf(),
{
    Bounds { x: 820, y: 0, width: 200, height: 40 }
}

/// The color the clock text is drawn in.
pub fn date_color() -> (r: &'static str)
    ensures
        r@ == "#ff3329"@,
{
    "#ff3329"
}

} // verus!
