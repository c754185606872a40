//! The window-manager desktops indicator: for each monitor its name, pink
//! when active and gray otherwise, followed by one glyph per desktop.  Free
//! desktops are hidden; the drawing is done by the shell.

use vstd::prelude::*;

use crate::bspwm::DesktopEnum;
use crate::components::Bounds;

verus! {

/// The desktops indicator's declared hit region.
pub fn bspwm_bounds() -> (r: Bounds)
    ensures
        r == (Bounds { x: 10, y: 0, width: 260, height: 40 }),
        r.wf(),
{
    Bounds { x: 10, y: 0, width: 260, height: 40 }
}

/// The color a monitor name is drawn in: pink when the monitor is active,
/// gray otherwise.
pub fn monitor_color(is_active: bool) -> (r: &'static str)
    ensures
        is_active ==> r@ == "#ff3399"@,
        !is_active ==> r@ == "#666666"@,
{
    if is_active {
        "#ff3399"
    } else {
        "#666666"
    }
}

/// The glyph and color a desktop is drawn with, and whether it shows at
/// all: focused desktops are a pink filled dot, occupied ones a white ring,
/// urgent ones a red mark, and free desktops are hidden.
pub fn desktop_glyph(state: DesktopEnum) -> (r: (&'static str, &'static str, bool))
    ensures
        state is FOCUSED ==> r.0@ == "\u{25cf}"@ && r.1@ == "#ff3399"@ && r.2,
        state is OCCUPIED ==> r.0@ == "\u{25cb}"@ && r.1@ == "#ffffff"@ && r.2,
        state is URGENT ==> r.0@ == "!"@ && r.1@ == "#ff0000"@ && r.2,
        state is FREE ==> r.0@ == "\u{25cb}"@ && r.1@ == "#666666"@ && !r.2,
{
    match state {
        DesktopEnum::FOCUSED => ("\u{25cf}", "#ff3399", true),
        DesktopEnum::OCCUPIED => ("\u{25cb}", "#ffffff", true),
        DesktopEnum::URGENT => ("!", "#ff0000", true),
        DesktopEnum::FREE => ("\u{25cb}", "#666666", false),
    }
}

} // verus!
