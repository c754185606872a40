//! The backlight indicator: a sun glyph with a line showing the level.
//! Wheel-up and wheel-down step the level by 5 within `[0, 100]`; the DDC
//! write itself is device I/O done by the shell.

use vstd::prelude::*;

use crate::components::Bounds;
use crate::components::Event;
use crate::light::brightness_down;
use crate::light::brightness_up;

verus! {

/// The backlight indicator's declared hit region.
pub fn light_bounds() -> (r: Bounds)
    ensures
        r == (Bounds { x: 1120, y: 0, width: 100, height: 40 }),
        r.wf(),
{
    Bounds { x: 1120, y: 0, width: 100, height: 40 }
}

/// The sun glyph and its color.
pub fn light_style() -> (r: (&'static str, &'static str))
    ensures
        r.0@ == "\u{f185}"@,
        r.1@ == "#ffcc00"@,
{
    ("\u{f185}", "#ffcc00")
}

/// Reacts to an event on the backlight indicator: wheel-up raises the level
/// by 5 saturating at 100, wheel-down lowers it by 5 saturating at 0; the
/// returned level is what the shell writes to the display, `None` when the
/// event asks for nothing.
pub fn handle_event(level: u16, event: &Event) -> (r: Option<u16>)
    requires
        level <= 100,
    ensures
        match *event {
            Event::MouseClick { x, y, button } => {
                if button == 4 {
                    r == Some((if level + 5 <= 100 { level + 5 } else { 100int }) as u16)
                } else if button == 5 {
                    r == Some((if level >= 5 { level - 5 } else { 0int }) as u16)
                } else {
                    r is None
                }
            },
            Event::KeyPress { keycode } => r is None,
        },
        r matches Some(v) ==> v <= 100,
{
    match event {
        Event::MouseClick { x: _, y: _, button } => {
            if *button == 4 {
                Some(brightness_up(level))
            } else if *button == 5 {
                Some(brightness_down(level))
            } else {
                None
            }
        },
        Event::KeyPress { .. } => None,
    }
}

} // verus!
