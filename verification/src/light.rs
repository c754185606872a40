//! Backlight level model.
//!
//! The DDC/CI traffic that reads and writes the monitor luminance feature is
//! device I/O and lives outside this crate.  The level is a percentage in
//! `0 ..= 100`; the stepping rules the brightness indicator applies on wheel
//! input live here.

use vstd::prelude::*;

verus! {

/// Reads the current backlight level.  The luminance query is not wired up,
/// so the level reads as the resting value 0.
pub fn get_light() -> (r: u16)
    ensures
        r == 0,
{
    0
}

/// One wheel-up step: the level raised by 5, saturating at 100.
pub fn brightness_up(level: u16) -> (r: u16)
    requires
        level <= 100,
    ensures
        r == if level + 5 <= 100 { level + 5 } else { 100int },
        r <= 100,
{
    let stepped = level + 5;
    if stepped <= 100 {
        stepped
    } else {
        100
    }
}

/// One wheel-down step: the level lowered by 5, saturating at 0.
pub fn brightness_down(level: u16) -> (r: u16)
    ensures
        r == if level >= 5 { level - 5 } else { 0 },
        r <= level,
{
    if level >= 5 {
        level - 5
    } else {
        0
    }
}

} // verus!
