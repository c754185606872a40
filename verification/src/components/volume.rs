//! The audio volume indicator: a speaker glyph, pink when unmuted and gray
//! when muted, with a line whose length shows the normalized volume.  Left
//! click toggles mute, wheel-up and wheel-down step the volume by `1/20`.

use vstd::prelude::*;

use crate::alsa::Audio;
use crate::alsa::spec_toggled;
use crate::alsa::spec_volume_down;
use crate::alsa::spec_volume_up;
use crate::components::Bounds;
use crate::components::Event;

verus! {

/// The device write the shell owes after an event was handled.
#[derive(Debug, Clone, Copy, PartialEq, Eq, Structural)]
pub enum VolumeCommand {
    /// Write the model's switch state to the device and redraw.
    ToggleMute,
    /// Write the model's volume to the device and redraw.
    SetVolume,
    /// No device write, no redraw.
    Nothing,
}

/// The volume indicator's declared hit region.
pub fn volume_bounds() -> (r: Bounds)
    ensures
        r == (Bounds { x: 1420, y: 0, width: 100, height: 40 }),
        r.wf(),
{
    Bounds { x: 1420, y: 0, width: 100, height: 40 }
}

/// The speaker glyph and its color: pink when unmuted, gray when muted.
pub fn volume_style(unmuted: bool) -> (r: (&'static str, &'static str))
    ensures
        unmuted ==> r.0@ == "\u{f028}"@ && r.1@ == "#ff3399"@,
        !unmuted ==> r.0@ == "\u{f026}"@ && r.1@ == "#666666"@,
{
    if unmuted {
        ("\u{f028}", "#ff3399")
    } else {
        ("\u{f026}", "#666666")
    }
}

/// Reacts to an event on the volume indicator: left click flips the mute
/// switch, wheel-up and wheel-down step the volume by `1/20` clamped into
/// `[0, 1]`; every other event leaves the mixer untouched.  The returned
/// command names the device write the shell still owes.
pub fn handle_event(audio: &mut Audio, event: &Event) -> (r: VolumeCommand)
    requires
        old(audio).wf(),
    ensures
        final(audio).wf(),
        match *event {
            Event::MouseClick { x, y, button } => {
                if button == 1 {
                    *final(audio) == spec_toggled(*old(audio)) && r == VolumeCommand::ToggleMute
                } else if button == 4 {
                    *final(audio) == spec_volume_up(*old(audio)) && r == VolumeCommand::SetVolume
                } else if button == 5 {
                    *final(audio) == spec_volume_down(*old(audio)) && r == VolumeCommand::SetVolume
                } else {
                    *final(audio) == *old(audio) && r == VolumeCommand::Nothing
                }
            },
            Event::KeyPress { keycode } => *final(audio) == *old(audio) && r
                == VolumeCommand::Nothing,
        },
{
    match event {
        Event::MouseClick { x: _, y: _, button } => {
            if *button == 1 {
                audio.toggle_mute();
                VolumeCommand::ToggleMute
            } else if *button == 4 {
                audio.volume_up();
                VolumeCommand::SetVolume
            } else if *button == 5 {
                audio.volume_down();
                VolumeCommand::SetVolume
            } else {
                VolumeCommand::Nothing
            }
        },
        Event::KeyPress { .. } => VolumeCommand::Nothing,
    }
}

} // verus!
