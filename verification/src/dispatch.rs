//! The event loop's dispatch rules: which indicator an X event reaches.
//!
//! The loop itself blocks on the X connection outside this crate; every
//! event it takes off the queue is reduced to a plain value and handed to
//! [`dispatch`], whose result says what the loop does next.  Indicators are
//! addressed by their position in declaration order: backlight, volume,
//! clock, title, window-manager desktops.

use vstd::prelude::*;

use crate::components::Bounds;
use crate::message::Message;
use crate::message::spec_from_code;

verus! {

/// Position of the backlight indicator in declaration order.
pub const LIGHT_INDEX: usize = 0;

/// Position of the volume indicator in declaration order.
pub const VOLUME_INDEX: usize = 1;

/// Position of the clock indicator in declaration order.
pub const DATE_INDEX: usize = 2;

/// Position of the title indicator in declaration order.
pub const TITLE_INDEX: usize = 3;

/// Position of the window-manager desktops indicator in declaration order.
pub const BSPWM_INDEX: usize = 4;

/// An X event reduced to the values the dispatch rules read.
#[derive(Debug, Clone, Copy, PartialEq, Eq, Structural)]
pub enum BarEvent {
    /// An expose with its remaining-rectangle count.
    Expose { count: u16 },
    /// A pointer press at window coordinates.
    ButtonPress { x: i16, y: i16, button: u8 },
    /// A key press.
    KeyPress { keycode: u8 },
    /// A property change on a watched window; the flag says whether the
    /// changed atom is the active-window or window-name property.
    PropertyNotify { is_title_atom: bool },
    /// A client message with the first word of its payload.
    ClientMessage { word: u32 },
    /// Any other X event.
    Other,
}

/// What the event loop does with one event.
#[derive(Debug, Clone, Copy, PartialEq, Eq, Structural)]
pub enum Action {
    /// Redraw every indicator in declaration order, then flush.
    RedrawAll,
    /// Hand the event to the one indicator at this position.
    Deliver { index: usize },
    /// Hand the key event to every indicator.
    Broadcast,
    /// Redraw the one indicator at this position.
    Redraw { index: usize },
    /// Do nothing.
    Nothing,
}

/// The position of the first region that contains `(x, y)`, scanning in
/// declaration order; `None` when no region does.
pub fn first_hit(bounds: &Vec<Bounds>, x: i16, y: i16) -> (r: Option<usize>)
    ensures
        match r {
            Some(i) => {
                &&& i < bounds@.len()
                &&& bounds@[i as int].spec_contains(x, y)
                &&& forall|j: int| 0 <= j < i ==> !(#[trigger] bounds@[j]).spec_contains(x, y)
            },
            None => forall|j: int|
                0 <= j < bounds@.len() ==> !(#[trigger] bounds@[j]).spec_contains(x, y),
        },
{
    let mut i: usize = 0;
    while i < bounds.len()
        invariant
            i <= bounds@.len(),
            forall|j: int| 0 <= j < i ==> !(#[trigger] bounds@[j]).spec_contains(x, y),
        decreases bounds@.len() - i,
    {
        if bounds[i].contains_point(x, y) {
            return Some(i);
        }
        i = i + 1;
    }
    None
}

/// Reduces one X event to the action the loop performs.
///
/// An expose with no rectangles to follow redraws everything; a button
/// press is delivered to exactly the first indicator, in declaration order,
/// whose declared region contains the point, and to none when no region
/// does; a key press is broadcast to every indicator; a change of the
/// active-window or window-name property redraws the title; a client
/// message redraws exactly the indicator its first word names, the clock on
/// a tick and the desktops on a window-manager update; everything else is
/// ignored.
pub fn dispatch(bounds: &Vec<Bounds>, event: &BarEvent) -> (r: Action)
    ensures
        match *event {
            BarEvent::Expose { count } => r == if count == 0 {
                Action::RedrawAll
            } else {
                Action::Nothing
            },
            BarEvent::ButtonPress { x, y, button } => {
                &&& (r matches Action::Deliver { index } ==> {
                    &&& index < bounds@.len()
                    &&& bounds@[index as int].spec_contains(x, y)
                    &&& forall|j: int|
                        0 <= j < index ==> !(#[trigger] bounds@[j]).spec_contains(x, y)
                })
                &&& (r is Nothing ==> forall|j: int|
                    0 <= j < bounds@.len() ==> !(#[trigger] bounds@[j]).spec_contains(x, y))
                &&& (r is Deliver || r is Nothing)
            },
            BarEvent::KeyPress { keycode } => r == Action::Broadcast,
            BarEvent::PropertyNotify { is_title_atom } => r == if is_title_atom {
                Action::Redraw { index: TITLE_INDEX }
            } else {
                Action::Nothing
            },
            BarEvent::ClientMessage { word } => r == (Action::Redraw {
                index: if spec_from_code(word) is BspwmUpdate {
                    BSPWM_INDEX
                } else {
                    DATE_INDEX
                },
            }),
            BarEvent::Other => r == Action::Nothing,
        },
{
    match event {
        BarEvent::Expose { count } => {
            if *count == 0 {
                Action::RedrawAll
            } else {
                Action::Nothing
            }
        },
        BarEvent::ButtonPress { x, y, button: _ } => {
            match first_hit(bounds, *x, *y) {
                Some(i) => Action::Deliver { index: i },
                None => Action::Nothing,
            }
        },
        BarEvent::KeyPress { .. } => Action::Broadcast,
        BarEvent::PropertyNotify { is_title_atom } => {
            if *is_title_atom {
                Action::Redraw { index: TITLE_INDEX }
            } else {
                Action::Nothing
            }
        },
        BarEvent::ClientMessage { word } => {
            match Message::from_code(*word) {
                Message::BspwmUpdate => Action::Redraw { index: BSPWM_INDEX },
                Message::Date => Action::Redraw { index: DATE_INDEX },
            }
        },
        BarEvent::Other => Action::Nothing,
    }
}

} // verus!
