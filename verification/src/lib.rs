//! Verified core of an X11 status bar.
//!
//! The bar is a docked strip of indicators (window-manager desktops, focused
//! window title, clock, audio volume, display brightness).  This crate holds
//! the decision logic of that bar: color parsing, the window-manager report
//! parser, the mixer model, the cross-thread message codec, indicator
//! geometry and the event-dispatch rules.  The unverified shell around it
//! (X requests, drawing, sockets, device handles) lives outside this crate
//! and consumes these functions through plain values.

pub mod error;
pub mod util;
pub mod message;
pub mod light;
pub mod alsa;
pub mod bspwm;
pub mod components;
pub mod dispatch;
pub mod x11;
