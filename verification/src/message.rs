//! Cross-thread wakeup messages.
//!
//! Background producers wake the UI thread by sending an X client message to
//! the bar window.  A message is encoded into the first 32-bit word of the
//! client-message payload; the remaining words are zero.  Sending the X event
//! itself is I/O and lives outside this crate; the codec lives here.

use vstd::prelude::*;

verus! {

/// A wakeup posted by a background producer: the clock ticked, or the
/// window-manager state changed.
#[derive(Debug, Clone, Copy, PartialEq, Eq, Structural)]
pub enum Message {
    Date,
    BspwmUpdate,
}

/// The 32-bit word that encodes a message.
pub open spec fn spec_code(m: Message) -> u32 {
    match m {
        Message::Date => 0,
        Message::BspwmUpdate => 1,
    }
}

/// The message a 32-bit word decodes to: `1` means a window-manager update,
/// every other word a clock tick.
pub open spec fn spec_from_code(v: u32) -> Message {
    if v == 1 {
        Message::BspwmUpdate
    } else {
        Message::Date
    }
}

impl Message {
    /// Encodes the message as the first word of a client-message payload.
    pub fn code(self) -> (r: u32)
        ensures
            r == spec_code(self),
    {
        match self {
            Message::Date => 0,
            Message::BspwmUpdate => 1,
        }
    }

    /// The full five-word client-message payload: the code, then zeros.
    pub fn to_data(self) -> (r: [u32; 5])
        ensures
            r@ =~= seq![spec_code(self), 0u32, 0u32, 0u32, 0u32],
    {
        [self.code(), 0, 0, 0, 0]
    }

    /// Decodes the first word of a client-message payload.
    pub fn from_code(v: u32) -> (r: Message)
        ensures
            r == spec_from_code(v),
    {
        if v == 1 {
            Message::BspwmUpdate
        } else {
            Message::Date
        }
    }
}

/// Encoding then decoding a message yields the message back, so a wakeup is
/// never delivered to the wrong consumer.
pub proof fn lemma_message_round_trip(m: Message)
    ensures
        spec_from_code(spec_code(m)) == m,
{
}

} // verus!
