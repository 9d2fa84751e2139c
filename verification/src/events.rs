//! How often the event loop ticks.
use vstd::prelude::*;

verus! {

/// Configures the event loop.
#[derive(Debug, Clone, Copy, PartialEq, Eq, Structural)]
pub struct Config {
    /// Time between two ticks, in milliseconds.
    pub tick_duration_ms: u64,
}

impl Default for Config {
    /// A tick every half second.
    fn default() -> (c: Config)
        ensures
            c.tick_duration_ms == 500,
    {
        Config { tick_duration_ms: 500 }
    }
}

/// An arrow key.
#[derive(Debug, Clone, Copy, PartialEq, Eq, Structural)]
pub enum Arrow {
    Up,
    Down,
    Right,
    Left,
}

/// The arrow key some terminals send as `ESC O A` to `ESC O D`, which the
/// terminal library leaves unrecognized.
pub open spec fn arrow_of(bytes: Seq<u8>) -> Option<Arrow> {
    if bytes.len() >= 3 && bytes[0] == 0x1b && bytes[1] == 0x4f {
        if bytes[2] == 0x41 {
            Some(Arrow::Up)
        } else if bytes[2] == 0x42 {
            Some(Arrow::Down)
        } else if bytes[2] == 0x43 {
            Some(Arrow::Right)
        } else if bytes[2] == 0x44 {
            Some(Arrow::Left)
        } else {
            None
        }
    } else {
        None
    }
}

/// Recognizes an arrow key in an unrecognized input sequence.
pub fn arrow_key(bytes: &[u8]) -> (a: Option<Arrow>)
    ensures
        a == arrow_of(bytes@),
{
    if bytes.len() >= 3 && bytes[0] == 0x1b && bytes[1] == 0x4f {
        if bytes[2] == 0x41 {
            Some(Arrow::Up)
        } else if bytes[2] == 0x42 {
            Some(Arrow::Down)
        } else if bytes[2] == 0x43 {
            Some(Arrow::Right)
        } else if bytes[2] == 0x44 {
            Some(Arrow::Left)
        } else {
            None
        }
    } else {
        None
    }
}

} // verus!
