//! What a game is told once per frame: which keys went down in this frame,
//! the time, and the size of the screen.

use vstd::prelude::*;

verus! {

/// The keys that were pressed in this frame. Each flag is an edge: it is set
/// in the frame in which the key goes down, not while the key is held.
#[derive(Clone, Copy, PartialEq, Eq, Structural, Debug)]
pub struct Keys {
    pub up: bool,
    pub down: bool,
    pub left: bool,
    pub right: bool,
    pub enter: bool,
    pub escape: bool,
    pub space: bool,
}

impl Keys {
    /// No key pressed.
    pub fn none() -> (keys: Keys)
        ensures
            keys == (Keys {
                up: false,
                down: false,
                left: false,
                right: false,
                enter: false,
                escape: false,
                space: false,
            }),
    {
        Keys {
            up: false,
            down: false,
            left: false,
            right: false,
            enter: false,
            escape: false,
            space: false,
        }
    }
}

/// One frame's worth of outside facts. `now` is the reading of a monotonic
/// clock in milliseconds; `width` and `height` are the screen's size in
/// pixels.
#[derive(Clone, Copy, PartialEq, Eq, Structural, Debug)]
pub struct Frame {
    pub keys: Keys,
    pub now: u64,
    pub width: i32,
    pub height: i32,
}

} // verus!
