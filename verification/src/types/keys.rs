//! Standard key name constants.

use vstd::prelude::*;

verus! {

// Required keys
pub const UP: &'static str = "up";
pub const DOWN: &'static str = "down";
pub const LEFT: &'static str = "left";
pub const RIGHT: &'static str = "right";
pub const OK: &'static str = "ok";
pub const BACK: &'static str = "back";
pub const PLAYPAUSE: &'static str = "playpause";

// Optional keys
pub const PLAY: &'static str = "play";
pub const PAUSE: &'static str = "pause";
pub const REWIND: &'static str = "rewind";
pub const FASTFORWARD: &'static str = "fastforward";
pub const OPTIONS: &'static str = "options";
pub const HOME: &'static str = "home";

/// All required keys that every compliant viewer must support.
pub const REQUIRED: [&'static str; 7] = [UP, DOWN, LEFT, RIGHT, OK, BACK, PLAYPAUSE];

} // verus!
