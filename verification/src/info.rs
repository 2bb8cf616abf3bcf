use vstd::prelude::*;
use crate::geometry::Vec2;

verus! {

/// Width of the game window in pixels.
pub const WINDOW_WIDTH: u32 = 240;

/// Height of the game window in pixels.
pub const WINDOW_HEIGHT: u32 = 460;

/// Version of the game shown in the window title.
pub const GAME_VERSION: &'static str = "0.1.0";

/// The size of the game window.
pub struct Window {
    pub width: u32,
    pub height: u32,
}

impl Window {
    /// The centre of the window: half its width and half its height,
    /// each rounded down.
    pub fn get_half(&self) -> (v: Vec2)
        ensures
            v.x == self.width / 2,
            v.y == self.height / 2,
    {
        Vec2::new((self.width / 2) as i32, (self.height / 2) as i32)
    }
}

/// Static facts about the game: the window size and the version.
pub struct GameInformation {
    pub window: Window,
    pub version: String,
}

impl GameInformation {
    /// The game's window of 240 by 460 pixels and its version.
    pub fn new() -> (g: GameInformation)
        ensures
            g.window.width == WINDOW_WIDTH,
            g.window.height == WINDOW_HEIGHT,
            g.window.width == 240,
            g.window.height == 460,
            g.version@ == GAME_VERSION@,
    {
        let version = GAME_VERSION.to_owned();
        GameInformation { window: Window { width: WINDOW_WIDTH, height: WINDOW_HEIGHT }, version }
    }
}

} // verus!
