//! The two screens of the game: the title screen and the game itself.

use vstd::prelude::*;

pub mod game;
pub mod title;

verus! {

/// What a screen asks of the screen manager after a frame.
#[derive(Debug, Clone, Copy, PartialEq, Eq, Structural)]
pub enum SceneChange {
    /// Stay on this screen.
    Stay,
    /// Start a new game on top of this screen.
    StartGame,
    /// Leave this screen and go back to the one below.
    Back,
    /// Quit the game.
    Quit,
}

} // verus!
