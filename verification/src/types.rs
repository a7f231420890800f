//! The small enumerations the game rules are written in.
use vstd::prelude::*;

verus! {

/// The horizontal axis along which a block slides.
#[derive(Clone, Copy, PartialEq, Eq, Structural, Debug)]
pub enum Axis {
    XAxis,
    ZAxis,
}

/// Which way a sliding block starts out.
#[derive(Clone, Copy, PartialEq, Eq, Structural, Debug)]
pub enum Direction {
    Forward,
    Backward,
}

/// The screens and phases of the game.
#[derive(Clone, Copy, PartialEq, Eq, Structural, Debug)]
pub enum GameState {
    /// Main menu.
    Main,
    /// Storing the high score and the settings after a lost game.
    Save,
    /// Reading the high score before a new game.
    Load,
    /// Laying the first block of a new tower.
    Init,
    /// Preparing the next sliding block.
    Ready,
    /// The current block slides.
    Update,
    /// The player dropped the current block.
    Playing,
    GameOver,
    Pause,
    Settings,
}

/// How a block moves: the slide's start direction and its axis. The slide's
/// speed, a float, is kept with the block's geometry by the frontend.
#[derive(Clone, Copy, PartialEq, Eq, Structural, Debug)]
pub struct Movement {
    pub direction: Direction,
    pub axis: Axis,
}

} // verus!
