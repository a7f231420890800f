//! Verified core of the Tile Breaker stacking game: the rules that decide what
//! happens each frame, the colour arithmetic, and the formats of the settings
//! and user-data files.

pub mod block;
pub mod game;
pub mod screen;
pub mod text;
pub mod types;
pub mod user_data;
pub mod utils;
