//! Core logic of a two-player connect-four game: a seven-column board with
//! gravity drops, four-axis win detection around the stone just placed, and a
//! running win tally.  Rendering and input handling live outside this crate
//! and talk to it through `Game::add_stone` and the board queries.

pub mod board;
pub mod game;
pub mod score;
pub mod session;
pub mod stone;

pub use board::Grid;
pub use game::Game;
pub use game::Move;
pub use score::Score;
pub use session::other_player;
pub use session::Phase;
pub use stone::Stone;
