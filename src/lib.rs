//! Decoding of the one-line notation of a Tarock game state.
pub mod card;
pub mod error;
pub mod text;
pub mod game_type;
pub mod collection;
pub mod game;
