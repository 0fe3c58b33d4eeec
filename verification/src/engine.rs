//! The transitions of the game: how a register is resolved, how a round
//! proceeds and how a game is driven.

pub mod conveyor;
pub mod game_engine;
pub mod laws;
pub mod move_engine;
pub mod move_inputs;
pub mod moves;
pub mod player_input;
pub mod register_engine;
pub mod round_engine;
