//! Rule engine for a two-player tic-tac-toe game whose whole state lives in a
//! fixed-size byte buffer: a bit-exact codec for the game's values and a pure
//! transition function from (state, instruction, caller) to a new state.

pub mod codec;
pub mod engine;
pub mod text;
pub mod types;

pub use codec::{RESET_LEN, STATE_LEN, TURN_LEN};
pub use engine::{apply_instruction, process_instruction};
pub use types::{GameCell, GameError, GameInstruction, GameState, GameStatus, Identity};
