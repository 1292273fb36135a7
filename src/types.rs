use vstd::prelude::*;

verus! {

/// One square of the board.
#[derive(Clone, Copy, Debug, PartialEq, Eq, Structural)]
pub enum GameCell {
    Empty,
    Tic,
    Tac,
}

impl Default for GameCell {
    fn default() -> (r: GameCell)
        ensures
            r == GameCell::Empty,
    {
        GameCell::Empty
    }
}

/// Phase of a game.
#[derive(Clone, Copy, Debug, PartialEq, Eq, Structural)]
pub enum GameStatus {
    Uninitialized,
    PlayerOneTurn,
    PlayerTwoTurn,
    GameEnd,
}

/// An opaque 32-byte key that identifies a player; only compared for equality.
#[derive(Clone, Copy, Debug, PartialEq, Eq)]
pub struct Identity {
    pub bytes: [u8; 32],
}

/// What a caller asks the rule engine to do.
#[derive(Clone, Copy, Debug, PartialEq, Eq)]
pub enum GameInstruction {
    GameReset { player_one: Identity, player_two: Identity },
    MakeTurn { row: u8, col: u8 },
}

/// The persisted record of one game. Cell `row * 3 + col` holds square (row, col).
#[derive(Clone, Copy, Debug, PartialEq, Eq)]
pub struct GameState {
    pub play_field: [GameCell; 9],
    pub status: GameStatus,
    pub player_one: Identity,
    pub player_two: Identity,
}

/// Why decoding or a transition failed.
#[derive(Clone, Copy, Debug, PartialEq, Eq, Structural)]
pub enum GameError {
    /// The buffer is shorter than the value being decoded needs.
    DecodeTruncated,
    /// A tag byte names no variant of the type being decoded.
    UnknownVariant,
    /// The buffer holds bytes after a complete value.
    TrailingBytes,
    /// A reset was asked for while a game is in progress.
    IllegalReset,
    /// The caller is not the player whose turn it is.
    NotYourTurn,
    /// The target square already holds a mark.
    CellOccupied,
    /// A move was asked for while no game is in progress.
    GameNotInProgress,
    /// The row or the column is not below 3.
    CoordinateOutOfRange,
}

impl Default for Identity {
    /// The all-zero key.
    fn default() -> (r: Identity)
        ensures
            forall|i: int| 0 <= i < 32 ==> r.bytes[i] == 0,
    {
        Identity { bytes: [0u8; 32] }
    }
}

impl Identity {
    /// Compares two identities byte by byte.
    pub fn same_as(&self, other: &Identity) -> (r: bool)
        ensures
            r == (*self == *other),
    {
        let mut i: usize = 0;
        while i < 32
            invariant
                0 <= i <= 32,
                forall|j: int| 0 <= j < i ==> self.bytes@[j] == other.bytes@[j],
            decreases 32 - i,
        {
            if self.bytes[i] != other.bytes[i] {
                return false;
            }
            i = i + 1;
        }
        assert(self.bytes =~= other.bytes);
        true
    }
}

} // verus!
