use vstd::prelude::*;
use crate::codec::{lemma_state_len, parse_instruction, parse_state, state_bytes, STATE_LEN};
use crate::types::{GameCell, GameError, GameInstruction, GameState, GameStatus, Identity};

verus! {

/// The cells of winning line `k`: rows, then columns, then the two diagonals.
pub open spec fn line_cells(k: int) -> (int, int, int) {
    if k == 0 {
        (0, 1, 2)
    } else if k == 1 {
        (3, 4, 5)
    } else if k == 2 {
        (6, 7, 8)
    } else if k == 3 {
        (0, 3, 6)
    } else if k == 4 {
        (1, 4, 7)
    } else if k == 5 {
        (2, 5, 8)
    } else if k == 6 {
        (0, 4, 8)
    } else {
        (2, 4, 6)
    }
}

/// Line `k` holds three equal marks.
pub open spec fn line_complete(field: Seq<GameCell>, k: int) -> bool {
    let (a, b, c) = line_cells(k);
    &&& field[a] != GameCell::Empty
    &&& field[a] == field[b]
    &&& field[b] == field[c]
}

/// Some row, column or diagonal holds three equal marks.
pub open spec fn has_winning_line(field: Seq<GameCell>) -> bool {
    exists|k: int| 0 <= k < 8 && #[trigger] line_complete(field, k)
}

/// A game is in progress: one of the players is to move.
pub open spec fn in_progress(status: GameStatus) -> bool {
    status == GameStatus::PlayerOneTurn || status == GameStatus::PlayerTwoTurn
}

/// The player whose turn it is (player two unless player one is to move).
pub open spec fn active_player(s: GameState) -> Identity {
    if s.status == GameStatus::PlayerOneTurn {
        s.player_one
    } else {
        s.player_two
    }
}

/// The mark the player to move puts down.
pub open spec fn active_mark(status: GameStatus) -> GameCell {
    if status == GameStatus::PlayerOneTurn {
        GameCell::Tic
    } else {
        GameCell::Tac
    }
}

/// Status after a move onto `field`: a completed line ends the game, otherwise
/// the turn passes to the other player.
pub open spec fn status_after_move(field: Seq<GameCell>, status: GameStatus) -> GameStatus {
    if has_winning_line(field) {
        GameStatus::GameEnd
    } else if status == GameStatus::PlayerOneTurn {
        GameStatus::PlayerTwoTurn
    } else {
        GameStatus::PlayerOneTurn
    }
}

/// The state after a reset naming the two players.
pub open spec fn fresh_game(player_one: Identity, player_two: Identity) -> GameState {
    GameState {
        play_field: vstd::array::spec_array_fill_for_copy_type::<GameCell, 9>(GameCell::Empty),
        status: GameStatus::PlayerOneTurn,
        player_one,
        player_two,
    }
}

/// Board index of square (row, col).
pub open spec fn cell_index(row: u8, col: u8) -> int {
    row * 3 + col
}

/// The state after the player to move marks square (row, col) of `s`.
pub open spec fn after_move(s: GameState, row: u8, col: u8) -> GameState {
    let field = vstd::array::spec_array_update(
        s.play_field,
        cell_index(row, col),
        active_mark(s.status),
    );
    GameState { play_field: field, status: status_after_move(field@, s.status), ..s }
}

/// The outcome of applying `ins`, sent by `caller`, to `s`.
pub open spec fn transition(s: GameState, ins: GameInstruction, caller: Identity) -> Result<
    GameState,
    GameError,
> {
    match ins {
        GameInstruction::GameReset { player_one, player_two } => {
            if in_progress(s.status) {
                Err(GameError::IllegalReset)
            } else {
                Ok(fresh_game(player_one, player_two))
            }
        },
        GameInstruction::MakeTurn { row, col } => {
            if !in_progress(s.status) {
                Err(GameError::GameNotInProgress)
            } else if caller != active_player(s) {
                Err(GameError::NotYourTurn)
            } else if row >= 3 || col >= 3 {
                Err(GameError::CoordinateOutOfRange)
            } else if s.play_field[cell_index(row, col)] != GameCell::Empty {
                Err(GameError::CellOccupied)
            } else {
                Ok(after_move(s, row, col))
            }
        },
    }
}

/// The three board indices of winning line `k`.
fn win_line(k: usize) -> (r: (usize, usize, usize))
    requires
        k < 8,
    ensures
        (r.0 as int, r.1 as int, r.2 as int) == line_cells(k as int),
        r.0 < 9 && r.1 < 9 && r.2 < 9,
{
    if k == 0 {
        (0, 1, 2)
    } else if k == 1 {
        (3, 4, 5)
    } else if k == 2 {
        (6, 7, 8)
    } else if k == 3 {
        (0, 3, 6)
    } else if k == 4 {
        (1, 4, 7)
    } else if k == 5 {
        (2, 5, 8)
    } else if k == 6 {
        (0, 4, 8)
    } else {
        (2, 4, 6)
    }
}

/// Ends the game when some line holds three equal marks; changes nothing else.
fn check_game_end(game: &mut GameState)
    ensures
        *final(game) == (GameState {
            status: if has_winning_line(old(game).play_field@) {
                GameStatus::GameEnd
            } else {
                old(game).status
            },
            ..*old(game)
        }),
{
    let mut found = false;
    let mut k: usize = 0;
    while k < 8
        invariant
            k <= 8,
            found == exists|j: int| 0 <= j < k && #[trigger] line_complete(game.play_field@, j),
        decreases 8 - k,
    {
        let (a, b, c) = win_line(k);
        let x = game.play_field[a];
        let y = game.play_field[b];
        let z = game.play_field[c];
        if x == y && y == z && x != GameCell::Empty {
            assert(line_complete(game.play_field@, k as int));
            found = true;
        }
        k = k + 1;
    }
    if found {
        game.status = GameStatus::GameEnd;
    }
}

/// Validates `instruction`, sent by `player_key`, against `game` and applies it.
/// On a rejection `game` is left exactly as it was.
pub fn apply_instruction(
    game: &mut GameState,
    instruction: GameInstruction,
    player_key: &Identity,
) -> (r: Result<(), GameError>)
    ensures
        match transition(*old(game), instruction, *player_key) {
            Ok(n) => r == Ok::<(), GameError>(()) && *final(game) == n,
            Err(e) => r == Err::<(), GameError>(e) && *final(game) == *old(game),
        },
{
    match instruction {
        GameInstruction::GameReset { player_one, player_two } => {
            if game.status == GameStatus::GameEnd || game.status == GameStatus::Uninitialized {
                game.player_one = player_one;
                game.player_two = player_two;
                game.play_field = [GameCell::Empty; 9];
                game.status = GameStatus::PlayerOneTurn;
                proof {
                    assert(game.play_field =~= fresh_game(player_one, player_two).play_field);
                }
                Ok(())
            } else {
                Err(GameError::IllegalReset)
            }
        },
        GameInstruction::MakeTurn { row, col } => {
            let (mark, next) = match game.status {
                GameStatus::PlayerOneTurn => (GameCell::Tic, GameStatus::PlayerTwoTurn),
                GameStatus::PlayerTwoTurn => (GameCell::Tac, GameStatus::PlayerOneTurn),
                _ => {
                    return Err(GameError::GameNotInProgress);
                },
            };
            let allowed = if game.status == GameStatus::PlayerOneTurn {
                player_key.same_as(&game.player_one)
            } else {
                player_key.same_as(&game.player_two)
            };
            if !allowed {
                return Err(GameError::NotYourTurn);
            }
            if row >= 3 || col >= 3 {
                return Err(GameError::CoordinateOutOfRange);
            }
            let idx: usize = row as usize * 3 + col as usize;
            if game.play_field[idx] != GameCell::Empty {
                return Err(GameError::CellOccupied);
            }
            let ghost before = *game;
            let mut field = game.play_field;
            field[idx] = mark;
            game.play_field = field;
            game.status = next;
            check_game_end(game);
            proof {
                let n = after_move(before, row, col);
                assert(game.play_field =~= n.play_field);
            }
            Ok(())
        },
    }
}

/// The outcome of the whole entry step on raw buffers: decode the state, decode
/// the instruction, apply it, and encode the new state.
pub open spec fn process_outcome(state: Seq<u8>, ins: Seq<u8>, caller: Identity) -> Result<
    Seq<u8>,
    GameError,
> {
    match parse_state(state) {
        Err(e) => Err(e),
        Ok(s) => match parse_instruction(ins) {
            Err(e) => Err(e),
            Ok(i) => match transition(s, i, caller) {
                Err(e) => Err(e),
                Ok(n) => Ok(state_bytes(n)),
            },
        },
    }
}

/// Applies the instruction encoded in `instruction_data`, sent by `player_key`,
/// to the state encoded in `game_data`, and overwrites `game_data` with the new
/// state. On any failure `game_data` is left byte for byte as it was.
pub fn process_instruction(
    game_data: &mut [u8],
    instruction_data: &[u8],
    player_key: &Identity,
) -> (r: Result<(), GameError>)
    ensures
        match process_outcome(old(game_data)@, instruction_data@, *player_key) {
            Ok(b) => r == Ok::<(), GameError>(()) && final(game_data)@ == b,
            Err(e) => r == Err::<(), GameError>(e) && final(game_data)@ == old(game_data)@,
        },
{
    let mut game = match GameState::decode(game_data) {
        Ok(s) => s,
        Err(e) => {
            return Err(e);
        },
    };
    let instruction = match GameInstruction::decode(instruction_data) {
        Ok(i) => i,
        Err(e) => {
            return Err(e);
        },
    };
    match apply_instruction(&mut game, instruction, player_key) {
        Ok(()) => {},
        Err(e) => {
            return Err(e);
        },
    }
    let bytes = game.encode();
    proof {
        lemma_state_len(game);
    }
    let mut i: usize = 0;
    while i < bytes.len()
        invariant
            bytes@.len() == STATE_LEN,
            game_data@.len() == STATE_LEN,
            i <= bytes@.len(),
            forall|j: int| 0 <= j < i ==> game_data@[j] == bytes@[j],
        decreases bytes@.len() - i,
    {
        game_data[i] = bytes[i];
        i = i + 1;
    }
    assert(game_data@ =~= bytes@);
    Ok(())
}

/// A reset outside a game in progress starts a game: an empty board, the named
/// players, and player one to move.
pub proof fn lemma_reset_starts_game(
    s: GameState,
    caller: Identity,
    player_one: Identity,
    player_two: Identity,
)
    requires
        !in_progress(s.status),
    ensures
        ({
            let r = transition(s, GameInstruction::GameReset { player_one, player_two }, caller);
            &&& r is Ok
            &&& forall|i: int| 0 <= i < 9 ==> r->Ok_0.play_field[i] == GameCell::Empty
            &&& r->Ok_0.status == GameStatus::PlayerOneTurn
            &&& r->Ok_0.player_one == player_one
            &&& r->Ok_0.player_two == player_two
        }),
{
}

/// A legal move by the player to move puts that player's mark on the square and
/// hands the turn to the other player, unless the board now holds a complete
/// line, which ends the game.
pub proof fn lemma_turn_alternation(s: GameState, row: u8, col: u8)
    requires
        in_progress(s.status),
        row < 3,
        col < 3,
        s.play_field[cell_index(row, col)] == GameCell::Empty,
    ensures
        ({
            let r = transition(s, GameInstruction::MakeTurn { row, col }, active_player(s));
            let n = r->Ok_0;
            &&& r is Ok
            &&& n.play_field@ == s.play_field@.update(cell_index(row, col), active_mark(s.status))
            &&& n.player_one == s.player_one
            &&& n.player_two == s.player_two
            &&& has_winning_line(n.play_field@) ==> n.status == GameStatus::GameEnd
            &&& !has_winning_line(n.play_field@) && s.status == GameStatus::PlayerOneTurn
                ==> n.status == GameStatus::PlayerTwoTurn
            &&& !has_winning_line(n.play_field@) && s.status == GameStatus::PlayerTwoTurn
                ==> n.status == GameStatus::PlayerOneTurn
        }),
{
}

/// Once a game has ended, every move is refused as not in progress, whoever
/// sends it and wherever it points, while a reset clears the board.
pub proof fn lemma_terminal_stability(
    s: GameState,
    caller: Identity,
    row: u8,
    col: u8,
    player_one: Identity,
    player_two: Identity,
)
    requires
        s.status == GameStatus::GameEnd,
    ensures
        transition(s, GameInstruction::MakeTurn { row, col }, caller) == Err::<GameState, GameError>(
            GameError::GameNotInProgress,
        ),
        ({
            let r = transition(s, GameInstruction::GameReset { player_one, player_two }, caller);
            &&& r is Ok
            &&& forall|i: int| 0 <= i < 9 ==> r->Ok_0.play_field[i] == GameCell::Empty
            &&& r->Ok_0.status == GameStatus::PlayerOneTurn
        }),
{
}

} // verus!
