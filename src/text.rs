use vstd::prelude::*;
use crate::types::{GameCell, GameState};

verus! {

/// The character that draws a cell.
pub open spec fn cell_char(c: GameCell) -> char {
    match c {
        GameCell::Tic => 'X',
        GameCell::Tac => '0',
        GameCell::Empty => '.',
    }
}

/// The board as three lines of three characters, each line ended by a newline.
pub open spec fn board_text(field: Seq<GameCell>) -> Seq<char> {
    Seq::new(12, |i: int| if i % 4 == 3 { '\n' } else { cell_char(field[(i / 4) * 3 + i % 4]) })
}

/// Relies on `String::push`: the character is appended at the end.
#[verifier::external_body]
fn push_char(s: &mut String, c: char)
    ensures
        final(s)@ == old(s)@.push(c),
{
    s.push(c);
}

impl GameState {
    /// Draws the board, `X` for player one's marks, `0` for player two's and
    /// `.` for an empty square.
    pub fn pretty_print(&self) -> (r: String)
        ensures
            r@ == board_text(self.play_field@),
    {
        let ghost text = board_text(self.play_field@);
        let mut ascii_draw = String::new();
        let mut row: usize = 0;
        while row < 3
            invariant
                row <= 3,
                text == board_text(self.play_field@),
                ascii_draw@ == text.subrange(0, 4 * row as int),
            decreases 3 - row,
        {
            let mut col: usize = 0;
            while col < 3
                invariant
                    row < 3,
                    col <= 3,
                    text == board_text(self.play_field@),
                    ascii_draw@ == text.subrange(0, 4 * row + col),
                decreases 3 - col,
            {
                let ch = match self.play_field[row * 3 + col] {
                    GameCell::Tic => 'X',
                    GameCell::Tac => '0',
                    GameCell::Empty => '.',
                };
                let ghost k: int = 4 * row + col;
                assert(k % 4 == col && k / 4 == row) by (nonlinear_arith)
                    requires
                        k == 4 * row + col,
                        col < 3,
                ;
                push_char(&mut ascii_draw, ch);
                assert(ascii_draw@ =~= text.subrange(0, k + 1));
                col = col + 1;
            }
            let ghost k: int = 4 * row + 3;
            assert(k % 4 == 3) by (nonlinear_arith)
                requires
                    k == 4 * row + 3,
            ;
            push_char(&mut ascii_draw, '\n');
            assert(ascii_draw@ =~= text.subrange(0, k + 1));
            row = row + 1;
        }
        assert(text.subrange(0, 12) =~= text);
        ascii_draw
    }
}

} // verus!
