use vstd::prelude::*;
use crate::types::{GameCell, GameError, GameInstruction, GameState, GameStatus, Identity};

verus! {

/// Encoded length of a `GameState`: nine cells, a status tag and two identities.
pub const STATE_LEN: usize = 74;

/// Encoded length of `GameInstruction::GameReset`: a tag and two identities.
pub const RESET_LEN: usize = 65;

/// Encoded length of `GameInstruction::MakeTurn`: a tag, a row and a column.
pub const TURN_LEN: usize = 3;

/// Declaration index of a cell variant, its one-byte encoding.
pub open spec fn cell_tag(c: GameCell) -> u8 {
    match c {
        GameCell::Empty => 0,
        GameCell::Tic => 1,
        GameCell::Tac => 2,
    }
}

/// Declaration index of a status variant, its one-byte encoding.
pub open spec fn status_tag(s: GameStatus) -> u8 {
    match s {
        GameStatus::Uninitialized => 0,
        GameStatus::PlayerOneTurn => 1,
        GameStatus::PlayerTwoTurn => 2,
        GameStatus::GameEnd => 3,
    }
}

pub open spec fn cell_bytes(c: GameCell) -> Seq<u8> {
    seq![cell_tag(c)]
}

pub open spec fn status_bytes(s: GameStatus) -> Seq<u8> {
    seq![status_tag(s)]
}

/// An identity is written as its raw bytes.
pub open spec fn identity_bytes(id: Identity) -> Seq<u8> {
    id.bytes@
}

/// A tag byte (the variant's index) followed by the variant's fields in order.
pub open spec fn instruction_bytes(ins: GameInstruction) -> Seq<u8> {
    match ins {
        GameInstruction::GameReset { player_one, player_two } =>
            seq![0u8] + identity_bytes(player_one) + identity_bytes(player_two),
        GameInstruction::MakeTurn { row, col } => seq![1u8, row, col],
    }
}

/// The nine cells, one tag byte each, in row-major order.
pub open spec fn field_bytes(field: [GameCell; 9]) -> Seq<u8> {
    Seq::new(9, |i: int| cell_tag(field[i]))
}

/// The fields of a state in declaration order, with nothing between them.
pub open spec fn state_bytes(s: GameState) -> Seq<u8> {
    field_bytes(s.play_field) + status_bytes(s.status) + identity_bytes(s.player_one)
        + identity_bytes(s.player_two)
}

/// Result of decoding a single cell from `data`.
pub open spec fn parse_cell(data: Seq<u8>) -> Result<GameCell, GameError> {
    if data.len() == 0 {
        Err(GameError::DecodeTruncated)
    } else if data[0] >= 3 {
        Err(GameError::UnknownVariant)
    } else if data.len() > 1 {
        Err(GameError::TrailingBytes)
    } else {
        Ok(choose|c: GameCell| cell_bytes(c) == data)
    }
}

/// Result of decoding a single status from `data`.
pub open spec fn parse_status(data: Seq<u8>) -> Result<GameStatus, GameError> {
    if data.len() == 0 {
        Err(GameError::DecodeTruncated)
    } else if data[0] >= 4 {
        Err(GameError::UnknownVariant)
    } else if data.len() > 1 {
        Err(GameError::TrailingBytes)
    } else {
        Ok(choose|s: GameStatus| status_bytes(s) == data)
    }
}

/// Length of the instruction variant whose tag is `tag`.
pub open spec fn instruction_len(tag: u8) -> int {
    if tag == 0 {
        RESET_LEN as int
    } else {
        TURN_LEN as int
    }
}

/// Result of decoding an instruction from `data`: the tag decides the length,
/// and the buffer must hold exactly that many bytes.
pub open spec fn parse_instruction(data: Seq<u8>) -> Result<GameInstruction, GameError> {
    if data.len() == 0 {
        Err(GameError::DecodeTruncated)
    } else if data[0] >= 2 {
        Err(GameError::UnknownVariant)
    } else if data.len() < instruction_len(data[0]) {
        Err(GameError::DecodeTruncated)
    } else if data.len() > instruction_len(data[0]) {
        Err(GameError::TrailingBytes)
    } else {
        Ok(choose|i: GameInstruction| instruction_bytes(i) == data)
    }
}

/// Every tag byte in a buffer of at least `STATE_LEN` bytes names a variant.
pub open spec fn state_tags_valid(data: Seq<u8>) -> bool {
    &&& forall|j: int| 0 <= j < 9 ==> data[j] < 3
    &&& data[9] < 4
}

/// Result of decoding a state from `data`: the layout is fixed, so the length is
/// checked first, then the tags, then that nothing follows.
pub open spec fn parse_state(data: Seq<u8>) -> Result<GameState, GameError> {
    if data.len() < STATE_LEN {
        Err(GameError::DecodeTruncated)
    } else if !state_tags_valid(data) {
        Err(GameError::UnknownVariant)
    } else if data.len() > STATE_LEN {
        Err(GameError::TrailingBytes)
    } else {
        Ok(choose|s: GameState| state_bytes(s) == data)
    }
}

/// Distinct cells have distinct encodings.
pub proof fn lemma_cell_bytes_injective(a: GameCell, b: GameCell)
    requires
        cell_tag(a) == cell_tag(b),
    ensures
        a == b,
{
}

/// Distinct statuses have distinct encodings.
pub proof fn lemma_status_bytes_injective(a: GameStatus, b: GameStatus)
    requires
        status_tag(a) == status_tag(b),
    ensures
        a == b,
{
}

/// Identities with the same bytes are the same identity.
pub proof fn lemma_identity_from_bytes(a: Identity, b: Identity)
    requires
        a.bytes@ == b.bytes@,
    ensures
        a == b,
{
    assert(a.bytes =~= b.bytes);
}

/// Distinct instructions have distinct encodings.
pub proof fn lemma_instruction_bytes_injective(a: GameInstruction, b: GameInstruction)
    requires
        instruction_bytes(a) == instruction_bytes(b),
    ensures
        a == b,
{
    let x = instruction_bytes(a);
    assert(x[0] == instruction_bytes(b)[0]);
    match (a, b) {
        (
            GameInstruction::GameReset { player_one: a1, player_two: a2 },
            GameInstruction::GameReset { player_one: b1, player_two: b2 },
        ) => {
            assert(a1.bytes@ =~= x.subrange(1, 33));
            assert(b1.bytes@ =~= x.subrange(1, 33));
            assert(a2.bytes@ =~= x.subrange(33, 65));
            assert(b2.bytes@ =~= x.subrange(33, 65));
            lemma_identity_from_bytes(a1, b1);
            lemma_identity_from_bytes(a2, b2);
        },
        (GameInstruction::MakeTurn { .. }, GameInstruction::MakeTurn { .. }) => {
            assert(x[1] == instruction_bytes(b)[1]);
            assert(x[2] == instruction_bytes(b)[2]);
        },
        _ => {},
    }
}

/// Distinct states have distinct encodings.
pub proof fn lemma_state_bytes_injective(a: GameState, b: GameState)
    requires
        state_bytes(a) == state_bytes(b),
    ensures
        a == b,
{
    let x = state_bytes(a);
    let y = state_bytes(b);
    assert forall|i: int| 0 <= i < 9 implies a.play_field[i] == b.play_field[i] by {
        assert(x[i] == cell_tag(a.play_field[i]));
        assert(y[i] == cell_tag(b.play_field[i]));
        lemma_cell_bytes_injective(a.play_field[i], b.play_field[i]);
    }
    assert(a.play_field =~= b.play_field);
    assert(x[9] == status_tag(a.status));
    assert(y[9] == status_tag(b.status));
    lemma_status_bytes_injective(a.status, b.status);
    assert(a.player_one.bytes@ =~= x.subrange(10, 42));
    assert(b.player_one.bytes@ =~= y.subrange(10, 42));
    assert(a.player_two.bytes@ =~= x.subrange(42, 74));
    assert(b.player_two.bytes@ =~= y.subrange(42, 74));
    lemma_identity_from_bytes(a.player_one, b.player_one);
    lemma_identity_from_bytes(a.player_two, b.player_two);
}

/// Decoding what encoding wrote gives back the cell.
pub proof fn lemma_cell_round_trip(c: GameCell)
    ensures
        parse_cell(cell_bytes(c)) == Ok::<GameCell, GameError>(c),
{
    let d = cell_bytes(c);
    let k = choose|x: GameCell| cell_bytes(x) == d;
    assert(cell_bytes(k)[0] == d[0]);
    lemma_cell_bytes_injective(k, c);
}

/// Decoding what encoding wrote gives back the status.
pub proof fn lemma_status_round_trip(s: GameStatus)
    ensures
        parse_status(status_bytes(s)) == Ok::<GameStatus, GameError>(s),
{
    let d = status_bytes(s);
    let k = choose|x: GameStatus| status_bytes(x) == d;
    assert(status_bytes(k)[0] == d[0]);
    lemma_status_bytes_injective(k, s);
}

/// Decoding what encoding wrote gives back the instruction.
pub proof fn lemma_instruction_round_trip(ins: GameInstruction)
    ensures
        parse_instruction(instruction_bytes(ins)) == Ok::<GameInstruction, GameError>(ins),
{
    let d = instruction_bytes(ins);
    let k = choose|x: GameInstruction| instruction_bytes(x) == d;
    lemma_instruction_bytes_injective(k, ins);
}

/// Decoding what encoding wrote gives back the state.
pub proof fn lemma_state_round_trip(s: GameState)
    ensures
        parse_state(state_bytes(s)) == Ok::<GameState, GameError>(s),
{
    let d = state_bytes(s);
    lemma_state_len(s);
    assert forall|j: int| 0 <= j < 9 implies d[j] < 3 by {
        assert(d[j] == cell_tag(s.play_field[j]));
    }
    assert(d[9] == status_tag(s.status));
    let k = choose|x: GameState| state_bytes(x) == d;
    lemma_state_bytes_injective(k, s);
}

/// Every state is encoded in exactly `STATE_LEN` bytes, whatever it holds.
pub proof fn lemma_state_len(s: GameState)
    ensures
        state_bytes(s).len() == STATE_LEN,
{
}

impl GameCell {
    /// The cell's one-byte encoding.
    pub fn tag(&self) -> (r: u8)
        ensures
            r == cell_tag(*self),
    {
        match self {
            GameCell::Empty => 0,
            GameCell::Tic => 1,
            GameCell::Tac => 2,
        }
    }

    /// The cell whose encoding is `b`, if `b` names a variant.
    pub fn from_tag(b: u8) -> (r: Option<GameCell>)
        ensures
            b < 3 <==> r is Some,
            r matches Some(c) ==> cell_tag(c) == b,
    {
        if b == 0 {
            Some(GameCell::Empty)
        } else if b == 1 {
            Some(GameCell::Tic)
        } else if b == 2 {
            Some(GameCell::Tac)
        } else {
            None
        }
    }

    /// Writes the cell as its one-byte tag.
    pub fn encode(&self) -> (r: Vec<u8>)
        ensures
            r@ == cell_bytes(*self),
    {
        let mut out: Vec<u8> = Vec::new();
        out.push(self.tag());
        assert(out@ =~= cell_bytes(*self));
        out
    }

    /// Reads a cell from a buffer that must hold exactly its tag.
    pub fn decode(data: &[u8]) -> (r: Result<GameCell, GameError>)
        ensures
            r == parse_cell(data@),
    {
        if data.len() == 0 {
            return Err(GameError::DecodeTruncated);
        }
        match GameCell::from_tag(data[0]) {
            None => Err(GameError::UnknownVariant),
            Some(c) => {
                if data.len() > 1 {
                    return Err(GameError::TrailingBytes);
                }
                proof {
                    assert(cell_bytes(c) =~= data@);
                    let k = choose|x: GameCell| cell_bytes(x) == data@;
                    assert(cell_bytes(k)[0] == data@[0]);
                    lemma_cell_bytes_injective(k, c);
                }
                Ok(c)
            },
        }
    }
}

impl GameStatus {
    /// The status's one-byte encoding.
    pub fn tag(&self) -> (r: u8)
        ensures
            r == status_tag(*self),
    {
        match self {
            GameStatus::Uninitialized => 0,
            GameStatus::PlayerOneTurn => 1,
            GameStatus::PlayerTwoTurn => 2,
            GameStatus::GameEnd => 3,
        }
    }

    /// The status whose encoding is `b`, if `b` names a variant.
    pub fn from_tag(b: u8) -> (r: Option<GameStatus>)
        ensures
            b < 4 <==> r is Some,
            r matches Some(s) ==> status_tag(s) == b,
    {
        if b == 0 {
            Some(GameStatus::Uninitialized)
        } else if b == 1 {
            Some(GameStatus::PlayerOneTurn)
        } else if b == 2 {
            Some(GameStatus::PlayerTwoTurn)
        } else if b == 3 {
            Some(GameStatus::GameEnd)
        } else {
            None
        }
    }

    /// Writes the status as its one-byte tag.
    pub fn encode(&self) -> (r: Vec<u8>)
        ensures
            r@ == status_bytes(*self),
    {
        let mut out: Vec<u8> = Vec::new();
        out.push(self.tag());
        assert(out@ =~= status_bytes(*self));
        out
    }

    /// Reads a status from a buffer that must hold exactly its tag.
    pub fn decode(data: &[u8]) -> (r: Result<GameStatus, GameError>)
        ensures
            r == parse_status(data@),
    {
        if data.len() == 0 {
            return Err(GameError::DecodeTruncated);
        }
        match GameStatus::from_tag(data[0]) {
            None => Err(GameError::UnknownVariant),
            Some(s) => {
                if data.len() > 1 {
                    return Err(GameError::TrailingBytes);
                }
                proof {
                    assert(status_bytes(s) =~= data@);
                    let k = choose|x: GameStatus| status_bytes(x) == data@;
                    assert(status_bytes(k)[0] == data@[0]);
                    lemma_status_bytes_injective(k, s);
                }
                Ok(s)
            },
        }
    }
}

/// Appends the raw bytes of `id` to `out`.
fn push_identity(out: &mut Vec<u8>, id: &Identity)
    ensures
        final(out)@ == old(out)@ + identity_bytes(*id),
{
    let mut i: usize = 0;
    while i < 32
        invariant
            i <= 32,
            out@ == old(out)@ + id.bytes@.subrange(0, i as int),
        decreases 32 - i,
    {
        out.push(id.bytes[i]);
        i = i + 1;
        assert(out@ =~= old(out)@ + id.bytes@.subrange(0, i as int));
    }
    assert(id.bytes@.subrange(0, 32) =~= id.bytes@);
}

/// Reads the identity stored at `data[start..start + 32]`.
fn read_identity(data: &[u8], start: usize) -> (r: Identity)
    requires
        start + 32 <= data@.len(),
    ensures
        r.bytes@ == data@.subrange(start as int, start + 32),
{
    let mut bytes: [u8; 32] = [0u8; 32];
    let mut i: usize = 0;
    while i < 32
        invariant
            i <= 32,
            start + 32 <= data.len(),
            forall|j: int| 0 <= j < i ==> bytes[j] == data@[start + j],
        decreases 32 - i,
    {
        bytes[i] = data[start + i];
        i = i + 1;
    }
    assert(bytes@ =~= data@.subrange(start as int, start + 32));
    Identity { bytes }
}

impl GameInstruction {
    /// Writes the variant's tag followed by its fields.
    pub fn encode(&self) -> (r: Vec<u8>)
        ensures
            r@ == instruction_bytes(*self),
    {
        let mut out: Vec<u8> = Vec::new();
        match self {
            GameInstruction::GameReset { player_one, player_two } => {
                out.push(0u8);
                push_identity(&mut out, player_one);
                push_identity(&mut out, player_two);
            },
            GameInstruction::MakeTurn { row, col } => {
                out.push(1u8);
                out.push(*row);
                out.push(*col);
            },
        }
        assert(out@ =~= instruction_bytes(*self));
        out
    }

    /// Reads an instruction from a buffer that must hold exactly one.
    pub fn decode(data: &[u8]) -> (r: Result<GameInstruction, GameError>)
        ensures
            r == parse_instruction(data@),
    {
        if data.len() == 0 {
            return Err(GameError::DecodeTruncated);
        }
        let tag = data[0];
        if tag >= 2 {
            return Err(GameError::UnknownVariant);
        }
        let need: usize = if tag == 0 { RESET_LEN } else { TURN_LEN };
        if data.len() < need {
            return Err(GameError::DecodeTruncated);
        }
        if data.len() > need {
            return Err(GameError::TrailingBytes);
        }
        let ins = if tag == 0 {
            GameInstruction::GameReset {
                player_one: read_identity(data, 1),
                player_two: read_identity(data, 33),
            }
        } else {
            GameInstruction::MakeTurn { row: data[1], col: data[2] }
        };
        proof {
            assert(instruction_bytes(ins) =~= data@);
            let k = choose|x: GameInstruction| instruction_bytes(x) == data@;
            lemma_instruction_bytes_injective(k, ins);
        }
        Ok(ins)
    }
}

impl GameState {
    /// Writes the cells, the status and the two players, in that order.
    pub fn encode(&self) -> (r: Vec<u8>)
        ensures
            r@ == state_bytes(*self),
    {
        let mut out: Vec<u8> = Vec::new();
        let mut i: usize = 0;
        while i < 9
            invariant
                i <= 9,
                out@ == field_bytes(self.play_field).subrange(0, i as int),
            decreases 9 - i,
        {
            out.push(self.play_field[i].tag());
            i = i + 1;
            assert(out@ =~= field_bytes(self.play_field).subrange(0, i as int));
        }
        assert(field_bytes(self.play_field).subrange(0, 9) =~= field_bytes(self.play_field));
        out.push(self.status.tag());
        push_identity(&mut out, &self.player_one);
        push_identity(&mut out, &self.player_two);
        assert(out@ =~= state_bytes(*self));
        out
    }

    /// Reads a state from a buffer of exactly `STATE_LEN` bytes.
    pub fn decode(data: &[u8]) -> (r: Result<GameState, GameError>)
        ensures
            r == parse_state(data@),
    {
        if data.len() < STATE_LEN {
            return Err(GameError::DecodeTruncated);
        }
        let mut play_field: [GameCell; 9] = [GameCell::Empty; 9];
        let mut i: usize = 0;
        while i < 9
            invariant
                i <= 9,
                data@.len() >= STATE_LEN,
                forall|j: int| 0 <= j < i ==> data@[j] < 3 && cell_tag(play_field[j]) == data@[j],
            decreases 9 - i,
        {
            match GameCell::from_tag(data[i]) {
                Some(c) => {
                    play_field[i] = c;
                },
                None => {
                    assert(!state_tags_valid(data@));
                    return Err(GameError::UnknownVariant);
                },
            }
            i = i + 1;
        }
        let status = match GameStatus::from_tag(data[9]) {
            Some(s) => s,
            None => {
                return Err(GameError::UnknownVariant);
            },
        };
        if data.len() > STATE_LEN {
            return Err(GameError::TrailingBytes);
        }
        let s = GameState {
            play_field,
            status,
            player_one: read_identity(data, 10),
            player_two: read_identity(data, 42),
        };
        proof {
            assert(field_bytes(s.play_field) =~= data@.subrange(0, 9));
            assert(state_bytes(s) =~= data@);
            let k = choose|x: GameState| state_bytes(x) == data@;
            lemma_state_bytes_injective(k, s);
        }
        Ok(s)
    }
}

} // verus!
