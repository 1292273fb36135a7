use tic_tac_toe::{
    apply_instruction, process_instruction, GameCell, GameError, GameInstruction, GameState,
    GameStatus, Identity, STATE_LEN,
};

fn id(b: u8) -> Identity {
    Identity { bytes: [b; 32] }
}

fn blank_state() -> GameState {
    GameState {
        play_field: [GameCell::Empty; 9],
        status: GameStatus::Uninitialized,
        player_one: Identity { bytes: [0; 32] },
        player_two: Identity { bytes: [0; 32] },
    }
}

fn started(first: Identity, second: Identity) -> GameState {
    let mut g = blank_state();
    apply_instruction(&mut g, GameInstruction::GameReset { player_one: first, player_two: second }, &first)
        .unwrap();
    g
}

fn run(buf: &mut Vec<u8>, ins: GameInstruction, caller: &Identity) -> Result<(), GameError> {
    let data = ins.encode();
    process_instruction(buf.as_mut_slice(), data.as_slice(), caller)
}

#[test]
fn test_sanity() {
    let key = Identity::default();
    let mut data = vec![0u8; STATE_LEN];

    let game_reset = GameInstruction::GameReset { player_one: key, player_two: key }.encode();
    let make_turn_1 = GameInstruction::MakeTurn { col: 0, row: 0 }.encode();
    let make_turn_2 = GameInstruction::MakeTurn { col: 1, row: 1 }.encode();

    assert_eq!(make_turn_1, [0x01, 0x00, 0x00]);
    assert_eq!(make_turn_2, [0x01, 0x01, 0x01]);

    process_instruction(&mut data, &game_reset, &key).unwrap();
    let account = GameState::decode(&data).unwrap();
    println!("{}", &account.pretty_print());

    process_instruction(&mut data, &make_turn_1, &key).unwrap();
    let account = GameState::decode(&data).unwrap();
    println!("{}", &account.pretty_print());

    process_instruction(&mut data, &make_turn_2, &key).unwrap();
    let account = GameState::decode(&data).unwrap();
    println!("{}", &account.pretty_print());
    assert_eq!(account.pretty_print(), "X..\n.0.\n...\n");
}

#[test]
fn test_tic_tac_toe() {
    let player_one = id(1);
    let player_two = id(2);
    let not_a_player = id(3);
    let mut data = vec![0u8; STATE_LEN];

    let game_state = GameState::decode(&data).unwrap();
    assert_eq!(game_state.status, GameStatus::Uninitialized);

    run(&mut data, GameInstruction::GameReset { player_one, player_two }, &player_one).unwrap();
    let game_state = GameState::decode(&data).unwrap();
    assert_eq!(game_state.play_field, [GameCell::Empty; 9]);
    assert_eq!(game_state.status, GameStatus::PlayerOneTurn);

    run(&mut data, GameInstruction::MakeTurn { row: 0, col: 0 }, &player_one).unwrap();
    let game_state = GameState::decode(&data).unwrap();
    assert_eq!(
        game_state.play_field,
        [
            GameCell::Tic, GameCell::Empty, GameCell::Empty,
            GameCell::Empty, GameCell::Empty, GameCell::Empty,
            GameCell::Empty, GameCell::Empty, GameCell::Empty,
        ]
    );
    assert_eq!(game_state.status, GameStatus::PlayerTwoTurn);

    run(&mut data, GameInstruction::MakeTurn { row: 0, col: 1 }, &player_two).unwrap();
    let game_state = GameState::decode(&data).unwrap();
    assert_eq!(
        game_state.play_field,
        [
            GameCell::Tic, GameCell::Tac, GameCell::Empty,
            GameCell::Empty, GameCell::Empty, GameCell::Empty,
            GameCell::Empty, GameCell::Empty, GameCell::Empty,
        ]
    );
    assert_eq!(game_state.status, GameStatus::PlayerOneTurn);

    let res_err = run(&mut data, GameInstruction::MakeTurn { row: 1, col: 1 }, &not_a_player);
    assert!(res_err.is_err())
}

#[test]
fn move_encodings() {
    assert_eq!(GameInstruction::MakeTurn { row: 0, col: 0 }.encode(), vec![1, 0, 0]);
    assert_eq!(GameInstruction::MakeTurn { row: 1, col: 1 }.encode(), vec![1, 1, 1]);
    assert_eq!(GameInstruction::MakeTurn { row: 2, col: 0 }.encode(), vec![1, 2, 0]);
}

#[test]
fn reset_encoding_is_tag_then_keys() {
    let mut a = [0u8; 32];
    let mut b = [0u8; 32];
    for i in 0..32 {
        a[i] = i as u8;
        b[i] = 200 - i as u8;
    }
    let bytes =
        GameInstruction::GameReset { player_one: Identity { bytes: a }, player_two: Identity { bytes: b } }
            .encode();
    assert_eq!(bytes.len(), 65);
    assert_eq!(bytes[0], 0);
    assert_eq!(&bytes[1..33], &a[..]);
    assert_eq!(&bytes[33..65], &b[..]);
}

#[test]
fn codec_agrees_with_borsh() {
    assert_eq!(
        GameInstruction::MakeTurn { row: 2, col: 1 }.encode(),
        borsh::to_vec(&(1u8, 2u8, 1u8)).unwrap()
    );
    assert_eq!(
        GameInstruction::GameReset { player_one: id(5), player_two: id(6) }.encode(),
        borsh::to_vec(&(0u8, [5u8; 32], [6u8; 32])).unwrap()
    );
    let mut g = started(id(7), id(9));
    apply_instruction(&mut g, GameInstruction::MakeTurn { row: 1, col: 2 }, &id(7)).unwrap();
    let field: [u8; 9] = [0, 0, 0, 0, 0, 1, 0, 0, 0];
    assert_eq!(g.encode(), borsh::to_vec(&(field, 2u8, [7u8; 32], [9u8; 32])).unwrap());
}

#[test]
fn state_encoding_layout() {
    let mut g = started(id(0xAA), id(0xBB));
    apply_instruction(&mut g, GameInstruction::MakeTurn { row: 2, col: 2 }, &id(0xAA)).unwrap();
    let bytes = g.encode();
    assert_eq!(bytes.len(), STATE_LEN);
    assert_eq!(&bytes[0..9], &[0, 0, 0, 0, 0, 0, 0, 0, 1]);
    assert_eq!(bytes[9], 2);
    assert!(bytes[10..42].iter().all(|b| *b == 0xAA));
    assert!(bytes[42..74].iter().all(|b| *b == 0xBB));
}

#[test]
fn round_trip_every_type() {
    for c in [GameCell::Empty, GameCell::Tic, GameCell::Tac] {
        assert_eq!(GameCell::decode(&c.encode()), Ok(c));
    }
    for s in [
        GameStatus::Uninitialized,
        GameStatus::PlayerOneTurn,
        GameStatus::PlayerTwoTurn,
        GameStatus::GameEnd,
    ] {
        assert_eq!(GameStatus::decode(&s.encode()), Ok(s));
    }
    for ins in [
        GameInstruction::MakeTurn { row: 0, col: 2 },
        GameInstruction::MakeTurn { row: 255, col: 7 },
        GameInstruction::GameReset { player_one: id(1), player_two: id(254) },
    ] {
        assert_eq!(GameInstruction::decode(&ins.encode()), Ok(ins));
    }
    let mut g = started(id(3), id(4));
    g.play_field = [
        GameCell::Tic, GameCell::Tac, GameCell::Empty,
        GameCell::Empty, GameCell::Tac, GameCell::Tic,
        GameCell::Tic, GameCell::Empty, GameCell::Tac,
    ];
    g.status = GameStatus::GameEnd;
    assert_eq!(GameState::decode(&g.encode()), Ok(g));
    assert_eq!(GameState::decode(&blank_state().encode()), Ok(blank_state()));
}

#[test]
fn state_length_is_fixed() {
    let mut g = blank_state();
    assert_eq!(g.encode().len(), STATE_LEN);
    g = started(id(1), id(2));
    assert_eq!(g.encode().len(), STATE_LEN);
    apply_instruction(&mut g, GameInstruction::MakeTurn { row: 1, col: 1 }, &id(1)).unwrap();
    assert_eq!(g.encode().len(), STATE_LEN);
    assert_eq!(STATE_LEN, 74);
}

#[test]
fn turns_alternate_until_a_line() {
    let (a, b) = (id(1), id(2));
    let mut g = started(a, b);
    assert_eq!(g.status, GameStatus::PlayerOneTurn);
    let moves = [(1u8, 1u8), (0, 0), (0, 1), (2, 2)];
    for (n, (row, col)) in moves.iter().enumerate() {
        let caller = if n % 2 == 0 { a } else { b };
        apply_instruction(&mut g, GameInstruction::MakeTurn { row: *row, col: *col }, &caller)
            .unwrap();
        let expected = if n % 2 == 0 { GameStatus::PlayerTwoTurn } else { GameStatus::PlayerOneTurn };
        assert_eq!(g.status, expected);
    }
    // Player one completes the middle column.
    apply_instruction(&mut g, GameInstruction::MakeTurn { row: 2, col: 1 }, &a).unwrap();
    assert_eq!(g.status, GameStatus::GameEnd);
    assert_eq!(g.pretty_print(), "0X.\n.X.\n.X0\n");
}

#[test]
fn full_board_without_line_keeps_alternating() {
    let (a, b) = (id(1), id(2));
    let mut g = started(a, b);
    // X 0 X / X 0 0 / 0 X X : no line.
    let moves = [(0u8, 0u8), (0, 1), (0, 2), (1, 1), (1, 0), (1, 2), (2, 1), (2, 0), (2, 2)];
    for (n, (row, col)) in moves.iter().enumerate() {
        let caller = if n % 2 == 0 { a } else { b };
        apply_instruction(&mut g, GameInstruction::MakeTurn { row: *row, col: *col }, &caller)
            .unwrap();
    }
    assert_eq!(g.status, GameStatus::PlayerTwoTurn);
    assert_eq!(g.pretty_print(), "X0X\nX00\n0XX\n");
    let before = g;
    assert_eq!(
        apply_instruction(&mut g, GameInstruction::MakeTurn { row: 0, col: 0 }, &b),
        Err(GameError::CellOccupied)
    );
    assert_eq!(g, before);
}

#[test]
fn rejected_instruction_leaves_buffer_untouched() {
    let (a, b) = (id(1), id(2));
    let mut buf = vec![0u8; STATE_LEN];
    run(&mut buf, GameInstruction::GameReset { player_one: a, player_two: b }, &a).unwrap();
    run(&mut buf, GameInstruction::MakeTurn { row: 0, col: 0 }, &a).unwrap();
    let snapshot = buf.clone();
    let cases: Vec<(GameInstruction, Identity, GameError)> = vec![
        (GameInstruction::MakeTurn { row: 1, col: 1 }, a, GameError::NotYourTurn),
        (GameInstruction::MakeTurn { row: 0, col: 0 }, b, GameError::CellOccupied),
        (GameInstruction::MakeTurn { row: 3, col: 0 }, b, GameError::CoordinateOutOfRange),
        (GameInstruction::GameReset { player_one: a, player_two: b }, a, GameError::IllegalReset),
    ];
    for (ins, caller, err) in cases {
        assert_eq!(run(&mut buf, ins, &caller), Err(err));
        assert_eq!(buf, snapshot);
    }
    assert_eq!(process_instruction(&mut buf, &[], &a), Err(GameError::DecodeTruncated));
    assert_eq!(process_instruction(&mut buf, &[7, 0, 0], &a), Err(GameError::UnknownVariant));
    assert_eq!(buf, snapshot);
}

#[test]
fn ended_game_refuses_moves_and_accepts_reset() {
    let (a, b) = (id(1), id(2));
    let mut g = started(a, b);
    g.play_field[0] = GameCell::Tac;
    g.play_field[4] = GameCell::Tac;
    g.play_field[8] = GameCell::Tac;
    g.status = GameStatus::GameEnd;
    for (row, col, caller) in [(1u8, 0u8, a), (2, 1, b), (5, 5, id(9))] {
        let before = g;
        assert_eq!(
            apply_instruction(&mut g, GameInstruction::MakeTurn { row, col }, &caller),
            Err(GameError::GameNotInProgress)
        );
        assert_eq!(g, before);
    }
    apply_instruction(&mut g, GameInstruction::GameReset { player_one: b, player_two: a }, &b)
        .unwrap();
    assert_eq!(g.play_field, [GameCell::Empty; 9]);
    assert_eq!(g.status, GameStatus::PlayerOneTurn);
    assert_eq!(g.player_one, b);
    assert_eq!(g.player_two, a);
}

#[test]
fn reset_then_two_moves() {
    let (first, second, outsider) = (id(11), id(22), id(33));
    let mut g = blank_state();
    apply_instruction(&mut g, GameInstruction::GameReset { player_one: first, player_two: second }, &first)
        .unwrap();
    assert_eq!(g.play_field, [GameCell::Empty; 9]);
    assert_eq!(g.status, GameStatus::PlayerOneTurn);
    apply_instruction(&mut g, GameInstruction::MakeTurn { row: 0, col: 0 }, &first).unwrap();
    assert_eq!(g.play_field[0], GameCell::Tic);
    assert_eq!(g.status, GameStatus::PlayerTwoTurn);
    apply_instruction(&mut g, GameInstruction::MakeTurn { row: 1, col: 1 }, &second).unwrap();
    assert_eq!(g.play_field[4], GameCell::Tac);
    assert_eq!(g.status, GameStatus::PlayerOneTurn);
    for (row, col) in [(0u8, 0u8), (2, 2), (1, 2), (3, 3)] {
        assert_eq!(
            apply_instruction(&mut g, GameInstruction::MakeTurn { row, col }, &outsider),
            Err(GameError::NotYourTurn)
        );
    }
}

#[test]
fn top_row_ends_game() {
    let (a, b) = (id(1), id(2));
    let mut g = started(a, b);
    g.play_field = [
        GameCell::Tic, GameCell::Tic, GameCell::Empty,
        GameCell::Tac, GameCell::Tac, GameCell::Empty,
        GameCell::Empty, GameCell::Empty, GameCell::Tac,
    ];
    g.status = GameStatus::PlayerOneTurn;
    apply_instruction(&mut g, GameInstruction::MakeTurn { row: 0, col: 2 }, &a).unwrap();
    assert_eq!(g.play_field[2], GameCell::Tic);
    assert_eq!(g.status, GameStatus::GameEnd);
}

#[test]
fn instruction_decode_failures() {
    assert_eq!(GameInstruction::decode(&[]), Err(GameError::DecodeTruncated));
    assert_eq!(GameInstruction::decode(&[9, 0, 0]), Err(GameError::UnknownVariant));
    assert_eq!(GameInstruction::decode(&[9]), Err(GameError::UnknownVariant));
    assert_eq!(GameInstruction::decode(&[1, 0]), Err(GameError::DecodeTruncated));
    assert_eq!(GameInstruction::decode(&[0; 64]), Err(GameError::DecodeTruncated));
    assert_eq!(GameInstruction::decode(&[1, 0, 0, 0]), Err(GameError::TrailingBytes));
    assert_eq!(GameCell::decode(&[3]), Err(GameError::UnknownVariant));
    assert_eq!(GameCell::decode(&[]), Err(GameError::DecodeTruncated));
    assert_eq!(GameCell::decode(&[1, 1]), Err(GameError::TrailingBytes));
    assert_eq!(GameStatus::decode(&[4]), Err(GameError::UnknownVariant));
    assert_eq!(GameStatus::decode(&[3]), Ok(GameStatus::GameEnd));
}

#[test]
fn state_decode_failures() {
    assert_eq!(GameState::decode(&[0; 73]), Err(GameError::DecodeTruncated));
    assert_eq!(GameState::decode(&[0; 75]), Err(GameError::TrailingBytes));
    let mut bad_cell = vec![0u8; STATE_LEN];
    bad_cell[5] = 3;
    assert_eq!(GameState::decode(&bad_cell), Err(GameError::UnknownVariant));
    let mut bad_status = vec![0u8; STATE_LEN];
    bad_status[9] = 4;
    assert_eq!(GameState::decode(&bad_status), Err(GameError::UnknownVariant));
    let zero = GameState::decode(&[0; STATE_LEN]).unwrap();
    assert_eq!(zero, blank_state());
}

#[test]
fn coordinate_three_is_rejected() {
    let (a, b) = (id(1), id(2));
    let mut g = started(a, b);
    let before = g;
    for (row, col) in [(3u8, 0u8), (0, 3), (3, 3), (255, 1)] {
        assert_eq!(
            apply_instruction(&mut g, GameInstruction::MakeTurn { row, col }, &a),
            Err(GameError::CoordinateOutOfRange)
        );
        assert_eq!(g, before);
    }
}

#[test]
fn move_before_reset_is_refused() {
    let mut g = blank_state();
    assert_eq!(
        apply_instruction(&mut g, GameInstruction::MakeTurn { row: 0, col: 0 }, &id(0)),
        Err(GameError::GameNotInProgress)
    );
    assert_eq!(g, blank_state());
}

#[test]
fn pretty_print_draws_marks() {
    let mut g = blank_state();
    assert_eq!(g.pretty_print(), "...\n...\n...\n");
    g.play_field[1] = GameCell::Tic;
    g.play_field[5] = GameCell::Tac;
    g.play_field[6] = GameCell::Tic;
    assert_eq!(g.pretty_print(), ".X.\n..0\nX..\n");
}

#[test]
fn identity_comparison_and_cell_default() {
    assert!(id(4).same_as(&id(4)));
    let mut other = id(4);
    other.bytes[31] = 5;
    assert!(!id(4).same_as(&other));
    assert_eq!(GameCell::default(), GameCell::Empty);
    assert_eq!(GameCell::from_tag(2), Some(GameCell::Tac));
    assert_eq!(GameStatus::from_tag(7), None);
}
