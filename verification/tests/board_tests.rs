use lotisa::board::Board;
use lotisa::board::create_board_state;
use lotisa::evaluation::evaluate;
use lotisa::evaluation::get_material_value;

#[test]
fn board_state_shape() {
    let state = create_board_state(2, (8, 8));
    assert_eq!(state.len(), 120);
    // Sentinel frame: first two and last two rows, first and last column.
    for col in 0..10 {
        assert_eq!(state[col], 0);
        assert_eq!(state[10 + col], 0);
        assert_eq!(state[100 + col], 0);
        assert_eq!(state[110 + col], 0);
    }
    for row in 2..10 {
        assert_eq!(state[row * 10], 0);
        assert_eq!(state[row * 10 + 9], 0);
        for col in 1..9 {
            assert_eq!(state[row * 10 + col], 1);
        }
    }
}

#[test]
fn make_undo_identity() {
    // Making any move and undoing it restores the position exactly.
    let mut uci = Board::load_fen("rnbqkbnr/pppppppp/8/8/8/8/PPPPPPPP/RNBQKBNR w KQkq -");
    let moves = uci.board.generate_legal_moves();
    assert_eq!(moves.len(), 20);
    for action in moves {
        let state_before = uci.board.state.clone();
        let pieces_before = uci.board.pieces.clone();
        let team_before = uci.board.moving_team;
        let history_before = uci.board.history.len();
        uci.board.make_move(action);
        uci.board.undo_move();
        assert_eq!(uci.board.state, state_before);
        assert_eq!(uci.board.pieces, pieces_before);
        assert_eq!(uci.board.moving_team, team_before);
        assert_eq!(uci.board.history.len(), history_before);
    }
}

#[test]
fn legal_moves_are_king_safe_pseudolegal_moves() {
    // The legal-move list is exactly the pseudolegal list filtered by the
    // make / check / undo test.
    let mut uci = Board::load_fen("rnb1kb1r/pppn2pp/4p3/8/8/2N1KPP1/PPP1p2P/R4BNR b kq -");
    let legal = uci.board.generate_legal_moves();
    let pseudo = uci.board.generate_moves();
    let team = uci.board.moving_team;
    let mut filtered = Vec::new();
    for action in pseudo {
        if uci.board.is_legal(action, team) {
            filtered.push(action);
        }
    }
    assert_eq!(legal, filtered);
    assert!(legal.len() < filtered.len() + 1);
}

#[test]
fn evaluation_antisymmetric() {
    // The score seen by one side is the negation of the other side's score.
    let positions = [
        "rnbqkbnr/pppppppp/8/8/8/8/PPPPPPPP/RNBQKBNR w KQkq -",
        "rnb1kb1r/pppn2pp/4p3/8/8/2N1KPP1/PPP1p2P/R4BNR b kq -",
        "8/5P2/8/8/8/7K/8/n6k w - -",
    ];
    for fen in positions {
        let uci = Board::load_fen(fen);
        assert_eq!(evaluate(&uci.board, 0), -evaluate(&uci.board, 1));
    }
}

#[test]
fn evaluation_material_values() {
    // The starting position is balanced; a missing knight is worth 3000.
    let uci = Board::load_fen("rnbqkbnr/pppppppp/8/8/8/8/PPPPPPPP/RNBQKBNR w KQkq -");
    assert_eq!(evaluate(&uci.board, 0), 0);
    let uci = Board::load_fen("r1bqkbnr/pppppppp/8/8/8/8/PPPPPPPP/RNBQKBNR w KQkq -");
    assert_eq!(evaluate(&uci.board, 0), 3000);
    assert_eq!(evaluate(&uci.board, 1), -3000);
    assert_eq!(get_material_value(0), 1000);
    assert_eq!(get_material_value(1), 3000);
    assert_eq!(get_material_value(2), 3250);
    assert_eq!(get_material_value(3), 5000);
    assert_eq!(get_material_value(4), 9000);
    assert_eq!(get_material_value(5), 1000);
}

#[test]
fn decode_reads_long_algebraic() {
    let mut uci = Board::load_fen("rnbqkbnr/pppppppp/8/8/8/8/PPPPPPPP/RNBQKBNR w KQkq -");
    let action = uci.decode(String::from("e2e4"));
    assert_eq!(action.from, 85);
    assert_eq!(action.to, 65);
    assert_eq!(action.team, 0);
    assert_eq!(action.piece_type, 0);
    assert_eq!(action.info, -2);
    assert!(!action.capture);
    let encoded = uci.encode(&action);
    assert_eq!(encoded, "e2e4");
}

#[test]
fn decode_translates_castling() {
    // A two-square king slide becomes the internal rook-square form.
    let mut uci = Board::load_fen("rnbqkbnr/pppppppp/8/8/8/8/PPPPPPPP/R3K2R w KQkq -");
    let action = uci.decode(String::from("e1g1"));
    assert_eq!(action.piece_type, 5);
    assert_eq!(action.info, 1);
    assert_eq!(action.to, 98);
    assert_eq!(uci.encode(&action), "e1g1");
}

#[test]
fn can_make_rejects_garbage() {
    let uci = Board::load_fen("rnbqkbnr/pppppppp/8/8/8/8/PPPPPPPP/RNBQKBNR w KQkq -");
    let junk = lotisa::board::Action {
        from: 0,
        to: 0,
        team: 0,
        piece_type: 0,
        capture: false,
        info: 0,
    };
    assert!(!uci.board.can_make(junk));
    let empty_from = lotisa::board::Action {
        from: 65,
        to: 55,
        team: 0,
        piece_type: 0,
        capture: false,
        info: -1,
    };
    assert!(!uci.board.can_make(empty_from));
}

#[test]
fn en_passant_capture_removes_pawn() {
    // After a double push beside it, the pawn may capture en passant, and
    // the captured pawn leaves the board.
    let mut uci = Board::load_fen("rnbqkbnr/p1pppppp/8/1P6/8/8/1PPPPPPP/RNBQKBNR b - -");
    let a7a5 = uci.decode(String::from("a7a5"));
    assert!(uci.board.can_make(a7a5));
    uci.board.make_move(a7a5);
    let legal = uci.board.generate_legal_moves();
    let ep: Vec<_> = legal
        .iter()
        .filter(|a| a.piece_type == 0 && a.info == -3)
        .cloned()
        .collect();
    assert_eq!(ep.len(), 1);
    let before = uci.board.pieces.len();
    uci.board.make_move(ep[0]);
    assert_eq!(uci.board.pieces.len(), before - 1);
    uci.board.undo_move();
    assert_eq!(uci.board.pieces.len(), before);
}

#[test]
fn stalemate_has_no_legal_moves() {
    // A stalemated side has pseudolegal moves but no legal ones.
    let mut uci = Board::load_fen("7k/5Q2/6K1/8/8/8/8/8 b - -");
    let legal = uci.board.generate_legal_moves();
    assert_eq!(legal.len(), 0);
}

#[test]
fn fen_en_passant_field_enables_capture() {
    // The en passant field of a FEN record seeds the double push behind it.
    let mut uci =
        Board::load_fen("rnbqkbnr/ppp1pppp/8/8/3pP3/8/PPPP1PPP/RNBQKBNR b KQkq e3 0 1");
    let legal = uci.board.generate_legal_moves();
    let ep: Vec<_> = legal
        .iter()
        .filter(|a| a.piece_type == 0 && a.info == -3)
        .collect();
    assert_eq!(ep.len(), 1);
    assert_eq!(ep[0].from, 64);
    assert_eq!(ep[0].to, 75);
}
