use lotisa::board::Board;
use lotisa::communication::perft;

#[test]
fn startpos_perft() {
    let mut uci = Board::load_fen("rnbqkbnr/pppppppp/8/8/8/8/PPPPPPPP/RNBQKBNR w - -");

    assert_eq!(perft(&mut uci, 1, None), 20, "Perft Test (depth = 1)");
    assert_eq!(perft(&mut uci, 2, None), 400, "Perft Test (depth = 2)");
    assert_eq!(perft(&mut uci, 3, None), 8902, "Perft Test (depth = 3)");
    assert_eq!(perft(&mut uci, 4, None), 197281, "Perft Test (depth = 4)");
    assert_eq!(perft(&mut uci, 5, None), 4865609, "Perft Test (depth = 5)");
}

#[test]
fn mod_startpos_perft() {
    let mut uci = Board::load_fen("rnbqkbnr/pppppppp/8/8/8/8/PPPPPPPP/RNBQKBNR w - -");

    assert_eq!(perft(&mut uci, 1, None), 20, "Perft Test (depth = 1)");
    assert_eq!(perft(&mut uci, 2, None), 400, "Perft Test (depth = 2)");
    assert_eq!(perft(&mut uci, 3, None), 8902, "Perft Test (depth = 3)");
    assert_eq!(perft(&mut uci, 4, None), 197281, "Perft Test (depth = 4)");
    assert_eq!(perft(&mut uci, 5, None), 4865609, "Perft Test (depth = 5)");
}

#[test]
fn en_passant_perft() {
    let mut uci = Board::load_fen("rnbqkbnr/p1pppppp/8/1P6/8/8/1PPPPPPP/RNBQKBNR b - -");

    assert_eq!(perft(&mut uci, 3, None), 11204, "Perft Test (depth = 3)");
}

#[test]
fn mod_en_passant_perft() {
    let mut uci = Board::load_fen("rnbqkbnr/p1pppppp/8/1P6/8/8/1PPPPPPP/RNBQKBNR b - -");

    assert_eq!(perft(&mut uci, 3, None), 11204, "Perft Test (depth = 3)");
}

#[test]
fn en_passant_uci_test() {
    let mut uci = Board::load_uci_pgn(
        "1. d2d4 d7d5 2. c2c4 c7c6 3. c1c3 g8f6 4. e2e3 g7g6 5. f1e2 b8d7 6. b2b4 f6e4 7. c3e4 d5e4",
    );
    assert!(
        !uci.board
            .generate_legal_moves()
            .iter()
            .any(|action| action.piece_type == 0 && action.info == -3),
        "There is an en passant in this position when there shouldn't be."
    );
}

#[test]
fn castling_test() {
    let mut uci = Board::load_fen("rnbqkbnr/pppppppp/8/8/8/8/PPPPPPPP/R3KBNR w kqKQ -");

    assert_eq!(perft(&mut uci, 4, None), 236936, "Perft Test (depth = 4)");
}

#[test]
fn mod_castling_test() {
    let mut uci = Board::load_fen("rnbqkbnr/pppppppp/8/8/8/8/PPPPPPPP/R3KBNR w kqKQ -");

    assert_eq!(perft(&mut uci, 4, None), 236936, "Perft Test (depth = 4)");
}

#[test]
fn white_promotion_test() {
    let mut uci = Board::load_fen("8/5P2/8/8/8/7K/8/n6k w - -");

    assert_eq!(perft(&mut uci, 3, None), 299, "Perft Test (depth = 3)");
}

#[test]
fn promotion_test() {
    let mut uci = Board::load_fen("8/5P2/8/8/8/7K/8/n6k w - -");

    assert_eq!(perft(&mut uci, 3, None), 299, "Perft Test (depth = 3)");
}

#[test]
fn black_promotion_test() {
    let mut uci = Board::load_fen("rnb1kb1r/pppn2pp/4p3/8/8/2N1KPP1/PPP1p2P/R4BNR b kq -");

    assert!(
        uci.board
            .generate_legal_moves()
            .iter()
            .any(|action| action.piece_type != 0 || action.info >= 0),
        "There aren't any promotions in this position when there should be."
    );
}

#[test]
fn perft_black_promotion_test() {
    let mut uci = Board::load_fen("rnb1kb1r/pppn2pp/4p3/8/8/2N1KPP1/PPP1p2P/R4BNR b kq -");

    assert!(
        uci.board
            .generate_legal_moves()
            .iter()
            .any(|action| action.piece_type != 0 || action.info >= 0),
        "There aren't any promotions in this position when there should be."
    );
}

#[test]
fn moves_black_promotion_test() {
    let mut uci = Board::load_fen("rnb1kb1r/pppn2pp/4p3/8/8/2N1KPP1/PPP1p2P/R4BNR b kq -");

    assert!(
        uci.board
            .generate_legal_moves()
            .iter()
            .any(|action| action.piece_type != 0 || action.info >= 0),
        "There aren't any promotions in this position when there should be."
    );
}

#[test]
fn team_switch() {
    let uci = Board::load_fen("rnbqkbnr/pppppppp/8/8/8/8/PPPPPPPP/RNBQKBNR w KQkq -");

    assert_eq!(uci.board.moving_team, 0);
    assert_eq!(uci.board.next_team(), 1);
    assert_eq!(uci.board.previous_team(), 1);
}

#[test]
fn mod_team_switch() {
    let uci = Board::load_fen("rnbqkbnr/pppppppp/8/8/8/8/PPPPPPPP/RNBQKBNR w KQkq -");

    assert_eq!(uci.board.moving_team, 0);
    assert_eq!(uci.board.next_team(), 1);
    assert_eq!(uci.board.previous_team(), 1);
}

#[test]
fn perft_team_switch() {
    let uci = Board::load_fen("rnbqkbnr/pppppppp/8/8/8/8/PPPPPPPP/RNBQKBNR w KQkq -");

    assert_eq!(uci.board.moving_team, 0);
    assert_eq!(uci.board.next_team(), 1);
    assert_eq!(uci.board.previous_team(), 1);
}

#[test]
fn capture_test() {
    let mut uci = Board::load_fen("8/1k6/8/8/4p3/5P2/1K6/8 b - -");

    println!("{}", uci.decode_pos("a4".to_string()));
}
