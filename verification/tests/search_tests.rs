use lotisa::board::Board;
use lotisa::move_ordering::get_history_move;
use lotisa::move_ordering::is_counter_move;
use lotisa::move_ordering::store_counter_move;
use lotisa::move_ordering::store_history_move;
use lotisa::move_ordering::store_killer_move;
use lotisa::search::MAX_VALUE;
use lotisa::search::create_info;
use lotisa::search::root_search;
use lotisa::zobrist::hash_board;

#[test]
fn fresh_search_returns_legal_move() {
    // A 200 ms search from the start position yields a legal best move.
    let mut uci = Board::load_fen("rnbqkbnr/pppppppp/8/8/8/8/PPPPPPPP/RNBQKBNR w KQkq -");
    let mut info = create_info();
    let team = uci.board.moving_team;
    let (_score, summaries) = root_search(&mut info, &mut uci.board, team, 200);
    assert!(!summaries.is_empty());
    let best = info.pv_table.table[0];
    assert!(best.is_some());
    let best = best.unwrap();
    let legal = uci.board.generate_legal_moves();
    assert!(legal.contains(&best));
}

#[test]
fn deepening_reports_rise_one_by_one() {
    // The driver's summary lines carry strictly increasing depths.
    let mut uci = Board::load_fen("rnbqkbnr/pppppppp/8/8/8/8/PPPPPPPP/RNBQKBNR w KQkq -");
    let mut info = create_info();
    let team = uci.board.moving_team;
    let (_score, summaries) = root_search(&mut info, &mut uci.board, team, 150);
    assert!(summaries.len() >= 1);
    for (i, s) in summaries.iter().enumerate() {
        assert_eq!(s.depth as usize, i + 1);
    }
}

#[test]
fn mate_in_one_is_found() {
    // White mates with the rook going to the back rank.
    let mut uci = Board::load_fen("6k1/5ppp/8/8/8/8/5PPP/R5K1 w - -");
    let mut info = create_info();
    let team = uci.board.moving_team;
    let (score, _summaries) = root_search(&mut info, &mut uci.board, team, 400);
    assert!(score >= MAX_VALUE - 100);
    let best = info.pv_table.table[0].unwrap();
    let text = uci.encode(&best);
    assert_eq!(text, "a1a8");
}

#[test]
fn create_info_shape() {
    let info = create_info();
    assert_eq!(info.max_tt_size, 9_000_000);
    assert_eq!(info.transposition_table.len(), 9_000_000);
    assert_eq!(info.killer_moves.len(), 200);
    assert_eq!(info.history_moves.len(), 28800);
    assert_eq!(info.counter_moves.len(), 14400);
    assert_eq!(info.zobrist.len(), 3360);
    assert_eq!(info.pv_table.table.len(), 10000);
    assert!(info.pv_table.table.iter().all(|e| e.is_none()));
}

#[test]
fn zobrist_hash_is_deterministic_and_move_sensitive() {
    let mut uci = Board::load_fen("rnbqkbnr/pppppppp/8/8/8/8/PPPPPPPP/RNBQKBNR w KQkq -");
    let info = create_info();
    let h1 = hash_board(&uci.board, uci.board.moving_team, &info.zobrist);
    let h2 = hash_board(&uci.board, uci.board.moving_team, &info.zobrist);
    assert_eq!(h1, h2);
    let action = uci.decode(String::from("e2e4"));
    uci.board.make_move(action);
    let h3 = hash_board(&uci.board, uci.board.moving_team, &info.zobrist);
    uci.board.undo_move();
    let h4 = hash_board(&uci.board, uci.board.moving_team, &info.zobrist);
    assert_ne!(h1, h3);
    assert_eq!(h1, h4);
}

#[test]
fn history_table_rewards_and_halves() {
    let mut info = create_info();
    let mut uci = Board::load_fen("rnbqkbnr/pppppppp/8/8/8/8/PPPPPPPP/RNBQKBNR w KQkq -");
    let action = uci.decode(String::from("g1f3"));
    store_history_move(&mut info, &action, 10);
    assert_eq!(get_history_move(&info, &action), 100);
    store_history_move(&mut info, &action, 20);
    assert_eq!(get_history_move(&info, &action), 500);
    // The threshold was reached: the next insert halves before adding.
    store_history_move(&mut info, &action, 10);
    assert_eq!(get_history_move(&info, &action), 350);
}

#[test]
fn killer_moves_shift_down() {
    let mut info = create_info();
    let mut uci = Board::load_fen("rnbqkbnr/pppppppp/8/8/8/8/PPPPPPPP/RNBQKBNR w KQkq -");
    let first = uci.decode(String::from("g1f3"));
    let second = uci.decode(String::from("b1c3"));
    store_killer_move(&mut info, &first, 3);
    assert_eq!(info.killer_moves[3], Some(first));
    store_killer_move(&mut info, &second, 3);
    assert_eq!(info.killer_moves[3], Some(second));
    assert_eq!(info.killer_moves[103], Some(first));
    // Storing the same move again does not shift.
    store_killer_move(&mut info, &second, 3);
    assert_eq!(info.killer_moves[3], Some(second));
    assert_eq!(info.killer_moves[103], Some(first));
}

#[test]
fn counter_moves_keyed_by_parent() {
    let mut info = create_info();
    let mut uci = Board::load_fen("rnbqkbnr/pppppppp/8/8/8/8/PPPPPPPP/RNBQKBNR w KQkq -");
    let parent = uci.decode(String::from("e2e4"));
    let reply = uci.decode(String::from("d7d5"));
    store_counter_move(&mut info, parent, reply, 5);
    assert!(is_counter_move(&info, &parent, &reply));
    assert!(!is_counter_move(&info, &reply, &parent));
    // A shallower refutation does not replace a deeper one.
    let other = uci.decode(String::from("g8f6"));
    store_counter_move(&mut info, parent, other, 2);
    assert!(is_counter_move(&info, &parent, &reply));
}

#[test]
fn stalemate_scores_zero() {
    // A stalemated side to move is a draw: score zero, no best move.
    let mut uci = Board::load_fen("7k/5Q2/6K1/8/8/8/8/8 b - -");
    let mut info = create_info();
    let team = uci.board.moving_team;
    let (score, summaries) = root_search(&mut info, &mut uci.board, team, 100);
    assert_eq!(score, 0);
    assert!(summaries.len() >= 1);
    assert!(info.pv_table.table[0].is_none());
}
