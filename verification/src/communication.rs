//! The move-text codec and position setup: long-algebraic encoding and
//! decoding of moves, FEN-style board loading, and perft counting. These sit
//! at the engine's boundary; their contracts keep the board well formed and
//! unchanged where they only read it.
use vstd::prelude::*;
use vstd::pervasive::VecAdditionalExecFns;
use vstd::string::StrSliceExecFns;
use vstd::string::StringExecFns;

use crate::board::Action;
use crate::board::Board;
use crate::board::PersistentPieceInfo;
use crate::board::StoredMove;
use crate::board::action_makeable;
use crate::board::clone_pieces;
use crate::board::clone_state;
use crate::board::create_board_state;
use crate::board::find_piece_index;
use crate::board::playable;
use crate::board::wf_position;
use crate::movegen::board_restored;
use crate::pv_table::PV;

verus! {

/// A codec between engine moves and their text form.
pub trait Communicator {
    fn encode(&mut self, action: &Action) -> String;

    fn decode(&mut self, action: String) -> Action;

    fn encode_pos(&mut self, pos: i16) -> String;

    fn decode_pos(&mut self, pos: String) -> i16;
}

/// The board together with the long-algebraic codec.
pub struct UCICommunicator {
    pub board: Board,
}

/// The file letter of a column, `a` through `h`.
fn col_letter(col: i16) -> (r: &'static str)
    ensures
        r@.len() == 1,
{
    let s: &'static str = match col {
        1 => "a",
        2 => "b",
        3 => "c",
        4 => "d",
        5 => "e",
        6 => "f",
        7 => "g",
        _ => "h",
    };
    proof {
        reveal_strlit("a");
        reveal_strlit("b");
        reveal_strlit("c");
        reveal_strlit("d");
        reveal_strlit("e");
        reveal_strlit("f");
        reveal_strlit("g");
        reveal_strlit("h");
    }
    s
}

/// The rank digit of a row, `1` at the bottom through `8` at the top.
fn row_digit(row: i16) -> (r: &'static str)
    ensures
        r@.len() == 1,
{
    let s: &'static str = match row {
        2 => "8",
        3 => "7",
        4 => "6",
        5 => "5",
        6 => "4",
        7 => "3",
        8 => "2",
        _ => "1",
    };
    proof {
        reveal_strlit("1");
        reveal_strlit("2");
        reveal_strlit("3");
        reveal_strlit("4");
        reveal_strlit("5");
        reveal_strlit("6");
        reveal_strlit("7");
        reveal_strlit("8");
    }
    s
}

/// Writes a flat position as its algebraic square name; squares off the
/// playable area come out as `a1`.
pub fn encode_uci_pos(board: &Board, pos: i16, buffer_amount: i16) -> (r: String)
    requires
        board.wf_geometry(),
    ensures
        r@.len() == 2,
{
    let (row, col): (i16, i16) = if 0 <= pos && pos < 120 {
        let rw = pos / 10;
        (rw, pos - 10 * rw)
    } else {
        (9, 1)
    };
    let row = if 2 <= row && row <= 9 {
        row
    } else {
        9
    };
    let col = if 1 <= col && col <= 8 {
        col
    } else {
        1
    };
    let mut out = String::from_str(col_letter(col));
    out.append(row_digit(row));
    out
}

/// Reads an algebraic square name; malformed names come out as `a1`.
pub fn decode_uci_pos(board: &Board, pos: &str, buffer_amount: i16) -> (r: i16)
    requires
        board.wf_geometry(),
    ensures
        playable(r as int),
{
    if pos.unicode_len() < 2 {
        return 91;
    }
    let c0 = pos.get_char(0);
    let c1 = pos.get_char(1);
    let c0u = c0 as u32;
    let c1u = c1 as u32;
    if c0u < 97 || c0u > 104 || c1u < 49 || c1u > 56 {
        return 91;
    }
    let col: i16 = (c0u - 97) as i16;
    let digit: i16 = (c1u - 48) as i16;
    let row: i16 = 10 - digit;
    row * 10 + col + 1
}

impl UCICommunicator {
    /// Writes a move as long algebraic text: two square names, with the
    /// promotion piece letter appended for promotions; castling becomes the
    /// king's two-square slide.
    pub fn encode(&mut self, action: &Action) -> (r: String)
        requires
            old(self).board.wf(),
        ensures
            *final(self) == *old(self),
            2 <= r@.len() <= 5,
    {
        let buffer_amount = self.board.buffer_amount;
        let to: i16 = if action.piece_type == 5 && action.info == 1 {
            let dir: i16 = if action.to > action.from {
                1
            } else {
                -1
            };
            if -32768 + 2 <= action.from && action.from <= 32767 - 2 {
                action.from + dir * 2
            } else {
                action.to
            }
        } else {
            action.to
        };
        let mut out = encode_uci_pos(&self.board, action.from, buffer_amount);
        let second = encode_uci_pos(&self.board, to, buffer_amount);
        out.append(second.as_str());
        if action.piece_type == 0 && action.info >= 0 {
            let promo: &'static str = match action.info {
                1 => "n",
                2 => "b",
                3 => "r",
                _ => "q",
            };
            proof {
                reveal_strlit("n");
                reveal_strlit("b");
                reveal_strlit("r");
                reveal_strlit("q");
            }
            out.append(promo);
        }
        out
    }

    /// Reads a move in long algebraic text against the current position:
    /// the piece on the from square fixes the piece type, a diagonal pawn
    /// move onto an empty square is en passant, a two-square king slide is
    /// translated into the internal castling form, and a fifth letter names
    /// the promotion target. Malformed input comes out as an empty action.
    pub fn decode(&mut self, action: String) -> (r: Action)
        requires
            old(self).board.wf(),
        ensures
            final(self).board.wf(),
            board_restored(old(self).board, final(self).board),
    {
        let null_action = Action { from: 0, to: 0, team: 0, piece_type: 0, capture: false, info: 0 };
        let len = action.as_str().unicode_len();
        if len < 4 {
            return null_action;
        }
        let s = action.as_str();
        let from = decode_uci_pos(&self.board, s.substring_char(0, 2), self.board.buffer_amount);
        let mut to = decode_uci_pos(&self.board, s.substring_char(2, 4), self.board.buffer_amount);
        let fcode = self.board.state[from as usize];
        if fcode < 2 {
            return null_action;
        }
        let team = self.board.get_team(fcode);
        let piece_type = self.board.get_piece_type(fcode, team);
        let diff = if from >= to {
            from - to
        } else {
            to - from
        };
        let en_passant = piece_type == 0 && (diff % 10) != 0 && self.board.state[to as usize] == 1;
        let mut castling = false;
        if piece_type == 5 && diff == 2 {
            let moves = self.board.generate_moves();
            let mut i: usize = 0;
            let dir_right = to > from;
            while i < moves.len()
                invariant
                    0 <= i <= moves@.len(),
                    self.board.wf(),
                    board_restored(old(self).board, self.board),
                    playable(to as int),
                    crate::movegen::all_makeable(
                        self.board.state@,
                        self.board.pieces@,
                        self.board.moving_team,
                        moves@,
                    ),
                decreases moves@.len() - i,
            {
                let m = moves[i];
                if m.from == from && m.info == 1 && m.piece_type == 5 && ((m.to > m.from)
                    == dir_right) {
                    proof {
                        assert(action_makeable(
                            self.board.state@,
                            self.board.pieces@,
                            self.board.moving_team,
                            moves@[i as int],
                        ));
                    }
                    to = m.to;
                    castling = true;
                    break ;
                }
                i = i + 1;
            }
        }
        let capture = self.board.state[to as usize] > 1 && !en_passant;
        let info: i16 = if piece_type == 0 {
            if len == 5 {
                match s.get_char(4) {
                    'n' => 1,
                    'b' => 2,
                    'r' => 3,
                    'q' => 4,
                    _ => 0,
                }
            } else if en_passant {
                -3
            } else if diff == 20 {
                -2
            } else {
                -1
            }
        } else if piece_type == 5 {
            if castling {
                1
            } else {
                0
            }
        } else {
            0
        };
        Action { from, to, piece_type, team, capture, info }
    }

    pub fn encode_pos(&mut self, pos: i16) -> (r: String)
        requires
            old(self).board.wf(),
        ensures
            *final(self) == *old(self),
            r@.len() == 2,
    {
        let buffer_amount = self.board.buffer_amount;
        encode_uci_pos(&self.board, pos, buffer_amount)
    }

    pub fn decode_pos(&mut self, pos: String) -> (r: i16)
        requires
            old(self).board.wf(),
        ensures
            *final(self) == *old(self),
            playable(r as int),
    {
        let buffer_amount = self.board.buffer_amount;
        decode_uci_pos(&self.board, pos.as_str(), buffer_amount)
    }
}

impl PV {
    /// Renders the principal variation from the root as space-separated
    /// long-algebraic moves.
    pub fn display_pv(&mut self, uci: &mut UCICommunicator) -> (r: String)
        requires
            old(self).wf(),
            old(uci).board.wf(),
        ensures
            *final(self) == *old(self),
            final(uci).board.wf(),
            board_restored(old(uci).board, final(uci).board),
    {
        let mut out = String::new();
        let mut j: usize = 0;
        let mut first = true;
        while j < 100
            invariant
                0 <= j <= 100,
                self.wf(),
                uci.board.wf(),
                board_restored(old(uci).board, uci.board),
                *self == *old(self),
            decreases 100 - j,
        {
            match self.table[j] {
                Some(a) => {
                    if !first {
                        proof {
                            reveal_strlit(" ");
                        }
                        out.append(" ");
                    }
                    let part = uci.encode(&a);
                    out.append(part.as_str());
                    first = false;
                },
                None => {
                    break ;
                },
            }
            j = j + 1;
        }
        out
    }
}

/// Places one piece on an empty playable square, keeping the position well
/// formed.
fn place_piece(
    state: &mut Vec<i16>,
    pieces: &mut Vec<PersistentPieceInfo>,
    pos: i16,
    code: i16,
    first_move: bool,
)
    requires
        wf_position(old(state)@, old(pieces)@),
        playable(pos as int),
        old(state)@[pos as int] == 1,
        2 <= code <= 13,
        old(pieces)@.len() < 64,
    ensures
        wf_position(final(state)@, final(pieces)@),
        final(state)@ == old(state)@.update(pos as int, code),
        final(pieces)@ == old(pieces)@.push(
            PersistentPieceInfo { pos, first_move },
        ),
{
    let ghost pre_state = state@;
    let ghost pre_pieces = pieces@;
    state.set(pos as usize, code);
    pieces.push(PersistentPieceInfo { pos, first_move });
    proof {
        assert forall|p: int| 0 <= p < 120 && #[trigger] state@[p] >= 2 implies exists|j: int|
            0 <= j < pieces@.len() && (#[trigger] pieces@[j].pos) as int == p by {
            if p == pos as int {
                assert(pieces@[pieces@.len() - 1].pos as int == p);
            } else {
                assert(pre_state[p] >= 2);
                let j = choose|j: int|
                    0 <= j < pre_pieces.len() && (#[trigger] pre_pieces[j].pos) as int == p;
                assert(pieces@[j].pos as int == p);
            }
        }
        assert forall|j: int, k: int|
            0 <= j < pieces@.len() && 0 <= k < pieces@.len() && j != k implies (
        #[trigger] pieces@[j].pos) != (#[trigger] pieces@[k].pos) by {
            if j == pieces@.len() - 1 || k == pieces@.len() - 1 {
                let other: int = if j == pieces@.len() - 1 {
                    k
                } else {
                    j
                };
                if other < pre_pieces.len() {
                    assert(pre_state[pre_pieces[other].pos as int] >= 2);
                }
            }
        }
    }
}

impl Board {
    /// Loads the piece-placement field of a FEN record onto a fresh board.
    /// Out-of-range ranks, files and characters are ignored.
    pub fn load_fen_pieces(fen: &str) -> (r: Board)
        ensures
            r.wf(),
            r.history@.len() == 0,
    {
        let mut state = create_board_state(2, (8, 8));
        let mut pieces: Vec<PersistentPieceInfo> = Vec::new();
        let len = fen.unicode_len();
        let mut i: usize = 0;
        let mut row_ind: i16 = 0;
        let mut col_ind: i16 = 0;
        while i < len
            invariant
                0 <= i <= len,
                len == fen@.len(),
                wf_position(state@, pieces@),
                0 <= row_ind <= 101,
                0 <= col_ind <= 109,
            decreases len - i,
        {
            let c = fen.get_char(i);
            let cu = c as u32;
            if c == '/' {
                if row_ind < 100 {
                    row_ind = row_ind + 1;
                }
                col_ind = 0;
            } else if 49 <= cu && cu <= 56 {
                let skip = (cu - 48) as i16;
                if col_ind <= 100 {
                    col_ind = col_ind + skip;
                }
            } else if c == ' ' {
                break ;
            } else {
                let (team, piece_type): (i16, i16) = match c {
                    'P' => (0, 0),
                    'N' => (0, 1),
                    'B' => (0, 2),
                    'R' => (0, 3),
                    'Q' => (0, 4),
                    'K' => (0, 5),
                    'p' => (1, 0),
                    'n' => (1, 1),
                    'b' => (1, 2),
                    'r' => (1, 3),
                    'q' => (1, 4),
                    'k' => (1, 5),
                    _ => (0, 6),
                };
                if piece_type <= 5 && row_ind <= 7 && col_ind <= 7 {
                    let piece_pos: i16 = (col_ind + 1) + 10 * (row_ind + 2);
                    proof {
                        assert(playable(piece_pos as int)) by (nonlinear_arith)
                            requires
                                piece_pos as int == (col_ind as int + 1) + 10 * (row_ind as int
                                    + 2),
                                0 <= col_ind <= 7,
                                0 <= row_ind <= 7;
                    }
                    let code = piece_type + 6 * team + 2;
                    if state[piece_pos as usize] == 1 && pieces.len() < 64 {
                        let first_move = if piece_type == 0 {
                            (team == 0 && row_ind == 6) || (team == 1 && row_ind == 1)
                        } else {
                            true
                        };
                        place_piece(&mut state, &mut pieces, piece_pos, code, first_move);
                    }
                    if col_ind <= 100 {
                        col_ind = col_ind + 1;
                    }
                } else {
                    if col_ind <= 100 {
                        col_ind = col_ind + 1;
                    }
                }
            }
            i = i + 1;
        }
        Board {
            state,
            pieces,
            piece_types: 6,
            teams: 2,
            rows: 8,
            cols: 8,
            buffer_amount: 2,
            row_gap: 10,
            col_gap: 12,
            moving_team: 0,
            history: Vec::new(),
        }
    }

    /// Loads a FEN record: piece placement, side to move and castling
    /// rights. Only those fields affect the position; pieces standing on
    /// squares that castling rights do not cover lose their first move.
    pub fn load_fen(fen: &str) -> (r: UCICommunicator)
        ensures
            r.board.wf(),
    {
        let mut board = Board::load_fen_pieces(fen);
        // Field boundaries: walk to the side-to-move and castling fields.
        let len = fen.unicode_len();
        let mut i: usize = 0;
        let mut field: usize = 0;
        let mut side: char = 'w';
        while i < len
            invariant_except_break
                field <= 10,
            invariant
                0 <= i <= len,
                len == fen@.len(),
                board.wf(),
                board.history@.len() == 0,
            decreases len - i,
        {
            let c = fen.get_char(i);
            if c == ' ' {
                field = field + 1;
                if field > 10 {
                    break ;
                }
            } else if field == 1 {
                if c == 'b' {
                    side = 'b';
                }
            } else if field == 2 {
                // Castling rights: a letter grants the right; rooks on the
                // corner squares it does not name lose their first move.
                if c == '-' {
                    let _ = clear_first_move(&mut board, 98);
                    let _ = clear_first_move(&mut board, 91);
                    let _ = clear_first_move(&mut board, 28);
                    let _ = clear_first_move(&mut board, 21);
                }
            } else if field >= 3 {
                break ;
            }
            i = i + 1;
        }
        // Second pass for the castling field: clear each unnamed corner.
        let mut has_kside_w = false;
        let mut has_qside_w = false;
        let mut has_kside_b = false;
        let mut has_qside_b = false;
        let mut saw_dash = false;
        let mut i: usize = 0;
        let mut field: usize = 0;
        while i < len
            invariant_except_break
                field <= 10,
            invariant
                0 <= i <= len,
                len == fen@.len(),
                board.wf(),
                board.history@.len() == 0,
            decreases len - i,
        {
            let c = fen.get_char(i);
            if c == ' ' {
                field = field + 1;
                if field > 10 {
                    break ;
                }
            } else if field == 2 {
                if c == 'K' {
                    has_kside_w = true;
                } else if c == 'Q' {
                    has_qside_w = true;
                } else if c == 'k' {
                    has_kside_b = true;
                } else if c == 'q' {
                    has_qside_b = true;
                } else if c == '-' {
                    saw_dash = true;
                }
            }
            i = i + 1;
        }
        if !saw_dash {
            if !has_kside_w {
                let _ = clear_first_move(&mut board, 98);
            }
            if !has_qside_w {
                let _ = clear_first_move(&mut board, 91);
            }
            if !has_kside_b {
                let _ = clear_first_move(&mut board, 28);
            }
            if !has_qside_b {
                let _ = clear_first_move(&mut board, 21);
            }
        }
        board.moving_team = if side == 'b' {
            1
        } else {
            0
        };
        // En passant field: a square name seeds the double push behind it.
        let mut i: usize = 0;
        let mut field: usize = 0;
        let mut ep_c0: char = '-';
        let mut ep_c1: char = '-';
        let mut ep_seen = false;
        while i < len
            invariant_except_break
                field <= 10,
            invariant
                0 <= i <= len,
                len == fen@.len(),
            decreases len - i,
        {
            let c = fen.get_char(i);
            if c == ' ' {
                field = field + 1;
                if field > 10 {
                    break ;
                }
            } else if field == 3 {
                if !ep_seen {
                    ep_c0 = c;
                    ep_seen = true;
                } else if ep_c1 == '-' {
                    ep_c1 = c;
                }
            } else if field > 3 {
                break ;
            }
            i = i + 1;
        }
        if ep_seen {
            let c0u = ep_c0 as u32;
            let c1u = ep_c1 as u32;
            if 97 <= c0u && c0u <= 104 && 49 <= c1u && c1u <= 56 {
                let col: i16 = (c0u - 97) as i16;
                let digit: i16 = (c1u - 48) as i16;
                let target: i16 = (10 - digit) * 10 + col + 1;
                seed_ep_history(&mut board, target);
            }
        }
        UCICommunicator { board }
    }

    /// Replays a space-separated list of long-algebraic moves from the
    /// standard starting position, skipping anything unplayable.
    pub fn load_uci_pgn(uci_pgn: &str) -> (r: UCICommunicator)
        ensures
            r.board.wf(),
    {
        let mut uci = Board::load_fen("rnbqkbnr/pppppppp/8/8/8/8/PPPPPPPP/RNBQKBNR w KQkq -");
        let len = uci_pgn.unicode_len();
        let mut start: usize = 0;
        let mut i: usize = 0;
        while i <= len
            invariant
                0 <= start <= i <= len,
                len == uci_pgn@.len(),
                uci.board.wf(),
            decreases len - i,
        {
            let at_end = i == len;
            let is_space = if at_end {
                true
            } else {
                fen_char_is_space(uci_pgn, i)
            };
            if is_space && start < i {
                let word = uci_pgn.substring_char(start, i);
                let action = uci.decode(String::from_str(word));
                if uci.board.can_make(action) {
                    uci.board.make_move(action);
                }
            }
            if at_end {
                break ;
            }
            if is_space {
                start = i + 1;
            }
            i = i + 1;
        }
        uci
    }
}

/// Seeds the history with the double pawn push a FEN en passant field
/// names, so that the capture is available on the first move. Nothing
/// happens unless the squares hold what a double push leaves behind.
fn seed_ep_history(board: &mut Board, target: i16)
    requires
        old(board).wf(),
        old(board).history@.len() == 0,
        playable(target as int),
    ensures
        final(board).wf(),
{
    let pusher: i16 = 1 - board.moving_team;
    let (pawn_pos, from_sq): (i16, i16) = if pusher == 1 {
        (target + 10, target - 10)
    } else {
        (target - 10, target + 10)
    };
    let code = board.get_piece_value(0, pusher);
    if board.state[target as usize] != 1 || board.state[from_sq as usize] != 1
        || board.state[pawn_pos as usize] != code {
        return ;
    }
    proof {
        assert(playable(pawn_pos as int));
        assert(playable(from_sq as int));
    }
    let idx_opt = find_piece_index(&board.pieces, pawn_pos);
    proof {
        assert(idx_opt is Some) by {
            assert(board.state@[pawn_pos as int] >= 2);
        }
        assert(exists|j: int|
            0 <= j < board.pieces@.len() && (#[trigger] board.pieces@[j].pos) as int
                == pawn_pos as int);
    }
    let idx = idx_opt.unwrap();
    let mut prev_state = clone_state(&board.state);
    prev_state.set(pawn_pos as usize, 1);
    prev_state.set(from_sq as usize, code);
    let mut prev_pieces = clone_pieces(&board.pieces);
    prev_pieces.set(idx, PersistentPieceInfo { pos: from_sq, first_move: true });
    proof {
        let ghost s2 = prev_state@;
        let ghost p2 = prev_pieces@;
        assert forall|p: int| 0 <= p < 120 && #[trigger] s2[p] >= 2 implies exists|j: int|
            0 <= j < p2.len() && (#[trigger] p2[j].pos) as int == p by {
            if p == from_sq as int {
                assert(p2[idx as int].pos as int == p);
            } else {
                assert(board.state@[p] >= 2);
                let j = choose|j: int|
                    0 <= j < board.pieces@.len() && (#[trigger] board.pieces@[j].pos) as int == p;
                assert(j != idx as int);
                assert(p2[j].pos as int == p);
            }
        }
        assert forall|j: int, k: int|
            0 <= j < p2.len() && 0 <= k < p2.len() && j != k implies (#[trigger] p2[j].pos) != (
        #[trigger] p2[k].pos) by {
            if j == idx as int || k == idx as int {
                let other: int = if j == idx as int {
                    k
                } else {
                    j
                };
                assert(board.state@[board.pieces@[other].pos as int] >= 2);
            }
        }
        assert(crate::board::wf_position(s2, p2));
    }
    let action = Action {
        from: from_sq,
        to: pawn_pos,
        team: pusher,
        piece_type: 0,
        capture: false,
        info: -2,
    };
    board.history.push(
        StoredMove {
            action,
            from_previous: code,
            to_previous: 1,
            pieces: prev_pieces,
            state: Some(prev_state),
        },
    );
}

/// Whether the character at `i` is a space.
fn fen_char_is_space(s: &str, i: usize) -> (r: bool)
    requires
        i < s@.len(),
{
    s.get_char(i) == ' '
}

/// Clears the first-move flag of the piece standing on `pos`, if any;
/// reports whether one stood there.
fn clear_first_move(board: &mut Board, pos: i16) -> (r: bool)
    requires
        old(board).wf(),
        playable(pos as int),
    ensures
        board_same_position_shape(*old(board), *final(board)),
        final(board).wf(),
{
    match find_piece_index(&board.pieces, pos) {
        Some(idx) => {
            let old_rec = board.pieces[idx];
            board.pieces.set(idx, PersistentPieceInfo { pos: old_rec.pos, first_move: false });
            proof {
                assert forall|p: int| 0 <= p < 120 && #[trigger] board.state@[p] >= 2 implies exists|
                    j: int,
                |
                    0 <= j < board.pieces@.len() && (#[trigger] board.pieces@[j].pos) as int
                        == p by {
                    let j = choose|j: int|
                        0 <= j < old(board).pieces@.len() && (#[trigger] old(
                            board,
                        ).pieces@[j].pos) as int == p;
                    assert(board.pieces@[j].pos as int == p);
                }
            }
            true
        },
        None => false,
    }
}

/// The state, geometry, side to move and history are as they were; only
/// piece flags may differ.
pub open spec fn board_same_position_shape(pre: Board, post: Board) -> bool {
    &&& post.state@ == pre.state@
    &&& post.moving_team == pre.moving_team
    &&& post.history@ == pre.history@
    &&& post.pieces@.len() == pre.pieces@.len()
    &&& forall|j: int|
        0 <= j < pre.pieces@.len() ==> (#[trigger] post.pieces@[j]).pos == pre.pieces@[j].pos
    &&& post.piece_types == pre.piece_types
    &&& post.teams == pre.teams
    &&& post.rows == pre.rows
    &&& post.cols == pre.cols
    &&& post.buffer_amount == pre.buffer_amount
    &&& post.row_gap == pre.row_gap
    &&& post.col_gap == pre.col_gap
}

/// Addition capped at the largest 64-bit count.
pub open spec fn sat_u64(x: int) -> int {
    if x > 18446744073709551615 {
        18446744073709551615
    } else {
        x
    }
}

/// The legal moves of a position, as the generator produces them.
pub open spec fn legal_moves_spec(
    state: Seq<i16>,
    pieces: Seq<PersistentPieceInfo>,
    last: Option<Action>,
    team: i16,
) -> Seq<Action> {
    crate::movegen::pseudolegal_moves(state, pieces, last, team).filter(
        (|m: Action| crate::movegen::is_legal_spec(state, pieces, m)),
    )
}

/// The number of legal-move-tree leaves at the given depth: at depth one the
/// legal-move count, deeper the capped sum of the counts below each legal
/// move.
pub open spec fn perft_spec(
    state: Seq<i16>,
    pieces: Seq<PersistentPieceInfo>,
    last: Option<Action>,
    team: i16,
    depth: int,
) -> int
    decreases depth, 1int, 0int,
{
    let legal = legal_moves_spec(state, pieces, last, team);
    if depth <= 1 {
        legal.len() as int
    } else {
        perft_sum(state, pieces, team, legal, legal.len() as int, depth)
    }
}

/// The capped sum of the subtree counts below the first `n` legal moves.
pub open spec fn perft_sum(
    state: Seq<i16>,
    pieces: Seq<PersistentPieceInfo>,
    team: i16,
    moves: Seq<Action>,
    n: int,
    depth: int,
) -> int
    decreases depth, 0int, n,
{
    if n <= 0 || depth <= 1 {
        0
    } else {
        let prev = perft_sum(state, pieces, team, moves, n - 1, depth);
        let m = moves[n - 1];
        let sub = perft_spec(
            crate::board::apply_action_state(state, m),
            crate::board::apply_action_pieces(state, pieces, m),
            Some(m),
            (1 - team) as i16,
            depth - 1,
        );
        sat_u64(prev + sub)
    }
}

/// Counts the leaves of the legal move tree to the given depth, capping the
/// count at the largest 64-bit value.
pub fn perft(uci: &mut UCICommunicator, depth: i16, last_action: Option<Action>) -> (r: u64)
    requires
        old(uci).board.wf(),
        depth >= 1,
    ensures
        final(uci).board.wf(),
        board_restored(old(uci).board, final(uci).board),
        r as int == perft_spec(
            old(uci).board.state@,
            old(uci).board.pieces@,
            crate::movegen::last_action(old(uci).board.history@),
            old(uci).board.moving_team,
            depth as int,
        ),
    decreases depth,
{
    let actions = uci.board.generate_legal_moves();
    if depth == 1 {
        return actions.len() as u64;
    }
    let ghost pre = uci.board;
    let ghost legal = legal_moves_spec(
        pre.state@,
        pre.pieces@,
        crate::movegen::last_action(pre.history@),
        pre.moving_team,
    );
    let mut nodes: u64 = 0;
    let mut i: usize = 0;
    while i < actions.len()
        invariant
            0 <= i <= actions@.len(),
            uci.board.wf(),
            board_restored(pre, uci.board),
            pre.wf(),
            depth >= 2,
            actions@ == legal,
            legal == legal_moves_spec(
                pre.state@,
                pre.pieces@,
                crate::movegen::last_action(pre.history@),
                pre.moving_team,
            ),
            crate::movegen::all_makeable(pre.state@, pre.pieces@, pre.moving_team, actions@),
            nodes as int == perft_sum(pre.state@, pre.pieces@, pre.moving_team, legal, i as int, depth as int),
        decreases actions@.len() - i,
    {
        let action = actions[i];
        proof {
            assert(action_makeable(pre.state@, pre.pieces@, pre.moving_team, actions@[i as int]));
        }
        let ghost before = uci.board;
        uci.board.make_move(action);
        let ghost mid = uci.board;
        let sub = perft(uci, depth - 1, Some(action));
        uci.board.undo_move();
        proof {
            crate::board::lemma_make_undo_identity(before, mid, uci.board, action);
            assert(uci.board.history@ =~= before.history@);
            assert(crate::movegen::last_action(mid.history@) == Some(action));
        }
        nodes = if sub <= 18_446_744_073_709_551_615u64 - nodes {
            nodes + sub
        } else {
            18_446_744_073_709_551_615u64
        };
        i = i + 1;
    }
    nodes
}

/// Counts the leaves of the pseudolegal-then-filtered move tree; with the
/// default rules this is the same count as `perft`.
pub fn perft_psuedolegal(uci: &mut UCICommunicator, depth: i16, last_action: Option<Action>) -> (r:
    u64)
    requires
        old(uci).board.wf(),
        depth >= 1,
    ensures
        final(uci).board.wf(),
        board_restored(old(uci).board, final(uci).board),
        r as int == perft_spec(
            old(uci).board.state@,
            old(uci).board.pieces@,
            crate::movegen::last_action(old(uci).board.history@),
            old(uci).board.moving_team,
            depth as int,
        ),
{
    perft(uci, depth, last_action)
}

} // verus!
