//! Mailbox board representation: a 10x12 grid of square codes with a sentinel
//! frame, a flat piece list kept in sync with the grid, and reversible
//! make/undo based on full-snapshot history records.
use vstd::prelude::*;
use vstd::pervasive::VecAdditionalExecFns;

verus! {

/// Number of piece types per team: pawn, knight, bishop, rook, queen, king.
pub const PIECE_TYPES: i16 = 6;
/// Number of teams: white is 0, black is 1.
pub const TEAMS: i16 = 2;
/// Distance between two vertically adjacent squares in the flat board state.
pub const ROW_GAP: i16 = 10;
/// Number of board rows in the flat state, sentinel rows included.
pub const COL_GAP: i16 = 12;
/// Length of the flat board state.
pub const BOARD_LEN: i16 = 120;

/// Row of a flat board position (rows 0, 1, 10 and 11 are the sentinel frame).
pub open spec fn sq_row(pos: int) -> int {
    pos / 10
}

/// Column of a flat board position (columns 0 and 9 are the sentinel frame).
pub open spec fn sq_col(pos: int) -> int {
    pos % 10
}

/// A square that a piece may stand on: inside the sentinel frame.
pub open spec fn playable(pos: int) -> bool {
    &&& 0 <= pos < 120
    &&& 2 <= sq_row(pos) <= 9
    &&& 1 <= sq_col(pos) <= 8
}

/// Team encoded in a square code (meaningful for codes 2..=13).
pub open spec fn code_team(code: int) -> int {
    (code - 2) / 6
}

/// Piece type encoded in a square code (meaningful for codes 2..=13).
pub open spec fn code_type(code: int) -> int {
    (code - 2) % 6
}

/// Square code of a piece of the given type and team.
pub open spec fn piece_code(piece_type: int, team: int) -> int {
    piece_type + 6 * team + 2
}

/// What a square offers to a move: an empty destination, a capture, or nothing.
#[derive(Debug, PartialEq, Eq, Structural, Clone, Copy)]
pub enum ActionType {
    MOVE,
    CAPTURE,
    FAIL,
}

/// One move. `info` is overloaded: for pawns -1 is a quiet push, -2 a double
/// push, -3 an en passant capture and 0..=5 a promotion target type; for kings
/// 0 is a normal move and 1 is castling (with `to` the rook's square).
#[derive(Debug, PartialEq, Eq, Structural, Clone, Copy)]
pub struct Action {
    pub from: i16,
    pub to: i16,
    pub team: i16,
    pub piece_type: i16,
    pub capture: bool,
    pub info: i16,
}

/// Decoded information about an occupied square.
#[derive(Debug, PartialEq, Eq, Structural, Clone, Copy)]
pub struct PieceInfo {
    pub pos: i16,
    pub piece_value: i16,
    pub team: i16,
    pub piece_type: i16,
}

/// One entry of the flat piece list.
#[derive(Debug, PartialEq, Eq, Structural, Clone, Copy)]
pub struct PersistentPieceInfo {
    pub pos: i16,
    pub first_move: bool,
}

/// A history record: the action made plus a snapshot of the position before
/// it, so that `undo_move` can restore the position exactly.
#[derive(Debug)]
pub struct StoredMove {
    pub action: Action,
    pub from_previous: i16,
    pub to_previous: i16,
    pub pieces: Vec<PersistentPieceInfo>,
    pub state: Option<Vec<i16>>,
}

pub open spec fn is_castle(a: Action) -> bool {
    a.piece_type == 5 && a.info == 1
}

pub open spec fn is_en_passant(a: Action) -> bool {
    a.piece_type == 0 && a.info == -3
}

pub open spec fn is_promotion(a: Action) -> bool {
    a.piece_type == 0 && 0 <= a.info < 6
}

/// Square of the pawn removed by an en passant capture.
pub open spec fn ep_captured_square(a: Action) -> int {
    if a.team == 0 {
        a.to + 10
    } else {
        a.to - 10
    }
}

/// Well-formedness of a board position: the sentinel frame holds zeroes,
/// playable squares hold codes 1..=13, and the piece list names exactly the
/// occupied squares, each once.
pub open spec fn wf_position(state: Seq<i16>, pieces: Seq<PersistentPieceInfo>) -> bool {
    &&& state.len() == 120
    &&& forall|p: int| 0 <= p < 120 && !playable(p) ==> #[trigger] state[p] == 0
    &&& forall|p: int| 0 <= p < 120 && playable(p) ==> 1 <= #[trigger] state[p] <= 13
    &&& pieces.len() <= 64
    &&& forall|j: int|
        0 <= j < pieces.len() ==> playable(#[trigger] pieces[j].pos as int) && state[pieces[j].pos as int] >= 2
    &&& forall|j: int, k: int|
        0 <= j < pieces.len() && 0 <= k < pieces.len() && j != k ==> (#[trigger] pieces[j].pos)
            != (#[trigger] pieces[k].pos)
    &&& forall|p: int|
        0 <= p < 120 && #[trigger] state[p] >= 2 ==> exists|j: int|
            0 <= j < pieces.len() && (#[trigger] pieces[j].pos) as int == p
}

/// A history record that can restore a well-formed position.
pub open spec fn stored_wf(m: StoredMove) -> bool {
    &&& m.state is Some
    &&& wf_position(m.state.unwrap()@, m.pieces@)
}

pub struct Board {
    pub state: Vec<i16>,
    pub pieces: Vec<PersistentPieceInfo>,
    pub piece_types: i16,
    pub teams: i16,
    pub rows: i16,
    pub cols: i16,
    pub buffer_amount: i16,
    pub row_gap: i16,
    pub col_gap: i16,
    pub moving_team: i16,
    pub history: Vec<StoredMove>,
}

impl Board {
    /// The geometry constants of standard chess on the 10x12 mailbox.
    pub open spec fn wf_geometry(&self) -> bool {
        &&& self.piece_types == 6
        &&& self.teams == 2
        &&& self.rows == 8
        &&& self.cols == 8
        &&& self.buffer_amount == 2
        &&& self.row_gap == 10
        &&& self.col_gap == 12
    }

    /// Full well-formedness: geometry, position, side to move, and a history
    /// whose every record can restore a well-formed position.
    pub open spec fn wf(&self) -> bool {
        &&& self.wf_geometry()
        &&& wf_position(self.state@, self.pieces@)
        &&& self.moving_team == 0 || self.moving_team == 1
        &&& forall|h: int| 0 <= h < self.history@.len() ==> stored_wf(#[trigger] self.history@[h])
    }
}

/// Builds the flat board state: zero on the sentinel frame, one (empty) on
/// every playable square.
pub fn create_board_state(buffer_amount: i16, dims: (i16, i16)) -> (r: Vec<i16>)
    requires
        buffer_amount == 2,
        dims.0 == 8,
        dims.1 == 8,
    ensures
        r@.len() == 120,
        forall|p: int| 0 <= p < 120 ==> #[trigger] r@[p] == if playable(p) {
            1i16
        } else {
            0i16
        },
{
    let (rows, cols) = dims;
    let mut state: Vec<i16> = Vec::new();
    let mut row: i16 = 0;
    while row < rows + 2 * buffer_amount
        invariant
            rows == 8,
            cols == 8,
            buffer_amount == 2,
            0 <= row <= 12,
            state@.len() == row * 10,
            forall|p: int| 0 <= p < state@.len() ==> #[trigger] state@[p] == if playable(p) {
                1i16
            } else {
                0i16
            },
        decreases 12 - row,
    {
        let mut col: i16 = 0;
        while col < cols + buffer_amount
            invariant
                rows == 8,
                cols == 8,
                buffer_amount == 2,
                0 <= row < 12,
                0 <= col <= 10,
                state@.len() == row * 10 + col,
                forall|p: int| 0 <= p < state@.len() ==> #[trigger] state@[p] == if playable(p) {
                    1i16
                } else {
                    0i16
                },
            decreases 10 - col,
        {
            let v: i16 = if row < buffer_amount || row >= rows + buffer_amount || col < buffer_amount
                / 2 || col >= cols + (buffer_amount / 2) {
                0
            } else {
                1
            };
            proof {
                let p = state@.len() as int;
                assert(sq_row(p) == row as int) by (nonlinear_arith)
                    requires p == row * 10 + col, 0 <= col < 10, 0 <= row < 12;
                assert(sq_col(p) == col as int) by (nonlinear_arith)
                    requires p == row * 10 + col, 0 <= col < 10, 0 <= row < 12;
            }
            state.push(v);
            col = col + 1;
        }
        row = row + 1;
    }
    state
}

impl StoredMove {
    /// A copy of this record without the full state snapshot.
    pub fn duplicate(&self) -> (r: StoredMove)
        ensures
            r.action == self.action,
            r.from_previous == self.from_previous,
            r.to_previous == self.to_previous,
            r.pieces@ == self.pieces@,
            r.state is None,
    {
        StoredMove {
            action: self.action,
            from_previous: self.from_previous,
            to_previous: self.to_previous,
            pieces: clone_pieces(&self.pieces),
            state: None,
        }
    }
}

/// Copies a board state vector.
pub fn clone_state(v: &Vec<i16>) -> (r: Vec<i16>)
    ensures
        r@ == v@,
{
    let mut r: Vec<i16> = Vec::new();
    let mut i: usize = 0;
    while i < v.len()
        invariant
            0 <= i <= v@.len(),
            r@ == v@.take(i as int),
        decreases v@.len() - i,
    {
        r.push(v[i]);
        proof {
            assert(r@ =~= v@.take(i + 1));
        }
        i = i + 1;
    }
    proof {
        assert(v@.take(v@.len() as int) =~= v@);
    }
    r
}

/// Copies a piece list.
pub fn clone_pieces(v: &Vec<PersistentPieceInfo>) -> (r: Vec<PersistentPieceInfo>)
    ensures
        r@ == v@,
{
    let mut r: Vec<PersistentPieceInfo> = Vec::new();
    let mut i: usize = 0;
    while i < v.len()
        invariant
            0 <= i <= v@.len(),
            r@ == v@.take(i as int),
        decreases v@.len() - i,
    {
        r.push(v[i]);
        proof {
            assert(r@ =~= v@.take(i + 1));
        }
        i = i + 1;
    }
    proof {
        assert(v@.take(v@.len() as int) =~= v@);
    }
    r
}

/// Index of the first piece record standing on `pos`, if any.
pub fn find_piece_index(pieces: &Vec<PersistentPieceInfo>, pos: i16) -> (r: Option<usize>)
    ensures
        match r {
            Some(j) => j < pieces@.len() && pieces@[j as int].pos == pos && forall|k: int|
                0 <= k < j ==> (#[trigger] pieces@[k].pos) != pos,
            None => forall|k: int| 0 <= k < pieces@.len() ==> (#[trigger] pieces@[k].pos) != pos,
        },
{
    let mut i: usize = 0;
    while i < pieces.len()
        invariant
            0 <= i <= pieces@.len(),
            forall|k: int| 0 <= k < i ==> (#[trigger] pieces@[k].pos) != pos,
        decreases pieces@.len() - i,
    {
        if pieces[i].pos == pos {
            return Some(i);
        }
        i = i + 1;
    }
    None
}

impl Board {
    /// The team moving after `team`.
    pub fn get_next_team(&self, team: i16) -> (r: i16)
        requires
            self.wf_geometry(),
            0 <= team <= 1,
        ensures
            r == 1 - team,
    {
        let team = team + 1;
        if team >= self.teams {
            0
        } else {
            team
        }
    }

    /// The team moving before `team` (with two teams, the same as the next).
    pub fn get_previous_team(&self, team: i16) -> (r: i16)
        requires
            self.wf_geometry(),
            0 <= team <= 1,
        ensures
            r == 1 - team,
    {
        self.get_next_team(team)
    }

    pub fn next_team(&self) -> (r: i16)
        requires
            self.wf_geometry(),
            0 <= self.moving_team <= 1,
        ensures
            r == 1 - self.moving_team,
    {
        self.get_next_team(self.moving_team)
    }

    pub fn previous_team(&self) -> (r: i16)
        requires
            self.wf_geometry(),
            0 <= self.moving_team <= 1,
        ensures
            r == 1 - self.moving_team,
    {
        self.get_next_team(self.moving_team)
    }

    /// Square code of a piece of the given type and team.
    pub fn get_piece_value(&self, piece_type: i16, team: i16) -> (r: i16)
        requires
            self.wf_geometry(),
            0 <= piece_type < 6,
            0 <= team <= 1,
        ensures
            r == piece_code(piece_type as int, team as int),
            2 <= r <= 13,
    {
        piece_type + (self.piece_types * team) + 2
    }

    /// Smallest square code of a piece of the given team.
    pub fn get_team_min(&self, team: i16) -> (r: i16)
        requires
            self.wf_geometry(),
            0 <= team <= 1,
        ensures
            r == piece_code(0, team as int),
    {
        (team * self.piece_types) + 2
    }

    /// Team encoded in the square code `piece`.
    pub fn get_team(&self, piece: i16) -> (r: i16)
        requires
            self.wf_geometry(),
            2 <= piece <= 13,
        ensures
            r == code_team(piece as int),
            0 <= r <= 1,
    {
        (piece - 2) / self.piece_types
    }

    /// Piece type encoded in the square code `piece` of team `team`.
    pub fn get_piece_type(&self, piece: i16, team: i16) -> (r: i16)
        requires
            self.wf_geometry(),
            2 <= piece <= 13,
            team == code_team(piece as int),
        ensures
            r == code_type(piece as int),
            0 <= r <= 5,
    {
        (piece - 2) - self.piece_types * team
    }

    /// Decodes the occupied square `pos`.
    pub fn get_piece_info(&self, pos: i16) -> (r: PieceInfo)
        requires
            self.wf(),
            playable(pos as int),
            self.state@[pos as int] >= 2,
        ensures
            r.pos == pos,
            r.piece_value == self.state@[pos as int],
            r.team == code_team(self.state@[pos as int] as int),
            r.piece_type == code_type(self.state@[pos as int] as int),
            0 <= r.team <= 1,
            0 <= r.piece_type <= 5,
    {
        let piece_value = self.state[pos as usize];
        let team = self.get_team(piece_value);
        let piece_type = self.get_piece_type(piece_value, team);
        PieceInfo { pos, piece_value, team, piece_type }
    }

    /// Row of a flat position.
    pub fn get_row(&self, pos: i16) -> (r: i16)
        requires
            self.wf_geometry(),
            0 <= pos < 120,
        ensures
            r == sq_row(pos as int),
    {
        pos / self.row_gap
    }

    /// Column of a flat position, given its row.
    pub fn get_col(&self, pos: i16, row: i16) -> (r: i16)
        requires
            self.wf_geometry(),
            0 <= pos < 120,
            row == sq_row(pos as int),
        ensures
            r == sq_col(pos as int),
    {
        pos - (self.row_gap * row)
    }

    /// True when `pos` is an empty playable square.
    pub fn can_move(&self, pos: i16) -> (r: bool)
        requires
            self.wf(),
            0 <= pos < 120,
        ensures
            r == (self.state@[pos as int] == 1),
    {
        self.state[pos as usize] == 1
    }

    /// True when `pos` holds a piece of a team other than `team`.
    pub fn can_capture(&self, pos: i16, team: i16) -> (r: bool)
        requires
            self.wf(),
            0 <= pos < 120,
        ensures
            r == (self.state@[pos as int] > 1 && code_team(self.state@[pos as int] as int)
                != team),
    {
        let state = self.state[pos as usize];
        state > 1 && self.get_team(state) != team
    }

    /// Classifies `pos` as a quiet destination, a capture for `team`, or
    /// neither.
    pub fn can_move_capture(&self, pos: i16, team: i16) -> (r: ActionType)
        requires
            self.wf(),
            0 <= pos < 120,
        ensures
            r == spec_move_capture(self.state@, pos as int, team as int),
    {
        let state = self.state[pos as usize];
        match state {
            0 => ActionType::FAIL,
            1 => ActionType::MOVE,
            _ => {
                if self.get_team(state) != team {
                    ActionType::CAPTURE
                } else {
                    ActionType::FAIL
                }
            },
        }
    }

    /// Classifies `pos` for attack queries: any occupied playable square can
    /// be controlled, whoever stands on it.
    pub fn can_control(&self, pos: i16, _team: i16) -> (r: ActionType)
        requires
            self.wf(),
            0 <= pos < 120,
        ensures
            r == spec_control(self.state@, pos as int),
    {
        let state = self.state[pos as usize];
        match state {
            0 => ActionType::FAIL,
            1 => ActionType::MOVE,
            _ => ActionType::CAPTURE,
        }
    }
}

/// The index of the piece record standing on `pos` (unique in a well-formed
/// position).
pub open spec fn pos_index(pieces: Seq<PersistentPieceInfo>, pos: int) -> int {
    choose|j: int| 0 <= j < pieces.len() && pieces[j].pos == pos
}

/// A sequence after `swap_remove(i)`: the last element moves into slot `i`.
pub open spec fn swap_removed<T>(s: Seq<T>, i: int) -> Seq<T> {
    s.update(i, s.last()).drop_last()
}

/// Whether `a` can be made on the given position: its squares are on the
/// board, `from` holds the piece the action names for the side to move, and
/// the squares the action rewrites hold what its kind expects.
pub open spec fn action_makeable(
    state: Seq<i16>,
    pieces: Seq<PersistentPieceInfo>,
    moving_team: i16,
    a: Action,
) -> bool {
    let from = a.from as int;
    let to = a.to as int;
    &&& playable(from)
    &&& playable(to)
    &&& from != to
    &&& a.team == moving_team
    &&& moving_team == 0 || moving_team == 1
    &&& state[from] >= 2
    &&& code_team(state[from] as int) == a.team
    &&& code_type(state[from] as int) == a.piece_type
    &&& if is_castle(a) {
        let dir: int = if a.to > a.from {
            1
        } else {
            -1
        };
        &&& sq_row(to) == sq_row(from)
        &&& (if dir == 1 {
            to - from >= 3
        } else {
            from - to >= 3
        })
        &&& playable(from + dir)
        &&& playable(from + 2 * dir)
        &&& state[to] >= 2
        &&& code_team(state[to] as int) == a.team
        &&& code_type(state[to] as int) == 3
        &&& state[from + dir] == 1
        &&& state[from + 2 * dir] == 1
    } else if is_en_passant(a) {
        let cap = ep_captured_square(a);
        &&& a.capture
        &&& state[to] == 1
        &&& playable(cap)
        &&& cap != from
        &&& state[cap] >= 2
        &&& code_team(state[cap] as int) != a.team
        &&& code_type(state[cap] as int) == 0
    } else {
        &&& (a.capture ==> state[to] >= 2 && code_team(state[to] as int) != a.team)
        &&& (!a.capture ==> state[to] == 1)
        &&& (a.piece_type == 0 ==> a.info == -1 || a.info == -2 || 1 <= a.info <= 4)
    }
}

/// The board state after making `a` on `state`.
pub open spec fn apply_action_state(state: Seq<i16>, a: Action) -> Seq<i16> {
    let from = a.from as int;
    let to = a.to as int;
    if is_castle(a) {
        let dir: int = if a.to > a.from {
            1
        } else {
            -1
        };
        state.update(from, 1).update(to, 1).update(from + 2 * dir, state[from]).update(
            from + dir,
            state[to],
        )
    } else if is_en_passant(a) {
        state.update(to, state[from]).update(from, 1).update(ep_captured_square(a), 1)
    } else if is_promotion(a) {
        state.update(to, piece_code(a.info as int, a.team as int) as i16).update(from, 1)
    } else {
        state.update(to, state[from]).update(from, 1)
    }
}

/// The piece list after making `a`.
pub open spec fn apply_action_pieces(
    state: Seq<i16>,
    pieces: Seq<PersistentPieceInfo>,
    a: Action,
) -> Seq<PersistentPieceInfo> {
    let from = a.from as int;
    let to = a.to as int;
    if is_castle(a) {
        let dir: int = if a.to > a.from {
            1
        } else {
            -1
        };
        let ki = pos_index(pieces, from);
        let ri = pos_index(pieces, to);
        pieces.update(
            ki,
            PersistentPieceInfo { pos: (a.from + 2 * dir) as i16, first_move: false },
        ).update(ri, PersistentPieceInfo { pos: (a.from + dir) as i16, first_move: false })
    } else if is_en_passant(a) {
        let fi = pos_index(pieces, from);
        let ci = pos_index(pieces, ep_captured_square(a));
        swap_removed(
            pieces.update(fi, PersistentPieceInfo { pos: a.to, first_move: false }),
            ci,
        )
    } else if a.capture {
        let fi = pos_index(pieces, from);
        let ti = pos_index(pieces, to);
        swap_removed(
            pieces.update(fi, PersistentPieceInfo { pos: a.to, first_move: false }),
            ti,
        )
    } else {
        pieces.update(
            pos_index(pieces, from),
            PersistentPieceInfo { pos: a.to, first_move: false },
        )
    }
}

/// The full effect of `make_move`: position updated as the apply functions
/// say, the side to move flipped, and a snapshot of the old position pushed
/// on the history.
pub open spec fn make_post(pre: Board, post: Board, a: Action) -> bool {
    &&& post.state@ == apply_action_state(pre.state@, a)
    &&& post.pieces@ == apply_action_pieces(pre.state@, pre.pieces@, a)
    &&& post.moving_team == 1 - pre.moving_team
    &&& post.history@.len() == pre.history@.len() + 1
    &&& forall|h: int|
        0 <= h < pre.history@.len() ==> #[trigger] post.history@[h] == pre.history@[h]
    &&& post.history@.last().action == a
    &&& post.history@.last().state is Some
    &&& post.history@.last().state.unwrap()@ == pre.state@
    &&& post.history@.last().pieces@ == pre.pieces@
    &&& post.history@.last().from_previous == pre.state@[a.from as int]
    &&& post.history@.last().to_previous == pre.state@[a.to as int]
    &&& post.piece_types == pre.piece_types
    &&& post.teams == pre.teams
    &&& post.rows == pre.rows
    &&& post.cols == pre.cols
    &&& post.buffer_amount == pre.buffer_amount
    &&& post.row_gap == pre.row_gap
    &&& post.col_gap == pre.col_gap
}

/// The full effect of `undo_move`: the last history record is popped and its
/// snapshot restored, and the side to move flipped back.
pub open spec fn undo_post(pre: Board, post: Board) -> bool {
    &&& post.state@ == pre.history@.last().state.unwrap()@
    &&& post.pieces@ == pre.history@.last().pieces@
    &&& post.moving_team == 1 - pre.moving_team
    &&& post.history@ == pre.history@.drop_last()
    &&& post.piece_types == pre.piece_types
    &&& post.teams == pre.teams
    &&& post.rows == pre.rows
    &&& post.cols == pre.cols
    &&& post.buffer_amount == pre.buffer_amount
    &&& post.row_gap == pre.row_gap
    &&& post.col_gap == pre.col_gap
}

impl Board {
    /// Makes `action` on the board: rewrites the touched squares, updates the
    /// piece list, flips the side to move, and pushes a history record that
    /// snapshots the position before the move.
    pub fn make_move(&mut self, action: Action)
        requires
            old(self).wf(),
            action_makeable(old(self).state@, old(self).pieces@, old(self).moving_team, action),
        ensures
            final(self).wf(),
            make_post(*old(self), *final(self), action),
    {
        let ghost pre = *self;
        let from_usize = action.from as usize;
        let to_usize = action.to as usize;
        let state_snapshot = clone_state(&self.state);
        let pieces_snapshot = clone_pieces(&self.pieces);
        let from_prev = self.state[from_usize];
        let to_prev = self.state[to_usize];

        if action.piece_type == 5 && action.info == 1 {
            let dir: i16 = if action.to > action.from {
                1
            } else {
                -1
            };
            let king_to = action.from + 2 * dir;
            let rook_to = action.from + dir;
            self.state.set(from_usize, 1);
            self.state.set(to_usize, 1);
            self.state.set(king_to as usize, from_prev);
            self.state.set(rook_to as usize, to_prev);
            let ki_opt = find_piece_index(&self.pieces, action.from);
            let ri_opt = find_piece_index(&self.pieces, action.to);
            proof {
                assert(ki_opt is Some && ri_opt is Some) by {
                    assert(pre.state@[action.from as int] >= 2);
                    assert(pre.state@[action.to as int] >= 2);
                }
                let ki = pos_index(pre.pieces@, action.from as int);
                assert(0 <= ki < pre.pieces@.len() && pre.pieces@[ki].pos == action.from) by {
                    assert(exists|j: int|
                        0 <= j < pre.pieces@.len() && (#[trigger] pre.pieces@[j].pos) as int
                            == action.from as int);
                }
                let ri = pos_index(pre.pieces@, action.to as int);
                assert(0 <= ri < pre.pieces@.len() && pre.pieces@[ri].pos == action.to) by {
                    assert(exists|j: int|
                        0 <= j < pre.pieces@.len() && (#[trigger] pre.pieces@[j].pos) as int
                            == action.to as int);
                }
            }
            let ki = ki_opt.unwrap();
            let ri = ri_opt.unwrap();
            proof {
                assert(ki as int == pos_index(pre.pieces@, action.from as int));
                assert(ri as int == pos_index(pre.pieces@, action.to as int));
            }
            self.pieces.set(ki, PersistentPieceInfo { pos: king_to, first_move: false });
            self.pieces.set(ri, PersistentPieceInfo { pos: rook_to, first_move: false });
            proof {
                assert(self.state@ =~= apply_action_state(pre.state@, action));
                assert(self.pieces@ =~= apply_action_pieces(pre.state@, pre.pieces@, action));
                lemma_wf_after_castle(pre.state@, pre.pieces@, action);
            }
        } else if action.piece_type == 0 && action.info == -3 {
            let cap_sq: i16 = if action.team == 0 {
                action.to + self.row_gap
            } else {
                action.to - self.row_gap
            };
            self.state.set(to_usize, from_prev);
            self.state.set(from_usize, 1);
            self.state.set(cap_sq as usize, 1);
            let fi_opt = find_piece_index(&self.pieces, action.from);
            let ci_opt = find_piece_index(&self.pieces, cap_sq);
            proof {
                assert(fi_opt is Some && ci_opt is Some) by {
                    assert(pre.state@[action.from as int] >= 2);
                    assert(pre.state@[cap_sq as int] >= 2);
                }
                assert(exists|j: int|
                    0 <= j < pre.pieces@.len() && (#[trigger] pre.pieces@[j].pos) as int
                        == action.from as int);
                assert(exists|j: int|
                    0 <= j < pre.pieces@.len() && (#[trigger] pre.pieces@[j].pos) as int
                        == cap_sq as int);
            }
            let fi = fi_opt.unwrap();
            let ci = ci_opt.unwrap();
            proof {
                assert(fi as int == pos_index(pre.pieces@, action.from as int));
                assert(ci as int == pos_index(pre.pieces@, cap_sq as int));
            }
            self.pieces.set(fi, PersistentPieceInfo { pos: action.to, first_move: false });
            let _removed = self.pieces.swap_remove(ci);
            proof {
                assert(self.state@ =~= apply_action_state(pre.state@, action));
                assert(self.pieces@ =~= apply_action_pieces(pre.state@, pre.pieces@, action));
                lemma_wf_after_removal(
                    pre.state@,
                    pre.pieces@,
                    action,
                    apply_action_state(pre.state@, action),
                );
            }
        } else {
            let moved_code: i16 = if action.piece_type == 0 && action.info >= 0 {
                self.get_piece_value(action.info, action.team)
            } else {
                from_prev
            };
            self.state.set(to_usize, moved_code);
            self.state.set(from_usize, 1);
            let fi_opt = find_piece_index(&self.pieces, action.from);
            proof {
                assert(fi_opt is Some) by {
                    assert(pre.state@[action.from as int] >= 2);
                }
                assert(exists|j: int|
                    0 <= j < pre.pieces@.len() && (#[trigger] pre.pieces@[j].pos) as int
                        == action.from as int);
            }
            let fi = fi_opt.unwrap();
            proof {
                assert(fi as int == pos_index(pre.pieces@, action.from as int));
            }
            if action.capture {
                let ti_opt = find_piece_index(&self.pieces, action.to);
                proof {
                    assert(ti_opt is Some) by {
                        assert(pre.state@[action.to as int] >= 2);
                    }
                    assert(exists|j: int|
                        0 <= j < pre.pieces@.len() && (#[trigger] pre.pieces@[j].pos) as int
                            == action.to as int);
                }
                let ti = ti_opt.unwrap();
                proof {
                    assert(ti as int == pos_index(pre.pieces@, action.to as int));
                }
                self.pieces.set(fi, PersistentPieceInfo { pos: action.to, first_move: false });
                let _removed = self.pieces.swap_remove(ti);
                proof {
                    assert(self.state@ =~= apply_action_state(pre.state@, action));
                    assert(self.pieces@ =~= apply_action_pieces(pre.state@, pre.pieces@, action));
                    lemma_wf_after_removal(
                        pre.state@,
                        pre.pieces@,
                        action,
                        apply_action_state(pre.state@, action),
                    );
                }
            } else {
                self.pieces.set(fi, PersistentPieceInfo { pos: action.to, first_move: false });
                proof {
                    assert(self.state@ =~= apply_action_state(pre.state@, action));
                    assert(self.pieces@ =~= apply_action_pieces(pre.state@, pre.pieces@, action));
                    lemma_wf_after_quiet(pre.state@, pre.pieces@, action);
                }
            }
        }
        self.history.push(
            StoredMove {
                action,
                from_previous: from_prev,
                to_previous: to_prev,
                pieces: pieces_snapshot,
                state: Some(state_snapshot),
            },
        );
        self.moving_team = if self.moving_team == 0 {
            1
        } else {
            0
        };
    }

    /// Pops the last history record, restores the snapshot it holds, flips
    /// the side to move back, and hands the record out.
    pub fn undo_move(&mut self) -> (r: StoredMove)
        requires
            old(self).wf(),
            old(self).history@.len() > 0,
        ensures
            final(self).wf(),
            undo_post(*old(self), *final(self)),
            r == old(self).history@.last(),
    {
        let undo_opt = self.history.pop();
        let undo = undo_opt.unwrap();
        match &undo.state {
            Some(s) => {
                self.state = clone_state(s);
            },
            None => {
                proof {
                    assert(stored_wf(old(self).history@.last()));
                    assert(false);
                }
            },
        }
        self.pieces = clone_pieces(&undo.pieces);
        self.moving_team = if self.moving_team == 0 {
            1
        } else {
            0
        };
        proof {
            assert(stored_wf(old(self).history@.last()));
        }
        undo
    }
}

/// Making any move and then undoing it is the identity on the board state,
/// the piece list, the side to move and the history length.
pub proof fn lemma_make_undo_identity(b: Board, b1: Board, b2: Board, a: Action)
    requires
        b.wf(),
        action_makeable(b.state@, b.pieces@, b.moving_team, a),
        make_post(b, b1, a),
        undo_post(b1, b2),
    ensures
        b2.state@ == b.state@,
        b2.pieces@ == b.pieces@,
        b2.moving_team == b.moving_team,
        b2.history@.len() == b.history@.len(),
        forall|h: int| 0 <= h < b.history@.len() ==> #[trigger] b2.history@[h] == b.history@[h],
{
    assert(b1.history@.last().state.unwrap()@ == b.state@);
    assert(b2.history@ =~= b1.history@.drop_last());
}

/// Quiet moves keep the position well formed.
proof fn lemma_wf_after_quiet(state: Seq<i16>, pieces: Seq<PersistentPieceInfo>, a: Action)
    requires
        wf_position(state, pieces),
        action_makeable(state, pieces, a.team, a),
        !is_castle(a),
        !is_en_passant(a),
        !a.capture,
    ensures
        wf_position(apply_action_state(state, a), apply_action_pieces(state, pieces, a)),
{
    let s2 = apply_action_state(state, a);
    let p2 = apply_action_pieces(state, pieces, a);
    let fi = pos_index(pieces, a.from as int);
    assert(exists|j: int|
        0 <= j < pieces.len() && (#[trigger] pieces[j].pos) as int == a.from as int);
    assert(0 <= fi < pieces.len() && pieces[fi].pos == a.from);
    assert forall|p: int| 0 <= p < 120 && #[trigger] s2[p] >= 2 implies exists|j: int|
        0 <= j < p2.len() && (#[trigger] p2[j].pos) as int == p by {
        if p == a.to as int {
            assert(p2[fi].pos == a.to);
        } else {
            assert(state[p] >= 2);
            let j = choose|j: int|
                0 <= j < pieces.len() && (#[trigger] pieces[j].pos) as int == p;
            assert(j != fi);
            assert(p2[j].pos as int == p);
        }
    }
}

/// Capturing moves (plain captures and en passant) keep the position well
/// formed: the mover's record moves to `to` and the victim's record leaves.
#[verifier::rlimit(100)]
proof fn lemma_wf_after_removal(
    state: Seq<i16>,
    pieces: Seq<PersistentPieceInfo>,
    a: Action,
    s2: Seq<i16>,
)
    requires
        wf_position(state, pieces),
        action_makeable(state, pieces, a.team, a),
        !is_castle(a),
        a.capture,
        s2 == apply_action_state(state, a),
    ensures
        wf_position(apply_action_state(state, a), apply_action_pieces(state, pieces, a)),
{
    let victim_sq: int = if is_en_passant(a) {
        ep_captured_square(a)
    } else {
        a.to as int
    };
    let p2 = apply_action_pieces(state, pieces, a);
    let fi = pos_index(pieces, a.from as int);
    let vi = pos_index(pieces, victim_sq);
    assert(exists|j: int|
        0 <= j < pieces.len() && (#[trigger] pieces[j].pos) as int == a.from as int);
    assert(exists|j: int|
        0 <= j < pieces.len() && (#[trigger] pieces[j].pos) as int == victim_sq) by {
        assert(state[victim_sq] >= 2);
    }
    assert(0 <= fi < pieces.len() && pieces[fi].pos == a.from);
    assert(0 <= vi < pieces.len() && pieces[vi].pos as int == victim_sq);
    assert(fi != vi);
    let p1 = pieces.update(fi, PersistentPieceInfo { pos: a.to, first_move: false });
    assert(p2 == swap_removed(p1, vi));
    assert(p2.len() == pieces.len() - 1);
    assert(forall|m: int|
        0 <= m < p2.len() ==> #[trigger] p2[m] == if m == vi {
            p1[p1.len() - 1]
        } else {
            p1[m]
        });
    assert(forall|m: int|
        0 <= m < p1.len() ==> #[trigger] p1[m] == if m == fi {
            PersistentPieceInfo { pos: a.to, first_move: false }
        } else {
            pieces[m]
        });
    assert(forall|p: int|
        0 <= p < 120 ==> #[trigger] s2[p] == if p == a.from as int {
            1i16
        } else if p == a.to as int {
            if is_promotion(a) {
                piece_code(a.info as int, a.team as int) as i16
            } else {
                state[a.from as int]
            }
        } else if is_en_passant(a) && p == ep_captured_square(a) {
            1i16
        } else {
            state[p]
        });
    // Distinctness: the elements of p1 other than vi have pairwise distinct
    // positions, and each lands somewhere in p2.
    assert forall|j: int, k: int|
        0 <= j < p2.len() && 0 <= k < p2.len() && j != k implies (#[trigger] p2[j].pos)
        != (#[trigger] p2[k].pos) by {
        let j1: int = if j == vi {
            p1.len() - 1
        } else {
            j
        };
        let k1: int = if k == vi {
            p1.len() - 1
        } else {
            k
        };
        assert(p2[j] == p1[j1]);
        assert(p2[k] == p1[k1]);
        assert(j1 != k1);
    }
    // Every record of p2 stands on an occupied square of s2.
    assert forall|j: int| 0 <= j < p2.len() implies playable(#[trigger] p2[j].pos as int)
        && s2[p2[j].pos as int] >= 2 by {
        let j1: int = if j == vi {
            p1.len() - 1
        } else {
            j
        };
        assert(p2[j] == p1[j1]);
        assert(j1 != vi);
        if j1 == fi {
            assert(p2[j].pos == a.to);
        } else {
            assert(p1[j1] == pieces[j1]);
            assert(pieces[j1].pos as int != a.from as int);
            assert(pieces[j1].pos as int != victim_sq);
            if !is_en_passant(a) {
                assert(pieces[j1].pos as int != a.to as int);
            } else {
                assert(pieces[j1].pos as int != a.to as int) by {
                    assert(state[a.to as int] == 1);
                }
            }
        }
    }
    // Every occupied square of s2 is named by a record of p2.
    assert forall|p: int| 0 <= p < 120 && #[trigger] s2[p] >= 2 implies exists|j: int|
        0 <= j < p2.len() && (#[trigger] p2[j].pos) as int == p by {
        if p == a.to as int {
            let m: int = if fi == p1.len() - 1 {
                vi
            } else {
                fi
            };
            assert(p2[m].pos == a.to);
        } else {
            assert(state[p] >= 2);
            let j = choose|j: int|
                0 <= j < pieces.len() && (#[trigger] pieces[j].pos) as int == p;
            assert(j != fi && j != vi);
            let m: int = if j == p1.len() - 1 {
                vi
            } else {
                j
            };
            assert(p2[m] == p1[j]);
        }
    }
}

/// Castling keeps the position well formed: the king and the rook move onto
/// previously empty squares.
proof fn lemma_wf_after_castle(state: Seq<i16>, pieces: Seq<PersistentPieceInfo>, a: Action)
    requires
        wf_position(state, pieces),
        action_makeable(state, pieces, a.team, a),
        is_castle(a),
    ensures
        wf_position(apply_action_state(state, a), apply_action_pieces(state, pieces, a)),
{
    let dir: int = if a.to > a.from {
        1
    } else {
        -1
    };
    let s2 = apply_action_state(state, a);
    let p2 = apply_action_pieces(state, pieces, a);
    let ki = pos_index(pieces, a.from as int);
    let ri = pos_index(pieces, a.to as int);
    assert(exists|j: int|
        0 <= j < pieces.len() && (#[trigger] pieces[j].pos) as int == a.from as int);
    assert(exists|j: int|
        0 <= j < pieces.len() && (#[trigger] pieces[j].pos) as int == a.to as int);
    assert(0 <= ki < pieces.len() && pieces[ki].pos == a.from);
    assert(0 <= ri < pieces.len() && pieces[ri].pos == a.to);
    assert(ki != ri);
    assert forall|p: int| 0 <= p < 120 && #[trigger] s2[p] >= 2 implies exists|j: int|
        0 <= j < p2.len() && (#[trigger] p2[j].pos) as int == p by {
        if p == a.from + 2 * dir {
            assert(p2[ki].pos as int == p);
        } else if p == a.from + dir {
            assert(p2[ri].pos as int == p);
        } else {
            assert(state[p] >= 2);
            let j = choose|j: int|
                0 <= j < pieces.len() && (#[trigger] pieces[j].pos) as int == p;
            assert(j != ki && j != ri);
            assert(p2[j].pos as int == p);
        }
    }
}

impl Board {
    /// Decides at run time whether `action` can be made on this board.
    pub fn can_make(&self, action: Action) -> (r: bool)
        requires
            self.wf(),
        ensures
            r == action_makeable(self.state@, self.pieces@, self.moving_team, action),
    {
        let from = action.from;
        let to = action.to;
        if !(0 <= from && from < 120 && 0 <= to && to < 120) {
            return false;
        }
        let fr = from / 10;
        let fc = from - 10 * fr;
        let tr = to / 10;
        let tc = to - 10 * tr;
        if !(2 <= fr && fr <= 9 && 1 <= fc && fc <= 8) {
            return false;
        }
        if !(2 <= tr && tr <= 9 && 1 <= tc && tc <= 8) {
            return false;
        }
        if from == to || action.team != self.moving_team {
            return false;
        }
        let fcode = self.state[from as usize];
        if fcode < 2 {
            return false;
        }
        let fteam = self.get_team(fcode);
        if fteam != action.team || self.get_piece_type(fcode, fteam) != action.piece_type {
            return false;
        }
        if action.piece_type == 5 && action.info == 1 {
            let dir: i16 = if to > from {
                1
            } else {
                -1
            };
            if tr != fr {
                return false;
            }
            if dir == 1 && to - from < 3 {
                return false;
            }
            if dir == -1 && from - to < 3 {
                return false;
            }
            let tcode = self.state[to as usize];
            if tcode < 2 {
                return false;
            }
            let tteam = self.get_team(tcode);
            if tteam != action.team || self.get_piece_type(tcode, tteam) != 3 {
                return false;
            }
            if self.state[(from + dir) as usize] != 1 || self.state[(from + 2 * dir) as usize] != 1 {
                return false;
            }
            proof {
                assert(playable((from + dir) as int));
                assert(playable((from + 2 * dir) as int));
            }
            true
        } else if action.piece_type == 0 && action.info == -3 {
            let cap: i16 = if action.team == 0 {
                to + 10
            } else {
                to - 10
            };
            if !action.capture {
                return false;
            }
            if self.state[to as usize] != 1 {
                return false;
            }
            if !(0 <= cap && cap < 120) {
                return false;
            }
            if cap == from {
                return false;
            }
            let ccode = self.state[cap as usize];
            if ccode < 2 {
                return false;
            }
            let cteam = self.get_team(ccode);
            if cteam == action.team || self.get_piece_type(ccode, cteam) != 0 {
                return false;
            }
            proof {
                assert(playable(cap as int));
            }
            true
        } else {
            let tcode = self.state[to as usize];
            if action.capture {
                if tcode < 2 {
                    return false;
                }
                if self.get_team(tcode) == action.team {
                    return false;
                }
            } else {
                if tcode != 1 {
                    return false;
                }
            }
            if action.piece_type == 0 {
                action.info == -1 || action.info == -2 || (1 <= action.info && action.info <= 4)
            } else {
                true
            }
        }
    }
}

/// Specification twin of `Board::can_move_capture`.
pub open spec fn spec_move_capture(state: Seq<i16>, pos: int, team: int) -> ActionType {
    if state[pos] == 0 {
        ActionType::FAIL
    } else if state[pos] == 1 {
        ActionType::MOVE
    } else if code_team(state[pos] as int) != team {
        ActionType::CAPTURE
    } else {
        ActionType::FAIL
    }
}

/// Specification twin of `Board::can_control`.
pub open spec fn spec_control(state: Seq<i16>, pos: int) -> ActionType {
    if state[pos] == 0 {
        ActionType::FAIL
    } else if state[pos] == 1 {
        ActionType::MOVE
    } else {
        ActionType::CAPTURE
    }
}

} // verus!
