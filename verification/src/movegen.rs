//! Pseudolegal move generation per piece type, attack detection, and the
//! legality filter. Every generator is specified by a twin spec function, so
//! that `generate_moves` returns exactly `pseudolegal_moves` and
//! `generate_legal_moves` returns exactly its legal subset.
use vstd::prelude::*;

use crate::board::Action;
use crate::board::ActionType;
use crate::board::Board;
use crate::board::PersistentPieceInfo;
use crate::board::StoredMove;
use crate::board::action_makeable;
use crate::board::code_team;
use crate::board::code_type;
use crate::board::piece_code;
use crate::board::playable;
use crate::board::pos_index;
use crate::board::sq_row;
use crate::board::spec_move_capture;
use crate::board::find_piece_index;

verus! {

/// What a per-piece generator needs to know about the piece it expands.
#[derive(Debug, PartialEq, Eq, Structural, Clone, Copy)]
pub struct PieceGenInfo {
    pub pos: i16,
    pub team: i16,
    pub row_gap: i16,
    pub piece_type: i16,
}

/// A quiet move with no extra information.
pub open spec fn quiet_action(pos: i16, to: i16, team: i16, piece_type: i16) -> Action {
    Action { from: pos, to, team, piece_type, capture: false, info: 0 }
}

/// A capture with no extra information.
pub open spec fn capture_action(pos: i16, to: i16, team: i16, piece_type: i16) -> Action {
    Action { from: pos, to, team, piece_type, capture: true, info: 0 }
}

/// The zero or one actions a single-square attempt emits.
pub open spec fn attempt_spec(state: Seq<i16>, pos: i16, team: i16, piece_type: i16, target: i16) -> Seq<
    Action,
> {
    match spec_move_capture(state, target as int, team as int) {
        ActionType::MOVE => seq![quiet_action(pos, target, team, piece_type)],
        ActionType::CAPTURE => seq![capture_action(pos, target, team, piece_type)],
        ActionType::FAIL => seq![],
    }
}

/// The moves of one sliding ray: quiet moves until the ray is blocked by a
/// sentinel or an own piece, a final capture if it meets an enemy. The fuel
/// bounds the walk by the board diameter and is never exhausted on a
/// well-formed board.
pub open spec fn ray_actions(
    state: Seq<i16>,
    pos: i16,
    team: i16,
    piece_type: i16,
    slider: i16,
    current: i16,
    fuel: nat,
) -> Seq<Action>
    decreases fuel,
{
    if fuel == 0 {
        seq![]
    } else {
        let next = current + slider;
        if !(0 <= next < 120) {
            seq![]
        } else {
            match spec_move_capture(state, next as int, team as int) {
                ActionType::MOVE => seq![quiet_action(pos, next as i16, team, piece_type)].add(
                    ray_actions(state, pos, team, piece_type, slider, next as i16, (fuel - 1) as nat),
                ),
                ActionType::CAPTURE => seq![capture_action(pos, next as i16, team, piece_type)],
                ActionType::FAIL => seq![],
            }
        }
    }
}

/// Fuel that lets every ray run to its blocker on the 10x12 board.
pub open spec fn ray_fuel() -> nat {
    11
}

pub open spec fn knight_deltas() -> Seq<i16> {
    seq![21i16, 19i16, -19i16, -21i16, 12i16, 8i16, -8i16, -12i16]
}

pub open spec fn king_deltas() -> Seq<i16> {
    seq![1i16, -1i16, 10i16, -10i16, 11i16, 9i16, -9i16, -11i16]
}

/// The moves found by attempting one step along each delta, in order.
pub open spec fn delta_actions(
    state: Seq<i16>,
    pos: i16,
    team: i16,
    piece_type: i16,
    deltas: Seq<i16>,
) -> Seq<Action>
    decreases deltas.len(),
{
    if deltas.len() == 0 {
        seq![]
    } else {
        delta_actions(state, pos, team, piece_type, deltas.drop_last()) + attempt_spec(
            state,
            pos,
            team,
            piece_type,
            (pos + deltas.last()) as i16,
        )
    }
}

pub open spec fn knight_moves(state: Seq<i16>, pos: i16, team: i16) -> Seq<Action> {
    delta_actions(state, pos, team, 1, knight_deltas())
}

pub open spec fn bishop_moves(state: Seq<i16>, pos: i16, team: i16) -> Seq<Action> {
    ray_actions(state, pos, team, 2, 11, pos, ray_fuel()) + ray_actions(
        state,
        pos,
        team,
        2,
        9,
        pos,
        ray_fuel(),
    ) + ray_actions(state, pos, team, 2, -9i16, pos, ray_fuel()) + ray_actions(
        state,
        pos,
        team,
        2,
        -11i16,
        pos,
        ray_fuel(),
    )
}

pub open spec fn rook_moves(state: Seq<i16>, pos: i16, team: i16) -> Seq<Action> {
    ray_actions(state, pos, team, 3, 1, pos, ray_fuel()) + ray_actions(
        state,
        pos,
        team,
        3,
        -1i16,
        pos,
        ray_fuel(),
    ) + ray_actions(state, pos, team, 3, 10, pos, ray_fuel()) + ray_actions(
        state,
        pos,
        team,
        3,
        -10i16,
        pos,
        ray_fuel(),
    )
}

pub open spec fn queen_moves(state: Seq<i16>, pos: i16, team: i16) -> Seq<Action> {
    ray_actions(state, pos, team, 4, 1, pos, ray_fuel()) + ray_actions(
        state,
        pos,
        team,
        4,
        -1i16,
        pos,
        ray_fuel(),
    ) + ray_actions(state, pos, team, 4, 10, pos, ray_fuel()) + ray_actions(
        state,
        pos,
        team,
        4,
        -10i16,
        pos,
        ray_fuel(),
    ) + ray_actions(state, pos, team, 4, 11, pos, ray_fuel()) + ray_actions(
        state,
        pos,
        team,
        4,
        9,
        pos,
        ray_fuel(),
    ) + ray_actions(state, pos, team, 4, -9i16, pos, ray_fuel()) + ray_actions(
        state,
        pos,
        team,
        4,
        -11i16,
        pos,
        ray_fuel(),
    )
}

/// The eight single-square king steps (castling is separate).
pub open spec fn king_step_moves(state: Seq<i16>, pos: i16, team: i16) -> Seq<Action> {
    delta_actions(state, pos, team, 5, king_deltas())
}

/// The `first_move` flag of the piece record standing on `pos`.
pub open spec fn first_move_of(pieces: Seq<PersistentPieceInfo>, pos: i16) -> bool {
    pieces[pos_index(pieces, pos as int)].first_move
}

/// A pawn move expanded into one move per promotion target when it lands on
/// the promotion row.
pub open spec fn promote_expand(a: Action, promotion_row: int) -> Seq<Action> {
    if sq_row(a.to as int) == promotion_row {
        seq![
            Action { info: 1, ..a },
            Action { info: 2, ..a },
            Action { info: 3, ..a },
            Action { info: 4, ..a },
        ]
    } else {
        seq![a]
    }
}

/// The last action made on the board, if any.
pub open spec fn last_action(history: Seq<StoredMove>) -> Option<Action> {
    if history.len() == 0 {
        None
    } else {
        Some(history.last().action)
    }
}

/// Whether the previous move was a double pawn push landing on `sq`, which
/// makes an en passant capture of that pawn available.
pub open spec fn ep_available(
    state: Seq<i16>,
    last: Option<Action>,
    team: i16,
    sq: i16,
    target: i16,
) -> bool {
    &&& last is Some
    &&& last.unwrap().piece_type == 0
    &&& last.unwrap().info == -2
    &&& last.unwrap().to == sq
    &&& 0 <= sq < 120
    &&& 0 <= target < 120
    &&& state[target as int] == 1
    &&& state[sq as int] > 1
    &&& code_team(state[sq as int] as int) != team
    &&& code_type(state[sq as int] as int) == 0
}

/// All pawn moves from `pos`: pushes, double pushes, diagonal captures and en
/// passant captures, pushes and captures expanded over promotion targets.
pub open spec fn pawn_actions(
    state: Seq<i16>,
    pieces: Seq<PersistentPieceInfo>,
    last: Option<Action>,
    pos: i16,
    team: i16,
) -> Seq<Action> {
    let fwd: int = if team == 0 {
        -10
    } else {
        10
    };
    let promotion_row: int = if team == 0 {
        2
    } else {
        9
    };
    let target = (pos + fwd) as i16;
    let target2 = (pos + 2 * fwd) as i16;
    let target_left = (pos + fwd - 1) as i16;
    let target_right = (pos + fwd + 1) as i16;
    let push = if state[target as int] == 1 {
        promote_expand(
            Action { from: pos, to: target, team, piece_type: 0, capture: false, info: -1i16 },
            promotion_row,
        )
    } else {
        seq![]
    };
    let dbl = if state[target as int] == 1 && first_move_of(pieces, pos) && state[target2 as int]
        == 1 {
        seq![Action { from: pos, to: target2, team, piece_type: 0, capture: false, info: -2i16 }]
    } else {
        seq![]
    };
    let capl = if state[target_left as int] > 1 && code_team(state[target_left as int] as int)
        != team {
        promote_expand(
            Action { from: pos, to: target_left, team, piece_type: 0, capture: true, info: -1i16 },
            promotion_row,
        )
    } else {
        seq![]
    };
    let capr = if state[target_right as int] > 1 && code_team(state[target_right as int] as int)
        != team {
        promote_expand(
            Action { from: pos, to: target_right, team, piece_type: 0, capture: true, info: -1i16 },
            promotion_row,
        )
    } else {
        seq![]
    };
    let epl = if ep_available(state, last, team, (pos - 1) as i16, target_left) {
        seq![Action { from: pos, to: target_left, team, piece_type: 0, capture: true, info: -3i16 }]
    } else {
        seq![]
    };
    let epr = if ep_available(state, last, team, (pos + 1) as i16, target_right) {
        seq![Action { from: pos, to: target_right, team, piece_type: 0, capture: true, info: -3i16 }]
    } else {
        seq![]
    };
    push + dbl + capl + capr + epl + epr
}

/// Well-formedness of a piece for generation: it stands on a playable square
/// and decodes to the given team and type.
pub open spec fn gen_pre(
    state: Seq<i16>,
    pos: i16,
    team: i16,
    piece_type: i16,
) -> bool {
    &&& playable(pos as int)
    &&& state[pos as int] >= 2
    &&& code_team(state[pos as int] as int) == team
    &&& code_type(state[pos as int] as int) == piece_type
    &&& team == 0 || team == 1
}

/// Emits the move or capture that stepping on `target` offers, if any.
pub fn attempt_action(
    actions: &mut Vec<Action>,
    board: &Board,
    piece_info: &PieceGenInfo,
    target: i16,
)
    requires
        board.wf(),
        0 <= target < 120,
        gen_pre(board.state@, piece_info.pos, piece_info.team, piece_info.piece_type),
        piece_info.piece_type != 0,
    ensures
        final(actions)@ == old(actions)@ + attempt_spec(
            board.state@,
            piece_info.pos,
            piece_info.team,
            piece_info.piece_type,
            target,
        ),
{
    let pos = piece_info.pos;
    let team = piece_info.team;
    match board.can_move_capture(target, team) {
        ActionType::MOVE => {
            actions.push(
                Action { from: pos, to: target, piece_type: piece_info.piece_type, capture: false, info: 0, team },
            );
        },
        ActionType::CAPTURE => {
            actions.push(
                Action { from: pos, to: target, piece_type: piece_info.piece_type, capture: true, info: 0, team },
            );
        },
        ActionType::FAIL => {},
    }
}

/// Walks one sliding ray, emitting quiet moves and a final capture.
pub fn get_actions_sliding_ray(
    actions: &mut Vec<Action>,
    board: &Board,
    piece_info: &PieceGenInfo,
    slider: i16,
    current: i16,
    fuel: u8,
)
    requires
        board.wf(),
        -11 <= slider <= 11,
        playable(current as int),
        gen_pre(board.state@, piece_info.pos, piece_info.team, piece_info.piece_type),
        piece_info.piece_type != 0,
    ensures
        final(actions)@ == old(actions)@ + ray_actions(
            board.state@,
            piece_info.pos,
            piece_info.team,
            piece_info.piece_type,
            slider,
            current,
            fuel as nat,
        ),
    decreases fuel,
{
    if fuel == 0 {
        return ;
    }
    let next = current + slider;
    match board.can_move_capture(next, piece_info.team) {
        ActionType::MOVE => {
            actions.push(
                Action {
                    from: piece_info.pos,
                    to: next,
                    piece_type: piece_info.piece_type,
                    capture: false,
                    info: 0,
                    team: piece_info.team,
                },
            );
            get_actions_sliding_ray(actions, board, piece_info, slider, next, fuel - 1);
        },
        ActionType::CAPTURE => {
            actions.push(
                Action {
                    from: piece_info.pos,
                    to: next,
                    piece_type: piece_info.piece_type,
                    capture: true,
                    info: 0,
                    team: piece_info.team,
                },
            );
        },
        ActionType::FAIL => {},
    }
}

/// Attempts one step along each delta, appending the moves found.
pub fn add_actions_delta(
    actions: &mut Vec<Action>,
    deltas: &Vec<i16>,
    board: &Board,
    piece_info: &PieceGenInfo,
)
    requires
        board.wf(),
        gen_pre(board.state@, piece_info.pos, piece_info.team, piece_info.piece_type),
        piece_info.piece_type != 0,
        forall|k: int| 0 <= k < deltas@.len() ==> -21 <= #[trigger] deltas@[k] <= 21,
    ensures
        final(actions)@ == old(actions)@ + delta_actions(
            board.state@,
            piece_info.pos,
            piece_info.team,
            piece_info.piece_type,
            deltas@,
        ),
{
    let mut i: usize = 0;
    while i < deltas.len()
        invariant
            0 <= i <= deltas@.len(),
            board.wf(),
            gen_pre(board.state@, piece_info.pos, piece_info.team, piece_info.piece_type),
            piece_info.piece_type != 0,
            forall|k: int| 0 <= k < deltas@.len() ==> -21 <= #[trigger] deltas@[k] <= 21,
            actions@ == old(actions)@ + delta_actions(
                board.state@,
                piece_info.pos,
                piece_info.team,
                piece_info.piece_type,
                deltas@.take(i as int),
            ),
        decreases deltas@.len() - i,
    {
        attempt_action(actions, board, piece_info, piece_info.pos + deltas[i]);
        proof {
            assert(deltas@.take(i + 1).drop_last() =~= deltas@.take(i as int));
            assert(deltas@.take(i + 1).last() == deltas@[i as int]);
            assert(actions@ =~= old(actions)@ + delta_actions(
                board.state@,
                piece_info.pos,
                piece_info.team,
                piece_info.piece_type,
                deltas@.take(i + 1),
            ));
        }
        i = i + 1;
    }
    proof {
        assert(deltas@.take(deltas@.len() as int) =~= deltas@);
    }
}

/// The knight's eight jump deltas on the 10x12 board.
pub fn knight_deltas_vec() -> (r: Vec<i16>)
    ensures
        r@ == knight_deltas(),
{
    let mut v: Vec<i16> = Vec::new();
    v.push(21);
    v.push(19);
    v.push(-19);
    v.push(-21);
    v.push(12);
    v.push(8);
    v.push(-8);
    v.push(-12);
    proof {
        assert(v@ =~= knight_deltas());
    }
    v
}

/// The king's eight step deltas on the 10x12 board.
pub fn king_deltas_vec() -> (r: Vec<i16>)
    ensures
        r@ == king_deltas(),
{
    let mut v: Vec<i16> = Vec::new();
    v.push(1);
    v.push(-1);
    v.push(10);
    v.push(-10);
    v.push(11);
    v.push(9);
    v.push(-9);
    v.push(-11);
    proof {
        assert(v@ =~= king_deltas());
    }
    v
}

/// Appends all knight moves from the piece described by `piece_info`.
pub fn add_knight_actions(actions: &mut Vec<Action>, board: &Board, piece_info: &PieceGenInfo)
    requires
        board.wf(),
        gen_pre(board.state@, piece_info.pos, piece_info.team, piece_info.piece_type),
        piece_info.piece_type == 1,
    ensures
        final(actions)@ == old(actions)@ + knight_moves(board.state@, piece_info.pos, piece_info.team),
{
    let deltas = knight_deltas_vec();
    add_actions_delta(actions, &deltas, board, piece_info);
}

/// Appends all bishop moves.
pub fn add_bishop_actions(actions: &mut Vec<Action>, board: &Board, piece_info: &PieceGenInfo)
    requires
        board.wf(),
        gen_pre(board.state@, piece_info.pos, piece_info.team, piece_info.piece_type),
        piece_info.piece_type == 2,
    ensures
        final(actions)@ == old(actions)@ + bishop_moves(board.state@, piece_info.pos, piece_info.team),
{
    let pos = piece_info.pos;
    get_actions_sliding_ray(actions, board, piece_info, 11, pos, 11);
    get_actions_sliding_ray(actions, board, piece_info, 9, pos, 11);
    get_actions_sliding_ray(actions, board, piece_info, -9, pos, 11);
    get_actions_sliding_ray(actions, board, piece_info, -11, pos, 11);
    proof {
        assert(actions@ =~= old(actions)@ + bishop_moves(
            board.state@,
            piece_info.pos,
            piece_info.team,
        ));
    }
}

/// Appends all rook moves.
pub fn add_rook_actions(actions: &mut Vec<Action>, board: &Board, piece_info: &PieceGenInfo)
    requires
        board.wf(),
        gen_pre(board.state@, piece_info.pos, piece_info.team, piece_info.piece_type),
        piece_info.piece_type == 3,
    ensures
        final(actions)@ == old(actions)@ + rook_moves(board.state@, piece_info.pos, piece_info.team),
{
    let pos = piece_info.pos;
    get_actions_sliding_ray(actions, board, piece_info, 1, pos, 11);
    get_actions_sliding_ray(actions, board, piece_info, -1, pos, 11);
    get_actions_sliding_ray(actions, board, piece_info, 10, pos, 11);
    get_actions_sliding_ray(actions, board, piece_info, -10, pos, 11);
    proof {
        assert(actions@ =~= old(actions)@ + rook_moves(
            board.state@,
            piece_info.pos,
            piece_info.team,
        ));
    }
}

/// Appends all queen moves.
pub fn add_queen_actions(actions: &mut Vec<Action>, board: &Board, piece_info: &PieceGenInfo)
    requires
        board.wf(),
        gen_pre(board.state@, piece_info.pos, piece_info.team, piece_info.piece_type),
        piece_info.piece_type == 4,
    ensures
        final(actions)@ == old(actions)@ + queen_moves(board.state@, piece_info.pos, piece_info.team),
{
    let pos = piece_info.pos;
    get_actions_sliding_ray(actions, board, piece_info, 1, pos, 11);
    get_actions_sliding_ray(actions, board, piece_info, -1, pos, 11);
    get_actions_sliding_ray(actions, board, piece_info, 10, pos, 11);
    get_actions_sliding_ray(actions, board, piece_info, -10, pos, 11);
    get_actions_sliding_ray(actions, board, piece_info, 11, pos, 11);
    get_actions_sliding_ray(actions, board, piece_info, 9, pos, 11);
    get_actions_sliding_ray(actions, board, piece_info, -9, pos, 11);
    get_actions_sliding_ray(actions, board, piece_info, -11, pos, 11);
    proof {
        assert(actions@ =~= old(actions)@ + queen_moves(
            board.state@,
            piece_info.pos,
            piece_info.team,
        ));
    }
}

/// Appends a pawn move, expanded over the four promotion targets when it
/// lands on the promotion row.
fn add_promotion(actions: &mut Vec<Action>, board: &Board, action: Action, promotion_row: i16)
    requires
        board.wf(),
        0 <= action.to < 120,
    ensures
        final(actions)@ == old(actions)@ + promote_expand(action, promotion_row as int),
{
    if board.get_row(action.to) == promotion_row {
        let mut promotion_piece_type: i16 = 1;
        while promotion_piece_type < 5
            invariant
                1 <= promotion_piece_type <= 5,
                actions@ == old(actions)@ + promote_expand(action, promotion_row as int).take(
                    promotion_piece_type - 1,
                ),
                board.wf(),
                sq_row(action.to as int) == promotion_row,
            decreases 5 - promotion_piece_type,
        {
            actions.push(Action { info: promotion_piece_type, ..action });
            proof {
                assert(actions@ =~= old(actions)@ + promote_expand(
                    action,
                    promotion_row as int,
                ).take(promotion_piece_type as int));
            }
            promotion_piece_type = promotion_piece_type + 1;
        }
        proof {
            assert(promote_expand(action, promotion_row as int).take(4) =~= promote_expand(
                action,
                promotion_row as int,
            ));
        }
    } else {
        actions.push(action);
        proof {
            assert(actions@ =~= old(actions)@ + promote_expand(action, promotion_row as int));
        }
    }
}

/// Appends all pawn moves: pushes, double pushes, diagonal captures and en
/// passant captures.
#[verifier::rlimit(100)]
pub fn add_pawn_actions(actions: &mut Vec<Action>, board: &Board, piece_info: &PieceGenInfo)
    requires
        board.wf(),
        gen_pre(board.state@, piece_info.pos, piece_info.team, piece_info.piece_type),
        piece_info.piece_type == 0,
    ensures
        final(actions)@ == old(actions)@ + pawn_actions(
            board.state@,
            board.pieces@,
            last_action(board.history@),
            piece_info.pos,
            piece_info.team,
        ),
{
    let pos = piece_info.pos;
    let team = piece_info.team;
    let fwd: i16 = if team == 0 {
        -10
    } else {
        10
    };
    let promotion_row: i16 = if team == 0 {
        2
    } else {
        9
    };
    let target = pos + fwd;
    let target2 = pos + 2 * fwd;
    let target_left = pos + fwd - 1;
    let target_right = pos + fwd + 1;
    let ghost gstate = board.state@;
    let ghost glast = last_action(board.history@);
    let ghost full = pawn_actions(gstate, board.pieces@, glast, pos, team);

    // Single push.
    if board.can_move(target) {
        add_promotion(
            actions,
            board,
            Action { from: pos, to: target, piece_type: 0, capture: false, info: -1, team },
            promotion_row,
        );
    }
    // Double push.
    if board.can_move(target) {
        let idx_opt = find_piece_index(&board.pieces, pos);
        proof {
            assert(idx_opt is Some) by {
                assert(board.state@[pos as int] >= 2);
            }
            assert(exists|j: int|
                0 <= j < board.pieces@.len() && (#[trigger] board.pieces@[j].pos) as int
                    == pos as int);
        }
        let idx = idx_opt.unwrap();
        proof {
            assert(idx as int == pos_index(board.pieces@, pos as int));
        }
        if board.pieces[idx].first_move {
            if board.can_move(target2) {
                actions.push(
                    Action { from: pos, to: target2, piece_type: 0, capture: false, info: -2, team },
                );
            }
        }
    }
    // Diagonal captures.
    if board.can_capture(target_left, team) {
        add_promotion(
            actions,
            board,
            Action { from: pos, to: target_left, piece_type: 0, capture: true, info: -1, team },
            promotion_row,
        );
    }
    if board.can_capture(target_right, team) {
        add_promotion(
            actions,
            board,
            Action { from: pos, to: target_right, piece_type: 0, capture: true, info: -1, team },
            promotion_row,
        );
    }
    // En passant, left then right.
    if board.history.len() > 0 {
        let la = board.history[board.history.len() - 1].action;
        if la.piece_type == 0 && la.info == -2 && la.to == pos - 1 {
            if board.can_move(target_left) && board.can_capture(pos - 1, team) {
                let cc = board.state[(pos - 1) as usize];
                let ct = board.get_team(cc);
                if board.get_piece_type(cc, ct) == 0 {
                    actions.push(
                        Action {
                            from: pos,
                            to: target_left,
                            piece_type: 0,
                            capture: true,
                            info: -3,
                            team,
                        },
                    );
                }
            }
        }
        if la.piece_type == 0 && la.info == -2 && la.to == pos + 1 {
            if board.can_move(target_right) && board.can_capture(pos + 1, team) {
                let cc = board.state[(pos + 1) as usize];
                let ct = board.get_team(cc);
                if board.get_piece_type(cc, ct) == 0 {
                    actions.push(
                        Action {
                            from: pos,
                            to: target_right,
                            piece_type: 0,
                            capture: true,
                            info: -3,
                            team,
                        },
                    );
                }
            }
        }
    }
    proof {
        assert(actions@ =~= old(actions)@ + full);
    }
}


/// The diagonal squares a pawn of `team` attacks from `pos`.
pub open spec fn pawn_controls(pos: i16, team: i16, target: int) -> bool {
    let fwd: int = if team == 0 {
        -10
    } else {
        10
    };
    target == pos + fwd - 1 || target == pos + fwd + 1
}

/// Whether one of the deltas steps from `pos` exactly onto `target`.
pub open spec fn delta_controls(pos: i16, deltas: Seq<i16>, target: int) -> bool {
    exists|k: int| 0 <= k < deltas.len() && pos + #[trigger] deltas[k] == target
}

/// Exhibits one delta that reaches `target`.
proof fn lemma_delta_controls_intro(pos: i16, deltas: Seq<i16>, target: int, k: int)
    requires
        0 <= k < deltas.len(),
        pos + deltas[k] == target,
    ensures
        delta_controls(pos, deltas, target),
{
}

/// Whether a ray from `current` along `slider` reaches `target` before any
/// blocker.
pub open spec fn ray_hits(
    state: Seq<i16>,
    slider: i16,
    current: i16,
    target: int,
    fuel: nat,
) -> bool
    decreases fuel,
{
    if fuel == 0 {
        false
    } else {
        let next = current + slider;
        if !(0 <= next < 120) {
            false
        } else if state[next] == 0 {
            false
        } else if next == target {
            true
        } else if state[next] == 1 {
            ray_hits(state, slider, next as i16, target, (fuel - 1) as nat)
        } else {
            false
        }
    }
}

/// Whether some ray of the slider set reaches `target`.
pub open spec fn slider_controls(state: Seq<i16>, pos: i16, sliders: Seq<i16>, target: int) -> bool {
    exists|k: int|
        0 <= k < sliders.len() && ray_hits(state, #[trigger] sliders[k], pos, target, ray_fuel())
}

pub open spec fn bishop_sliders() -> Seq<i16> {
    seq![11i16, 9i16, -9i16, -11i16]
}

pub open spec fn rook_sliders() -> Seq<i16> {
    seq![1i16, -1i16, 10i16, -10i16]
}

pub open spec fn queen_sliders() -> Seq<i16> {
    seq![1i16, -1i16, 10i16, -10i16, 11i16, 9i16, -9i16, -11i16]
}

/// Whether the piece of the given type on `pos` attacks `target`.
pub open spec fn piece_controls(
    state: Seq<i16>,
    pos: i16,
    team: int,
    piece_type: int,
    target: int,
) -> bool {
    if piece_type == 1 {
        delta_controls(pos, knight_deltas(), target)
    } else if piece_type == 2 {
        slider_controls(state, pos, bishop_sliders(), target)
    } else if piece_type == 3 {
        slider_controls(state, pos, rook_sliders(), target)
    } else if piece_type == 4 {
        slider_controls(state, pos, queen_sliders(), target)
    } else if piece_type == 5 {
        delta_controls(pos, king_deltas(), target)
    } else {
        pawn_controls(pos, team as i16, target)
    }
}

/// Whether any piece of a team other than `team` attacks `target`.
pub open spec fn attacked_by_opponent(
    state: Seq<i16>,
    pieces: Seq<PersistentPieceInfo>,
    team: i16,
    target: int,
) -> bool {
    exists|j: int|
        0 <= j < pieces.len() && code_team(state[(#[trigger] pieces[j].pos) as int] as int) != team
            && piece_controls(
            state,
            pieces[j].pos,
            code_team(state[pieces[j].pos as int] as int),
            code_type(state[pieces[j].pos as int] as int),
            target,
        )
}

/// Index of the first piece record at or after `i` that holds the king of
/// `team`, or -1.
pub open spec fn first_king_from(
    state: Seq<i16>,
    pieces: Seq<PersistentPieceInfo>,
    team: i16,
    i: int,
) -> int
    decreases pieces.len() - i,
{
    if !(0 <= i < pieces.len()) {
        -1
    } else if state[pieces[i].pos as int] == piece_code(5, team as int) {
        i
    } else {
        first_king_from(state, pieces, team, i + 1)
    }
}

/// Whether the king of `team` stands attacked. A position without that king
/// is not in check.
pub open spec fn in_check_spec(
    state: Seq<i16>,
    pieces: Seq<PersistentPieceInfo>,
    team: i16,
) -> bool {
    let ki = first_king_from(state, pieces, team, 0);
    if ki < 0 {
        false
    } else {
        attacked_by_opponent(state, pieces, team, pieces[ki].pos as int)
    }
}

/// Searching for the king from the start or from `i` finds the same record
/// when no record before `i` holds it.
proof fn lemma_first_king_skip(
    state: Seq<i16>,
    pieces: Seq<PersistentPieceInfo>,
    team: i16,
    i: int,
)
    requires
        0 <= i <= pieces.len(),
        forall|k: int|
            0 <= k < i ==> state[(#[trigger] pieces[k].pos) as int] != piece_code(5, team as int),
    ensures
        first_king_from(state, pieces, team, 0) == first_king_from(state, pieces, team, i),
    decreases i,
{
    if i > 0 {
        lemma_first_king_skip(state, pieces, team, i - 1);
        assert(first_king_from(state, pieces, team, i - 1) == first_king_from(
            state,
            pieces,
            team,
            i,
        ));
    }
}

/// Whether one of the deltas steps from `pos` onto `target`.
pub fn can_control_delta(
    deltas: &Vec<i16>,
    board: &Board,
    piece_info: &PieceGenInfo,
    target: i16,
) -> (r: bool)
    requires
        board.wf(),
        playable(piece_info.pos as int),
        forall|k: int| 0 <= k < deltas@.len() ==> -21 <= #[trigger] deltas@[k] <= 21,
    ensures
        r == delta_controls(piece_info.pos, deltas@, target as int),
{
    let pos = piece_info.pos;
    let mut k: usize = 0;
    while k < deltas.len()
        invariant
            0 <= k <= deltas@.len(),
            pos == piece_info.pos,
            playable(pos as int),
            forall|m: int| 0 <= m < deltas@.len() ==> -21 <= #[trigger] deltas@[m] <= 21,
            forall|m: int| 0 <= m < k ==> pos + #[trigger] deltas@[m] != target,
        decreases deltas@.len() - k,
    {
        let d = deltas[k];
        if pos + d == target {
            proof {
                lemma_delta_controls_intro(pos, deltas@, target as int, k as int);
            }
            return true;
        }
        k = k + 1;
    }
    false
}

/// Walks one ray and reports whether it reaches `target` before a blocker.
pub fn ray_hits_exec(board: &Board, slider: i16, current: i16, target: i16, fuel: u8) -> (r: bool)
    requires
        board.wf(),
        -11 <= slider <= 11,
        playable(current as int),
    ensures
        r == ray_hits(board.state@, slider, current, target as int, fuel as nat),
    decreases fuel,
{
    if fuel == 0 {
        return false;
    }
    let next = current + slider;
    if next < 0 || next >= 120 {
        return false;
    }
    let st = board.state[next as usize];
    if st == 0 {
        false
    } else if next == target {
        true
    } else if st == 1 {
        ray_hits_exec(board, slider, next, target, fuel - 1)
    } else {
        false
    }
}

/// Whether some ray of the slider set reaches `target`.
pub fn can_control_sliding(
    sliders: &Vec<i16>,
    board: &Board,
    piece_info: &PieceGenInfo,
    target: i16,
) -> (r: bool)
    requires
        board.wf(),
        playable(piece_info.pos as int),
        forall|k: int| 0 <= k < sliders@.len() ==> -11 <= #[trigger] sliders@[k] <= 11,
    ensures
        r == slider_controls(board.state@, piece_info.pos, sliders@, target as int),
{
    let mut k: usize = 0;
    while k < sliders.len()
        invariant
            0 <= k <= sliders@.len(),
            board.wf(),
            playable(piece_info.pos as int),
            forall|m: int| 0 <= m < sliders@.len() ==> -11 <= #[trigger] sliders@[m] <= 11,
            forall|m: int|
                0 <= m < k ==> !ray_hits(
                    board.state@,
                    #[trigger] sliders@[m],
                    piece_info.pos,
                    target as int,
                    ray_fuel(),
                ),
        decreases sliders@.len() - k,
    {
        if ray_hits_exec(board, sliders[k], piece_info.pos, target, 11) {
            return true;
        }
        k = k + 1;
    }
    false
}

/// The bishop's four diagonal sliders.
pub fn bishop_sliders_vec() -> (r: Vec<i16>)
    ensures
        r@ == bishop_sliders(),
{
    let mut v: Vec<i16> = Vec::new();
    v.push(11);
    v.push(9);
    v.push(-9);
    v.push(-11);
    proof {
        assert(v@ =~= bishop_sliders());
    }
    v
}

/// The rook's four orthogonal sliders.
pub fn rook_sliders_vec() -> (r: Vec<i16>)
    ensures
        r@ == rook_sliders(),
{
    let mut v: Vec<i16> = Vec::new();
    v.push(1);
    v.push(-1);
    v.push(10);
    v.push(-10);
    proof {
        assert(v@ =~= rook_sliders());
    }
    v
}

/// The queen's eight sliders.
pub fn queen_sliders_vec() -> (r: Vec<i16>)
    ensures
        r@ == queen_sliders(),
{
    let mut v: Vec<i16> = Vec::new();
    v.push(1);
    v.push(-1);
    v.push(10);
    v.push(-10);
    v.push(11);
    v.push(9);
    v.push(-9);
    v.push(-11);
    proof {
        assert(v@ =~= queen_sliders());
    }
    v
}

/// Whether the piece on `pos` attacks `target`, by that piece's own movement
/// rule.
pub fn piece_can_control(board: &Board, pos: i16, team: i16, piece_type: i16, target: i16) -> (r:
    bool)
    requires
        board.wf(),
        playable(pos as int),
        0 <= team <= 1,
    ensures
        r == piece_controls(board.state@, pos, team as int, piece_type as int, target as int),
{
    let pi = PieceGenInfo { pos, team, row_gap: board.row_gap, piece_type };
    if piece_type == 1 {
        let deltas = knight_deltas_vec();
        can_control_delta(&deltas, board, &pi, target)
    } else if piece_type == 2 {
        let sliders = bishop_sliders_vec();
        can_control_sliding(&sliders, board, &pi, target)
    } else if piece_type == 3 {
        let sliders = rook_sliders_vec();
        can_control_sliding(&sliders, board, &pi, target)
    } else if piece_type == 4 {
        let sliders = queen_sliders_vec();
        can_control_sliding(&sliders, board, &pi, target)
    } else if piece_type == 5 {
        let deltas = king_deltas_vec();
        can_control_delta(&deltas, board, &pi, target)
    } else {
        let fwd: i16 = if team == 0 {
            -10
        } else {
            10
        };
        pos + fwd - 1 == target || pos + fwd + 1 == target
    }
}

/// Whether any piece of a team other than `team` attacks `target`.
pub fn square_attacked_by_opponent(board: &Board, team: i16, target: i16) -> (r: bool)
    requires
        board.wf(),
        0 <= team <= 1,
    ensures
        r == attacked_by_opponent(board.state@, board.pieces@, team, target as int),
{
    let mut j: usize = 0;
    while j < board.pieces.len()
        invariant
            0 <= j <= board.pieces@.len(),
            board.wf(),
            0 <= team <= 1,
            forall|m: int|
                0 <= m < j ==> !(code_team(
                    board.state@[(#[trigger] board.pieces@[m].pos) as int] as int,
                ) != team && piece_controls(
                    board.state@,
                    board.pieces@[m].pos,
                    code_team(board.state@[board.pieces@[m].pos as int] as int),
                    code_type(board.state@[board.pieces@[m].pos as int] as int),
                    target as int,
                )),
        decreases board.pieces@.len() - j,
    {
        let pos = board.pieces[j].pos;
        let code = board.state[pos as usize];
        let t = board.get_team(code);
        if t != team {
            let pt = board.get_piece_type(code, t);
            if piece_can_control(board, pos, t, pt, target) {
                return true;
            }
        }
        j = j + 1;
    }
    false
}

/// Whether the side `moving_team` stands in check.
pub fn in_check(board: &Board, moving_team: i16, row_gap: i16) -> (r: bool)
    requires
        board.wf(),
        0 <= moving_team <= 1,
    ensures
        r == in_check_spec(board.state@, board.pieces@, moving_team),
{
    let king_code = board.get_piece_value(5, moving_team);
    let mut j: usize = 0;
    while j < board.pieces.len()
        invariant
            0 <= j <= board.pieces@.len(),
            board.wf(),
            0 <= moving_team <= 1,
            king_code as int == piece_code(5, moving_team as int),
            forall|k: int|
                0 <= k < j ==> board.state@[(#[trigger] board.pieces@[k].pos) as int] as int
                    != piece_code(5, moving_team as int),
        decreases board.pieces@.len() - j,
    {
        let pos = board.pieces[j].pos;
        if board.state[pos as usize] == king_code {
            proof {
                lemma_first_king_skip(board.state@, board.pieces@, moving_team, j as int);
            }
            return square_attacked_by_opponent(board, moving_team, pos);
        }
        j = j + 1;
    }
    proof {
        lemma_first_king_skip(board.state@, board.pieces@, moving_team, board.pieces@.len() as int);
    }
    false
}


/// Every action of the sequence can be made on the position.
pub open spec fn all_makeable(
    state: Seq<i16>,
    pieces: Seq<PersistentPieceInfo>,
    team: i16,
    s: Seq<Action>,
) -> bool {
    forall|i: int| 0 <= i < s.len() ==> action_makeable(state, pieces, team, #[trigger] s[i])
}

proof fn lemma_all_makeable_concat(
    state: Seq<i16>,
    pieces: Seq<PersistentPieceInfo>,
    team: i16,
    a: Seq<Action>,
    b: Seq<Action>,
)
    requires
        all_makeable(state, pieces, team, a),
        all_makeable(state, pieces, team, b),
    ensures
        all_makeable(state, pieces, team, a + b),
{
    assert forall|i: int| 0 <= i < (a + b).len() implies action_makeable(
        state,
        pieces,
        team,
        #[trigger] (a + b)[i],
    ) by {
        if i < a.len() {
            assert((a + b)[i] == a[i]);
        } else {
            assert((a + b)[i] == b[i - a.len()]);
        }
    }
}

proof fn lemma_attempt_makeable(
    state: Seq<i16>,
    pieces: Seq<PersistentPieceInfo>,
    pos: i16,
    team: i16,
    piece_type: i16,
    target: i16,
)
    requires
        crate::board::wf_position(state, pieces),
        gen_pre(state, pos, team, piece_type),
        piece_type != 0,
        0 <= target < 120,
    ensures
        all_makeable(state, pieces, team, attempt_spec(state, pos, team, piece_type, target)),
{
    let s = attempt_spec(state, pos, team, piece_type, target);
    if s.len() > 0 {
        assert(state[target as int] >= 1);
        assert(playable(target as int));
        assert(target != pos);
    }
}

proof fn lemma_delta_actions_makeable(
    state: Seq<i16>,
    pieces: Seq<PersistentPieceInfo>,
    pos: i16,
    team: i16,
    piece_type: i16,
    deltas: Seq<i16>,
)
    requires
        crate::board::wf_position(state, pieces),
        gen_pre(state, pos, team, piece_type),
        piece_type != 0,
        forall|k: int| 0 <= k < deltas.len() ==> -21 <= #[trigger] deltas[k] <= 21,
    ensures
        all_makeable(state, pieces, team, delta_actions(state, pos, team, piece_type, deltas)),
    decreases deltas.len(),
{
    if deltas.len() > 0 {
        lemma_delta_actions_makeable(state, pieces, pos, team, piece_type, deltas.drop_last());
        lemma_attempt_makeable(state, pieces, pos, team, piece_type, (pos + deltas.last()) as i16);
        lemma_all_makeable_concat(
            state,
            pieces,
            team,
            delta_actions(state, pos, team, piece_type, deltas.drop_last()),
            attempt_spec(state, pos, team, piece_type, (pos + deltas.last()) as i16),
        );
    }
}

proof fn lemma_ray_actions_makeable(
    state: Seq<i16>,
    pieces: Seq<PersistentPieceInfo>,
    pos: i16,
    team: i16,
    piece_type: i16,
    slider: i16,
    current: i16,
    fuel: nat,
)
    requires
        crate::board::wf_position(state, pieces),
        gen_pre(state, pos, team, piece_type),
        piece_type != 0,
        -11 <= slider <= 11,
        0 <= current < 120,
    ensures
        all_makeable(
            state,
            pieces,
            team,
            ray_actions(state, pos, team, piece_type, slider, current, fuel),
        ),
    decreases fuel,
{
    if fuel > 0 {
        let next = current + slider;
        if 0 <= next < 120 {
            if state[next] == 1 {
                assert(playable(next));
                lemma_ray_actions_makeable(
                    state,
                    pieces,
                    pos,
                    team,
                    piece_type,
                    slider,
                    next as i16,
                    (fuel - 1) as nat,
                );
                assert(next != pos);
            } else if state[next] >= 2 {
                assert(playable(next));
            }
        }
    }
}

proof fn lemma_promote_expand_makeable(
    state: Seq<i16>,
    pieces: Seq<PersistentPieceInfo>,
    team: i16,
    a: Action,
    promotion_row: int,
)
    requires
        action_makeable(state, pieces, team, a),
        a.piece_type == 0,
        a.info == -1,
    ensures
        all_makeable(state, pieces, team, promote_expand(a, promotion_row)),
{
}

proof fn lemma_pawn_actions_makeable(
    state: Seq<i16>,
    pieces: Seq<PersistentPieceInfo>,
    last: Option<Action>,
    pos: i16,
    team: i16,
)
    requires
        crate::board::wf_position(state, pieces),
        gen_pre(state, pos, team, 0),
    ensures
        all_makeable(state, pieces, team, pawn_actions(state, pieces, last, pos, team)),
{
    let fwd: int = if team == 0 {
        -10
    } else {
        10
    };
    let promotion_row: int = if team == 0 {
        2
    } else {
        9
    };
    let target = (pos + fwd) as i16;
    let target2 = (pos + 2 * fwd) as i16;
    let target_left = (pos + fwd - 1) as i16;
    let target_right = (pos + fwd + 1) as i16;
    let push = if state[target as int] == 1 {
        promote_expand(
            Action { from: pos, to: target, team, piece_type: 0, capture: false, info: -1i16 },
            promotion_row,
        )
    } else {
        seq![]
    };
    let dbl = if state[target as int] == 1 && first_move_of(pieces, pos) && state[target2 as int]
        == 1 {
        seq![Action { from: pos, to: target2, team, piece_type: 0, capture: false, info: -2i16 }]
    } else {
        seq![]
    };
    let capl = if state[target_left as int] > 1 && code_team(state[target_left as int] as int)
        != team {
        promote_expand(
            Action { from: pos, to: target_left, team, piece_type: 0, capture: true, info: -1i16 },
            promotion_row,
        )
    } else {
        seq![]
    };
    let capr = if state[target_right as int] > 1 && code_team(state[target_right as int] as int)
        != team {
        promote_expand(
            Action { from: pos, to: target_right, team, piece_type: 0, capture: true, info: -1i16 },
            promotion_row,
        )
    } else {
        seq![]
    };
    let epl = if ep_available(state, last, team, (pos - 1) as i16, target_left) {
        seq![Action { from: pos, to: target_left, team, piece_type: 0, capture: true, info: -3i16 }]
    } else {
        seq![]
    };
    let epr = if ep_available(state, last, team, (pos + 1) as i16, target_right) {
        seq![Action { from: pos, to: target_right, team, piece_type: 0, capture: true, info: -3i16 }]
    } else {
        seq![]
    };
    if state[target as int] == 1 {
        assert(playable(target as int));
        lemma_promote_expand_makeable(
            state,
            pieces,
            team,
            Action { from: pos, to: target, team, piece_type: 0, capture: false, info: -1i16 },
            promotion_row,
        );
    }
    if state[target_left as int] > 1 && code_team(state[target_left as int] as int) != team {
        assert(playable(target_left as int));
        lemma_promote_expand_makeable(
            state,
            pieces,
            team,
            Action { from: pos, to: target_left, team, piece_type: 0, capture: true, info: -1i16 },
            promotion_row,
        );
    }
    if state[target_right as int] > 1 && code_team(state[target_right as int] as int) != team {
        assert(playable(target_right as int));
        lemma_promote_expand_makeable(
            state,
            pieces,
            team,
            Action { from: pos, to: target_right, team, piece_type: 0, capture: true, info: -1i16 },
            promotion_row,
        );
    }
    if state[target as int] == 1 && first_move_of(pieces, pos) && state[target2 as int] == 1 {
        assert(playable(target2 as int));
    }
    if ep_available(state, last, team, (pos - 1) as i16, target_left) {
        assert(playable((pos - 1) as int));
        assert(playable(target_left as int));
    }
    if ep_available(state, last, team, (pos + 1) as i16, target_right) {
        assert(playable((pos + 1) as int));
        assert(playable(target_right as int));
    }
    lemma_all_makeable_concat(state, pieces, team, push, dbl);
    lemma_all_makeable_concat(state, pieces, team, push + dbl, capl);
    lemma_all_makeable_concat(state, pieces, team, push + dbl + capl, capr);
    lemma_all_makeable_concat(state, pieces, team, push + dbl + capl + capr, epl);
    lemma_all_makeable_concat(state, pieces, team, push + dbl + capl + capr + epl, epr);
    assert(pawn_actions(state, pieces, last, pos, team) == push + dbl + capl + capr + epl + epr);
}

/// A single step left or right stays on the same board row when it starts on
/// a playable square.
proof fn lemma_row_step(current: int, dir: int)
    requires
        playable(current),
        dir == 1 || dir == -1,
    ensures
        sq_row(current + dir) == sq_row(current),
{
    let r = sq_row(current);
    let c = crate::board::sq_col(current);
    assert(current == 10 * r + c) by (nonlinear_arith)
        requires r == current / 10, c == current % 10, 0 <= current < 120;
    assert((10 * r + c + dir) / 10 == r) by (nonlinear_arith)
        requires 0 <= c + dir <= 9, 0 <= r;
}

/// One castling walk: slides from the king towards a rook. Empty squares
/// must be attack-free while the king would cross them (the first two
/// steps); the walk ends at the first piece, which must be an unmoved own
/// rook at least three squares away.
pub open spec fn castle_walk(
    state: Seq<i16>,
    pieces: Seq<PersistentPieceInfo>,
    pos: i16,
    team: i16,
    dir: i16,
    current: i16,
    steps: int,
    fuel: nat,
) -> Seq<Action>
    decreases fuel,
{
    if fuel == 0 {
        seq![]
    } else {
        let next = current + dir;
        if !(0 <= next < 120) {
            seq![]
        } else if state[next] == 0 {
            seq![]
        } else if state[next] == 1 {
            if steps <= 2 && attacked_by_opponent(state, pieces, team, next) {
                seq![]
            } else {
                castle_walk(state, pieces, pos, team, dir, next as i16, steps + 1, (fuel - 1) as nat)
            }
        } else {
            if code_team(state[next] as int) == team && code_type(state[next] as int) == 3
                && first_move_of(pieces, next as i16) && steps >= 3 {
                seq![
                    Action {
                        from: pos,
                        to: next as i16,
                        team,
                        piece_type: 5,
                        capture: true,
                        info: 1i16,
                    },
                ]
            } else {
                seq![]
            }
        }
    }
}

/// The castling moves of the king on `pos`: none while in check or once the
/// king has moved, else whatever the two sideways walks find.
pub open spec fn castle_actions(
    state: Seq<i16>,
    pieces: Seq<PersistentPieceInfo>,
    pos: i16,
    team: i16,
) -> Seq<Action> {
    if in_check_spec(state, pieces, team) || !first_move_of(pieces, pos) {
        seq![]
    } else {
        castle_walk(state, pieces, pos, team, 1, pos, 1, ray_fuel()) + castle_walk(
            state,
            pieces,
            pos,
            team,
            -1i16,
            pos,
            1,
            ray_fuel(),
        )
    }
}

/// All king moves: the eight steps, then castling.
pub open spec fn king_moves(
    state: Seq<i16>,
    pieces: Seq<PersistentPieceInfo>,
    pos: i16,
    team: i16,
) -> Seq<Action> {
    king_step_moves(state, pos, team) + castle_actions(state, pieces, pos, team)
}

/// The conditions the castling walk maintains along its path.
pub open spec fn castle_walk_pre(
    state: Seq<i16>,
    pos: i16,
    dir: i16,
    current: i16,
    steps: int,
) -> bool {
    &&& dir == 1 || dir == -1
    &&& 1 <= steps <= 110
    &&& current as int == pos + dir * (steps - 1)
    &&& playable(current as int)
    &&& sq_row(current as int) == sq_row(pos as int)
    &&& forall|t: int|
        1 <= t < steps ==> state[pos + dir * t] == 1 && playable(#[trigger] (pos + dir * t))
}

proof fn lemma_castle_walk_makeable(
    state: Seq<i16>,
    pieces: Seq<PersistentPieceInfo>,
    pos: i16,
    team: i16,
    dir: i16,
    current: i16,
    steps: int,
    fuel: nat,
)
    requires
        crate::board::wf_position(state, pieces),
        gen_pre(state, pos, team, 5),
        castle_walk_pre(state, pos, dir, current, steps),
    ensures
        all_makeable(
            state,
            pieces,
            team,
            castle_walk(state, pieces, pos, team, dir, current, steps, fuel),
        ),
    decreases fuel,
{
    if fuel > 0 {
        let next = current + dir;
        if 0 <= next < 120 {
            if state[next] == 1 {
                assert(playable(next));
                lemma_row_step(current as int, dir as int);
                assert(next == pos + dir * steps) by (nonlinear_arith)
                    requires next == current + dir, current as int == pos + dir * (steps - 1);
                if !(steps <= 2 && attacked_by_opponent(state, pieces, team, next)) {
                    assert forall|t: int| 1 <= t < steps + 1 implies state[pos + dir * t] == 1
                        && playable(#[trigger] (pos + dir * t)) by {
                        if t == steps {
                            assert(pos + dir * t == next);
                        }
                    }
                    lemma_castle_walk_makeable(
                        state,
                        pieces,
                        pos,
                        team,
                        dir,
                        next as i16,
                        steps + 1,
                        (fuel - 1) as nat,
                    );
                }
            } else if state[next] >= 2 {
                if code_team(state[next] as int) == team && code_type(state[next] as int) == 3
                    && first_move_of(pieces, next as i16) && steps >= 3 {
                    assert(playable(next));
                    lemma_row_step(current as int, dir as int);
                    assert(next == pos + dir * steps) by (nonlinear_arith)
                        requires next == current + dir, current as int == pos + dir * (steps - 1);
                    assert(state[pos + dir * 1] == 1 && playable(pos + dir * 1));
                    assert(state[pos + dir * 2] == 1 && playable(pos + dir * 2));
                    assert(pos + dir * 1 == pos + dir) by (nonlinear_arith)
                        requires dir == 1 || dir == -1;
                    assert(pos + dir * 2 == pos + 2 * dir) by (nonlinear_arith)
                        requires dir == 1 || dir == -1;
                    let a = Action {
                        from: pos,
                        to: next as i16,
                        team,
                        piece_type: 5,
                        capture: true,
                        info: 1i16,
                    };
                    assert((if dir == 1 {
                        a.to - a.from >= 3
                    } else {
                        a.from - a.to >= 3
                    })) by (nonlinear_arith)
                        requires
                            a.to as int == pos + dir * steps,
                            a.from == pos,
                            steps >= 3,
                            dir == 1 || dir == -1;
                    assert(action_makeable(state, pieces, team, a));
                }
            }
        }
    }
}

/// Walks one castling direction, emitting the castle move it finds, if any.
fn castle_walk_exec(
    actions: &mut Vec<Action>,
    board: &Board,
    piece_info: &PieceGenInfo,
    dir: i16,
    current: i16,
    steps: i16,
    fuel: u8,
)
    requires
        board.wf(),
        gen_pre(board.state@, piece_info.pos, piece_info.team, piece_info.piece_type),
        piece_info.piece_type == 5,
        castle_walk_pre(board.state@, piece_info.pos, dir, current, steps as int),
    ensures
        final(actions)@ == old(actions)@ + castle_walk(
            board.state@,
            board.pieces@,
            piece_info.pos,
            piece_info.team,
            dir,
            current,
            steps as int,
            fuel as nat,
        ),
    decreases fuel,
{
    if fuel == 0 {
        return ;
    }
    let next = current + dir;
    if next < 0 || next >= 120 {
        return ;
    }
    let st = board.state[next as usize];
    if st == 0 {
        return ;
    }
    if st == 1 {
        if steps <= 2 && square_attacked_by_opponent(board, piece_info.team, next) {
            return ;
        }
        proof {
            assert(playable(next as int));
            lemma_row_step(current as int, dir as int);
            assert(next as int == piece_info.pos + dir * (steps as int)) by (nonlinear_arith)
                requires
                    next == current + dir,
                    current as int == piece_info.pos + dir * (steps as int - 1);
            assert forall|t: int| 1 <= t < steps as int + 1 implies board.state@[piece_info.pos
                + dir * t] == 1 && playable(#[trigger] (piece_info.pos + dir * t)) by {
                if t == steps as int {
                    assert(piece_info.pos + dir * t == next);
                }
            }
        }
        castle_walk_exec(actions, board, piece_info, dir, next, steps + 1, fuel - 1);
    } else {
        let t = board.get_team(st);
        if t == piece_info.team {
            let pt = board.get_piece_type(st, t);
            if pt == 3 && steps >= 3 {
                let idx_opt = find_piece_index(&board.pieces, next);
                proof {
                    assert(idx_opt is Some) by {
                        assert(board.state@[next as int] >= 2);
                    }
                    assert(exists|j: int|
                        0 <= j < board.pieces@.len() && (#[trigger] board.pieces@[j].pos) as int
                            == next as int);
                }
                let idx = idx_opt.unwrap();
                proof {
                    assert(idx as int == pos_index(board.pieces@, next as int));
                }
                if board.pieces[idx].first_move {
                    actions.push(
                        Action {
                            from: piece_info.pos,
                            to: next,
                            piece_type: 5,
                            team: piece_info.team,
                            capture: true,
                            info: 1,
                        },
                    );
                }
            }
        }
        proof {
            assert(final(actions)@ =~= old(actions)@ + castle_walk(
                board.state@,
                board.pieces@,
                piece_info.pos,
                piece_info.team,
                dir,
                current,
                steps as int,
                fuel as nat,
            ));
        }
    }
}

/// Appends the castling moves of the king described by `piece_info`.
pub fn get_actions_castling(actions: &mut Vec<Action>, board: &Board, piece_info: &PieceGenInfo)
    requires
        board.wf(),
        gen_pre(board.state@, piece_info.pos, piece_info.team, piece_info.piece_type),
        piece_info.piece_type == 5,
    ensures
        final(actions)@ == old(actions)@ + castle_actions(
            board.state@,
            board.pieces@,
            piece_info.pos,
            piece_info.team,
        ),
{
    if in_check(board, piece_info.team, board.row_gap) {
        return ;
    }
    let ki_opt = find_piece_index(&board.pieces, piece_info.pos);
    proof {
        assert(ki_opt is Some) by {
            assert(board.state@[piece_info.pos as int] >= 2);
        }
        assert(exists|j: int|
            0 <= j < board.pieces@.len() && (#[trigger] board.pieces@[j].pos) as int
                == piece_info.pos as int);
    }
    let ki = ki_opt.unwrap();
    proof {
        assert(ki as int == pos_index(board.pieces@, piece_info.pos as int));
    }
    if !board.pieces[ki].first_move {
        return ;
    }
    let ghost before = actions@;
    castle_walk_exec(actions, board, piece_info, 1, piece_info.pos, 1, 11);
    castle_walk_exec(actions, board, piece_info, -1, piece_info.pos, 1, 11);
    proof {
        assert(actions@ =~= before + castle_actions(
            board.state@,
            board.pieces@,
            piece_info.pos,
            piece_info.team,
        ));
    }
}

/// Appends all king moves: the eight steps, then castling.
pub fn add_king_actions(actions: &mut Vec<Action>, board: &Board, piece_info: &PieceGenInfo)
    requires
        board.wf(),
        gen_pre(board.state@, piece_info.pos, piece_info.team, piece_info.piece_type),
        piece_info.piece_type == 5,
    ensures
        final(actions)@ == old(actions)@ + king_moves(
            board.state@,
            board.pieces@,
            piece_info.pos,
            piece_info.team,
        ),
{
    let deltas = king_deltas_vec();
    add_actions_delta(actions, &deltas, board, piece_info);
    get_actions_castling(actions, board, piece_info);
    proof {
        assert(actions@ =~= old(actions)@ + king_moves(
            board.state@,
            board.pieces@,
            piece_info.pos,
            piece_info.team,
        ));
    }
}

proof fn lemma_castle_actions_makeable(
    state: Seq<i16>,
    pieces: Seq<PersistentPieceInfo>,
    pos: i16,
    team: i16,
)
    requires
        crate::board::wf_position(state, pieces),
        gen_pre(state, pos, team, 5),
    ensures
        all_makeable(state, pieces, team, castle_actions(state, pieces, pos, team)),
{
    if !(in_check_spec(state, pieces, team) || !first_move_of(pieces, pos)) {
        lemma_castle_walk_makeable(state, pieces, pos, team, 1, pos, 1, ray_fuel());
        lemma_castle_walk_makeable(state, pieces, pos, team, -1i16, pos, 1, ray_fuel());
        lemma_all_makeable_concat(
            state,
            pieces,
            team,
            castle_walk(state, pieces, pos, team, 1, pos, 1, ray_fuel()),
            castle_walk(state, pieces, pos, team, -1i16, pos, 1, ray_fuel()),
        );
    }
}

/// The moves of the piece of the given decoded type on `pos`.
pub open spec fn piece_actions(
    state: Seq<i16>,
    pieces: Seq<PersistentPieceInfo>,
    last: Option<Action>,
    pos: i16,
    team: i16,
    piece_type: int,
) -> Seq<Action> {
    if piece_type == 1 {
        knight_moves(state, pos, team)
    } else if piece_type == 2 {
        bishop_moves(state, pos, team)
    } else if piece_type == 3 {
        rook_moves(state, pos, team)
    } else if piece_type == 4 {
        queen_moves(state, pos, team)
    } else if piece_type == 5 {
        king_moves(state, pieces, pos, team)
    } else {
        pawn_actions(state, pieces, last, pos, team)
    }
}

proof fn lemma_piece_actions_makeable(
    state: Seq<i16>,
    pieces: Seq<PersistentPieceInfo>,
    last: Option<Action>,
    pos: i16,
    team: i16,
    piece_type: int,
)
    requires
        crate::board::wf_position(state, pieces),
        gen_pre(state, pos, team, piece_type as i16),
        0 <= piece_type <= 5,
    ensures
        all_makeable(
            state,
            pieces,
            team,
            piece_actions(state, pieces, last, pos, team, piece_type),
        ),
{
    if piece_type == 1 {
        lemma_delta_actions_makeable(state, pieces, pos, team, 1, knight_deltas());
    } else if piece_type == 2 {
        lemma_ray_actions_makeable(state, pieces, pos, team, 2, 11, pos, ray_fuel());
        lemma_ray_actions_makeable(state, pieces, pos, team, 2, 9, pos, ray_fuel());
        lemma_ray_actions_makeable(state, pieces, pos, team, 2, -9i16, pos, ray_fuel());
        lemma_ray_actions_makeable(state, pieces, pos, team, 2, -11i16, pos, ray_fuel());
        assert forall|i: int| 0 <= i < bishop_moves(state, pos, team).len() implies action_makeable(
            state,
            pieces,
            team,
            #[trigger] bishop_moves(state, pos, team)[i],
        ) by {
            let s1 = ray_actions(state, pos, team, 2, 11, pos, ray_fuel());
            let s2 = ray_actions(state, pos, team, 2, 9, pos, ray_fuel());
            let s3 = ray_actions(state, pos, team, 2, -9i16, pos, ray_fuel());
            let s4 = ray_actions(state, pos, team, 2, -11i16, pos, ray_fuel());
            lemma_all_makeable_concat(state, pieces, team, s1, s2);
            lemma_all_makeable_concat(state, pieces, team, s1 + s2, s3);
            lemma_all_makeable_concat(state, pieces, team, s1 + s2 + s3, s4);
        }
    } else if piece_type == 3 {
        lemma_ray_actions_makeable(state, pieces, pos, team, 3, 1, pos, ray_fuel());
        lemma_ray_actions_makeable(state, pieces, pos, team, 3, -1i16, pos, ray_fuel());
        lemma_ray_actions_makeable(state, pieces, pos, team, 3, 10, pos, ray_fuel());
        lemma_ray_actions_makeable(state, pieces, pos, team, 3, -10i16, pos, ray_fuel());
        assert forall|i: int| 0 <= i < rook_moves(state, pos, team).len() implies action_makeable(
            state,
            pieces,
            team,
            #[trigger] rook_moves(state, pos, team)[i],
        ) by {
            let s1 = ray_actions(state, pos, team, 3, 1, pos, ray_fuel());
            let s2 = ray_actions(state, pos, team, 3, -1i16, pos, ray_fuel());
            let s3 = ray_actions(state, pos, team, 3, 10, pos, ray_fuel());
            let s4 = ray_actions(state, pos, team, 3, -10i16, pos, ray_fuel());
            lemma_all_makeable_concat(state, pieces, team, s1, s2);
            lemma_all_makeable_concat(state, pieces, team, s1 + s2, s3);
            lemma_all_makeable_concat(state, pieces, team, s1 + s2 + s3, s4);
        }
    } else if piece_type == 4 {
        lemma_ray_actions_makeable(state, pieces, pos, team, 4, 1, pos, ray_fuel());
        lemma_ray_actions_makeable(state, pieces, pos, team, 4, -1i16, pos, ray_fuel());
        lemma_ray_actions_makeable(state, pieces, pos, team, 4, 10, pos, ray_fuel());
        lemma_ray_actions_makeable(state, pieces, pos, team, 4, -10i16, pos, ray_fuel());
        lemma_ray_actions_makeable(state, pieces, pos, team, 4, 11, pos, ray_fuel());
        lemma_ray_actions_makeable(state, pieces, pos, team, 4, 9, pos, ray_fuel());
        lemma_ray_actions_makeable(state, pieces, pos, team, 4, -9i16, pos, ray_fuel());
        lemma_ray_actions_makeable(state, pieces, pos, team, 4, -11i16, pos, ray_fuel());
        assert forall|i: int| 0 <= i < queen_moves(state, pos, team).len() implies action_makeable(
            state,
            pieces,
            team,
            #[trigger] queen_moves(state, pos, team)[i],
        ) by {
            let s1 = ray_actions(state, pos, team, 4, 1, pos, ray_fuel());
            let s2 = ray_actions(state, pos, team, 4, -1i16, pos, ray_fuel());
            let s3 = ray_actions(state, pos, team, 4, 10, pos, ray_fuel());
            let s4 = ray_actions(state, pos, team, 4, -10i16, pos, ray_fuel());
            let s5 = ray_actions(state, pos, team, 4, 11, pos, ray_fuel());
            let s6 = ray_actions(state, pos, team, 4, 9, pos, ray_fuel());
            let s7 = ray_actions(state, pos, team, 4, -9i16, pos, ray_fuel());
            let s8 = ray_actions(state, pos, team, 4, -11i16, pos, ray_fuel());
            lemma_all_makeable_concat(state, pieces, team, s1, s2);
            lemma_all_makeable_concat(state, pieces, team, s1 + s2, s3);
            lemma_all_makeable_concat(state, pieces, team, s1 + s2 + s3, s4);
            lemma_all_makeable_concat(state, pieces, team, s1 + s2 + s3 + s4, s5);
            lemma_all_makeable_concat(state, pieces, team, s1 + s2 + s3 + s4 + s5, s6);
            lemma_all_makeable_concat(state, pieces, team, s1 + s2 + s3 + s4 + s5 + s6, s7);
            lemma_all_makeable_concat(state, pieces, team, s1 + s2 + s3 + s4 + s5 + s6 + s7, s8);
        }
    } else if piece_type == 5 {
        lemma_delta_actions_makeable(state, pieces, pos, team, 5, king_deltas());
        lemma_castle_actions_makeable(state, pieces, pos, team);
        lemma_all_makeable_concat(
            state,
            pieces,
            team,
            king_step_moves(state, pos, team),
            castle_actions(state, pieces, pos, team),
        );
    } else {
        lemma_pawn_actions_makeable(state, pieces, last, pos, team);
    }
}

/// The pseudolegal moves of the first `n` piece records of `team`.
pub open spec fn gen_upto(
    state: Seq<i16>,
    pieces: Seq<PersistentPieceInfo>,
    last: Option<Action>,
    team: i16,
    n: int,
) -> Seq<Action>
    decreases n,
{
    if n <= 0 {
        seq![]
    } else {
        gen_upto(state, pieces, last, team, n - 1) + {
            let pos = pieces[n - 1].pos;
            let code = state[pos as int];
            if code_team(code as int) == team {
                piece_actions(state, pieces, last, pos, team, code_type(code as int))
            } else {
                seq![]
            }
        }
    }
}

/// All pseudolegal moves of `team`, walking the piece list in order.
pub open spec fn pseudolegal_moves(
    state: Seq<i16>,
    pieces: Seq<PersistentPieceInfo>,
    last: Option<Action>,
    team: i16,
) -> Seq<Action> {
    gen_upto(state, pieces, last, team, pieces.len() as int)
}

/// Generates the pseudolegal moves of `required_team`, in piece-list order.
pub fn generate_moves(board: &Board, required_team: i16) -> (actions: Vec<Action>)
    requires
        board.wf(),
        0 <= required_team <= 1,
    ensures
        actions@ == pseudolegal_moves(
            board.state@,
            board.pieces@,
            last_action(board.history@),
            required_team,
        ),
        all_makeable(board.state@, board.pieces@, required_team, actions@),
{
    let mut actions: Vec<Action> = Vec::new();
    let mut j: usize = 0;
    let ghost glast = last_action(board.history@);
    while j < board.pieces.len()
        invariant
            0 <= j <= board.pieces@.len(),
            board.wf(),
            0 <= required_team <= 1,
            glast == last_action(board.history@),
            actions@ == gen_upto(board.state@, board.pieces@, glast, required_team, j as int),
            all_makeable(board.state@, board.pieces@, required_team, actions@),
        decreases board.pieces@.len() - j,
    {
        let pos = board.pieces[j].pos;
        let code = board.state[pos as usize];
        let team = board.get_team(code);
        if team == required_team {
            let piece_type = board.get_piece_type(code, team);
            let pi = PieceGenInfo { pos, team, row_gap: board.row_gap, piece_type };
            let ghost seg = piece_actions(
                board.state@,
                board.pieces@,
                glast,
                pos,
                team,
                piece_type as int,
            );
            match piece_type {
                0 => add_pawn_actions(&mut actions, board, &pi),
                1 => add_knight_actions(&mut actions, board, &pi),
                2 => add_bishop_actions(&mut actions, board, &pi),
                3 => add_rook_actions(&mut actions, board, &pi),
                4 => add_queen_actions(&mut actions, board, &pi),
                5 => add_king_actions(&mut actions, board, &pi),
                _ => add_pawn_actions(&mut actions, board, &pi),
            }
            proof {
                lemma_piece_actions_makeable(
                    board.state@,
                    board.pieces@,
                    glast,
                    pos,
                    team,
                    piece_type as int,
                );
                assert(actions@ =~= gen_upto(
                    board.state@,
                    board.pieces@,
                    glast,
                    required_team,
                    j as int + 1,
                ));
                assert(all_makeable(board.state@, board.pieces@, required_team, actions@)) by {
                    lemma_all_makeable_concat(
                        board.state@,
                        board.pieces@,
                        required_team,
                        gen_upto(board.state@, board.pieces@, glast, required_team, j as int),
                        seg,
                    );
                }
            }
        } else {
            proof {
                assert(actions@ =~= gen_upto(
                    board.state@,
                    board.pieces@,
                    glast,
                    required_team,
                    j as int + 1,
                ));
            }
        }
        j = j + 1;
    }
    actions
}


/// The board is exactly as it was: same position, same side to move, same
/// history, same geometry.
pub open spec fn board_restored(pre: Board, post: Board) -> bool {
    &&& post.state@ == pre.state@
    &&& post.pieces@ == pre.pieces@
    &&& post.moving_team == pre.moving_team
    &&& post.history@ == pre.history@
    &&& post.piece_types == pre.piece_types
    &&& post.teams == pre.teams
    &&& post.rows == pre.rows
    &&& post.cols == pre.cols
    &&& post.buffer_amount == pre.buffer_amount
    &&& post.row_gap == pre.row_gap
    &&& post.col_gap == pre.col_gap
}

/// A pseudolegal move is legal when it does not take a king and, once made,
/// leaves the mover's own king unattacked.
pub open spec fn is_legal_spec(
    state: Seq<i16>,
    pieces: Seq<PersistentPieceInfo>,
    a: Action,
) -> bool {
    &&& !(a.capture && state[a.to as int] >= 2 && code_type(state[a.to as int] as int) == 5)
    &&& !in_check_spec(
        crate::board::apply_action_state(state, a),
        crate::board::apply_action_pieces(state, pieces, a),
        a.team,
    )
}

impl Board {
    /// Decides legality by making the move, asking whether the mover stands
    /// in check, and undoing the move; the board comes back unchanged.
    pub fn is_legal(&mut self, action: Action, required_team: i16) -> (r: bool)
        requires
            old(self).wf(),
            required_team == old(self).moving_team,
            action_makeable(old(self).state@, old(self).pieces@, old(self).moving_team, action),
        ensures
            final(self).wf(),
            board_restored(*old(self), *final(self)),
            r == is_legal_spec(old(self).state@, old(self).pieces@, action),
    {
        if action.capture {
            let target = self.state[action.to as usize];
            if target > 1 {
                let t = self.get_team(target);
                if self.get_piece_type(target, t) == 5 {
                    return false;
                }
            }
        }
        let ghost pre = *self;
        self.make_move(action);
        let ghost mid = *self;
        let can_add = !in_check(self, required_team, self.row_gap);
        self.undo_move();
        proof {
            crate::board::lemma_make_undo_identity(pre, mid, *self, action);
            assert(self.history@ =~= pre.history@);
        }
        can_add
    }

    /// The pseudolegal moves of the side to move.
    pub fn generate_moves(&mut self) -> (actions: Vec<Action>)
        requires
            old(self).wf(),
        ensures
            *final(self) == *old(self),
            actions@ == pseudolegal_moves(
                old(self).state@,
                old(self).pieces@,
                last_action(old(self).history@),
                old(self).moving_team,
            ),
            all_makeable(old(self).state@, old(self).pieces@, old(self).moving_team, actions@),
    {
        generate_moves(self, self.moving_team)
    }

    /// The legal moves of the side to move: the pseudolegal moves that do
    /// not take a king and leave the mover's king unattacked.
    pub fn generate_legal_moves(&mut self) -> (actions: Vec<Action>)
        requires
            old(self).wf(),
        ensures
            final(self).wf(),
            board_restored(*old(self), *final(self)),
            actions@ == pseudolegal_moves(
                old(self).state@,
                old(self).pieces@,
                last_action(old(self).history@),
                old(self).moving_team,
            ).filter(|m: Action| is_legal_spec(old(self).state@, old(self).pieces@, m)),
            all_makeable(old(self).state@, old(self).pieces@, old(self).moving_team, actions@),
    {
        let team = self.moving_team;
        generate_legal_moves(self, team)
    }
}

/// Filters the pseudolegal moves of `required_team` down to the legal ones.
pub fn generate_legal_moves(board: &mut Board, required_team: i16) -> (actions: Vec<Action>)
    requires
        old(board).wf(),
        required_team == old(board).moving_team,
    ensures
        final(board).wf(),
        board_restored(*old(board), *final(board)),
        actions@ == pseudolegal_moves(
            old(board).state@,
            old(board).pieces@,
            last_action(old(board).history@),
            required_team,
        ).filter(|m: Action| is_legal_spec(old(board).state@, old(board).pieces@, m)),
        all_makeable(old(board).state@, old(board).pieces@, required_team, actions@),
{
    let all = generate_moves(board, required_team);
    let ghost pre = *board;
    let ghost pred = |m: Action| is_legal_spec(pre.state@, pre.pieces@, m);
    let mut out: Vec<Action> = Vec::new();
    let mut i: usize = 0;
    while i < all.len()
        invariant
            0 <= i <= all@.len(),
            board.wf(),
            board_restored(pre, *board),
            pre.wf(),
            required_team == pre.moving_team,
            all_makeable(pre.state@, pre.pieces@, required_team, all@),
            out@ == all@.take(i as int).filter(pred),
            pred == (|m: Action| is_legal_spec(pre.state@, pre.pieces@, m)),
            all_makeable(pre.state@, pre.pieces@, required_team, out@),
        decreases all@.len() - i,
    {
        let a = all[i];
        proof {
            assert(action_makeable(pre.state@, pre.pieces@, required_team, all@[i as int]));
        }
        let legal = board.is_legal(a, required_team);
        if legal {
            let ghost before_push = out@;
            out.push(a);
            proof {
                assert forall|m: int| 0 <= m < out@.len() implies action_makeable(
                    pre.state@,
                    pre.pieces@,
                    required_team,
                    #[trigger] out@[m],
                ) by {
                    if m < before_push.len() {
                        assert(out@[m] == before_push[m]);
                    } else {
                        assert(out@[m] == all@[i as int]);
                    }
                }
            }
        }
        proof {
            reveal(Seq::filter);
            assert(all@.take(i as int + 1).drop_last() =~= all@.take(i as int));
            assert(all@.take(i as int + 1).last() == all@[i as int]);
            assert(out@ =~= all@.take(i as int + 1).filter(pred));
        }
        i = i + 1;
    }
    proof {
        assert(all@.take(all@.len() as int) =~= all@);
    }
    out
}

/// On positions where no pseudolegal move takes a king, the legal-move set
/// is exactly the set of pseudolegal moves whose making leaves the mover's
/// king unattacked.
pub proof fn lemma_legal_moves_are_king_safe_moves(
    state: Seq<i16>,
    pieces: Seq<PersistentPieceInfo>,
    last: Option<Action>,
    team: i16,
)
    requires
        forall|i: int|
            0 <= i < pseudolegal_moves(state, pieces, last, team).len() ==> !{
                let m = #[trigger] pseudolegal_moves(state, pieces, last, team)[i];
                m.capture && state[m.to as int] >= 2 && code_type(state[m.to as int] as int) == 5
            },
    ensures
        pseudolegal_moves(state, pieces, last, team).filter(
            (|m: Action| is_legal_spec(state, pieces, m)),
        ) == pseudolegal_moves(state, pieces, last, team).filter(
            (|m: Action|
                !in_check_spec(
                    crate::board::apply_action_state(state, m),
                    crate::board::apply_action_pieces(state, pieces, m),
                    m.team,
                )),
        ),
{
    lemma_filter_congruence(
        pseudolegal_moves(state, pieces, last, team),
        (|m: Action| is_legal_spec(state, pieces, m)),
        (|m: Action|
            !in_check_spec(
                crate::board::apply_action_state(state, m),
                crate::board::apply_action_pieces(state, pieces, m),
                m.team,
            )),
    );
}

/// A sequence none of whose elements satisfies the predicate filters to
/// nothing.
pub proof fn lemma_filter_all_false<A>(s: Seq<A>, p: spec_fn(A) -> bool)
    requires
        forall|i: int| 0 <= i < s.len() ==> !p(#[trigger] s[i]),
    ensures
        s.filter(p).len() == 0,
    decreases s.len(),
{
    reveal(Seq::filter);
    if s.len() > 0 {
        assert(forall|i: int| 0 <= i < s.drop_last().len() ==> s.drop_last()[i] == s[i]);
        lemma_filter_all_false(s.drop_last(), p);
    }
}

/// Two predicates that agree on the elements of a sequence filter it to the
/// same subsequence.
proof fn lemma_filter_congruence<A>(s: Seq<A>, p1: spec_fn(A) -> bool, p2: spec_fn(A) -> bool)
    requires
        forall|i: int| 0 <= i < s.len() ==> p1(#[trigger] s[i]) == p2(s[i]),
    ensures
        s.filter(p1) == s.filter(p2),
    decreases s.len(),
{
    reveal(Seq::filter);
    if s.len() > 0 {
        assert(forall|i: int| 0 <= i < s.drop_last().len() ==> s.drop_last()[i] == s[i]);
        lemma_filter_congruence(s.drop_last(), p1, p2);
        assert(p1(s.last()) == p2(s.last()));
    }
}

/// How a finished game ended, or that it is still running.
#[derive(Debug, PartialEq, Eq, Structural, Clone, Copy)]
pub enum GameResult {
    Win,
    Lose,
    Draw,
    Ongoing,
}

/// Terminal detection from a move list: no moves at all is mate when the
/// side to move stands in check, stalemate otherwise.
pub struct DefaultWinConditions;

impl DefaultWinConditions {
    pub fn compute(&self, board: &Board, actions: &Vec<Action>) -> (r: GameResult)
        requires
            board.wf(),
        ensures
            r == (if actions@.len() == 0 {
                if in_check_spec(board.state@, board.pieces@, board.moving_team) {
                    GameResult::Lose
                } else {
                    GameResult::Draw
                }
            } else {
                GameResult::Ongoing
            }),
    {
        if actions.len() == 0 {
            if in_check(board, board.moving_team, board.row_gap) {
                return GameResult::Lose;
            }
            return GameResult::Draw;
        }
        GameResult::Ongoing
    }
}

/// The default legality restriction: a move may not take a king and may not
/// leave the mover in check.
pub struct DefaultRestrictor;

impl DefaultRestrictor {
    pub fn can_add(&self, board: &mut Board, action: &Action, required_team: i16) -> (r: bool)
        requires
            old(board).wf(),
            required_team == old(board).moving_team,
            action_makeable(old(board).state@, old(board).pieces@, old(board).moving_team, *action),
        ensures
            final(board).wf(),
            board_restored(*old(board), *final(board)),
            r == is_legal_spec(old(board).state@, old(board).pieces@, *action),
    {
        board.is_legal(*action, required_team)
    }
}

} // verus!



