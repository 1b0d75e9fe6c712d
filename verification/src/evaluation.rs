//! Static evaluation: material count from the perspective of the side given,
//! anti-symmetric under swapping the perspective.
use vstd::prelude::*;

use crate::board::Board;
use crate::board::PersistentPieceInfo;
use crate::board::code_team;
use crate::board::code_type;

verus! {

/// Material value of a piece type, in tenths of centipawns.
pub open spec fn material_value(piece_type: int) -> int {
    if piece_type == 1 {
        3000
    } else if piece_type == 2 {
        3250
    } else if piece_type == 3 {
        5000
    } else if piece_type == 4 {
        9000
    } else if piece_type == 5 {
        1000
    } else {
        1000
    }
}

/// Material sum over the first `n` piece records, positive for pieces of
/// `pov_team` and negative for the others.
pub open spec fn eval_upto(
    state: Seq<i16>,
    pieces: Seq<PersistentPieceInfo>,
    pov_team: i16,
    n: int,
) -> int
    decreases n,
{
    if n <= 0 {
        0
    } else {
        eval_upto(state, pieces, pov_team, n - 1) + {
            let code = state[pieces[n - 1].pos as int] as int;
            let v = material_value(code_type(code));
            if code_team(code) == pov_team {
                v
            } else {
                -v
            }
        }
    }
}

/// The static score of the position seen by `pov_team`.
pub open spec fn eval_spec(state: Seq<i16>, pieces: Seq<PersistentPieceInfo>, pov_team: i16) -> int {
    eval_upto(state, pieces, pov_team, pieces.len() as int)
}

/// The material sum is bounded by the queen value per piece.
pub proof fn lemma_eval_upto_bounds(
    state: Seq<i16>,
    pieces: Seq<PersistentPieceInfo>,
    pov_team: i16,
    n: int,
)
    requires
        n >= 0,
    ensures
        -9000 * n <= eval_upto(state, pieces, pov_team, n) <= 9000 * n,
    decreases n,
{
    if n > 0 {
        lemma_eval_upto_bounds(state, pieces, pov_team, n - 1);
    }
}

/// Evaluation is anti-symmetric: the score seen by one side is the negation
/// of the score seen by the other.
pub proof fn lemma_eval_antisymmetric(
    state: Seq<i16>,
    pieces: Seq<PersistentPieceInfo>,
    pov_team: i16,
)
    requires
        crate::board::wf_position(state, pieces),
        pov_team == 0 || pov_team == 1,
    ensures
        eval_spec(state, pieces, pov_team) == -eval_spec(state, pieces, (1 - pov_team) as i16),
{
    lemma_eval_upto_antisymmetric(state, pieces, pov_team, pieces.len() as int);
}

proof fn lemma_eval_upto_antisymmetric(
    state: Seq<i16>,
    pieces: Seq<PersistentPieceInfo>,
    pov_team: i16,
    n: int,
)
    requires
        crate::board::wf_position(state, pieces),
        pov_team == 0 || pov_team == 1,
        n <= pieces.len(),
    ensures
        eval_upto(state, pieces, pov_team, n) == -eval_upto(state, pieces, (1 - pov_team) as i16, n),
    decreases n,
{
    if n > 0 {
        lemma_eval_upto_antisymmetric(state, pieces, pov_team, n - 1);
        let code = state[pieces[n - 1].pos as int] as int;
        assert(2 <= code <= 13);
        assert(code_team(code) == 0 || code_team(code) == 1);
    }
}

/// Material value of a piece type.
pub fn get_material_value(piece_type: i16) -> (r: i32)
    ensures
        r == material_value(piece_type as int),
{
    match piece_type {
        1 => 3000,
        2 => 3250,
        3 => 5000,
        4 => 9000,
        _ => 1000,
    }
}

/// Evaluates the position for `pov_team`: the material difference.
pub fn evaluate(board: &Board, pov_team: i16) -> (r: i32)
    requires
        board.wf(),
        0 <= pov_team <= 1,
    ensures
        r == eval_spec(board.state@, board.pieces@, pov_team),
        -576000 <= r <= 576000,
{
    let mut score: i32 = 0;
    let mut j: usize = 0;
    while j < board.pieces.len()
        invariant
            0 <= j <= board.pieces@.len(),
            board.wf(),
            0 <= pov_team <= 1,
            score == eval_upto(board.state@, board.pieces@, pov_team, j as int),
            -9000 * j <= score <= 9000 * j,
        decreases board.pieces@.len() - j,
    {
        let pos = board.pieces[j].pos;
        let code = board.state[pos as usize];
        let team = board.get_team(code);
        let piece_type = board.get_piece_type(code, team);
        let value = get_material_value(piece_type);
        if team == pov_team {
            score = score + value;
        } else {
            score = score - value;
        }
        j = j + 1;
    }
    proof {
        lemma_eval_upto_bounds(board.state@, board.pieces@, pov_team, board.pieces@.len() as int);
    }
    score
}

} // verus!
