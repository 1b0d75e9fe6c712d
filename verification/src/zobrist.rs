//! Zobrist hashing: a table of pseudo-random words drawn once per search
//! state, and a fold that fingerprints a position.
use vstd::prelude::*;

use crate::board::Board;
use crate::board::PersistentPieceInfo;
use crate::board::find_piece_index;
use crate::board::pos_index;

verus! {

/// Number of words the hasher needs: one per (square, code, first-move flag)
/// triple, with the side-to-move words sharing the table's low entries.
pub open spec fn zobrist_len() -> int {
    3360
}

/// Relies on rand's `SeedableRng::from_entropy`: builds an HC-128 generator
/// seeded from the platform entropy source. Nothing is promised of it.
#[verifier::external_body]
fn rng_from_entropy() -> rand_hc::Hc128Rng {
    <rand_hc::Hc128Rng as rand::SeedableRng>::from_entropy()
}

/// Relies on rand's `RngCore::next_u64`: one draw from the generator.
/// Nothing is promised of the value.
#[verifier::external_body]
fn rng_next_u64(rng: &mut rand_hc::Hc128Rng) -> u64 {
    rand::RngCore::next_u64(rng)
}

#[verifier::external_type_specification]
#[verifier::external_body]
pub struct ExHc128Rng(rand_hc::Hc128Rng);

/// Draws the table of random words the hasher folds over.
pub fn generate_zobrist(pieces: i16, teams: i16, positions: i16) -> (r: Vec<usize>)
    requires
        pieces == 6,
        teams == 2,
        positions == 120,
    ensures
        r@.len() == zobrist_len(),
{
    let mut rng = rng_from_entropy();
    let codes: i16 = (pieces * teams + 2) * 2;
    let len: usize = (codes * positions) as usize;
    let mut zobrist: Vec<usize> = Vec::new();
    let mut i: usize = 0;
    while i < len
        invariant
            len == 3360,
            0 <= i <= len,
            zobrist@.len() == i,
        decreases len - i,
    {
        let w = rng_next_u64(&mut rng);
        zobrist.push(#[verifier::truncate] (w as usize));
        i = i + 1;
    }
    zobrist
}

/// The table word for one square: indexed by the square, its code, and
/// whether the piece standing there still has its first move.
pub open spec fn square_word(
    state: Seq<i16>,
    pieces: Seq<PersistentPieceInfo>,
    zobrist: Seq<usize>,
    p: int,
) -> usize {
    let code = state[p] as int;
    let fm: int = if state[p] >= 2 && pieces[pos_index(pieces, p)].first_move {
        1
    } else {
        0
    };
    zobrist[p + 120 * fm + 240 * code]
}

/// XOR fold of the square words from square `p` on, starting from `acc`.
pub open spec fn hash_fold(
    state: Seq<i16>,
    pieces: Seq<PersistentPieceInfo>,
    zobrist: Seq<usize>,
    p: int,
    acc: usize,
) -> usize
    decreases 120 - p,
{
    if p < 0 || p >= 120 {
        acc
    } else if state[p] == 0 {
        hash_fold(state, pieces, zobrist, p + 1, acc)
    } else {
        hash_fold(state, pieces, zobrist, p + 1, acc ^ square_word(state, pieces, zobrist, p))
    }
}

/// The Zobrist key of a position: the side-to-move word, XOR the word of
/// every occupied or empty playable square.
pub open spec fn hash_spec(
    state: Seq<i16>,
    pieces: Seq<PersistentPieceInfo>,
    zobrist: Seq<usize>,
    moving_team: i16,
) -> usize {
    hash_fold(state, pieces, zobrist, 0, zobrist[moving_team as int])
}

/// Folds the position into its Zobrist key.
pub fn hash_board(board: &Board, moving_team: i16, zobrist: &Vec<usize>) -> (r: usize)
    requires
        board.wf(),
        0 <= moving_team <= 1,
        zobrist@.len() == zobrist_len(),
    ensures
        r == hash_spec(board.state@, board.pieces@, zobrist@, moving_team),
{
    let mut hash: usize = zobrist[moving_team as usize];
    let mut p: usize = 0;
    while p < 120
        invariant
            0 <= p <= 120,
            board.wf(),
            zobrist@.len() == zobrist_len(),
            0 <= moving_team <= 1,
            hash_fold(board.state@, board.pieces@, zobrist@, p as int, hash) == hash_spec(
                board.state@,
                board.pieces@,
                zobrist@,
                moving_team,
            ),
        decreases 120 - p,
    {
        let code = board.state[p];
        if code != 0 {
            let fm: usize = match find_piece_index(&board.pieces, p as i16) {
                Some(idx) => {
                    proof {
                        if board.state@[p as int] >= 2 {
                            assert(idx as int == pos_index(board.pieces@, p as int));
                        }
                    }
                    if board.pieces[idx].first_move {
                        1
                    } else {
                        0
                    }
                },
                None => 0,
            };
            proof {
                if board.state@[p as int] >= 2 {
                    assert(exists|j: int|
                        0 <= j < board.pieces@.len() && (#[trigger] board.pieces@[j].pos) as int
                            == p as int);
                }
                assert(0 <= code <= 13);
            }
            let idx: usize = p + 120 * fm + 240 * (code as usize);
            hash = hash ^ zobrist[idx];
        }
        p = p + 1;
    }
    hash
}

} // verus!
