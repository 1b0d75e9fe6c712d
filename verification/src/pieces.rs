//! The piece kinds as values: each holds its movement deltas or sliders and
//! forwards to the generators of the movegen module.
use vstd::prelude::*;

use crate::board::Action;
use crate::board::Board;
use crate::movegen::PieceGenInfo;
use crate::movegen::add_actions_delta;
use crate::movegen::add_pawn_actions;
use crate::movegen::bishop_sliders;
use crate::movegen::bishop_sliders_vec;
use crate::movegen::gen_pre;
use crate::movegen::king_deltas;
use crate::movegen::king_deltas_vec;
use crate::movegen::king_moves;
use crate::movegen::knight_deltas;
use crate::movegen::knight_deltas_vec;
use crate::movegen::knight_moves;
use crate::movegen::bishop_moves;
use crate::movegen::rook_moves;
use crate::movegen::queen_moves;
use crate::movegen::last_action;
use crate::movegen::pawn_actions;
use crate::movegen::queen_sliders;
use crate::movegen::queen_sliders_vec;
use crate::movegen::rook_sliders;
use crate::movegen::rook_sliders_vec;

verus! {

/// The pawn: forward pushes, diagonal captures, en passant, promotion.
pub struct PawnPiece;

impl PawnPiece {
    pub fn add_actions(&self, actions: &mut Vec<Action>, board: &Board, piece_info: &PieceGenInfo)
        requires
            board.wf(),
            gen_pre(board.state@, piece_info.pos, piece_info.team, piece_info.piece_type),
            piece_info.piece_type == 0,
        ensures
            final(actions)@ == old(actions)@ + pawn_actions(
                board.state@,
                board.pieces@,
                last_action(board.history@),
                piece_info.pos,
                piece_info.team,
            ),
    {
        add_pawn_actions(actions, board, piece_info);
    }

    pub fn get_material_value(&self) -> (r: i32)
        ensures
            r == crate::evaluation::material_value(0),
    {
        1000
    }
}

/// The knight: eight fixed jumps.
pub struct KnightPiece {
    pub deltas: Vec<i16>,
}

impl KnightPiece {
    pub fn new(row_gap: i16) -> (r: KnightPiece)
        requires
            row_gap == 10,
        ensures
            r.deltas@ == knight_deltas(),
    {
        KnightPiece { deltas: knight_deltas_vec() }
    }

    pub fn add_actions(&self, actions: &mut Vec<Action>, board: &Board, piece_info: &PieceGenInfo)
        requires
            self.deltas@ == knight_deltas(),
            board.wf(),
            gen_pre(board.state@, piece_info.pos, piece_info.team, piece_info.piece_type),
            piece_info.piece_type == 1,
        ensures
            final(actions)@ == old(actions)@ + knight_moves(
                board.state@,
                piece_info.pos,
                piece_info.team,
            ),
    {
        add_actions_delta(actions, &self.deltas, board, piece_info);
    }

    pub fn get_material_value(&self) -> (r: i32)
        ensures
            r == crate::evaluation::material_value(1),
    {
        3000
    }
}

/// The bishop: four diagonal sliders.
pub struct BishopPiece {
    pub sliders: Vec<i16>,
}

impl BishopPiece {
    pub fn new(row_gap: i16) -> (r: BishopPiece)
        requires
            row_gap == 10,
        ensures
            r.sliders@ == bishop_sliders(),
    {
        BishopPiece { sliders: bishop_sliders_vec() }
    }

    pub fn add_actions(&self, actions: &mut Vec<Action>, board: &Board, piece_info: &PieceGenInfo)
        requires
            board.wf(),
            gen_pre(board.state@, piece_info.pos, piece_info.team, piece_info.piece_type),
            piece_info.piece_type == 2,
        ensures
            final(actions)@ == old(actions)@ + bishop_moves(
                board.state@,
                piece_info.pos,
                piece_info.team,
            ),
    {
        crate::movegen::add_bishop_actions(actions, board, piece_info);
    }

    pub fn get_material_value(&self) -> (r: i32)
        ensures
            r == crate::evaluation::material_value(2),
    {
        3250
    }
}

/// The rook: four orthogonal sliders.
pub struct RookPiece {
    pub sliders: Vec<i16>,
}

impl RookPiece {
    pub fn new(row_gap: i16) -> (r: RookPiece)
        requires
            row_gap == 10,
        ensures
            r.sliders@ == rook_sliders(),
    {
        RookPiece { sliders: rook_sliders_vec() }
    }

    pub fn add_actions(&self, actions: &mut Vec<Action>, board: &Board, piece_info: &PieceGenInfo)
        requires
            board.wf(),
            gen_pre(board.state@, piece_info.pos, piece_info.team, piece_info.piece_type),
            piece_info.piece_type == 3,
        ensures
            final(actions)@ == old(actions)@ + rook_moves(
                board.state@,
                piece_info.pos,
                piece_info.team,
            ),
    {
        crate::movegen::add_rook_actions(actions, board, piece_info);
    }

    pub fn get_material_value(&self) -> (r: i32)
        ensures
            r == crate::evaluation::material_value(3),
    {
        5000
    }
}

/// The queen: all eight sliders.
pub struct QueenPiece {
    pub sliders: Vec<i16>,
}

impl QueenPiece {
    pub fn new(row_gap: i16) -> (r: QueenPiece)
        requires
            row_gap == 10,
        ensures
            r.sliders@ == queen_sliders(),
    {
        QueenPiece { sliders: queen_sliders_vec() }
    }

    pub fn add_actions(&self, actions: &mut Vec<Action>, board: &Board, piece_info: &PieceGenInfo)
        requires
            board.wf(),
            gen_pre(board.state@, piece_info.pos, piece_info.team, piece_info.piece_type),
            piece_info.piece_type == 4,
        ensures
            final(actions)@ == old(actions)@ + queen_moves(
                board.state@,
                piece_info.pos,
                piece_info.team,
            ),
    {
        crate::movegen::add_queen_actions(actions, board, piece_info);
    }

    pub fn get_material_value(&self) -> (r: i32)
        ensures
            r == crate::evaluation::material_value(4),
    {
        9000
    }
}

/// A fairy piece moving as queen and knight combined.
pub struct AmazonPiece {
    pub deltas: Vec<i16>,
    pub sliders: Vec<i16>,
}

impl AmazonPiece {
    pub fn new(row_gap: i16) -> (r: AmazonPiece)
        requires
            row_gap == 10,
        ensures
            r.deltas@ == knight_deltas(),
            r.sliders@ == queen_sliders(),
    {
        AmazonPiece { deltas: knight_deltas_vec(), sliders: queen_sliders_vec() }
    }

    pub fn get_material_value(&self) -> (r: i32)
        ensures
            r == 12000,
    {
        12000
    }
}

/// The king: eight steps and castling.
pub struct KingPiece {
    pub deltas: Vec<i16>,
    pub sliders: Vec<i16>,
}

impl KingPiece {
    pub fn new(row_gap: i16) -> (r: KingPiece)
        requires
            row_gap == 10,
        ensures
            r.deltas@ == king_deltas(),
            r.sliders@ == seq![1i16, -1i16],
    {
        let mut sliders: Vec<i16> = Vec::new();
        sliders.push(1);
        sliders.push(-1);
        proof {
            assert(sliders@ =~= seq![1i16, -1i16]);
        }
        KingPiece { deltas: king_deltas_vec(), sliders }
    }

    pub fn add_actions(&self, actions: &mut Vec<Action>, board: &Board, piece_info: &PieceGenInfo)
        requires
            board.wf(),
            gen_pre(board.state@, piece_info.pos, piece_info.team, piece_info.piece_type),
            piece_info.piece_type == 5,
        ensures
            final(actions)@ == old(actions)@ + king_moves(
                board.state@,
                board.pieces@,
                piece_info.pos,
                piece_info.team,
            ),
    {
        crate::movegen::add_king_actions(actions, board, piece_info);
    }

    pub fn get_material_value(&self) -> (r: i32)
        ensures
            r == crate::evaluation::material_value(5),
    {
        1000
    }
}

} // verus!
