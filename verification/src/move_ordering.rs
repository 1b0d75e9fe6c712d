//! Move-ordering heuristics: killer moves, history counters, counter moves,
//! static-exchange evaluation, and the sort keys built from them. The tables
//! are flat vectors indexed by explicit offsets.
use vstd::prelude::*;
use vstd::pervasive::VecAdditionalExecFns;

use crate::board::Action;
use crate::board::PersistentPieceInfo;
use crate::board::Board;
use crate::board::action_makeable;
use crate::board::code_team;
use crate::board::code_type;
use crate::board::playable;
use crate::evaluation::get_material_value;
use crate::evaluation::material_value;
use crate::movegen::board_restored;
use crate::movegen::piece_can_control;
use crate::search::SearchInfo;

verus! {

pub const MAX_KILLER_MOVES: usize = 2;

/// A counter move remembered for one parent move, with the depth it was
/// found at.
#[derive(Debug, PartialEq, Eq, Structural, Clone, Copy)]
pub struct CounterMovesInfo {
    pub depth: i16,
    pub action: Action,
}

/// Flat index of a (from, to) square pair.
pub open spec fn ft_index(from: int, to: int) -> int {
    from * 120 + to
}

/// Flat index of a history entry.
pub open spec fn history_index(team: int, from: int, to: int) -> int {
    team * 14400 + from * 120 + to
}

/// Flat index of a killer slot at a ply.
pub open spec fn killer_index(slot: int, ply: int) -> int {
    slot * 100 + ply
}

/// All fields of the search state except the counter-move table are as they
/// were.
pub open spec fn si_same_but_counters(pre: SearchInfo, post: SearchInfo) -> bool {
    &&& post.root_nodes == pre.root_nodes
    &&& post.quiescence_nodes == pre.quiescence_nodes
    &&& post.root_depth == pre.root_depth
    &&& post.time == pre.time
    &&& post.pv_table == pre.pv_table
    &&& post.transposition_table == pre.transposition_table
    &&& post.max_tt_size == pre.max_tt_size
    &&& post.killer_moves == pre.killer_moves
    &&& post.history_moves == pre.history_moves
    &&& post.sel_depth == pre.sel_depth
    &&& post.zobrist == pre.zobrist
}

/// All fields of the search state except the history table are as they
/// were.
pub open spec fn si_same_but_history(pre: SearchInfo, post: SearchInfo) -> bool {
    &&& post.root_nodes == pre.root_nodes
    &&& post.quiescence_nodes == pre.quiescence_nodes
    &&& post.root_depth == pre.root_depth
    &&& post.time == pre.time
    &&& post.pv_table == pre.pv_table
    &&& post.transposition_table == pre.transposition_table
    &&& post.max_tt_size == pre.max_tt_size
    &&& post.killer_moves == pre.killer_moves
    &&& post.counter_moves == pre.counter_moves
    &&& post.sel_depth == pre.sel_depth
    &&& post.zobrist == pre.zobrist
}

/// All fields of the search state except the killer table are as they were.
pub open spec fn si_same_but_killers(pre: SearchInfo, post: SearchInfo) -> bool {
    &&& post.root_nodes == pre.root_nodes
    &&& post.quiescence_nodes == pre.quiescence_nodes
    &&& post.root_depth == pre.root_depth
    &&& post.time == pre.time
    &&& post.pv_table == pre.pv_table
    &&& post.transposition_table == pre.transposition_table
    &&& post.max_tt_size == pre.max_tt_size
    &&& post.history_moves == pre.history_moves
    &&& post.counter_moves == pre.counter_moves
    &&& post.sel_depth == pre.sel_depth
    &&& post.zobrist == pre.zobrist
}

/// Remembers `action` as the refutation of `prev_action`, keeping the
/// deepest refutation found so far.
pub fn store_counter_move(
    search_info: &mut SearchInfo,
    prev_action: Action,
    action: Action,
    depth: i16,
)
    requires
        old(search_info).wf(),
        0 <= prev_action.from < 120,
        0 <= prev_action.to < 120,
    ensures
        final(search_info).wf(),
        si_same_but_counters(*old(search_info), *final(search_info)),
        ({
            let idx = ft_index(prev_action.from as int, prev_action.to as int);
            let prior = old(search_info).counter_moves@[idx];
            final(search_info).counter_moves@ == if (match prior {
                Some(cm) => cm.depth > depth,
                None => false,
            }) {
                old(search_info).counter_moves@
            } else {
                old(search_info).counter_moves@.update(
                    idx,
                    Some(CounterMovesInfo { depth, action }),
                )
            }
        }),
{
    let idx: usize = (prev_action.from as usize) * 120 + (prev_action.to as usize);
    if let Some(counter_move) = search_info.counter_moves[idx] {
        if counter_move.depth > depth {
            return ;
        }
    }
    search_info.counter_moves.set(idx, Some(CounterMovesInfo { depth, action }));
}

/// Whether `action` is the remembered refutation of `prev_action`.
pub fn is_counter_move(search_info: &SearchInfo, prev_action: &Action, action: &Action) -> (r:
    bool)
    requires
        search_info.wf(),
        0 <= prev_action.from < 120,
        0 <= prev_action.to < 120,
    ensures
        r == (match search_info.counter_moves@[ft_index(
            prev_action.from as int,
            prev_action.to as int,
        )] {
            Some(cm) => cm.action == *action,
            None => false,
        }),
{
    let idx: usize = (prev_action.from as usize) * 120 + (prev_action.to as usize);
    if let Some(counter_move) = search_info.counter_moves[idx] {
        counter_move.action == *action
    } else {
        false
    }
}

/// Adds the square of the depth to the move's history entry; when the entry
/// had reached the threshold, the whole table is halved first.
pub fn store_history_move(search_info: &mut SearchInfo, action: &Action, depth: i16)
    requires
        old(search_info).wf(),
        0 <= action.from < 120,
        0 <= action.to < 120,
        0 <= action.team <= 1,
        0 <= depth <= 30,
    ensures
        final(search_info).wf(),
        si_same_but_history(*old(search_info), *final(search_info)),
        ({
            let idx = history_index(action.team as int, action.from as int, action.to as int);
            let halve = old(search_info).history_moves@[idx] >= 500;
            forall|k: int|
                0 <= k < 28800 ==> #[trigger] final(search_info).history_moves@[k] == {
                    let base: int = if halve {
                        old(search_info).history_moves@[k] / 2
                    } else {
                        old(search_info).history_moves@[k] as int
                    };
                    if k == idx {
                        base + depth * depth
                    } else {
                        base
                    }
                }
        }),
{
    let idx: usize = (action.team as usize) * 14400 + (action.from as usize) * 120 + (
    action.to as usize);
    let ghost pre = search_info.history_moves@;
    if search_info.history_moves[idx] >= 500 {
        let mut k: usize = 0;
        while k < 28800
            invariant
                0 <= k <= 28800,
                0 <= depth <= 30,
                old(search_info).wf(),
                si_same_but_history(*old(search_info), *search_info),
                pre == old(search_info).history_moves@,
                idx as int == history_index(action.team as int, action.from as int, action.to as int),
                idx < 28800,
                search_info.history_moves@.len() == 28800,
                forall|m: int|
                    0 <= m < k ==> #[trigger] search_info.history_moves@[m] == pre[m] / 2,
                forall|m: int|
                    k <= m < 28800 ==> #[trigger] search_info.history_moves@[m] == pre[m],
                forall|m: int| 0 <= m < 28800 ==> 0 <= #[trigger] pre[m] <= 1800,
            decreases 28800 - k,
        {
            let v = search_info.history_moves[k];
            search_info.history_moves.set(k, v / 2);
            k = k + 1;
        }
    }
    let v = search_info.history_moves[idx];
    proof {
        assert(0 <= depth * depth <= 900) by (nonlinear_arith)
            requires 0 <= depth <= 30;
    }
    search_info.history_moves.set(idx, v + depth * depth);
}

/// The history score of a move.
pub fn get_history_move(search_info: &SearchInfo, action: &Action) -> (r: i16)
    requires
        search_info.wf(),
        0 <= action.from < 120,
        0 <= action.to < 120,
        0 <= action.team <= 1,
    ensures
        r == search_info.history_moves@[history_index(
            action.team as int,
            action.from as int,
            action.to as int,
        )],
{
    let idx: usize = (action.team as usize) * 14400 + (action.from as usize) * 120 + (
    action.to as usize);
    search_info.history_moves[idx]
}

/// Installs a beta-cutoff move as the first killer at its ply, shifting the
/// previous first killer down, unless it already is the first killer.
pub fn store_killer_move(search_info: &mut SearchInfo, action: &Action, ply: i16)
    requires
        old(search_info).wf(),
        0 <= ply < 100,
    ensures
        final(search_info).wf(),
        si_same_but_killers(*old(search_info), *final(search_info)),
        ({
            let k0 = killer_index(0, ply as int);
            let k1 = killer_index(1, ply as int);
            final(search_info).killer_moves@ == if old(search_info).killer_moves@[k0] == Some(
                *action,
            ) {
                old(search_info).killer_moves@
            } else {
                old(search_info).killer_moves@.update(
                    k1,
                    old(search_info).killer_moves@[k0],
                ).update(k0, Some(*action))
            }
        }),
{
    let ply = ply as usize;
    let first_killer = search_info.killer_moves[ply];
    let mut first_killer_exists = false;
    if let Some(first_killer) = first_killer {
        if first_killer == *action {
            first_killer_exists = true;
        }
    }
    if !first_killer_exists {
        let previous = search_info.killer_moves[ply];
        search_info.killer_moves.set(100 + ply, previous);
        search_info.killer_moves.set(ply, Some(*action));
    }
}


/// The position and material of the least-valued piece of `team` among the
/// first `n` records that attacks `square`, scanning in list order; -1 and a
/// sentinel material when none attacks it.
pub open spec fn least_attacker_upto(
    state: Seq<i16>,
    pieces: Seq<PersistentPieceInfo>,
    square: i16,
    team: i16,
    n: int,
) -> (int, int)
    decreases n,
{
    if n <= 0 {
        (-1int, 2_000_000_000int)
    } else {
        let r0 = least_attacker_upto(state, pieces, square, team, n - 1);
        let pos = pieces[n - 1].pos;
        let code = state[pos as int] as int;
        if code_team(code) == team && crate::movegen::piece_controls(
            state,
            pos,
            code_team(code),
            code_type(code),
            square as int,
        ) {
            if material_value(code_type(code)) < r0.1 {
                (pos as int, material_value(code_type(code)))
            } else {
                r0
            }
        } else {
            r0
        }
    }
}

/// The static-exchange value of taking the piece on `square`: zero when no
/// piece of `team` attacks it, else the victim's value less whatever the
/// other side recovers by continuing the exchange (never forced below
/// nothing). The capture is made by the given attacker, or by the
/// least-valued one. The index guard holds on any well-formed board, where
/// the attacker's and the victim's records always exist; it only keeps the
/// recursion total elsewhere.
pub open spec fn see_spec(
    state: Seq<i16>,
    pieces: Seq<PersistentPieceInfo>,
    square: i16,
    team: i16,
    attacker: Option<i16>,
) -> int
    decreases pieces.len(),
    via see_spec_decreases
{
    let la = least_attacker_upto(state, pieces, square, team, pieces.len() as int);
    if pieces.len() == 0 || la.0 < 0 {
        0
    } else {
        let att: i16 = match attacker {
            Some(a) => a,
            None => la.0 as i16,
        };
        let atype = code_type(state[att as int] as int);
        let a = Action {
            from: att,
            to: square,
            team,
            piece_type: atype as i16,
            capture: true,
            info: if atype == 0 {
                -1i16
            } else {
                0i16
            },
        };
        let fi = crate::board::pos_index(pieces, att as int);
        let ti = crate::board::pos_index(pieces, square as int);
        if 0 <= fi < pieces.len() && 0 <= ti < pieces.len() && fi != ti {
            let sub = see_spec(
                crate::board::apply_action_state(state, a),
                crate::board::apply_action_pieces(state, pieces, a),
                square,
                (1 - team) as i16,
                None,
            );
            material_value(code_type(state[square as int] as int)) - (if sub > 0 {
                sub
            } else {
                0
            })
        } else {
            0
        }
    }
}

#[via_fn]
proof fn see_spec_decreases(
    state: Seq<i16>,
    pieces: Seq<PersistentPieceInfo>,
    square: i16,
    team: i16,
    attacker: Option<i16>,
) {
    let la = least_attacker_upto(state, pieces, square, team, pieces.len() as int);
    if !(pieces.len() == 0 || la.0 < 0) {
        let att: i16 = match attacker {
            Some(a) => a,
            None => la.0 as i16,
        };
        let atype = code_type(state[att as int] as int);
        let a = Action {
            from: att,
            to: square,
            team,
            piece_type: atype as i16,
            capture: true,
            info: if atype == 0 {
                -1i16
            } else {
                0i16
            },
        };
        assert(!crate::board::is_castle(a));
        assert(!crate::board::is_en_passant(a));
        let fi = crate::board::pos_index(pieces, a.from as int);
        let ti = crate::board::pos_index(pieces, a.to as int);
        if 0 <= fi < pieces.len() && 0 <= ti < pieces.len() && fi != ti {
            let p1 = pieces.update(fi, PersistentPieceInfo { pos: a.to, first_move: false });
            assert(p1.len() == pieces.len());
            assert(crate::board::apply_action_pieces(state, pieces, a)
                == crate::board::swap_removed(p1, ti));
            assert(crate::board::apply_action_pieces(state, pieces, a).len() < pieces.len());
        }
    }
}

/// Recursive static-exchange evaluation of the piece standing on `square`:
/// the least-valued attacker of the side to move takes it, and the exchange
/// continues only while it pays. The board comes back unchanged.
pub fn see(board: &mut Board, square: i16, moving_team: i16, current_attacker: Option<i16>) -> (r:
    i32)
    requires
        old(board).wf(),
        0 <= moving_team <= 1,
        moving_team == old(board).moving_team,
        playable(square as int),
        old(board).state@[square as int] >= 2,
        code_team(old(board).state@[square as int] as int) != moving_team,
        (match current_attacker {
            Some(p) => playable(p as int) && old(board).state@[p as int] >= 2 && code_team(
                old(board).state@[p as int] as int,
            ) == moving_team,
            None => true,
        }),
    ensures
        final(board).wf(),
        board_restored(*old(board), *final(board)),
        -9000 <= r <= 9000,
        r == see_spec(
            old(board).state@,
            old(board).pieces@,
            square,
            moving_team,
            current_attacker,
        ),
    decreases old(board).pieces@.len(),
{
    let ghost pre = *board;
    let mut found = false;
    let mut best_pos: i16 = 0;
    let mut best_material: i32 = 2_000_000_000;
    let mut j: usize = 0;
    while j < board.pieces.len()
        invariant
            0 <= j <= board.pieces@.len(),
            board.wf(),
            *board == pre,
            0 <= moving_team <= 1,
            !found ==> best_material == 2_000_000_000,
            found ==> playable(best_pos as int) && pre.state@[best_pos as int] >= 2 && code_team(
                pre.state@[best_pos as int] as int,
            ) == moving_team,
            (if found {
                best_pos as int
            } else {
                -1int
            }, best_material as int) == least_attacker_upto(
                pre.state@,
                pre.pieces@,
                square,
                moving_team,
                j as int,
            ),
        decreases board.pieces@.len() - j,
    {
        let pos = board.pieces[j].pos;
        let code = board.state[pos as usize];
        let t = board.get_team(code);
        if t == moving_team {
            let pt = board.get_piece_type(code, t);
            if piece_can_control(board, pos, t, pt, square) {
                let m = get_material_value(pt);
                if m < best_material {
                    best_material = m;
                    best_pos = pos;
                    proof {
                        assert(board.pieces@[j as int].pos == pos);
                        assert(playable(pos as int));
                        assert(pre.state@[pos as int] >= 2);
                        assert(code_team(pre.state@[pos as int] as int) == moving_team);
                    }
                }
                found = true;
            }
        }
        j = j + 1;
    }
    let ghost la = least_attacker_upto(
        pre.state@,
        pre.pieces@,
        square,
        moving_team,
        pre.pieces@.len() as int,
    );
    if !found {
        return 0;
    }
    let attacker: i16 = match current_attacker {
        Some(a) => a,
        None => best_pos,
    };
    let attacker_info = board.get_piece_info(attacker);
    let victim_info = board.get_piece_info(square);
    let square_value = get_material_value(victim_info.piece_type);
    let action = Action {
        from: attacker,
        to: square,
        capture: true,
        piece_type: attacker_info.piece_type,
        team: moving_team,
        info: if attacker_info.piece_type == 0 {
            -1
        } else {
            0
        },
    };
    proof {
        assert(exists|j: int|
            0 <= j < pre.pieces@.len() && (#[trigger] pre.pieces@[j].pos) as int
                == attacker as int) by {
            assert(pre.state@[attacker as int] >= 2);
        }
        assert(exists|j: int|
            0 <= j < pre.pieces@.len() && (#[trigger] pre.pieces@[j].pos) as int
                == square as int) by {
            assert(pre.state@[square as int] >= 2);
        }
        let fi = crate::board::pos_index(pre.pieces@, attacker as int);
        let ti = crate::board::pos_index(pre.pieces@, square as int);
        assert(0 <= fi < pre.pieces@.len() && pre.pieces@[fi].pos == attacker);
        assert(0 <= ti < pre.pieces@.len() && pre.pieces@[ti].pos == square);
        assert(attacker != square);
        assert(fi != ti);
    }
    board.make_move(action);
    let ghost mid = *board;
    let next = board.moving_team;
    let sub = see(board, square, next, None);
    let gain = if sub > 0 {
        sub
    } else {
        0
    };
    let value = square_value - gain;
    board.undo_move();
    proof {
        crate::board::lemma_make_undo_identity(pre, mid, *board, action);
        assert(board.history@ =~= pre.history@);
        assert(mid.state@ == crate::board::apply_action_state(pre.state@, action));
        assert(mid.pieces@ == crate::board::apply_action_pieces(pre.state@, pre.pieces@, action));
        assert(value == see_spec(pre.state@, pre.pieces@, square, moving_team, current_attacker));
    }
    value
}

/// The material value of what stands on the action's target square/// The material value of what stands on the action's target square; an
/// empty target (en passant) counts as a pawn.
pub open spec fn victim_value_spec(state: Seq<i16>, a: Action) -> int {
    if state[a.to as int] >= 2 {
        material_value(code_type(state[a.to as int] as int))
    } else {
        1000
    }
}

/// The quiescence sort key: queen promotions first, winning captures by
/// victim-versus-attacker, losing captures by their exchange value, all
/// else zero.
pub fn weigh_qs_move(search_info: &SearchInfo, board: &mut Board, action: &Action) -> (r: i32)
    requires
        old(board).wf(),
        action_makeable(old(board).state@, old(board).pieces@, old(board).moving_team, *action),
    ensures
        final(board).wf(),
        board_restored(*old(board), *final(board)),
        ({
            let a = *action;
            let st = old(board).state@;
            let promo = a.piece_type == 0 && a.info >= 0;
            let victim = victim_value_spec(st, a);
            let attacker = material_value(a.piece_type as int);
            let exchange = see_spec(
                st,
                old(board).pieces@,
                a.to,
                old(board).moving_team,
                Some(a.from),
            );
            &&& (promo && a.info == 4 ==> r == 200_000)
            &&& (promo && a.info != 4 ==> r == -50_000)
            &&& (!promo && a.capture && !crate::board::is_en_passant(a) ==> -109_000 <= r
                <= 109_000 && (victim > attacker ==> r == 100_000 + victim - attacker / 100) && (
            victim <= attacker ==> r == (if exchange > 0 {
                100_000 + exchange
            } else {
                -100_000 + exchange
            })))
            &&& (!promo && !(a.capture && !crate::board::is_en_passant(a)) ==> r == 0)
        }),
{
    if action.piece_type == 0 && action.info >= 0 {
        if action.info != 4 {
            return -50_000;
        }
        return 200_000;
    }
    if action.capture && !(action.piece_type == 0 && action.info == -3) {
        let victim_code = board.state[action.to as usize];
        let victim_value = if victim_code > 1 {
            let vt = board.get_team(victim_code);
            get_material_value(board.get_piece_type(victim_code, vt))
        } else {
            1000
        };
        let attacker_value = get_material_value(action.piece_type);
        if victim_value > attacker_value {
            return 100_000 + (victim_value - (attacker_value / 100));
        }
        let team = board.moving_team;
        let exchange_eval = see(board, action.to, team, Some(action.from));
        if exchange_eval > 0 {
            100_000 + exchange_eval
        } else {
            -100_000 + exchange_eval
        }
    } else {
        0
    }
}

/// The main-search sort key: the transposition move first, then promotions,
/// captures, killers, counter moves, and history.
pub fn weigh_move(
    search_info: &SearchInfo,
    board: &mut Board,
    action: &Action,
    pv_move: &Option<Action>,
    previous_move: &Option<Action>,
    ply: i16,
) -> (r: i32)
    requires
        search_info.wf(),
        old(board).wf(),
        action_makeable(old(board).state@, old(board).pieces@, old(board).moving_team, *action),
        0 <= ply < 100,
        (match *previous_move {
            Some(p) => 0 <= p.from < 120 && 0 <= p.to < 120,
            None => true,
        }),
    ensures
        final(board).wf(),
        board_restored(*old(board), *final(board)),
        ({
            let a = *action;
            let st = old(board).state@;
            let is_pv = (match *pv_move {
                Some(m) => m == a,
                None => false,
            });
            let promo = a.piece_type == 0 && a.info >= 0;
            let victim = victim_value_spec(st, a);
            let attacker = material_value(a.piece_type as int);
            let k0 = search_info.killer_moves@[killer_index(0, ply as int)] == Some(a);
            let k1 = search_info.killer_moves@[killer_index(1, ply as int)] == Some(a);
            let counter = (match *previous_move {
                Some(p) => (match search_info.counter_moves@[ft_index(
                    p.from as int,
                    p.to as int,
                )] {
                    Some(cm) => cm.action == a,
                    None => false,
                }),
                None => false,
            });
            let exchange = see_spec(
                st,
                old(board).pieces@,
                a.to,
                old(board).moving_team,
                Some(a.from),
            );
            &&& (is_pv ==> r == 9_000_000)
            &&& (!is_pv && promo && a.info == 4 ==> r == 200_000)
            &&& (!is_pv && promo && a.info != 4 ==> r == -50_000)
            &&& (!is_pv && !promo && a.capture ==> -109_000 <= r <= 109_000 && (victim >= attacker
                ==> r == 100_000 + victim - attacker / 100) && (victim < attacker ==> r == (
            if exchange > 0 {
                100_000 + exchange
            } else {
                -100_000 + exchange
            })))
            &&& (!is_pv && !promo && !a.capture && k0 ==> r == 10_000)
            &&& (!is_pv && !promo && !a.capture && !k0 && k1 ==> r == 9_999)
            &&& (!is_pv && !promo && !a.capture && !k0 && !k1 && counter ==> r == 2_000)
            &&& (!is_pv && !promo && !a.capture && !k0 && !k1 && !counter ==> r
                == search_info.history_moves@[history_index(
                a.team as int,
                a.from as int,
                a.to as int,
            )])
        }),
{
    if let Some(pv) = pv_move {
        if *pv == *action {
            return 9_000_000;
        }
    }
    if action.piece_type == 0 && action.info >= 0 {
        if action.info != 4 {
            return -50_000;
        }
        return 200_000;
    }
    if action.capture {
        let victim_code = board.state[action.to as usize];
        let victim_value = if victim_code > 1 {
            let vt = board.get_team(victim_code);
            get_material_value(board.get_piece_type(victim_code, vt))
        } else {
            1000
        };
        let attacker_value = get_material_value(action.piece_type);
        if victim_value >= attacker_value {
            return 100_000 + (victim_value - (attacker_value / 100));
        }
        let team = board.moving_team;
        let exchange_eval = see(board, action.to, team, Some(action.from));
        if exchange_eval > 0 {
            return 100_000 + exchange_eval;
        }
        return -100_000 + exchange_eval;
    }
    let ply_us = ply as usize;
    let killer0 = search_info.killer_moves[ply_us];
    if let Some(k) = killer0 {
        if k == *action {
            return 10_000;
        }
    }
    let killer1 = search_info.killer_moves[100 + ply_us];
    if let Some(k) = killer1 {
        if k == *action {
            return 9_999;
        }
    }
    if let Some(prev) = previous_move {
        if is_counter_move(search_info, prev, action) {
            return 2_000;
        }
    }
    get_history_move(search_info, action) as i32
}

} // verus!


