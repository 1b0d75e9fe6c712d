//! The search state: principal-variation table, transposition table, killer,
//! history and counter-move tables, node counters and the Zobrist words.
use vstd::prelude::*;
use vstd::pervasive::VecAdditionalExecFns;

use crate::board::Action;
use crate::board::Board;
use crate::pv_table::PV;
use crate::zobrist::generate_zobrist;
use crate::zobrist::zobrist_len;

verus! {

pub const MIN_VALUE: i32 = -2_000_000_000;
pub const MAX_VALUE: i32 = 2_000_000_000;
pub const MAX_DEPTH: usize = 100;

/// One always-replace transposition slot: the full hash it was stored
/// under, the depth and score of that search, and its best move.
#[derive(Debug, PartialEq, Eq, Structural, Clone, Copy)]
pub struct TranspositionEntry {
    pub hash: usize,
    pub eval: i32,
    pub depth: i16,
    pub action: Option<Action>,
}

/// A move paired with its ordering score.
#[derive(Debug, PartialEq, Eq, Structural, Clone, Copy)]
pub struct ScoredAction {
    pub action: Action,
    pub score: i32,
}

/// One line of the iterative-deepening report: what the driver knows after
/// finishing one depth.
#[derive(Debug, Clone)]
pub struct SearchSummary {
    pub depth: i16,
    pub time: u128,
    pub score: i32,
    pub nodes: u128,
    pub nps: u128,
    pub sel_depth: i16,
    pub pv: Vec<Action>,
}

/// Everything one search invocation reads and writes besides the board.
pub struct SearchInfo {
    pub root_nodes: u128,
    pub quiescence_nodes: u128,
    pub root_depth: i16,
    pub time: u128,
    pub pv_table: PV,
    pub transposition_table: Vec<Option<TranspositionEntry>>,
    pub max_tt_size: usize,
    pub killer_moves: Vec<Option<Action>>,
    pub history_moves: Vec<i16>,
    pub counter_moves: Vec<Option<crate::move_ordering::CounterMovesInfo>>,
    pub sel_depth: i16,
    pub zobrist: Vec<usize>,
}

impl SearchInfo {
    /// Every table has its fixed size, and history entries stay within the
    /// band the halving rule keeps them in.
    pub open spec fn wf(&self) -> bool {
        &&& self.pv_table.wf()
        &&& self.transposition_table@.len() == self.max_tt_size
        &&& self.max_tt_size >= 1
        &&& self.killer_moves@.len() == 200
        &&& self.history_moves@.len() == 28800
        &&& forall|k: int| 0 <= k < 28800 ==> 0 <= #[trigger] self.history_moves@[k] <= 1800
        &&& self.counter_moves@.len() == 14400
        &&& self.zobrist@.len() == zobrist_len()
        &&& forall|k: int|
            0 <= k < self.transposition_table@.len() ==> (match #[trigger] self.transposition_table@[k] {
                Some(e) => MIN_VALUE <= e.eval <= MAX_VALUE,
                None => true,
            })
    }
}

/// Builds a fresh search state: empty tables and a newly drawn Zobrist
/// table.
pub fn create_info() -> (r: SearchInfo)
    ensures
        r.wf(),
        r.root_depth == 0,
        r.root_nodes == 0,
        r.quiescence_nodes == 0,
        r.time == 0,
        r.sel_depth == 0,
        r.max_tt_size == 9_000_000,
        forall|k: int| 0 <= k < 10000 ==> #[trigger] r.pv_table.table@[k] is None,
        forall|k: int| 0 <= k < 100 ==> #[trigger] r.pv_table.length@[k] == 0i16,
        forall|k: int| 0 <= k < 9_000_000 ==> #[trigger] r.transposition_table@[k] is None,
        forall|k: int| 0 <= k < 200 ==> #[trigger] r.killer_moves@[k] is None,
        forall|k: int| 0 <= k < 28800 ==> #[trigger] r.history_moves@[k] == 0i16,
        forall|k: int| 0 <= k < 14400 ==> #[trigger] r.counter_moves@[k] is None,
{
    let mut pv_table_vec: Vec<Option<Action>> = Vec::new();
    let mut i: usize = 0;
    while i < 10000
        invariant
            0 <= i <= 10000,
            pv_table_vec@.len() == i,
            forall|k: int| 0 <= k < i ==> #[trigger] pv_table_vec@[k] is None,
        decreases 10000 - i,
    {
        pv_table_vec.push(None);
        i = i + 1;
    }
    let mut pv_length: Vec<i16> = Vec::new();
    let mut i: usize = 0;
    while i < 100
        invariant
            0 <= i <= 100,
            pv_length@.len() == i,
            forall|k: int| 0 <= k < i ==> #[trigger] pv_length@[k] == 0i16,
        decreases 100 - i,
    {
        pv_length.push(0);
        i = i + 1;
    }
    let mut transposition_table: Vec<Option<TranspositionEntry>> = Vec::new();
    let mut i: usize = 0;
    while i < 9_000_000
        invariant
            0 <= i <= 9_000_000,
            transposition_table@.len() == i,
            forall|k: int| 0 <= k < i ==> #[trigger] transposition_table@[k] is None,
        decreases 9_000_000 - i,
    {
        transposition_table.push(None);
        i = i + 1;
    }
    let mut killer_moves: Vec<Option<Action>> = Vec::new();
    let mut i: usize = 0;
    while i < 200
        invariant
            0 <= i <= 200,
            killer_moves@.len() == i,
            forall|k: int| 0 <= k < i ==> #[trigger] killer_moves@[k] is None,
        decreases 200 - i,
    {
        killer_moves.push(None);
        i = i + 1;
    }
    let mut history_moves: Vec<i16> = Vec::new();
    let mut i: usize = 0;
    while i < 28800
        invariant
            0 <= i <= 28800,
            history_moves@.len() == i,
            forall|k: int| 0 <= k < i ==> #[trigger] history_moves@[k] == 0i16,
        decreases 28800 - i,
    {
        history_moves.push(0);
        i = i + 1;
    }
    let mut counter_moves: Vec<Option<crate::move_ordering::CounterMovesInfo>> = Vec::new();
    let mut i: usize = 0;
    while i < 14400
        invariant
            0 <= i <= 14400,
            counter_moves@.len() == i,
            forall|k: int| 0 <= k < i ==> #[trigger] counter_moves@[k] is None,
        decreases 14400 - i,
    {
        counter_moves.push(None);
        i = i + 1;
    }
    let zobrist = generate_zobrist(6, 2, 120);
    SearchInfo {
        root_nodes: 0,
        quiescence_nodes: 0,
        root_depth: 0,
        time: 0,
        pv_table: PV { table: pv_table_vec, length: pv_length },
        transposition_table,
        max_tt_size: 9_000_000,
        killer_moves,
        history_moves,
        counter_moves,
        sel_depth: 0,
        zobrist,
    }
}

/// Relies on std's `SystemTime`: the wall clock read as milliseconds since
/// the Unix epoch. The value depends on the clock, so nothing is promised
/// of it.
#[verifier::external_body]
pub fn get_epoch_ms() -> u128 {
    match std::time::SystemTime::now().duration_since(std::time::UNIX_EPOCH) {
        Ok(d) => d.as_millis(),
        Err(_) => 0,
    }
}


/// Swapping two neighbouring elements leaves a sequence's multiset alone.
proof fn lemma_swap_adjacent_to_multiset(s: Seq<ScoredAction>, k: int)
    requires
        1 <= k < s.len(),
    ensures
        s.update(k - 1, s[k]).update(k, s[k - 1]).to_multiset() =~= s.to_multiset(),
{
    let a = s.subrange(0, k - 1);
    let x = seq![s[k - 1]];
    let y = seq![s[k]];
    let b = s.subrange(k + 1, s.len() as int);
    let sw = s.update(k - 1, s[k]).update(k, s[k - 1]);
    assert(s =~= a + x + y + b);
    assert(sw =~= a + y + x + b);
    vstd::seq_lib::lemma_multiset_commutative(a + x + y, b);
    vstd::seq_lib::lemma_multiset_commutative(a + x, y);
    vstd::seq_lib::lemma_multiset_commutative(a, x);
    vstd::seq_lib::lemma_multiset_commutative(a + y + x, b);
    vstd::seq_lib::lemma_multiset_commutative(a + y, x);
    vstd::seq_lib::lemma_multiset_commutative(a, y);
}

/// Sorts scored moves into descending score order; the result is a
/// permutation of the input.
pub fn sort_scored(input: Vec<ScoredAction>) -> (r: Vec<ScoredAction>)
    ensures
        r@.len() == input@.len(),
        r@.to_multiset() == input@.to_multiset(),
        forall|m: int| 0 <= m < r@.len() ==> input@.contains(#[trigger] r@[m]),
        forall|a: int, b: int|
            0 <= a < b < r@.len() ==> (#[trigger] r@[a]).score >= (#[trigger] r@[b]).score,
{
    let mut v = input;
    let ghost orig = v@;
    proof {
        assert forall|m: int| 0 <= m < v@.len() implies orig.contains(#[trigger] v@[m]) by {
            assert(orig.contains(orig[m]));
        }
    }
    let mut i: usize = 1;
    while i < v.len()
        invariant
            1 <= i <= v@.len() || v@.len() == 0,
            v@.len() == orig.len(),
            v@.to_multiset() == orig.to_multiset(),
            forall|m: int| 0 <= m < v@.len() ==> orig.contains(#[trigger] v@[m]),
            forall|a: int, b: int|
                0 <= a < b < i ==> (#[trigger] v@[a]).score >= (#[trigger] v@[b]).score,
        decreases v@.len() - i,
    {
        let mut k: usize = i;
        while k > 0
            invariant
                0 <= k <= i < v@.len(),
                v@.len() == orig.len(),
                v@.to_multiset() == orig.to_multiset(),
                forall|m: int| 0 <= m < v@.len() ==> orig.contains(#[trigger] v@[m]),
                forall|a: int, b: int|
                    0 <= a < b <= i && a != k as int && b != k as int ==> (#[trigger] v@[a]).score
                        >= (#[trigger] v@[b]).score,
                forall|b: int|
                    (k as int) < b <= i ==> (v@[k as int]).score >= (#[trigger] v@[b]).score,
            decreases k,
        {
            if v[k - 1].score < v[k].score {
                let a = v[k - 1];
                let b = v[k];
                let ghost before_swap = v@;
                v.set(k - 1, b);
                v.set(k, a);
                proof {
                    assert(v@ =~= before_swap.update(k as int - 1, before_swap[k as int]).update(
                        k as int,
                        before_swap[k as int - 1],
                    ));
                    lemma_swap_adjacent_to_multiset(before_swap, k as int);
                    assert forall|m: int| 0 <= m < v@.len() implies orig.contains(
                        #[trigger] v@[m],
                    ) by {
                        let src: int = if m == k as int - 1 {
                            k as int
                        } else if m == k as int {
                            k as int - 1
                        } else {
                            m
                        };
                        assert(v@[m] == before_swap[src]);
                        assert(orig.contains(before_swap[src]));
                    }
                }
            }
            k = k - 1;
        }
        i = i + 1;
    }
    v
}

/// Quiescence search: extends the horizon over captures, promotions and
/// check evasions until the position is quiet. The result never falls below
/// the window's floor or the stand-pat evaluation; a stand-pat score at or
/// above beta and the delta-pruning bail-out are returned exactly. The
/// board comes back unchanged.
pub fn quiescence(
    search_info: &mut SearchInfo,
    board: &mut Board,
    alpha: i32,
    beta: i32,
    starting_team: i16,
    ply: i16,
) -> (r: i32)
    requires
        old(search_info).wf(),
        old(board).wf(),
        MIN_VALUE <= alpha < beta <= MAX_VALUE,
        0 <= ply <= 99,
        0 <= starting_team <= 1,
    ensures
        final(search_info).wf(),
        final(board).wf(),
        crate::movegen::board_restored(*old(board), *final(board)),
        MIN_VALUE <= r <= MAX_VALUE,
        final(search_info).pv_table == old(search_info).pv_table,
        final(search_info).max_tt_size == old(search_info).max_tt_size,
        r >= alpha,
        final(search_info).sel_depth >= old(search_info).sel_depth,
        r >= crate::evaluation::eval_spec(
            old(board).state@,
            old(board).pieces@,
            old(board).moving_team,
        ),
        r >= -576000,
        r <= alpha || r <= 576000,
        ({
            let sp = crate::evaluation::eval_spec(
                old(board).state@,
                old(board).pieces@,
                old(board).moving_team,
            );
            &&& (sp >= beta ==> r == sp)
            &&& (sp < beta && sp + 9000 < alpha ==> r == alpha)
        }),
    decreases 99 - ply, 0int, 0int,
{
    let mut alpha_m = alpha;
    let standing_pat = crate::evaluation::evaluate(board, board.moving_team);
    proof {
        crate::evaluation::lemma_eval_upto_bounds(
            board.state@,
            board.pieces@,
            board.moving_team,
            board.pieces@.len() as int,
        );
    }
    if standing_pat >= beta {
        return standing_pat;
    }
    if standing_pat + 9000 < alpha_m {
        return alpha_m;
    }
    if standing_pat > alpha_m {
        alpha_m = standing_pat;
    }
    if ply >= 99 {
        return alpha_m;
    }
    if search_info.sel_depth < ply {
        search_info.sel_depth = ply;
    }
    let ghost pre = *board;
    let ghost sp = crate::evaluation::eval_spec(pre.state@, pre.pieces@, pre.moving_team);
    let actions = board.generate_moves();
    let in_chk = crate::movegen::in_check(board, board.moving_team, board.row_gap);
    let mut kept: Vec<ScoredAction> = Vec::new();
    let mut i: usize = 0;
    while i < actions.len()
        invariant
            0 <= i <= actions@.len(),
            search_info.wf(),
            board.wf(),
            crate::movegen::board_restored(pre, *board),
            pre.wf(),
            search_info.max_tt_size == old(search_info).max_tt_size,
            search_info.pv_table == old(search_info).pv_table,
            search_info.sel_depth >= old(search_info).sel_depth,
            pre == *old(board),
            crate::movegen::all_makeable(pre.state@, pre.pieces@, pre.moving_team, actions@),
            forall|m: int|
                0 <= m < kept@.len() ==> actions@.contains((#[trigger] kept@[m]).action),
        decreases actions@.len() - i,
    {
        let action = actions[i];
        if action.capture || (action.piece_type == 0 && action.info >= 0) || in_chk {
            proof {
                assert(crate::board::action_makeable(
                    pre.state@,
                    pre.pieces@,
                    pre.moving_team,
                    actions@[i as int],
                ));
            }
            let score = crate::move_ordering::weigh_qs_move(search_info, board, &action);
            let ghost before_push = kept@;
            kept.push(ScoredAction { action, score });
            proof {
                assert forall|m: int| 0 <= m < kept@.len() implies actions@.contains(
                    (#[trigger] kept@[m]).action,
                ) by {
                    if m < before_push.len() {
                        assert(kept@[m] == before_push[m]);
                    } else {
                        assert(kept@[m].action == actions@[i as int]);
                        assert(actions@.contains(actions@[i as int]));
                    }
                }
            }
        }
        i = i + 1;
    }
    let sorted_actions = sort_scored(kept);
    proof {
        assert forall|m: int| 0 <= m < sorted_actions@.len() implies actions@.contains(
            (#[trigger] sorted_actions@[m]).action,
        ) by {
            assert(kept@.contains(sorted_actions@[m]));
            let j1 = choose|j1: int| 0 <= j1 < kept@.len() && kept@[j1] == sorted_actions@[m];
            assert(actions@.contains(kept@[j1].action));
        }
    }
    let mut k: usize = 0;
    while k < sorted_actions.len()
        invariant
            0 <= k <= sorted_actions@.len(),
            search_info.wf(),
            board.wf(),
            crate::movegen::board_restored(pre, *board),
            pre.wf(),
            search_info.max_tt_size == old(search_info).max_tt_size,
            search_info.pv_table == old(search_info).pv_table,
            search_info.sel_depth >= old(search_info).sel_depth,
            pre == *old(board),
            crate::movegen::all_makeable(pre.state@, pre.pieces@, pre.moving_team, actions@),
            forall|m: int|
                0 <= m < sorted_actions@.len() ==> actions@.contains(
                    (#[trigger] sorted_actions@[m]).action,
                ),
            MIN_VALUE <= alpha_m < beta <= MAX_VALUE,
            alpha_m >= alpha,
            alpha_m >= sp,
            alpha_m >= -576000,
            alpha_m <= alpha || alpha_m <= 576000,
            sp == crate::evaluation::eval_spec(pre.state@, pre.pieces@, pre.moving_team),
            -576000 <= sp <= 576000,
            sp < beta,
            sp + 9000 >= alpha,
            0 <= ply <= 98,
            0 <= starting_team <= 1,
        decreases sorted_actions@.len() - k,
    {
        let action = sorted_actions[k].action;
        proof {
            assert(actions@.contains(sorted_actions@[k as int].action));
            let j = choose|j: int| 0 <= j < actions@.len() && actions@[j] == action;
            assert(crate::board::action_makeable(
                pre.state@,
                pre.pieces@,
                pre.moving_team,
                actions@[j],
            ));
        }
        if search_info.quiescence_nodes < 340_282_366_920_938_463_463_374_607_431_768_211_455u128 {
            search_info.quiescence_nodes = search_info.quiescence_nodes + 1;
        }
        let team = board.moving_team;
        if board.is_legal(action, team) {
            let ghost before = *board;
            board.make_move(action);
            let ghost mid = *board;
            let sub = quiescence(search_info, board, 0 - beta, 0 - alpha_m, starting_team, ply + 1);
            proof {
                crate::evaluation::lemma_eval_upto_bounds(
                    mid.state@,
                    mid.pieces@,
                    mid.moving_team,
                    mid.pieces@.len() as int,
                );
            }
            let score = 0 - sub;
            board.undo_move();
            proof {
                crate::board::lemma_make_undo_identity(before, mid, *board, action);
                assert(board.history@ =~= before.history@);
            }
            if score > alpha_m {
                alpha_m = score;
                if score >= beta {
                    return alpha_m;
                }
            }
        }
        k = k + 1;
    }
    alpha_m
}

/// Rows of the PV table below `ply` are as they were.
pub open spec fn pv_rows_below(pre: SearchInfo, cur: SearchInfo, ply: int) -> bool {
    forall|k: int|
        0 <= k < ply * 100 ==> #[trigger] cur.pv_table.table@[k] == pre.pv_table.table@[k]
}

/// The head of the principal variation either is what it was, or holds a
/// legal move of the given position.
pub open spec fn pv0_claim(pre: SearchInfo, cur: SearchInfo, b: Board) -> bool {
    ||| cur.pv_table.table@[0] == pre.pv_table.table@[0]
    ||| (match cur.pv_table.table@[0] {
        Some(m) => crate::movegen::pseudolegal_moves(
            b.state@,
            b.pieces@,
            crate::movegen::last_action(b.history@),
            b.moving_team,
        ).contains(m) && crate::movegen::is_legal_spec(b.state@, b.pieces@, m)
            && crate::board::action_makeable(b.state@, b.pieces@, b.moving_team, m),
        None => false,
    })
}

/// The legal moves of the position a board holds.
pub open spec fn node_legal_moves(b: Board) -> Seq<Action> {
    crate::communication::legal_moves_spec(
        b.state@,
        b.pieces@,
        crate::movegen::last_action(b.history@),
        b.moving_team,
    )
}

/// The score of a position with no legal move: a mate score for the side to
/// move when it stands in check, a draw otherwise.
pub open spec fn terminal_result(b: Board, ply: i16) -> int {
    if crate::movegen::in_check_spec(b.state@, b.pieces@, b.moving_team) {
        MIN_VALUE + ply
    } else {
        0
    }
}

/// The node's transposition slot holds a just-stored score: the full hash,
/// the returned score and the searched depth, whatever best move came with
/// them.
pub open spec fn stored_score(
    pre_b: Board,
    pre_si: SearchInfo,
    post_si: SearchInfo,
    r: i32,
    depth: i16,
) -> bool {
    let full = crate::zobrist::hash_spec(
        pre_b.state@,
        pre_b.pieces@,
        pre_si.zobrist@,
        pre_b.moving_team,
    );
    let idx = (full as int) % (pre_si.max_tt_size as int);
    match post_si.transposition_table@[idx] {
        Some(e) => e.hash == full && e.eval == r && e.depth == depth,
        None => false,
    }
}

/// The node's transposition slot holds a just-stored entry: the full hash,
/// the returned score, the searched depth, and the given best move.
pub open spec fn stored_entry(
    pre_b: Board,
    pre_si: SearchInfo,
    post_si: SearchInfo,
    r: i32,
    depth: i16,
    best: Option<Action>,
) -> bool {
    let full = crate::zobrist::hash_spec(
        pre_b.state@,
        pre_b.pieces@,
        pre_si.zobrist@,
        pre_b.moving_team,
    );
    let idx = (full as int) % (pre_si.max_tt_size as int);
    match post_si.transposition_table@[idx] {
        Some(e) => e.hash == full && e.eval == r && e.depth == depth && e.action == best,
        None => false,
    }
}

/// When a move list is a permutation of the scored pseudolegal moves and no
/// entry of it is legal, the position has no legal move.
proof fn lemma_all_illegal(
    actions: Seq<Action>,
    scored: Seq<ScoredAction>,
    sorted: Seq<ScoredAction>,
    lpred: spec_fn(Action) -> bool,
)
    requires
        scored.len() == actions.len(),
        forall|m: int| 0 <= m < actions.len() ==> (#[trigger] scored[m]).action == actions[m],
        sorted.to_multiset() == scored.to_multiset(),
        forall|m: int| 0 <= m < sorted.len() ==> !lpred((#[trigger] sorted[m]).action),
    ensures
        actions.filter(lpred).len() == 0,
{
    scored.to_multiset_ensures();
    sorted.to_multiset_ensures();
    assert forall|j: int| 0 <= j < actions.len() implies !lpred(#[trigger] actions[j]) by {
        assert(scored.contains(scored[j]));
        assert(scored.to_multiset().count(scored[j]) > 0);
        assert(sorted.to_multiset().count(scored[j]) > 0);
        assert(sorted.contains(scored[j]));
        let m = choose|m: int| 0 <= m < sorted.len() && sorted[m] == scored[j];
        assert(!lpred(sorted[m].action));
        assert(scored[j].action == actions[j]);
    }
    crate::movegen::lemma_filter_all_false(actions, lpred);
}

/// Makes one legal move and searches the resulting position: a zero-window
/// scout at a possibly reduced depth once a best line exists, re-searched
/// with the full window when it beats alpha. The board comes back
/// unchanged.
fn search_move(
    search_info: &mut SearchInfo,
    board: &mut Board,
    action: Action,
    alpha_m: i32,
    beta: i32,
    depth: i16,
    ply: i16,
    starting_team: i16,
    found_pv_node: bool,
) -> (score: i32)
    requires
        old(search_info).wf(),
        old(board).wf(),
        crate::board::action_makeable(
            old(board).state@,
            old(board).pieces@,
            old(board).moving_team,
            action,
        ),
        MIN_VALUE <= alpha_m < beta <= MAX_VALUE,
        1 <= depth <= 30,
        0 <= ply <= 98,
        0 <= starting_team <= 1,
    ensures
        final(search_info).wf(),
        final(board).wf(),
        crate::movegen::board_restored(*old(board), *final(board)),
        MIN_VALUE + 1 <= score <= MAX_VALUE - 1,
        final(search_info).max_tt_size == old(search_info).max_tt_size,
        pv_rows_below(*old(search_info), *final(search_info), ply as int + 1),
    decreases 99 - ply, 0int, 0int,
{
    let ghost pre = *board;
    board.make_move(action);
    let ghost mid = *board;
    let score: i32;
    if found_pv_node {
        let chk_after = crate::movegen::in_check(board, board.moving_team, board.row_gap);
        let is_quiet = !action.capture && !chk_after;
        let mut working_depth: i16 = if !is_quiet || depth <= 2 {
            depth - 1
        } else {
            depth - 2
        };
        let static_eval = crate::evaluation::evaluate(board, board.moving_team);
        let fp_margin = (working_depth as i32) * 1000 + 1000;
        if is_quiet && working_depth < 4 && static_eval + fp_margin <= alpha_m {
            working_depth = 0;
        }
        if working_depth <= 0 {
            working_depth = 0;
        }
        let eval0 = search(
            search_info,
            board,
            0 - alpha_m - 1,
            0 - alpha_m,
            working_depth,
            ply + 1,
            starting_team,
            Some(action),
            false,
        );
        let eval = 0 - eval0;
        if eval > alpha_m && eval < beta {
            let re0 = search(
                search_info,
                board,
                0 - beta,
                0 - alpha_m,
                depth - 1,
                ply + 1,
                starting_team,
                Some(action),
                true,
            );
            score = 0 - re0;
        } else {
            score = eval;
        }
    } else {
        let f0 = search(
            search_info,
            board,
            0 - beta,
            0 - alpha_m,
            depth - 1,
            ply + 1,
            starting_team,
            Some(action),
            true,
        );
        score = 0 - f0;
    }
    board.undo_move();
    proof {
        crate::board::lemma_make_undo_identity(pre, mid, *board, action);
        assert(board.history@ =~= pre.history@);
    }
    score
}

/// One negamax node: transposition probe, terminal detection, null-move and
/// futility pruning, ordered move loop with principal-variation search, and
/// a transposition store. The board comes back unchanged; whatever ends up
/// at the head of the principal variation is a legal root move, and a root
/// with any legal move fills that head. On a principal-variation node the
/// transposition slot ends up holding this node's hash, score and depth; a
/// position without a legal move scores as mate or stalemate and is stored.
#[verifier::rlimit(100)]
pub fn search(
    search_info: &mut SearchInfo,
    board: &mut Board,
    alpha: i32,
    beta: i32,
    depth: i16,
    ply: i16,
    starting_team: i16,
    previous_move: Option<Action>,
    is_pv_node: bool,
) -> (r: i32)
    requires
        old(search_info).wf(),
        old(board).wf(),
        MIN_VALUE <= alpha < beta <= MAX_VALUE,
        0 <= depth <= 30,
        0 <= ply <= 99,
        0 <= starting_team <= 1,
        (match previous_move {
            Some(p) => 0 <= p.from < 120 && 0 <= p.to < 120,
            None => true,
        }),
    ensures
        final(search_info).wf(),
        final(board).wf(),
        crate::movegen::board_restored(*old(board), *final(board)),
        MIN_VALUE <= r <= MAX_VALUE,
        final(search_info).max_tt_size == old(search_info).max_tt_size,
        pv_rows_below(*old(search_info), *final(search_info), ply as int),
        ply == 0 ==> pv0_claim(*old(search_info), *final(search_info), *old(board)),
        ply >= 1 ==> MIN_VALUE + 1 <= r <= MAX_VALUE - 1,
        is_pv_node && depth >= 1 && ply <= 98 && node_legal_moves(*old(board)).len() == 0 ==> r
            == terminal_result(*old(board), ply) && stored_entry(
            *old(board),
            *old(search_info),
            *final(search_info),
            r,
            depth,
            None,
        ),
        ply == 0 && is_pv_node && alpha == MIN_VALUE && depth >= 1 && node_legal_moves(
            *old(board),
        ).len() > 0 ==> final(search_info).pv_table.table@[0] is Some,
        is_pv_node && depth >= 1 && ply <= 98 ==> stored_score(
            *old(board),
            *old(search_info),
            *final(search_info),
            r,
            depth,
        ),
    decreases 99 - ply, 1int, depth,
{
    search_info.pv_table.init_pv(ply);
    if depth == 0 || ply >= 99 {
        return quiescence(search_info, board, alpha, beta, starting_team, ply);
    }
    let ghost pre = *board;
    let ghost pre_si_entry = *search_info;

    let full_hash = crate::zobrist::hash_board(board, board.moving_team, &search_info.zobrist);
    let hash = full_hash % search_info.max_tt_size;
    let mut pv_move: Option<Action> = None;
    let entry_opt = search_info.transposition_table[hash];
    if let Some(entry) = entry_opt {
        if entry.hash == full_hash {
            pv_move = entry.action;
            if entry.depth >= depth && !is_pv_node && ply >= 1 && -1_900_000_000 < entry.eval
                && entry.eval < 1_900_000_000 {
                let idx = (ply as usize) * 100 + (ply as usize);
                search_info.pv_table.table.set(idx, entry.action);
                proof {
                    assert((ply as int * 100 + ply as int) / 100 == ply as int)
                        by (nonlinear_arith)
                        requires 1 <= ply <= 99;
                    assert forall|k: int| 0 <= k < ply as int * 100 implies #[trigger] search_info.pv_table.table@[k]
                        == old(search_info).pv_table.table@[k] by {
                        assert(k != ply as int * 100 + ply as int) by (nonlinear_arith)
                            requires 0 <= k < ply as int * 100, 0 <= ply;
                    }
                }
                return entry.eval;
            }
        }
    }
    if is_pv_node && pv_move.is_none() && depth >= 4 {
        search(
            search_info,
            board,
            alpha,
            beta,
            depth - 2,
            ply,
            starting_team,
            previous_move,
            true,
        );
        pv_move = search_info.pv_table.table[(ply as usize) * 100 + (ply as usize)];
    }
    let actions = board.generate_moves();
    let ghost lpred = (|m: Action| crate::movegen::is_legal_spec(pre.state@, pre.pieces@, m));
    let ghost legal_seq = crate::communication::legal_moves_spec(
        pre.state@,
        pre.pieces@,
        crate::movegen::last_action(pre.history@),
        pre.moving_team,
    );
    proof {
        assert(legal_seq == actions@.filter(lpred));
        assert(legal_seq == node_legal_moves(pre));
    }
    let win_conditions = crate::movegen::DefaultWinConditions;
    match win_conditions.compute(board, &actions) {
        crate::movegen::GameResult::Win => {
            return MAX_VALUE - (ply as i32);
        },
        crate::movegen::GameResult::Lose => {
            let terminal_score: i32 = MIN_VALUE + (ply as i32);
            search_info.transposition_table.set(
                hash,
                Some(
                    TranspositionEntry {
                        hash: full_hash,
                        eval: terminal_score,
                        depth,
                        action: None,
                    },
                ),
            );
            proof {
                reveal(Seq::filter);
            }
            return terminal_score;
        },
        crate::movegen::GameResult::Draw => {
            search_info.transposition_table.set(
                hash,
                Some(TranspositionEntry { hash: full_hash, eval: 0, depth, action: None }),
            );
            proof {
                reveal(Seq::filter);
            }
            return 0;
        },
        crate::movegen::GameResult::Ongoing => {},
    }
    let in_chk = crate::movegen::in_check(board, board.moving_team, board.row_gap);
    if !is_pv_node && !in_chk {
        let static_eval = crate::evaluation::evaluate(board, board.moving_team);
        if depth <= 5 && static_eval - 150 * (depth as i32) >= beta {
            return static_eval;
        }
        if depth >= 3 {
            let reduction = 2 + depth / 3;
            let mut working_depth = depth - reduction;
            if working_depth < 0 {
                working_depth = 0;
            }
            board.moving_team = board.next_team();
            let eval0 = search(
                search_info,
                board,
                0 - beta,
                0 - beta + 1,
                working_depth,
                ply + 1,
                starting_team,
                None,
                true,
            );
            let eval = 0 - eval0;
            board.moving_team = board.previous_team();
            if eval >= beta {
                return eval;
            }
        }
    }
    let mut scored: Vec<ScoredAction> = Vec::new();
    let mut i: usize = 0;
    while i < actions.len()
        invariant
            0 <= i <= actions@.len(),
            search_info.wf(),
            board.wf(),
            crate::movegen::board_restored(pre, *board),
            pre == *old(board),
            pre.wf(),
            search_info.max_tt_size == pre_si_entry.max_tt_size,
            0 <= ply <= 98,
            (match previous_move {
                Some(p) => 0 <= p.from < 120 && 0 <= p.to < 120,
                None => true,
            }),
            crate::movegen::all_makeable(pre.state@, pre.pieces@, pre.moving_team, actions@),
            scored@.len() == i,
            forall|m: int| 0 <= m < i ==> (#[trigger] scored@[m]).action == actions@[m],
            forall|m: int|
                0 <= m < scored@.len() ==> actions@.contains((#[trigger] scored@[m]).action),
            pv_rows_below(pre_si_entry, *search_info, ply as int),
            ply == 0 ==> pv0_claim(pre_si_entry, *search_info, pre),
        decreases actions@.len() - i,
    {
        let action = actions[i];
        proof {
            assert(crate::board::action_makeable(
                pre.state@,
                pre.pieces@,
                pre.moving_team,
                actions@[i as int],
            ));
        }
        let score = crate::move_ordering::weigh_move(
            search_info,
            board,
            &action,
            &pv_move,
            &previous_move,
            ply,
        );
        let ghost before_push = scored@;
        scored.push(ScoredAction { action, score });
        proof {
            assert forall|m: int| 0 <= m < scored@.len() implies actions@.contains(
                (#[trigger] scored@[m]).action,
            ) by {
                if m < before_push.len() {
                    assert(scored@[m] == before_push[m]);
                } else {
                    assert(scored@[m].action == actions@[i as int]);
                    assert(actions@.contains(actions@[i as int]));
                }
            }
        }
        i = i + 1;
    }
    let sorted_actions = sort_scored(scored);
    proof {
        assert forall|m: int| 0 <= m < sorted_actions@.len() implies actions@.contains(
            (#[trigger] sorted_actions@[m]).action,
        ) by {
            assert(scored@.contains(sorted_actions@[m]));
            let j1 = choose|j1: int| 0 <= j1 < scored@.len() && scored@[j1] == sorted_actions@[m];
            assert(actions@.contains(scored@[j1].action));
        }
    }
    let mut alpha_m = alpha;
    let mut best_move: Option<Action> = None;
    let mut found_pv_node = false;
    let mut legal_count: usize = 0;
    let mut k: usize = 0;
    while k < sorted_actions.len()
        invariant_except_break
            MIN_VALUE <= alpha_m < beta <= MAX_VALUE,
        invariant
            0 <= k <= sorted_actions@.len(),
            alpha <= alpha_m <= MAX_VALUE - 1,
            MIN_VALUE <= alpha < beta <= MAX_VALUE,
            alpha_m == alpha || best_move is Some,
            legal_count > 0 ==> alpha_m >= MIN_VALUE + 1 && legal_seq.len() > 0,
            legal_count == 0 ==> alpha_m == alpha && best_move is None,
            ply == 0 ==> (best_move is Some ==> search_info.pv_table.table@[0] is Some),
            lpred == (|m: Action| crate::movegen::is_legal_spec(pre.state@, pre.pieces@, m)),
            legal_seq == actions@.filter(lpred),
            sorted_actions@.to_multiset() == scored@.to_multiset(),
            scored@.len() == actions@.len(),
            forall|m: int| 0 <= m < actions@.len() ==> (#[trigger] scored@[m]).action == actions@[m],
            search_info.wf(),
            board.wf(),
            crate::movegen::board_restored(pre, *board),
            pre == *old(board),
            pre.wf(),
            MIN_VALUE <= alpha_m <= MAX_VALUE,
            MIN_VALUE <= beta <= MAX_VALUE,
            1 <= depth <= 30,
            0 <= ply <= 98,
            0 <= starting_team <= 1,
            hash < search_info.max_tt_size,
            search_info.max_tt_size == pre_si_entry.max_tt_size,
            full_hash == crate::zobrist::hash_spec(
                pre.state@,
                pre.pieces@,
                pre_si_entry.zobrist@,
                pre.moving_team,
            ),
            (match previous_move {
                Some(p) => 0 <= p.from < 120 && 0 <= p.to < 120,
                None => true,
            }),
            crate::movegen::all_makeable(pre.state@, pre.pieces@, pre.moving_team, actions@),
            forall|m: int|
                0 <= m < sorted_actions@.len() ==> actions@.contains(
                    (#[trigger] sorted_actions@[m]).action,
                ),
            actions@ == crate::movegen::pseudolegal_moves(
                pre.state@,
                pre.pieces@,
                crate::movegen::last_action(pre.history@),
                pre.moving_team,
            ),
            pv_rows_below(pre_si_entry, *search_info, ply as int),
            ply == 0 ==> pv0_claim(pre_si_entry, *search_info, pre),
            legal_count == 0 ==> (forall|m: int|
                0 <= m < k ==> !lpred((#[trigger] sorted_actions@[m]).action)),
        ensures
            legal_count == 0 ==> (forall|m: int|
                0 <= m < sorted_actions@.len() ==> !lpred(
                    (#[trigger] sorted_actions@[m]).action,
                )),
        decreases sorted_actions@.len() - k,
    {
        let action = sorted_actions[k].action;
        proof {
            assert(actions@.contains(sorted_actions@[k as int].action));
            let j = choose|j: int| 0 <= j < actions@.len() && actions@[j] == action;
            assert(crate::board::action_makeable(
                pre.state@,
                pre.pieces@,
                pre.moving_team,
                actions@[j],
            ));
        }
        if search_info.root_nodes < 340_282_366_920_938_463_463_374_607_431_768_211_455u128 {
            search_info.root_nodes = search_info.root_nodes + 1;
        }
        let team = board.moving_team;
        let leg = board.is_legal(action, team);
        if leg {
            proof {
                assert(lpred(action));
                let j = choose|j: int| 0 <= j < actions@.len() && actions@[j] == action;
                actions@.lemma_filter_contains(lpred, j);
                assert(legal_seq.len() > 0);
            }
            legal_count = if legal_count < 1_000_000_000 {
                legal_count + 1
            } else {
                legal_count
            };
            let score = search_move(
                search_info,
                board,
                action,
                alpha_m,
                beta,
                depth,
                ply,
                starting_team,
                found_pv_node,
            );
            if score > alpha_m {
                alpha_m = score;
                best_move = Some(action);
                search_info.pv_table.update_pv(ply, best_move);
                proof {
                    assert forall|kk: int| 0 <= kk < ply as int * 100 implies #[trigger] search_info.pv_table.table@[kk]
                        == pre_si_entry.pv_table.table@[kk] by {
                        assert(kk / 100 != ply as int) by (nonlinear_arith)
                            requires 0 <= kk < ply as int * 100, 0 <= ply;
                    }
                    if ply == 0 {
                        assert(search_info.pv_table.table@[crate::pv_table::pv_index(0, 0)]
                            == Some(action));
                        assert(crate::movegen::is_legal_spec(pre.state@, pre.pieces@, action));
                    }
                }
                found_pv_node = true;
                if score >= beta {
                    crate::move_ordering::store_history_move(search_info, &action, depth);
                    if !action.capture {
                        crate::move_ordering::store_killer_move(search_info, &action, ply);
                        if let Some(prev) = previous_move {
                            crate::move_ordering::store_counter_move(
                                search_info,
                                prev,
                                action,
                                depth,
                            );
                        }
                    }
                    break ;
                }
            }
        }
        k = k + 1;
    }
    if legal_count == 0 {
        proof {
            lemma_all_illegal(actions@, scored@, sorted_actions@, lpred);
            assert(legal_seq.len() == 0);
        }
        let chk = crate::movegen::in_check(board, board.moving_team, board.row_gap);
        let terminal_score: i32 = if chk {
            MIN_VALUE + (ply as i32)
        } else {
            0
        };
        search_info.transposition_table.set(
            hash,
            Some(TranspositionEntry { hash: full_hash, eval: terminal_score, depth, action: None }),
        );
        return terminal_score;
    }
    search_info.transposition_table.set(
        hash,
        Some(TranspositionEntry { hash: full_hash, eval: alpha_m, depth, action: best_move }),
    );
    alpha_m
}


/// The iterative-deepening driver: searches depth 1, 2, and so on, records
/// one summary line per finished depth, and stops when the time budget is
/// spent or the depth cap is reached. Depths in the report rise one by one;
/// whenever the position has a legal move at all, the head of the principal
/// variation ends up holding one.
pub fn root_search(
    search_info: &mut SearchInfo,
    board: &mut Board,
    starting_team: i16,
    max_time: u128,
) -> (r: (i32, Vec<SearchSummary>))
    requires
        old(search_info).wf(),
        old(board).wf(),
        0 <= starting_team <= 1,
    ensures
        final(search_info).wf(),
        final(board).wf(),
        crate::movegen::board_restored(*old(board), *final(board)),
        MIN_VALUE <= r.0 <= MAX_VALUE,
        r.1@.len() >= 1,
        forall|i: int| 0 <= i < r.1@.len() ==> (#[trigger] r.1@[i]).depth == i + 1,
        pv0_claim(*old(search_info), *final(search_info), *old(board)),
        node_legal_moves(*old(board)).len() > 0 ==> final(search_info).pv_table.table@[0] is Some,
{
    let u128_max: u128 = 340_282_366_920_938_463_463_374_607_431_768_211_455u128;
    let mut summaries: Vec<SearchSummary> = Vec::new();
    let mut total_time: u128 = 0;
    let mut depth: i16 = 1;
    let mut score: i32 = MIN_VALUE;
    loop
        invariant_except_break
            1 <= depth <= 30,
            summaries@.len() == depth - 1,
        invariant
            search_info.wf(),
            board.wf(),
            crate::movegen::board_restored(*old(board), *board),
            old(board).wf(),
            old(search_info).wf(),
            0 <= starting_team <= 1,
            MIN_VALUE <= score <= MAX_VALUE,
            forall|i: int| 0 <= i < summaries@.len() ==> (#[trigger] summaries@[i]).depth == i + 1,
            pv0_claim(*old(search_info), *search_info, *old(board)),
            summaries@.len() == 0 ==> score == MIN_VALUE,
            node_legal_moves(*old(board)).len() > 0 && summaries@.len() >= 1
                ==> search_info.pv_table.table@[0] is Some,
        ensures
            summaries@.len() >= 1,
            node_legal_moves(*old(board)).len() > 0 ==> search_info.pv_table.table@[0] is Some,
        decreases 30 - depth,
    {
        let start = get_epoch_ms();
        search_info.root_depth = depth;
        if score > MIN_VALUE {
            let a: i32 = if score >= MIN_VALUE + 250 {
                score - 250
            } else {
                MIN_VALUE
            };
            let b: i32 = if score <= MAX_VALUE - 250 {
                score + 250
            } else {
                MAX_VALUE
            };
            score = search(search_info, board, a, b, depth, 0, starting_team, None, true);
            if score <= a || score >= b {
                score = search(
                    search_info,
                    board,
                    MIN_VALUE,
                    MAX_VALUE,
                    depth,
                    0,
                    starting_team,
                    None,
                    true,
                );
            }
        } else {
            score = search(
                search_info,
                board,
                MIN_VALUE,
                MAX_VALUE,
                depth,
                0,
                starting_team,
                None,
                true,
            );
        }
        let end = get_epoch_ms();
        let time: u128 = if end >= start {
            end - start
        } else {
            0
        };
        let half_max: u128 = 170_141_183_460_469_231_731_687_303_715_884_105_727u128;
        total_time = if time <= half_max && total_time <= half_max {
            total_time + time
        } else {
            u128_max
        };
        search_info.time = total_time;
        let nodes: u128 = if search_info.root_nodes <= half_max && search_info.quiescence_nodes
            <= half_max {
            search_info.root_nodes + search_info.quiescence_nodes
        } else {
            u128_max
        };
        let npms: u128 = if time <= half_max {
            nodes / (time + 1)
        } else {
            0
        };
        let nps: u128 = if npms <= u128_max / 1000 {
            npms * 1000
        } else {
            u128_max
        };
        let mut pv: Vec<Action> = Vec::new();
        let mut j: usize = 0;
        while j < 100
            invariant
                0 <= j <= 100,
                search_info.wf(),
            decreases 100 - j,
        {
            match search_info.pv_table.table[j] {
                Some(a) => {
                    pv.push(a);
                },
                None => {
                    break ;
                },
            }
            j = j + 1;
        }
        let ghost before_push = summaries@;
        summaries.push(
            SearchSummary {
                depth,
                time: total_time,
                score,
                nodes,
                nps,
                sel_depth: search_info.sel_depth,
                pv,
            },
        );
        proof {
            assert forall|i: int| 0 <= i < summaries@.len() implies (#[trigger] summaries@[i]).depth
                == i + 1 by {
                if i < before_push.len() {
                    assert(summaries@[i] == before_push[i]);
                }
            }
        }
        if total_time >= max_time || depth >= 30 {
            break ;
        }
        depth = depth + 1;
    }
    (score, summaries)
}

} // verus!



