//! The triangular principal-variation table, stored as one flat vector of
//! optional moves with a per-ply length vector.
use vstd::prelude::*;
use vstd::pervasive::VecAdditionalExecFns;

use crate::board::Action;

verus! {

pub const MAX_DEPTH: usize = 100;

/// Flat index of the PV entry for column `k` of the row at `ply`.
pub open spec fn pv_index(ply: int, k: int) -> int {
    ply * 100 + k
}

/// The triangular PV table: row `ply` holds the best line found from that
/// ply, in columns `ply` up to `length[ply]`.
pub struct PV {
    pub table: Vec<Option<Action>>,
    pub length: Vec<i16>,
}

impl PV {
    pub open spec fn wf(&self) -> bool {
        &&& self.table@.len() == 10000
        &&& self.length@.len() == 100
        &&& forall|i: int| 0 <= i < 100 ==> 0 <= #[trigger] self.length@[i] <= 100
    }

    /// Starts the row at `ply` empty.
    pub fn init_pv(&mut self, ply: i16)
        requires
            old(self).wf(),
            0 <= ply < 100,
        ensures
            final(self).wf(),
            final(self).table == old(self).table,
            final(self).length@ == old(self).length@.update(ply as int, ply),
    {
        self.length.set(ply as usize, ply);
    }

    /// Installs `best_move` at the head of the row at `ply` and copies the
    /// continuation from the row below it.
    pub fn update_pv(&mut self, ply: i16, best_move: Option<Action>)
        requires
            old(self).wf(),
            0 <= ply < 99,
        ensures
            final(self).wf(),
            final(self).length@ == old(self).length@.update(
                ply as int,
                old(self).length@[ply as int + 1],
            ),
            final(self).table@[pv_index(ply as int, ply as int)] == best_move,
            forall|j: int|
                ply as int + 1 <= j < old(self).length@[ply as int + 1] ==> #[trigger] final(self).table@[pv_index(ply as int, j)] == old(self).table@[pv_index(ply as int + 1, j)],
            forall|k: int|
                0 <= k < 10000 && k / 100 != ply as int ==> #[trigger] final(self).table@[k] == old(self).table@[k],
    {
        let ply_us = ply as usize;
        self.table.set(ply_us * 100 + ply_us, best_move);
        proof {
            assert((ply as int * 100 + ply as int) / 100 == ply as int) by (nonlinear_arith)
                requires 0 <= ply < 99;
        }
        let stop = self.length[ply_us + 1];
        let mut next_ply: usize = ply_us + 1;
        while (next_ply as i16) < stop
            invariant
                old(self).wf(),
                0 <= ply < 99,
                ply_us as int == ply as int,
                ply as int + 1 <= next_ply as int <= 100,
                stop == old(self).length@[ply as int + 1],
                0 <= stop <= 100,
                self.length@ == old(self).length@,
                self.table@.len() == 10000,
                self.table@[pv_index(ply as int, ply as int)] == best_move,
                forall|j: int|
                    ply as int + 1 <= j < next_ply as int ==> #[trigger] self.table@[pv_index(
                        ply as int,
                        j,
                    )] == old(self).table@[pv_index(ply as int + 1, j)],
                forall|k: int|
                    0 <= k < 10000 && k / 100 != ply as int ==> #[trigger] self.table@[k] == old(self).table@[k],
            decreases 100 - next_ply,
        {
            let v = self.table[(ply_us + 1) * 100 + next_ply];
            proof {
                let np = next_ply as int;
                assert(((ply as int + 1) * 100 + np) / 100 == ply as int + 1) by (nonlinear_arith)
                    requires 0 <= ply < 99, ply + 1 <= np, np < 100;
                assert((ply as int * 100 + np) / 100 == ply as int) by (nonlinear_arith)
                    requires 0 <= ply < 99, ply + 1 <= np, np < 100;
            }
            self.table.set(ply_us * 100 + next_ply, v);
            next_ply = next_ply + 1;
        }
        let stop2 = self.length[ply_us + 1];
        self.length.set(ply_us, stop2);
    }
}

} // verus!
