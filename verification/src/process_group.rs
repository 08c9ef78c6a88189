//! The process group: how many workers exist and which rank this one has.
//!
//! A launcher that starts several cooperating processes supplies the real
//! values; a run without one is the degenerate group of a single worker.

use vstd::prelude::*;

verus! {

/// The degenerate process group: one worker, rank zero. A run under a real
/// multi-process launcher replaces this pair with the launcher's own count
/// and rank before any work is partitioned.
pub fn mpi_init() -> (r: (u64, u64))
    ensures
        r.0 == 1,
        r.1 == 0,
{
    (1, 0)
}

} // verus!
