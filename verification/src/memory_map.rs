use vstd::prelude::*;
use crate::app::{is_new_process, App, SaveOutcome};
use crate::input::clamp_cells_spec;
use crate::memory::{block_is_free, fill, first_fit, lemma_first_fit, GRID_CELLS, GRID_ROWS, NULL};
use crate::pids::{index_of_opt, lemma_index_of};
use crate::process::Process;
use crate::schedule::{advanced, lemma_advance_keeps_terminated, sliced_cells, sliced_procs};

verus! {

/// Grid cell `c` lies in the memory block of `p`.
pub open spec fn in_block(p: Process, c: int) -> bool {
    p.memory.start() <= c < p.memory.start() + p.memory.length
}

/// The grid is a faithful memory map of the table: every process has a
/// colour code other than the free-cell code and a block inside the grid,
/// every cell of its block holds its code, and no two blocks share a cell.
/// The operations keep it where it holds; the table the simulation starts
/// with does not satisfy it, since `rustc`'s block is recorded from cell 36
/// while its cells are 22 to 37 (see `seed_processes` and `seed_grid`).
pub open spec fn memory_map_ok(procs: Seq<Process>, cells: Seq<u8>) -> bool {
    &&& cells.len() == GRID_CELLS
    &&& forall|i: int|
        0 <= i < procs.len() ==> #[trigger] procs[i].code != NULL && procs[i].memory.start()
            + procs[i].memory.length <= GRID_CELLS
    &&& forall|i: int, c: int|
        0 <= i < procs.len() && #[trigger] in_block(procs[i], c) ==> cells[c] == procs[i].code
    &&& forall|i: int, j: int, c: int|
        0 <= i < procs.len() && 0 <= j < procs.len() && i != j && #[trigger] in_block(
            procs[i],
            c,
        ) ==> !#[trigger] in_block(procs[j], c)
}

/// Changing only the states of processes keeps the memory map faithful.
pub proof fn lemma_memory_map_same_blocks(
    procs: Seq<Process>,
    after: Seq<Process>,
    cells: Seq<u8>,
)
    requires
        memory_map_ok(procs, cells),
        after.len() == procs.len(),
        forall|i: int|
            0 <= i < procs.len() ==> (#[trigger] after[i]).memory == procs[i].memory
                && after[i].code == procs[i].code,
    ensures
        memory_map_ok(after, cells),
{
    assert forall|i: int| 0 <= i < after.len() implies #[trigger] after[i].code != NULL
        && after[i].memory.start() + after[i].memory.length <= GRID_CELLS by {
        assert(procs[i].code != NULL);
    }
    assert forall|i: int, c: int| 0 <= i < after.len() && #[trigger] in_block(after[i], c) implies cells[c]
        == after[i].code by {
        assert(in_block(procs[i], c));
    }
    assert forall|i: int, j: int, c: int|
        0 <= i < after.len() && 0 <= j < after.len() && i != j && #[trigger] in_block(
            after[i],
            c,
        ) implies !#[trigger] in_block(after[j], c) by {
        assert(in_block(procs[i], c));
        assert(after[j].memory == procs[j].memory);
        if in_block(after[j], c) {
            assert(in_block(procs[j], c));
        }
    }
}

/// Passing the CPU on keeps the memory map faithful.
pub proof fn lemma_memory_map_advance(procs: Seq<Process>, selected: Option<u32>, cells: Seq<u8>)
    requires
        memory_map_ok(procs, cells),
    ensures
        memory_map_ok(advanced(procs, selected).0, cells),
{
    lemma_advance_keeps_terminated(procs, selected);
    lemma_memory_map_same_blocks(procs, advanced(procs, selected).0, cells);
}

/// The end of a time slice keeps the memory map faithful: a process that
/// leaves the table takes exactly its own block with it.
pub proof fn lemma_memory_map_slice(procs: Seq<Process>, selected: Option<u32>, cells: Seq<u8>)
    requires
        memory_map_ok(procs, cells),
    ensures
        memory_map_ok(sliced_procs(procs, selected), sliced_cells(procs, selected, cells)),
{
    lemma_memory_map_advance(procs, selected, cells);
    let p2 = advanced(procs, selected).0;
    lemma_advance_keeps_terminated(procs, selected);
    if let Some(k) = index_of_opt(procs, selected) {
        lemma_index_of(procs, selected->0);
        if p2[k].state == crate::process::ProcState::Terminated {
            let after = p2.remove(k);
            let freed = p2[k];
            let cells2 = fill(cells, freed.memory.start(), freed.memory.length as int, NULL);
            assert(sliced_procs(procs, selected) == after);
            assert(sliced_cells(procs, selected, cells) == cells2);
            assert forall|i: int| 0 <= i < after.len() implies #[trigger] after[i].code != NULL
                && after[i].memory.start() + after[i].memory.length <= GRID_CELLS by {
                let i0 = if i < k { i } else { i + 1 };
                assert(p2[i0].code != NULL);
            }
            assert forall|i: int, c: int| 0 <= i < after.len() && #[trigger] in_block(after[i], c) implies cells2[c]
                == after[i].code by {
                let i0 = if i < k { i } else { i + 1 };
                assert(in_block(p2[i0], c));
                assert(!in_block(p2[k], c));
                assert(cells[c] == p2[i0].code);
            }
            assert forall|i: int, j: int, c: int|
                0 <= i < after.len() && 0 <= j < after.len() && i != j && #[trigger] in_block(
                    after[i],
                    c,
                ) implies !#[trigger] in_block(after[j], c) by {
                let i0 = if i < k { i } else { i + 1 };
                let j0 = if j < k { j } else { j + 1 };
                assert(in_block(p2[i0], c));
                if in_block(after[j], c) {
                    assert(in_block(p2[j0], c));
                }
            }
        }
    }
}

/// Saving keeps the memory map faithful, when the form's colour code is not
/// the free-cell code: the new process's block is exactly the cells written
/// with its code, and those cells were free, so no other block changes.
pub proof fn lemma_memory_map_save(pre: App, name: Seq<char>, post: App, r: SaveOutcome)
    requires
        memory_map_ok(pre.procs(), pre.cells()),
        pre.draft_spec().code != NULL,
        App::save_effect(pre, name, post, r),
    ensures
        memory_map_ok(post.procs(), post.cells()),
{
    let procs = pre.procs();
    let cells = pre.cells();
    let size = clamp_cells_spec(pre.draft_spec().celulas) as usize;
    lemma_first_fit(cells, size as nat);
    if r == SaveOutcome::Saved {
        let start = first_fit(cells, size as nat)->0;
        let code = pre.draft_spec().code;
        let after = post.procs();
        let cells2 = post.cells();
        let np = after.last();
        let n = procs.len() as int;
        assert(block_is_free(cells, start, size as int));
        assert(cells2 == fill(cells, start, size as int, code));
        assert(np.memory.start() == start) by {
            let q = start / (GRID_ROWS as int);
            let m = start % (GRID_ROWS as int);
            assert(q * (GRID_ROWS as int) + m == start) by (nonlinear_arith)
                requires
                    q == start / (GRID_ROWS as int),
                    m == start % (GRID_ROWS as int),
                    GRID_ROWS as int > 0,
            ;
            assert(0 <= q && 0 <= m) by (nonlinear_arith)
                requires
                    q == start / (GRID_ROWS as int),
                    m == start % (GRID_ROWS as int),
                    start >= 0,
                    GRID_ROWS as int > 0,
            ;
        }
        assert(forall|i: int| 0 <= i < n ==> #[trigger] after[i] == procs[i]) by {
            assert forall|i: int| 0 <= i < n implies #[trigger] after[i] == procs[i] by {
                assert(after.drop_last()[i] == after[i]);
            }
        }
        // A cell of an old block holds that process's code, so it was not free.
        assert forall|i: int, c: int| 0 <= i < n && #[trigger] in_block(procs[i], c) implies !(start
            <= c < start + size) by {
            if start <= c < start + size {
                assert(cells[c] == NULL);
                assert(cells[c] == procs[i].code);
            }
        }
        assert forall|i: int| 0 <= i < after.len() implies #[trigger] after[i].code != NULL
            && after[i].memory.start() + after[i].memory.length <= GRID_CELLS by {
            if i < n {
                assert(after[i] == procs[i]);
            }
        }
        assert forall|i: int, c: int| 0 <= i < after.len() && #[trigger] in_block(after[i], c) implies cells2[c]
            == after[i].code by {
            if i < n {
                assert(after[i] == procs[i]);
                assert(in_block(procs[i], c));
            }
        }
        assert forall|i: int, j: int, c: int|
            0 <= i < after.len() && 0 <= j < after.len() && i != j && #[trigger] in_block(
                after[i],
                c,
            ) implies !#[trigger] in_block(after[j], c) by {
            if in_block(after[j], c) {
                if i < n && j < n {
                    assert(after[i] == procs[i]);
                    assert(after[j] == procs[j]);
                    assert(in_block(procs[i], c));
                } else if i < n {
                    assert(after[i] == procs[i]);
                    assert(in_block(procs[i], c));
                } else {
                    assert(after[j] == procs[j]);
                    assert(in_block(procs[j], c));
                }
            }
        }
    }
}

} // verus!
