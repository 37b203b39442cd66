use vstd::prelude::*;

verus! {

/// Number of columns of the memory grid.
pub const GRID_COLS: usize = 24;

/// Number of rows of the memory grid.
pub const GRID_ROWS: usize = 16;

/// Number of cells of the memory grid.
pub const GRID_CELLS: usize = 384;

/// The code of a memory cell that no process holds.
pub const NULL: u8 = 99;

/// Index of the cell at column `col` and row `row`: the grid is laid out
/// column after column.
pub fn coord_to_index(col: usize, row: usize) -> (r: usize)
    requires
        col * GRID_ROWS + row <= usize::MAX,
    ensures
        r == col * GRID_ROWS + row,
{
    col * GRID_ROWS + row
}

/// `n` cells from `start` on lie inside `cells` and are all free.
pub open spec fn block_is_free(cells: Seq<u8>, start: int, n: int) -> bool {
    &&& 0 <= start
    &&& start + n <= cells.len()
    &&& forall|i: int| start <= i < start + n ==> #[trigger] cells[i] == NULL
}

/// The first position, from `p` on, where `n` free cells begin.
pub open spec fn first_fit_from(cells: Seq<u8>, n: nat, p: nat) -> Option<int>
    decreases cells.len() + 1 - p,
{
    if p + n > cells.len() {
        None
    } else if block_is_free(cells, p as int, n as int) {
        Some(p as int)
    } else {
        first_fit_from(cells, n, p + 1)
    }
}

/// The first position where `n` free cells begin (first fit).
pub open spec fn first_fit(cells: Seq<u8>, n: nat) -> Option<int> {
    first_fit_from(cells, n, 0)
}

/// `cells` with the `n` cells from `start` on set to `code`.
pub open spec fn fill(cells: Seq<u8>, start: int, n: int, code: u8) -> Seq<u8> {
    Seq::new(cells.len(), |i: int| if start <= i < start + n { code } else { cells[i] })
}

/// The search from `p` finds the first free block at or after `p`, and
/// finds none when there is none.
proof fn lemma_first_fit_from(cells: Seq<u8>, n: nat, p: nat)
    ensures
        first_fit_from(cells, n, p) matches Some(q) ==> {
            &&& p <= q
            &&& block_is_free(cells, q, n as int)
            &&& forall|r: int| p <= r < q ==> !block_is_free(cells, r, n as int)
        },
        first_fit_from(cells, n, p) is None ==> forall|r: int|
            p <= r ==> !block_is_free(cells, r, n as int),
    decreases cells.len() + 1 - p,
{
    if p + n > cells.len() {
    } else if block_is_free(cells, p as int, n as int) {
    } else {
        lemma_first_fit_from(cells, n, p + 1);
    }
}

/// First fit, stated: the position found holds `n` free cells and no
/// earlier position does; there is none only where no position does.
pub proof fn lemma_first_fit(cells: Seq<u8>, n: nat)
    ensures
        first_fit(cells, n) matches Some(q) ==> {
            &&& block_is_free(cells, q, n as int)
            &&& forall|r: int| 0 <= r < q ==> !block_is_free(cells, r, n as int)
        },
        first_fit(cells, n) is None <==> forall|r: int| !block_is_free(cells, r, n as int),
{
    lemma_first_fit_from(cells, n, 0);
    if first_fit(cells, n) is None {
        assert forall|r: int| !block_is_free(cells, r, n as int) by {
            if 0 <= r {
            }
        }
    }
}

/// A position holding `n` free cells with none before it is what first
/// fit finds.
pub proof fn lemma_first_fit_at(cells: Seq<u8>, n: nat, q: int)
    requires
        block_is_free(cells, q, n as int),
        forall|r: int| 0 <= r < q ==> !block_is_free(cells, r, n as int),
    ensures
        first_fit(cells, n) == Some(q),
{
    lemma_first_fit(cells, n);
    match first_fit(cells, n) {
        Some(p) => {
            if p < q {
            } else if q < p {
            }
        },
        None => {},
    }
}

/// Finds the first position where `cells` adjacent free cells begin.
pub fn find_free_memory(memory: &[u8], cells: usize) -> (r: Option<usize>)
    requires
        cells > 0,
    ensures
        match r {
            Some(p) => first_fit(memory@, cells as nat) == Some(p as int),
            None => first_fit(memory@, cells as nat) is None,
        },
{
    let len = memory.len();
    if cells > len {
        return None;
    }
    let last = len - cells;
    let mut p: usize = 0;
    while p <= last
        invariant
            cells > 0,
            last == len - cells,
            len == memory@.len(),
            p + cells <= len + 1,
            first_fit_from(memory@, cells as nat, 0) == first_fit_from(memory@, cells as nat, p as nat),
        decreases len - p,
    {
        let mut i: usize = 0;
        let mut free = true;
        while i < cells
            invariant
                p + cells <= len,
                len == memory@.len(),
                i <= cells,
                free == forall|j: int| p <= j < p + i ==> #[trigger] memory@[j] == NULL,
            decreases cells - i,
        {
            free = free && memory[p + i] == NULL;
            i = i + 1;
        }
        if free {
            return Some(p);
        }
        p = p + 1;
    }
    None
}

/// Fills the first block of `cells` free cells with `code` and returns
/// where it begins.
pub fn allocate_memory(memory: &mut [u8], code: u8, cells: usize) -> (r: Option<usize>)
    requires
        cells > 0,
        first_fit(old(memory)@, cells as nat) is Some,
    ensures
        r is Some,
        first_fit(old(memory)@, cells as nat) == Some(r.unwrap() as int),
        r.unwrap() + cells <= old(memory)@.len(),
        final(memory)@ == fill(old(memory)@, r.unwrap() as int, cells as int, code),
{
    let start = match find_free_memory(memory, cells) {
        Some(s) => s,
        None => { return None; },
    };
    proof {
        lemma_first_fit(memory@, cells as nat);
    }
    let len = memory.len();
    let end = start + cells;
    let mut i = start;
    while i < end
        invariant
            end == start + cells,
            start <= i <= start + cells,
            end <= len,
            len == memory@.len(),
            memory@.len() == old(memory)@.len(),
            forall|j: int| 0 <= j < memory@.len() ==> #[trigger] memory@[j] == if start <= j < i {
                code
            } else {
                old(memory)@[j]
            },
        decreases start + cells - i,
    {
        memory[i] = code;
        i = i + 1;
    }
    assert(memory@ =~= fill(old(memory)@, start as int, cells as int, code));
    Some(start)
}

/// Marks the `cells` cells from `start` on as free.
pub fn free_memory(memory: &mut [u8], start: usize, cells: usize) -> (r: Option<usize>)
    requires
        start + cells <= old(memory)@.len(),
    ensures
        r == Some(start),
        final(memory)@ == fill(old(memory)@, start as int, cells as int, NULL),
{
    let len = memory.len();
    let end = start + cells;
    let mut i = start;
    while i < end
        invariant
            end == start + cells,
            start <= i <= start + cells,
            end <= len,
            len == memory@.len(),
            memory@.len() == old(memory)@.len(),
            forall|j: int| 0 <= j < memory@.len() ==> #[trigger] memory@[j] == if start <= j < i {
                NULL
            } else {
                old(memory)@[j]
            },
        decreases start + cells - i,
    {
        memory[i] = NULL;
        i = i + 1;
    }
    assert(memory@ =~= fill(old(memory)@, start as int, cells as int, NULL));
    Some(start)
}

/// Freeing the block that an allocation filled gives back the memory as it
/// was before the allocation.
pub proof fn lemma_free_undoes_allocate(cells: Seq<u8>, n: nat, code: u8)
    requires
        n > 0,
        first_fit(cells, n) is Some,
    ensures
        fill(fill(cells, first_fit(cells, n).unwrap(), n as int, code), first_fit(cells, n).unwrap(), n as int, NULL) == cells,
{
    lemma_first_fit(cells, n);
    let p = first_fit(cells, n).unwrap();
    let after = fill(fill(cells, p, n as int, code), p, n as int, NULL);
    assert forall|i: int| 0 <= i < cells.len() implies after[i] == cells[i] by {
        if p <= i < p + n {
            assert(cells[i] == NULL);
        }
    }
    assert(after =~= cells);
}

} // verus!
