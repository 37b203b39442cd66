use vstd::prelude::*;
use crate::memory::{fill, NULL};
use crate::pids::{index_of, index_of_opt, lemma_index_of, pids_unique};
use crate::process::{ProcState, Process};

verus! {

/// `p` with its state replaced.
pub open spec fn with_state(p: Process, state: ProcState) -> Process {
    Process { state, ..p }
}

/// `p` with its state replaced, unless it is terminating.
pub open spec fn with_state_unless_terminated(p: Process, state: ProcState) -> Process {
    if p.state == ProcState::Terminated {
        p
    } else {
        with_state(p, state)
    }
}

/// Where the CPU goes next: the process after the running one, cycling
/// through the table, or the first one when none runs.
pub open spec fn next_index(procs: Seq<Process>, selected: Option<u32>) -> int {
    match index_of_opt(procs, selected) {
        Some(i) => (i + 1) % (procs.len() as int),
        None => 0,
    }
}

/// The table after the running process gives the CPU up: it becomes ready,
/// unless it is terminating.
pub open spec fn preempted(procs: Seq<Process>, selected: Option<u32>) -> Seq<Process> {
    match index_of_opt(procs, selected) {
        Some(i) => procs.update(i, with_state_unless_terminated(procs[i], ProcState::Ready)),
        None => procs,
    }
}

/// Round-robin scheduling: the table and the running PID after the CPU
/// passes to the next process, which runs unless it is terminating.
pub open spec fn advanced(procs: Seq<Process>, selected: Option<u32>) -> (
    Seq<Process>,
    Option<u32>,
) {
    let p1 = preempted(procs, selected);
    if procs.len() == 0 {
        (p1, None)
    } else {
        let next = next_index(procs, selected);
        (
            p1.update(next, with_state_unless_terminated(p1[next], ProcState::Running)),
            Some(procs[next].pid),
        )
    }
}

/// The table after the end of a time slice: the CPU passes on, and the
/// process that held it leaves the table when it is terminating.
pub open spec fn sliced_procs(procs: Seq<Process>, selected: Option<u32>) -> Seq<Process> {
    let p2 = advanced(procs, selected).0;
    match index_of_opt(procs, selected) {
        Some(i) => if p2[i].state == ProcState::Terminated {
            p2.remove(i)
        } else {
            p2
        },
        None => p2,
    }
}

/// The grid after the end of a time slice: the cells that the memory block
/// of a process leaving the table names are freed.
pub open spec fn sliced_cells(procs: Seq<Process>, selected: Option<u32>, cells: Seq<u8>) -> Seq<
    u8,
> {
    let p2 = advanced(procs, selected).0;
    match index_of_opt(procs, selected) {
        Some(i) => if p2[i].state == ProcState::Terminated {
            fill(cells, p2[i].memory.start(), p2[i].memory.length as int, NULL)
        } else {
            cells
        },
        None => cells,
    }
}

/// A terminating process stays terminating when the CPU passes on, and
/// the table keeps its PIDs and memory blocks.
pub proof fn lemma_advance_keeps_terminated(procs: Seq<Process>, selected: Option<u32>)
    ensures
        advanced(procs, selected).0.len() == procs.len(),
        forall|i: int|
            0 <= i < procs.len() ==> {
                &&& (#[trigger] advanced(procs, selected).0[i]).pid == procs[i].pid
                &&& advanced(procs, selected).0[i].memory == procs[i].memory
                &&& advanced(procs, selected).0[i].code == procs[i].code
                &&& procs[i].state == ProcState::Terminated ==> advanced(procs, selected).0[i].state
                    == ProcState::Terminated
            },
{
    if let Some(p) = selected {
        lemma_index_of(procs, p);
    }
}

/// After the CPU passes on, the process it went to runs, unless it is
/// terminating, and the one that gave it up is ready, unless it is
/// terminating or is the one that runs again.
pub proof fn lemma_advance_round_robin(procs: Seq<Process>, selected: Option<u32>)
    requires
        procs.len() > 0,
    ensures
        ({
            let next = next_index(procs, selected);
            let after = advanced(procs, selected);
            &&& 0 <= next < procs.len()
            &&& after.1 == Some(procs[next].pid)
            &&& procs[next].state != ProcState::Terminated ==> after.0[next].state
                == ProcState::Running
            &&& index_of_opt(procs, selected) matches Some(i) ==> (i != next && procs[i].state
                != ProcState::Terminated ==> after.0[i].state == ProcState::Ready)
        }),
{
    if let Some(p) = selected {
        lemma_index_of(procs, p);
    }
}

/// The table and running PID after the CPU passes on `k` times.
pub open spec fn advanced_times(procs: Seq<Process>, selected: Option<u32>, k: nat) -> (
    Seq<Process>,
    Option<u32>,
)
    decreases k,
{
    if k == 0 {
        (procs, selected)
    } else {
        let (p, s) = advanced(procs, selected);
        advanced_times(p, s, (k - 1) as nat)
    }
}

/// With unique PIDs, looking up the PID at index `j` finds `j`.
proof fn lemma_index_of_unique(procs: Seq<Process>, j: int)
    requires
        pids_unique(procs),
        0 <= j < procs.len(),
    ensures
        index_of(procs, procs[j].pid) == Some(j),
{
    lemma_index_of(procs, procs[j].pid);
    let k = index_of(procs, procs[j].pid)->0;
    if k != j {
        assert(procs[k].pid != procs[j].pid);
    }
}

/// Round robin: when the process at index `i` holds the CPU, passing the
/// CPU on `k` times gives it to the process at index `(i + k) mod n`, so
/// after `n` passes every process has had it and it is back where it was.
pub proof fn lemma_round_robin_cycle(procs: Seq<Process>, selected: Option<u32>, k: nat)
    requires
        pids_unique(procs),
        index_of_opt(procs, selected) is Some,
    ensures
        ({
            let i = index_of_opt(procs, selected)->0;
            &&& advanced_times(procs, selected, k).0.len() == procs.len()
            &&& advanced_times(procs, selected, k).1 == Some(
                procs[(i + k) % (procs.len() as int)].pid,
            )
        }),
    decreases k,
{
    let i = index_of_opt(procs, selected)->0;
    let n = procs.len() as int;
    lemma_index_of(procs, selected->0);
    if k == 0 {
        lemma_index_of_unique(procs, i);
        assert(i % n == i) by (nonlinear_arith)
            requires
                0 <= i < n,
        ;
    } else {
        lemma_advance_keeps_terminated(procs, selected);
        let (p, s) = advanced(procs, selected);
        let next = (i + 1) % n;
        assert(0 <= next < n) by (nonlinear_arith)
            requires
                0 <= i < n,
                next == (i + 1) % n,
        ;
        assert(pids_unique(p)) by {
            assert forall|a: int, b: int| 0 <= a < p.len() && 0 <= b < p.len() && a != b implies #[trigger] p[a].pid != #[trigger] p[b].pid by {
                assert(p[a].pid == procs[a].pid);
                assert(p[b].pid == procs[b].pid);
            }
        }
        assert(s == Some(p[next].pid));
        lemma_index_of_unique(p, next);
        lemma_round_robin_cycle(p, s, (k - 1) as nat);
        assert((((k - 1) as int) + (i + 1) % n) % n == (((k - 1) as int) + (i + 1)) % n) by {
            vstd::arithmetic::div_mod::lemma_add_mod_noop_right((k - 1) as int, i + 1, n);
        }
        assert(p[(next + (k - 1)) % n].pid == procs[(next + (k - 1)) % n].pid) by {
            assert(0 <= (next + (k - 1)) % n < n) by (nonlinear_arith)
                requires
                    0 <= next,
                    0 < n,
                    k >= 1,
            ;
        }
    }
}

/// At the end of a time slice the table loses at most one process, and only
/// the one that held the CPU when it is terminating; the others keep their
/// order.
pub proof fn lemma_slice_removes_only_terminated(procs: Seq<Process>, selected: Option<u32>)
    ensures
        ({
            let after = sliced_procs(procs, selected);
            let p2 = advanced(procs, selected).0;
            ||| after == p2
            ||| (index_of_opt(procs, selected) matches Some(i) && p2[i].state
                == ProcState::Terminated && after == p2.remove(i))
        }),
{
}

/// Setting a state gives the process exactly that state, whatever it had,
/// and keeps every other field.
pub proof fn lemma_with_state(p: Process, state: ProcState)
    ensures
        with_state(p, state).state == state,
        with_state(p, state).pid == p.pid,
        with_state(p, state).code == p.code,
        with_state(p, state).priority == p.priority,
        with_state(p, state).name == p.name,
        with_state(p, state).celulas == p.celulas,
        with_state(p, state).memory == p.memory,
{
}

/// Passing the CPU on changes only the process that gives it up and the one
/// that gets it: every other process is kept as it was.
pub proof fn lemma_advance_touches_two(procs: Seq<Process>, selected: Option<u32>)
    ensures
        advanced(procs, selected).0.len() == procs.len(),
        forall|j: int|
            0 <= j < procs.len() && index_of_opt(procs, selected) != Some(j) && next_index(
                procs,
                selected,
            ) != j ==> #[trigger] advanced(procs, selected).0[j] == procs[j],
{
    if let Some(p) = selected {
        lemma_index_of(procs, p);
    }
}

/// At the end of a time slice, when the process that held the CPU leaves
/// the table, every grid cell its memory block names becomes free and every
/// other cell keeps its code; otherwise the grid is unchanged.
pub proof fn lemma_slice_frees_block(procs: Seq<Process>, selected: Option<u32>, cells: Seq<u8>)
    ensures
        sliced_cells(procs, selected, cells).len() == cells.len(),
        forall|c: int|
            0 <= c < cells.len() ==> #[trigger] sliced_cells(procs, selected, cells)[c] == if (
            index_of_opt(procs, selected) matches Some(i) && procs[i].state == ProcState::Terminated
                && procs[i].memory.start() <= c < procs[i].memory.start() + procs[i].memory.length) {
                NULL
            } else {
                cells[c]
            },
        sliced_procs(procs, selected).len() == if (index_of_opt(procs, selected) matches Some(i)
            && procs[i].state == ProcState::Terminated) {
            procs.len() - 1
        } else {
            procs.len() as int
        },
{
    lemma_advance_keeps_terminated(procs, selected);
    if let Some(p) = selected {
        lemma_index_of(procs, p);
    }
    if let Some(i) = index_of_opt(procs, selected) {
        let p2 = advanced(procs, selected).0;
        assert(p2[i].state == ProcState::Terminated <==> procs[i].state == ProcState::Terminated) by {
            if procs.len() > 0 {
                let next = next_index(procs, selected);
                if next == i {
                }
            }
        }
    }
}

} // verus!
