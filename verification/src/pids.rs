use vstd::prelude::*;
use crate::memory::GRID_CELLS;
use crate::process::Process;
use crate::rng::{draw, xorshift, MIX};

verus! {

/// Lowest PID handed out.
pub const PID_MIN: u32 = 1234;

/// Highest PID handed out.
pub const PID_MAX: u32 = 9999;

/// Number of PIDs from `PID_MIN` to `PID_MAX`.
pub const PID_SPAN: u64 = 8766;

/// Number of random draws made before the PID range is scanned in order.
pub const PID_DRAWS: u32 = 64;

/// Some process of `procs` has PID `pid`.
pub open spec fn has_pid(procs: Seq<Process>, pid: u32) -> bool {
    exists|i: int| 0 <= i < procs.len() && #[trigger] procs[i].pid == pid
}

/// The first index, from `i` on, of a process with PID `pid`.
pub open spec fn index_of_from(procs: Seq<Process>, pid: u32, i: nat) -> Option<int>
    decreases procs.len() - i,
{
    if i >= procs.len() {
        None
    } else if procs[i as int].pid == pid {
        Some(i as int)
    } else {
        index_of_from(procs, pid, i + 1)
    }
}

/// The first index of a process with PID `pid`.
pub open spec fn index_of(procs: Seq<Process>, pid: u32) -> Option<int> {
    index_of_from(procs, pid, 0)
}

/// The first index of a process with PID `pid`, when there is a PID.
pub open spec fn index_of_opt(procs: Seq<Process>, pid: Option<u32>) -> Option<int> {
    match pid {
        Some(p) => index_of(procs, p),
        None => None,
    }
}

/// No two processes share a PID.
pub open spec fn pids_unique(procs: Seq<Process>) -> bool {
    forall|i: int, j: int|
        0 <= i < procs.len() && 0 <= j < procs.len() && i != j ==> #[trigger] procs[i].pid
            != #[trigger] procs[j].pid
}

/// Every process's memory block lies inside a grid of `GRID_CELLS` cells.
pub open spec fn blocks_in_grid(procs: Seq<Process>) -> bool {
    forall|i: int|
        0 <= i < procs.len() ==> #[trigger] procs[i].memory.start() + procs[i].memory.length
            <= GRID_CELLS
}

/// The PID drawn from an already advanced generator state.
pub open spec fn random_pid(state: u64) -> u32 {
    (PID_MIN + draw(state, PID_SPAN)) as u32
}

/// Up to `k` random draws: the first drawn PID that no process has, and
/// the generator state after the last draw made.
pub open spec fn pid_draws(procs: Seq<Process>, state: u64, k: nat) -> (Option<u32>, u64)
    decreases k,
{
    if k == 0 {
        (None, state)
    } else {
        let s = xorshift(state);
        let pid = random_pid(s);
        if !has_pid(procs, pid) {
            (Some(pid), s)
        } else {
            pid_draws(procs, s, (k - 1) as nat)
        }
    }
}

/// The lowest PID from `p` to `PID_MAX` that no process has.
pub open spec fn first_free_pid_from(procs: Seq<Process>, p: int) -> Option<u32>
    decreases PID_MAX + 1 - p,
{
    if p > PID_MAX || p < PID_MIN {
        None
    } else if !has_pid(procs, p as u32) {
        Some(p as u32)
    } else {
        first_free_pid_from(procs, p + 1)
    }
}

/// What PID generation gives from the generator state `state`: the first
/// free PID among `PID_DRAWS` random draws, else the lowest free PID of the
/// range; and the generator state afterwards.
pub open spec fn generated_pid(procs: Seq<Process>, state: u64) -> (Option<u32>, u64) {
    let (r, s) = pid_draws(procs, state, PID_DRAWS as nat);
    if r is Some {
        (r, s)
    } else {
        (first_free_pid_from(procs, PID_MIN as int), s)
    }
}

/// Every PID from `PID_MIN` to `PID_MAX` is taken.
pub open spec fn pid_range_full(procs: Seq<Process>) -> bool {
    forall|p: u32| PID_MIN <= p <= PID_MAX ==> has_pid(procs, p)
}

proof fn lemma_index_of_from(procs: Seq<Process>, pid: u32, i: nat)
    ensures
        index_of_from(procs, pid, i) matches Some(k) ==> {
            &&& i <= k < procs.len()
            &&& procs[k].pid == pid
            &&& forall|j: int| i <= j < k ==> procs[j].pid != pid
        },
        index_of_from(procs, pid, i) is None ==> forall|j: int|
            i <= j < procs.len() ==> procs[j].pid != pid,
    decreases procs.len() - i,
{
    if i < procs.len() && procs[i as int].pid != pid {
        lemma_index_of_from(procs, pid, i + 1);
    }
}

proof fn lemma_index_of_from_same_pids(a: Seq<Process>, b: Seq<Process>, pid: u32, i: nat)
    requires
        a.len() == b.len(),
        forall|j: int| 0 <= j < a.len() ==> #[trigger] a[j].pid == b[j].pid,
    ensures
        index_of_from(a, pid, i) == index_of_from(b, pid, i),
    decreases a.len() - i,
{
    if i < a.len() {
        assert(a[i as int].pid == b[i as int].pid);
        lemma_index_of_from_same_pids(a, b, pid, i + 1);
    }
}

/// Two tables with the same PIDs at the same places look PIDs up alike.
pub(crate) proof fn lemma_index_of_same_pids(a: Seq<Process>, b: Seq<Process>, pid: Option<u32>)
    requires
        a.len() == b.len(),
        forall|j: int| 0 <= j < a.len() ==> #[trigger] a[j].pid == b[j].pid,
    ensures
        index_of_opt(a, pid) == index_of_opt(b, pid),
{
    if let Some(p) = pid {
        lemma_index_of_from_same_pids(a, b, p, 0);
    }
}

/// Looking a PID up finds the first process that has it, and finds none
/// exactly where no process has it.
pub proof fn lemma_index_of(procs: Seq<Process>, pid: u32)
    ensures
        index_of(procs, pid) matches Some(k) ==> {
            &&& 0 <= k < procs.len()
            &&& procs[k].pid == pid
            &&& forall|j: int| 0 <= j < k ==> procs[j].pid != pid
        },
        index_of(procs, pid) is None <==> !has_pid(procs, pid),
{
    lemma_index_of_from(procs, pid, 0);
}

proof fn lemma_pid_draws(procs: Seq<Process>, state: u64, k: nat)
    ensures
        pid_draws(procs, state, k).0 matches Some(p) ==> PID_MIN <= p <= PID_MAX && !has_pid(
            procs,
            p,
        ),
    decreases k,
{
    if k > 0 {
        let s = xorshift(state);
        assert(draw(s, PID_SPAN) < PID_SPAN);
        lemma_pid_draws(procs, s, (k - 1) as nat);
    }
}

proof fn lemma_first_free_pid_from(procs: Seq<Process>, p: int)
    requires
        PID_MIN <= p,
    ensures
        first_free_pid_from(procs, p) matches Some(q) ==> p <= q <= PID_MAX && !has_pid(procs, q)
            && forall|r: u32| p <= r < q ==> has_pid(procs, r),
        first_free_pid_from(procs, p) is None ==> forall|q: u32|
            p <= q <= PID_MAX ==> has_pid(procs, q),
    decreases PID_MAX + 1 - p,
{
    if p <= PID_MAX && has_pid(procs, p as u32) {
        lemma_first_free_pid_from(procs, p + 1);
        assert forall|q: u32| p <= q <= PID_MAX && first_free_pid_from(procs, p) is None implies has_pid(procs, q) by {
            if q == p {
            }
        }
        if let Some(q) = first_free_pid_from(procs, p) {
            assert forall|r: u32| p <= r < q implies has_pid(procs, r) by {
                if r == p {
                }
            }
        }
    }
}

/// A generated PID lies in the PID range and no process has it; none is
/// generated exactly when every PID of the range is taken.
pub proof fn lemma_generated_pid(procs: Seq<Process>, state: u64)
    ensures
        generated_pid(procs, state).0 matches Some(p) ==> PID_MIN <= p <= PID_MAX && !has_pid(
            procs,
            p,
        ),
        generated_pid(procs, state).0 is None <==> pid_range_full(procs),
{
    lemma_pid_draws(procs, state, PID_DRAWS as nat);
    lemma_first_free_pid_from(procs, PID_MIN as int);
}

/// Every PID of the range can be drawn: for each PID from `PID_MIN` to
/// `PID_MAX` there is a generator state from which a draw gives it.
pub proof fn lemma_every_pid_can_be_drawn(pid: u32)
    requires
        PID_MIN <= pid <= PID_MAX,
    ensures
        exists|s: u64| random_pid(s) == pid,
{
    let k: int = pid - PID_MIN;
    let m: int = 0x1_0000_0000_0000_0000;
    // The inverse of `MIX` modulo 2^64 (`MIX` is odd).
    let inv: int = 0x5907_1d96_d81e_cd35;
    let t: int = 934034299265436267;
    let s = ((k * inv) % m) as u64;
    assert(inv * (MIX as int) == 1 + t * m);
    assert(0 <= (k * inv) % m < m) by {
        vstd::arithmetic::div_mod::lemma_mod_bound(k * inv, m);
    }
    vstd::arithmetic::div_mod::lemma_mul_mod_noop_left(k * inv, MIX as int, m);
    vstd::arithmetic::mul::lemma_mul_is_associative(k, inv, MIX as int);
    assert(k * (inv * (MIX as int)) == m * (k * t) + k) by (nonlinear_arith)
        requires
            inv * (MIX as int) == 1 + t * m,
    ;
    vstd::arithmetic::div_mod::lemma_mod_multiples_vanish(k * t, k, m);
    vstd::arithmetic::div_mod::lemma_small_mod(k as nat, m as nat);
    vstd::arithmetic::div_mod::lemma_small_mod(k as nat, PID_SPAN as nat);
    assert(vstd::wrapping::u64_specs::wrapping_mul(s, MIX) == k);
    assert(draw(s, PID_SPAN) == k);
    assert(random_pid(s) == pid);
}

/// When the random draws find no free PID, the PID taken is the lowest
/// free one of the range: every PID below it is taken.
pub proof fn lemma_lowest_free_pid(procs: Seq<Process>)
    ensures
        first_free_pid_from(procs, PID_MIN as int) matches Some(q) ==> {
            &&& PID_MIN <= q <= PID_MAX
            &&& !has_pid(procs, q)
            &&& forall|r: u32| PID_MIN <= r < q ==> has_pid(procs, r)
        },
{
    lemma_first_free_pid_from(procs, PID_MIN as int);
}

} // verus!
