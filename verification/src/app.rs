use vstd::prelude::*;
use crate::input::{clamp_cells, clamp_cells_spec, trim, trim_whitespace};
use crate::memory::{
    allocate_memory, block_is_free, coord_to_index, fill, find_free_memory, first_fit,
    free_memory, lemma_first_fit, lemma_first_fit_at, GRID_CELLS, GRID_ROWS, NULL,
};
use crate::pids::{
    blocks_in_grid, generated_pid, has_pid, index_of, index_of_from, index_of_opt,
    lemma_generated_pid, lemma_index_of, lemma_index_of_same_pids, pid_draws, pid_range_full,
    pids_unique, random_pid, first_free_pid_from, PID_DRAWS, PID_MAX, PID_MIN, PID_SPAN,
};
use crate::memory_map::{
    lemma_memory_map_advance, lemma_memory_map_same_blocks, lemma_memory_map_save,
    lemma_memory_map_slice, memory_map_ok,
};
use crate::process::{MemoryBlock, ProcState, Process};
use crate::rng::{xorshift, Rng};
use crate::schedule::{
    advanced, lemma_advance_touches_two, next_index, preempted, sliced_cells, sliced_procs,
    with_state,
};

verus! {

/// What saving the form leads to.
#[derive(Debug, Clone, Copy, PartialEq, Eq, Structural)]
pub enum SaveOutcome {
    /// Nothing was saved: the name is blank or no PID is free.
    Ignored,
    /// The process was added and its memory handed out.
    Saved,
    /// No block of free cells is large enough for the process.
    OutOfMemory,
}

/// What the form's PID is worth.
#[derive(Debug, Clone, Copy, PartialEq, Eq, Structural)]
pub enum PidStatus {
    /// No process has it.
    Free,
    /// A process has it already.
    Taken,
    /// The form has none: no PID was free.
    Missing,
}

impl PidStatus {
    /// The message shown under the form's PID.
    pub fn label(self) -> (r: &'static str)
        ensures
            r@ == match self {
                PidStatus::Free => "PID livre: não existe na lista"@,
                PidStatus::Taken => "Esse PID já existe na lista, gere outro"@,
                PidStatus::Missing => "Não há PID livre"@,
            },
    {
        match self {
            PidStatus::Free => "PID livre: não existe na lista",
            PidStatus::Taken => "Esse PID já existe na lista, gere outro",
            PidStatus::Missing => "Não há PID livre",
        }
    }
}

/// The PID that saving gives the new process, and the generator state
/// afterwards: the form's PID when no process has it, else a generated one.
pub open spec fn chosen_pid(procs: Seq<Process>, draft_pid: Option<u32>, state: u64) -> (
    Option<u32>,
    u64,
) {
    if draft_pid matches Some(p) && !has_pid(procs, p) {
        (draft_pid, state)
    } else {
        generated_pid(procs, state)
    }
}

/// The process that saving adds: the form's fields, the name given, state
/// `Novo`, and the block of `size` cells from grid index `start`.
pub open spec fn is_new_process(
    p: Process,
    pid: u32,
    draft: &Draft,
    name: Seq<char>,
    start: int,
    size: usize,
) -> bool {
    &&& p.pid == pid
    &&& p.code == draft.code
    &&& p.priority == draft.priority
    &&& p.name@ == name
    &&& p.state == ProcState::Novo
    &&& p.celulas == draft.celulas
    &&& p.memory == MemoryBlock {
        x: (start / GRID_ROWS as int) as usize,
        y: (start % GRID_ROWS as int) as usize,
        length: size,
        code: draft.code,
    }
}

/// Colour codes of the seed processes.
pub const COR0: u8 = 0;
pub const COR1: u8 = 1;
pub const COR2: u8 = 2;
pub const COR3: u8 = 3;
pub const COR4: u8 = 4;
pub const COR5: u8 = 5;

/// `p` is a seed process with the given fields, priority 0, and a memory
/// block that begins at grid index `start`.
pub open spec fn is_seed(
    p: Process,
    pid: u32,
    code: u8,
    name: Seq<char>,
    state: ProcState,
    celulas: u8,
    start: int,
    length: usize,
) -> bool {
    &&& p.pid == pid
    &&& p.code == code
    &&& p.priority == 0
    &&& p.name@ == name
    &&& p.state == state
    &&& p.celulas == celulas
    &&& p.memory == MemoryBlock {
        x: (start / GRID_ROWS as int) as usize,
        y: (start % GRID_ROWS as int) as usize,
        length,
        code,
    }
}

/// The process table the simulation starts with.
pub open spec fn seed_processes(procs: Seq<Process>) -> bool {
    &&& procs.len() == 6
    &&& is_seed(procs[0], 1204, COR0, "systemd"@, ProcState::Running, 2, 0, 2)
    &&& is_seed(procs[1], 1310, COR3, "sshd"@, ProcState::Ready, 2, 2, 2)
    &&& is_seed(procs[2], 1877, COR1, "nginx"@, ProcState::Ready, 8, 4, 8)
    &&& is_seed(procs[3], 2045, COR4, "postgres"@, ProcState::Ready, 8, 12, 8)
    &&& is_seed(procs[4], 2231, COR2, "cron"@, ProcState::Ready, 2, 20, 2)
    &&& is_seed(procs[5], 2390, COR5, "rustc"@, ProcState::Ready, 16, 36, 16)
}

/// The memory grid the simulation starts with: the seed processes'
/// cells, handed out first-fit in table order, and the rest free.
pub open spec fn seed_grid() -> Seq<u8> {
    Seq::new(
        GRID_CELLS as nat,
        |i: int|
            if i < 2 {
                COR0
            } else if i < 4 {
                COR3
            } else if i < 12 {
                COR1
            } else if i < 20 {
                COR4
            } else if i < 22 {
                COR2
            } else if i < 38 {
                COR5
            } else {
                NULL
            },
    )
}

/// On a grid whose cells before `q` are all taken and whose `n` cells from
/// `q` on are free, first fit finds `q`.
proof fn lemma_fit_after_taken_prefix(cells: Seq<u8>, n: nat, q: int)
    requires
        0 <= q,
        q + n <= cells.len(),
        forall|i: int| 0 <= i < q ==> cells[i] != NULL,
        forall|i: int| q <= i < q + n ==> cells[i] == NULL,
        n > 0,
    ensures
        first_fit(cells, n) == Some(q),
{
    assert forall|r: int| 0 <= r < q implies !block_is_free(cells, r, n as int) by {
        assert(cells[r] != NULL);
    }
    lemma_first_fit_at(cells, n, q);
}

/// The form for a new process.
pub struct Draft {
    pub name: String,
    pub code: u8,
    /// From 0 to 15.
    pub priority: u8,
    /// Filled in automatically with a free PID.
    pub pid: Option<u32>,
    /// Number of memory cells the process asks for.
    pub celulas: u8,
}

impl Default for Draft {
    fn default() -> (r: Draft)
        ensures
            r.name@ == Seq::<char>::empty(),
            r.code == 0,
            r.priority == 0,
            r.pid is None,
            r.celulas == 0,
    {
        Draft { name: String::new(), code: 0, priority: 0, pid: None, celulas: 0 }
    }
}

/// The state of the simulation: the process table, the process that runs
/// and the one the user picked, the form for a new process, the PID
/// generator and the memory grid.
pub struct App {
    processes: Vec<Process>,
    selected: Option<u32>,
    focus: Option<u32>,
    draft: Draft,
    rng: Rng,
    grid: Vec<u8>,
}

impl App {
    /// The process table.
    pub closed spec fn procs(&self) -> Seq<Process> {
        self.processes@
    }

    /// The PID of the process that holds the CPU.
    pub closed spec fn selected_pid(&self) -> Option<u32> {
        self.selected
    }

    /// The PID that the user picked.
    pub closed spec fn focus_pid(&self) -> Option<u32> {
        self.focus
    }

    /// The form for a new process.
    pub closed spec fn draft_spec(&self) -> &Draft {
        &self.draft
    }

    /// The state of the PID generator.
    pub closed spec fn rng_state(&self) -> u64 {
        self.rng.state()
    }

    /// The colour code of each memory cell.
    pub closed spec fn cells(&self) -> Seq<u8> {
        self.grid@
    }

    /// The simulation's invariant: the grid keeps its size, PIDs are
    /// unique and every memory block lies inside the grid.
    pub open spec fn wf(&self) -> bool {
        &&& self.cells().len() == GRID_CELLS
        &&& pids_unique(self.procs())
        &&& blocks_in_grid(self.procs())
    }

    /// The grid is a faithful memory map of the table (see
    /// `memory_map_ok`).
    pub open spec fn memory_map_faithful(&self) -> bool {
        memory_map_ok(self.procs(), self.cells())
    }

    /// Saving the form under the name `name` took `pre` to `post` with
    /// outcome `r`. A blank name saves nothing. Otherwise the PID is chosen
    /// (which may advance the generator); with none free nothing is saved;
    /// with no free block of the clamped number of cells the memory has run
    /// out; else the block found first-fit is filled with the form's colour
    /// and the new process is appended. The running PID, the picked PID and
    /// the form never change.
    pub open spec fn save_effect(pre: App, name: Seq<char>, post: App, r: SaveOutcome) -> bool {
        let (pid, state) = chosen_pid(pre.procs(), pre.draft_spec().pid, pre.rng_state());
        let size = clamp_cells_spec(pre.draft_spec().celulas) as usize;
        &&& post.selected_pid() == pre.selected_pid()
        &&& post.focus_pid() == pre.focus_pid()
        &&& post.draft_spec() == pre.draft_spec()
        &&& if name.len() == 0 {
            &&& r == SaveOutcome::Ignored
            &&& post.procs() == pre.procs()
            &&& post.cells() == pre.cells()
            &&& post.rng_state() == pre.rng_state()
        } else {
            &&& post.rng_state() == state
            &&& match pid {
                None => {
                    &&& r == SaveOutcome::Ignored
                    &&& post.procs() == pre.procs()
                    &&& post.cells() == pre.cells()
                },
                Some(p) => match first_fit(pre.cells(), size as nat) {
                    None => {
                        &&& r == SaveOutcome::OutOfMemory
                        &&& post.procs() == pre.procs()
                        &&& post.cells() == pre.cells()
                    },
                    Some(start) => {
                        &&& r == SaveOutcome::Saved
                        &&& post.cells() == fill(
                            pre.cells(),
                            start,
                            size as int,
                            pre.draft_spec().code,
                        )
                        &&& post.procs().len() == pre.procs().len() + 1
                        &&& post.procs().drop_last() == pre.procs()
                        &&& is_new_process(
                            post.procs().last(),
                            p,
                            pre.draft_spec(),
                            name,
                            start,
                            size,
                        )
                    },
                },
            }
        }
    }

    /// Starts the simulation with the seed processes, their memory handed
    /// out on the grid, and the PID generator seeded from the clock.
    pub fn new() -> (r: App)
        ensures
            r.wf(),
            seed_processes(r.procs()),
            r.cells() == seed_grid(),
            r.selected_pid() == Some(1204u32),
            r.focus_pid() is None,
            r.draft_spec().name@ == Seq::<char>::empty(),
            r.draft_spec().code == 0,
            r.draft_spec().priority == 0,
            r.draft_spec().pid is None,
            r.draft_spec().celulas == 0,
            r.rng_state() % 2 == 1,
    {
        App::with_rng(Rng::from_time())
    }

    /// Starts the simulation as `new` does, with the given PID generator.
    pub fn with_rng(rng: Rng) -> (r: App)
        ensures
            r.wf(),
            seed_processes(r.procs()),
            r.cells() == seed_grid(),
            r.selected_pid() == Some(1204u32),
            r.focus_pid() is None,
            r.draft_spec().name@ == Seq::<char>::empty(),
            r.draft_spec().code == 0,
            r.draft_spec().priority == 0,
            r.draft_spec().pid is None,
            r.draft_spec().celulas == 0,
            r.rng_state() == rng.state(),
    {
        let mem_shape = MemoryBlock::new((0, 0), 2, COR0);
        let mem1 = mem_shape.offset(0, 2, COR0);
        let mem2 = mem_shape.offset(2, 2, COR3);
        let mem3 = mem_shape.offset(4, 8, COR1);
        let mem4 = mem_shape.offset(12, 8, COR4);
        let mem5 = mem_shape.offset(20, 2, COR2);
        let mem6 = mem_shape.offset(36, 16, COR5);
        let mut processes: Vec<Process> = Vec::new();
        processes.push(Process::new(1204, COR0, 0, "systemd", ProcState::Running, 2, mem1));
        processes.push(Process::new(1310, COR3, 0, "sshd", ProcState::Ready, 2, mem2));
        processes.push(Process::new(1877, COR1, 0, "nginx", ProcState::Ready, 8, mem3));
        processes.push(Process::new(2045, COR4, 0, "postgres", ProcState::Ready, 8, mem4));
        processes.push(Process::new(2231, COR2, 0, "cron", ProcState::Ready, 2, mem5));
        processes.push(Process::new(2390, COR5, 0, "rustc", ProcState::Ready, 16, mem6));
        let selected = Some(processes[0].pid);

        let mut grid: Vec<u8> = Vec::new();
        while grid.len() < GRID_CELLS
            invariant
                grid@.len() <= GRID_CELLS,
                forall|i: int| 0 <= i < grid@.len() ==> grid@[i] == NULL,
            decreases GRID_CELLS - grid@.len(),
        {
            grid.push(NULL);
        }
        Self::allocate_seed(&mut grid);

        let app = App {
            processes,
            selected,
            focus: None,
            draft: Draft::default(),
            rng,
            grid,
        };
        proof {
            assert(pids_unique(app.procs()));
        }
        app
    }

    /// Hands out the seed processes' memory on a free grid.
    fn allocate_seed(grid: &mut Vec<u8>)
        requires
            old(grid)@.len() == GRID_CELLS,
            forall|i: int| 0 <= i < GRID_CELLS ==> old(grid)@[i] == NULL,
        ensures
            final(grid)@ == seed_grid(),
    {
        proof {
            lemma_fit_after_taken_prefix(grid@, 2, 0);
        }
        allocate_memory(grid.as_mut_slice(), COR0, 2);
        proof {
            lemma_fit_after_taken_prefix(grid@, 2, 2);
        }
        allocate_memory(grid.as_mut_slice(), COR3, 2);
        proof {
            lemma_fit_after_taken_prefix(grid@, 8, 4);
        }
        allocate_memory(grid.as_mut_slice(), COR1, 8);
        proof {
            lemma_fit_after_taken_prefix(grid@, 8, 12);
        }
        allocate_memory(grid.as_mut_slice(), COR4, 8);
        proof {
            lemma_fit_after_taken_prefix(grid@, 2, 20);
        }
        allocate_memory(grid.as_mut_slice(), COR2, 2);
        proof {
            lemma_fit_after_taken_prefix(grid@, 16, 22);
        }
        allocate_memory(grid.as_mut_slice(), COR5, 16);
        assert(grid@ =~= seed_grid());
    }

    /// Some process has PID `pid`.
    pub fn pid_exists(&self, pid: u32) -> (r: bool)
        ensures
            r == has_pid(self.procs(), pid),
    {
        let mut i: usize = 0;
        while i < self.processes.len()
            invariant
                i <= self.processes@.len(),
                forall|j: int| 0 <= j < i ==> self.processes@[j].pid != pid,
            decreases self.processes@.len() - i,
        {
            if self.processes[i].pid == pid {
                return true;
            }
            i = i + 1;
        }
        false
    }

    /// Index of the first process with PID `pid`.
    fn position_of(&self, pid: u32) -> (r: Option<usize>)
        ensures
            match r {
                Some(i) => index_of(self.procs(), pid) == Some(i as int),
                None => index_of(self.procs(), pid) is None,
            },
            r matches Some(i) ==> i < self.procs().len() && self.procs()[i as int].pid == pid,
    {
        proof {
            lemma_index_of(self.procs(), pid);
        }
        let mut i: usize = 0;
        while i < self.processes.len()
            invariant
                i <= self.processes@.len(),
                index_of(self.procs(), pid) == index_of_from(self.procs(), pid, i as nat),
            decreases self.processes@.len() - i,
        {
            if self.processes[i].pid == pid {
                return Some(i);
            }
            i = i + 1;
        }
        None
    }

    /// Up to `PID_DRAWS` random draws; the first PID drawn that no process
    /// has.
    fn draw_free_pid(&mut self) -> (r: Option<u32>)
        ensures
            (r, final(self).rng_state()) == pid_draws(
                old(self).procs(),
                old(self).rng_state(),
                PID_DRAWS as nat,
            ),
            final(self).processes == old(self).processes,
            final(self).selected == old(self).selected,
            final(self).focus == old(self).focus,
            final(self).draft == old(self).draft,
            final(self).grid == old(self).grid,
    {
        let ghost procs = self.procs();
        let ghost s0 = self.rng_state();
        let mut k: u32 = 0;
        while k < PID_DRAWS
            invariant
                k <= PID_DRAWS,
                self.procs() == procs,
                procs == old(self).procs(),
                s0 == old(self).rng_state(),
                self.processes == old(self).processes,
                self.selected == old(self).selected,
                self.focus == old(self).focus,
                self.draft == old(self).draft,
                self.grid == old(self).grid,
                pid_draws(procs, s0, PID_DRAWS as nat) == pid_draws(
                    procs,
                    self.rng_state(),
                    (PID_DRAWS - k) as nat,
                ),
            decreases PID_DRAWS - k,
        {
            let ghost before = self.rng_state();
            let d = self.rng.below(PID_SPAN);
            let pid = PID_MIN + d as u32;
            proof {
                let after = self.rng_state();
                assert(after == xorshift(before));
                assert(pid == random_pid(after));
                assert(pid_draws(procs, before, (PID_DRAWS - k) as nat) == if !has_pid(procs, pid) {
                    (Some(pid), after)
                } else {
                    pid_draws(procs, after, (PID_DRAWS - k - 1) as nat)
                });
            }
            if !self.pid_exists(pid) {
                assert(!has_pid(procs, pid));
                assert(pid_draws(procs, s0, PID_DRAWS as nat) == (Some(pid), self.rng_state()));
                return Some(pid);
            }
            k = k + 1;
        }
        None
    }

    /// The lowest PID of the range that no process has.
    fn lowest_free_pid(&self) -> (r: Option<u32>)
        ensures
            r == first_free_pid_from(self.procs(), PID_MIN as int),
    {
        let mut p: u32 = PID_MIN;
        while p <= PID_MAX
            invariant
                PID_MIN <= p <= PID_MAX + 1,
                first_free_pid_from(self.procs(), PID_MIN as int) == first_free_pid_from(
                    self.procs(),
                    p as int,
                ),
            decreases PID_MAX + 1 - p,
        {
            if !self.pid_exists(p) {
                return Some(p);
            }
            p = p + 1;
        }
        None
    }

    /// Draws a PID that no process has: up to `PID_DRAWS` random draws, then
    /// the lowest free PID of the range; `None` when the range is full.
    pub fn generate_pid(&mut self) -> (r: Option<u32>)
        ensures
            r == generated_pid(old(self).procs(), old(self).rng_state()).0,
            final(self).rng_state() == generated_pid(old(self).procs(), old(self).rng_state()).1,
            r matches Some(p) ==> PID_MIN <= p <= PID_MAX && !has_pid(old(self).procs(), p),
            r is None <==> pid_range_full(old(self).procs()),
            final(self).procs() == old(self).procs(),
            final(self).selected_pid() == old(self).selected_pid(),
            final(self).focus_pid() == old(self).focus_pid(),
            final(self).draft_spec() == old(self).draft_spec(),
            final(self).cells() == old(self).cells(),
            old(self).wf() ==> final(self).wf(),
            old(self).memory_map_faithful() ==> final(self).memory_map_faithful(),
    {
        proof {
            lemma_generated_pid(self.procs(), self.rng_state());
        }
        match self.draw_free_pid() {
            Some(pid) => Some(pid),
            None => self.lowest_free_pid(),
        }
    }

    /// Index of the process that holds the CPU.
    pub fn selected_index(&self) -> (r: Option<usize>)
        ensures
            match r {
                Some(i) => index_of_opt(self.procs(), self.selected_pid()) == Some(i as int),
                None => index_of_opt(self.procs(), self.selected_pid()) is None,
            },
            r matches Some(i) ==> i < self.procs().len(),
    {
        match self.selected {
            Some(pid) => self.position_of(pid),
            None => None,
        }
    }

    /// Index of the process that the user picked.
    pub fn focused_index(&self) -> (r: Option<usize>)
        ensures
            match r {
                Some(i) => index_of_opt(self.procs(), self.focus_pid()) == Some(i as int),
                None => index_of_opt(self.procs(), self.focus_pid()) is None,
            },
            r matches Some(i) ==> i < self.procs().len(),
    {
        match self.focus {
            Some(pid) => self.position_of(pid),
            None => None,
        }
    }

    /// The process that holds the CPU.
    pub fn selected_process(&self) -> (r: Option<&Process>)
        ensures
            match index_of_opt(self.procs(), self.selected_pid()) {
                Some(i) => r matches Some(p) && *p == self.procs()[i],
                None => r is None,
            },
    {
        match self.selected_index() {
            Some(i) => Some(&self.processes[i]),
            None => None,
        }
    }

    /// Sets the state of the process at index `i`.
    fn set_state(&mut self, i: usize, state: ProcState)
        requires
            i < old(self).processes@.len(),
        ensures
            final(self).processes@ == old(self).processes@.update(
                i as int,
                with_state(old(self).processes@[i as int], state),
            ),
            final(self).processes@[i as int].state == state,
            final(self).selected == old(self).selected,
            final(self).focus == old(self).focus,
            final(self).draft == old(self).draft,
            final(self).rng == old(self).rng,
            final(self).grid == old(self).grid,
    {
        self.processes[i].state = state;
    }

    /// Passes the CPU round-robin: the running process becomes ready and the
    /// next one in the table runs (a terminating process keeps its state).
    /// The grid and the PID generator are left as they are: the grid is the
    /// memory map that allocation fills and freeing clears, and a grid drawn
    /// anew at random would erase every allocation and leave no free cell,
    /// so that no process could be created afterwards.
    pub fn advance(&mut self)
        ensures
            final(self).procs() == advanced(old(self).procs(), old(self).selected_pid()).0,
            final(self).selected_pid() == advanced(old(self).procs(), old(self).selected_pid()).1,
            final(self).procs().len() == old(self).procs().len(),
            forall|j: int|
                0 <= j < old(self).procs().len() && index_of_opt(old(self).procs(), old(self).selected_pid())
                    != Some(j) && next_index(old(self).procs(), old(self).selected_pid()) != j
                    ==> #[trigger] final(self).procs()[j] == old(self).procs()[j],
            final(self).focus_pid() == old(self).focus_pid(),
            final(self).draft_spec() == old(self).draft_spec(),
            final(self).rng_state() == old(self).rng_state(),
            final(self).cells() == old(self).cells(),
            old(self).wf() ==> final(self).wf(),
            old(self).memory_map_faithful() ==> final(self).memory_map_faithful(),
    {
        let ghost procs = self.procs();
        if let Some(pid) = self.selected {
            if let Some(i) = self.position_of(pid) {
                if self.processes[i].state != ProcState::Terminated {
                    self.set_state(i, ProcState::Ready);
                }
            }
        }
        assert(self.procs() == preempted(procs, self.selected));
        let len = self.processes.len();
        if len == 0 {
            self.selected = None;
        } else {
            proof {
                assert forall|j: int| 0 <= j < len implies #[trigger] self.procs()[j].pid == procs[j].pid by {}
                lemma_index_of_same_pids(self.procs(), procs, self.selected);
            }
            let next = match self.selected_index() {
                Some(i) => (i + 1) % len,
                None => 0,
            };
            if self.processes[next].state != ProcState::Terminated {
                self.set_state(next, ProcState::Running);
            }
            self.selected = Some(self.processes[next].pid);
        }
        proof {
            if old(self).wf() {
                assert forall|j: int| 0 <= j < self.procs().len() implies #[trigger] self.procs()[j].pid == procs[j].pid && self.procs()[j].memory == procs[j].memory by {}
            }
            lemma_advance_touches_two(procs, old(self).selected);
            if old(self).memory_map_faithful() {
                lemma_memory_map_advance(procs, old(self).selected, old(self).grid@);
                assert forall|j: int| 0 <= j < self.procs().len() implies #[trigger] self.procs()[j].memory == procs[j].memory && self.procs()[j].code == procs[j].code by {}
                lemma_memory_map_same_blocks(procs, self.procs(), self.grid@);
            }
        }
    }

    /// Ends the running process's time slice: the CPU passes on
    /// round-robin, and the process that held it, when it is terminating,
    /// leaves the table and the cells its memory block names are freed.
    pub fn end_time_slice(&mut self)
        requires
            old(self).wf(),
        ensures
            final(self).wf(),
            final(self).procs() == sliced_procs(old(self).procs(), old(self).selected_pid()),
            final(self).cells() == sliced_cells(
                old(self).procs(),
                old(self).selected_pid(),
                old(self).cells(),
            ),
            final(self).selected_pid() == advanced(old(self).procs(), old(self).selected_pid()).1,
            final(self).focus_pid() == old(self).focus_pid(),
            final(self).draft_spec() == old(self).draft_spec(),
            final(self).rng_state() == old(self).rng_state(),
            old(self).memory_map_faithful() ==> final(self).memory_map_faithful(),
    {
        proof {
            if self.memory_map_faithful() {
                lemma_memory_map_slice(self.procs(), self.selected, self.grid@);
            }
        }
        let index_to_remove = self.selected_index();
        self.advance();
        if let Some(id) = index_to_remove {
            if self.processes[id].state == ProcState::Terminated {
                let mem = self.processes[id].memory;
                proof {
                    assert(mem.start() + mem.length <= GRID_CELLS);
                }
                let start = coord_to_index(mem.x, mem.y);
                free_memory(self.grid.as_mut_slice(), start, mem.length);
                let ghost before = self.procs();
                self.processes.remove(id);
                proof {
                    assert forall|a: int, b: int|
                        0 <= a < self.procs().len() && 0 <= b < self.procs().len() && a != b
                        implies #[trigger] self.procs()[a].pid != #[trigger] self.procs()[b].pid by {
                        let a0 = if a < id { a } else { a + 1 };
                        let b0 = if b < id { b } else { b + 1 };
                        assert(before[a0].pid != before[b0].pid);
                    }
                    assert forall|a: int| 0 <= a < self.procs().len() implies #[trigger] self.procs()[a].memory.start()
                        + self.procs()[a].memory.length <= GRID_CELLS by {
                        let a0 = if a < id { a } else { a + 1 };
                        assert(before[a0].memory.start() + before[a0].memory.length <= GRID_CELLS);
                    }
                }
            }
        }
    }

    /// Picks the process with PID `pid`.
    pub fn set_focus(&mut self, pid: u32)
        ensures
            final(self).focus_pid() == Some(pid),
            final(self).procs() == old(self).procs(),
            final(self).selected_pid() == old(self).selected_pid(),
            final(self).draft_spec() == old(self).draft_spec(),
            final(self).rng_state() == old(self).rng_state(),
            final(self).cells() == old(self).cells(),
            old(self).wf() ==> final(self).wf(),
            old(self).memory_map_faithful() ==> final(self).memory_map_faithful(),
    {
        self.focus = Some(pid);
    }

    /// Sets the name typed in the form.
    pub fn set_draft_name(&mut self, name: String)
        ensures
            final(self).draft_spec().name == name,
            final(self).draft_spec().code == old(self).draft_spec().code,
            final(self).draft_spec().priority == old(self).draft_spec().priority,
            final(self).draft_spec().pid == old(self).draft_spec().pid,
            final(self).draft_spec().celulas == old(self).draft_spec().celulas,
            final(self).procs() == old(self).procs(),
            final(self).selected_pid() == old(self).selected_pid(),
            final(self).focus_pid() == old(self).focus_pid(),
            final(self).rng_state() == old(self).rng_state(),
            final(self).cells() == old(self).cells(),
            old(self).wf() ==> final(self).wf(),
            old(self).memory_map_faithful() ==> final(self).memory_map_faithful(),
    {
        self.draft.name = name;
    }

    /// Sets the colour code picked in the form.
    pub fn set_draft_color(&mut self, code: u8)
        ensures
            final(self).draft_spec().code == code,
            final(self).draft_spec().name == old(self).draft_spec().name,
            final(self).draft_spec().priority == old(self).draft_spec().priority,
            final(self).draft_spec().pid == old(self).draft_spec().pid,
            final(self).draft_spec().celulas == old(self).draft_spec().celulas,
            final(self).procs() == old(self).procs(),
            final(self).selected_pid() == old(self).selected_pid(),
            final(self).focus_pid() == old(self).focus_pid(),
            final(self).rng_state() == old(self).rng_state(),
            final(self).cells() == old(self).cells(),
            old(self).wf() ==> final(self).wf(),
            old(self).memory_map_faithful() ==> final(self).memory_map_faithful(),
    {
        self.draft.code = code;
    }

    /// Sets the priority picked in the form.
    pub fn set_draft_priority(&mut self, priority: u8)
        ensures
            final(self).draft_spec().priority == priority,
            final(self).draft_spec().name == old(self).draft_spec().name,
            final(self).draft_spec().code == old(self).draft_spec().code,
            final(self).draft_spec().pid == old(self).draft_spec().pid,
            final(self).draft_spec().celulas == old(self).draft_spec().celulas,
            final(self).procs() == old(self).procs(),
            final(self).selected_pid() == old(self).selected_pid(),
            final(self).focus_pid() == old(self).focus_pid(),
            final(self).rng_state() == old(self).rng_state(),
            final(self).cells() == old(self).cells(),
            old(self).wf() ==> final(self).wf(),
            old(self).memory_map_faithful() ==> final(self).memory_map_faithful(),
    {
        self.draft.priority = priority;
    }

    /// Sets the number of memory cells typed in the form.
    pub fn set_draft_celulas(&mut self, celulas: u8)
        ensures
            final(self).draft_spec().celulas == celulas,
            final(self).draft_spec().name == old(self).draft_spec().name,
            final(self).draft_spec().code == old(self).draft_spec().code,
            final(self).draft_spec().priority == old(self).draft_spec().priority,
            final(self).draft_spec().pid == old(self).draft_spec().pid,
            final(self).procs() == old(self).procs(),
            final(self).selected_pid() == old(self).selected_pid(),
            final(self).focus_pid() == old(self).focus_pid(),
            final(self).rng_state() == old(self).rng_state(),
            final(self).cells() == old(self).cells(),
            old(self).wf() ==> final(self).wf(),
            old(self).memory_map_faithful() ==> final(self).memory_map_faithful(),
    {
        self.draft.celulas = celulas;
    }

    /// Gives the form a newly generated PID.
    pub fn regenerate_pid(&mut self)
        ensures
            final(self).draft_spec().pid == generated_pid(old(self).procs(), old(self).rng_state()).0,
            final(self).rng_state() == generated_pid(old(self).procs(), old(self).rng_state()).1,
            final(self).draft_spec().name == old(self).draft_spec().name,
            final(self).draft_spec().code == old(self).draft_spec().code,
            final(self).draft_spec().priority == old(self).draft_spec().priority,
            final(self).draft_spec().celulas == old(self).draft_spec().celulas,
            final(self).procs() == old(self).procs(),
            final(self).selected_pid() == old(self).selected_pid(),
            final(self).focus_pid() == old(self).focus_pid(),
            final(self).cells() == old(self).cells(),
            old(self).wf() ==> final(self).wf(),
            old(self).memory_map_faithful() ==> final(self).memory_map_faithful(),
    {
        let pid = self.generate_pid();
        self.draft.pid = pid;
    }

    /// Clears the form and gives it a newly generated PID.
    pub fn reset_draft(&mut self)
        ensures
            final(self).draft_spec().pid == generated_pid(old(self).procs(), old(self).rng_state()).0,
            final(self).rng_state() == generated_pid(old(self).procs(), old(self).rng_state()).1,
            final(self).draft_spec().name@ == Seq::<char>::empty(),
            final(self).draft_spec().code == 0,
            final(self).draft_spec().priority == 0,
            final(self).draft_spec().celulas == 0,
            final(self).procs() == old(self).procs(),
            final(self).selected_pid() == old(self).selected_pid(),
            final(self).focus_pid() == old(self).focus_pid(),
            final(self).cells() == old(self).cells(),
            old(self).wf() ==> final(self).wf(),
            old(self).memory_map_faithful() ==> final(self).memory_map_faithful(),
    {
        let pid = self.generate_pid();
        let mut draft = Draft::default();
        draft.pid = pid;
        self.draft = draft;
    }

    /// Suspends the picked process; tells whether there was one.
    pub fn stop_focused(&mut self) -> (r: bool)
        ensures
            r == index_of_opt(old(self).procs(), old(self).focus_pid()) is Some,
            final(self).procs() == match index_of_opt(old(self).procs(), old(self).focus_pid()) {
                Some(i) => old(self).procs().update(
                    i,
                    with_state(old(self).procs()[i], ProcState::Suspend),
                ),
                None => old(self).procs(),
            },
            final(self).procs().len() == old(self).procs().len(),
            forall|j: int|
                0 <= j < old(self).procs().len() ==> (#[trigger] final(self).procs()[j]).state == if index_of_opt(
                    old(self).procs(),
                    old(self).focus_pid(),
                ) == Some(j) {
                    ProcState::Suspend
                } else {
                    old(self).procs()[j].state
                },
            final(self).selected_pid() == old(self).selected_pid(),
            final(self).focus_pid() == old(self).focus_pid(),
            final(self).draft_spec() == old(self).draft_spec(),
            final(self).rng_state() == old(self).rng_state(),
            final(self).cells() == old(self).cells(),
            old(self).wf() ==> final(self).wf(),
            old(self).memory_map_faithful() ==> final(self).memory_map_faithful(),
    {
        let ghost procs = self.procs();
        match self.focused_index() {
            Some(i) => {
                self.set_state(i, ProcState::Suspend);
                proof {
                    assert forall|j: int| 0 <= j < self.procs().len() implies #[trigger] self.procs()[j].pid == procs[j].pid && self.procs()[j].memory == procs[j].memory && self.procs()[j].code == procs[j].code by {}
                    if old(self).memory_map_faithful() {
                        lemma_memory_map_same_blocks(procs, self.procs(), self.grid@);
                    }
                }
                true
            },
            None => false,
        }
    }

    /// Marks the picked process as terminating; when no process is picked,
    /// the last process of the table is picked and marked.
    pub fn remove_focused(&mut self)
        ensures
            match index_of_opt(old(self).procs(), old(self).focus_pid()) {
                Some(i) => {
                    &&& final(self).procs() == old(self).procs().update(
                        i,
                        with_state(old(self).procs()[i], ProcState::Terminated),
                    )
                    &&& final(self).focus_pid() == old(self).focus_pid()
                },
                None => if old(self).procs().len() > 0 {
                    let last = old(self).procs().len() - 1;
                    &&& final(self).procs() == old(self).procs().update(
                        last,
                        with_state(old(self).procs()[last], ProcState::Terminated),
                    )
                    &&& final(self).focus_pid() == Some(old(self).procs()[last].pid)
                } else {
                    &&& final(self).procs() == old(self).procs()
                    &&& final(self).focus_pid() == old(self).focus_pid()
                },
            },
            final(self).procs().len() == old(self).procs().len(),
            forall|j: int|
                0 <= j < old(self).procs().len() ==> (#[trigger] final(self).procs()[j]).state == if j
                    == match index_of_opt(old(self).procs(), old(self).focus_pid()) {
                    Some(i) => i,
                    None => old(self).procs().len() - 1,
                } {
                    ProcState::Terminated
                } else {
                    old(self).procs()[j].state
                },
            final(self).selected_pid() == old(self).selected_pid(),
            final(self).draft_spec() == old(self).draft_spec(),
            final(self).rng_state() == old(self).rng_state(),
            final(self).cells() == old(self).cells(),
            old(self).wf() ==> final(self).wf(),
            old(self).memory_map_faithful() ==> final(self).memory_map_faithful(),
    {
        let ghost procs = self.procs();
        match self.focused_index() {
            Some(i) => {
                self.set_state(i, ProcState::Terminated);
            },
            None => {
                let len = self.processes.len();
                if len > 0 {
                    self.focus = Some(self.processes[len - 1].pid);
                    self.set_state(len - 1, ProcState::Terminated);
                }
            },
        }
        proof {
            assert forall|j: int| 0 <= j < self.procs().len() implies #[trigger] self.procs()[j].pid == procs[j].pid && self.procs()[j].memory == procs[j].memory && self.procs()[j].code == procs[j].code by {}
            if old(self).memory_map_faithful() {
                lemma_memory_map_same_blocks(procs, self.procs(), self.grid@);
            }
        }
    }

    /// Saves the form under the name `name` (already trimmed): see
    /// `save_effect`.
    pub fn save_named(&mut self, name: String) -> (r: SaveOutcome)
        requires
            old(self).wf(),
        ensures
            final(self).wf(),
            App::save_effect(*old(self), name@, *final(self), r),
            r == SaveOutcome::Saved ==> final(self).procs().last().name == name,
            old(self).memory_map_faithful() && old(self).draft_spec().code != NULL
                ==> final(self).memory_map_faithful(),
            name@.len() > 0 && r == SaveOutcome::Ignored ==> pid_range_full(
                old(self).procs(),
            ),
            r == SaveOutcome::Saved ==> !has_pid(old(self).procs(), final(self).procs().last().pid),
    {
        proof {
            lemma_generated_pid(self.procs(), self.rng_state());
        }
        if name.as_str().is_empty() {
            return SaveOutcome::Ignored;
        }
        let ghost procs = self.procs();
        let pid = match self.draft.pid {
            Some(p) => if !self.pid_exists(p) {
                Some(p)
            } else {
                self.generate_pid()
            },
            None => self.generate_pid(),
        };
        let pid = match pid {
            Some(p) => p,
            None => {
                return SaveOutcome::Ignored;
            },
        };
        let size = clamp_cells(self.draft.celulas) as usize;
        let color = self.draft.code;
        let start = match find_free_memory(self.grid.as_slice(), size) {
            Some(st) => st,
            None => {
                return SaveOutcome::OutOfMemory;
            },
        };
        proof {
            lemma_first_fit(self.grid@, size as nat);
        }
        let memory = MemoryBlock::new((0, 0), 0, 0).offset(start, size, color);
        allocate_memory(self.grid.as_mut_slice(), color, size);
        let process = Process {
            pid,
            code: self.draft.code,
            priority: self.draft.priority,
            name,
            state: ProcState::Novo,
            celulas: self.draft.celulas,
            memory,
        };
        self.processes.push(process);
        proof {
            lemma_generated_pid(procs, old(self).rng_state());
            assert(!has_pid(procs, pid));
            assert(self.procs().drop_last() =~= procs);
            assert forall|a: int, b: int|
                0 <= a < self.procs().len() && 0 <= b < self.procs().len() && a != b
                implies #[trigger] self.procs()[a].pid != #[trigger] self.procs()[b].pid by {
                if a == procs.len() {
                    assert(procs[b].pid != pid);
                } else if b == procs.len() {
                    assert(procs[a].pid != pid);
                } else {
                    assert(procs[a].pid != procs[b].pid);
                }
            }
            assert(memory.start() == start);
        }
        SaveOutcome::Saved
    }

    /// Saves the form: its name, trimmed, goes to `save_named`.
    pub fn save_process(&mut self) -> (r: SaveOutcome)
        requires
            old(self).wf(),
        ensures
            final(self).wf(),
            App::save_effect(
                *old(self),
                trim_whitespace(old(self).draft_spec().name@),
                *final(self),
                r,
            ),
            old(self).memory_map_faithful() && old(self).draft_spec().code != NULL
                ==> final(self).memory_map_faithful(),
            trim_whitespace(old(self).draft_spec().name@).len() > 0 && r == SaveOutcome::Ignored ==> pid_range_full(
                old(self).procs(),
            ),
            r == SaveOutcome::Saved ==> !has_pid(old(self).procs(), final(self).procs().last().pid),
    {
        let name = trim(self.draft.name.as_str()).to_string();
        proof {
            broadcast use vstd::string::to_string_from_display_ensures_for_str;
        }
        self.save_named(name)
    }

    /// What the form's PID is worth.
    pub fn pid_status(&self) -> (r: PidStatus)
        ensures
            r == match self.draft_spec().pid {
                Some(p) => if has_pid(self.procs(), p) {
                    PidStatus::Taken
                } else {
                    PidStatus::Free
                },
                None => PidStatus::Missing,
            },
    {
        match self.draft.pid {
            Some(p) => if self.pid_exists(p) {
                PidStatus::Taken
            } else {
                PidStatus::Free
            },
            None => PidStatus::Missing,
        }
    }

    /// The form may be saved: its PID is free and its name is not blank.
    pub fn can_save(&self) -> (r: bool)
        ensures
            r == (self.draft_spec().pid matches Some(p) && !has_pid(self.procs(), p)
                && trim_whitespace(self.draft_spec().name@).len() > 0),
    {
        let pid_free = match self.draft.pid {
            Some(p) => !self.pid_exists(p),
            None => false,
        };
        pid_free && !trim(self.draft.name.as_str()).is_empty()
    }

    /// The process table.
    pub fn processes(&self) -> (r: &[Process])
        ensures
            r@ == self.procs(),
    {
        self.processes.as_slice()
    }

    /// The PID of the process that holds the CPU.
    pub fn selected(&self) -> (r: Option<u32>)
        ensures
            r == self.selected_pid(),
    {
        self.selected
    }

    /// The PID that the user picked.
    pub fn focus(&self) -> (r: Option<u32>)
        ensures
            r == self.focus_pid(),
    {
        self.focus
    }

    /// The form for a new process.
    pub fn draft(&self) -> (r: &Draft)
        ensures
            r == self.draft_spec(),
    {
        &self.draft
    }

    /// The colour code of each memory cell.
    pub fn grid(&self) -> (r: &[u8])
        ensures
            r@ == self.cells(),
    {
        self.grid.as_slice()
    }

} // impl App

/// Saving never changes a memory cell that was taken: only free cells are
/// handed out.
pub proof fn lemma_save_keeps_taken_cells(pre: App, name: Seq<char>, post: App, r: SaveOutcome)
    requires
        App::save_effect(pre, name, post, r),
    ensures
        post.cells().len() == pre.cells().len(),
        forall|i: int|
            0 <= i < pre.cells().len() && pre.cells()[i] != NULL ==> #[trigger] post.cells()[i]
                == pre.cells()[i],
{
    let size = clamp_cells_spec(pre.draft_spec().celulas) as nat;
    lemma_first_fit(pre.cells(), size);
    if let Some(start) = first_fit(pre.cells(), size) {
        assert forall|i: int| 0 <= i < pre.cells().len() && pre.cells()[i] != NULL implies #[trigger] post.cells()[i] == pre.cells()[i] by {
            if start <= i < start + size {
                assert(pre.cells()[i] == NULL);
            }
        }
    }
}

/// A saved process gets a PID that no other process has.
pub proof fn lemma_save_fresh_pid(pre: App, name: Seq<char>, post: App, r: SaveOutcome)
    requires
        App::save_effect(pre, name, post, r),
        r == SaveOutcome::Saved,
    ensures
        !has_pid(pre.procs(), post.procs().last().pid),
        PID_MIN <= post.procs().last().pid <= PID_MAX || pre.draft_spec().pid == Some(
            post.procs().last().pid,
        ),
{
    lemma_generated_pid(pre.procs(), pre.rng_state());
}

/// Saving uses the form's PID when no process has it and a generated PID
/// otherwise: the PID chosen is never taken, and none is chosen only when
/// every PID of the range is taken.
pub proof fn lemma_chosen_pid(procs: Seq<Process>, draft_pid: Option<u32>, state: u64)
    ensures
        chosen_pid(procs, draft_pid, state).0 matches Some(p) ==> !has_pid(procs, p),
        chosen_pid(procs, draft_pid, state).0 is None ==> pid_range_full(procs),
        draft_pid matches Some(p) && !has_pid(procs, p) ==> chosen_pid(procs, draft_pid, state).0
            == draft_pid,
        (draft_pid matches Some(p) && has_pid(procs, p)) ==> chosen_pid(procs, draft_pid, state)
            == generated_pid(procs, state),
{
    lemma_generated_pid(procs, state);
}

/// A saved process's memory is the lowest block of free cells of its size
/// (first fit), and after saving every cell of it holds the process's code.
pub proof fn lemma_save_first_fit(pre: App, name: Seq<char>, post: App, r: SaveOutcome)
    requires
        pre.wf(),
        App::save_effect(pre, name, post, r),
        r == SaveOutcome::Saved,
    ensures
        ({
            let p = post.procs().last();
            let start = p.memory.start();
            let n = p.memory.length as int;
            &&& n == clamp_cells_spec(pre.draft_spec().celulas)
            &&& block_is_free(pre.cells(), start, n)
            &&& forall|q: int| 0 <= q < start ==> !block_is_free(pre.cells(), q, n)
            &&& forall|c: int| start <= c < start + n ==> #[trigger] post.cells()[c] == p.code
            &&& forall|c: int|
                0 <= c < pre.cells().len() && !(start <= c < start + n) ==> #[trigger] post.cells()[c]
                    == pre.cells()[c]
        }),
{
    let size = clamp_cells_spec(pre.draft_spec().celulas) as nat;
    lemma_first_fit(pre.cells(), size);
    let start = first_fit(pre.cells(), size)->0;
    let p = post.procs().last();
    assert(first_fit(pre.cells(), size) is Some);
    assert(block_is_free(pre.cells(), start, size as int));
    let pid = chosen_pid(pre.procs(), pre.draft_spec().pid, pre.rng_state()).0;
    assert(is_new_process(p, pid->0, pre.draft_spec(), name, start, size as usize));
    assert(p.memory.start() == start) by {
        let q = start / (GRID_ROWS as int);
        let m = start % (GRID_ROWS as int);
        assert(q * (GRID_ROWS as int) + m == start) by (nonlinear_arith)
            requires
                q == start / (GRID_ROWS as int),
                m == start % (GRID_ROWS as int),
                GRID_ROWS as int > 0,
        ;
        assert(0 <= q && 0 <= m) by (nonlinear_arith)
            requires
                q == start / (GRID_ROWS as int),
                m == start % (GRID_ROWS as int),
                start >= 0,
                GRID_ROWS as int > 0,
        ;
    }
}

} // verus!
