# sigmap

Core of **Sigma P**, a simulator of operating-system process execution, as a
verified Verus library.

- `src/` — the verified library:
  - `rng.rs` — xorshift PID generator, seeded from the clock;
  - `memory.rs` — the memory grid: first-fit search, allocation and release
    of blocks of cells;
  - `memory_map.rs` — the law that every operation keeps the grid a
    faithful memory map of the process table where it is one (the seed
    table is not: `rustc`'s block is recorded from cell 36 while its cells
    are 22 to 37);
  - `process.rs` — processes, their states and memory blocks;
  - `kind.rs` — the kinds of window and their titles;
  - `input.rs` — reading the form's fields (trimmed names, cell counts);
  - `pids.rs` — PID lookup and generation, stated over the process table;
  - `schedule.rs` — round-robin scheduling and the end of a time slice,
    stated over the process table, with their laws;
  - `app.rs` — the simulation: process table, round-robin scheduling on one
    core (the grid is not redrawn when the CPU passes on: it is the memory
    map), the new-process form, PID generation and the invariant that every
    operation keeps (unique PIDs, memory blocks inside the grid).
- `app/` — the iced user interface around the library: windows, timer,
  drawing.
- `tests/` — tests of the library.
