use vstd::prelude::*;
use crate::memory::GRID_ROWS;

verus! {

/// The life-cycle state of a simulated process.
#[derive(Debug, Clone, Copy, PartialEq, Eq, Structural)]
pub enum ProcState {
    Novo,
    Running,
    Ready,
    Blocked,
    Suspend,
    Terminated,
}

impl ProcState {
    /// The label shown for the state.
    pub fn label(self) -> (r: &'static str)
        ensures
            r@ == match self {
                ProcState::Novo => "Novo"@,
                ProcState::Running => "Executando"@,
                ProcState::Ready => "Pronto"@,
                ProcState::Blocked => "Espera"@,
                ProcState::Suspend => "[Suspenso]"@,
                ProcState::Terminated => "Finalizando..."@,
            },
    {
        match self {
            ProcState::Novo => "Novo",
            ProcState::Running => "Executando",
            ProcState::Ready => "Pronto",
            ProcState::Blocked => "Espera",
            ProcState::Suspend => "[Suspenso]",
            ProcState::Terminated => "Finalizando...",
        }
    }

    /// The English name of the state.
    pub fn _translate(self) -> (r: &'static str)
        ensures
            r@ == match self {
                ProcState::Novo => "New"@,
                ProcState::Running => "Running"@,
                ProcState::Ready => "Ready"@,
                ProcState::Blocked => "Blocked"@,
                ProcState::Suspend => "[Suspended]"@,
                ProcState::Terminated => "Terminated..."@,
            },
    {
        match self {
            ProcState::Novo => "New",
            ProcState::Running => "Running",
            ProcState::Ready => "Ready",
            ProcState::Blocked => "Blocked",
            ProcState::Suspend => "[Suspended]",
            ProcState::Terminated => "Terminated...",
        }
    }
}

/// Where a process's memory lies on the grid: column, row, length in
/// cells, and the colour code it was filled with.
#[derive(Debug, Clone, Copy)]
pub struct MemoryBlock {
    pub x: usize,
    pub y: usize,
    pub length: usize,
    pub code: u8,
}

impl MemoryBlock {
    /// A block at the coordinate `(x, y)`.
    pub fn new(coord: (usize, usize), length: usize, code: u8) -> (r: MemoryBlock)
        ensures
            r == (MemoryBlock { x: coord.0, y: coord.1, length, code }),
    {
        let (x, y) = coord;
        MemoryBlock { x, y, length, code }
    }

    /// The block that begins at cell index `delta` of the grid, whatever
    /// `self` is.
    pub fn offset(&self, delta: usize, length: usize, color: u8) -> (r: MemoryBlock)
        ensures
            r == (MemoryBlock {
                x: delta / GRID_ROWS,
                y: delta % GRID_ROWS,
                length,
                code: color,
            }),
    {
        MemoryBlock { x: delta / GRID_ROWS, y: delta % GRID_ROWS, length, code: color }
    }

    /// The grid index of the block's first cell.
    pub open spec fn start(self) -> int {
        self.x * GRID_ROWS + self.y
    }
}

/// A simulated process.
#[derive(Debug, Clone)]
pub struct Process {
    pub pid: u32,
    /// Colour code (its remainder by 6 picks the palette entry).
    pub code: u8,
    pub priority: u8,
    pub name: String,
    pub state: ProcState,
    /// Number of memory cells asked for.
    pub celulas: u8,
    pub memory: MemoryBlock,
}

impl Process {
    /// A process with the given fields; `name` is copied.
    pub fn new(
        pid: u32,
        code: u8,
        priority: u8,
        name: &str,
        state: ProcState,
        celulas: u8,
        memory: MemoryBlock,
    ) -> (r: Process)
        ensures
            r.pid == pid,
            r.code == code,
            r.priority == priority,
            r.name@ == name@,
            r.state == state,
            r.celulas == celulas,
            r.memory == memory,
    {
        broadcast use vstd::string::to_string_from_display_ensures_for_str;

        Process { pid, code, priority, name: name.to_string(), state, celulas, memory }
    }
}

/// The palette entry that a colour code picks.
pub open spec fn color_index(code: u8) -> u8 {
    code % 6
}

/// The name of the colour that `code` picks from the palette.
pub fn color_name(code: u8) -> (r: &'static str)
    ensures
        r@ == match color_index(code) {
            0 => "green"@,
            1 => "red"@,
            2 => "orange"@,
            3 => "blue"@,
            4 => "purple"@,
            _ => "yellow"@,
        },
{
    match code % 6 {
        0 => "green",
        1 => "red",
        2 => "orange",
        3 => "blue",
        4 => "purple",
        _ => "yellow",
    }
}

/// The palette entry a grid cell is drawn with: code 00 is drawn green and
/// code 03 blue; every other code, the free-cell code among them, is drawn
/// as an empty cell.
pub fn grid_color_index(code: u8) -> (r: Option<u8>)
    ensures
        r == if code == 0 || code == 3 {
            Some(color_index(code))
        } else {
            None::<u8>
        },
{
    if code == 0 || code == 3 {
        Some(code % 6)
    } else {
        None
    }
}

} // verus!
