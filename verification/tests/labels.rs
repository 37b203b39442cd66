use sigmap::app::{PidStatus, SaveOutcome};
use sigmap::input::{celulas_from_input, celulas_from_parsed, clamp_cells};
use sigmap::kind::{window_title, Kind};
use sigmap::process::{color_name, MemoryBlock, ProcState, Process};

#[test]
fn kind_titles() {
    assert_eq!(Kind::Menu.title(), "Menu");
    assert_eq!(Kind::Tasks.title(), "F4 - Lista de Processos");
    assert_eq!(Kind::Detail.title(), "F5 - Detalhes do PID");
    assert_eq!(Kind::Grid.title(), "F6 - Memória");
    assert_eq!(Kind::Register.title(), "Novo Processo");
}

#[test]
fn window_title_falls_back() {
    assert_eq!(window_title(Some(Kind::Grid)), "F6 - Memória");
    assert_eq!(window_title(None), "Multijanelas");
}

#[test]
fn function_keys_open_windows() {
    assert_eq!(Kind::from_function_key(4), Some(Kind::Tasks));
    assert_eq!(Kind::from_function_key(5), Some(Kind::Detail));
    assert_eq!(Kind::from_function_key(6), Some(Kind::Grid));
    assert_eq!(Kind::from_function_key(3), None);
    assert_eq!(Kind::from_function_key(7), None);
}

#[test]
fn state_labels() {
    assert_eq!(ProcState::Novo.label(), "Novo");
    assert_eq!(ProcState::Running.label(), "Executando");
    assert_eq!(ProcState::Ready.label(), "Pronto");
    assert_eq!(ProcState::Blocked.label(), "Espera");
    assert_eq!(ProcState::Suspend.label(), "[Suspenso]");
    assert_eq!(ProcState::Terminated.label(), "Finalizando...");
}

#[test]
fn state_translations() {
    assert_eq!(ProcState::Novo._translate(), "New");
    assert_eq!(ProcState::Running._translate(), "Running");
    assert_eq!(ProcState::Ready._translate(), "Ready");
    assert_eq!(ProcState::Blocked._translate(), "Blocked");
    assert_eq!(ProcState::Suspend._translate(), "[Suspended]");
    assert_eq!(ProcState::Terminated._translate(), "Terminated...");
}

#[test]
fn color_names_cycle_by_six() {
    assert_eq!(color_name(0), "green");
    assert_eq!(color_name(1), "red");
    assert_eq!(color_name(2), "orange");
    assert_eq!(color_name(3), "blue");
    assert_eq!(color_name(4), "purple");
    assert_eq!(color_name(5), "yellow");
    assert_eq!(color_name(9), "blue");
    assert_eq!(color_name(255), "blue");
}

#[test]
fn memory_block_offset_ignores_self() {
    let shape = MemoryBlock::new((7, 8), 2, 1);
    assert_eq!((shape.x, shape.y, shape.length, shape.code), (7, 8, 2, 1));
    let b = shape.offset(37, 16, 5);
    assert_eq!((b.x, b.y, b.length, b.code), (2, 5, 16, 5));
    let c = shape.offset(0, 3, 4);
    assert_eq!((c.x, c.y, c.length, c.code), (0, 0, 3, 4));
}

#[test]
fn process_new_copies_fields() {
    let m = MemoryBlock::new((1, 2), 4, 3);
    let p = Process::new(4321, 3, 7, "init", ProcState::Blocked, 4, m);
    assert_eq!(p.pid, 4321);
    assert_eq!(p.code, 3);
    assert_eq!(p.priority, 7);
    assert_eq!(p.name, "init");
    assert_eq!(p.state, ProcState::Blocked);
    assert_eq!(p.celulas, 4);
    assert_eq!((p.memory.x, p.memory.y, p.memory.length), (1, 2, 4));
}

#[test]
fn cells_are_clamped() {
    assert_eq!(clamp_cells(0), 2);
    assert_eq!(clamp_cells(2), 2);
    assert_eq!(clamp_cells(9), 9);
    assert_eq!(clamp_cells(16), 16);
    assert_eq!(clamp_cells(200), 16);
    assert_eq!(celulas_from_parsed(None), 2);
    assert_eq!(celulas_from_parsed(Some(40)), 16);
}

#[test]
fn cells_from_typed_text() {
    assert_eq!(celulas_from_input("7"), 7);
    assert_eq!(celulas_from_input("12"), 12);
    assert_eq!(celulas_from_input("1"), 2);
    assert_eq!(celulas_from_input("99"), 16);
    assert_eq!(celulas_from_input("300"), 2);
    assert_eq!(celulas_from_input("abc"), 2);
    assert_eq!(celulas_from_input(""), 2);
}

#[test]
fn pid_status_labels() {
    assert_eq!(PidStatus::Free.label(), "PID livre: não existe na lista");
    assert_eq!(PidStatus::Taken.label(), "Esse PID já existe na lista, gere outro");
    assert_eq!(PidStatus::Missing.label(), "Não há PID livre");
    assert_ne!(SaveOutcome::Saved, SaveOutcome::Ignored);
}

#[test]
fn grid_cells_drawn_green_or_blue_only() {
    assert_eq!(sigmap::process::grid_color_index(0), Some(0));
    assert_eq!(sigmap::process::grid_color_index(3), Some(3));
    assert_eq!(sigmap::process::grid_color_index(1), None);
    assert_eq!(sigmap::process::grid_color_index(5), None);
    assert_eq!(sigmap::process::grid_color_index(99), None);
}

#[test]
fn cells_text_accepts_plus_sign_only() {
    assert_eq!(celulas_from_input("+7"), 7);
    assert_eq!(celulas_from_input("007"), 7);
    assert_eq!(celulas_from_input("-7"), 2);
    assert_eq!(celulas_from_input(" 7"), 2);
    assert_eq!(celulas_from_input("+"), 2);
}
