use sigmap::app::{App, PidStatus, SaveOutcome};
use sigmap::pids::{PID_MAX, PID_MIN};
use sigmap::memory::{GRID_CELLS, NULL};
use sigmap::process::ProcState;
use sigmap::process::ProcState::{Ready, Running, Suspend, Terminated};
use sigmap::rng::Rng;

fn seeded() -> App {
    App::with_rng(Rng::from_clock(Some(42)))
}

fn pids(app: &App) -> Vec<u32> {
    app.processes().iter().map(|p| p.pid).collect()
}

fn states(app: &App) -> Vec<ProcState> {
    app.processes().iter().map(|p| p.state).collect()
}

fn assert_unique_pids(app: &App) {
    let mut v = pids(app);
    v.sort();
    v.dedup();
    assert_eq!(v.len(), app.processes().len());
}

#[test]
fn starts_with_seed_table() {
    let app = seeded();
    assert_eq!(pids(&app), vec![1204, 1310, 1877, 2045, 2231, 2390]);
    let names: Vec<&str> = app.processes().iter().map(|p| p.name.as_str()).collect();
    assert_eq!(names, vec!["systemd", "sshd", "nginx", "postgres", "cron", "rustc"]);
    assert_eq!(states(&app), vec![Running, Ready, Ready, Ready, Ready, Ready]);
    assert_eq!(app.selected(), Some(1204));
    assert_eq!(app.focus(), None);
    let rustc = &app.processes()[5];
    assert_eq!((rustc.memory.x, rustc.memory.y, rustc.memory.length, rustc.memory.code), (2, 4, 16, 5));
    assert_eq!(app.draft().name, "");
    assert_eq!(app.draft().pid, None);
}

#[test]
fn starts_with_seed_grid() {
    let app = seeded();
    let grid = app.grid();
    assert_eq!(grid.len(), GRID_CELLS);
    assert_eq!(&grid[0..2], &[0, 0]);
    assert_eq!(&grid[2..4], &[3, 3]);
    assert_eq!(&grid[4..12], &[1; 8]);
    assert_eq!(&grid[12..20], &[4; 8]);
    assert_eq!(&grid[20..22], &[2, 2]);
    assert_eq!(&grid[22..38], &[5; 16]);
    assert!(grid[38..].iter().all(|&c| c == NULL));
}

#[test]
fn new_reads_the_clock() {
    let app = App::new();
    assert_eq!(app.processes().len(), 6);
    assert_eq!(app.selected(), Some(1204));
}

#[test]
fn pid_exists_and_indices() {
    let mut app = seeded();
    assert!(app.pid_exists(1877));
    assert!(!app.pid_exists(1878));
    assert_eq!(app.selected_index(), Some(0));
    assert_eq!(app.focused_index(), None);
    app.set_focus(2045);
    assert_eq!(app.focused_index(), Some(3));
    app.set_focus(5);
    assert_eq!(app.focused_index(), None);
    assert_eq!(app.selected_process().map(|p| p.pid), Some(1204));
}

#[test]
fn generated_pid_is_free_and_in_range() {
    let mut app = seeded();
    for _ in 0..100 {
        let pid = app.generate_pid().unwrap();
        assert!(PID_MIN <= pid && pid <= PID_MAX);
        assert!(!app.pid_exists(pid));
    }
}

#[test]
fn generated_pid_depends_on_the_seed_alone() {
    let mut a = seeded();
    let mut b = seeded();
    for _ in 0..10 {
        assert_eq!(a.generate_pid(), b.generate_pid());
    }
}

#[test]
fn advance_is_round_robin() {
    let mut app = seeded();
    app.advance();
    assert_eq!(app.selected(), Some(1310));
    assert_eq!(states(&app), vec![Ready, Running, Ready, Ready, Ready, Ready]);
    for _ in 0..4 {
        app.advance();
    }
    assert_eq!(app.selected(), Some(2390));
    app.advance();
    assert_eq!(app.selected(), Some(1204));
    assert_eq!(states(&app), vec![Running, Ready, Ready, Ready, Ready, Ready]);
}

#[test]
fn advance_keeps_terminated_and_suspended_rules() {
    let mut app = seeded();
    app.set_focus(1310);
    app.remove_focused();
    assert_eq!(states(&app)[1], Terminated);
    app.advance();
    assert_eq!(app.selected(), Some(1310));
    assert_eq!(states(&app), vec![Ready, Terminated, Ready, Ready, Ready, Ready]);
    app.set_focus(1877);
    assert!(app.stop_focused());
    assert_eq!(states(&app)[2], Suspend);
    app.advance();
    assert_eq!(app.selected(), Some(1877));
    assert_eq!(states(&app), vec![Ready, Terminated, Running, Ready, Ready, Ready]);
}

#[test]
fn advance_on_unknown_selection_starts_at_first() {
    let mut app = seeded();
    app.set_focus(1204);
    app.remove_focused();
    app.end_time_slice();
    assert_eq!(pids(&app), vec![1310, 1877, 2045, 2231, 2390]);
    assert_eq!(app.selected(), Some(1310));
    app.set_focus(2390);
    for _ in 0..4 {
        app.advance();
    }
    assert_eq!(app.selected(), Some(2390));
    app.remove_focused();
    app.end_time_slice();
    assert_eq!(app.selected(), Some(1310));
    assert_eq!(pids(&app), vec![1310, 1877, 2045, 2231]);
}

#[test]
fn end_time_slice_reaps_terminated_process() {
    let mut app = seeded();
    app.set_focus(1204);
    app.remove_focused();
    app.end_time_slice();
    assert_eq!(pids(&app), vec![1310, 1877, 2045, 2231, 2390]);
    assert_eq!(app.selected(), Some(1310));
    assert_eq!(&app.grid()[0..4], &[NULL, NULL, 3, 3]);
    assert_eq!(app.processes()[0].state, ProcState::Running);
}

#[test]
fn end_time_slice_keeps_live_process() {
    let mut app = seeded();
    let grid = app.grid().to_vec();
    app.end_time_slice();
    assert_eq!(app.processes().len(), 6);
    assert_eq!(app.selected(), Some(1310));
    assert_eq!(app.grid(), &grid[..]);
}

#[test]
fn reaping_frees_the_cells_the_block_names() {
    let mut app = seeded();
    for _ in 0..5 {
        app.advance();
    }
    assert_eq!(app.selected(), Some(2390));
    app.set_focus(2390);
    app.remove_focused();
    app.end_time_slice();
    assert!(!app.pid_exists(2390));
    let grid = app.grid();
    assert!(grid[22..36].iter().all(|&c| c == 5));
    assert!(grid[36..52].iter().all(|&c| c == NULL));
}

#[test]
fn remove_focused_without_focus_takes_last() {
    let mut app = seeded();
    app.remove_focused();
    assert_eq!(app.focus(), Some(2390));
    assert_eq!(app.processes()[5].state, ProcState::Terminated);
}

#[test]
fn stop_focused_without_focus_does_nothing() {
    let mut app = seeded();
    assert!(!app.stop_focused());
    assert!(app.processes().iter().all(|p| p.state != ProcState::Suspend));
}

#[test]
fn save_with_blank_name_is_ignored() {
    let mut app = seeded();
    app.reset_draft();
    assert_eq!(app.save_process(), SaveOutcome::Ignored);
    app.set_draft_name("   ".to_string());
    assert_eq!(app.save_process(), SaveOutcome::Ignored);
    assert_eq!(app.processes().len(), 6);
}

#[test]
fn save_adds_process_with_trimmed_name() {
    let mut app = seeded();
    app.reset_draft();
    let pid = app.draft().pid.unwrap();
    app.set_draft_name("  web  ".to_string());
    app.set_draft_color(3);
    app.set_draft_priority(9);
    app.set_draft_celulas(1);
    assert!(app.can_save());
    assert_eq!(app.pid_status(), PidStatus::Free);
    assert_eq!(app.save_process(), SaveOutcome::Saved);
    let p = app.processes().last().unwrap();
    assert_eq!(p.pid, pid);
    assert_eq!(p.name, "web");
    assert_eq!(p.code, 3);
    assert_eq!(p.priority, 9);
    assert_eq!(p.celulas, 1);
    assert_eq!(p.state, ProcState::Novo);
    assert_eq!((p.memory.x, p.memory.y, p.memory.length, p.memory.code), (2, 6, 2, 3));
    assert_eq!(&app.grid()[36..41], &[5, 5, 3, 3, NULL]);
    assert_eq!(app.pid_status(), PidStatus::Taken);
    assert!(!app.can_save());
}

#[test]
fn save_regenerates_a_taken_pid() {
    let mut app = seeded();
    app.set_draft_name("db".to_string());
    app.set_draft_celulas(4);
    assert_eq!(app.pid_status(), PidStatus::Missing);
    assert!(!app.can_save());
    assert_eq!(app.save_process(), SaveOutcome::Saved);
    assert_eq!(app.save_process(), SaveOutcome::Saved);
    assert_eq!(app.processes().len(), 8);
    assert_unique_pids(&app);
    assert_eq!(&app.grid()[38..46], &[0; 8]);
}

#[test]
fn save_in_a_full_grid_runs_out_of_memory() {
    let mut app = seeded();
    app.set_draft_name("big".to_string());
    app.set_draft_celulas(16);
    for _ in 0..21 {
        assert_eq!(app.save_process(), SaveOutcome::Saved);
    }
    let grid = app.grid().to_vec();
    assert_eq!(app.save_process(), SaveOutcome::OutOfMemory);
    assert_eq!(app.processes().len(), 27);
    assert_eq!(app.grid(), &grid[..]);
    assert_unique_pids(&app);
    app.set_draft_celulas(2);
    assert_eq!(app.save_process(), SaveOutcome::Saved);
}

#[test]
fn save_keeps_taken_cells() {
    let mut app = seeded();
    let before = app.grid().to_vec();
    app.set_draft_name("x".to_string());
    app.set_draft_celulas(5);
    assert_eq!(app.save_process(), SaveOutcome::Saved);
    for (i, &c) in before.iter().enumerate() {
        if c != NULL {
            assert_eq!(app.grid()[i], c);
        }
    }
}

#[test]
fn regenerate_and_reset_draft() {
    let mut app = seeded();
    app.set_draft_name("keep".to_string());
    app.set_draft_color(4);
    app.regenerate_pid();
    assert!(app.draft().pid.is_some());
    assert_eq!(app.draft().name, "keep");
    assert_eq!(app.draft().code, 4);
    app.reset_draft();
    assert_eq!(app.draft().name, "");
    assert_eq!(app.draft().code, 0);
    assert!(app.draft().pid.is_some());
}

fn block_of(p: &sigmap::process::Process) -> std::ops::Range<usize> {
    let start = p.memory.x * 16 + p.memory.y;
    start..start + p.memory.length
}

#[test]
fn memory_map_follows_saves_and_reaps() {
    let mut app = seeded();
    app.set_draft_name("a".to_string());
    app.set_draft_color(1);
    app.set_draft_celulas(3);
    assert_eq!(app.save_process(), SaveOutcome::Saved);
    app.set_draft_color(4);
    app.set_draft_celulas(5);
    assert_eq!(app.save_process(), SaveOutcome::Saved);
    let saved: Vec<_> = app.processes()[6..].iter().map(|p| (p.pid, block_of(p), p.code)).collect();
    for (_, block, code) in &saved {
        assert!(app.grid()[block.clone()].iter().all(|c| c == code));
    }
    assert!(saved[0].1.end <= saved[1].1.start);
    // Reap the first saved process: exactly its block is freed.
    let (pid, block, _) = saved[0].clone();
    for _ in 0..6 {
        app.advance();
    }
    assert_eq!(app.selected(), Some(pid));
    app.set_focus(pid);
    app.remove_focused();
    let before = app.grid().to_vec();
    app.end_time_slice();
    for i in 0..GRID_CELLS {
        if block.contains(&i) {
            assert_eq!(app.grid()[i], NULL);
        } else {
            assert_eq!(app.grid()[i], before[i]);
        }
    }
    let (_, block2, code2) = &saved[1];
    assert!(app.grid()[block2.clone()].iter().all(|c| c == code2));
}

#[test]
fn save_trims_unicode_white_space() {
    let mut app = seeded();
    app.set_draft_name("\t\u{3000}web\u{a0}\n".to_string());
    assert_eq!(app.save_process(), SaveOutcome::Saved);
    assert_eq!(app.processes().last().unwrap().name, "web");
    app.set_draft_name("\u{2003}\u{85}".to_string());
    assert_eq!(app.save_process(), SaveOutcome::Ignored);
}
