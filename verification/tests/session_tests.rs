use langton_ant::ant::LangtonsAnt;
use langton_ant::config::Solution;
use langton_ant::session::{Activity, RunStatus, Session};

#[test]
fn new_session_is_paused_on_fresh_grid() {
    let s = Session::new(70, 70);
    assert_eq!(s.sim.ant, (35, 35, 0));
    assert_eq!(s.snapshot.ant, (35, 35, 0));
    assert!(!s.running);
    assert_eq!(s.steps_per_frame, 50);
    assert!(!s.ant_mode);
    assert_eq!(s.status, RunStatus::Clear);
    assert_eq!(s.activity(), Activity::Paused);
}

#[test]
fn run_request_zero_and_invalid() {
    let mut s = Session::new(5, 5);
    s.running = true;
    s.do_run_n(Some(0));
    assert_eq!(s.status, RunStatus::NeedsPositive);
    assert!(!s.running);
    assert_eq!(s.sim.step_count, 0);
    s.do_run_n(None);
    assert_eq!(s.status, RunStatus::InvalidNumber);
}

#[test]
fn run_request_reports_steps() {
    let mut s = Session::new(9, 9);
    s.do_run_n(Some(3));
    assert_eq!(s.status, RunStatus::Ran { done: 3, total: 3 });
    s.do_run_n(Some(2));
    assert_eq!(s.status, RunStatus::Ran { done: 2, total: 5 });
}

#[test]
fn run_request_reports_exit() {
    let mut s = Session::new(2, 2);
    s.do_run_n(Some(10));
    assert_eq!(s.status, RunStatus::RanThenExited { done: 1, total: 1 });
    assert_eq!(s.activity(), Activity::OutOfBounds);
    s.do_run_n(Some(10));
    assert_eq!(s.status, RunStatus::RanThenExited { done: 0, total: 1 });
}

#[test]
fn reset_returns_to_snapshot() {
    let mut s = Session::new(9, 9);
    s.do_run_n(Some(4));
    s.take_snapshot();
    s.do_run_n(Some(6));
    assert_eq!(s.sim.step_count, 10);
    s.running = true;
    s.reset();
    assert_eq!(s.sim.step_count, 4);
    assert_eq!(s.sim.grid, s.snapshot.grid);
    assert_eq!(s.sim.ant, s.snapshot.ant);
    assert!(!s.running);
    assert_eq!(s.status, RunStatus::Clear);
}

#[test]
fn resize_replaces_simulation_and_snapshot() {
    let mut s = Session::new(9, 9);
    s.do_run_n(Some(4));
    s.resize_grid(3, 1);
    assert_eq!((s.sim.rows, s.sim.cols), (3, 2));
    assert_eq!(s.sim.step_count, 0);
    assert_eq!(s.snapshot.grid, vec![0; 6]);
    assert_eq!(s.status, RunStatus::Clear);
}

#[test]
fn load_config_replaces_simulation() {
    let mut s = Session::new(9, 9);
    let sol = Solution {
        name: String::from("s"),
        steps: 12,
        ant: [0, 1, 2],
        grid: vec![String::from("010"), String::from("202")],
    };
    s.load_config(2, 3, &sol);
    assert_eq!(s.sim.grid, vec![0, 1, 0, 2, 0, 2]);
    assert_eq!(s.sim.ant, (0, 1, 2));
    assert_eq!(s.snapshot.grid, s.sim.grid);
    assert!(!s.running);
}

#[test]
fn frame_advances_only_when_running() {
    let mut s = Session::new(9, 9);
    s.steps_per_frame = 5;
    s.advance_frame();
    assert_eq!(s.sim.step_count, 0);
    s.running = true;
    assert_eq!(s.activity(), Activity::Running);
    s.advance_frame();
    assert_eq!(s.sim.step_count, 5);
}

#[test]
fn single_step_pauses() {
    let mut s = Session::new(9, 9);
    s.running = true;
    s.status = RunStatus::InvalidNumber;
    s.step_once();
    assert!(!s.running);
    assert_eq!(s.sim.step_count, 1);
    assert_eq!(s.status, RunStatus::Clear);
}

#[test]
fn click_toggles_cells() {
    let mut s = Session::new(4, 4);
    s.click_cell(0, 0);
    assert_eq!(s.sim.cell(0, 0), 1);
    s.click_cell(0, 0);
    assert_eq!(s.sim.cell(0, 0), 0);
    s.sim.set_cell(1, 1, 2);
    s.click_cell(1, 1);
    assert_eq!(s.sim.cell(1, 1), 0);
    s.click_cell(4, 0);
    s.click_cell(-1, 0);
    assert_eq!(s.sim.grid, vec![0; 16]);
}

#[test]
fn click_in_ant_mode_moves_or_turns_ant() {
    let mut s = Session::new(4, 4);
    s.ant_mode = true;
    s.click_cell(2, 2);
    assert_eq!(s.sim.ant, (2, 2, 1));
    for _ in 0..3 {
        s.click_cell(2, 2);
    }
    assert_eq!(s.sim.ant, (2, 2, 0));
    s.do_run_n(Some(100));
    assert!(s.sim.stopped);
    s.click_cell(0, 3);
    assert_eq!(s.sim.ant.0, 0);
    assert_eq!(s.sim.ant.1, 3);
    assert!(!s.sim.stopped);
    assert_eq!(s.sim.grid.len(), 16);
}

#[test]
fn stored_sim_can_be_checked_before_running() {
    let sim = LangtonsAnt::new(9, 9);
    assert!(sim.safe_for(100));
}

#[test]
fn run_request_takes_large_counts() {
    let mut s = Session::new(6, 6);
    s.do_run_n(Some(5_000_000_000));
    assert!(s.sim.stopped);
    match s.status {
        RunStatus::RanThenExited { done, total } => {
            assert_eq!(done, total);
            assert!(done > 0 && done < 5_000_000_000);
        }
        other => panic!("unexpected status {:?}", other),
    }
}

#[test]
fn run_and_pause_buttons() {
    let mut s = Session::new(4, 4);
    assert!(s.run_enabled());
    assert!(!s.pause_enabled());
    assert!(s.step_enabled());
    s.press_run();
    assert!(s.running);
    assert!(!s.run_enabled());
    assert!(s.pause_enabled());
    s.press_pause();
    assert!(!s.running);
    s.do_run_n(Some(100));
    assert!(s.sim.stopped);
    assert!(!s.run_enabled());
    assert!(!s.step_enabled());
    s.press_run();
    assert!(!s.running);
}

#[test]
fn snapshot_button_pauses_and_keeps_state() {
    let mut s = Session::new(9, 9);
    s.do_run_n(Some(7));
    s.press_run();
    s.press_snapshot();
    assert!(!s.running);
    assert_eq!(s.snapshot.step_count, 7);
    s.click_cell(0, 0);
    s.step_once();
    s.press_run();
    s.advance_frame();
    s.reset();
    assert_eq!(s.sim.step_count, 7);
    assert_eq!(s.sim.grid, s.snapshot.grid);
    assert!(!s.running);
}
