use langton_ant::ant::LangtonsAnt;
use langton_ant::config::Solution;

fn solution(grid: &[&str], ant: [isize; 3]) -> Solution {
    Solution {
        name: String::from("test"),
        steps: 0,
        ant,
        grid: grid.iter().map(|s| s.to_string()).collect(),
    }
}

#[test]
fn new_centres_ant_on_white_grid() {
    let a = LangtonsAnt::new(70, 70);
    assert_eq!(a.rows, 70);
    assert_eq!(a.cols, 70);
    assert_eq!(a.grid.len(), 4900);
    assert!(a.grid.iter().all(|&v| v == 0));
    assert_eq!(a.ant, (35, 35, 0));
    assert!(!a.stopped);
    assert_eq!(a.step_count, 0);
}

#[test]
fn new_raises_dimensions_to_two() {
    let a = LangtonsAnt::new(0, 1);
    assert_eq!((a.rows, a.cols), (2, 2));
    assert_eq!(a.grid, vec![0, 0, 0, 0]);
    assert_eq!(a.ant, (1, 1, 0));
    let b = LangtonsAnt::new(3, 8);
    assert_eq!((b.rows, b.cols), (3, 8));
    assert_eq!(b.ant, (1, 4, 0));
}

#[test]
fn white_cell_turns_right_and_flips_black() {
    let mut a = LangtonsAnt::new(5, 5);
    assert!(a.step());
    assert_eq!(a.cell(2, 2), 1);
    assert_eq!(a.ant, (2, 3, 1));
    assert_eq!(a.step_count, 1);
    assert!(a.step());
    assert_eq!(a.ant, (3, 3, 2));
    assert!(a.step());
    assert_eq!(a.ant, (3, 2, 3));
    assert!(a.step());
    // back on (2, 2), which is now black
    assert_eq!(a.ant, (2, 2, 0));
    assert_eq!(a.cell(2, 2), 1);
    assert_eq!(a.step_count, 4);
}

#[test]
fn black_cell_turns_left_and_flips_white() {
    let mut a = LangtonsAnt::from_solution(3, 3, &solution(&["000", "010", "000"], [1, 1, 0]));
    assert!(a.step());
    assert_eq!(a.cell(1, 1), 0);
    assert_eq!(a.ant, (1, 0, 3));
}

#[test]
fn step_out_of_the_grid_stops() {
    let mut a = LangtonsAnt::new(2, 2);
    // (1, 1) facing North, white: turn East, move to (1, 2), outside.
    assert!(!a.step());
    assert!(a.stopped);
    assert_eq!(a.ant, (1, 2, 1));
    assert_eq!(a.step_count, 1);
    assert_eq!(a.grid, vec![0, 0, 0, 1]);
    let before = a.clone();
    assert!(!a.step());
    assert_eq!(a.ant, before.ant);
    assert_eq!(a.grid, before.grid);
    assert_eq!(a.step_count, 1);
}

#[test]
fn ant_outside_stops_without_moving() {
    let mut a = LangtonsAnt::from_solution(2, 2, &solution(&["00", "00"], [-1, 0, 0]));
    assert!(!a.step());
    assert!(a.stopped);
    assert_eq!(a.ant, (-1, 0, 0));
    assert_eq!(a.step_count, 0);
    assert_eq!(a.grid, vec![0, 0, 0, 0]);
}

#[test]
fn run_n_stops_early_when_ant_exits() {
    let mut a = LangtonsAnt::new(2, 2);
    a.run_n(10);
    assert!(a.stopped);
    assert_eq!(a.step_count, 1);
}

#[test]
fn run_n_equals_repeated_steps() {
    let mut a = LangtonsAnt::new(9, 9);
    let mut b = a.clone();
    a.run_n(40);
    for _ in 0..40 {
        b.step();
    }
    assert_eq!(a.grid, b.grid);
    assert_eq!(a.ant, b.ant);
    assert_eq!(a.stopped, b.stopped);
    assert_eq!(a.step_count, b.step_count);
}

#[test]
fn run_n_is_additive() {
    let mut a = LangtonsAnt::new(11, 7);
    let mut b = a.clone();
    a.run_n(13);
    a.run_n(29);
    b.run_n(42);
    assert_eq!(a.grid, b.grid);
    assert_eq!(a.ant, b.ant);
    assert_eq!(a.stopped, b.stopped);
    assert_eq!(a.step_count, b.step_count);
}

#[test]
fn run_zero_steps_changes_nothing() {
    let mut a = LangtonsAnt::new(4, 4);
    a.run_n(0);
    assert_eq!(a.ant, (2, 2, 0));
    assert_eq!(a.step_count, 0);
}

#[test]
fn counter_counts_moves_only() {
    let mut a = LangtonsAnt::new(6, 6);
    a.run_n(1000);
    assert!(a.stopped);
    assert!(a.step_count <= 1000);
    let count = a.step_count;
    a.run_n(1000);
    assert_eq!(a.step_count, count);
}

#[test]
fn from_solution_decodes_rows() {
    let a = LangtonsAnt::from_solution(2, 3, &solution(&["012", "210"], [1, 2, 3]));
    assert_eq!(a.rows, 2);
    assert_eq!(a.cols, 3);
    assert_eq!(a.grid, vec![0, 1, 2, 2, 1, 0]);
    assert_eq!(a.ant, (1, 2, 3));
    assert!(!a.stopped);
    assert_eq!(a.step_count, 0);
    assert!(a.is_well_formed());
}

#[test]
fn from_solution_keeps_direction_byte() {
    let a = LangtonsAnt::from_solution(1, 1, &solution(&["0"], [0, 0, 258]));
    assert_eq!(a.ant.2, 2);
}

#[test]
fn short_grid_is_not_well_formed() {
    let a = LangtonsAnt::from_solution(3, 3, &solution(&["000", "000"], [0, 0, 0]));
    assert_eq!(a.grid.len(), 6);
    assert!(!a.is_well_formed());
    let b = LangtonsAnt::from_solution(1, 1, &solution(&["0"], [0, 0, 4]));
    assert!(!b.is_well_formed());
}

#[test]
fn in_bounds_edges() {
    let a = LangtonsAnt::new(3, 4);
    assert!(a.in_bounds(0, 0));
    assert!(a.in_bounds(2, 3));
    assert!(!a.in_bounds(3, 0));
    assert!(!a.in_bounds(0, 4));
    assert!(!a.in_bounds(-1, 0));
    assert!(!a.in_bounds(0, -1));
}

#[test]
fn cell_reads_back_what_set_cell_wrote() {
    let mut a = LangtonsAnt::new(3, 4);
    a.set_cell(1, 2, 2);
    assert_eq!(a.cell(1, 2), 2);
    assert_eq!(a.grid[1 * 4 + 2], 2);
    assert_eq!(a.cell(2, 1), 0);
    assert_eq!(a.grid.iter().filter(|&&v| v != 0).count(), 1);
}

#[test]
fn gray_cell_ahead_is_not_safe() {
    let a = LangtonsAnt::from_solution(3, 3, &solution(&["000", "020", "000"], [1, 1, 0]));
    assert!(!a.can_step());
    assert!(!a.safe_for(1));
    assert!(a.safe_for(0));
    let b = LangtonsAnt::from_solution(3, 3, &solution(&["000", "002", "000"], [1, 1, 0]));
    // first step is fine, the second lands on the gray cell
    assert!(b.can_step());
    assert!(b.safe_for(1));
    assert!(!b.safe_for(2));
}

#[test]
fn stopped_ant_is_always_safe() {
    let mut a = LangtonsAnt::new(2, 2);
    a.step();
    assert!(a.safe_for(1_000_000));
}

#[test]
fn clone_is_independent_copy() {
    let a = LangtonsAnt::new(4, 4);
    let mut b = a.clone();
    b.step();
    assert_eq!(a.step_count, 0);
    assert_eq!(b.step_count, 1);
    assert_eq!(a.grid, vec![0; 16]);
}
