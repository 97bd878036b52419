use invaders::constants::{
    INVADERS_INITIAL_MOVE_INTERVAL_US, INVADERS_MOVE_INTERVAL_MINIMAL_US, NUM_COLS,
};
use invaders::invaders::{Invaders, SweepDirection};

const MOVE_TICK: u64 = INVADERS_INITIAL_MOVE_INTERVAL_US;

fn max_col(inv: &Invaders) -> usize {
    inv.member_cells().iter().map(|c| c.0).max().unwrap()
}

fn min_col(inv: &Invaders) -> usize {
    inv.member_cells().iter().map(|c| c.0).min().unwrap()
}

fn rows(inv: &Invaders) -> Vec<usize> {
    inv.member_cells().iter().map(|c| c.1).collect()
}

#[test]
fn fresh_formation_has_the_grid_layout() {
    let inv = Invaders::new();
    let cells = inv.member_cells();
    assert_eq!(72, cells.len());
    assert_eq!(72, inv.get_total_count());
    assert_eq!(SweepDirection::Right, inv.get_direction());
    // four ranks at rows 2, 4, 6, 8; eighteen files at columns 1, 3, ..., 35
    for (k, cell) in cells.iter().enumerate() {
        assert_eq!(1 + 2 * (k % 18), cell.0);
        assert_eq!(2 + 2 * (k / 18), cell.1);
    }
}

#[test]
fn no_move_happens_before_the_interval_elapses() {
    let mut inv = Invaders::new();
    let before = inv.member_cells();
    assert!(!inv.update(MOVE_TICK / 2));
    assert_eq!(before, inv.member_cells());
    assert!(inv.update(MOVE_TICK / 2));
}

#[test]
fn formation_sweeps_right_descends_at_the_edge_and_flips_to_left() {
    let mut inv = Invaders::new();
    let start_rows = rows(&inv);
    // rightmost file starts at column 35 and must reach column 39
    let mut shifts: usize = 0;
    while max_col(&inv) < NUM_COLS - 1 {
        let before = max_col(&inv);
        assert!(inv.update(MOVE_TICK));
        assert_eq!(before + 1, max_col(&inv));
        assert_eq!(SweepDirection::Right, inv.get_direction());
        assert_eq!(start_rows, rows(&inv));
        shifts += 1;
    }
    assert_eq!(4, shifts);
    // the next ready tick descends and flips instead of moving sideways
    assert!(inv.update(MOVE_TICK));
    assert_eq!(SweepDirection::Left, inv.get_direction());
    assert_eq!(NUM_COLS - 1, max_col(&inv));
    let descended: Vec<usize> = start_rows.iter().map(|y| y + 1).collect();
    assert_eq!(descended, rows(&inv));
}

#[test]
fn each_descent_shortens_the_interval_down_to_the_floor() {
    let mut inv = Invaders::new();
    assert_eq!(
        INVADERS_INITIAL_MOVE_INTERVAL_US,
        inv.move_timer.duration_micros()
    );
    let mut seen = Vec::new();
    // eight descents: seven to reach the floor, one more to show idempotence
    for _ in 0..8 {
        let before = inv.get_direction();
        while inv.get_direction() == before {
            assert!(inv.update(MOVE_TICK));
        }
        seen.push(inv.move_timer.duration_micros());
    }
    assert_eq!(
        vec![
            1_750_000, 1_500_000, 1_250_000, 1_000_000, 750_000, 500_000, 250_000, 250_000
        ],
        seen
    );
    assert_eq!(INVADERS_MOVE_INTERVAL_MINIMAL_US, *seen.last().unwrap());
}

#[test]
fn formation_flips_back_to_right_at_the_left_edge() {
    let mut inv = Invaders::new();
    // sweep right to the edge and descend
    while inv.get_direction() == SweepDirection::Right {
        assert!(inv.update(MOVE_TICK));
    }
    // sweep left: leftmost file sits at column 5 after the flip
    assert_eq!(5, min_col(&inv));
    let mut shifts: usize = 0;
    while min_col(&inv) > 0 {
        assert!(inv.update(MOVE_TICK));
        if inv.get_direction() == SweepDirection::Left {
            shifts += 1;
        }
    }
    assert_eq!(5, shifts);
    let rows_before = rows(&inv);
    assert!(inv.update(MOVE_TICK));
    assert_eq!(SweepDirection::Right, inv.get_direction());
    let descended: Vec<usize> = rows_before.iter().map(|y| y + 1).collect();
    assert_eq!(descended, rows(&inv));
}

#[test]
fn kill_at_removes_one_member_and_misses_the_empty_cell_afterwards() {
    let mut inv = Invaders::new();
    assert_eq!(72, inv.count());
    let points = inv.kill_invader_at(1, 2);
    assert_eq!(1, points);
    assert_eq!(71, inv.count());
    // the same cell is empty now: no member is removed twice
    let again = inv.kill_invader_at(1, 2);
    assert_eq!(0, again);
    assert_eq!(71, inv.count());
}

#[test]
fn kill_at_an_unoccupied_cell_scores_nothing() {
    let mut inv = Invaders::new();
    assert_eq!(0, inv.kill_invader_at(0, 0));
    assert_eq!(0, inv.kill_invader_at(2, 2));
    assert_eq!(72, inv.count());
}

#[test]
fn all_killed_flips_from_false_to_true_with_the_last_kill() {
    let mut inv = Invaders::new();
    let cells = inv.member_cells();
    for (i, cell) in cells.iter().enumerate() {
        assert!(!inv.all_killed());
        assert_eq!(1, inv.kill_invader_at(cell.0, cell.1));
        assert_eq!(i + 1 == cells.len(), inv.all_killed());
    }
    assert!(inv.all_killed());
    assert_eq!(0, inv.count());
}

#[test]
fn reached_bottom_after_eleven_descents() {
    let mut inv = Invaders::new();
    // the lowest rank starts at row 8 and the last row is 19
    for _ in 0..11 {
        assert!(!inv.reached_bottom());
        let before = inv.get_direction();
        while inv.get_direction() == before {
            assert!(inv.update(MOVE_TICK));
        }
    }
    assert!(inv.reached_bottom());
}
