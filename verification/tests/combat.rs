use invaders::constants::{NUM_COLS, NUM_ROWS, SHOT_MOVE_INTERVAL_US};
use invaders::invaders::Invaders;
use invaders::player::Player;

#[test]
fn player_spawns_mid_field_on_the_bottom_row() {
    let player = Player::new('A');
    assert_eq!(NUM_COLS / 2, player.get_x());
    assert_eq!(NUM_ROWS - 1, player.get_y());
    assert_eq!(0, player.shot_count());
}

#[test]
fn movement_clamps_at_the_playfield_boundaries() {
    let mut player = Player::new('A');
    for _ in 0..NUM_COLS {
        player.move_left();
    }
    assert_eq!(0, player.get_x());
    player.move_left();
    assert_eq!(0, player.get_x());
    for _ in 0..NUM_COLS + 5 {
        player.move_right();
    }
    assert_eq!(NUM_COLS - 1, player.get_x());
}

#[test]
fn two_shots_fit_under_the_cap_and_the_third_is_rejected() {
    let mut player = Player::new('A');
    assert!(player.shoot());
    assert!(player.shoot());
    assert_eq!(2, player.shot_count());
    // the third fire attempt in the same tick is rejected
    assert!(!player.shoot());
    assert_eq!(2, player.shot_count());
    let first = player.get_shot(0);
    assert_eq!(player.get_x(), first.x);
    assert_eq!(player.get_y() - 1, first.y);
    assert!(!first.exploding);
}

#[test]
fn a_shot_that_reaches_the_top_row_is_removed_as_dead() {
    let mut player = Player::new('A');
    assert!(player.shoot());
    assert!(player.shoot());
    assert!(!player.shoot());
    // the shots spawn at row 18 and climb one row per move interval
    for step in 1..=17 {
        player.update(SHOT_MOVE_INTERVAL_US);
        assert_eq!(2, player.shot_count());
        assert_eq!(NUM_ROWS - 2 - step, player.get_shot(0).y);
    }
    // the climb onto row 0 retires them in the same update
    player.update(SHOT_MOVE_INTERVAL_US);
    assert_eq!(0, player.shot_count());
}

#[test]
fn a_hit_scores_explodes_the_shot_and_cannot_score_twice() {
    let mut player = Player::new('A');
    let mut inv = Invaders::new();
    // column 19 holds a file of members; the lowest sits at row 8
    player.move_left();
    assert_eq!(19, player.get_x());
    assert!(player.shoot());
    assert_eq!(0, player.detect_hits(&mut inv));
    // climb from row 18 to row 8
    for _ in 0..10 {
        player.update(SHOT_MOVE_INTERVAL_US);
    }
    assert_eq!(8, player.get_shot(0).y);
    let points = player.detect_hits(&mut inv);
    assert_eq!(1, points);
    assert_eq!(71, inv.count());
    assert!(player.get_shot(0).exploding);
    // an exploding shot is skipped: no second score from the same shot
    assert_eq!(0, player.detect_hits(&mut inv));
    assert_eq!(71, inv.count());
}

#[test]
fn an_exploding_shot_is_removed_exactly_when_its_clock_expires() {
    let mut player = Player::new('A');
    let mut inv = Invaders::new();
    player.move_left();
    assert!(player.shoot());
    for _ in 0..10 {
        player.update(SHOT_MOVE_INTERVAL_US);
    }
    assert_eq!(1, player.detect_hits(&mut inv));
    assert!(player.get_shot(0).exploding);
    // the explosion lasts 260 ms: not removed before that
    player.update(100_000);
    assert_eq!(1, player.shot_count());
    player.update(159_999);
    assert_eq!(1, player.shot_count());
    // the very microsecond the clock expires, the shot is removed
    player.update(1);
    assert_eq!(0, player.shot_count());
}

#[test]
fn an_exploding_shot_stays_in_place() {
    let mut player = Player::new('A');
    let mut inv = Invaders::new();
    player.move_left();
    assert!(player.shoot());
    for _ in 0..10 {
        player.update(SHOT_MOVE_INTERVAL_US);
    }
    assert_eq!(1, player.detect_hits(&mut inv));
    player.update(SHOT_MOVE_INTERVAL_US);
    let shot = player.get_shot(0);
    assert_eq!(19, shot.x);
    assert_eq!(8, shot.y);
    assert!(shot.exploding);
}

#[test]
fn reset_returns_the_player_to_spawn_without_shots() {
    let mut player = Player::new('Q');
    player.move_right();
    player.shoot();
    player.reset();
    assert_eq!(NUM_COLS / 2, player.get_x());
    assert_eq!(0, player.shot_count());
}
