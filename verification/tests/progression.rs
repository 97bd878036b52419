use invaders::constants::MAX_LEVEL;
use invaders::level::Level;
use invaders::lives::Lives;
use invaders::score::Score;

#[test]
fn should_increment_level_and_return_false() {
    // given
    let mut level = Level::new();
    // when
    let actual = level.increment_level();
    // then
    assert_eq!(false, actual);
    assert_eq!(2, level.level);
}

#[test]
fn should_increment_level_two_times_and_return_true() {
    // given
    let mut level = Level::new();
    // when
    level.increment_level();
    let actual = level.increment_level();
    // then
    assert_eq!(true, actual);
    assert_eq!(MAX_LEVEL, level.level);
}

#[test]
fn should_loose_life_and_return_true() {
    // given
    let mut level = Lives::new();
    // when
    let actual = level.lose_life();
    // then
    assert_eq!(true, actual);
    assert_eq!(2, level.lives);
}

#[test]
fn should_loose_life_three_times_and_return_false() {
    // given
    let mut level = Lives::new();
    // when
    level.lose_life();
    level.lose_life();
    let actual = level.lose_life();
    // then
    assert_eq!(false, actual);
    assert_eq!(0, level.lives);
}

#[test]
fn lives_start_at_three_and_three_losses_return_true_true_false() {
    let mut lives = Lives::new();
    assert_eq!(3, lives.get_lives());
    let first = lives.lose_life();
    let second = lives.lose_life();
    let third = lives.lose_life();
    assert_eq!((true, true, false), (first, second, third));
    assert_eq!(0, lives.get_lives());
}

#[test]
fn losing_a_life_at_zero_stays_at_zero() {
    let mut lives = Lives::new();
    lives.lose_life();
    lives.lose_life();
    lives.lose_life();
    let actual = lives.lose_life();
    assert_eq!(false, actual);
    assert_eq!(0, lives.get_lives());
}

#[test]
fn level_advanced_twice_returns_false_then_true() {
    let mut level = Level::new();
    assert_eq!(1, level.get_level());
    let first = level.increment_level();
    let second = level.increment_level();
    assert_eq!((false, true), (first, second));
    assert_eq!(3, level.get_level());
}

#[test]
fn level_saturates_one_past_the_maximum() {
    let mut level = Level::new();
    level.increment_level();
    level.increment_level();
    let third = level.increment_level();
    let fourth = level.increment_level();
    assert_eq!(false, third);
    assert_eq!(false, fourth);
    assert_eq!(4, level.get_level());
}

#[test]
fn score_accumulates_points() {
    let mut score = Score::new();
    assert_eq!(0, score.get_count());
    score.add_points(2);
    score.add_points(5);
    assert_eq!(7, score.get_count());
}

#[test]
fn score_saturates_at_the_numeric_ceiling() {
    let mut score = Score::new();
    score.add_points(65530);
    score.add_points(10);
    assert_eq!(u16::MAX, score.get_count());
    score.add_points(1);
    assert_eq!(u16::MAX, score.get_count());
}
