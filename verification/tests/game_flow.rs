use invaders::constants::{INVADERS_INITIAL_MOVE_INTERVAL_US, SHOT_MOVE_INTERVAL_US};
use invaders::game::Game;
use invaders::menu::Menu;
use invaders::player::Player2Mode;

#[test]
fn menu_cursor_moves_within_the_option_list() {
    let mut menu = Menu::new();
    assert_eq!(0, menu.get_selection());
    menu.change_option(true);
    assert_eq!(0, menu.get_selection());
    menu.change_option(false);
    assert_eq!(1, menu.get_selection());
    menu.change_option(false);
    assert_eq!(1, menu.get_selection());
    menu.change_option(true);
    assert_eq!(0, menu.get_selection());
}

#[test]
fn a_fresh_game_waits_in_the_menu() {
    let game = Game::new();
    assert!(game.in_menu);
    assert_eq!(Player2Mode::Enabled(false), game.player2_mode);
    assert_eq!(3, game.lives.get_lives());
    assert_eq!(1, game.level.get_level());
    assert_eq!(0, game.score.get_count());
    assert_eq!(72, game.invaders.count());
}

#[test]
fn a_quiet_tick_moves_nothing_and_scores_nothing() {
    let mut game = Game::new();
    game.start_play();
    let outcome = game.tick(1_000);
    assert!(!outcome.moved);
    assert_eq!(0, outcome.points);
    assert!(!outcome.cleared && !outcome.won && !outcome.lost && !outcome.game_over);
}

#[test]
fn a_hit_is_scored_through_the_tick() {
    let mut game = Game::new();
    game.start_play();
    game.player.move_left();
    assert!(game.player.shoot());
    // climb from row 18 to row 8, then the same tick resolves the hit
    for _ in 0..10 {
        game.tick(SHOT_MOVE_INTERVAL_US);
    }
    assert_eq!(1, game.score.get_count());
    assert_eq!(71, game.invaders.count());
}

#[test]
fn clearing_the_formation_advances_the_level_and_spawns_a_fresh_one() {
    let mut game = Game::new();
    game.start_play();
    let cells = game.invaders.member_cells();
    for cell in cells {
        game.invaders.kill_invader_at(cell.0, cell.1);
    }
    let outcome = game.tick(0);
    assert!(outcome.cleared);
    assert!(!outcome.won);
    assert_eq!(2, game.level.get_level());
    assert_eq!(72, game.invaders.count());
}

#[test]
fn clearing_the_formation_on_the_last_level_wins_the_game() {
    let mut game = Game::new();
    game.start_play();
    // one level-up first, so the next clear reaches the final level
    game.level.increment_level();
    let cells = game.invaders.member_cells();
    for cell in cells {
        game.invaders.kill_invader_at(cell.0, cell.1);
    }
    let outcome = game.tick(0);
    assert!(outcome.cleared);
    assert!(outcome.won);
    assert_eq!(3, game.level.get_level());
    assert_eq!(0, game.invaders.count());
}

#[test]
fn a_formation_at_the_bottom_costs_a_life_and_resets_the_field() {
    let mut game = Game::new();
    game.start_play();
    game.score.add_points(5);
    let mut outcome = game.tick(0);
    while !outcome.lost {
        outcome = game.tick(INVADERS_INITIAL_MOVE_INTERVAL_US);
    }
    assert!(!outcome.game_over);
    assert_eq!(2, game.lives.get_lives());
    // the field resets, the score and level survive, play goes on
    assert!(!game.in_menu);
    assert_eq!(72, game.invaders.count());
    assert_eq!(0, game.player.shot_count());
    assert_eq!(5, game.score.get_count());
}

#[test]
fn losing_the_last_life_returns_to_the_menu() {
    let mut game = Game::new();
    game.start_play();
    game.lives.lose_life();
    game.lives.lose_life();
    assert_eq!(1, game.lives.get_lives());
    let mut outcome = game.tick(0);
    while !outcome.lost {
        outcome = game.tick(INVADERS_INITIAL_MOVE_INTERVAL_US);
    }
    assert!(outcome.game_over);
    assert!(game.in_menu);
    assert_eq!(3, game.lives.get_lives());
    assert_eq!(0, game.score.get_count());
    assert_eq!(1, game.level.get_level());
}

#[test]
fn reset_game_returns_everything_to_the_menu_state() {
    let mut game = Game::new();
    game.start_play();
    game.enable_player2();
    game.player.move_left();
    game.score.add_points(9);
    game.reset_game();
    assert!(game.in_menu);
    assert_eq!(Player2Mode::Enabled(false), game.player2_mode);
    assert_eq!(0, game.score.get_count());
    assert_eq!(20, game.player.get_x());
    assert_eq!(72, game.invaders.count());
}

#[test]
fn the_second_player_can_fire_once_enabled() {
    let mut game = Game::new();
    game.start_play();
    game.enable_player2();
    assert_eq!(Player2Mode::Enabled(true), game.player2_mode);
    assert!(game.player2.shoot());
    assert_eq!(1, game.player2.shot_count());
    game.tick(1_000);
    assert_eq!(1, game.player2.shot_count());
}
