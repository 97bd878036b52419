use invaders::constants::{NUM_COLS, NUM_ROWS};
use invaders::frame::{new_frame, Drawable};
use invaders::invaders::Invaders;
use invaders::level::Level;
use invaders::lives::Lives;
use invaders::menu::Menu;
use invaders::player::{Player, Player2Mode};
use invaders::score::Score;

fn row0(frame: &Vec<Vec<char>>, from: usize, len: usize) -> String {
    (from..from + len).map(|x| frame[x][0]).collect()
}

#[test]
fn a_new_frame_is_blank_and_covers_the_grid() {
    let frame = new_frame();
    assert_eq!(NUM_COLS, frame.len());
    for column in &frame {
        assert_eq!(NUM_ROWS, column.len());
        assert!(column.iter().all(|c| *c == ' '));
    }
}

#[test]
fn the_scoreboard_line_is_zero_padded() {
    let mut frame = new_frame();
    let mut score = Score::new();
    score.add_points(7);
    score.draw(&mut frame);
    assert_eq!("SCORE: 0007", row0(&frame, 0, 11));
}

#[test]
fn a_large_score_is_never_truncated() {
    let mut frame = new_frame();
    let mut score = Score::new();
    score.add_points(65535);
    score.draw(&mut frame);
    assert_eq!("SCORE: 65535", row0(&frame, 0, 12));
}

#[test]
fn the_lives_line_is_zero_padded() {
    let mut frame = new_frame();
    Lives::new().draw(&mut frame);
    assert_eq!("LIVES: 03", row0(&frame, 12, 9));
}

#[test]
fn the_level_line_overlaps_the_last_lives_column() {
    let mut frame = new_frame();
    Lives::new().draw(&mut frame);
    Level::new().draw(&mut frame);
    assert_eq!("LEVEL: 01", row0(&frame, 20, 9));
    assert_eq!("LIVES: 0", row0(&frame, 12, 8));
}

#[test]
fn the_player_glyph_sits_on_the_bottom_row() {
    let mut frame = new_frame();
    let player = Player::new('A');
    player.draw(&mut frame);
    assert_eq!('A', frame[NUM_COLS / 2][NUM_ROWS - 1]);
}

#[test]
fn a_travelling_shot_draws_a_bolt_clamped_above_the_player_band() {
    let mut frame = new_frame();
    let mut player = Player::new('A');
    player.shoot();
    player.draw(&mut frame);
    // the shot sits at row 18 but is drawn clamped to row 14
    assert_eq!('|', frame[NUM_COLS / 2][14]);
}

#[test]
fn fresh_invaders_draw_their_first_faces() {
    let mut frame = new_frame();
    let inv = Invaders::new();
    inv.draw(&mut frame);
    // more than half the move interval remains, so the first faces show
    assert_eq!('x', frame[1][2]);
    assert_eq!(')', frame[1][4]);
    assert_eq!('O', frame[1][6]);
    assert_eq!('_', frame[1][8]);
    assert_eq!(' ', frame[2][2]);
}

#[test]
fn invader_faces_flip_once_half_the_interval_has_passed() {
    let mut frame = new_frame();
    let mut inv = Invaders::new();
    inv.update(1_100_000);
    inv.draw(&mut frame);
    assert_eq!('+', frame[1][2]);
    assert_eq!('(', frame[1][4]);
    assert_eq!('0', frame[1][6]);
    assert_eq!('-', frame[1][8]);
}

#[test]
fn the_menu_draws_its_cursor_and_options() {
    let mut frame = new_frame();
    let mut menu = Menu::new();
    menu.change_option(false);
    menu.draw(&mut frame);
    assert_eq!('>', frame[0][1]);
    let first: String = (1..9).map(|x| frame[x][0]).collect();
    let second: String = (1..5).map(|x| frame[x][1]).collect();
    assert_eq!("New game", first);
    assert_eq!("Exit", second);
}

#[test]
fn the_second_player_hint_shows_only_while_disabled() {
    let mut frame = new_frame();
    Player2Mode::Enabled(false).draw(&mut frame);
    assert_eq!("P2: PRESS E", row0(&frame, 23, 11));
    let mut other = new_frame();
    Player2Mode::Enabled(true).draw(&mut other);
    assert_eq!("           ", row0(&other, 23, 11));
}
