//! The game orchestrator: one simulation state owning both combatants, the
//! formation and the progression counters, advanced strictly once per tick
//! by the elapsed real time. Each tick ages the combatants' projectiles,
//! moves the formation, resolves hits, scores them, and applies the
//! level-up, life-loss and reset rules. The embedding program feeds input
//! between ticks and turns the returned outcome into sounds and screen
//! transitions.

use vstd::prelude::*;
use crate::clock::clock_advanced;
use crate::constants::{MAX_LEVEL, STARTING_LIVES};
use crate::invaders::{
    army_reached_bottom, initial_invaders, invaders_updated, invaders_wf, Invaders, InvadersView,
};
use crate::level::{level_incremented, level_wf, Level};
use crate::lives::{lives_lost_one, Lives};
use crate::player::{
    initial_player, player_updated, player_wf, resolve_shots, Player, Player2Mode, PlayerView,
};
use crate::score::{score_added, Score};

verus! {

/// The whole simulation state.
pub struct Game {
    pub player: Player,
    pub player2: Player,
    pub player2_mode: Player2Mode,
    pub invaders: Invaders,
    pub score: Score,
    pub level: Level,
    pub lives: Lives,
    pub in_menu: bool,
}

/// Mathematical model of a `Game`.
#[verifier::ext_equal]
pub struct GameView {
    pub player: PlayerView,
    pub player2: PlayerView,
    pub player2_mode: Player2Mode,
    pub invaders: InvadersView,
    pub score: int,
    pub level: int,
    pub lives: int,
    pub in_menu: bool,
}

impl View for Game {
    type V = GameView;

    open spec fn view(&self) -> GameView {
        GameView {
            player: self.player@,
            player2: self.player2@,
            player2_mode: self.player2_mode,
            invaders: self.invaders@,
            score: self.score@,
            level: self.level@,
            lives: self.lives@,
            in_menu: self.in_menu,
        }
    }
}

/// What one tick reported to the embedding program: whether the formation
/// stepped (move sound), the points scored (explosion sound and score), and
/// which progression transition fired.
#[derive(Clone, Copy)]
pub struct TickOutcome {
    /// The formation performed a movement step this tick.
    pub moved: bool,
    /// Points scored by hits this tick.
    pub points: u16,
    /// The formation was cleared this tick.
    pub cleared: bool,
    /// The final level was reached: the game is complete.
    pub won: bool,
    /// The formation reached the bottom row: a life was lost.
    pub lost: bool,
    /// No lives remain: the game returned to the menu.
    pub game_over: bool,
}

/// Mathematical model of a `TickOutcome`.
#[verifier::ext_equal]
pub struct TickOutcomeView {
    pub moved: bool,
    pub points: int,
    pub cleared: bool,
    pub won: bool,
    pub lost: bool,
    pub game_over: bool,
}

impl View for TickOutcome {
    type V = TickOutcomeView;

    open spec fn view(&self) -> TickOutcomeView {
        TickOutcomeView {
            moved: self.moved,
            points: self.points as int,
            cleared: self.cleared,
            won: self.won,
            lost: self.lost,
            game_over: self.game_over,
        }
    }
}

/// A well-formed game: both combatants and the formation well formed, the
/// formation not yet at the bottom (a bottomed formation is replaced within
/// the tick that detects it), the level in its band and the lives counter
/// non-negative.
pub open spec fn game_wf(g: GameView) -> bool {
    &&& player_wf(g.player)
    &&& player_wf(g.player2)
    &&& invaders_wf(g.invaders)
    &&& !army_reached_bottom(g.invaders.army)
    &&& level_wf(g.level)
    &&& 0 <= g.lives <= STARTING_LIVES
}

/// A fresh game, sitting in the menu.
pub open spec fn initial_game() -> GameView {
    GameView {
        player: initial_player('A'),
        player2: initial_player('Q'),
        player2_mode: Player2Mode::Enabled(false),
        invaders: initial_invaders(),
        score: 0,
        level: 1,
        lives: STARTING_LIVES as int,
        in_menu: true,
    }
}

/// The game after a full reset: back to the menu with fresh combatants,
/// formation and counters; only the combatants' glyphs survive.
pub open spec fn game_reset(g: GameView) -> GameView {
    GameView {
        player: initial_player(g.player.glyph),
        player2: initial_player(g.player2.glyph),
        player2_mode: Player2Mode::Enabled(false),
        invaders: initial_invaders(),
        score: 0,
        level: 1,
        lives: STARTING_LIVES as int,
        in_menu: true,
    }
}

/// One simulation tick: both combatants' projectiles age (the second only
/// when it takes part), the formation moves, each combatant's projectiles
/// resolve against the thinning formation in turn, the points feed the
/// score, and then either a cleared formation advances the level (a fresh
/// formation unless the final level was reached) or a formation at the
/// bottom row costs a life and resets combatant and formation, falling back
/// to the menu once no life is left.
pub open spec fn spec_tick(g: GameView, delta: int) -> (GameView, TickOutcomeView) {
    let two = g.player2_mode == Player2Mode::Enabled(true);
    let p1 = player_updated(g.player, delta);
    let p2 = if two { player_updated(g.player2, delta) } else { g.player2 };
    let inv1 = invaders_updated(g.invaders, delta);
    let moved = clock_advanced(g.invaders.move_timer, delta).ready;
    let r1 = resolve_shots(p1.shots, inv1.army, p1.shots.len() as int);
    let p1h = PlayerView { shots: r1.0, ..p1 };
    let r2 = resolve_shots(p2.shots, r1.1, p2.shots.len() as int);
    let p2h = PlayerView { shots: r2.0, ..p2 };
    let army = r2.1;
    let points = r1.2 + r2.2;
    let inv2 = InvadersView { army, ..inv1 };
    let scored = if points > 0 {
        score_added(g.score, points)
    } else {
        g.score
    };
    let mid = GameView { player: p1h, player2: p2h, invaders: inv2, score: scored, ..g };
    if army.len() == 0 {
        let level = level_incremented(g.level);
        let won = level == MAX_LEVEL;
        let out = TickOutcomeView { moved, points, cleared: true, won, lost: false, game_over: false };
        if won {
            (GameView { level, ..mid }, out)
        } else {
            (GameView { level, invaders: initial_invaders(), ..mid }, out)
        }
    } else if army_reached_bottom(army) {
        let lives = lives_lost_one(g.lives);
        let game_over = lives == 0;
        let out = TickOutcomeView {
            moved,
            points,
            cleared: false,
            won: false,
            lost: true,
            game_over,
        };
        if game_over {
            (game_reset(mid), out)
        } else {
            (
                GameView {
                    player: initial_player(g.player.glyph),
                    player2: initial_player(g.player2.glyph),
                    invaders: initial_invaders(),
                    lives,
                    ..mid
                },
                out,
            )
        }
    } else {
        (
            mid,
            TickOutcomeView {
                moved,
                points,
                cleared: false,
                won: false,
                lost: false,
                game_over: false,
            },
        )
    }
}

impl Game {
    /// A fresh game, sitting in the menu.
    pub fn new() -> (game: Game)
        ensures
            game@ == initial_game(),
            game_wf(game@),
    {
        let game = Game {
            player: Player::new('A'),
            player2: Player::new('Q'),
            player2_mode: Player2Mode::Enabled(false),
            invaders: Invaders::new(),
            score: Score::new(),
            level: Level::new(),
            lives: Lives::new(),
            in_menu: true,
        };
        proof {
            assert(game@ =~= initial_game());
        }
        game
    }

    /// Resets everything to the pre-game selection state: fresh combatants
    /// (their glyphs kept), a fresh formation and fresh counters, back in
    /// the menu with the second combatant disabled.
    pub fn reset_game(&mut self)
        ensures
            final(self)@ == game_reset(old(self)@),
            game_wf(final(self)@),
    {
        self.in_menu = true;
        self.player2_mode = Player2Mode::Enabled(false);
        self.player.reset();
        self.player2.reset();
        self.invaders = Invaders::new();
        self.score = Score::new();
        self.level = Level::new();
        self.lives = Lives::new();
        proof {
            assert(self@ =~= game_reset(old(self)@));
        }
    }

    /// Advances the whole simulation by `delta` microseconds: ages
    /// projectiles, moves the formation, resolves and scores hits, and
    /// applies the level-up and life-loss rules. Called only while the game
    /// is being played, not from the menu.
    pub fn tick(&mut self, delta: u64) -> (outcome: TickOutcome)
        requires
            game_wf(old(self)@),
            !old(self)@.in_menu,
        ensures
            final(self)@ == spec_tick(old(self)@, delta as int).0,
            outcome@ == spec_tick(old(self)@, delta as int).1,
            game_wf(final(self)@),
    {
        let two = self.player2_mode == Player2Mode::Enabled(true);
        self.player.update(delta);
        if two {
            self.player2.update(delta);
        }
        let moved = self.invaders.update(delta);
        let points1 = self.player.detect_hits(&mut self.invaders);
        let points2 = self.player2.detect_hits(&mut self.invaders);
        let points = points1 + points2;
        if points > 0 {
            self.score.add_points(points);
        }
        let outcome;
        if self.invaders.all_killed() {
            let won = self.level.increment_level();
            if !won {
                self.invaders = Invaders::new();
            }
            outcome = TickOutcome {
                moved,
                points,
                cleared: true,
                won,
                lost: false,
                game_over: false,
            };
        } else if self.invaders.reached_bottom() {
            let has_lives_left = self.lives.lose_life();
            if !has_lives_left {
                self.reset_game();
            } else {
                self.player.reset();
                self.player2.reset();
                self.invaders = Invaders::new();
            }
            outcome = TickOutcome {
                moved,
                points,
                cleared: false,
                won: false,
                lost: true,
                game_over: !has_lives_left,
            };
        } else {
            outcome = TickOutcome {
                moved,
                points,
                cleared: false,
                won: false,
                lost: false,
                game_over: false,
            };
        }
        proof {
            assert(self@ =~~= spec_tick(old(self)@, delta as int).0);
            assert(outcome@ =~= spec_tick(old(self)@, delta as int).1);
        }
        outcome
    }

    /// Leaves the menu and starts play.
    pub fn start_play(&mut self)
        ensures
            final(self)@ == (GameView { in_menu: false, ..old(self)@ }),
    {
        self.in_menu = false;
        proof {
            assert(self@ =~= (GameView { in_menu: false, ..old(self)@ }));
        }
    }

    /// Enables the second combatant.
    pub fn enable_player2(&mut self)
        ensures
            final(self)@ == (GameView {
                player2_mode: Player2Mode::Enabled(true),
                ..old(self)@
            }),
    {
        self.player2_mode = Player2Mode::Enabled(true);
        proof {
            assert(self@ =~= (GameView { player2_mode: Player2Mode::Enabled(true), ..old(self)@ }));
        }
    }
}

} // verus!
