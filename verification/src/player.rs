//! The player-controlled combatant: bounded horizontal movement along the
//! bottom row, shot spawning under a live-projectile cap, per-frame ageing
//! and retiring of projectiles, and hit detection against the invader
//! formation.

use vstd::prelude::*;
use crate::clock::clock_armed;
use crate::constants::{NUM_COLS, NUM_ROWS, PLAYER_MAX_SIMULTANEOUS_SHOTS, SHOT_MOVE_INTERVAL_US};
use crate::frame::{
    frame_put, frame_view, frame_wf, put_cell, text_written, write_text, Drawable, Frame,
    FrameView,
};
use crate::invaders::{
    army_after_kill, cell_occupied, invaders_wf, kill_points, InvaderView, Invaders,
};
use crate::shot::{
    lemma_shot_updated_wf, shot_dead, shot_drawn, shot_exploded, shot_updated, shot_wf, Shot,
    ShotView,
};

verus! {

/// The combatant: its playfield cell, its live projectiles in fire order,
/// and the glyph the renderer shows it as.
pub struct Player {
    pub x: usize,
    pub y: usize,
    pub shots: Vec<Shot>,
    pub glyph: char,
}

/// Mathematical model of a `Player`.
#[verifier::ext_equal]
pub struct PlayerView {
    pub x: int,
    pub y: int,
    pub shots: Seq<ShotView>,
    pub glyph: char,
}

impl View for Player {
    type V = PlayerView;

    open spec fn view(&self) -> PlayerView {
        PlayerView {
            x: self.x as int,
            y: self.y as int,
            shots: self.shots@.map_values(|s: Shot| s@),
            glyph: self.glyph,
        }
    }
}

/// A combatant fresh at its spawn cell: mid-field on the bottom row, with no
/// live projectiles.
pub open spec fn initial_player(glyph: char) -> PlayerView {
    PlayerView {
        x: (NUM_COLS / 2) as int,
        y: (NUM_ROWS - 1) as int,
        shots: Seq::empty(),
        glyph,
    }
}

/// A well-formed combatant: on the playfield, fixed to the bottom row, with
/// no more live projectiles than the cap, all of them well formed.
pub open spec fn player_wf(p: PlayerView) -> bool {
    &&& 0 <= p.x < NUM_COLS
    &&& p.y == NUM_ROWS - 1
    &&& p.shots.len() <= PLAYER_MAX_SIMULTANEOUS_SHOTS
    &&& forall|i: int| 0 <= i < p.shots.len() ==> shot_wf(#[trigger] p.shots[i])
}

/// The projectile a fire action spawns: one row above the combatant.
pub open spec fn spawned_shot(p: PlayerView) -> ShotView {
    ShotView {
        x: p.x,
        y: p.y - 1,
        exploding: false,
        timer: clock_armed(SHOT_MOVE_INTERVAL_US as int),
    }
}

/// The projectiles after `delta` time has elapsed: each advances through
/// its own lifecycle, then the dead ones are dropped, keeping fire order.
pub open spec fn shots_updated(shots: Seq<ShotView>, delta: int) -> Seq<ShotView>
    decreases shots.len(),
{
    if shots.len() == 0 {
        Seq::empty()
    } else {
        let rest = shots_updated(shots.drop_last(), delta);
        let s = shot_updated(shots.last(), delta);
        if shot_dead(s) {
            rest
        } else {
            rest.push(s)
        }
    }
}

/// Ageing and retiring keeps at most as many projectiles as before, all of
/// them well formed and none of them dead.
pub proof fn lemma_shots_updated_wf(shots: Seq<ShotView>, delta: int)
    requires
        0 <= delta,
        forall|i: int| 0 <= i < shots.len() ==> shot_wf(#[trigger] shots[i]),
    ensures
        shots_updated(shots, delta).len() <= shots.len(),
        forall|i: int|
            0 <= i < shots_updated(shots, delta).len() ==> shot_wf(
                #[trigger] shots_updated(shots, delta)[i],
            ) && !shot_dead(shots_updated(shots, delta)[i]),
    decreases shots.len(),
{
    if shots.len() > 0 {
        assert forall|i: int| 0 <= i < shots.drop_last().len() implies shot_wf(
            #[trigger] shots.drop_last()[i],
        ) by {
            assert(shots.drop_last()[i] == shots[i]);
        }
        lemma_shots_updated_wf(shots.drop_last(), delta);
        lemma_shot_updated_wf(shots.last(), delta);
    }
}

/// The combatant after `delta` time has elapsed: only its projectiles move.
pub open spec fn player_updated(p: PlayerView, delta: int) -> PlayerView {
    PlayerView { shots: shots_updated(p.shots, delta), ..p }
}

/// The hit-resolution protocol after the first `n` projectiles have been
/// tried, in fire order: each projectile that is not already exploding and
/// whose cell the (progressively thinned) army occupies scores that member's
/// points, removes it, and starts exploding. An exploding projectile is
/// skipped, so it can never score twice.
pub open spec fn resolve_shots(
    shots: Seq<ShotView>,
    army: Seq<InvaderView>,
    n: int,
) -> (Seq<ShotView>, Seq<InvaderView>, int)
    decreases n,
{
    if n <= 0 {
        (shots, army, 0)
    } else {
        let (s, a, p) = resolve_shots(shots, army, n - 1);
        let sh = s[n - 1];
        if !sh.exploding && cell_occupied(a, sh.x, sh.y) {
            (
                s.update(n - 1, shot_exploded(sh)),
                army_after_kill(a, sh.x, sh.y),
                p + kill_points(a, sh.x, sh.y),
            )
        } else {
            (s, a, p)
        }
    }
}

/// Resolution never touches projectiles that have not been tried yet, keeps
/// the projectile count, and scores at most one point per tried projectile.
pub proof fn lemma_resolve_shots_frame(shots: Seq<ShotView>, army: Seq<InvaderView>, n: int)
    requires
        0 <= n <= shots.len(),
        crate::invaders::army_wf(army),
    ensures
        resolve_shots(shots, army, n).0.len() == shots.len(),
        forall|j: int|
            n <= j < shots.len() ==> #[trigger] resolve_shots(shots, army, n).0[j] == shots[j],
        0 <= resolve_shots(shots, army, n).2 <= n,
        crate::invaders::army_wf(resolve_shots(shots, army, n).1),
        forall|j: int|
            0 <= j < shots.len() && shot_wf(shots[j]) ==> shot_wf(
                #[trigger] resolve_shots(shots, army, n).0[j],
            ),
    decreases n,
{
    if n > 0 {
        lemma_resolve_shots_frame(shots, army, n - 1);
        let (s, a, p) = resolve_shots(shots, army, n - 1);
        let sh = s[n - 1];
        if !sh.exploding && cell_occupied(a, sh.x, sh.y) {
            crate::invaders::lemma_kill_wf(a, sh.x, sh.y);
            if shot_wf(shots[n - 1]) {
                lemma_shot_updated_wf(sh, 0);
            }
        }
    }
}

/// Hit resolution never touches a projectile that is already exploding: it
/// is skipped unchanged, so a projectile transitions to exploding at most
/// once and can never score twice.
pub proof fn lemma_resolve_skips_exploding(
    shots: Seq<ShotView>,
    army: Seq<InvaderView>,
    n: int,
    j: int,
)
    requires
        0 <= j < n <= shots.len(),
        shots[j].exploding,
        crate::invaders::army_wf(army),
    ensures
        resolve_shots(shots, army, n).0[j] == shots[j],
    decreases n,
{
    lemma_resolve_shots_frame(shots, army, n - 1);
    if j < n - 1 {
        lemma_resolve_skips_exploding(shots, army, n - 1, j);
    }
}

impl Player {
    /// A combatant at its spawn cell, shown as `glyph`.
    pub fn new(glyph: char) -> (player: Player)
        ensures
            player@ == initial_player(glyph),
            player_wf(player@),
    {
        let player = Player { x: NUM_COLS / 2, y: NUM_ROWS - 1, shots: Vec::new(), glyph };
        proof {
            assert(player@.shots =~= Seq::<ShotView>::empty());
            assert(player@ =~= initial_player(glyph));
        }
        player
    }

    /// Reinitializes the combatant to its spawn cell with no projectiles,
    /// keeping its glyph.
    pub fn reset(&mut self)
        ensures
            final(self)@ == initial_player(old(self)@.glyph),
            player_wf(final(self)@),
    {
        *self = Player::new(self.glyph);
    }

    /// Moves one column left, clamped at the playfield boundary.
    pub fn move_left(&mut self)
        ensures
            final(self)@ == (PlayerView {
                x: if old(self)@.x > 0 { old(self)@.x - 1 } else { 0 },
                ..old(self)@
            }),
            player_wf(old(self)@) ==> player_wf(final(self)@),
    {
        if self.x > 0 {
            self.x = self.x - 1;
        }
        proof {
            assert(final(self)@ =~= (PlayerView {
                x: if old(self)@.x > 0 { old(self)@.x - 1 } else { 0 },
                ..old(self)@
            }));
        }
    }

    /// Moves one column right, clamped at the playfield boundary.
    pub fn move_right(&mut self)
        ensures
            final(self)@ == (PlayerView {
                x: if old(self)@.x < NUM_COLS - 1 { old(self)@.x + 1 } else { old(self)@.x },
                ..old(self)@
            }),
            player_wf(old(self)@) ==> player_wf(final(self)@),
    {
        if self.x < NUM_COLS - 1 {
            self.x = self.x + 1;
        }
        proof {
            assert(final(self)@ =~= (PlayerView {
                x: if old(self)@.x < NUM_COLS - 1 { old(self)@.x + 1 } else { old(self)@.x },
                ..old(self)@
            }));
        }
    }

    /// Fires a projectile one row above the combatant. The request is
    /// rejected, and nothing changes, exactly when the combatant already has
    /// the maximum number of live projectiles.
    pub fn shoot(&mut self) -> (accepted: bool)
        requires
            player_wf(old(self)@),
        ensures
            accepted == (old(self)@.shots.len() < PLAYER_MAX_SIMULTANEOUS_SHOTS),
            accepted ==> final(self)@ == (PlayerView {
                shots: old(self)@.shots.push(spawned_shot(old(self)@)),
                ..old(self)@
            }),
            !accepted ==> final(self)@ == old(self)@,
            player_wf(final(self)@),
    {
        if self.shots.len() < PLAYER_MAX_SIMULTANEOUS_SHOTS {
            let shot = Shot::new(self.x, self.y - 1);
            self.shots.push(shot);
            proof {
                assert(final(self)@.shots =~= old(self)@.shots.push(spawned_shot(old(self)@)));
                assert(final(self)@ =~= (PlayerView {
                    shots: old(self)@.shots.push(spawned_shot(old(self)@)),
                    ..old(self)@
                }));
            }
            true
        } else {
            proof {
                assert(final(self)@ =~= old(self)@);
            }
            false
        }
    }

    /// Advances every live projectile by `delta` microseconds, then drops
    /// the dead ones.
    pub fn update(&mut self, delta: u64)
        requires
            player_wf(old(self)@),
        ensures
            final(self)@ == player_updated(old(self)@, delta as int),
            player_wf(final(self)@),
    {
        let mut kept: Vec<Shot> = Vec::new();
        let mut i: usize = 0;
        while i < self.shots.len()
            invariant
                i <= self.shots.len(),
                *self == *old(self),
                player_wf(old(self)@),
                kept@.len() <= i,
                kept@.map_values(|s: Shot| s@) == shots_updated(
                    old(self)@.shots.take(i as int),
                    delta as int,
                ),
                forall|k: int| 0 <= k < kept@.len() ==> shot_wf((#[trigger] kept@[k])@),
            decreases self.shots.len() - i,
        {
            let ghost prefix = old(self)@.shots.take(i as int);
            let ghost prefix1 = old(self)@.shots.take(i + 1);
            let mut s = self.shots[i];
            proof {
                assert(old(self)@.shots[i as int] == old(self).shots@[i as int]@);
                assert(s@ == old(self)@.shots[i as int]);
                assert(shot_wf(s@));
                assert(prefix1.drop_last() =~= prefix);
                assert(prefix1.last() == old(self)@.shots[i as int]);
            }
            s.update(delta);
            if !s.dead() {
                kept.push(s);
                proof {
                    assert(kept@.map_values(|s: Shot| s@) =~= shots_updated(
                        prefix1,
                        delta as int,
                    ));
                }
            } else {
                proof {
                    assert(kept@.map_values(|s: Shot| s@) =~= shots_updated(
                        prefix1,
                        delta as int,
                    ));
                }
            }
            i = i + 1;
        }
        proof {
            assert(old(self)@.shots.take(old(self)@.shots.len() as int) =~= old(self)@.shots);
            lemma_shots_updated_wf(old(self)@.shots, delta as int);
        }
        self.shots = kept;
        proof {
            assert(self@.shots =~= shots_updated(old(self)@.shots, delta as int));
            assert(self@ =~= player_updated(old(self)@, delta as int));
        }
    }

    /// Tries every projectile that is not already exploding against the
    /// formation, in fire order: a hit scores the struck member's points,
    /// removes it, and turns the projectile exploding. Returns the points
    /// scored by this call; a projectile already exploding cannot score
    /// again.
    pub fn detect_hits(&mut self, invaders: &mut Invaders) -> (points: u16)
        requires
            player_wf(old(self)@),
            invaders_wf(old(invaders)@),
        ensures
            final(self)@.shots == resolve_shots(
                old(self)@.shots,
                old(invaders)@.army,
                old(self)@.shots.len() as int,
            ).0,
            final(invaders)@.army == resolve_shots(
                old(self)@.shots,
                old(invaders)@.army,
                old(self)@.shots.len() as int,
            ).1,
            points as int == resolve_shots(
                old(self)@.shots,
                old(invaders)@.army,
                old(self)@.shots.len() as int,
            ).2,
            points as int <= old(self)@.shots.len(),
            final(self)@.x == old(self)@.x,
            final(self)@.y == old(self)@.y,
            final(self)@.glyph == old(self)@.glyph,
            final(invaders)@.move_timer == old(invaders)@.move_timer,
            final(invaders)@.direction == old(invaders)@.direction,
            final(invaders)@.total_count == old(invaders)@.total_count,
            player_wf(final(self)@),
            invaders_wf(final(invaders)@),
    {
        let mut points: u16 = 0;
        let mut i: usize = 0;
        while i < self.shots.len()
            invariant
                i <= self.shots.len(),
                self.shots.len() == old(self).shots.len(),
                self.x == old(self).x,
                self.y == old(self).y,
                self.glyph == old(self).glyph,
                player_wf(old(self)@),
                invaders_wf(old(invaders)@),
                invaders_wf(invaders@),
                invaders@.move_timer == old(invaders)@.move_timer,
                invaders@.direction == old(invaders)@.direction,
                invaders@.total_count == old(invaders)@.total_count,
                points <= i,
                self@.shots == resolve_shots(
                    old(self)@.shots,
                    old(invaders)@.army,
                    i as int,
                ).0,
                invaders@.army == resolve_shots(
                    old(self)@.shots,
                    old(invaders)@.army,
                    i as int,
                ).1,
                points as int == resolve_shots(
                    old(self)@.shots,
                    old(invaders)@.army,
                    i as int,
                ).2,
                forall|j: int|
                    i <= j < self.shots.len() ==> #[trigger] self.shots@[j] == old(self).shots@[j],
            decreases self.shots.len() - i,
        {
            let ghost s0 = resolve_shots(old(self)@.shots, old(invaders)@.army, i as int).0;
            let ghost a0 = resolve_shots(old(self)@.shots, old(invaders)@.army, i as int).1;
            let s = self.shots[i];
            proof {
                assert(old(self)@.shots[i as int] == old(self).shots@[i as int]@);
                assert(s@ == old(self)@.shots[i as int]);
                assert(self@.shots[i as int] == self.shots@[i as int]@);
                assert(s0[i as int] == s@);
            }
            if !s.exploding {
                let pts = invaders.kill_invader_at(s.x, s.y);
                if pts > 0 {
                    points = points + pts;
                    let mut s2 = self.shots[i];
                    s2.explode();
                    self.shots.set(i, s2);
                    proof {
                        assert(self@.shots =~= s0.update(i as int, shot_exploded(s0[i as int])));
                    }
                }
            }
            i = i + 1;
        }
        proof {
            lemma_resolve_shots_frame(
                old(self)@.shots,
                old(invaders)@.army,
                old(self)@.shots.len() as int,
            );
        }
        points
    }

    /// The combatant's current column.
    pub fn get_x(&self) -> (x: usize)
        ensures
            x as int == self@.x,
    {
        self.x
    }

    /// The combatant's row: the bottom playfield row.
    pub fn get_y(&self) -> (y: usize)
        ensures
            y as int == self@.y,
    {
        self.y
    }

    /// The number of live projectiles.
    pub fn shot_count(&self) -> (n: usize)
        ensures
            n as int == self@.shots.len(),
    {
        self.shots.len()
    }

    /// The projectile at position `i` in fire order.
    pub fn get_shot(&self, i: usize) -> (shot: Shot)
        requires
            i < self@.shots.len(),
        ensures
            shot@ == self@.shots[i as int],
    {
        self.shots[i]
    }
}

/// The frame with the first `n` projectiles rendered onto it, in fire
/// order.
pub open spec fn shots_drawn(fv: FrameView, shots: Seq<ShotView>, n: int) -> FrameView
    decreases n,
{
    if n <= 0 {
        fv
    } else {
        shot_drawn(shots_drawn(fv, shots, n - 1), shots[n - 1])
    }
}

/// The frame with the combatant and then all its projectiles rendered onto
/// it.
pub open spec fn player_drawn(fv: FrameView, p: PlayerView) -> FrameView {
    shots_drawn(frame_put(fv, p.x, p.y, p.glyph), p.shots, p.shots.len() as int)
}

impl Drawable for Player {
    open spec fn draw_ok(&self) -> bool {
        player_wf(self@)
    }

    fn draw(&self, frame: &mut Frame)
        ensures
            frame_view(final(frame)) == player_drawn(frame_view(old(frame)), self@),
    {
        put_cell(frame, self.x, self.y, self.glyph);
        let ghost base = frame_view(frame);
        let mut i: usize = 0;
        while i < self.shots.len()
            invariant
                i <= self.shots.len(),
                self@.shots.len() == self.shots.len(),
                player_wf(self@),
                frame_wf(frame_view(frame)),
                frame_view(frame) == shots_drawn(base, self@.shots, i as int),
            decreases self.shots.len() - i,
        {
            let shot = self.shots[i];
            proof {
                assert(shot@ == self@.shots[i as int]);
                assert(shot_wf(shot@));
            }
            shot.draw(frame);
            i = i + 1;
        }
    }
}

impl Default for Player {
    /// Same as a fresh combatant with the standard glyph.
    fn default() -> (player: Player)
        ensures
            player@ == initial_player('A'),
            player_wf(player@),
    {
        Player::new('A')
    }
}

/// Whether a second combatant takes part in the game.
#[derive(Clone, Copy, PartialEq, Eq, Structural, Debug)]
pub enum Player2Mode {
    Enabled(bool),
}

/// The frame with the second-combatant hint rendered onto the top row while
/// the second combatant is disabled.
pub open spec fn player2_mode_drawn(fv: FrameView, mode: Player2Mode) -> FrameView {
    if mode == Player2Mode::Enabled(false) {
        text_written(fv, 23, 0, "P2: PRESS E"@)
    } else {
        fv
    }
}

impl Drawable for Player2Mode {
    open spec fn draw_ok(&self) -> bool {
        true
    }

    fn draw(&self, frame: &mut Frame)
        ensures
            frame_view(final(frame)) == player2_mode_drawn(frame_view(old(frame)), *self),
    {
        if *self == Player2Mode::Enabled(false) {
            let text: Vec<char> = vec!['P', '2', ':', ' ', 'P', 'R', 'E', 'S', 'S', ' ', 'E'];
            proof {
                reveal_strlit("P2: PRESS E");
                assert(text@ =~= "P2: PRESS E"@);
            }
            write_text(frame, 23, 0, &text);
        }
    }
}

} // verus!
