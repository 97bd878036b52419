//! A player-fired projectile. While travelling, each expiry of its clock
//! moves it one row up; once it registers a hit it switches to an exploding
//! phase whose clock measures the explosion animation. A projectile is dead,
//! and due for removal, exactly when its explosion has run out, or when it
//! reached the top row without exploding.

use vstd::prelude::*;
use crate::clock::{Clock, ClockView, clock_advanced, clock_armed, clock_rearmed, clock_wf};
use crate::constants::{
    NUM_COLS, NUM_ROWS, PLAYER_CHAR_HEIGHT, SHOT_EXPLOSION_DURATION_US, SHOT_MOVE_INTERVAL_US,
};
use crate::frame::{frame_put, frame_view, put_cell, Drawable, Frame, FrameView};

verus! {

/// A single projectile: position, explosion phase, and the clock driving its
/// next transition.
#[derive(Clone, Copy)]
pub struct Shot {
    pub x: usize,
    pub y: usize,
    pub exploding: bool,
    pub timer: Clock,
}

/// Mathematical model of a `Shot`.
#[verifier::ext_equal]
pub struct ShotView {
    pub x: int,
    pub y: int,
    pub exploding: bool,
    pub timer: ClockView,
}

impl View for Shot {
    type V = ShotView;

    open spec fn view(&self) -> ShotView {
        ShotView {
            x: self.x as int,
            y: self.y as int,
            exploding: self.exploding,
            timer: self.timer@,
        }
    }
}

/// A projectile is well formed when it sits on the playfield and its clock is
/// well formed.
pub open spec fn shot_wf(s: ShotView) -> bool {
    &&& clock_wf(s.timer)
    &&& 0 <= s.x < NUM_COLS
    &&& 0 <= s.y < NUM_ROWS
}

/// A projectile after `delta` time has elapsed: its clock advances; on expiry
/// a travelling projectile climbs one row (stopping at the top row) and its
/// clock is rearmed, while an exploding one only keeps counting down.
pub open spec fn shot_updated(s: ShotView, delta: int) -> ShotView {
    let t = clock_advanced(s.timer, delta);
    if t.ready && !s.exploding {
        ShotView {
            y: if s.y > 0 { s.y - 1 } else { 0 },
            timer: clock_rearmed(t),
            ..s
        }
    } else {
        ShotView { timer: t, ..s }
    }
}

/// A projectile that has just registered a hit: it starts exploding and its
/// clock is rearmed to the explosion duration.
pub open spec fn shot_exploded(s: ShotView) -> ShotView {
    ShotView {
        exploding: true,
        timer: clock_armed(SHOT_EXPLOSION_DURATION_US as int),
        ..s
    }
}

/// A projectile is dead once its explosion clock has run out, or once it
/// reached the top row without exploding. An exploding projectile lives until
/// its clock expires, wherever it sits.
pub open spec fn shot_dead(s: ShotView) -> bool {
    (s.exploding && s.timer.ready) || (s.y == 0 && !s.exploding)
}

/// The row a projectile is drawn on: clamped above the band the player
/// glyph occupies at the bottom of the playfield.
pub open spec fn shot_draw_row(y: int) -> int {
    if y >= NUM_ROWS - PLAYER_CHAR_HEIGHT {
        (NUM_ROWS - PLAYER_CHAR_HEIGHT) as int
    } else {
        y
    }
}

/// The glyph a projectile is drawn as: a burst while exploding, else a bolt.
pub open spec fn shot_glyph(s: ShotView) -> char {
    if s.exploding {
        '*'
    } else {
        '|'
    }
}

/// The frame with one projectile rendered onto it.
pub open spec fn shot_drawn(fv: FrameView, s: ShotView) -> FrameView {
    frame_put(fv, s.x, shot_draw_row(s.y), shot_glyph(s))
}

impl Drawable for Shot {
    open spec fn draw_ok(&self) -> bool {
        shot_wf(self@)
    }

    fn draw(&self, frame: &mut Frame)
        ensures
            frame_view(final(frame)) == shot_drawn(frame_view(old(frame)), self@),
    {
        let bottom_bound_y = NUM_ROWS - PLAYER_CHAR_HEIGHT;
        let pos_y = if self.y >= bottom_bound_y {
            bottom_bound_y
        } else {
            self.y
        };
        let glyph = if self.exploding {
            '*'
        } else {
            '|'
        };
        put_cell(frame, self.x, pos_y, glyph);
    }
}

/// An exploding projectile stays exploding and in place as time passes, and
/// it is dead exactly when its explosion clock has expired, never before.
pub proof fn lemma_exploding_shot(s: ShotView, delta: int)
    requires
        s.exploding,
    ensures
        shot_updated(s, delta).exploding,
        shot_updated(s, delta).x == s.x,
        shot_updated(s, delta).y == s.y,
        shot_dead(shot_updated(s, delta)) == clock_advanced(s.timer, delta).ready,
        shot_dead(s) == s.timer.ready,
{
}

/// Updating and exploding preserve projectile well-formedness.
pub proof fn lemma_shot_updated_wf(s: ShotView, delta: int)
    requires
        shot_wf(s),
        0 <= delta,
    ensures
        shot_wf(shot_updated(s, delta)),
        shot_wf(shot_exploded(s)),
{
}

impl Shot {
    /// Spawns a travelling projectile at the given playfield cell.
    pub fn new(x: usize, y: usize) -> (shot: Shot)
        requires
            x < NUM_COLS,
            y < NUM_ROWS,
        ensures
            shot@ == (ShotView {
                x: x as int,
                y: y as int,
                exploding: false,
                timer: clock_armed(SHOT_MOVE_INTERVAL_US as int),
            }),
            shot_wf(shot@),
    {
        Shot { x, y, exploding: false, timer: Clock::new(SHOT_MOVE_INTERVAL_US) }
    }

    /// Advances the projectile by `delta` microseconds of elapsed time.
    pub fn update(&mut self, delta: u64)
        requires
            shot_wf(old(self)@),
        ensures
            final(self)@ == shot_updated(old(self)@, delta as int),
            shot_wf(final(self)@),
    {
        self.timer.advance(delta);
        if self.timer.is_ready() && !self.exploding {
            if self.y > 0 {
                self.y = self.y - 1;
            }
            self.timer.reset();
        }
    }

    /// Switches the projectile to its exploding phase.
    pub fn explode(&mut self)
        ensures
            final(self)@ == shot_exploded(old(self)@),
            shot_wf(old(self)@) ==> shot_wf(final(self)@),
    {
        self.exploding = true;
        self.timer = Clock::new(SHOT_EXPLOSION_DURATION_US);
    }

    /// True once the projectile is due for removal.
    pub fn dead(&self) -> (dead: bool)
        ensures
            dead == shot_dead(self@),
    {
        (self.exploding && self.timer.is_ready()) || (self.y == 0 && !self.exploding)
    }
}

} // verus!
