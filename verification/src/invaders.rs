//! The invader formation: a grid-born collection of members that sweeps
//! horizontally, descends one row whenever its leading edge touches a
//! playfield boundary, and speeds up with every descent. Members are removed
//! individually when hit; the formation is replaced wholesale on level-up.

use vstd::prelude::*;
use vstd::arithmetic::div_mod::{lemma_fundamental_div_mod, lemma_fundamental_div_mod_converse};
use crate::clock::{Clock, ClockView, clock_advanced, clock_armed, clock_rearmed, clock_wf};
use crate::frame::{frame_put, frame_view, frame_wf, put_cell, Drawable, Frame, FrameView};
use crate::constants::{
    INVADERS_COL_COUNT, INVADERS_COL_INTERVAL, INVADERS_FIRST_COL, INVADERS_FIRST_ROW,
    INVADERS_INITIAL_MOVE_INTERVAL_US, INVADERS_MOVE_INTERVAL_DECREMENT_US,
    INVADERS_MOVE_INTERVAL_MINIMAL_US, INVADERS_ROW_COUNT, INVADERS_ROW_INTERVAL, NUM_COLS,
    NUM_ROWS,
};

verus! {

/// Horizontal sweep direction of the whole formation.
#[derive(Clone, Copy, PartialEq, Eq, Structural, Debug)]
pub enum SweepDirection {
    Left,
    Right,
}

/// One formation member: a playfield cell, the points it is worth, and the
/// two glyphs it alternates between while the formation moves.
#[derive(Clone, Copy)]
pub struct Invader {
    pub x: usize,
    pub y: usize,
    pub points: u16,
    pub face1: char,
    pub face2: char,
}

/// Mathematical model of an `Invader`.
#[verifier::ext_equal]
pub struct InvaderView {
    pub x: int,
    pub y: int,
    pub points: int,
    pub face1: char,
    pub face2: char,
}

impl View for Invader {
    type V = InvaderView;

    open spec fn view(&self) -> InvaderView {
        InvaderView {
            x: self.x as int,
            y: self.y as int,
            points: self.points as int,
            face1: self.face1,
            face2: self.face2,
        }
    }
}

/// The formation: its members, the member count it was born with, the clock
/// pacing its moves, and its current sweep direction.
pub struct Invaders {
    pub army: Vec<Invader>,
    pub total_count: usize,
    pub move_timer: Clock,
    pub direction: SweepDirection,
}

/// Mathematical model of `Invaders`.
#[verifier::ext_equal]
pub struct InvadersView {
    pub army: Seq<InvaderView>,
    pub total_count: int,
    pub move_timer: ClockView,
    pub direction: SweepDirection,
}

impl View for Invaders {
    type V = InvadersView;

    open spec fn view(&self) -> InvadersView {
        InvadersView {
            army: self.army@.map_values(|m: Invader| m@),
            total_count: self.total_count as int,
            move_timer: self.move_timer@,
            direction: self.direction,
        }
    }
}

/// Some member occupies the cell `(x, y)`.
pub open spec fn cell_occupied(army: Seq<InvaderView>, x: int, y: int) -> bool {
    exists|i: int| 0 <= i < army.len() && (#[trigger] army[i]).x == x && army[i].y == y
}

/// No two members share a cell. The grid layout establishes this and every
/// move preserves it, so a projectile can never strike two members at once.
pub open spec fn cells_distinct(army: Seq<InvaderView>) -> bool {
    forall|i: int, j: int|
        0 <= i < j < army.len() ==> !((#[trigger] army[i]).x == (#[trigger] army[j]).x
            && army[i].y == army[j].y)
}

/// One member sits on the playfield and is worth exactly one point.
pub open spec fn member_wf(m: InvaderView) -> bool {
    &&& 0 <= m.x < NUM_COLS
    &&& 0 <= m.y < NUM_ROWS
    &&& m.points == 1
}

/// Every member sits on the playfield, is worth exactly one point, and no
/// two members share a cell.
pub open spec fn army_wf(army: Seq<InvaderView>) -> bool {
    &&& forall|i: int| 0 <= i < army.len() ==> member_wf(#[trigger] army[i])
    &&& cells_distinct(army)
}

/// A well-formed formation: a well-formed army, and a move clock whose
/// duration stays between the speed floor and the initial interval.
pub open spec fn invaders_wf(v: InvadersView) -> bool {
    &&& clock_wf(v.move_timer)
    &&& INVADERS_MOVE_INTERVAL_MINIMAL_US <= v.move_timer.duration
        <= INVADERS_INITIAL_MOVE_INTERVAL_US
    &&& army_wf(v.army)
}

/// Column of the leftmost member; zero for an empty army.
pub open spec fn min_col(army: Seq<InvaderView>) -> int
    decreases army.len(),
{
    if army.len() == 0 {
        0
    } else if army.len() == 1 {
        army[0].x
    } else {
        let rest = min_col(army.drop_last());
        if army.last().x < rest {
            army.last().x
        } else {
            rest
        }
    }
}

/// Column of the rightmost member; zero for an empty army.
pub open spec fn max_col(army: Seq<InvaderView>) -> int
    decreases army.len(),
{
    if army.len() == 0 {
        0
    } else if army.len() == 1 {
        army[0].x
    } else {
        let rest = max_col(army.drop_last());
        if army.last().x > rest {
            army.last().x
        } else {
            rest
        }
    }
}

/// The extreme member in the current sweep direction sits exactly at the
/// corresponding playfield edge.
pub open spec fn at_edge(v: InvadersView) -> bool {
    match v.direction {
        SweepDirection::Left => min_col(v.army) == 0,
        SweepDirection::Right => max_col(v.army) == NUM_COLS - 1,
    }
}

/// The opposite sweep direction.
pub open spec fn flipped(d: SweepDirection) -> SweepDirection {
    match d {
        SweepDirection::Left => SweepDirection::Right,
        SweepDirection::Right => SweepDirection::Left,
    }
}

/// Every member one row further down.
pub open spec fn army_descended(army: Seq<InvaderView>) -> Seq<InvaderView> {
    army.map_values(|m: InvaderView| InvaderView { y: m.y + 1, ..m })
}

/// Every member one column over in the sweep direction.
pub open spec fn army_shifted(army: Seq<InvaderView>, d: SweepDirection) -> Seq<InvaderView> {
    match d {
        SweepDirection::Left => army.map_values(|m: InvaderView| InvaderView { x: m.x - 1, ..m }),
        SweepDirection::Right => army.map_values(|m: InvaderView| InvaderView { x: m.x + 1, ..m }),
    }
}

/// The move interval after one descent: shortened by the fixed decrement,
/// floored at the fixed minimum.
pub open spec fn next_move_duration(duration: int) -> int {
    if duration - INVADERS_MOVE_INTERVAL_DECREMENT_US > INVADERS_MOVE_INTERVAL_MINIMAL_US {
        duration - INVADERS_MOVE_INTERVAL_DECREMENT_US
    } else {
        INVADERS_MOVE_INTERVAL_MINIMAL_US as int
    }
}

/// The formation after `delta` time has elapsed. If the move clock does not
/// expire, only the clock advances. On expiry at a playfield edge the
/// formation flips direction, descends one row, and rearms a shortened
/// clock; otherwise it shifts one column in its direction and rearms.
pub open spec fn invaders_updated(v: InvadersView, delta: int) -> InvadersView {
    let t = clock_advanced(v.move_timer, delta);
    if !t.ready {
        InvadersView { move_timer: t, ..v }
    } else if at_edge(v) {
        InvadersView {
            army: army_descended(v.army),
            move_timer: clock_armed(next_move_duration(v.move_timer.duration)),
            direction: flipped(v.direction),
            ..v
        }
    } else {
        InvadersView { army: army_shifted(v.army, v.direction), move_timer: clock_rearmed(t), ..v }
    }
}

/// Some member has reached the last playfield row.
pub open spec fn army_reached_bottom(army: Seq<InvaderView>) -> bool {
    exists|i: int| 0 <= i < army.len() && (#[trigger] army[i]).y >= NUM_ROWS - 1
}

/// Index of the member at `(x, y)`; meaningful only when the cell is
/// occupied, in which case distinctness of cells makes it unique.
pub open spec fn hit_index(army: Seq<InvaderView>, x: int, y: int) -> int {
    choose|i: int| 0 <= i < army.len() && army[i].x == x && army[i].y == y
}

/// The army after a strike at `(x, y)`: the member there is removed if the
/// cell is occupied, otherwise nothing changes.
pub open spec fn army_after_kill(army: Seq<InvaderView>, x: int, y: int) -> Seq<InvaderView> {
    if cell_occupied(army, x, y) {
        army.remove(hit_index(army, x, y))
    } else {
        army
    }
}

/// Points scored by a strike at `(x, y)`: the member's point value on a hit,
/// zero on a miss.
pub open spec fn kill_points(army: Seq<InvaderView>, x: int, y: int) -> int {
    if cell_occupied(army, x, y) {
        army[hit_index(army, x, y)].points
    } else {
        0
    }
}

/// The two alternating face glyphs of the formation rank at `row`.
pub open spec fn spec_row_faces(row: int) -> (char, char) {
    if row == 0 {
        ('x', '+')
    } else if row == 1 {
        (')', '(')
    } else if row == 2 {
        ('O', '0')
    } else {
        ('_', '-')
    }
}

/// The member a fresh formation holds at flat grid index `k`, counting
/// left-to-right then top-to-bottom.
pub open spec fn initial_invader(k: int) -> InvaderView {
    let row = k / (INVADERS_COL_COUNT as int);
    let col = k % (INVADERS_COL_COUNT as int);
    InvaderView {
        x: INVADERS_FIRST_COL + col * INVADERS_COL_INTERVAL,
        y: INVADERS_FIRST_ROW + row * INVADERS_ROW_INTERVAL,
        points: 1,
        face1: spec_row_faces(row).0,
        face2: spec_row_faces(row).1,
    }
}

/// The army of a fresh formation: the full grid layout.
pub open spec fn initial_army() -> Seq<InvaderView> {
    Seq::new((INVADERS_ROW_COUNT * INVADERS_COL_COUNT) as nat, |k: int| initial_invader(k))
}

/// A fresh formation: the grid layout, sweeping right, with the move clock
/// armed to the initial (slow) interval.
pub open spec fn initial_invaders() -> InvadersView {
    InvadersView {
        army: initial_army(),
        total_count: initial_army().len() as int,
        move_timer: clock_armed(INVADERS_INITIAL_MOVE_INTERVAL_US as int),
        direction: SweepDirection::Right,
    }
}

/// The two alternating face glyphs of the formation rank at `row`.
pub fn row_faces(row: usize) -> (faces: (char, char))
    ensures
        faces == spec_row_faces(row as int),
{
    if row == 0 {
        ('x', '+')
    } else if row == 1 {
        (')', '(')
    } else if row == 2 {
        ('O', '0')
    } else {
        ('_', '-')
    }
}

impl Invaders {
    /// Populates the grid layout: `INVADERS_ROW_COUNT` ranks spaced
    /// `INVADERS_ROW_INTERVAL` rows apart, each rank filling every
    /// `INVADERS_COL_INTERVAL`-th column, sweeping right, with the move clock
    /// armed to the initial (slow) interval.
    pub fn new() -> (inv: Invaders)
        ensures
            inv@ == initial_invaders(),
            invaders_wf(inv@),
            !army_reached_bottom(inv@.army),
    {
        let mut army: Vec<Invader> = Vec::new();
        let mut row: usize = 0;
        while row < INVADERS_ROW_COUNT
            invariant
                row <= INVADERS_ROW_COUNT,
                army@.len() == row * INVADERS_COL_COUNT,
                forall|k: int|
                    0 <= k < army@.len() ==> #[trigger] army@[k]@ == initial_invader(k),
            decreases INVADERS_ROW_COUNT - row,
        {
            let faces = row_faces(row);
            let mut col: usize = 0;
            while col < INVADERS_COL_COUNT
                invariant
                    row < INVADERS_ROW_COUNT,
                    col <= INVADERS_COL_COUNT,
                    faces == spec_row_faces(row as int),
                    army@.len() == row * INVADERS_COL_COUNT + col,
                    forall|k: int|
                        0 <= k < army@.len() ==> #[trigger] army@[k]@ == initial_invader(k),
                decreases INVADERS_COL_COUNT - col,
            {
                let member = Invader {
                    x: INVADERS_FIRST_COL + col * INVADERS_COL_INTERVAL,
                    y: INVADERS_FIRST_ROW + row * INVADERS_ROW_INTERVAL,
                    points: 1,
                    face1: faces.0,
                    face2: faces.1,
                };
                proof {
                    lemma_fundamental_div_mod_converse(
                        row * INVADERS_COL_COUNT + col,
                        INVADERS_COL_COUNT as int,
                        row as int,
                        col as int,
                    );
                    assert(member@ == initial_invader(row * INVADERS_COL_COUNT + col));
                }
                army.push(member);
                col = col + 1;
            }
            row = row + 1;
        }
        let total_count = army.len();
        let inv = Invaders {
            army,
            total_count,
            move_timer: Clock::new(INVADERS_INITIAL_MOVE_INTERVAL_US),
            direction: SweepDirection::Right,
        };
        proof {
            assert(inv@.army =~= initial_army());
            assert(inv@ =~= initial_invaders());
            lemma_initial_army_wf();
        }
        inv
    }

    /// True when every member has been killed.
    pub fn all_killed(&self) -> (empty: bool)
        ensures
            empty == (self@.army.len() == 0),
    {
        self.army.is_empty()
    }

    /// True when some member has reached the last playfield row.
    pub fn reached_bottom(&self) -> (reached: bool)
        ensures
            reached == army_reached_bottom(self@.army),
    {
        let mut i: usize = 0;
        while i < self.army.len()
            invariant
                i <= self.army.len(),
                self@.army.len() == self.army.len(),
                forall|j: int| 0 <= j < i ==> (#[trigger] self@.army[j]).y < NUM_ROWS - 1,
            decreases self.army.len() - i,
        {
            if self.army[i].y >= NUM_ROWS - 1 {
                proof {
                    assert(self@.army[i as int].y >= NUM_ROWS - 1);
                }
                return true;
            }
            i = i + 1;
        }
        false
    }

    /// The sweep direction the formation is currently moving in.
    pub fn get_direction(&self) -> (d: SweepDirection)
        ensures
            d == self@.direction,
    {
        self.direction
    }

    /// The member count the formation was born with.
    pub fn get_total_count(&self) -> (n: usize)
        ensures
            n as int == self@.total_count,
    {
        self.total_count
    }

    /// The number of members still alive.
    pub fn count(&self) -> (n: usize)
        ensures
            n as int == self@.army.len(),
    {
        self.army.len()
    }

    /// Column of the leftmost member; zero when the army is empty.
    fn min_col_exec(&self) -> (m: usize)
        ensures
            m as int == min_col(self@.army),
    {
        if self.army.len() == 0 {
            return 0;
        }
        let mut m: usize = self.army[0].x;
        let mut i: usize = 1;
        proof {
            assert(self@.army.take(1)[0] == self@.army[0]);
        }
        while i < self.army.len()
            invariant
                1 <= i <= self.army.len(),
                self@.army.len() == self.army.len(),
                m as int == min_col(self@.army.take(i as int)),
            decreases self.army.len() - i,
        {
            proof {
                assert(self@.army.take(i + 1).drop_last() =~= self@.army.take(i as int));
                assert(self@.army.take(i + 1).last() == self@.army[i as int]);
            }
            if self.army[i].x < m {
                m = self.army[i].x;
            }
            i = i + 1;
        }
        proof {
            assert(self@.army.take(self.army.len() as int) =~= self@.army);
        }
        m
    }

    /// Column of the rightmost member; zero when the army is empty.
    fn max_col_exec(&self) -> (m: usize)
        ensures
            m as int == max_col(self@.army),
    {
        if self.army.len() == 0 {
            return 0;
        }
        let mut m: usize = self.army[0].x;
        let mut i: usize = 1;
        proof {
            assert(self@.army.take(1)[0] == self@.army[0]);
        }
        while i < self.army.len()
            invariant
                1 <= i <= self.army.len(),
                self@.army.len() == self.army.len(),
                m as int == max_col(self@.army.take(i as int)),
            decreases self.army.len() - i,
        {
            proof {
                assert(self@.army.take(i + 1).drop_last() =~= self@.army.take(i as int));
                assert(self@.army.take(i + 1).last() == self@.army[i as int]);
            }
            if self.army[i].x > m {
                m = self.army[i].x;
            }
            i = i + 1;
        }
        proof {
            assert(self@.army.take(self.army.len() as int) =~= self@.army);
        }
        m
    }

    /// Moves every member one row down. Called only on a boundary expiry,
    /// when no member has reached the bottom row yet.
    fn descend(&mut self)
        requires
            army_wf(old(self)@.army),
            !army_reached_bottom(old(self)@.army),
        ensures
            final(self)@.army == army_descended(old(self)@.army),
            final(self).move_timer == old(self).move_timer,
            final(self).direction == old(self).direction,
            final(self).total_count == old(self).total_count,
    {
        let mut i: usize = 0;
        while i < self.army.len()
            invariant
                i <= self.army.len(),
                self.army.len() == old(self).army.len(),
                self.move_timer == old(self).move_timer,
                self.direction == old(self).direction,
                self.total_count == old(self).total_count,
                army_wf(old(self)@.army),
                !army_reached_bottom(old(self)@.army),
                forall|j: int|
                    i <= j < self.army.len() ==> #[trigger] self.army@[j] == old(self).army@[j],
                forall|j: int|
                    0 <= j < i ==> (#[trigger] self.army@[j])@
                        == army_descended(old(self)@.army)[j],
            decreases self.army.len() - i,
        {
            let m = self.army[i];
            proof {
                assert(old(self)@.army[i as int] == old(self).army@[i as int]@);
                assert(m@ == old(self)@.army[i as int]);
                assert(old(self)@.army[i as int].y < NUM_ROWS - 1);
            }
            self.army.set(i, Invader { y: m.y + 1, ..m });
            i = i + 1;
        }
        proof {
            assert(self@.army =~= army_descended(old(self)@.army));
        }
    }

    /// Moves every member one column along the current sweep direction.
    /// Called only when the leading edge is not at the boundary.
    fn shift(&mut self)
        requires
            army_wf(old(self)@.army),
            old(self)@.direction == SweepDirection::Left ==> min_col(old(self)@.army) != 0,
            old(self)@.direction == SweepDirection::Right ==> max_col(old(self)@.army)
                != NUM_COLS - 1,
        ensures
            final(self)@.army == army_shifted(old(self)@.army, old(self)@.direction),
            final(self).move_timer == old(self).move_timer,
            final(self).direction == old(self).direction,
            final(self).total_count == old(self).total_count,
    {
        let shift_left = match self.direction {
            SweepDirection::Left => true,
            SweepDirection::Right => false,
        };
        proof {
            if self.army.len() > 0 {
                if shift_left {
                    lemma_min_col_bounds(old(self)@.army);
                    assert forall|j: int| 0 <= j < self@.army.len() implies 1
                        <= (#[trigger] old(self)@.army[j]).x by {
                        assert(min_col(old(self)@.army) <= old(self)@.army[j].x);
                        assert(member_wf(old(self)@.army[j]));
                        let w = choose|i: int|
                            0 <= i < old(self)@.army.len() && (#[trigger] old(self)@.army[i]).x
                                == min_col(old(self)@.army);
                        assert(member_wf(old(self)@.army[w]));
                    }
                } else {
                    lemma_max_col_bounds(old(self)@.army);
                    assert forall|j: int| 0 <= j < self@.army.len() implies (
                    #[trigger] old(self)@.army[j]).x < NUM_COLS - 1 by {
                        assert(old(self)@.army[j].x <= max_col(old(self)@.army));
                        let w = choose|i: int|
                            0 <= i < old(self)@.army.len() && (#[trigger] old(self)@.army[i]).x
                                == max_col(old(self)@.army);
                        assert(member_wf(old(self)@.army[w]));
                    }
                }
            }
        }
        let mut i: usize = 0;
        while i < self.army.len()
            invariant
                i <= self.army.len(),
                self.army.len() == old(self).army.len(),
                self.move_timer == old(self).move_timer,
                self.direction == old(self).direction,
                self.total_count == old(self).total_count,
                army_wf(old(self)@.army),
                shift_left == (old(self)@.direction == SweepDirection::Left),
                shift_left ==> forall|j: int|
                    0 <= j < self.army.len() ==> 1 <= (#[trigger] old(self)@.army[j]).x,
                !shift_left ==> forall|j: int|
                    0 <= j < self.army.len() ==> (#[trigger] old(self)@.army[j]).x < NUM_COLS - 1,
                forall|j: int|
                    i <= j < self.army.len() ==> #[trigger] self.army@[j] == old(self).army@[j],
                forall|j: int|
                    0 <= j < i ==> (#[trigger] self.army@[j])@
                        == army_shifted(old(self)@.army, old(self)@.direction)[j],
            decreases self.army.len() - i,
        {
            let m = self.army[i];
            proof {
                assert(old(self)@.army[i as int] == old(self).army@[i as int]@);
                assert(m@ == old(self)@.army[i as int]);
            }
            if shift_left {
                self.army.set(i, Invader { x: m.x - 1, ..m });
            } else {
                self.army.set(i, Invader { x: m.x + 1, ..m });
            }
            i = i + 1;
        }
        proof {
            assert(self@.army =~= army_shifted(old(self)@.army, old(self)@.direction));
        }
    }

    /// Advances the formation by `delta` microseconds of elapsed time and
    /// reports whether a movement step occurred, so the caller can trigger a
    /// move sound. On a move-clock expiry the formation descends and flips
    /// when its leading edge sits at a playfield boundary, else shifts one
    /// column along its sweep. A formation that has reached the bottom row is
    /// replaced before it is ever advanced again, so descending never leaves
    /// the playfield.
    pub fn update(&mut self, delta: u64) -> (moved: bool)
        requires
            invaders_wf(old(self)@),
            !army_reached_bottom(old(self)@.army),
        ensures
            final(self)@ == invaders_updated(old(self)@, delta as int),
            invaders_wf(final(self)@),
            moved == clock_advanced(old(self)@.move_timer, delta as int).ready,
    {
        proof {
            lemma_moved_army_wf(old(self)@);
        }
        self.move_timer.advance(delta);
        if !self.move_timer.is_ready() {
            proof {
                assert(self@ =~= invaders_updated(old(self)@, delta as int));
            }
            return false;
        }
        self.move_timer.reset();
        let at_boundary = match self.direction {
            SweepDirection::Left => self.min_col_exec() == 0,
            SweepDirection::Right => self.max_col_exec() == NUM_COLS - 1,
        };
        proof {
            assert(at_boundary == at_edge(old(self)@));
        }
        if at_boundary {
            let d = self.move_timer.duration_micros();
            let nd = if d - INVADERS_MOVE_INTERVAL_DECREMENT_US
                > INVADERS_MOVE_INTERVAL_MINIMAL_US {
                d - INVADERS_MOVE_INTERVAL_DECREMENT_US
            } else {
                INVADERS_MOVE_INTERVAL_MINIMAL_US
            };
            self.move_timer = Clock::new(nd);
            self.descend();
            self.direction = match self.direction {
                SweepDirection::Left => SweepDirection::Right,
                SweepDirection::Right => SweepDirection::Left,
            };
            proof {
                assert(self@ =~= invaders_updated(old(self)@, delta as int));
            }
        } else {
            self.shift();
            proof {
                assert(self@ =~= invaders_updated(old(self)@, delta as int));
            }
        }
        true
    }

    /// Removes the member at the exact cell `(x, y)`, if any, and returns
    /// its point value; returns zero when the cell is empty. Because no two
    /// members ever share a cell, at most one member is removed.
    pub fn kill_invader_at(&mut self, x: usize, y: usize) -> (points: u16)
        requires
            invaders_wf(old(self)@),
        ensures
            final(self)@.army == army_after_kill(old(self)@.army, x as int, y as int),
            points as int == kill_points(old(self)@.army, x as int, y as int),
            final(self)@.move_timer == old(self)@.move_timer,
            final(self)@.direction == old(self)@.direction,
            final(self)@.total_count == old(self)@.total_count,
            invaders_wf(final(self)@),
            (points > 0) == cell_occupied(old(self)@.army, x as int, y as int),
    {
        let mut i: usize = 0;
        while i < self.army.len()
            invariant
                i <= self.army.len(),
                *self == *old(self),
                invaders_wf(old(self)@),
                forall|j: int|
                    0 <= j < i ==> !((#[trigger] self@.army[j]).x == x as int
                        && self@.army[j].y == y as int),
            decreases self.army.len() - i,
        {
            if self.army[i].x == x && self.army[i].y == y {
                let points = self.army[i].points;
                proof {
                    let army = old(self)@.army;
                    assert(army[i as int].x == x as int && army[i as int].y == y as int);
                    assert(cell_occupied(army, x as int, y as int));
                    let h = hit_index(army, x as int, y as int);
                    assert(0 <= h < army.len() && army[h].x == x as int && army[h].y == y as int);
                    assert(h == i) by {
                        if h != i {
                            assert(!(army[h].x == army[i as int].x
                                && army[h].y == army[i as int].y));
                        }
                    }
                }
                self.army.remove(i);
                proof {
                    let army = old(self)@.army;
                    assert(self@.army =~= army.remove(i as int));
                    assert(army_wf(self@.army)) by {
                        assert forall|j: int| 0 <= j < self@.army.len() implies member_wf(
                            #[trigger] self@.army[j],
                        ) by {
                            if j < i {
                                assert(self@.army[j] == army[j]);
                            } else {
                                assert(self@.army[j] == army[j + 1]);
                            }
                        }
                        assert forall|j: int, k: int| 0 <= j < k < self@.army.len() implies !((
                        #[trigger] self@.army[j]).x == (#[trigger] self@.army[k]).x
                            && self@.army[j].y == self@.army[k].y) by {
                            let j0 = if j < i { j } else { j + 1 };
                            let k0 = if k < i { k } else { k + 1 };
                            assert(self@.army[j] == army[j0] && self@.army[k] == army[k0]);
                            assert(!((army[j0]).x == (army[k0]).x && army[j0].y == army[k0].y));
                        }
                    }
                }
                return points;
            }
            i = i + 1;
        }
        proof {
            assert(!cell_occupied(old(self)@.army, x as int, y as int));
        }
        0
    }

    /// The cells the live members occupy, in army order.
    pub fn member_cells(&self) -> (cells: Vec<(usize, usize)>)
        ensures
            cells@.len() == self@.army.len(),
            forall|i: int|
                0 <= i < cells@.len() ==> #[trigger] cells@[i].0 as int == self@.army[i].x
                    && cells@[i].1 as int == self@.army[i].y,
    {
        let mut cells: Vec<(usize, usize)> = Vec::new();
        let mut i: usize = 0;
        while i < self.army.len()
            invariant
                i <= self.army.len(),
                self@.army.len() == self.army.len(),
                cells@.len() == i,
                forall|j: int|
                    0 <= j < i ==> #[trigger] cells@[j].0 as int == self@.army[j].x
                        && cells@[j].1 as int == self@.army[j].y,
            decreases self.army.len() - i,
        {
            let m = self.army[i];
            cells.push((m.x, m.y));
            i = i + 1;
        }
        cells
    }
}

/// The glyph a member is drawn as: the two faces alternate with the move
/// clock, flipping when its remaining fraction crosses one half.
pub open spec fn invader_glyph(v: InvadersView, m: InvaderView) -> char {
    if 2 * v.move_timer.remaining > v.move_timer.duration {
        m.face1
    } else {
        m.face2
    }
}

/// The frame with the first `n` members rendered onto it, in army order.
pub open spec fn army_drawn(fv: FrameView, v: InvadersView, n: int) -> FrameView
    decreases n,
{
    if n <= 0 {
        fv
    } else {
        frame_put(
            army_drawn(fv, v, n - 1),
            v.army[n - 1].x,
            v.army[n - 1].y,
            invader_glyph(v, v.army[n - 1]),
        )
    }
}

impl Drawable for Invaders {
    open spec fn draw_ok(&self) -> bool {
        invaders_wf(self@)
    }

    fn draw(&self, frame: &mut Frame)
        ensures
            frame_view(final(frame)) == army_drawn(
                frame_view(old(frame)),
                self@,
                self@.army.len() as int,
            ),
    {
        let flicker = self.move_timer.more_than_half_left();
        let mut i: usize = 0;
        while i < self.army.len()
            invariant
                i <= self.army.len(),
                self@.army.len() == self.army.len(),
                invaders_wf(self@),
                flicker == (2 * self@.move_timer.remaining > self@.move_timer.duration),
                frame_wf(frame_view(frame)),
                frame_view(frame) == army_drawn(frame_view(old(frame)), self@, i as int),
            decreases self.army.len() - i,
        {
            let m = self.army[i];
            proof {
                assert(m@ == self@.army[i as int]);
                assert(member_wf(self@.army[i as int]));
            }
            let glyph = if flicker {
                m.face1
            } else {
                m.face2
            };
            put_cell(frame, m.x, m.y, glyph);
            i = i + 1;
        }
    }
}

impl Default for Invaders {
    /// Same as a fresh formation.
    fn default() -> (inv: Invaders)
        ensures
            inv@.army == initial_army(),
            invaders_wf(inv@),
    {
        Invaders::new()
    }
}

/// A strike preserves army well-formedness, removes exactly the struck
/// member on a hit and nothing on a miss, and scores at most one point.
pub proof fn lemma_kill_wf(army: Seq<InvaderView>, x: int, y: int)
    requires
        army_wf(army),
    ensures
        army_wf(army_after_kill(army, x, y)),
        0 <= kill_points(army, x, y) <= 1,
        (kill_points(army, x, y) == 1) == cell_occupied(army, x, y),
        cell_occupied(army, x, y) ==> army_after_kill(army, x, y).len() == army.len() - 1,
        !cell_occupied(army, x, y) ==> army_after_kill(army, x, y) == army,
{
    if cell_occupied(army, x, y) {
        let h = hit_index(army, x, y);
        assert(0 <= h < army.len() && army[h].x == x && army[h].y == y);
        let killed = army.remove(h);
        assert forall|j: int| 0 <= j < killed.len() implies member_wf(#[trigger] killed[j]) by {
            if j < h {
                assert(killed[j] == army[j]);
            } else {
                assert(killed[j] == army[j + 1]);
            }
        }
        assert forall|j: int, k: int| 0 <= j < k < killed.len() implies !((
        #[trigger] killed[j]).x == (#[trigger] killed[k]).x && killed[j].y == killed[k].y) by {
            let j0 = if j < h { j } else { j + 1 };
            let k0 = if k < h { k } else { k + 1 };
            assert(killed[j] == army[j0] && killed[k] == army[k0]);
            assert(!((army[j0]).x == (army[k0]).x && army[j0].y == army[k0].y));
        }
        assert(member_wf(army[h]));
    }
}

/// On a movement-clock-ready tick the formation's direction flips exactly
/// when the extreme member (minimum column sweeping left, maximum column
/// sweeping right) sits at the corresponding playfield edge; otherwise every
/// member shifts by exactly one column in the sweep direction, keeping its
/// row.
pub proof fn lemma_flip_iff_at_edge(v: InvadersView, delta: int)
    requires
        invaders_wf(v),
        clock_advanced(v.move_timer, delta).ready,
    ensures
        (invaders_updated(v, delta).direction != v.direction) <==> at_edge(v),
        at_edge(v) ==> invaders_updated(v, delta).direction == flipped(v.direction),
        !at_edge(v) ==> {
            let moved = invaders_updated(v, delta).army;
            &&& moved.len() == v.army.len()
            &&& forall|i: int|
                0 <= i < v.army.len() ==> (#[trigger] moved[i]).x == v.army[i].x + (
                if v.direction == SweepDirection::Right {
                    1int
                } else {
                    -1int
                }) && moved[i].y == v.army[i].y
        },
{
}

/// After any direction flip every member's row grows by exactly one, and
/// the configured move interval shrinks by the fixed decrement, floored at
/// the fixed minimum; once the floor is hit, further flips leave it there.
pub proof fn lemma_descent_effects(v: InvadersView, delta: int)
    requires
        invaders_wf(v),
        clock_advanced(v.move_timer, delta).ready,
        at_edge(v),
    ensures
        ({
            let moved = invaders_updated(v, delta).army;
            &&& moved.len() == v.army.len()
            &&& forall|i: int|
                0 <= i < v.army.len() ==> (#[trigger] moved[i]).y == v.army[i].y + 1
                    && moved[i].x == v.army[i].x
        }),
        invaders_updated(v, delta).move_timer.duration == next_move_duration(
            v.move_timer.duration,
        ),
        next_move_duration(v.move_timer.duration) == if v.move_timer.duration
            - INVADERS_MOVE_INTERVAL_DECREMENT_US >= INVADERS_MOVE_INTERVAL_MINIMAL_US {
            v.move_timer.duration - INVADERS_MOVE_INTERVAL_DECREMENT_US
        } else {
            INVADERS_MOVE_INTERVAL_MINIMAL_US as int
        },
        next_move_duration(v.move_timer.duration) >= INVADERS_MOVE_INTERVAL_MINIMAL_US,
        v.move_timer.duration == INVADERS_MOVE_INTERVAL_MINIMAL_US ==> invaders_updated(
            v,
            delta,
        ).move_timer.duration == INVADERS_MOVE_INTERVAL_MINIMAL_US,
{
}

/// The formation only ever speeds up: no update grows the move interval,
/// and none takes it below the floor.
pub proof fn lemma_speed_monotone(v: InvadersView, delta: int)
    requires
        invaders_wf(v),
    ensures
        invaders_updated(v, delta).move_timer.duration <= v.move_timer.duration,
        invaders_updated(v, delta).move_timer.duration >= INVADERS_MOVE_INTERVAL_MINIMAL_US,
{
}

/// A strike at an occupied cell removes exactly one member and scores its
/// single point; the struck cell is empty afterwards, so a second strike at
/// the same cell scores nothing and changes nothing. Killing the last
/// member flips `all_killed` from false to true.
pub proof fn lemma_kill_at_most_once(army: Seq<InvaderView>, x: int, y: int)
    requires
        army_wf(army),
        cell_occupied(army, x, y),
    ensures
        army_after_kill(army, x, y).len() == army.len() - 1,
        kill_points(army, x, y) == 1,
        !cell_occupied(army_after_kill(army, x, y), x, y),
        kill_points(army_after_kill(army, x, y), x, y) == 0,
        army_after_kill(army_after_kill(army, x, y), x, y) == army_after_kill(army, x, y),
        army.len() == 1 ==> army_after_kill(army, x, y).len() == 0,
{
    lemma_kill_wf(army, x, y);
    let h = hit_index(army, x, y);
    assert(0 <= h < army.len() && army[h].x == x && army[h].y == y);
    let killed = army.remove(h);
    assert(!cell_occupied(killed, x, y)) by {
        if cell_occupied(killed, x, y) {
            let w = choose|i: int|
                0 <= i < killed.len() && (#[trigger] killed[i]).x == x && killed[i].y == y;
            if w < h {
                assert(killed[w] == army[w]);
                assert(!((army[w]).x == (army[h]).x && army[w].y == army[h].y));
            } else {
                assert(killed[w] == army[w + 1]);
                assert(!((army[h]).x == (army[w + 1]).x && army[h].y == army[w + 1].y));
            }
        }
    }
}

/// A movement step preserves army well-formedness: descending is possible
/// because no member has reached the bottom row yet, and shifting is
/// possible because the leading edge is not at the boundary.
pub proof fn lemma_moved_army_wf(v: InvadersView)
    requires
        invaders_wf(v),
        !army_reached_bottom(v.army),
    ensures
        at_edge(v) ==> army_wf(army_descended(v.army)),
        !at_edge(v) ==> army_wf(army_shifted(v.army, v.direction)),
{
    if at_edge(v) {
        let moved = army_descended(v.army);
        assert forall|i: int| 0 <= i < moved.len() implies member_wf(#[trigger] moved[i]) by {
            assert(v.army[i].y < NUM_ROWS - 1);
        }
    } else {
        let moved = army_shifted(v.army, v.direction);
        if v.army.len() > 0 {
            match v.direction {
                SweepDirection::Left => lemma_min_col_bounds(v.army),
                SweepDirection::Right => lemma_max_col_bounds(v.army),
            }
        }
        assert forall|i: int| 0 <= i < moved.len() implies member_wf(#[trigger] moved[i]) by {
            assert(member_wf(v.army[i]));
        }
    }
}

/// The leftmost column is a lower bound on all member columns and is
/// attained by some member.
pub proof fn lemma_min_col_bounds(army: Seq<InvaderView>)
    requires
        army.len() > 0,
    ensures
        forall|i: int| 0 <= i < army.len() ==> min_col(army) <= (#[trigger] army[i]).x,
        exists|i: int| 0 <= i < army.len() && (#[trigger] army[i]).x == min_col(army),
    decreases army.len(),
{
    if army.len() == 1 {
        assert(army[0].x == min_col(army));
    } else {
        let rest = army.drop_last();
        lemma_min_col_bounds(rest);
        assert forall|i: int| 0 <= i < army.len() implies min_col(army)
            <= (#[trigger] army[i]).x by {
            if i < army.len() - 1 {
                assert(rest[i] == army[i]);
            }
        }
        if army.last().x < min_col(rest) {
            assert(army[army.len() - 1].x == min_col(army));
        } else {
            let w = choose|i: int| 0 <= i < rest.len() && (#[trigger] rest[i]).x == min_col(rest);
            assert(army[w].x == min_col(army));
        }
    }
}

/// The rightmost column is an upper bound on all member columns and is
/// attained by some member.
pub proof fn lemma_max_col_bounds(army: Seq<InvaderView>)
    requires
        army.len() > 0,
    ensures
        forall|i: int| 0 <= i < army.len() ==> (#[trigger] army[i]).x <= max_col(army),
        exists|i: int| 0 <= i < army.len() && (#[trigger] army[i]).x == max_col(army),
    decreases army.len(),
{
    if army.len() == 1 {
        assert(army[0].x == max_col(army));
    } else {
        let rest = army.drop_last();
        lemma_max_col_bounds(rest);
        assert forall|i: int| 0 <= i < army.len() implies (#[trigger] army[i]).x
            <= max_col(army) by {
            if i < army.len() - 1 {
                assert(rest[i] == army[i]);
            }
        }
        if army.last().x > max_col(rest) {
            assert(army[army.len() - 1].x == max_col(army));
        } else {
            let w = choose|i: int| 0 <= i < rest.len() && (#[trigger] rest[i]).x == max_col(rest);
            assert(army[w].x == max_col(army));
        }
    }
}

/// The grid layout places every member on the playfield, one point each, no
/// two on the same cell, and none on the last row.
pub proof fn lemma_initial_army_wf()
    ensures
        army_wf(initial_army()),
        !army_reached_bottom(initial_army()),
{
    let army = initial_army();
    let cols = INVADERS_COL_COUNT as int;
    assert forall|k: int| 0 <= k < army.len() implies member_wf(#[trigger] army[k]) && army[k].y
        < NUM_ROWS - 1 by {
        assert(0 <= k % cols < cols && 0 <= k / cols < INVADERS_ROW_COUNT) by (nonlinear_arith)
            requires 0 <= k < 72 && cols == 18;
    }
    assert forall|i: int, j: int| 0 <= i < j < army.len() implies !((#[trigger] army[i]).x
        == (#[trigger] army[j]).x && army[i].y == army[j].y) by {
        lemma_fundamental_div_mod(i, cols);
        lemma_fundamental_div_mod(j, cols);
        if army[i].x == army[j].x && army[i].y == army[j].y {
            assert(i % cols == j % cols && i / cols == j / cols);
            assert(i == j);
        }
    }
}

} // verus!
