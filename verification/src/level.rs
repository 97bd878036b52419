//! The level counter: starts at one, advances whenever a formation is
//! cleared, and reports when the final level has been reached.

use vstd::prelude::*;
use crate::constants::MAX_LEVEL;
use crate::frame::{
    decimal_chars_padded, frame_view, lemma_dec_chars_len, padded_dec_chars, pow10,
    text_written, write_text, Drawable, Frame,
};

verus! {

/// The current difficulty level.
pub struct Level {
    pub level: u8,
}

impl View for Level {
    type V = int;

    open spec fn view(&self) -> int {
        self.level as int
    }
}

/// The level counter never leaves the band between the first level and one
/// past the final level, where it saturates.
pub open spec fn level_wf(level: int) -> bool {
    1 <= level <= MAX_LEVEL + 1
}

/// The level after one advancement: it increments while at most the final
/// level, and stays put beyond it.
pub open spec fn level_incremented(level: int) -> int {
    if level <= MAX_LEVEL {
        level + 1
    } else {
        level
    }
}

impl Level {
    /// A fresh game starts at level one.
    pub fn new() -> (level: Level)
        ensures
            level@ == 1,
            level_wf(level@),
    {
        Level { level: 1 }
    }

    /// Advances to the next level and reports whether the final level has
    /// now been reached, which the caller treats as game completion.
    pub fn increment_level(&mut self) -> (reached_max: bool)
        requires
            level_wf(old(self)@),
        ensures
            final(self)@ == level_incremented(old(self)@),
            reached_max == (final(self)@ == MAX_LEVEL),
            level_wf(final(self)@),
    {
        if self.level <= MAX_LEVEL {
            self.level = self.level + 1;
        }
        self.level == MAX_LEVEL
    }

    /// The current level number.
    pub fn get_level(&self) -> (level: u8)
        ensures
            level as int == self@,
    {
        self.level
    }
}

/// The scoreboard line for a level: the label and the level number, padded
/// to two digits.
pub open spec fn level_line(level: int) -> Seq<char> {
    "LEVEL: "@ + padded_dec_chars(level, 2)
}

impl Drawable for Level {
    open spec fn draw_ok(&self) -> bool {
        true
    }

    fn draw(&self, frame: &mut Frame)
        ensures
            frame_view(final(frame)) == text_written(
                frame_view(old(frame)),
                20,
                0,
                level_line(self@),
            ),
    {
        let mut text: Vec<char> = vec!['L', 'E', 'V', 'E', 'L', ':', ' '];
        let mut digits = decimal_chars_padded(self.level as u64, 2);
        proof {
            reveal_with_fuel(pow10, 4);
            lemma_dec_chars_len(self.level as int, 3);
        }
        text.append(&mut digits);
        proof {
            reveal_strlit("LEVEL: ");
            assert(text@ =~= level_line(self@));
        }
        write_text(frame, 20, 0, &text);
    }
}

impl Default for Level {
    /// Same as a fresh level counter.
    fn default() -> (level: Level)
        ensures
            level@ == 1,
            level_wf(level@),
    {
        Level::new()
    }
}

} // verus!
