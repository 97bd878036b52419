//! The lives counter: starts at three, loses one whenever the formation
//! reaches the bottom of the playfield, and reports whether any lives are
//! left, which the caller treats as permission to keep playing.

use vstd::prelude::*;
use crate::constants::STARTING_LIVES;
use crate::frame::{
    decimal_chars_padded, frame_view, lemma_dec_chars_len_u64, padded_dec_chars,
    text_written, write_text, Drawable, Frame,
};

verus! {

/// The remaining lives.
pub struct Lives {
    pub lives: usize,
}

impl View for Lives {
    type V = int;

    open spec fn view(&self) -> int {
        self.lives as int
    }
}

/// The lives after losing one: decremented while positive, floored at zero.
pub open spec fn lives_lost_one(lives: int) -> int {
    if lives > 0 {
        lives - 1
    } else {
        0
    }
}

impl Lives {
    /// A fresh game starts with the full number of lives.
    pub fn new() -> (lives: Lives)
        ensures
            lives@ == STARTING_LIVES,
    {
        Lives { lives: STARTING_LIVES }
    }

    /// Loses one life and reports whether any lives remain afterwards.
    pub fn lose_life(&mut self) -> (has_lives_left: bool)
        ensures
            final(self)@ == lives_lost_one(old(self)@),
            has_lives_left == (final(self)@ > 0),
    {
        if self.lives > 0 {
            self.lives = self.lives - 1;
        }
        self.lives > 0
    }

    /// The number of lives left.
    pub fn get_lives(&self) -> (lives: usize)
        ensures
            lives as int == self@,
    {
        self.lives
    }
}

/// The scoreboard line for the lives counter: the label and the count,
/// padded to two digits.
pub open spec fn lives_line(lives: int) -> Seq<char> {
    "LIVES: "@ + padded_dec_chars(lives, 2)
}

impl Drawable for Lives {
    open spec fn draw_ok(&self) -> bool {
        true
    }

    fn draw(&self, frame: &mut Frame)
        ensures
            frame_view(final(frame)) == text_written(
                frame_view(old(frame)),
                12,
                0,
                lives_line(self@),
            ),
    {
        let mut text: Vec<char> = vec!['L', 'I', 'V', 'E', 'S', ':', ' '];
        let mut digits = decimal_chars_padded(self.lives as u64, 2);
        proof {
            lemma_dec_chars_len_u64(self.lives as int);
        }
        text.append(&mut digits);
        proof {
            reveal_strlit("LIVES: ");
            assert(text@ =~= lives_line(self@));
        }
        write_text(frame, 12, 0, &text);
    }
}

} // verus!
