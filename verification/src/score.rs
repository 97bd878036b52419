//! The score counter: a point total that only ever grows, saturating at the
//! top of its numeric range.

use vstd::prelude::*;
use crate::frame::{
    decimal_chars_padded, frame_view, lemma_dec_chars_len, padded_dec_chars, pow10,
    text_written, write_text, Drawable, Frame,
};

verus! {

/// The accumulated point total.
pub struct Score {
    pub count: u16,
}

impl View for Score {
    type V = int;

    open spec fn view(&self) -> int {
        self.count as int
    }
}

/// The score after adding `amount` points: a saturating add.
pub open spec fn score_added(score: int, amount: int) -> int {
    if score + amount <= u16::MAX {
        score + amount
    } else {
        u16::MAX as int
    }
}

impl Score {
    /// A fresh game starts with no points.
    pub fn new() -> (score: Score)
        ensures
            score@ == 0,
    {
        Score { count: 0 }
    }

    /// Adds `amount` points, saturating at the numeric ceiling.
    pub fn add_points(&mut self, amount: u16)
        ensures
            final(self)@ == score_added(old(self)@, amount as int),
    {
        if self.count <= u16::MAX - amount {
            self.count = self.count + amount;
        } else {
            self.count = u16::MAX;
        }
    }

    /// The accumulated point total.
    pub fn get_count(&self) -> (count: u16)
        ensures
            count as int == self@,
    {
        self.count
    }
}

/// The point total never decreases.
pub proof fn lemma_score_monotone(score: int, amount: int)
    requires
        0 <= score <= u16::MAX,
        0 <= amount,
    ensures
        score_added(score, amount) >= score,
{
}

/// The scoreboard line for a point total: the label and the total, padded
/// to four digits.
pub open spec fn score_line(score: int) -> Seq<char> {
    "SCORE: "@ + padded_dec_chars(score, 4)
}

impl Drawable for Score {
    open spec fn draw_ok(&self) -> bool {
        true
    }

    fn draw(&self, frame: &mut Frame)
        ensures
            frame_view(final(frame)) == text_written(
                frame_view(old(frame)),
                0,
                0,
                score_line(self@),
            ),
    {
        let mut text: Vec<char> = vec!['S', 'C', 'O', 'R', 'E', ':', ' '];
        let mut digits = decimal_chars_padded(self.count as u64, 4);
        proof {
            reveal_with_fuel(pow10, 6);
            lemma_dec_chars_len(self.count as int, 5);
        }
        text.append(&mut digits);
        proof {
            reveal_strlit("SCORE: ");
            assert(text@ =~= score_line(self@));
        }
        write_text(frame, 0, 0, &text);
    }
}

impl Default for Score {
    /// Same as a fresh score counter.
    fn default() -> (score: Score)
        ensures
            score@ == 0,
    {
        Score::new()
    }
}

} // verus!
