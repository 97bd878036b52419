//! The drawable frame: a column-major grid of glyphs that each component
//! renders itself onto, and which the embedding program hands to its screen
//! renderer. Includes the small verified text helpers the scoreboard lines
//! are written with.

use vstd::prelude::*;
use crate::constants::{NUM_COLS, NUM_ROWS};

verus! {

/// A frame: one `Vec` of rows per column, indexed `frame[x][y]`.
pub type Frame = Vec<Vec<char>>;

/// Mathematical model of a frame: a column-major grid of glyphs.
pub type FrameView = Seq<Seq<char>>;

/// The model of a frame value.
pub open spec fn frame_view(frame: &Frame) -> FrameView {
    frame@.map_values(|column: Vec<char>| column@)
}

/// A well-formed frame covers exactly the playfield grid.
pub open spec fn frame_wf(fv: FrameView) -> bool {
    &&& fv.len() == NUM_COLS
    &&& forall|x: int| 0 <= x < fv.len() ==> (#[trigger] fv[x]).len() == NUM_ROWS
}

/// The frame with the single cell `(x, y)` set to `glyph`.
pub open spec fn frame_put(fv: FrameView, x: int, y: int, glyph: char) -> FrameView {
    fv.update(x, fv[x].update(y, glyph))
}

/// The frame with `text` written left-to-right starting at `(x0, y)`.
pub open spec fn text_written(fv: FrameView, x0: int, y: int, text: Seq<char>) -> FrameView
    decreases text.len(),
{
    if text.len() == 0 {
        fv
    } else {
        frame_put(
            text_written(fv, x0, y, text.drop_last()),
            x0 + text.len() - 1,
            y,
            text.last(),
        )
    }
}

/// Putting one glyph keeps the frame well formed and leaves every other
/// cell alone.
pub proof fn lemma_frame_put(fv: FrameView, x: int, y: int, glyph: char)
    requires
        frame_wf(fv),
        0 <= x < NUM_COLS,
        0 <= y < NUM_ROWS,
    ensures
        frame_wf(frame_put(fv, x, y, glyph)),
        frame_put(fv, x, y, glyph)[x][y] == glyph,
        forall|a: int, b: int|
            0 <= a < NUM_COLS && 0 <= b < NUM_ROWS && !(a == x && b == y)
                ==> #[trigger] frame_put(fv, x, y, glyph)[a][b] == fv[a][b],
{
}

/// Anything that can render itself onto a frame.
pub trait Drawable {
    /// The well-formedness the drawable needs to stay on the frame.
    spec fn draw_ok(&self) -> bool;

    /// Renders the drawable onto the frame.
    fn draw(&self, frame: &mut Frame)
        requires
            self.draw_ok(),
            frame_wf(frame_view(old(frame))),
        ensures
            frame_wf(frame_view(final(frame))),
    ;
}

/// A blank frame covering the playfield grid.
pub fn new_frame() -> (frame: Frame)
    ensures
        frame_wf(frame_view(&frame)),
        forall|x: int, y: int|
            0 <= x < NUM_COLS && 0 <= y < NUM_ROWS ==> #[trigger] frame_view(&frame)[x][y] == ' ',
{
    let mut frame: Vec<Vec<char>> = Vec::new();
    let mut x: usize = 0;
    while x < NUM_COLS
        invariant
            x <= NUM_COLS,
            frame@.len() == x,
            forall|a: int|
                0 <= a < x ==> (#[trigger] frame@[a])@.len() == NUM_ROWS,
            forall|a: int, b: int|
                0 <= a < x && 0 <= b < NUM_ROWS ==> #[trigger] frame@[a]@[b] == ' ',
        decreases NUM_COLS - x,
    {
        let mut column: Vec<char> = Vec::new();
        let mut y: usize = 0;
        while y < NUM_ROWS
            invariant
                y <= NUM_ROWS,
                column@.len() == y,
                forall|b: int| 0 <= b < y ==> #[trigger] column@[b] == ' ',
            decreases NUM_ROWS - y,
        {
            column.push(' ');
            y = y + 1;
        }
        frame.push(column);
        x = x + 1;
    }
    frame
}

/// Sets the single cell `(x, y)` to `glyph`.
pub fn put_cell(frame: &mut Frame, x: usize, y: usize, glyph: char)
    requires
        frame_wf(frame_view(old(frame))),
        x < NUM_COLS,
        y < NUM_ROWS,
    ensures
        frame_view(final(frame)) == frame_put(frame_view(old(frame)), x as int, y as int, glyph),
        frame_wf(frame_view(final(frame))),
{
    proof {
        assert(frame_view(old(frame))[x as int] == old(frame)@[x as int]@);
    }
    let column: &mut Vec<char> = &mut frame[x];
    column.set(y, glyph);
    proof {
        assert(frame_view(final(frame)) =~~= frame_put(
            frame_view(old(frame)),
            x as int,
            y as int,
            glyph,
        ));
    }
}

/// Writes `text` left-to-right starting at `(x0, y)`.
pub fn write_text(frame: &mut Frame, x0: usize, y: usize, text: &Vec<char>)
    requires
        frame_wf(frame_view(old(frame))),
        y < NUM_ROWS,
        x0 + text@.len() <= NUM_COLS,
    ensures
        frame_view(final(frame)) == text_written(
            frame_view(old(frame)),
            x0 as int,
            y as int,
            text@,
        ),
        frame_wf(frame_view(final(frame))),
{
    let mut i: usize = 0;
    while i < text.len()
        invariant
            i <= text@.len(),
            y < NUM_ROWS,
            x0 + text@.len() <= NUM_COLS,
            frame_wf(frame_view(old(frame))),
            frame_wf(frame_view(frame)),
            frame_view(frame) == text_written(
                frame_view(old(frame)),
                x0 as int,
                y as int,
                text@.take(i as int),
            ),
        decreases text@.len() - i,
    {
        proof {
            assert(text@.take(i + 1).drop_last() =~= text@.take(i as int));
            assert(text@.take(i + 1).last() == text@[i as int]);
        }
        put_cell(frame, x0 + i, y, text[i]);
        i = i + 1;
    }
    proof {
        assert(text@.take(text@.len() as int) =~= text@);
    }
}

/// The glyph of a single decimal digit.
pub open spec fn digit_char(d: int) -> char {
    if d == 0 {
        '0'
    } else if d == 1 {
        '1'
    } else if d == 2 {
        '2'
    } else if d == 3 {
        '3'
    } else if d == 4 {
        '4'
    } else if d == 5 {
        '5'
    } else if d == 6 {
        '6'
    } else if d == 7 {
        '7'
    } else if d == 8 {
        '8'
    } else {
        '9'
    }
}

/// The decimal digits of `n`, most significant first.
pub open spec fn dec_chars(n: int) -> Seq<char>
    decreases n,
{
    if n < 10 {
        seq![digit_char(n)]
    } else {
        dec_chars(n / 10).push(digit_char(n % 10))
    }
}

/// The decimal digits of `n`, left-padded with zeroes to at least `width`
/// glyphs; a number with more digits than `width` is never truncated.
pub open spec fn padded_dec_chars(n: int, width: int) -> Seq<char> {
    if dec_chars(n).len() >= width {
        dec_chars(n)
    } else {
        Seq::new((width - dec_chars(n).len()) as nat, |i: int| '0') + dec_chars(n)
    }
}

/// Ten to the `k`.
pub open spec fn pow10(k: nat) -> int
    decreases k,
{
    if k == 0 {
        1
    } else {
        10 * pow10((k - 1) as nat)
    }
}

/// A number below ten to the `k` has at most `k` decimal digits.
pub proof fn lemma_dec_chars_len(n: int, k: nat)
    requires
        0 <= n,
        1 <= k,
        n < pow10(k),
    ensures
        dec_chars(n).len() <= k,
    decreases k,
{
    if n >= 10 {
        assert(pow10(k) == 10 * pow10((k - 1) as nat));
        assert(n / 10 < pow10((k - 1) as nat)) by (nonlinear_arith)
            requires
                n >= 10,
                n < 10 * pow10((k - 1) as nat),
        ;
        assert(k >= 2) by {
            if k == 1 {
                assert(pow10(1nat) == 10);
            }
        }
        lemma_dec_chars_len(n / 10, (k - 1) as nat);
    }
}

/// Any machine word has at most twenty decimal digits.
pub proof fn lemma_dec_chars_len_u64(n: int)
    requires
        0 <= n <= u64::MAX,
    ensures
        dec_chars(n).len() <= 20,
{
    reveal_with_fuel(pow10, 21);
    assert(pow10(20nat) == 100_000_000_000_000_000_000int);
    lemma_dec_chars_len(n, 20);
}

/// Appends the decimal digits of `n`, most significant first.
fn push_dec_chars(n: u64, out: &mut Vec<char>)
    ensures
        final(out)@ == old(out)@ + dec_chars(n as int),
    decreases n,
{
    if n >= 10 {
        proof {
            assert(0 < n / 10 < n) by (nonlinear_arith)
                requires
                    n >= 10,
            ;
        }
        push_dec_chars(n / 10, out);
    }
    let digit = match n % 10 {
        0 => '0',
        1 => '1',
        2 => '2',
        3 => '3',
        4 => '4',
        5 => '5',
        6 => '6',
        7 => '7',
        8 => '8',
        _ => '9',
    };
    proof {
        assert(digit == digit_char(n as int % 10));
    }
    out.push(digit);
    proof {
        if n < 10 {
            assert(n as int % 10 == n as int);
            assert(final(out)@ =~= old(out)@ + dec_chars(n as int));
        } else {
            assert(final(out)@ =~= old(out)@ + dec_chars(n as int));
        }
    }
}

/// The decimal digits of `value`, left-padded with zeroes to at least
/// `width` glyphs.
pub fn decimal_chars_padded(value: u64, width: usize) -> (chars: Vec<char>)
    ensures
        chars@ == padded_dec_chars(value as int, width as int),
        chars@.len() >= width,
        chars@.len() >= dec_chars(value as int).len(),
{
    let mut digits: Vec<char> = Vec::new();
    push_dec_chars(value, &mut digits);
    proof {
        assert(digits@ =~= dec_chars(value as int));
    }
    let mut chars: Vec<char> = Vec::new();
    let mut k: usize = digits.len();
    while k < width
        invariant
            digits@ == dec_chars(value as int),
            k == digits@.len() + chars@.len(),
            k >= digits@.len(),
            k <= width || chars@.len() == 0,
            forall|j: int| 0 <= j < chars@.len() ==> #[trigger] chars@[j] == '0',
        decreases width - k,
    {
        chars.push('0');
        k = k + 1;
    }
    let mut digits_tail = digits;
    chars.append(&mut digits_tail);
    proof {
        assert(chars@ =~= padded_dec_chars(value as int, width as int));
    }
    chars
}

} // verus!
