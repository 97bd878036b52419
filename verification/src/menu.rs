//! The start menu: a fixed list of options and a selection cursor that moves
//! up and down without leaving the list.

use vstd::prelude::*;
use vstd::string::{StrSliceExecFns, StringExecFns};
use crate::constants::{NUM_COLS, NUM_ROWS};
use crate::frame::{
    frame_put, frame_view, frame_wf, put_cell, text_written, write_text, Drawable, Frame,
    FrameView,
};

verus! {

/// The menu: its option labels and the index of the selected one.
pub struct Menu {
    pub options: Vec<String>,
    pub selection: usize,
}

/// Mathematical model of a `Menu`.
#[verifier::ext_equal]
pub struct MenuView {
    pub options: Seq<Seq<char>>,
    pub selection: int,
}

impl View for Menu {
    type V = MenuView;

    open spec fn view(&self) -> MenuView {
        MenuView {
            options: self.options@.map_values(|s: String| s@),
            selection: self.selection as int,
        }
    }
}

/// A well-formed menu: at least one option, the cursor on one of them, and
/// every option short enough to be drawn beside the cursor column.
pub open spec fn menu_wf(m: MenuView) -> bool {
    &&& 1 <= m.options.len() <= NUM_ROWS
    &&& 0 <= m.selection < m.options.len()
    &&& forall|i: int| 0 <= i < m.options.len() ==> (#[trigger] m.options[i]).len() + 1 <= NUM_COLS
}

/// The cursor after one move: up or down by one, clamped to the list.
pub open spec fn selection_changed(selection: int, count: int, upwards: bool) -> int {
    if upwards && selection > 0 {
        selection - 1
    } else if !upwards && selection < count - 1 {
        selection + 1
    } else {
        selection
    }
}

impl Menu {
    /// The start menu: a new-game entry and an exit entry, cursor on the
    /// first.
    pub fn new() -> (menu: Menu)
        ensures
            menu@.options.len() == 2,
            menu@.options[0] == "New game"@,
            menu@.options[1] == "Exit"@,
            menu@.selection == 0,
            menu_wf(menu@),
    {
        let mut options: Vec<String> = Vec::new();
        options.push(String::from_str("New game"));
        options.push(String::from_str("Exit"));
        let menu = Menu { options, selection: 0 };
        proof {
            assert(menu@.options[0] == "New game"@);
            assert(menu@.options[1] == "Exit"@);
            reveal_strlit("New game");
            reveal_strlit("Exit");
        }
        menu
    }

    /// Moves the cursor one entry up or down, clamped to the list.
    pub fn change_option(&mut self, upwards: bool)
        requires
            menu_wf(old(self)@),
        ensures
            final(self)@.options == old(self)@.options,
            final(self)@.selection == selection_changed(
                old(self)@.selection,
                old(self)@.options.len() as int,
                upwards,
            ),
            menu_wf(final(self)@),
    {
        if upwards && self.selection > 0 {
            self.selection = self.selection - 1;
        } else if !upwards && self.selection < self.options.len() - 1 {
            self.selection = self.selection + 1;
        }
    }

    /// The index of the selected option.
    pub fn get_selection(&self) -> (selection: usize)
        ensures
            selection as int == self@.selection,
    {
        self.selection
    }
}

/// The frame with the first `n` option labels written onto their rows.
pub open spec fn options_written(fv: FrameView, options: Seq<Seq<char>>, n: int) -> FrameView
    decreases n,
{
    if n <= 0 {
        fv
    } else {
        text_written(options_written(fv, options, n - 1), 1, n - 1, options[n - 1])
    }
}

/// The frame with the menu rendered onto it: the cursor beside the selected
/// row, then every option label.
pub open spec fn menu_drawn(fv: FrameView, m: MenuView) -> FrameView {
    options_written(frame_put(fv, 0, m.selection, '>'), m.options, m.options.len() as int)
}

impl Drawable for Menu {
    open spec fn draw_ok(&self) -> bool {
        menu_wf(self@)
    }

    fn draw(&self, frame: &mut Frame)
        ensures
            frame_view(final(frame)) == menu_drawn(frame_view(old(frame)), self@),
    {
        put_cell(frame, 0, self.selection, '>');
        let ghost base = frame_view(frame);
        let mut index: usize = 0;
        while index < self.options.len()
            invariant
                index <= self.options.len(),
                self@.options.len() == self.options.len(),
                menu_wf(self@),
                frame_wf(frame_view(frame)),
                frame_view(frame) == options_written(base, self@.options, index as int),
            decreases self.options.len() - index,
        {
            let option = &self.options[index];
            proof {
                assert(option@ == self@.options[index as int]);
            }
            let n = option.as_str().unicode_len();
            let mut chars: Vec<char> = Vec::new();
            let mut k: usize = 0;
            while k < n
                invariant
                    k <= n,
                    n as nat == option@.len(),
                    chars@ == option@.take(k as int),
                decreases n - k,
            {
                let c = option.as_str().get_char(k);
                chars.push(c);
                proof {
                    assert(chars@ =~= option@.take(k + 1));
                }
                k = k + 1;
            }
            proof {
                assert(chars@ =~= option@);
            }
            write_text(frame, 1, index, &chars);
            index = index + 1;
        }
    }
}

impl Default for Menu {
    /// Same as a fresh start menu.
    fn default() -> (menu: Menu)
        ensures
            menu@.selection == 0,
            menu_wf(menu@),
    {
        Menu::new()
    }
}

} // verus!
