//! The window that shows the colours of the palette, to pick one.

use crate::state::{State, StateView};
use crate::windows::{make_rect, rect_of, Rect};
use vstd::prelude::*;

verus! {

/// The side of the square that shows one colour, in pixels.
pub const PALETTEWINDOW_COLOR_SQUARE_PX: usize = 24;

/// The number of colours side by side.
pub const PALETTEWINDOW_COLORS_PER_ROW: usize = 3;

/// The margin around the colours, in pixels.
pub const PALETTEWINDOW_PADDING_PX: usize = 3;

/// A window that shows the palette in rows of squares.
#[derive(Clone, Copy, Debug, PartialEq, Eq, Structural)]
pub struct PaletteWindow {
    pub x: usize,
    pub y: usize,
    pub palette_id: usize,
}

/// The number of rows that `count` colours take.
pub open spec fn palette_rows(count: int) -> int {
    (count + PALETTEWINDOW_COLORS_PER_ROW - 1) / (PALETTEWINDOW_COLORS_PER_ROW as int)
}

impl PaletteWindow {
    /// The place in a palette of `count` colours that the point stands for,
    /// if the point is on the palette. The right and the lower edge count
    /// as on it; a point on the right edge stands for the first column.
    pub open spec fn picked(self, count: int, mouse_x: int, mouse_y: int) -> Option<int> {
        let left = self.x + PALETTEWINDOW_PADDING_PX;
        let right = left + PALETTEWINDOW_COLORS_PER_ROW * PALETTEWINDOW_COLOR_SQUARE_PX;
        let top = self.y + PALETTEWINDOW_PADDING_PX;
        let bottom = top + palette_rows(count) * PALETTEWINDOW_COLOR_SQUARE_PX;
        if left <= mouse_x <= right && top <= mouse_y <= bottom {
            let column = (mouse_x - left) / (PALETTEWINDOW_COLOR_SQUARE_PX as int);
            let row = (mouse_y - top) / (PALETTEWINDOW_COLOR_SQUARE_PX as int);
            Some(column % (PALETTEWINDOW_COLORS_PER_ROW as int) + row * PALETTEWINDOW_COLORS_PER_ROW)
        } else {
            None
        }
    }

    /// The part of the screen that the window fills when it shows a
    /// palette of `count` colours.
    pub open spec fn frame(self, count: int) -> Option<Rect> {
        rect_of(
            self.x as int,
            self.y as int,
            PALETTEWINDOW_COLORS_PER_ROW * PALETTEWINDOW_COLOR_SQUARE_PX + 2
                * PALETTEWINDOW_PADDING_PX,
            palette_rows(count) * PALETTEWINDOW_COLOR_SQUARE_PX + 2 * PALETTEWINDOW_PADDING_PX,
        )
    }

    /// The square of the screen that shows the colour at `place` of the
    /// palette.
    pub open spec fn swatch(self, place: int) -> Option<Rect> {
        rect_of(
            PALETTEWINDOW_PADDING_PX + self.x + (place % (PALETTEWINDOW_COLORS_PER_ROW as int))
                * PALETTEWINDOW_COLOR_SQUARE_PX,
            PALETTEWINDOW_PADDING_PX + self.y + (place / (PALETTEWINDOW_COLORS_PER_ROW as int))
                * PALETTEWINDOW_COLOR_SQUARE_PX,
            PALETTEWINDOW_COLOR_SQUARE_PX as int,
            PALETTEWINDOW_COLOR_SQUARE_PX as int,
        )
    }

    /// The part of the screen to fill before the colours are drawn, if it
    /// is on the screen.
    pub fn frame_rect(&self, count: usize) -> (r: Option<Rect>)
        ensures
            r == self.frame(count as int),
    {
        let square: u128 = PALETTEWINDOW_COLOR_SQUARE_PX as u128;
        let per_row: u128 = PALETTEWINDOW_COLORS_PER_ROW as u128;
        let padding: u128 = PALETTEWINDOW_PADDING_PX as u128;
        let rows: u128 = (count as u128 + per_row - 1) / per_row;
        make_rect(
            self.x as u128,
            self.y as u128,
            per_row * square + 2 * padding,
            rows * square + 2 * padding,
        )
    }

    /// The square of the screen to fill with the colour at `place` of the
    /// palette, if it is on the screen.
    pub fn swatch_rect(&self, place: usize) -> (r: Option<Rect>)
        ensures
            r == self.swatch(place as int),
    {
        let square: u128 = PALETTEWINDOW_COLOR_SQUARE_PX as u128;
        let per_row: u128 = PALETTEWINDOW_COLORS_PER_ROW as u128;
        let padding: u128 = PALETTEWINDOW_PADDING_PX as u128;
        make_rect(
            padding + self.x as u128 + (place as u128 % per_row) * square,
            padding + self.y as u128 + (place as u128 / per_row) * square,
            square,
            square,
        )
    }

    /// The state after the mouse has been pressed at the point: the colour
    /// under it, if there is one, is the colour to draw with.
    pub open spec fn pressed(self, s: StateView, mouse_x: int, mouse_y: int) -> StateView {
        let palette = s.palettes[s.current_palette_index as int];
        match self.picked(palette.len() as int, mouse_x, mouse_y) {
            Some(place) => if place < palette.len() {
                StateView { current_color: palette[place], ..s }
            } else {
                s
            },
            None => s,
        }
    }

    /// Picks the colour under the mouse, if the mouse is over one.
    pub fn handle_mouse_down(&self, state: &mut State, mouse_x: i32, mouse_y: i32)
        requires
            old(state).current_palette_index < old(state).palettes@.len(),
        ensures
            final(state)@ == self.pressed(old(state)@, mouse_x as int, mouse_y as int),
    {
        if mouse_x < 0 || mouse_y < 0 {
            return ;
        }
        let count: usize = state.current_palette().len();
        let square: u128 = PALETTEWINDOW_COLOR_SQUARE_PX as u128;
        let per_row: u128 = PALETTEWINDOW_COLORS_PER_ROW as u128;
        let left: u128 = self.x as u128 + PALETTEWINDOW_PADDING_PX as u128;
        let right: u128 = left + per_row * square;
        let top: u128 = self.y as u128 + PALETTEWINDOW_PADDING_PX as u128;
        let rows: u128 = (count as u128 + per_row - 1) / per_row;
        let bottom: u128 = top + rows * square;
        let at_x: u128 = mouse_x as u128;
        let at_y: u128 = mouse_y as u128;
        if at_x >= left && at_x <= right && at_y >= top && at_y <= bottom {
            let column: u128 = (at_x - left) / square;
            let row: u128 = (at_y - top) / square;
            let place: u128 = column % per_row + row * per_row;
            if place < count as u128 {
                let color = state.current_palette()[place as usize];
                state.current_color = color;
            }
        }
    }
}

} // verus!
