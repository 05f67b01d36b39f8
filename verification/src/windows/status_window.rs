//! The bar at the bottom that shows the command typed so far.

use crate::color::Color;
use crate::windows::{make_rect, rect_of, Rect};
use vstd::prelude::*;

verus! {

/// The status bar: its height in pixels and its two colours.
#[derive(Clone, Copy, Debug, PartialEq, Eq, Structural)]
pub struct StatusWindow {
    pub height: u32,
    pub background_color: Color,
    pub font_color: Color,
}

/// The factor by which the text of the status bar is drawn smaller than
/// the font renders it.
pub const STATUS_TEXT_SHRINK: u32 = 8;

impl StatusWindow {
    /// The bar at the bottom of a window of the given size.
    pub open spec fn bar(self, window_width: int, window_height: int) -> Option<Rect> {
        rect_of(0, window_height - self.height, window_width, self.height as int)
    }

    /// The place of a text in the bar, for the size that the font gives the
    /// text.
    pub open spec fn text_place(self, window_height: int, font_width: int, font_height: int) -> Option<
        Rect,
    > {
        rect_of(
            0,
            window_height - self.height,
            font_width / (STATUS_TEXT_SHRINK as int),
            font_height / (STATUS_TEXT_SHRINK as int),
        )
    }

    /// The part of the screen that the bar fills, if the window is high
    /// enough for it.
    pub fn bar_rect(&self, window_width: u32, window_height: u32) -> (r: Option<Rect>)
        ensures
            r == self.bar(window_width as int, window_height as int),
    {
        if window_height < self.height {
            return None;
        }
        make_rect(
            0,
            (window_height - self.height) as u128,
            window_width as u128,
            self.height as u128,
        )
    }

    /// The part of the screen that the text fills, if the window is high
    /// enough for the bar.
    pub fn text_rect(&self, window_height: u32, font_width: u32, font_height: u32) -> (r: Option<
        Rect,
    >)
        ensures
            r == self.text_place(window_height as int, font_width as int, font_height as int),
    {
        if window_height < self.height {
            return None;
        }
        make_rect(
            0,
            (window_height - self.height) as u128,
            (font_width / STATUS_TEXT_SHRINK) as u128,
            (font_height / STATUS_TEXT_SHRINK) as u128,
        )
    }

    /// The status bar as the editor shows it.
    pub fn new() -> (window: StatusWindow)
        ensures
            window == (StatusWindow {
                height: 40,
                background_color: Color::RGB(240, 210, 120),
                font_color: Color::RGB(40, 40, 40),
            }),
    {
        StatusWindow {
            height: 40,
            background_color: Color::RGB(240, 210, 120),
            font_color: Color::RGB(40, 40, 40),
        }
    }
}

} // verus!
