//! The windows of the editor: what each of them does with the mouse and
//! with a change of scale. Drawing them is left to the program around the
//! library.

use crate::state::{State, StateView};
use vstd::prelude::*;

pub mod drawing_window;
pub mod palette_window;
pub mod preview_window;
pub mod status_window;

pub use self::drawing_window::DrawingWindow;
pub use self::palette_window::PaletteWindow;
pub use self::preview_window::PreviewWindow;
pub use self::status_window::StatusWindow;

verus! {

/// A rectangle on the screen: its upper left corner and its size.
#[derive(Clone, Copy, Debug, PartialEq, Eq, Structural)]
pub struct Rect {
    pub x: i32,
    pub y: i32,
    pub width: u32,
    pub height: u32,
}

/// The rectangle with the given corner and size, if the screen's
/// coordinates can hold them.
pub open spec fn rect_of(x: int, y: int, width: int, height: int) -> Option<Rect> {
    if 0 <= x <= i32::MAX && 0 <= y <= i32::MAX && 0 <= width <= u32::MAX && 0 <= height
        <= u32::MAX {
        Some(Rect { x: x as i32, y: y as i32, width: width as u32, height: height as u32 })
    } else {
        None
    }
}

/// Makes a rectangle out of numbers that may be too large for one.
pub fn make_rect(x: u128, y: u128, width: u128, height: u128) -> (r: Option<Rect>)
    ensures
        r == rect_of(x as int, y as int, width as int, height as int),
{
    if x <= i32::MAX as u128 && y <= i32::MAX as u128 && width <= u32::MAX as u128 && height
        <= u32::MAX as u128 {
        Some(Rect { x: x as i32, y: y as i32, width: width as u32, height: height as u32 })
    } else {
        None
    }
}

/// Any sort of window that displays, or handles mouse input. Keyboard
/// input is handled separately.
#[derive(Clone, Copy, Debug, PartialEq, Eq, Structural)]
pub enum Window {
    Drawing(DrawingWindow),
    Preview(PreviewWindow),
    Palette(PaletteWindow),
    Status(StatusWindow),
}

impl Window {
    /// Whether the window can take the mouse in the state `s`: a drawing
    /// window needs its image to be there.
    pub open spec fn usable(self, s: StateView) -> bool {
        match self {
            Window::Drawing(window) => window.image_id < s.images.len(),
            _ => true,
        }
    }

    /// The state after the mouse has been pressed at the point.
    pub open spec fn pressed(self, s: StateView, mouse_x: int, mouse_y: int) -> StateView {
        match self {
            Window::Drawing(window) => window.pressed(s, mouse_x, mouse_y),
            Window::Palette(window) => window.pressed(s, mouse_x, mouse_y),
            Window::Preview(_) => s,
            Window::Status(_) => s,
        }
    }

    /// The window one step further in. Only a drawing window has a scale
    /// that changes.
    pub open spec fn zoomed_in(self) -> Window {
        match self {
            Window::Drawing(window) => Window::Drawing(window.zoomed_in()),
            other => other,
        }
    }

    /// The window one step further out.
    pub open spec fn zoomed_out(self) -> Window {
        match self {
            Window::Drawing(window) => Window::Drawing(window.zoomed_out()),
            other => other,
        }
    }

    /// Hands a press of the left mouse button to the window.
    pub fn handle_mouse_down(&self, state: &mut State, mouse_x: i32, mouse_y: i32)
        requires
            old(state).wf(),
            self.usable(old(state)@),
        ensures
            final(state)@ == self.pressed(old(state)@, mouse_x as int, mouse_y as int),
            final(state).wf(),
    {
        match self {
            Window::Drawing(window) => window.handle_mouse_down(state, mouse_x, mouse_y),
            Window::Palette(window) => window.handle_mouse_down(state, mouse_x, mouse_y),
            Window::Preview(_) => {},
            Window::Status(_) => {},
        }
    }

    /// Steps the scale of the window up, if it has one.
    pub fn increment_scale(&mut self)
        ensures
            *final(self) == old(self).zoomed_in(),
    {
        match self {
            Window::Drawing(window) => window.increment_scale(),
            _ => {},
        }
    }

    /// Steps the scale of the window down, if it has one.
    pub fn decrement_scale(&mut self)
        ensures
            *final(self) == old(self).zoomed_out(),
    {
        match self {
            Window::Drawing(window) => window.decrement_scale(),
            _ => {},
        }
    }
}

} // verus!
