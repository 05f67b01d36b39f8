//! The window that shows an image as it is, and takes no input.

use crate::windows::drawing_window::DrawingWindow;
use vstd::prelude::*;

verus! {

/// A drawing window that only shows its image: the mouse does nothing in
/// it, and its scale stays as it is.
#[derive(Clone, Copy, Debug, PartialEq, Eq, Structural)]
pub struct PreviewWindow(pub DrawingWindow);

} // verus!
