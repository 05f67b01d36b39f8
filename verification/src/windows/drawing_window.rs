//! The window that shows an image enlarged and lets the user paint on it.

use crate::color::Color;
use crate::image_buffer::{lemma_index_in_bounds, ImageBuffer, ImageView};
use crate::state::{
    frame_fits, frame_has, lemma_frame_fits_same_sizes, DrawUndo, State, StateView,
};
use crate::windows::{make_rect, rect_of, Rect};
use vstd::arithmetic::div_mod::lemma_add_mod_noop_right;
use vstd::prelude::*;

verus! {

/// The number of scale factors that zooming runs through: 0 up to 31.
pub const SCALE_STEPS: usize = 32;

/// A window that draws out an image and lets the user edit said image.
#[derive(Clone, Copy, Debug, PartialEq, Eq, Structural)]
pub struct DrawingWindow {
    pub x: usize,
    pub y: usize,
    pub scale: usize,
    pub background: Color,
    pub image_id: usize,
}

/// The cell of a row of `extent` cells, each `scale` wide and the first at
/// `origin`, that holds the position `at`.
pub open spec fn cell_at(origin: int, scale: int, extent: int, at: int) -> Option<usize> {
    if origin <= at < origin + extent * scale {
        Some(((at - origin) / scale) as usize)
    } else {
        None
    }
}

/// Finds the cell that holds the position `at`.
fn find_cell(origin: usize, scale: usize, extent: usize, at: i32) -> (r: Option<usize>)
    ensures
        r == cell_at(origin as int, scale as int, extent as int, at as int),
        r matches Some(cell) ==> cell < extent,
{
    if at < 0 || scale == 0 {
        assert(extent * scale == 0 || at < origin) by (nonlinear_arith)
            requires
                at < 0 || scale == 0,
                origin >= 0,
        ;
        return None;
    }
    let position: usize = at as usize;
    if position < origin {
        return None;
    }
    let distance: usize = position - origin;
    let cell: usize = distance / scale;
    assert((distance < extent * scale) <==> (distance / scale < extent)) by (nonlinear_arith)
        requires
            scale > 0,
            distance >= 0,
            extent >= 0,
    ;
    if cell < extent {
        Some(cell)
    } else {
        None
    }
}

impl DrawingWindow {
    /// A window at `(x, y)` that shows the image `image_id`, each pixel
    /// `scale` wide and high.
    pub fn new(x: usize, y: usize, scale: usize, background: Color, image_id: usize) -> (window:
        DrawingWindow)
        ensures
            window == (DrawingWindow { x, y, scale, background, image_id }),
    {
        DrawingWindow { x: x, y: y, scale: scale, background: background, image_id: image_id }
    }

    /// Whether the window, showing `image`, covers the point.
    pub open spec fn covers(self, image: ImageView, x: int, y: int) -> bool {
        &&& self.x <= x < self.x + image.width * self.scale
        &&& self.y <= y < self.y + image.height * self.scale
    }

    /// The pixel of `image` that the window shows at the point.
    pub open spec fn index_at(self, image: ImageView, x: int, y: int) -> Option<(usize, usize)> {
        if self.covers(image, x, y) {
            Some(
                (
                    ((x - self.x) / (self.scale as int)) as usize,
                    ((y - self.y) / (self.scale as int)) as usize,
                ),
            )
        } else {
            None
        }
    }

    /// Tests whether a window rendering `image` contains the point.
    pub fn in_range(&self, image: &ImageBuffer, x: i32, y: i32) -> (r: bool)
        ensures
            r == self.covers(image@, x as int, y as int),
    {
        find_cell(self.x, self.scale, image.width, x).is_some() && find_cell(
            self.y,
            self.scale,
            image.height,
            y,
        ).is_some()
    }

    /// For a window rendering `image`, finds the pixel that the point
    /// corresponds to: if the mouse is clicked there, which pixel of the image
    /// was targeted?
    pub fn get_index(&self, image: &ImageBuffer, x: i32, y: i32) -> (r: Option<(usize, usize)>)
        ensures
            r == self.index_at(image@, x as int, y as int),
            r matches Some((column, row)) ==> image@.contains(column as int, row as int),
    {
        match (
            find_cell(self.x, self.scale, image.width, x),
            find_cell(self.y, self.scale, image.height, y),
        ) {
            (Some(column), Some(row)) => Some((column, row)),
            _ => None,
        }
    }

    /// The state after the colour of a pixel has been noted in the frame of
    /// the gesture at hand, which happens only the first time that the
    /// gesture comes to the pixel.
    pub open spec fn recorded(self, s: StateView, x: usize, y: usize) -> StateView {
        if s.undo_stack.len() == 0 || frame_has(s.undo_stack.last(), self.image_id, x, y) {
            s
        } else {
            let entry = DrawUndo {
                image_id: self.image_id,
                x,
                y,
                color: s.images[self.image_id as int].at(x as int, y as int),
            };
            StateView {
                undo_stack: s.undo_stack.drop_last().push(s.undo_stack.last().push(entry)),
                ..s
            }
        }
    }

    /// The state after a pixel has been painted in the colour at hand.
    pub open spec fn painted(self, s: StateView, x: usize, y: usize) -> StateView {
        StateView {
            images: s.images.update(
                self.image_id as int,
                s.images[self.image_id as int].with_pixel(x as int, y as int, s.current_color),
            ),
            ..s
        }
    }

    /// The state after the mouse has been pressed at the point: the pixel
    /// under it, if there is one, is noted for undo and painted.
    pub open spec fn pressed(self, s: StateView, mouse_x: int, mouse_y: int) -> StateView {
        match self.index_at(s.images[self.image_id as int], mouse_x, mouse_y) {
            Some((x, y)) => self.painted(self.recorded(s, x, y), x, y),
            None => s,
        }
    }

    /// Notes the colour of a pixel before a gesture writes to it, unless the
    /// gesture has noted that pixel before. The colour is read from the
    /// image; the one that is handed in is not looked at.
    pub fn save_undo(&self, state: &mut State, target_x: usize, target_y: usize, _color: Color)
        requires
            old(state).wf(),
            self.image_id < old(state)@.images.len(),
            old(state)@.images[self.image_id as int].contains(target_x as int, target_y as int),
        ensures
            final(state)@ == self.recorded(old(state)@, target_x, target_y),
            final(state).wf(),
    {
        let ghost before = state@;
        let depth: usize = state.undo_stack.len();
        if depth == 0 {
            return ;
        }
        let ghost frame = before.undo_stack.last();
        let count: usize = state.undo_stack[depth - 1].draw_undo.len();
        let mut i: usize = 0;
        while i < count
            invariant
                i <= count,
                count == frame.len(),
                depth == state.undo_stack@.len(),
                depth > 0,
                state@ == before,
                before.wf(),
                frame == before.undo_stack.last(),
                forall|j: int| 0 <= j < i ==> !(#[trigger] frame[j]).is_at(
                    self.image_id,
                    target_x,
                    target_y,
                ),
            decreases count - i,
        {
            let entry = state.undo_stack[depth - 1].draw_undo[i];
            if entry.image_id == self.image_id && entry.x == target_x && entry.y == target_y {
                return ;
            }
            i += 1;
        }
        let kept = state.images[self.image_id].get_point(target_x, target_y);
        let entry = DrawUndo::new(self.image_id, target_x, target_y, kept);
        state.undo_stack[depth - 1].draw_undo.push(entry);
        proof {
            let after = state@;
            assert(after.undo_stack =~= before.undo_stack.drop_last().push(frame.push(entry)));
            assert forall|k: int| 0 <= k < after.undo_stack.len() implies frame_fits(
                #[trigger] after.undo_stack[k],
                after.images,
            ) by {
                if k == depth - 1 {
                    assert forall|j: int| 0 <= j < after.undo_stack[k].len() implies (
                    #[trigger] after.undo_stack[k][j]).fits(after.images) by {
                        if j < frame.len() {
                            assert(after.undo_stack[k][j] == frame[j]);
                        }
                    }
                }
            }
        }
    }

    /// Paints the pixel under the mouse, if the mouse is over the image, and
    /// notes for undo what colour it had.
    pub fn handle_mouse_down(&self, state: &mut State, mouse_x: i32, mouse_y: i32)
        requires
            old(state).wf(),
            self.image_id < old(state)@.images.len(),
        ensures
            final(state)@ == self.pressed(old(state)@, mouse_x as int, mouse_y as int),
            final(state).wf(),
    {
        let coordinates = self.get_index(&state.images[self.image_id], mouse_x, mouse_y);
        if let Some((x, y)) = coordinates {
            let color = state.images[self.image_id].get_point(x, y);
            self.save_undo(state, x, y, color);
            let ghost noted = state@;
            let paint = state.current_color;
            *state.images[self.image_id].get_mut_ref(x, y) = paint;
            proof {
                let after = state@;
                assert(after.images =~= noted.images.update(
                    self.image_id as int,
                    noted.images[self.image_id as int].with_pixel(x as int, y as int, paint),
                ));
                lemma_index_in_bounds(
                    x as int,
                    y as int,
                    noted.images[self.image_id as int].width as int,
                    noted.images[self.image_id as int].height as int,
                );
                assert forall|k: int| 0 <= k < after.undo_stack.len() implies frame_fits(
                    #[trigger] after.undo_stack[k],
                    after.images,
                ) by {
                    lemma_frame_fits_same_sizes(noted.undo_stack[k], noted.images, after.images);
                }
            }
        }
    }

    /// The part of the screen that the window fills when it shows `image`.
    pub open spec fn frame(self, image: ImageView) -> Option<Rect> {
        rect_of(
            self.x as int,
            self.y as int,
            image.width * self.scale,
            image.height * self.scale,
        )
    }

    /// The square of the screen that shows the pixel at `column` of `row`.
    pub open spec fn pixel_square(self, column: int, row: int) -> Option<Rect> {
        rect_of(
            self.x + column * self.scale,
            self.y + row * self.scale,
            self.scale as int,
            self.scale as int,
        )
    }

    /// The part of the screen to fill with the background before `image`
    /// is drawn, if it is on the screen.
    pub fn frame_rect(&self, image: &ImageBuffer) -> (r: Option<Rect>)
        ensures
            r == self.frame(image@),
    {
        let width: u128 = image.width as u128;
        let height: u128 = image.height as u128;
        let scale: u128 = self.scale as u128;
        assert(width * scale <= u128::MAX && height * scale <= u128::MAX) by (nonlinear_arith)
            requires
                width <= u64::MAX,
                height <= u64::MAX,
                scale <= u64::MAX,
        ;
        make_rect(self.x as u128, self.y as u128, width * scale, height * scale)
    }

    /// The square of the screen to fill with the colour of the pixel at
    /// `column` of `row`, if it is on the screen.
    pub fn pixel_rect(&self, column: usize, row: usize) -> (r: Option<Rect>)
        ensures
            r == self.pixel_square(column as int, row as int),
    {
        let scale: u128 = self.scale as u128;
        assert(column * scale <= u64::MAX * u64::MAX && row * scale <= u64::MAX * u64::MAX)
            by (nonlinear_arith)
            requires
                column <= u64::MAX,
                row <= u64::MAX,
                scale <= u64::MAX,
        ;
        make_rect(
            self.x as u128 + column as u128 * scale,
            self.y as u128 + row as u128 * scale,
            scale,
            scale,
        )
    }

    /// The window one step further in.
    pub open spec fn zoomed_in(self) -> DrawingWindow {
        DrawingWindow { scale: ((self.scale + 1) % (SCALE_STEPS as int)) as usize, ..self }
    }

    /// The window one step further out.
    pub open spec fn zoomed_out(self) -> DrawingWindow {
        DrawingWindow {
            scale: ((self.scale + SCALE_STEPS - 1) % (SCALE_STEPS as int)) as usize,
            ..self
        }
    }

    /// Raises the scale by one. After the last step comes the first.
    pub fn increment_scale(&mut self)
        ensures
            *final(self) == old(self).zoomed_in(),
    {
        proof {
            lemma_add_mod_noop_right(1, self.scale as int, SCALE_STEPS as int);
        }
        self.scale = (self.scale % SCALE_STEPS + 1) % SCALE_STEPS;
    }

    /// Lowers the scale by one. Before the first step comes the last.
    pub fn decrement_scale(&mut self)
        ensures
            *final(self) == old(self).zoomed_out(),
    {
        proof {
            lemma_add_mod_noop_right(SCALE_STEPS - 1, self.scale as int, SCALE_STEPS as int);
        }
        self.scale = (self.scale % SCALE_STEPS + (SCALE_STEPS - 1)) % SCALE_STEPS;
    }
}

/// A click inside the square that shows a pixel is a click on that pixel.
pub proof fn lemma_square_shows_its_pixel(
    window: DrawingWindow,
    image: ImageView,
    column: int,
    row: int,
    x: int,
    y: int,
)
    requires
        image.contains(column, row),
        window.pixel_square(column, row) matches Some(square) && square.x <= x < square.x
            + square.width && square.y <= y < square.y + square.height,
    ensures
        window.index_at(image, x, y) == Some((column as usize, row as usize)),
{
    lemma_cell_of_square(window.x as int, window.scale as int, image.width as int, column, x);
    lemma_cell_of_square(window.y as int, window.scale as int, image.height as int, row, y);
}

/// A position inside the cell `cell` of a row of cells lies in the row,
/// and the cell found for it is `cell`.
proof fn lemma_cell_of_square(origin: int, scale: int, extent: int, cell: int, at: int)
    requires
        0 <= origin,
        0 <= scale,
        0 <= cell < extent,
        origin + cell * scale <= at < origin + cell * scale + scale,
    ensures
        origin <= at < origin + extent * scale,
        (at - origin) / scale == cell,
{
    assert(origin <= at < origin + extent * scale && (at - origin) / scale == cell)
        by (nonlinear_arith)
        requires
            0 <= origin,
            0 <= scale,
            0 <= cell < extent,
            origin + cell * scale <= at < origin + cell * scale + scale,
    ;
}

/// The scale goes round in steps: one step in from the last is the
/// first, one step out from the first is the last, and within the steps a
/// step in and a step out undo each other.
pub proof fn lemma_scale_wraps(window: DrawingWindow)
    ensures
        window.zoomed_in().scale < SCALE_STEPS,
        window.zoomed_out().scale < SCALE_STEPS,
        window.scale == SCALE_STEPS - 1 ==> window.zoomed_in().scale == 0,
        window.scale == 0 ==> window.zoomed_out().scale == SCALE_STEPS - 1,
        window.scale < SCALE_STEPS ==> window.zoomed_in().zoomed_out() == window,
        window.scale < SCALE_STEPS ==> window.zoomed_out().zoomed_in() == window,
{
    let steps = SCALE_STEPS as int;
    let scale = window.scale as int;
    if scale < steps {
        assert((scale + 1) % steps == if scale == steps - 1 { 0 } else { scale + 1 });
        assert((scale + steps - 1) % steps == if scale == 0 { steps - 1 } else { scale - 1 });
    }
}

} // verus!
