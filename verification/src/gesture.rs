//! What holds of a drawing gesture, from the press of the left button to
//! its release, and of the undo that follows it.

use crate::events::{all_usable, mouse_left_down, mouse_moved, mouse_released, pressed_all};
use crate::image_buffer::{lemma_index_in_bounds, lemma_index_injective, ImageView};
use crate::state::{
    frame_fits, frame_has, has_pixel, lemma_restored_keeps_sizes, pixel, restored, same_sizes,
    DrawUndo, StateView,
};
use crate::windows::Window;
use vstd::prelude::*;

verus! {

/// Whether the state `t` is in the middle of a gesture that began with the
/// images `start` and the undo log `log`: the frame of the gesture lies on
/// top of `log`, every colour in the frame is the one that its pixel had
/// in `start`, and every pixel that the frame does not speak of still has
/// the colour that it had in `start`.
pub open spec fn in_gesture(start: Seq<ImageView>, log: Seq<Seq<DrawUndo>>, t: StateView) -> bool {
    &&& t.wf()
    &&& same_sizes(start, t.images)
    &&& t.undo_stack.len() > 0
    &&& t.undo_stack.drop_last() == log
    &&& forall|i: int|
        0 <= i < t.undo_stack.last().len() ==> (#[trigger] t.undo_stack.last()[i]).color
            == start[t.undo_stack.last()[i].image_id as int].at(
            t.undo_stack.last()[i].x as int,
            t.undo_stack.last()[i].y as int,
        )
    &&& forall|id: usize, x: usize, y: usize|
        has_pixel(start, id, x, y) && !frame_has(t.undo_stack.last(), id, x, y) ==> #[trigger] pixel(
            t.images,
            id,
            x,
            y,
        ) == pixel(start, id, x, y)
}

/// A gesture that has just begun is in the middle of itself.
pub proof fn lemma_gesture_begins(s: StateView)
    requires
        s.wf(),
    ensures
        in_gesture(
            s.images,
            s.undo_stack,
            StateView { undo_stack: s.undo_stack.push(Seq::empty()), left_mouse_down: true, ..s },
        ),
{
    let t = StateView { undo_stack: s.undo_stack.push(Seq::empty()), left_mouse_down: true, ..s };
    assert(t.undo_stack.drop_last() =~= s.undo_stack);
    assert forall|i: int| 0 <= i < t.undo_stack.len() implies frame_fits(
        #[trigger] t.undo_stack[i],
        t.images,
    ) by {
        if i < s.undo_stack.len() {
            assert(t.undo_stack[i] == s.undo_stack[i]);
        }
    }
}

/// A press of the mouse keeps a gesture going.
pub proof fn lemma_press_keeps_gesture(
    start: Seq<ImageView>,
    log: Seq<Seq<DrawUndo>>,
    t: StateView,
    window: Window,
    x: int,
    y: int,
)
    requires
        in_gesture(start, log, t),
        window.usable(t),
    ensures
        in_gesture(start, log, window.pressed(t, x, y)),
        window.pressed(t, x, y).left_mouse_down == t.left_mouse_down,
{
    let after = window.pressed(t, x, y);
    match window {
        Window::Drawing(w) => {
            let image = t.images[w.image_id as int];
            match w.index_at(image, x, y) {
                Some((px, py)) => {
                    assert(image.wf());
                    lemma_cell_inside(w.x as int, w.scale as int, image.width as int, x);
                    lemma_cell_inside(w.y as int, w.scale as int, image.height as int, y);
                    assert(image.contains(px as int, py as int));
                    lemma_index_in_bounds(
                        px as int,
                        py as int,
                        image.width as int,
                        image.height as int,
                    );
                    let noted = w.recorded(t, px, py);
                    let frame = t.undo_stack.last();
                    let grown = noted.undo_stack.last();
                    if !frame_has(frame, w.image_id, px, py) {
                        let entry = DrawUndo {
                            image_id: w.image_id,
                            x: px,
                            y: py,
                            color: image.at(px as int, py as int),
                        };
                        assert(grown == frame.push(entry));
                        assert(noted.undo_stack.drop_last() =~= t.undo_stack.drop_last());
                        assert(grown[frame.len() as int].is_at(w.image_id, px, py));
                        assert(has_pixel(start, w.image_id, px, py));
                        assert(pixel(t.images, w.image_id, px, py) == pixel(
                            start,
                            w.image_id,
                            px,
                            py,
                        ));
                        assert forall|i: int| 0 <= i < grown.len() implies (
                        #[trigger] grown[i]).color == start[grown[i].image_id as int].at(
                            grown[i].x as int,
                            grown[i].y as int,
                        ) by {
                            if i < frame.len() {
                                assert(grown[i] == frame[i]);
                            }
                        }
                    }
                    assert(frame_has(grown, w.image_id, px, py));
                    assert(after.undo_stack == noted.undo_stack);
                    assert(after.images[w.image_id as int] == image.with_pixel(
                        px as int,
                        py as int,
                        t.current_color,
                    ));
                    assert forall|i: int| 0 <= i < after.images.len() implies (
                    #[trigger] after.images[i]).wf() by {
                        if i != w.image_id {
                            assert(after.images[i] == t.images[i]);
                        }
                    }
                    assert forall|k: int| 0 <= k < after.undo_stack.len() implies frame_fits(
                        #[trigger] after.undo_stack[k],
                        after.images,
                    ) by {
                        assert forall|j: int| 0 <= j < after.undo_stack[k].len() implies (
                        #[trigger] after.undo_stack[k][j]).fits(after.images) by {
                            if k < t.undo_stack.len() - 1 {
                                assert(after.undo_stack[k] == t.undo_stack[k]);
                                assert(frame_fits(t.undo_stack[k], t.images));
                                assert(t.undo_stack[k][j].fits(t.images));
                            } else {
                                assert(frame_fits(frame, t.images));
                                if j < frame.len() {
                                    assert(grown[j] == frame[j]);
                                    assert(frame[j].fits(t.images));
                                }
                            }
                        }
                    }
                    assert forall|id: usize, qx: usize, qy: usize|
                        has_pixel(start, id, qx, qy) && !frame_has(
                            grown,
                            id,
                            qx,
                            qy,
                        ) implies #[trigger] pixel(after.images, id, qx, qy) == pixel(
                        start,
                        id,
                        qx,
                        qy,
                    ) by {
                        if frame_has(frame, id, qx, qy) {
                            let i = choose|i: int|
                                0 <= i < frame.len() && (#[trigger] frame[i]).is_at(id, qx, qy);
                            assert(grown[i] == frame[i]);
                        }
                        assert(pixel(t.images, id, qx, qy) == pixel(start, id, qx, qy));
                        if id == w.image_id {
                            if qy * image.width + qx == py * image.width + px {
                                lemma_index_injective(
                                    qx as int,
                                    qy as int,
                                    px as int,
                                    py as int,
                                    image.width as int,
                                );
                            }
                            lemma_index_in_bounds(
                                qx as int,
                                qy as int,
                                image.width as int,
                                image.height as int,
                            );
                        } else {
                            assert(after.images[id as int] == t.images[id as int]);
                        }
                    }
                    assert(in_gesture(start, log, after));
                },
                None => {},
            }
        },
        Window::Palette(w) => {},
        Window::Preview(_) => {},
        Window::Status(_) => {},
    }
}

/// A position that a row of cells covers lies in one of its cells.
proof fn lemma_cell_inside(origin: int, scale: int, extent: int, at: int)
    requires
        0 <= origin,
        0 <= scale,
        0 <= extent,
        origin <= at < origin + extent * scale,
    ensures
        0 <= (at - origin) / scale < extent,
{
    assert(scale > 0 && 0 <= (at - origin) / scale < extent) by (nonlinear_arith)
        requires
            0 <= origin,
            0 <= scale,
            0 <= extent,
            origin <= at < origin + extent * scale,
    ;
}

/// Presses of the mouse, window by window, keep a gesture going.
pub proof fn lemma_presses_keep_gesture(
    start: Seq<ImageView>,
    log: Seq<Seq<DrawUndo>>,
    t: StateView,
    windows: Seq<Window>,
    x: int,
    y: int,
)
    requires
        in_gesture(start, log, t),
        all_usable(windows, t),
    ensures
        in_gesture(start, log, pressed_all(t, windows, x, y)),
        pressed_all(t, windows, x, y).left_mouse_down == t.left_mouse_down,
    decreases windows.len(),
{
    if windows.len() > 0 {
        let before = windows.drop_last();
        assert forall|i: int| 0 <= i < before.len() implies (#[trigger] before[i]).usable(t) by {
            assert(before[i] == windows[i]);
        }
        lemma_presses_keep_gesture(start, log, t, before, x, y);
        let u = pressed_all(t, before, x, y);
        assert(windows.last() == windows[windows.len() - 1]);
        assert(windows.last().usable(t));
        assert(windows.last().usable(u));
        lemma_press_keeps_gesture(start, log, u, windows.last(), x, y);
    }
}

/// Writing the frame of a gesture back gives every pixel the colour that
/// it had when the gesture began.
pub proof fn lemma_frame_restores(start: Seq<ImageView>, log: Seq<Seq<DrawUndo>>, t: StateView)
    requires
        in_gesture(start, log, t),
        forall|i: int| 0 <= i < start.len() ==> (#[trigger] start[i]).wf(),
    ensures
        restored(t.images, t.undo_stack.last()) == start,
{
    let frame = t.undo_stack.last();
    assert(frame_fits(frame, t.images));
    lemma_restored_pixels(start, t.images, frame, frame.len() as int);
    assert(frame.take(frame.len() as int) =~= frame);
    let back = restored(t.images, frame);
    lemma_restored_keeps_sizes(t.images, frame);
    assert forall|id: int| 0 <= id < start.len() implies #[trigger] back[id] == start[id] by {
        assert(back[id].wf());
        assert(start[id].wf());
        assert(t.images[id].width == start[id].width);
        assert forall|k: int| 0 <= k < start[id].pixels.len() implies back[id].pixels[k]
            == start[id].pixels[k] by {
            let w = start[id].width as int;
            let h = start[id].height as int;
            assert(w > 0 && 0 <= k / w < h && 0 <= k % w < w && k == (k / w) * w + k % w)
                by (nonlinear_arith)
                requires
                    0 <= k < w * h,
                    0 <= w,
                    0 <= h,
            ;
            let qx = (k % w) as usize;
            let qy = (k / w) as usize;
            assert(start[id].contains(qx as int, qy as int));
            assert(has_pixel(start, id as usize, qx, qy));
            assert(pixel(back, id as usize, qx, qy) == pixel(start, id as usize, qx, qy));
        }
        assert(back[id].pixels =~= start[id].pixels);
    }
    assert(back =~= start);
}

/// After the first `n` entries of a frame have been written back, a pixel
/// that one of them speaks of has the colour that it had in `start`, and
/// any other pixel has the colour that it had before.
proof fn lemma_restored_pixels(
    start: Seq<ImageView>,
    images: Seq<ImageView>,
    frame: Seq<DrawUndo>,
    n: int,
)
    requires
        0 <= n <= frame.len(),
        same_sizes(start, images),
        frame_fits(frame, images),
        forall|i: int| 0 <= i < images.len() ==> (#[trigger] images[i]).wf(),
        forall|i: int|
            0 <= i < frame.len() ==> (#[trigger] frame[i]).color == start[frame[i].image_id as int].at(
                frame[i].x as int,
                frame[i].y as int,
            ),
        forall|id: usize, x: usize, y: usize|
            has_pixel(start, id, x, y) && !frame_has(frame, id, x, y) ==> #[trigger] pixel(
                images,
                id,
                x,
                y,
            ) == pixel(start, id, x, y),
    ensures
        forall|id: usize, x: usize, y: usize|
            has_pixel(start, id, x, y) ==> #[trigger] pixel(
                restored(images, frame.take(n)),
                id,
                x,
                y,
            ) == (if frame_has(frame.take(n), id, x, y) || !frame_has(frame, id, x, y) {
                pixel(start, id, x, y)
            } else {
                pixel(images, id, x, y)
            }),
    decreases n,
{
    let part = frame.take(n);
    if n == 0 {
        assert(part =~= Seq::<DrawUndo>::empty());
        assert(restored(images, part) == images);
        assert forall|id: usize, x: usize, y: usize| has_pixel(start, id, x, y) implies #[trigger] pixel(
            restored(images, frame.take(n)),
            id,
            x,
            y,
        ) == (if frame_has(frame.take(n), id, x, y) || !frame_has(frame, id, x, y) {
            pixel(start, id, x, y)
        } else {
            pixel(images, id, x, y)
        }) by {
            assert(!frame_has(part, id, x, y));
            assert(pixel(images, id, x, y) == pixel(images, id, x, y));
        }
    } else {
        lemma_restored_pixels(start, images, frame, n - 1);
        let shorter = frame.take(n - 1);
        assert(part.drop_last() =~= shorter);
        let entry = part.last();
        assert(entry == frame[n - 1]);
        assert(entry.fits(images));
        assert forall|i: int| 0 <= i < shorter.len() implies (#[trigger] shorter[i]).fits(
            images,
        ) by {
            assert(shorter[i] == frame[i]);
        }
        lemma_restored_keeps_sizes(images, shorter);
        let before = restored(images, shorter);
        let after = restored(images, part);
        let width = images[entry.image_id as int].width as int;
        let height = images[entry.image_id as int].height as int;
        lemma_index_in_bounds(entry.x as int, entry.y as int, width, height);
        assert forall|id: usize, x: usize, y: usize| has_pixel(start, id, x, y) implies #[trigger] pixel(
            restored(images, frame.take(n)),
            id,
            x,
            y,
        ) == (if frame_has(frame.take(n), id, x, y) || !frame_has(frame, id, x, y) {
            pixel(start, id, x, y)
        } else {
            pixel(images, id, x, y)
        }) by {
            assert(pixel(before, id, x, y) == (if frame_has(shorter, id, x, y) || !frame_has(
                frame,
                id,
                x,
                y,
            ) {
                pixel(start, id, x, y)
            } else {
                pixel(images, id, x, y)
            }));
            if frame_has(shorter, id, x, y) {
                let i = choose|i: int|
                    0 <= i < shorter.len() && (#[trigger] shorter[i]).is_at(id, x, y);
                assert(part[i] == shorter[i]);
            }
            if entry.is_at(id, x, y) {
                assert(part[n - 1].is_at(id, x, y));
                assert(frame[n - 1].is_at(id, x, y));
                assert(pixel(after, id, x, y) == entry.color);
            } else {
                if frame_has(part, id, x, y) {
                    let i = choose|i: int|
                        0 <= i < part.len() && (#[trigger] part[i]).is_at(id, x, y);
                    assert(i < n - 1);
                    assert(shorter[i] == part[i]);
                }
                if id == entry.image_id {
                    lemma_index_in_bounds(x as int, y as int, width, height);
                    if y * width + x == entry.y * width + entry.x {
                        lemma_index_injective(
                            x as int,
                            y as int,
                            entry.x as int,
                            entry.y as int,
                            width,
                        );
                    }
                    assert(pixel(after, id, x, y) == pixel(before, id, x, y));
                } else {
                    assert(after[id as int] == before[id as int]);
                }
            }
        }
    }
}

/// The states that a gesture passes through while the mouse moves from
/// point to point with the left button down.
pub open spec fn dragged(s: StateView, windows: Seq<Window>, path: Seq<(i32, i32)>) -> StateView
    decreases path.len(),
{
    if path.len() == 0 {
        s
    } else {
        mouse_moved(dragged(s, windows, path.drop_last()), windows, path.last().0, path.last().1)
    }
}

/// Moving the mouse with the button down keeps a gesture going.
pub proof fn lemma_drag_keeps_gesture(
    start: Seq<ImageView>,
    log: Seq<Seq<DrawUndo>>,
    t: StateView,
    windows: Seq<Window>,
    path: Seq<(i32, i32)>,
)
    requires
        in_gesture(start, log, t),
        all_usable(windows, t),
        t.left_mouse_down,
    ensures
        in_gesture(start, log, dragged(t, windows, path)),
        dragged(t, windows, path).left_mouse_down,
    decreases path.len(),
{
    if path.len() > 0 {
        lemma_drag_keeps_gesture(start, log, t, windows, path.drop_last());
        let u = dragged(t, windows, path.drop_last());
        let moved = StateView { mouse_x: path.last().0, mouse_y: path.last().1, ..u };
        assert(in_gesture(start, log, moved));
        assert forall|i: int| 0 <= i < windows.len() implies (#[trigger] windows[i]).usable(
            moved,
        ) by {
            assert(windows[i].usable(t));
        }
        lemma_presses_keep_gesture(
            start,
            log,
            moved,
            windows,
            path.last().0 as int,
            path.last().1 as int,
        );
    }
}

/// Undo after a gesture gives every pixel the colour that it had before
/// the gesture began, however often the gesture painted it, and leaves the
/// undo log as it was before the gesture.
///
/// The gesture is a press of the left button, any movement of the mouse,
/// and the release. A gesture that painted nothing leaves nothing to undo:
/// its frame goes away with the release, and the images are as they were.
pub proof fn lemma_undo_takes_gesture_back(
    s: StateView,
    windows: Seq<Window>,
    x: int,
    y: int,
    path: Seq<(i32, i32)>,
)
    requires
        s.wf(),
        all_usable(windows, s),
    ensures
        ({
            let drawn = dragged(mouse_left_down(s, windows, x, y), windows, path);
            let released = mouse_released(drawn);
            if drawn.undo_stack.last().len() > 0 {
                &&& released.undone().images == s.images
                &&& released.undone().undo_stack == s.undo_stack
            } else {
                &&& released.images == s.images
                &&& released.undo_stack == s.undo_stack
            }
        }),
{
    let begun = StateView {
        undo_stack: s.undo_stack.push(Seq::empty()),
        left_mouse_down: true,
        ..s
    };
    lemma_gesture_begins(s);
    assert forall|i: int| 0 <= i < windows.len() implies (#[trigger] windows[i]).usable(begun) by {
        assert(windows[i].usable(s));
    }
    lemma_presses_keep_gesture(s.images, s.undo_stack, begun, windows, x, y);
    let pressed = mouse_left_down(s, windows, x, y);
    assert forall|i: int| 0 <= i < windows.len() implies (#[trigger] windows[i]).usable(
        pressed,
    ) by {
        assert(windows[i].usable(s));
    }
    lemma_drag_keeps_gesture(s.images, s.undo_stack, pressed, windows, path);
    let drawn = dragged(pressed, windows, path);
    lemma_frame_restores(s.images, s.undo_stack, drawn);
    if drawn.undo_stack.last().len() == 0 {
        assert(restored(drawn.images, drawn.undo_stack.last()) == drawn.images);
    }
}

} // verus!

