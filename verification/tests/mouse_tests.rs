use rusted_pixels::color::Color;
use rusted_pixels::events::{
    handle_mouse_left_down, handle_mouse_motion, handle_mouse_release, initialize_windows,
    windows_drawable, windows_usable,
};
use rusted_pixels::image_buffer::ImageBuffer;
use rusted_pixels::state::{DrawUndo, State, Undo};
use rusted_pixels::windows::{
    make_rect, DrawingWindow, PaletteWindow, PreviewWindow, Rect, StatusWindow, Window,
};

const CLEAR: Color = Color::RGBA(0, 0, 0, 0);
const WHITE: Color = Color::RGB(255, 255, 255);

fn canvas() -> (State, Vec<Window>) {
    let mut state = State::new();
    state.images.push(ImageBuffer::new(4, 4));
    let windows = vec![Window::Drawing(DrawingWindow::new(10, 10, 5, Color::RGB(9, 9, 9), 0))];
    (state, windows)
}

#[test]
fn the_state_begins_white_with_one_palette() {
    let state = State::new();
    assert_eq!(state.current_color, WHITE);
    assert!(!state.left_mouse_down);
    assert!(!state.right_mouse_down);
    assert_eq!((state.mouse_x, state.mouse_y), (0, 0));
    assert!(state.images.is_empty());
    assert_eq!(state.current_palette_index, 0);
    assert_eq!(
        state.palettes,
        vec![vec![
            Color::RGB(0, 0, 0),
            Color::RGB(128, 128, 128),
            Color::RGB(255, 255, 255),
            Color::RGB(192, 128, 112),
        ]]
    );
    assert!(state.input.is_empty());
    assert!(state.args.is_empty());
    assert_eq!(state.input_buffer, "");
    assert_eq!(state.window_index, 0);
    assert!(state.undo_stack.is_empty());
    assert_eq!(state.current_palette(), &state.palettes[0][..]);
}

#[test]
fn the_editor_begins_with_five_windows() {
    let windows = initialize_windows();
    assert_eq!(
        windows,
        vec![
            Window::Drawing(DrawingWindow::new(50, 50, 8, Color::RGB(100, 100, 100), 0)),
            Window::Preview(PreviewWindow(DrawingWindow::new(400, 50, 1, Color::RGB(50, 50, 50), 0))),
            Window::Drawing(DrawingWindow::new(400, 400, 2, Color::RGB(50, 50, 50), 0)),
            Window::Palette(PaletteWindow { x: 400, y: 100, palette_id: 0 }),
            Window::Status(StatusWindow::new()),
        ]
    );
    let status = StatusWindow::new();
    assert_eq!(status.height, 40);
    assert_eq!(status.background_color, Color::RGB(240, 210, 120));
    assert_eq!(status.font_color, Color::RGB(40, 40, 40));
}

#[test]
fn a_drawing_window_finds_the_pixel_under_a_point() {
    let image = ImageBuffer::new(4, 3);
    let window = DrawingWindow::new(10, 20, 5, WHITE, 0);
    assert_eq!(window.get_index(&image, 10, 20), Some((0, 0)));
    assert_eq!(window.get_index(&image, 14, 24), Some((0, 0)));
    assert_eq!(window.get_index(&image, 15, 25), Some((1, 1)));
    assert_eq!(window.get_index(&image, 29, 34), Some((3, 2)));
    assert_eq!(window.get_index(&image, 30, 34), None);
    assert_eq!(window.get_index(&image, 29, 35), None);
    assert_eq!(window.get_index(&image, 9, 20), None);
    assert_eq!(window.get_index(&image, 10, 19), None);
    assert_eq!(window.get_index(&image, -1, -1), None);
    assert_eq!(window.get_index(&image, i32::MAX, i32::MAX), None);
    assert_eq!(window.get_index(&image, i32::MIN, 20), None);
    assert!(window.in_range(&image, 10, 20));
    assert!(window.in_range(&image, 29, 34));
    assert!(!window.in_range(&image, 30, 34));
    assert!(!window.in_range(&image, 9, 20));
}

#[test]
fn a_window_of_scale_zero_covers_nothing() {
    let image = ImageBuffer::new(4, 3);
    let window = DrawingWindow::new(10, 20, 0, WHITE, 0);
    assert_eq!(window.get_index(&image, 10, 20), None);
    assert!(!window.in_range(&image, 10, 20));
}

#[test]
fn a_window_far_out_covers_nothing_in_reach() {
    let image = ImageBuffer::new(4, 3);
    let window = DrawingWindow::new(usize::MAX, usize::MAX, usize::MAX, WHITE, 0);
    assert_eq!(window.get_index(&image, i32::MAX, i32::MAX), None);
    let window = DrawingWindow::new(0, 0, usize::MAX, WHITE, 0);
    assert_eq!(window.get_index(&image, i32::MAX, i32::MAX), Some((0, 0)));
}

#[test]
fn the_scale_wraps_around() {
    let mut window = DrawingWindow::new(0, 0, 31, WHITE, 0);
    window.increment_scale();
    assert_eq!(window.scale, 0);
    window.decrement_scale();
    assert_eq!(window.scale, 31);
    window.decrement_scale();
    assert_eq!(window.scale, 30);
    let mut window = DrawingWindow::new(0, 0, 0, WHITE, 0);
    window.decrement_scale();
    assert_eq!(window.scale, 31);
    let mut window = DrawingWindow::new(0, 0, 8, WHITE, 0);
    window.increment_scale();
    assert_eq!(window.scale, 9);
    assert_eq!((window.x, window.y, window.background, window.image_id), (0, 0, WHITE, 0));
}

#[test]
fn a_scale_out_of_the_steps_comes_back_into_them() {
    let mut window = DrawingWindow::new(0, 0, 100, WHITE, 0);
    window.increment_scale();
    assert_eq!(window.scale, 5);
    let mut window = DrawingWindow::new(0, 0, 100, WHITE, 0);
    window.decrement_scale();
    assert_eq!(window.scale, 3);
    let mut window = DrawingWindow::new(0, 0, usize::MAX, WHITE, 0);
    window.increment_scale();
    assert_eq!(window.scale, 0);
    let mut window = DrawingWindow::new(0, 0, usize::MAX, WHITE, 0);
    window.decrement_scale();
    assert_eq!(window.scale, 30);
}

#[test]
fn only_a_drawing_window_has_a_scale_to_change() {
    let mut windows = initialize_windows();
    for window in windows.iter_mut() {
        window.increment_scale();
    }
    let fresh = initialize_windows();
    assert_eq!(windows[0], Window::Drawing(DrawingWindow::new(50, 50, 9, Color::RGB(100, 100, 100), 0)));
    assert_eq!(windows[1], fresh[1]);
    assert_eq!(windows[2], Window::Drawing(DrawingWindow::new(400, 400, 3, Color::RGB(50, 50, 50), 0)));
    assert_eq!(windows[3], fresh[3]);
    assert_eq!(windows[4], fresh[4]);
    for window in windows.iter_mut() {
        window.decrement_scale();
    }
    assert_eq!(windows, fresh);
}

#[test]
fn a_press_paints_the_pixel_and_notes_its_colour() {
    let (mut state, windows) = canvas();
    handle_mouse_left_down(&mut state, &windows, 12, 17);
    assert!(state.left_mouse_down);
    assert_eq!(state.images[0].get_point(0, 1), WHITE);
    assert_eq!(state.undo_stack.len(), 1);
    assert_eq!(state.undo_stack[0].draw_undo, vec![DrawUndo::new(0, 0, 1, CLEAR)]);
    for y in 0..4 {
        for x in 0..4 {
            if (x, y) != (0, 1) {
                assert_eq!(state.images[0].get_point(x, y), CLEAR);
            }
        }
    }
}

#[test]
fn undo_after_painting_one_pixel_five_times_gives_the_first_colour_back() {
    let (mut state, windows) = canvas();
    *state.images[0].get_mut_ref(2, 3) = Color::RGB(7, 7, 7);
    state.current_color = Color::RGB(1, 0, 0);
    handle_mouse_left_down(&mut state, &windows, 20, 25);
    assert_eq!(state.images[0].get_point(2, 3), Color::RGB(1, 0, 0));
    for n in 2..=5u8 {
        state.current_color = Color::RGB(n, 0, 0);
        handle_mouse_motion(&mut state, &windows, 21, 26);
        assert_eq!(state.images[0].get_point(2, 3), Color::RGB(n, 0, 0));
    }
    assert_eq!(state.undo_stack.len(), 1);
    assert_eq!(state.undo_stack[0].draw_undo, vec![DrawUndo::new(0, 2, 3, Color::RGB(7, 7, 7))]);
    handle_mouse_release(&mut state, 21, 26);
    assert!(!state.left_mouse_down);
    assert_eq!(state.undo_stack.len(), 1);
    state.undo();
    assert_eq!(state.images[0].get_point(2, 3), Color::RGB(7, 7, 7));
    assert!(state.undo_stack.is_empty());
}

#[test]
fn undo_takes_a_whole_stroke_back() {
    let (mut state, windows) = canvas();
    let before = state.images[0].buffer.clone();
    handle_mouse_left_down(&mut state, &windows, 10, 10);
    for step in 1..20 {
        handle_mouse_motion(&mut state, &windows, 10 + step, 10 + step);
    }
    for step in (0..20).rev() {
        handle_mouse_motion(&mut state, &windows, 10 + step, 10 + step);
    }
    handle_mouse_release(&mut state, 10, 10);
    assert_eq!(state.mouse_x, 10);
    for i in 0..4 {
        assert_eq!(state.images[0].get_point(i, i), WHITE);
    }
    assert_eq!(state.undo_stack[0].draw_undo.len(), 4);
    state.undo();
    assert_eq!(state.images[0].buffer, before);
    assert!(state.undo_stack.is_empty());
}

#[test]
fn undo_takes_gestures_back_one_by_one() {
    let (mut state, windows) = canvas();
    handle_mouse_left_down(&mut state, &windows, 10, 10);
    handle_mouse_release(&mut state, 10, 10);
    state.current_color = Color::RGB(5, 5, 5);
    handle_mouse_left_down(&mut state, &windows, 10, 10);
    handle_mouse_motion(&mut state, &windows, 15, 10);
    handle_mouse_release(&mut state, 15, 10);
    assert_eq!(state.undo_stack.len(), 2);
    assert_eq!(state.images[0].get_point(0, 0), Color::RGB(5, 5, 5));
    assert_eq!(state.images[0].get_point(1, 0), Color::RGB(5, 5, 5));
    state.undo();
    assert_eq!(state.images[0].get_point(0, 0), WHITE);
    assert_eq!(state.images[0].get_point(1, 0), CLEAR);
    state.undo();
    assert_eq!(state.images[0].get_point(0, 0), CLEAR);
    state.undo();
    assert_eq!(state.images[0].get_point(0, 0), CLEAR);
    assert!(state.undo_stack.is_empty());
}

#[test]
fn a_gesture_that_paints_nothing_leaves_nothing_to_undo() {
    let (mut state, windows) = canvas();
    handle_mouse_left_down(&mut state, &windows, 0, 0);
    assert_eq!(state.undo_stack.len(), 1);
    assert!(state.undo_stack[0].is_empty());
    handle_mouse_motion(&mut state, &windows, 100, 100);
    handle_mouse_release(&mut state, 100, 100);
    assert!(state.undo_stack.is_empty());
    assert_eq!((state.mouse_x, state.mouse_y), (100, 100));
}

#[test]
fn a_release_without_a_gesture_changes_nothing() {
    let (mut state, _) = canvas();
    handle_mouse_release(&mut state, 1, 1);
    assert!(state.undo_stack.is_empty());
    state.undo_stack.push(Undo { draw_undo: vec![DrawUndo::new(0, 1, 1, WHITE)] });
    handle_mouse_release(&mut state, 1, 1);
    assert_eq!(state.undo_stack.len(), 1);
}

#[test]
fn moving_without_the_button_paints_nothing() {
    let (mut state, windows) = canvas();
    handle_mouse_motion(&mut state, &windows, 12, 12);
    assert_eq!((state.mouse_x, state.mouse_y), (12, 12));
    assert_eq!(state.images[0].get_point(0, 0), CLEAR);
    assert!(state.undo_stack.is_empty());
}

#[test]
fn the_same_place_in_two_images_is_noted_twice() {
    let mut state = State::new();
    state.images.push(ImageBuffer::new(2, 2));
    state.images.push(ImageBuffer::new(2, 2));
    let windows = vec![
        Window::Drawing(DrawingWindow::new(0, 0, 10, WHITE, 0)),
        Window::Drawing(DrawingWindow::new(0, 0, 10, WHITE, 1)),
    ];
    *state.images[1].get_mut_ref(1, 1) = Color::RGB(3, 3, 3);
    handle_mouse_left_down(&mut state, &windows, 15, 15);
    handle_mouse_motion(&mut state, &windows, 16, 16);
    assert_eq!(
        state.undo_stack[0].draw_undo,
        vec![DrawUndo::new(0, 1, 1, CLEAR), DrawUndo::new(1, 1, 1, Color::RGB(3, 3, 3))]
    );
    handle_mouse_release(&mut state, 16, 16);
    state.undo();
    assert_eq!(state.images[0].get_point(1, 1), CLEAR);
    assert_eq!(state.images[1].get_point(1, 1), Color::RGB(3, 3, 3));
}

#[test]
fn save_undo_notes_a_pixel_once() {
    let (mut state, _) = canvas();
    let window = DrawingWindow::new(10, 10, 5, WHITE, 0);
    window.save_undo(&mut state, 1, 1, CLEAR);
    assert!(state.undo_stack.is_empty());
    state.undo_stack.push(Undo::new());
    window.save_undo(&mut state, 1, 1, CLEAR);
    *state.images[0].get_mut_ref(1, 1) = WHITE;
    window.save_undo(&mut state, 1, 1, WHITE);
    window.save_undo(&mut state, 2, 1, WHITE);
    assert_eq!(
        state.undo_stack[0].draw_undo,
        vec![DrawUndo::new(0, 1, 1, CLEAR), DrawUndo::new(0, 2, 1, CLEAR)]
    );
}

#[test]
fn a_preview_window_does_not_paint() {
    let mut state = State::new();
    state.images.push(ImageBuffer::new(4, 4));
    let windows = vec![Window::Preview(PreviewWindow(DrawingWindow::new(0, 0, 5, WHITE, 0)))];
    handle_mouse_left_down(&mut state, &windows, 1, 1);
    assert_eq!(state.images[0].get_point(0, 0), CLEAR);
    handle_mouse_release(&mut state, 1, 1);
    assert!(state.undo_stack.is_empty());
}

#[test]
fn a_click_on_the_palette_picks_the_colour() {
    let window = PaletteWindow { x: 400, y: 100, palette_id: 0 };
    let pick = |x: i32, y: i32| -> Color {
        let mut state = State::new();
        state.current_color = Color::RGB(1, 1, 1);
        window.handle_mouse_down(&mut state, x, y);
        state.current_color
    };
    assert_eq!(pick(403, 103), Color::RGB(0, 0, 0));
    assert_eq!(pick(426, 126), Color::RGB(0, 0, 0));
    assert_eq!(pick(427, 103), Color::RGB(128, 128, 128));
    assert_eq!(pick(451, 103), Color::RGB(255, 255, 255));
    assert_eq!(pick(474, 126), Color::RGB(255, 255, 255));
    assert_eq!(pick(403, 127), Color::RGB(192, 128, 112));
    assert_eq!(pick(426, 150), Color::RGB(192, 128, 112));
}

#[test]
fn the_right_edge_of_the_palette_wraps_to_the_first_column() {
    let window = PaletteWindow { x: 400, y: 100, palette_id: 0 };
    let mut state = State::new();
    window.handle_mouse_down(&mut state, 475, 103);
    assert_eq!(state.current_color, Color::RGB(0, 0, 0));
    let mut state = State::new();
    window.handle_mouse_down(&mut state, 475, 127);
    assert_eq!(state.current_color, Color::RGB(192, 128, 112));
}

#[test]
fn a_click_beside_the_colours_changes_nothing() {
    let window = PaletteWindow { x: 400, y: 100, palette_id: 0 };
    for (x, y) in [
        (402, 103), (403, 102), (476, 103), (403, 152), (427, 127), (451, 127), (403, 151),
        (-1, -1), (0, 0), (i32::MAX, i32::MAX), (i32::MIN, 103),
    ] {
        let mut state = State::new();
        state.current_color = Color::RGB(1, 1, 1);
        window.handle_mouse_down(&mut state, x, y);
        assert_eq!(state.current_color, Color::RGB(1, 1, 1), "at {:?}", (x, y));
    }
}

#[test]
fn the_palette_in_the_window_list_changes_the_colour_to_draw_with() {
    let mut state = State::new();
    state.images.push(ImageBuffer::new(32, 64));
    let windows = initialize_windows();
    handle_mouse_left_down(&mut state, &windows, 430, 110);
    assert_eq!(state.current_color, Color::RGB(128, 128, 128));
    handle_mouse_release(&mut state, 430, 110);
    handle_mouse_left_down(&mut state, &windows, 58, 66);
    assert_eq!(state.images[0].get_point(1, 2), Color::RGB(128, 128, 128));
    assert_eq!(state.undo_stack.len(), 1);
}

#[test]
fn rectangles_are_made_of_what_fits() {
    assert_eq!(make_rect(1, 2, 3, 4), Some(Rect { x: 1, y: 2, width: 3, height: 4 }));
    assert_eq!(
        make_rect(i32::MAX as u128, 0, u32::MAX as u128, 0),
        Some(Rect { x: i32::MAX, y: 0, width: u32::MAX, height: 0 })
    );
    assert_eq!(make_rect(i32::MAX as u128 + 1, 0, 1, 1), None);
    assert_eq!(make_rect(0, i32::MAX as u128 + 1, 1, 1), None);
    assert_eq!(make_rect(0, 0, u32::MAX as u128 + 1, 1), None);
    assert_eq!(make_rect(0, 0, 1, u32::MAX as u128 + 1), None);
}

#[test]
fn a_drawing_window_knows_where_it_draws() {
    let image = ImageBuffer::new(4, 3);
    let window = DrawingWindow::new(10, 20, 5, WHITE, 0);
    assert_eq!(window.frame_rect(&image), Some(Rect { x: 10, y: 20, width: 20, height: 15 }));
    assert_eq!(window.pixel_rect(0, 0), Some(Rect { x: 10, y: 20, width: 5, height: 5 }));
    assert_eq!(window.pixel_rect(3, 2), Some(Rect { x: 25, y: 30, width: 5, height: 5 }));
    let far = DrawingWindow::new(usize::MAX, 0, 5, WHITE, 0);
    assert_eq!(far.frame_rect(&image), None);
    assert_eq!(far.pixel_rect(0, 0), None);
    let huge = DrawingWindow::new(0, 0, usize::MAX, WHITE, 0);
    assert_eq!(huge.frame_rect(&image), None);
    assert_eq!(huge.pixel_rect(usize::MAX, usize::MAX), None);
}

#[test]
fn every_point_of_a_pixel_square_hits_that_pixel() {
    let image = ImageBuffer::new(4, 3);
    let window = DrawingWindow::new(10, 20, 5, WHITE, 0);
    for row in 0..3 {
        for column in 0..4 {
            let square = window.pixel_rect(column, row).unwrap();
            for y in square.y..square.y + square.height as i32 {
                for x in square.x..square.x + square.width as i32 {
                    assert_eq!(window.get_index(&image, x, y), Some((column, row)));
                }
            }
        }
    }
}

#[test]
fn a_palette_window_knows_where_it_draws() {
    let window = PaletteWindow { x: 400, y: 100, palette_id: 0 };
    assert_eq!(window.frame_rect(4), Some(Rect { x: 400, y: 100, width: 78, height: 54 }));
    assert_eq!(window.frame_rect(0), Some(Rect { x: 400, y: 100, width: 78, height: 6 }));
    assert_eq!(window.frame_rect(3), Some(Rect { x: 400, y: 100, width: 78, height: 30 }));
    assert_eq!(window.swatch_rect(0), Some(Rect { x: 403, y: 103, width: 24, height: 24 }));
    assert_eq!(window.swatch_rect(2), Some(Rect { x: 451, y: 103, width: 24, height: 24 }));
    assert_eq!(window.swatch_rect(3), Some(Rect { x: 403, y: 127, width: 24, height: 24 }));
    assert_eq!(window.frame_rect(usize::MAX), None);
    assert_eq!(window.swatch_rect(usize::MAX), None);
}

#[test]
fn the_status_bar_lies_at_the_bottom() {
    let window = StatusWindow::new();
    assert_eq!(window.bar_rect(800, 600), Some(Rect { x: 0, y: 560, width: 800, height: 40 }));
    assert_eq!(window.bar_rect(800, 40), Some(Rect { x: 0, y: 0, width: 800, height: 40 }));
    assert_eq!(window.bar_rect(800, 39), None);
    assert_eq!(window.text_rect(600, 1600, 330), Some(Rect { x: 0, y: 560, width: 200, height: 41 }));
    assert_eq!(window.text_rect(10, 1600, 330), None);
}

#[test]
fn a_state_tells_whether_it_is_well_formed() {
    let mut state = State::new();
    assert!(state.is_well_formed());
    state.images.push(ImageBuffer::new(2, 2));
    state.undo_stack.push(Undo { draw_undo: vec![DrawUndo::new(0, 1, 1, WHITE)] });
    assert!(state.is_well_formed());
    state.undo_stack.push(Undo { draw_undo: vec![DrawUndo::new(0, 2, 1, WHITE)] });
    assert!(!state.is_well_formed());
    state.undo_stack.pop();
    state.undo_stack.push(Undo { draw_undo: vec![DrawUndo::new(0, 1, 2, WHITE)] });
    assert!(!state.is_well_formed());
    state.undo_stack.pop();
    state.undo_stack.push(Undo { draw_undo: vec![DrawUndo::new(1, 0, 0, WHITE)] });
    assert!(!state.is_well_formed());
    state.undo_stack.pop();
    assert!(state.is_well_formed());
    state.current_palette_index = 1;
    assert!(!state.is_well_formed());
    state.current_palette_index = 0;
    state.images[0].buffer.pop();
    assert!(!state.is_well_formed());
}

#[test]
fn windows_are_usable_when_their_images_are_there() {
    let mut state = State::new();
    let windows = initialize_windows();
    assert!(!windows_usable(&windows, &state));
    assert!(windows_usable(&windows[3..], &state));
    assert!(windows_usable(&windows[1..2], &state));
    state.images.push(ImageBuffer::new(2, 2));
    assert!(windows_usable(&windows, &state));
    let far = vec![Window::Drawing(DrawingWindow::new(0, 0, 1, WHITE, 1))];
    assert!(!windows_usable(&far, &state));
}

#[test]
fn windows_can_be_drawn_when_the_images_they_show_are_there() {
    let mut state = State::new();
    let windows = initialize_windows();
    assert!(!windows_drawable(&windows, &state));
    assert!(windows_drawable(&windows[3..], &state));
    assert!(!windows_drawable(&windows[1..2], &state));
    state.images.push(ImageBuffer::new(2, 2));
    assert!(windows_drawable(&windows, &state));
    let far = vec![Window::Preview(PreviewWindow(DrawingWindow::new(0, 0, 1, WHITE, 1)))];
    assert!(!windows_drawable(&far, &state));
    assert!(windows_usable(&far, &state));
}
