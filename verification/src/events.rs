//! What the editor does with the events of the mouse and of the keyboard.

use crate::color::Color;
use crate::input::{
    cleared, execute_command, executed, interpret, key_char, keycode_to_char, parse_input, parsed,
    table_view, Command, CommandError, CommandResult, Effect, EffectView, Input, InputView,
    InterpretErr, Keycode, Mod, Step,
};
use crate::state::{frame_fits, State, StateView, Undo};
use crate::windows::{DrawingWindow, PaletteWindow, PreviewWindow, StatusWindow, Window};
use vstd::prelude::*;

verus! {

/// Whether every window can take the mouse in the state `s`.
pub open spec fn all_usable(windows: Seq<Window>, s: StateView) -> bool {
    forall|i: int| 0 <= i < windows.len() ==> (#[trigger] windows[i]).usable(s)
}

/// Tells whether every window can take the mouse in the given state.
pub fn windows_usable(windows: &[Window], state: &State) -> (r: bool)
    ensures
        r == all_usable(windows@, state@),
{
    let mut i: usize = 0;
    while i < windows.len()
        invariant
            i <= windows@.len(),
            forall|j: int| 0 <= j < i ==> (#[trigger] windows@[j]).usable(state@),
        decreases windows@.len() - i,
    {
        if let Window::Drawing(window) = windows[i] {
            if window.image_id >= state.images.len() {
                return false;
            }
        }
        i += 1;
    }
    true
}

/// Whether every window that shows an image finds it in the state `s`:
/// whether the windows can be drawn.
pub open spec fn all_drawable(windows: Seq<Window>, s: StateView) -> bool {
    forall|i: int|
        0 <= i < windows.len() ==> match #[trigger] windows[i] {
            Window::Drawing(window) => window.image_id < s.images.len(),
            Window::Preview(window) => window.0.image_id < s.images.len(),
            _ => true,
        }
}

/// Tells whether every window that shows an image finds it in the state.
pub fn windows_drawable(windows: &[Window], state: &State) -> (r: bool)
    ensures
        r == all_drawable(windows@, state@),
{
    let mut i: usize = 0;
    while i < windows.len()
        invariant
            i <= windows@.len(),
            all_drawable(windows@.take(i as int), state@),
        decreases windows@.len() - i,
    {
        let shown = match windows[i] {
            Window::Drawing(window) => Some(window.image_id),
            Window::Preview(window) => Some(window.0.image_id),
            _ => None,
        };
        if let Some(image_id) = shown {
            if image_id >= state.images.len() {
                return false;
            }
        }
        assert(windows@.take(i + 1).drop_last() =~= windows@.take(i as int));
        assert forall|j: int| 0 <= j < i + 1 implies match #[trigger] windows@.take(i + 1)[j] {
            Window::Drawing(window) => window.image_id < state@.images.len(),
            Window::Preview(window) => window.0.image_id < state@.images.len(),
            _ => true,
        } by {
            if j < i {
                assert(windows@.take(i as int)[j] == windows@.take(i + 1)[j]);
            }
        }
        i += 1;
    }
    assert(windows@.take(windows@.len() as int) =~= windows@);
    true
}

/// Windows that can be drawn can take the mouse.
pub proof fn lemma_drawable_is_usable(windows: Seq<Window>, s: StateView)
    requires
        all_drawable(windows, s),
    ensures
        all_usable(windows, s),
{
}

/// The state after the mouse has been pressed at the point and every
/// window, from the first to the last, has seen it.
pub open spec fn pressed_all(s: StateView, windows: Seq<Window>, x: int, y: int) -> StateView
    decreases windows.len(),
{
    if windows.len() == 0 {
        s
    } else {
        windows.last().pressed(pressed_all(s, windows.drop_last(), x, y), x, y)
    }
}

/// A press of the mouse leaves the number of images and their sizes as
/// they are.
pub proof fn lemma_pressed_keeps_sizes(window: Window, s: StateView, x: int, y: int)
    requires
        window.usable(s),
    ensures
        window.pressed(s, x, y).images.len() == s.images.len(),
        forall|i: int|
            0 <= i < s.images.len() ==> {
                &&& (#[trigger] window.pressed(s, x, y).images[i]).width == s.images[i].width
                &&& window.pressed(s, x, y).images[i].height == s.images[i].height
            },
        window.pressed(s, x, y).left_mouse_down == s.left_mouse_down,
        window.pressed(s, x, y).undo_stack.len() == s.undo_stack.len(),
{
}

/// Hands the press to every window in turn.
fn press_all(state: &mut State, windows: &[Window], x: i32, y: i32)
    requires
        old(state).wf(),
        all_usable(windows@, old(state)@),
    ensures
        final(state)@ == pressed_all(old(state)@, windows@, x as int, y as int),
        final(state).wf(),
        all_usable(windows@, final(state)@),
{
    let ghost start = state@;
    let mut i: usize = 0;
    while i < windows.len()
        invariant
            i <= windows@.len(),
            state.wf(),
            all_usable(windows@, state@),
            state@ == pressed_all(start, windows@.take(i as int), x as int, y as int),
        decreases windows@.len() - i,
    {
        let ghost before = state@;
        proof {
            assert(windows@.take(i + 1).drop_last() =~= windows@.take(i as int));
            lemma_pressed_keeps_sizes(windows@[i as int], before, x as int, y as int);
        }
        windows[i].handle_mouse_down(state, x, y);
        i += 1;
    }
    assert(windows@.take(windows@.len() as int) =~= windows@);
}

/// The state after the left button has gone down at the point: a gesture
/// has begun with an empty frame on the undo log, and every window has
/// seen the press.
pub open spec fn mouse_left_down(s: StateView, windows: Seq<Window>, x: int, y: int) -> StateView {
    pressed_all(
        StateView { undo_stack: s.undo_stack.push(Seq::empty()), left_mouse_down: true, ..s },
        windows,
        x,
        y,
    )
}

/// The state after the left button has come up: the gesture has ended, and
/// its frame is off the undo log if nothing was noted in it.
pub open spec fn mouse_released(s: StateView) -> StateView {
    StateView {
        left_mouse_down: false,
        undo_stack: if s.undo_stack.len() > 0 && s.undo_stack.last().len() == 0 {
            s.undo_stack.drop_last()
        } else {
            s.undo_stack
        },
        ..s
    }
}

/// The state after the mouse has moved to the point: with the left button
/// down, every window sees a press there.
pub open spec fn mouse_moved(s: StateView, windows: Seq<Window>, x: i32, y: i32) -> StateView {
    let moved = StateView { mouse_x: x, mouse_y: y, ..s };
    if s.left_mouse_down {
        pressed_all(moved, windows, x as int, y as int)
    } else {
        moved
    }
}

/// Begins a drawing gesture.
pub fn handle_mouse_left_down(state: &mut State, windows: &[Window], x: i32, y: i32)
    requires
        old(state).wf(),
        all_usable(windows@, old(state)@),
    ensures
        final(state)@ == mouse_left_down(old(state)@, windows@, x as int, y as int),
        final(state).wf(),
        all_usable(windows@, final(state)@),
{
    let ghost before = state@;
    state.undo_stack.push(Undo::new());
    state.left_mouse_down = true;
    proof {
        let begun = state@;
        assert(begun.undo_stack =~= before.undo_stack.push(Seq::empty()));
        assert forall|k: int| 0 <= k < begun.undo_stack.len() implies frame_fits(
            #[trigger] begun.undo_stack[k],
            begun.images,
        ) by {
        }
    }
    press_all(state, windows, x, y);
}

/// Ends a drawing gesture. Where the button came up does not matter.
pub fn handle_mouse_release(state: &mut State, _x: i32, _y: i32)
    requires
        old(state).wf(),
    ensures
        final(state)@ == mouse_released(old(state)@),
        final(state).wf(),
{
    let ghost before = state@;
    state.left_mouse_down = false;
    let depth: usize = state.undo_stack.len();
    if depth > 0 && state.undo_stack[depth - 1].is_empty() {
        state.undo_stack.pop();
        proof {
            let after = state@;
            assert(after.undo_stack =~= before.undo_stack.drop_last());
            assert forall|k: int| 0 <= k < after.undo_stack.len() implies frame_fits(
                #[trigger] after.undo_stack[k],
                after.images,
            ) by {
            }
        }
    }
}

/// Follows the mouse, and goes on drawing while the left button is down.
pub fn handle_mouse_motion(state: &mut State, windows: &[Window], x: i32, y: i32)
    requires
        old(state).wf(),
        all_usable(windows@, old(state)@),
    ensures
        final(state)@ == mouse_moved(old(state)@, windows@, x, y),
        final(state).wf(),
        all_usable(windows@, final(state)@),
{
    state.mouse_x = x;
    state.mouse_y = y;
    if state.left_mouse_down {
        press_all(state, windows, x, y);
    }
}

/// The state and the windows after a key, whether the editor is to quit,
/// and what is left to do.
pub struct KeyStep {
    pub state: StateView,
    pub windows: Seq<Window>,
    pub outcome: Result<(bool, EffectView), CommandError>,
}

/// A round of the interpreter, seen from the keyboard: all that counts of
/// its result is whether the editor is to quit.
pub open spec fn key_round(step: Step) -> KeyStep {
    KeyStep {
        state: step.state,
        windows: step.windows,
        outcome: match step.outcome {
            Ok((result, effect)) => Ok((result == CommandResult::Quit, effect)),
            Err(e) => Err(e),
        },
    }
}

/// A key that only edits the state.
pub open spec fn key_edit(s: StateView, windows: Seq<Window>) -> KeyStep {
    KeyStep { state: s, windows, outcome: Ok((false, EffectView::Nothing)) }
}

/// The state with the text typed in turned into a token at the end of the
/// pending input, its argument, if it is one, on the argument stack, and
/// the text buffer empty.
pub open spec fn confirmed(s: StateView) -> StateView {
    StateView {
        input: s.input.push(parsed(s.input_buffer).0),
        args: match parsed(s.input_buffer).1 {
            Some(arg) => s.args.push(arg),
            None => s.args,
        },
        input_buffer: Seq::empty(),
        ..s
    }
}

/// What a key does.
///
/// With no input pending, the key with its modifiers is the first token, and
/// the interpreter runs. With input pending, backspace takes the last
/// character off the text typed in; escape clears that text, or with no text
/// takes the last token off the pending input; return turns the text into a
/// token and the interpreter runs; a key that types a character adds it to
/// the text; any other key does nothing.
pub open spec fn key_pressed(
    s: StateView,
    windows: Seq<Window>,
    table: Seq<(Seq<InputView>, Command)>,
    keycode: Keycode,
    keymod: Mod,
) -> KeyStep {
    if s.input.len() == 0 {
        key_round(
            executed(
                StateView { input: seq![InputView::Char(keycode, keymod)], ..s },
                windows,
                table,
            ),
        )
    } else if keycode == Keycode::Backspace {
        key_edit(
            StateView {
                input_buffer: if s.input_buffer.len() > 0 {
                    s.input_buffer.drop_last()
                } else {
                    s.input_buffer
                },
                ..s
            },
            windows,
        )
    } else if keycode == Keycode::Escape {
        if s.input_buffer.len() > 0 {
            key_edit(StateView { input_buffer: Seq::empty(), ..s }, windows)
        } else {
            key_edit(StateView { input: s.input.drop_last(), ..s }, windows)
        }
    } else if keycode == Keycode::Return {
        key_round(executed(confirmed(s), windows, table))
    } else {
        match key_char(keycode) {
            Some(c) => key_edit(StateView { input_buffer: s.input_buffer.push(c), ..s }, windows),
            None => key_edit(s, windows),
        }
    }
}

/// A chord that is bound to `Quit`, pressed with no input pending, ends
/// the session: the editor is told to quit.
pub proof fn lemma_quit_chord_ends_session(
    s: StateView,
    windows: Seq<Window>,
    table: Seq<(Seq<InputView>, Command)>,
    keycode: Keycode,
    keymod: Mod,
)
    requires
        s.input.len() == 0,
        interpret(table, seq![InputView::Char(keycode, keymod)]) == Ok::<Command, InterpretErr>(
            Command::Quit,
        ),
    ensures
        key_pressed(s, windows, table, keycode, keymod).outcome == Ok::<
            (bool, EffectView),
            CommandError,
        >((true, EffectView::Nothing)),
        key_pressed(s, windows, table, keycode, keymod).windows == windows,
{
}

/// A key that begins no binding, pressed with no input pending, is no
/// command: nothing is pending after it, whatever key comes next is again
/// the first of a sequence, and the editor goes on.
pub proof fn lemma_unbound_key_clears(
    s: StateView,
    windows: Seq<Window>,
    table: Seq<(Seq<InputView>, Command)>,
    keycode: Keycode,
    keymod: Mod,
)
    requires
        s.input.len() == 0,
        interpret(table, seq![InputView::Char(keycode, keymod)]) == Err::<Command, InterpretErr>(
            InterpretErr::NoValidCommand,
        ),
    ensures
        key_pressed(s, windows, table, keycode, keymod).state == cleared(s),
        key_pressed(s, windows, table, keycode, keymod).state.input.len() == 0,
        key_pressed(s, windows, table, keycode, keymod).windows == windows,
        key_pressed(s, windows, table, keycode, keymod).outcome == Ok::<
            (bool, EffectView),
            CommandError,
        >((false, EffectView::Nothing)),
{
}

/// Escape in the middle of a sequence steps back: with text typed in, only
/// that text goes and the pending input stays; with no text, the last token
/// of the pending input goes. Nothing else changes.
pub proof fn lemma_escape_steps_back(
    s: StateView,
    windows: Seq<Window>,
    table: Seq<(Seq<InputView>, Command)>,
    keymod: Mod,
)
    requires
        s.input.len() > 0,
    ensures
        s.input_buffer.len() > 0 ==> key_pressed(s, windows, table, Keycode::Escape, keymod).state
            == (StateView { input_buffer: Seq::empty(), ..s }),
        s.input_buffer.len() == 0 ==> key_pressed(s, windows, table, Keycode::Escape, keymod).state
            == (StateView { input: s.input.drop_last(), ..s }),
        key_pressed(s, windows, table, Keycode::Escape, keymod).windows == windows,
        key_pressed(s, windows, table, Keycode::Escape, keymod).outcome == Ok::<
            (bool, EffectView),
            CommandError,
        >((false, EffectView::Nothing)),
{
}

/// A key leaves the images, the palettes and the undo log alone, and
/// changes no window but in its scale: a well-formed state stays well
/// formed, and windows that can take the mouse still can.
pub proof fn lemma_key_keeps_well_formed(
    s: StateView,
    windows: Seq<Window>,
    table: Seq<(Seq<InputView>, Command)>,
    keycode: Keycode,
    keymod: Mod,
)
    requires
        s.wf(),
        all_usable(windows, s),
    ensures
        key_pressed(s, windows, table, keycode, keymod).state.wf(),
        all_usable(
            key_pressed(s, windows, table, keycode, keymod).windows,
            key_pressed(s, windows, table, keycode, keymod).state,
        ),
        key_pressed(s, windows, table, keycode, keymod).state.images == s.images,
        key_pressed(s, windows, table, keycode, keymod).state.undo_stack == s.undo_stack,
{
    let step = key_pressed(s, windows, table, keycode, keymod);
    assert forall|i: int| 0 <= i < step.windows.len() implies (#[trigger] step.windows[i]).usable(
        step.state,
    ) by {
        assert(windows[i].usable(s));
    }
}

/// The outcome of a key as a mathematical value.
pub open spec fn key_outcome_view(r: Result<(bool, Effect), CommandError>) -> Result<
    (bool, EffectView),
    CommandError,
> {
    match r {
        Ok((quit, effect)) => Ok((quit, effect@)),
        Err(e) => Err(e),
    }
}

/// Runs the interpreter and tells whether the editor is to quit.
fn run_round(state: &mut State, windows: &mut Vec<Window>, commands: &[(Vec<Input>, Command)]) -> (r:
    Result<(bool, Effect), CommandError>)
    ensures
        final(state)@ == key_round(executed(old(state)@, old(windows)@, table_view(commands@))).state,
        final(windows)@ == key_round(
            executed(old(state)@, old(windows)@, table_view(commands@)),
        ).windows,
        key_outcome_view(r) == key_round(
            executed(old(state)@, old(windows)@, table_view(commands@)),
        ).outcome,
{
    match execute_command(state, windows, commands) {
        Ok((CommandResult::Quit, effect)) => Ok((true, effect)),
        Ok((_, effect)) => Ok((false, effect)),
        Err(e) => Err(e),
    }
}

/// Takes a key. Returns whether the editor is to quit, and what is left to
/// do for the command that the key completed, if it completed one.
pub fn handle_key_down(
    state: &mut State,
    windows: &mut Vec<Window>,
    commands: &[(Vec<Input>, Command)],
    keycode: Keycode,
    keymod: Mod,
) -> (r: Result<(bool, Effect), CommandError>)
    ensures
        final(state)@ == key_pressed(
            old(state)@,
            old(windows)@,
            table_view(commands@),
            keycode,
            keymod,
        ).state,
        final(windows)@ == key_pressed(
            old(state)@,
            old(windows)@,
            table_view(commands@),
            keycode,
            keymod,
        ).windows,
        key_outcome_view(r) == key_pressed(
            old(state)@,
            old(windows)@,
            table_view(commands@),
            keycode,
            keymod,
        ).outcome,
{
    let ghost before = state@;
    if state.input.len() == 0 {
        // every command begins with a single key
        state.input.push(Input::Char(keycode, keymod));
        assert(state@.input =~= seq![InputView::Char(keycode, keymod)]);
        return run_round(state, windows, commands);
    }
    if keycode == Keycode::Backspace {
        state.input_buffer.pop();
    } else if keycode == Keycode::Escape {
        // clear the text typed in, or step back by one token
        if !state.input_buffer.as_str().is_empty() {
            state.input_buffer = String::new();
        } else {
            state.input.pop();
            assert(state@.input =~= before.input.drop_last());
        }
    } else if keycode == Keycode::Return {
        let (token, arg) = parse_input(state.input_buffer.as_str());
        state.input.push(token);
        if let Some(arg) = arg {
            state.args.push(arg);
        }
        state.input_buffer = String::new();
        proof {
            assert(state@.input =~= confirmed(before).input);
            assert(state@.args =~= confirmed(before).args);
        }
        return run_round(state, windows, commands);
    } else {
        if let Some(c) = keycode_to_char(keycode) {
            state.input_buffer.push(c);
        }
    }
    Ok((false, Effect::Nothing))
}

/// The windows that the editor starts with.
pub open spec fn initial_windows() -> Seq<Window> {
    seq![
        Window::Drawing(
            DrawingWindow {
                x: 50,
                y: 50,
                scale: 8,
                background: Color::RGB(100, 100, 100),
                image_id: 0,
            },
        ),
        Window::Preview(
            PreviewWindow(
                DrawingWindow {
                    x: 400,
                    y: 50,
                    scale: 1,
                    background: Color::RGB(50, 50, 50),
                    image_id: 0,
                },
            ),
        ),
        Window::Drawing(
            DrawingWindow {
                x: 400,
                y: 400,
                scale: 2,
                background: Color::RGB(50, 50, 50),
                image_id: 0,
            },
        ),
        Window::Palette(PaletteWindow { x: 400, y: 100, palette_id: 0 }),
        Window::Status(
            StatusWindow {
                height: 40,
                background_color: Color::RGB(240, 210, 120),
                font_color: Color::RGB(40, 40, 40),
            },
        ),
    ]
}

/// The windows that the editor starts with.
pub fn initialize_windows() -> (windows: Vec<Window>)
    ensures
        windows@ == initial_windows(),
{
    let gray = Color::RGB(50, 50, 50);
    let lighter_gray = Color::RGB(100, 100, 100);
    let mut windows: Vec<Window> = Vec::new();
    windows.push(Window::Drawing(DrawingWindow::new(50, 50, 8, lighter_gray, 0)));
    windows.push(Window::Preview(PreviewWindow(DrawingWindow::new(400, 50, 1, gray, 0))));
    windows.push(Window::Drawing(DrawingWindow::new(400, 400, 2, gray, 0)));
    windows.push(Window::Palette(PaletteWindow { x: 400, y: 100, palette_id: 0 }));
    windows.push(Window::Status(StatusWindow::new()));
    windows
}

} // verus!
