use rusted_pixels::color::Color;
use rusted_pixels::input::{Arg, CoerceError, Input, Keycode, LALTMOD, LCTRLMOD, LSHIFTMOD, NOMOD};
use rusted_pixels::state::State;

fn exact(s: &str) -> Input {
    Input::Exact(String::from(s))
}

#[test]
fn nothing_typed_shows_one_space() {
    let state = State::new();
    assert_eq!(state.show_input_stack(), Ok(String::from(" ")));
}

#[test]
fn chords_show_their_modifier_and_key() {
    let mut state = State::new();
    state.input.push(Input::Char(Keycode::X, LALTMOD));
    assert_eq!(state.show_input_stack(), Ok(String::from("M-x  ")));
    state.input = vec![Input::Char(Keycode::S, LCTRLMOD)];
    assert_eq!(state.show_input_stack(), Ok(String::from("C-s  ")));
    state.input = vec![Input::Char(Keycode::W, NOMOD)];
    assert_eq!(state.show_input_stack(), Ok(String::from("w  ")));
    state.input = vec![Input::Char(Keycode::W, LSHIFTMOD)];
    assert_eq!(state.show_input_stack(), Ok(String::from("w  ")));
    state.input = vec![Input::Char(Keycode::W, LCTRLMOD | LALTMOD)];
    assert_eq!(state.show_input_stack(), Ok(String::from("w  ")));
    state.input = vec![Input::Char(Keycode::Escape, LCTRLMOD)];
    assert_eq!(state.show_input_stack(), Ok(String::from("C-   ")));
}

#[test]
fn the_text_typed_in_comes_last() {
    let mut state = State::new();
    state.input.push(Input::Char(Keycode::X, LALTMOD));
    state.input.push(exact("set-color"));
    state.input_buffer = String::from("rgb 1,");
    assert_eq!(state.show_input_stack(), Ok(String::from("M-x set-color  rgb 1,")));
}

#[test]
fn arguments_are_shown_in_the_place_of_their_tokens() {
    let mut state = State::new();
    state.input = vec![
        Input::Char(Keycode::X, LALTMOD),
        Input::Integer,
        exact("to"),
        Input::String,
        Input::Color,
        Input::Color,
        Input::Integer,
    ];
    state.args = vec![
        Arg::Integer(-15),
        Arg::String(String::from("a b")),
        Arg::Color(Color::RGB(1, 20, 255)),
        Arg::Color(Color::RGBA(0, 9, 10, 99)),
        Arg::Integer(0),
    ];
    state.input_buffer = String::from("x");
    assert_eq!(
        state.show_input_stack(),
        Ok(String::from("M-x -15 to a b rgb(1,20,255) rgb(0,9,10,99) 0  x"))
    );
}

#[test]
fn an_argument_that_is_missing_is_reported() {
    let mut state = State::new();
    state.input = vec![Input::Integer];
    assert_eq!(state.show_input_stack(), Err(CoerceError::ExpectedInteger));
    state.input = vec![Input::String];
    assert_eq!(state.show_input_stack(), Err(CoerceError::ExpectedString));
    state.input = vec![Input::Color];
    assert_eq!(state.show_input_stack(), Err(CoerceError::ExpectedColor));
    state.input = vec![Input::Integer, Input::Integer];
    state.args = vec![Arg::Integer(1)];
    assert_eq!(state.show_input_stack(), Err(CoerceError::ExpectedInteger));
}

#[test]
fn an_argument_of_another_kind_is_reported() {
    let mut state = State::new();
    state.input = vec![Input::Integer, Input::String];
    state.args = vec![Arg::Integer(1), Arg::Color(Color::RGB(0, 0, 0))];
    assert_eq!(state.show_input_stack(), Err(CoerceError::ExpectedString));
    state.args = vec![Arg::String(String::from("1")), Arg::String(String::from("2"))];
    assert_eq!(state.show_input_stack(), Err(CoerceError::ExpectedInteger));
    state.input = vec![Input::Color];
    assert_eq!(state.show_input_stack(), Err(CoerceError::ExpectedColor));
}

#[test]
fn arguments_beyond_the_tokens_are_not_shown() {
    let mut state = State::new();
    state.input = vec![exact("quit")];
    state.args = vec![Arg::Integer(1)];
    assert_eq!(state.show_input_stack(), Ok(String::from("quit  ")));
}
