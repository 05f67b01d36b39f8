//! The command interpreter, very much inspired by emacs. A command such as
//! `M-x set-color RET rgb 1,2,3 RET` is a sequence of tokens: a key chord,
//! an exact phrase, and a colour.

use crate::color::Color;
use crate::image_buffer::SaveImageError;
use crate::state::{State, StateView};
use crate::text::{chars_of, isize_literal, parse_isize};
use crate::util::{color_literal, color_of_chars};
use crate::windows::Window;
use vstd::prelude::*;

pub mod commands;

verus! {

/// A key of the keyboard.
#[derive(Clone, Copy, Debug, PartialEq, Eq, Structural)]
pub enum Keycode {
    A,
    B,
    C,
    D,
    E,
    F,
    G,
    H,
    I,
    J,
    K,
    L,
    M,
    N,
    O,
    P,
    Q,
    R,
    S,
    T,
    U,
    V,
    W,
    X,
    Y,
    Z,
    Num0,
    Num1,
    Num2,
    Num3,
    Num4,
    Num5,
    Num6,
    Num7,
    Num8,
    Num9,
    Quote,
    Minus,
    Space,
    Comma,
    Slash,
    Period,
    Backspace,
    Escape,
    Return,
    /// Any other key, by the code that the window system gives it.
    Other(i32),
}

/// The modifier keys held down with a key, as a set of bits.
pub type Mod = u16;

/// No modifier key.
pub const NOMOD: Mod = 0x0000;

/// The left shift key.
pub const LSHIFTMOD: Mod = 0x0001;

/// The right shift key.
pub const RSHIFTMOD: Mod = 0x0002;

/// The left control key.
pub const LCTRLMOD: Mod = 0x0040;

/// The right control key.
pub const RCTRLMOD: Mod = 0x0080;

/// The left alt key.
pub const LALTMOD: Mod = 0x0100;

/// The right alt key.
pub const RALTMOD: Mod = 0x0200;

/// The left GUI key.
pub const LGUIMOD: Mod = 0x0400;

/// The right GUI key.
pub const RGUIMOD: Mod = 0x0800;

/// Num lock.
pub const NUMMOD: Mod = 0x1000;

/// Caps lock.
pub const CAPSMOD: Mod = 0x2000;

/// The mode key.
pub const MODEMOD: Mod = 0x4000;

/// One unit of a command: a key chord, the place of an argument, or an exact
/// phrase.
#[derive(Debug)]
pub enum Input {
    Char(Keycode, Mod),
    Integer,
    Color,
    String,
    Exact(String),
}

/// An `Input` as a mathematical value.
pub enum InputView {
    Char(Keycode, Mod),
    Integer,
    Color,
    String,
    Exact(Seq<char>),
}

impl View for Input {
    type V = InputView;

    open spec fn view(&self) -> InputView {
        match self {
            Input::Char(keycode, modifier) => InputView::Char(*keycode, *modifier),
            Input::Integer => InputView::Integer,
            Input::Color => InputView::Color,
            Input::String => InputView::String,
            Input::Exact(phrase) => InputView::Exact(phrase@),
        }
    }
}

impl PartialEq for Input {
    /// Two tokens are equal if they are of one kind and hold the same key and
    /// modifiers, or the same phrase.
    fn eq(&self, other: &Input) -> (r: bool) {
        match (self, other) {
            (Input::Char(k1, m1), Input::Char(k2, m2)) => *k1 == *k2 && *m1 == *m2,
            (Input::Integer, Input::Integer) => true,
            (Input::Color, Input::Color) => true,
            (Input::String, Input::String) => true,
            (Input::Exact(a), Input::Exact(b)) => *a == *b,
            _ => false,
        }
    }
}

impl vstd::std_specs::cmp::PartialEqSpecImpl for Input {
    open spec fn obeys_eq_spec() -> bool {
        true
    }

    open spec fn eq_spec(&self, other: &Input) -> bool {
        self@ == other@
    }
}

/// A value typed in for a command.
#[derive(Debug, PartialEq, Eq)]
pub enum Arg {
    String(String),
    Integer(isize),
    Color(Color),
}

/// An `Arg` as a mathematical value.
pub enum ArgView {
    String(Seq<char>),
    Integer(isize),
    Color(Color),
}

impl View for Arg {
    type V = ArgView;

    open spec fn view(&self) -> ArgView {
        match self {
            Arg::String(text) => ArgView::String(text@),
            Arg::Integer(n) => ArgView::Integer(*n),
            Arg::Color(color) => ArgView::Color(*color),
        }
    }
}

/// An argument was not of the kind that was asked for.
#[derive(Clone, Copy, Debug, PartialEq, Eq, Structural)]
pub enum CoerceError {
    ExpectedString,
    ExpectedColor,
    ExpectedInteger,
}

impl Arg {
    /// The text of a `String` argument.
    pub fn try_coerce_string(&self) -> (r: Result<String, CoerceError>)
        ensures
            match r {
                Ok(text) => self@ == ArgView::String(text@),
                Err(e) => !(self is String) && e == CoerceError::ExpectedString,
            },
    {
        match self {
            Arg::String(text) => Ok(text.clone()),
            _ => Err(CoerceError::ExpectedString),
        }
    }

    /// The colour of a `Color` argument.
    pub fn try_coerce_color(&self) -> (r: Result<Color, CoerceError>)
        ensures
            match r {
                Ok(color) => self@ == ArgView::Color(color),
                Err(e) => !(self is Color) && e == CoerceError::ExpectedColor,
            },
    {
        match self {
            Arg::Color(color) => Ok(*color),
            _ => Err(CoerceError::ExpectedColor),
        }
    }

    /// The number of an `Integer` argument.
    pub fn try_coerce_integer(&self) -> (r: Result<isize, CoerceError>)
        ensures
            match r {
                Ok(n) => self@ == ArgView::Integer(n),
                Err(e) => !(self is Integer) && e == CoerceError::ExpectedInteger,
            },
    {
        match self {
            Arg::Integer(n) => Ok(*n),
            _ => Err(CoerceError::ExpectedInteger),
        }
    }

    /// The text of an argument that is known to be a `String`.
    pub fn coerce_string(&self) -> (text: String)
        requires
            self is String,
        ensures
            self@ == ArgView::String(text@),
    {
        match self {
            Arg::String(text) => text.clone(),
            _ => String::new(),
        }
    }

    /// The colour of an argument that is known to be a `Color`.
    pub fn coerce_color(&self) -> (color: Color)
        requires
            self is Color,
        ensures
            self@ == ArgView::Color(color),
    {
        match self {
            Arg::Color(color) => *color,
            _ => Color::RGB(0, 0, 0),
        }
    }

    /// The number of an argument that is known to be an `Integer`.
    pub fn coerce_integer(&self) -> (n: isize)
        requires
            self is Integer,
        ensures
            self@ == ArgView::Integer(n),
    {
        match self {
            Arg::Integer(n) => *n,
            _ => 0,
        }
    }
}

/// The operations that a command can name.
#[derive(Copy, Clone, Debug, PartialEq, Eq, Structural)]
pub enum Command {
    ExportPng,
    Print,
    Quit,
    SetColor,
    ZoomIn,
    ZoomOut,
}

/// Why no command came out of the input so far.
#[derive(Copy, Clone, Debug, PartialEq, Eq, Structural)]
pub enum InterpretErr {
    NoValidCommand,
    RequiresMoreInput,
}

/// How a round of the interpreter ended.
#[derive(Copy, Clone, Debug, PartialEq, Eq, Structural)]
pub enum CommandResult {
    Quit,
    RequiresMoreInput,
    NoValidCommand,
    Success,
    /// The command has run as far as the library goes, and has not
    /// succeeded yet: whether it does is decided by what it left to do.
    Pending,
}

/// The character that a key types into the text buffer, if it types one.
pub open spec fn key_char(keycode: Keycode) -> Option<char> {
    match keycode {
        Keycode::A => Some('a'),
        Keycode::B => Some('b'),
        Keycode::C => Some('c'),
        Keycode::D => Some('d'),
        Keycode::E => Some('e'),
        Keycode::F => Some('f'),
        Keycode::G => Some('g'),
        Keycode::H => Some('h'),
        Keycode::I => Some('i'),
        Keycode::J => Some('j'),
        Keycode::K => Some('k'),
        Keycode::L => Some('l'),
        Keycode::M => Some('m'),
        Keycode::N => Some('n'),
        Keycode::O => Some('o'),
        Keycode::P => Some('p'),
        Keycode::Q => Some('q'),
        Keycode::R => Some('r'),
        Keycode::S => Some('s'),
        Keycode::T => Some('t'),
        Keycode::U => Some('u'),
        Keycode::V => Some('v'),
        Keycode::W => Some('w'),
        Keycode::X => Some('x'),
        Keycode::Y => Some('y'),
        Keycode::Z => Some('z'),
        Keycode::Quote => Some('\''),
        Keycode::Minus => Some('-'),
        Keycode::Space => Some(' '),
        Keycode::Comma => Some(','),
        Keycode::Slash => Some('/'),
        Keycode::Period => Some('.'),
        Keycode::Num0 => Some('0'),
        Keycode::Num1 => Some('1'),
        Keycode::Num2 => Some('2'),
        Keycode::Num3 => Some('3'),
        Keycode::Num4 => Some('4'),
        Keycode::Num5 => Some('5'),
        Keycode::Num6 => Some('6'),
        Keycode::Num7 => Some('7'),
        Keycode::Num8 => Some('8'),
        Keycode::Num9 => Some('9'),
        _ => None,
    }
}

/// The character that a key types into the text buffer, if it types one.
#[verifier::when_used_as_spec(key_char)]
pub fn keycode_to_char(keycode: Keycode) -> (r: Option<char>)
    ensures
        r == key_char(keycode),
{
    match keycode {
        Keycode::A => Some('a'),
        Keycode::B => Some('b'),
        Keycode::C => Some('c'),
        Keycode::D => Some('d'),
        Keycode::E => Some('e'),
        Keycode::F => Some('f'),
        Keycode::G => Some('g'),
        Keycode::H => Some('h'),
        Keycode::I => Some('i'),
        Keycode::J => Some('j'),
        Keycode::K => Some('k'),
        Keycode::L => Some('l'),
        Keycode::M => Some('m'),
        Keycode::N => Some('n'),
        Keycode::O => Some('o'),
        Keycode::P => Some('p'),
        Keycode::Q => Some('q'),
        Keycode::R => Some('r'),
        Keycode::S => Some('s'),
        Keycode::T => Some('t'),
        Keycode::U => Some('u'),
        Keycode::V => Some('v'),
        Keycode::W => Some('w'),
        Keycode::X => Some('x'),
        Keycode::Y => Some('y'),
        Keycode::Z => Some('z'),
        Keycode::Quote => Some('\''),
        Keycode::Minus => Some('-'),
        Keycode::Space => Some(' '),
        Keycode::Comma => Some(','),
        Keycode::Slash => Some('/'),
        Keycode::Period => Some('.'),
        Keycode::Num0 => Some('0'),
        Keycode::Num1 => Some('1'),
        Keycode::Num2 => Some('2'),
        Keycode::Num3 => Some('3'),
        Keycode::Num4 => Some('4'),
        Keycode::Num5 => Some('5'),
        Keycode::Num6 => Some('6'),
        Keycode::Num7 => Some('7'),
        Keycode::Num8 => Some('8'),
        Keycode::Num9 => Some('9'),
        _ => None,
    }
}

/// The text between the quotation marks, if `s` stands between two of them.
pub open spec fn quoted(s: Seq<char>) -> Option<Seq<char>> {
    if s.len() > 1 && s.first() == '\'' && s.last() == '\'' {
        Some(s.subrange(1, s.len() - 1))
    } else {
        None
    }
}

/// The characters of `chars` from `from` up to `to`, as a string.
pub fn string_of(chars: &[char], from: usize, to: usize) -> (text: String)
    requires
        from <= to <= chars@.len(),
    ensures
        text@ == chars@.subrange(from as int, to as int),
{
    let mut text = String::new();
    let mut i: usize = from;
    while i < to
        invariant
            from <= i <= to <= chars@.len(),
            text@ == chars@.subrange(from as int, i as int),
        decreases to - i,
    {
        text.push(chars[i]);
        i += 1;
    }
    text
}

/// A text in quotation marks out of the characters typed in.
fn string_of_chars(chars: &[char]) -> (r: Option<String>)
    ensures
        match r {
            Some(text) => quoted(chars@) == Some(text@),
            None => quoted(chars@).is_none(),
        },
{
    let n: usize = chars.len();
    if n > 1 && chars[0] == '\'' && chars[n - 1] == '\'' {
        Some(string_of(chars, 1, n - 1))
    } else {
        None
    }
}

/// Reads a text in quotation marks, and takes the marks off.
pub fn parse_string(input: &str) -> (r: Option<String>)
    ensures
        match r {
            Some(text) => quoted(input@) == Some(text@),
            None => quoted(input@).is_none(),
        },
{
    let chars = chars_of(input);
    string_of_chars(chars.as_slice())
}

/// The token that a text stands for, and the argument that comes with it.
/// A number is tried first, then a quoted text, then a colour; any other
/// text is an exact phrase.
pub open spec fn parsed(s: Seq<char>) -> (InputView, Option<ArgView>) {
    if let Some(n) = isize_literal(s) {
        (InputView::Integer, Some(ArgView::Integer(n)))
    } else if let Some(text) = quoted(s) {
        (InputView::String, Some(ArgView::String(text)))
    } else if let Some(color) = color_literal(s) {
        (InputView::Color, Some(ArgView::Color(color)))
    } else {
        (InputView::Exact(s), None)
    }
}

/// An argument, if there is one, as a mathematical value.
pub open spec fn arg_view(arg: Option<Arg>) -> Option<ArgView> {
    match arg {
        Some(a) => Some(a@),
        None => None,
    }
}

/// Parses the text typed in. If it is an argument, returns that too.
pub fn parse_input(input: &str) -> (r: (Input, Option<Arg>))
    ensures
        (r.0@, arg_view(r.1)) == parsed(input@),
{
    let chars = chars_of(input);
    if let Some(n) = parse_isize(chars.as_slice()) {
        (Input::Integer, Some(Arg::Integer(n)))
    } else if let Some(text) = string_of_chars(chars.as_slice()) {
        (Input::String, Some(Arg::String(text)))
    } else if let Some(color) = color_of_chars(chars.as_slice()) {
        (Input::Color, Some(Arg::Color(color)))
    } else {
        assert(chars@.subrange(0, chars@.len() as int) =~= chars@);
        (Input::Exact(string_of(chars.as_slice(), 0, chars.len())), None)
    }
}

/// The tokens of a sequence as mathematical values.
pub open spec fn token_views(tokens: Seq<Input>) -> Seq<InputView> {
    tokens.map_values(|t: Input| t@)
}

/// A command table as a mathematical value: the bindings in order, each a
/// sequence of tokens and the command that it calls.
pub open spec fn table_view(commands: Seq<(Vec<Input>, Command)>) -> Seq<
    (Seq<InputView>, Command),
> {
    commands.map_values(|b: (Vec<Input>, Command)| (token_views(b.0@), b.1))
}

/// The chord that opens a command by name.
pub open spec fn meta_x() -> InputView {
    InputView::Char(Keycode::X, LALTMOD)
}

/// The bindings that the editor starts with.
pub open spec fn default_table() -> Seq<(Seq<InputView>, Command)> {
    seq![
        (seq![InputView::Char(Keycode::S, LCTRLMOD)], Command::ExportPng),
        (
            seq![meta_x(), InputView::Exact("export-png"@), InputView::String],
            Command::ExportPng,
        ),
        (seq![InputView::Char(Keycode::Q, LCTRLMOD)], Command::Quit),
        (seq![meta_x(), InputView::Exact("quit"@)], Command::Quit),
        (seq![meta_x(), InputView::Exact("print"@), InputView::String], Command::Print),
        (seq![meta_x(), InputView::Exact("set-color"@), InputView::Color], Command::SetColor),
        (seq![InputView::Char(Keycode::W, NOMOD)], Command::ZoomOut),
        (seq![InputView::Char(Keycode::F, NOMOD)], Command::ZoomIn),
    ]
}

/// A binding of one chord.
fn chord(keycode: Keycode, modifier: Mod, command: Command) -> (b: (Vec<Input>, Command))
    ensures
        token_views(b.0@) == seq![InputView::Char(keycode, modifier)],
        b.1 == command,
{
    let mut tokens: Vec<Input> = Vec::new();
    tokens.push(Input::Char(keycode, modifier));
    (tokens, command)
}

/// A binding of a command called by name, with the argument that follows
/// the name, if one does.
fn named(name: &str, argument: Option<Input>, command: Command) -> (b: (Vec<Input>, Command))
    ensures
        token_views(b.0@) == match argument {
            Some(a) => seq![meta_x(), InputView::Exact(name@), a@],
            None => seq![meta_x(), InputView::Exact(name@)],
        },
        b.1 == command,
{
    let mut tokens: Vec<Input> = Vec::new();
    tokens.push(Input::Char(Keycode::X, LALTMOD));
    tokens.push(Input::Exact(String::from_str(name)));
    match argument {
        Some(a) => {
            tokens.push(a);
        },
        None => {
        },
    }
    (tokens, command)
}

/// The bindings that the editor starts with.
pub fn get_commands() -> (commands: Vec<(Vec<Input>, Command)>)
    ensures
        table_view(commands@) == default_table(),
{
    let mut commands: Vec<(Vec<Input>, Command)> = Vec::new();
    commands.push(chord(Keycode::S, LCTRLMOD, Command::ExportPng));
    commands.push(named("export-png", Some(Input::String), Command::ExportPng));
    commands.push(chord(Keycode::Q, LCTRLMOD, Command::Quit));
    commands.push(named("quit", None, Command::Quit));
    commands.push(named("print", Some(Input::String), Command::Print));
    commands.push(named("set-color", Some(Input::Color), Command::SetColor));
    commands.push(chord(Keycode::W, NOMOD, Command::ZoomOut));
    commands.push(chord(Keycode::F, NOMOD, Command::ZoomIn));
    commands
}

/// What the interpreter makes of `input` under the bindings of `table`. The
/// first binding that is the input token for token gives its command. With no
/// such binding, the input waits for more if it begins a binding, and is no
/// command if it begins none.
pub open spec fn interpret(table: Seq<(Seq<InputView>, Command)>, input: Seq<InputView>) -> Result<
    Command,
    InterpretErr,
>
    decreases table.len(),
{
    if table.len() == 0 {
        Err(InterpretErr::NoValidCommand)
    } else if table[0].0 == input {
        Ok(table[0].1)
    } else {
        match interpret(table.skip(1), input) {
            Ok(command) => Ok(command),
            Err(e) => if input.is_prefix_of(table[0].0) {
                Err(InterpretErr::RequiresMoreInput)
            } else {
                Err(e)
            },
        }
    }
}

/// A command that the interpreter gives is the command of a binding that
/// the input is, token for token; and input that waits for more begins a
/// binding.
pub proof fn lemma_interpret_is_bound(table: Seq<(Seq<InputView>, Command)>, input: Seq<InputView>)
    ensures
        interpret(table, input) matches Ok(command) ==> exists|i: int|
            0 <= i < table.len() && #[trigger] table[i] == (input, command),
        interpret(table, input) == Err::<Command, InterpretErr>(InterpretErr::RequiresMoreInput)
            ==> exists|i: int| 0 <= i < table.len() && input.is_prefix_of((#[trigger] table[i]).0),
    decreases table.len(),
{
    if table.len() > 0 {
        let rest = table.skip(1);
        lemma_interpret_is_bound(rest, input);
        if table[0].0 != input {
            match interpret(rest, input) {
                Ok(command) => {
                    let i = choose|i: int| 0 <= i < rest.len() && #[trigger] rest[i] == (input, command);
                    assert(table[i + 1] == rest[i]);
                },
                Err(e) => {
                    if !input.is_prefix_of(table[0].0) && e == InterpretErr::RequiresMoreInput {
                        let i = choose|i: int|
                            0 <= i < rest.len() && input.is_prefix_of((#[trigger] rest[i]).0);
                        assert(table[i + 1] == rest[i]);
                    }
                },
            }
        }
    }
}

/// Input that is a binding, token for token, calls a command.
pub proof fn lemma_binding_is_command(
    table: Seq<(Seq<InputView>, Command)>,
    input: Seq<InputView>,
    i: int,
)
    requires
        0 <= i < table.len(),
        table[i].0 == input,
    ensures
        interpret(table, input).is_ok(),
    decreases table.len(),
{
    if table[0].0 != input {
        assert(table.skip(1)[i - 1] == table[i]);
        lemma_binding_is_command(table.skip(1), input, i - 1);
    }
}

/// Input that no binding is, token for token, calls no command.
pub proof fn lemma_no_binding_no_command(table: Seq<(Seq<InputView>, Command)>, input: Seq<InputView>)
    requires
        forall|j: int| 0 <= j < table.len() ==> (#[trigger] table[j]).0 != input,
    ensures
        interpret(table, input).is_err(),
    decreases table.len(),
{
    if table.len() > 0 {
        let rest = table.skip(1);
        assert forall|j: int| 0 <= j < rest.len() implies (#[trigger] rest[j]).0 != input by {
        }
        lemma_no_binding_no_command(rest, input);
    }
}

/// Input that is a binding, token for token, calls the command of that
/// binding, where no earlier binding is the same input.
pub proof fn lemma_exact_binding_matches(
    table: Seq<(Seq<InputView>, Command)>,
    input: Seq<InputView>,
    i: int,
)
    requires
        0 <= i < table.len(),
        table[i].0 == input,
        forall|j: int| 0 <= j < i ==> (#[trigger] table[j]).0 != input,
    ensures
        interpret(table, input) == Ok::<Command, InterpretErr>(table[i].1),
    decreases table.len(),
{
    if i > 0 {
        let rest = table.skip(1);
        assert forall|j: int| 0 <= j < i - 1 implies (#[trigger] rest[j]).0 != input by {
        }
        lemma_exact_binding_matches(rest, input, i - 1);
    }
}

/// Input that begins a binding and is no binding itself waits for more.
pub proof fn lemma_proper_prefix_needs_more(
    table: Seq<(Seq<InputView>, Command)>,
    input: Seq<InputView>,
    i: int,
)
    requires
        0 <= i < table.len(),
        input.is_prefix_of(table[i].0),
        forall|j: int| 0 <= j < table.len() ==> (#[trigger] table[j]).0 != input,
    ensures
        interpret(table, input) == Err::<Command, InterpretErr>(InterpretErr::RequiresMoreInput),
    decreases table.len(),
{
    let rest = table.skip(1);
    assert forall|j: int| 0 <= j < rest.len() implies (#[trigger] rest[j]).0 != input by {
    }
    lemma_no_binding_no_command(rest, input);
    if i > 0 {
        lemma_proper_prefix_needs_more(rest, input, i - 1);
    }
}

/// Input that begins no binding is no command.
pub proof fn lemma_no_prefix_no_match(table: Seq<(Seq<InputView>, Command)>, input: Seq<InputView>)
    requires
        forall|j: int| 0 <= j < table.len() ==> !input.is_prefix_of((#[trigger] table[j]).0),
    ensures
        interpret(table, input) == Err::<Command, InterpretErr>(InterpretErr::NoValidCommand),
    decreases table.len(),
{
    if table.len() > 0 {
        let rest = table.skip(1);
        assert(input.is_prefix_of(input)) by {
        }
        assert forall|j: int| 0 <= j < rest.len() implies !input.is_prefix_of(
            (#[trigger] rest[j]).0,
        ) by {
        }
        lemma_no_prefix_no_match(rest, input);
    }
}

/// Whether `input` is how `tokens` begins.
fn begins(input: &[Input], tokens: &[Input]) -> (r: bool)
    ensures
        r == token_views(input@).is_prefix_of(token_views(tokens@)),
{
    if input.len() > tokens.len() {
        return false;
    }
    let mut i: usize = 0;
    while i < input.len()
        invariant
            i <= input@.len() <= tokens@.len(),
            forall|j: int| 0 <= j < i ==> input@[j]@ == tokens@[j]@,
        decreases input@.len() - i,
    {
        if input[i] != tokens[i] {
            assert(token_views(input@)[i as int] != token_views(tokens@)[i as int]);
            return false;
        }
        i += 1;
    }
    true
}

/// Interprets the given input to see if there is a matching command.
/// Returns the command, or whether more input is required, or whether no
/// command is possible for the input so far.
pub fn interpret_input(input: &[Input], commands: &[(Vec<Input>, Command)]) -> (r: Result<
    Command,
    InterpretErr,
>)
    ensures
        r == interpret(table_view(commands@), token_views(input@)),
{
    let ghost table = table_view(commands@);
    let ghost tokens = token_views(input@);
    let mut has_match = false;
    let mut i: usize = 0;
    assert(table.skip(0) =~= table);
    while i < commands.len()
        invariant
            i <= commands@.len(),
            table == table_view(commands@),
            tokens == token_views(input@),
            interpret(table, tokens) == match interpret(table.skip(i as int), tokens) {
                Ok(command) => Ok::<Command, InterpretErr>(command),
                Err(e) => if has_match {
                    Err(InterpretErr::RequiresMoreInput)
                } else {
                    Err(e)
                },
            },
        decreases commands@.len() - i,
    {
        let ghost rest = table.skip(i as int);
        assert(rest.skip(1) =~= table.skip(i + 1));
        if begins(input, commands[i].0.as_slice()) {
            if input.len() == commands[i].0.len() {
                assert(tokens =~= table[i as int].0);
                return Ok(commands[i].1);
            }
            has_match = true;
        }
        i += 1;
    }
    if has_match {
        Err(InterpretErr::RequiresMoreInput)
    } else {
        Err(InterpretErr::NoValidCommand)
    }
}

/// What is left to do, outside the library, after a command has run.
#[derive(Debug, PartialEq, Eq)]
pub enum Effect {
    Nothing,
    /// The colour to draw with has been set: the operator may be told.
    ColorSet,
    /// The text is to be shown to the operator.
    Print(String),
    /// The first image is to be written, as a PNG file, under this name.
    /// The command is pending until then: `commands::export_bytes` gives
    /// the bytes to write, and `commands::export_result` the result of the
    /// command once it is known whether they were written.
    ExportPng(String),
}

/// An `Effect` as a mathematical value.
pub enum EffectView {
    Nothing,
    ColorSet,
    Print(Seq<char>),
    ExportPng(Seq<char>),
}

impl View for Effect {
    type V = EffectView;

    open spec fn view(&self) -> EffectView {
        match self {
            Effect::Nothing => EffectView::Nothing,
            Effect::ColorSet => EffectView::ColorSet,
            Effect::Print(text) => EffectView::Print(text@),
            Effect::ExportPng(path) => EffectView::ExportPng(path@),
        }
    }
}

/// Why the bytes of a file were not written.
#[derive(Copy, Clone, Debug, PartialEq, Eq, Structural)]
pub enum WriteFailure {
    /// The place to write to was not found.
    NotFound,
    /// Writing there is not permitted.
    PermissionDenied,
    /// Anything else that went wrong while writing.
    Other,
}

/// Why an export did not come about.
#[derive(Copy, Clone, Debug, PartialEq, Eq, Structural)]
pub enum ExportFailure {
    /// The image could not be turned into a PNG file.
    Encoding(SaveImageError),
    /// The file could not be written.
    Writing(WriteFailure),
}

/// Why a command failed. With the first four the command table and the
/// state do not fit the command, and it could not run; the pending input and
/// the arguments are cleared all the same. With the last the command ran,
/// and what it left to do did not come about.
#[derive(Copy, Clone, Debug, PartialEq, Eq, Structural)]
pub enum CommandError {
    /// The command takes an argument, and the stack is empty.
    MissingArgument,
    /// The argument on top of the stack is of another kind.
    Argument(CoerceError),
    /// There is no image to export.
    NoImage,
    /// There is no window to zoom.
    NoWindow,
    /// The export did not come about.
    Export(ExportFailure),
}

/// How a command ended and what is left to do, or why it could not run.
pub type Outcome = Result<(CommandResult, EffectView), CommandError>;

/// The state and the windows after a round of the interpreter, and how the
/// round ended.
pub struct Step {
    pub state: StateView,
    pub windows: Seq<Window>,
    pub outcome: Outcome,
}

/// What a command does.
pub open spec fn selected(s: StateView, windows: Seq<Window>, command: Command) -> Step {
    match command {
        Command::ExportPng => Step {
            state: commands::export_png_step(s).0,
            windows,
            outcome: commands::export_png_step(s).1,
        },
        Command::Quit => Step {
            state: s,
            windows,
            outcome: Ok((CommandResult::Quit, EffectView::Nothing)),
        },
        Command::Print => Step {
            state: commands::print_step(s).0,
            windows,
            outcome: commands::print_step(s).1,
        },
        Command::SetColor => Step {
            state: commands::set_color_step(s).0,
            windows,
            outcome: commands::set_color_step(s).1,
        },
        Command::ZoomIn => if s.window_index < windows.len() {
            Step {
                state: s,
                windows: windows.update(
                    s.window_index as int,
                    windows[s.window_index as int].zoomed_in(),
                ),
                outcome: Ok((CommandResult::Success, EffectView::Nothing)),
            }
        } else {
            Step { state: s, windows, outcome: Err(CommandError::NoWindow) }
        },
        Command::ZoomOut => if s.window_index < windows.len() {
            Step {
                state: s,
                windows: windows.update(
                    s.window_index as int,
                    windows[s.window_index as int].zoomed_out(),
                ),
                outcome: Ok((CommandResult::Success, EffectView::Nothing)),
            }
        } else {
            Step { state: s, windows, outcome: Err(CommandError::NoWindow) }
        },
    }
}

/// A command that leaves a file to write is pending, and no other command
/// is: no export has succeeded before its file is written.
pub proof fn lemma_export_is_pending(s: StateView, windows: Seq<Window>, command: Command)
    ensures
        selected(s, windows, command).outcome matches Ok((result, effect)) ==> {
            &&& effect is ExportPng <==> result == CommandResult::Pending
            &&& effect is ExportPng <==> command == Command::ExportPng
        },
        selected(s, windows, command).state.images == s.images,
{
}

/// The state with no pending input and no arguments.
pub open spec fn cleared(s: StateView) -> StateView {
    StateView { input: Seq::empty(), args: Seq::empty(), ..s }
}

/// What a round of the interpreter does with the pending input. A command
/// that the input calls is run, and the input and the arguments are cleared
/// after it, whether it could run or not. Input that calls no command and
/// begins none is cleared. Input that only begins a command is kept.
pub open spec fn executed(
    s: StateView,
    windows: Seq<Window>,
    table: Seq<(Seq<InputView>, Command)>,
) -> Step {
    match interpret(table, s.input) {
        Ok(command) => {
            let step = selected(s, windows, command);
            Step { state: cleared(step.state), ..step }
        },
        Err(InterpretErr::NoValidCommand) => Step {
            state: cleared(s),
            windows,
            outcome: Ok((CommandResult::NoValidCommand, EffectView::Nothing)),
        },
        Err(InterpretErr::RequiresMoreInput) => Step {
            state: s,
            windows,
            outcome: Ok((CommandResult::RequiresMoreInput, EffectView::Nothing)),
        },
    }
}

/// Runs a command.
pub fn select_command(state: &mut State, windows: &mut Vec<Window>, command: Command) -> (r: Result<
    (CommandResult, Effect),
    CommandError,
>)
    ensures
        final(state)@ == selected(old(state)@, old(windows)@, command).state,
        final(windows)@ == selected(old(state)@, old(windows)@, command).windows,
        commands::outcome_view(r) == selected(old(state)@, old(windows)@, command).outcome,
{
    match command {
        Command::ExportPng => commands::export_png(state),
        Command::Quit => Ok((CommandResult::Quit, Effect::Nothing)),
        Command::Print => commands::print(state),
        Command::SetColor => commands::set_color(state),
        Command::ZoomIn => {
            if state.window_index < windows.len() {
                windows[state.window_index].increment_scale();
                Ok((CommandResult::Success, Effect::Nothing))
            } else {
                Err(CommandError::NoWindow)
            }
        },
        Command::ZoomOut => {
            if state.window_index < windows.len() {
                windows[state.window_index].decrement_scale();
                Ok((CommandResult::Success, Effect::Nothing))
            } else {
                Err(CommandError::NoWindow)
            }
        },
    }
}

/// Empties the pending input and the argument stack.
fn clean_input_and_args(state: &mut State)
    ensures
        final(state)@ == cleared(old(state)@),
{
    state.args = Vec::new();
    state.input = Vec::new();
    assert(state@.args =~= Seq::<ArgView>::empty());
    assert(state@.input =~= Seq::<InputView>::empty());
}

/// Checks whether the pending input of the state is a command, and if so,
/// runs the command. If no command is possible from the input, clears the
/// input. Otherwise does nothing and awaits more input.
pub fn execute_command(
    state: &mut State,
    windows: &mut Vec<Window>,
    commands: &[(Vec<Input>, Command)],
) -> (r: Result<(CommandResult, Effect), CommandError>)
    ensures
        final(state)@ == executed(old(state)@, old(windows)@, table_view(commands@)).state,
        final(windows)@ == executed(old(state)@, old(windows)@, table_view(commands@)).windows,
        commands::outcome_view(r) == executed(
            old(state)@,
            old(windows)@,
            table_view(commands@),
        ).outcome,
{
    match interpret_input(state.input.as_slice(), commands) {
        Ok(command) => {
            let outcome = select_command(state, windows, command);
            clean_input_and_args(state);
            outcome
        },
        Err(InterpretErr::NoValidCommand) => {
            clean_input_and_args(state);
            Ok((CommandResult::NoValidCommand, Effect::Nothing))
        },
        Err(InterpretErr::RequiresMoreInput) => Ok((CommandResult::RequiresMoreInput, Effect::Nothing)),
    }
}

} // verus!
