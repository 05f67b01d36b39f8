//! Command tables that are well made: no two bindings of one sequence, and
//! every binding ending in what its command takes off the argument stack.

use crate::events::{confirmed, key_edit, key_pressed, KeyStep};
use crate::input::{
    default_table, executed, interpret, lemma_binding_is_command, lemma_exact_binding_matches,
    lemma_interpret_is_bound, table_view, token_views, Command, CommandError, EffectView, Input,
    InputView, InterpretErr, Keycode, Mod,
};
use crate::input::ArgView;
use crate::state::{initial_state, status_text, tokens_text, StateView};
use crate::windows::Window;
use vstd::prelude::*;

verus! {

/// Whether a token stands in the place of an argument.
pub open spec fn is_argument(token: InputView) -> bool {
    token is Integer || token is String || token is Color
}

/// Whether a binding fits its command: an argument stands only at the end
/// of the tokens, and the end is what the command takes off the stack. To
/// set the colour takes a colour, to print takes a text, and to export takes
/// the text that names the file, or nothing.
pub open spec fn binding_fits(tokens: Seq<InputView>, command: Command) -> bool {
    &&& forall|i: int| 0 <= i < tokens.len() - 1 ==> !is_argument(#[trigger] tokens[i])
    &&& match command {
        Command::SetColor => tokens.len() > 0 && tokens.last() is Color,
        Command::Print => tokens.len() > 0 && tokens.last() is String,
        Command::ExportPng => tokens.len() > 0 ==> tokens.last() is String || !is_argument(
            tokens.last(),
        ),
        _ => true,
    }
}

/// Whether every binding of the table fits its command.
pub open spec fn table_fits(table: Seq<(Seq<InputView>, Command)>) -> bool {
    forall|i: int| 0 <= i < table.len() ==> binding_fits((#[trigger] table[i]).0, table[i].1)
}

/// Whether no two bindings of the table are the same sequence of tokens.
pub open spec fn distinct_bindings(table: Seq<(Seq<InputView>, Command)>) -> bool {
    forall|i: int, j: int|
        0 <= i < j < table.len() ==> (#[trigger] table[i]).0 != (#[trigger] table[j]).0
}

/// Tells whether a token stands in the place of an argument.
fn stands_for_argument(token: &Input) -> (r: bool)
    ensures
        r == is_argument(token@),
{
    match token {
        Input::Integer => true,
        Input::String => true,
        Input::Color => true,
        _ => false,
    }
}

/// Tells whether a binding fits its command.
pub fn binding_is_fitting(tokens: &[Input], command: Command) -> (r: bool)
    ensures
        r == binding_fits(token_views(tokens@), command),
{
    let n: usize = tokens.len();
    if n == 0 {
        return match command {
            Command::SetColor => false,
            Command::Print => false,
            _ => true,
        };
    }
    let mut i: usize = 0;
    while i < n - 1
        invariant
            i <= n - 1,
            n == tokens@.len(),
            forall|j: int| 0 <= j < i ==> !is_argument(#[trigger] token_views(tokens@)[j]),
        decreases n - i,
    {
        if stands_for_argument(&tokens[i]) {
            assert(is_argument(token_views(tokens@)[i as int]));
            return false;
        }
        i += 1;
    }
    assert(token_views(tokens@).last() == tokens@[n - 1]@);
    match command {
        Command::SetColor => matches!(tokens[n - 1], Input::Color),
        Command::Print => matches!(tokens[n - 1], Input::String),
        Command::ExportPng => matches!(tokens[n - 1], Input::String) || !stands_for_argument(
            &tokens[n - 1],
        ),
        _ => true,
    }
}

/// Tells whether every binding of the table fits its command.
pub fn table_is_fitting(commands: &[(Vec<Input>, Command)]) -> (r: bool)
    ensures
        r == table_fits(table_view(commands@)),
{
    let mut i: usize = 0;
    while i < commands.len()
        invariant
            i <= commands@.len(),
            forall|j: int|
                0 <= j < i ==> binding_fits(
                    (#[trigger] table_view(commands@)[j]).0,
                    table_view(commands@)[j].1,
                ),
        decreases commands@.len() - i,
    {
        if !binding_is_fitting(commands[i].0.as_slice(), commands[i].1) {
            assert(!binding_fits(table_view(commands@)[i as int].0, table_view(commands@)[i as int].1));
            return false;
        }
        i += 1;
    }
    true
}

/// Tells whether two sequences of tokens are the same.
fn same_tokens(a: &[Input], b: &[Input]) -> (r: bool)
    ensures
        r == (token_views(a@) == token_views(b@)),
{
    if a.len() != b.len() {
        assert(token_views(a@).len() != token_views(b@).len());
        return false;
    }
    let mut i: usize = 0;
    while i < a.len()
        invariant
            i <= a@.len(),
            a@.len() == b@.len(),
            forall|j: int| 0 <= j < i ==> a@[j]@ == b@[j]@,
        decreases a@.len() - i,
    {
        if a[i] != b[i] {
            assert(token_views(a@)[i as int] != token_views(b@)[i as int]);
            return false;
        }
        i += 1;
    }
    assert(token_views(a@) =~= token_views(b@));
    true
}

/// Tells whether no two bindings of the table are the same sequence of
/// tokens.
pub fn bindings_are_distinct(commands: &[(Vec<Input>, Command)]) -> (r: bool)
    ensures
        r == distinct_bindings(table_view(commands@)),
{
    let ghost table = table_view(commands@);
    let n: usize = commands.len();
    let mut j: usize = 0;
    while j < n
        invariant
            j <= n,
            n == commands@.len(),
            table == table_view(commands@),
            forall|a: int, b: int| 0 <= a < b < j ==> (#[trigger] table[a]).0 != (#[trigger] table[b]).0,
        decreases n - j,
    {
        let mut i: usize = 0;
        while i < j
            invariant
                i <= j < n,
                n == commands@.len(),
                table == table_view(commands@),
                forall|a: int| 0 <= a < i ==> (#[trigger] table[a]).0 != table[j as int].0,
            decreases j - i,
        {
            if same_tokens(commands[i].0.as_slice(), commands[j].0.as_slice()) {
                assert(table[i as int].0 == table[j as int].0);
                return false;
            }
            i += 1;
        }
        j += 1;
    }
    true
}

/// In a table without two bindings of one sequence, every binding calls
/// its own command.
pub proof fn lemma_every_binding_matches(table: Seq<(Seq<InputView>, Command)>, i: int)
    requires
        distinct_bindings(table),
        0 <= i < table.len(),
    ensures
        interpret(table, table[i].0) == Ok::<Command, InterpretErr>(table[i].1),
{
    lemma_exact_binding_matches(table, table[i].0, i);
}

/// The table that the editor starts with is well made.
pub proof fn lemma_default_table_is_well_made()
    ensures
        table_fits(default_table()),
        distinct_bindings(default_table()),
{
    let table = default_table();
    reveal_strlit("export-png");
    reveal_strlit("quit");
    reveal_strlit("print");
    reveal_strlit("set-color");
    assert("export-png"@.len() == 10 && "quit"@.len() == 4 && "print"@.len() == 5 && "set-color"@.len()
        == 9);
    assert(binding_fits(table[0].0, table[0].1));
    assert(binding_fits(table[1].0, table[1].1));
    assert(binding_fits(table[2].0, table[2].1));
    assert(binding_fits(table[3].0, table[3].1));
    assert(binding_fits(table[4].0, table[4].1));
    assert(binding_fits(table[5].0, table[5].1));
    assert(binding_fits(table[6].0, table[6].1));
    assert(binding_fits(table[7].0, table[7].1));
    assert forall|i: int, j: int| 0 <= i < j < table.len() implies (#[trigger] table[i]).0 != (
    #[trigger] table[j]).0 by {
        if table[i].0.len() == table[j].0.len() {
            if table[i].0.len() == 1 {
                assert(table[i].0[0] != table[j].0[0]);
            } else {
                assert(table[i].0[1] != table[j].0[1]);
            }
        }
    }
}

/// Whether nothing in the state stands for an argument: the stack is
/// empty, and no pending token is the place of an argument.
pub open spec fn no_arguments(s: StateView) -> bool {
    &&& s.args.len() == 0
    &&& forall|i: int| 0 <= i < s.input.len() ==> !is_argument(#[trigger] s.input[i])
}

/// Whether the state is ready for a round of the interpreter with a table
/// that fits: only the last pending token may be the place of an argument,
/// and then the stack holds that argument and nothing else.
pub open spec fn ready_for_round(t: StateView) -> bool {
    &&& t.input.len() > 0
    &&& forall|i: int| 0 <= i < t.input.len() - 1 ==> !is_argument(#[trigger] t.input[i])
    &&& match t.input.last() {
        InputView::Integer => t.args.len() == 1 && t.args[0] is Integer,
        InputView::String => t.args.len() == 1 && t.args[0] is String,
        InputView::Color => t.args.len() == 1 && t.args[0] is Color,
        _ => t.args.len() == 0,
    }
}

/// Whether a command could not run for want of the right argument.
pub open spec fn failed_on_argument(outcome: Result<(bool, EffectView), CommandError>) -> bool {
    outcome matches Err(e) && (e is MissingArgument || e is Argument)
}

/// With a table that fits, a round of the interpreter finds the argument
/// that its command takes, and leaves nothing behind when it is over.
proof fn lemma_round_finds_argument(
    t: StateView,
    windows: Seq<Window>,
    table: Seq<(Seq<InputView>, Command)>,
)
    requires
        table_fits(table),
        ready_for_round(t),
    ensures
        !(executed(t, windows, table).outcome matches Err(e) && (e is MissingArgument
            || e is Argument)),
        no_arguments(executed(t, windows, table).state),
{
    lemma_interpret_is_bound(table, t.input);
    match interpret(table, t.input) {
        Ok(command) => {
            let i = choose|i: int| 0 <= i < table.len() && #[trigger] table[i] == (t.input, command);
            assert(binding_fits(table[i].0, table[i].1));
        },
        Err(InterpretErr::RequiresMoreInput) => {
            let i = choose|i: int|
                0 <= i < table.len() && t.input.is_prefix_of((#[trigger] table[i]).0);
            assert(binding_fits(table[i].0, table[i].1));
            if t.input.len() == table[i].0.len() {
                assert(t.input =~= table[i].0);
                lemma_binding_is_command(table, t.input, i);
            }
            let last = t.input.len() - 1;
            assert(t.input[last] == table[i].0[last]);
            assert(!is_argument(table[i].0[last]));
            assert forall|k: int| 0 <= k < t.input.len() implies !is_argument(
                #[trigger] t.input[k],
            ) by {
                if k < last {
                    assert(!is_argument(t.input[k]));
                }
            }
        },
        Err(InterpretErr::NoValidCommand) => {},
    }
}

/// The editor begins with nothing that stands for an argument.
pub proof fn lemma_editor_begins_without_arguments()
    ensures
        no_arguments(initial_state()),
{
}

/// With a table that fits, no command fails for want of its argument, and
/// after the key nothing stands for an argument any more: the next key
/// finds the state as this one found it.
///
/// The editor begins in such a state, so with such a table the failures
/// `MissingArgument` and `Argument` never come out of the keyboard.
pub proof fn lemma_fitting_table_finds_its_arguments(
    s: StateView,
    windows: Seq<Window>,
    table: Seq<(Seq<InputView>, Command)>,
    keycode: Keycode,
    keymod: Mod,
)
    requires
        table_fits(table),
        no_arguments(s),
    ensures
        !failed_on_argument(key_pressed(s, windows, table, keycode, keymod).outcome),
        no_arguments(key_pressed(s, windows, table, keycode, keymod).state),
{
    if s.input.len() == 0 {
        let t = StateView { input: seq![InputView::Char(keycode, keymod)], ..s };
        lemma_round_finds_argument(t, windows, table);
    } else if keycode == Keycode::Escape {
        let shorter = s.input.drop_last();
        assert forall|i: int| 0 <= i < shorter.len() implies !is_argument(#[trigger] shorter[i]) by {
            assert(shorter[i] == s.input[i]);
        }
    } else if keycode == Keycode::Return {
        let t = confirmed(s);
        assert forall|i: int| 0 <= i < t.input.len() - 1 implies !is_argument(
            #[trigger] t.input[i],
        ) by {
            assert(t.input[i] == s.input[i]);
        }
        lemma_round_finds_argument(t, windows, table);
    }
}

/// Tokens that are no places of arguments can always be shown.
pub proof fn lemma_tokens_without_arguments_show(input: Seq<InputView>, args: Seq<ArgView>)
    requires
        forall|i: int| 0 <= i < input.len() ==> !is_argument(#[trigger] input[i]),
    ensures
        tokens_text(input, args).is_ok(),
    decreases input.len(),
{
    if input.len() > 0 {
        let shorter = input.drop_last();
        assert forall|i: int| 0 <= i < shorter.len() implies !is_argument(#[trigger] shorter[i]) by {
            assert(shorter[i] == input[i]);
        }
        lemma_tokens_without_arguments_show(shorter, args);
        assert(!is_argument(input[input.len() - 1]));
    }
}

/// A state in which nothing stands for an argument has a status line.
pub proof fn lemma_status_line_exists(s: StateView)
    requires
        no_arguments(s),
    ensures
        status_text(s).is_ok(),
{
    lemma_tokens_without_arguments_show(s.input, s.args);
}

/// The state and the windows after one key after the other, and how the
/// last key ended.
pub open spec fn typed(
    s: StateView,
    windows: Seq<Window>,
    table: Seq<(Seq<InputView>, Command)>,
    keys: Seq<(Keycode, Mod)>,
) -> KeyStep
    decreases keys.len(),
{
    if keys.len() == 0 {
        key_edit(s, windows)
    } else {
        let before = typed(s, windows, table, keys.drop_last());
        key_pressed(before.state, before.windows, table, keys.last().0, keys.last().1)
    }
}

/// With a table that fits, whatever is typed, no command fails for want of
/// its argument.
pub proof fn lemma_typing_finds_its_arguments(
    s: StateView,
    windows: Seq<Window>,
    table: Seq<(Seq<InputView>, Command)>,
    keys: Seq<(Keycode, Mod)>,
)
    requires
        table_fits(table),
        no_arguments(s),
    ensures
        !failed_on_argument(typed(s, windows, table, keys).outcome),
        no_arguments(typed(s, windows, table, keys).state),
    decreases keys.len(),
{
    if keys.len() > 0 {
        lemma_typing_finds_its_arguments(s, windows, table, keys.drop_last());
        let before = typed(s, windows, table, keys.drop_last());
        lemma_fitting_table_finds_its_arguments(
            before.state,
            before.windows,
            table,
            keys.last().0,
            keys.last().1,
        );
    }
}

} // verus!
