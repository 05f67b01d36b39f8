//! What each command does to the state. A command takes what it needs off
//! the argument stack, and leaves the state alone where it cannot run.

use crate::codec::png_encoded;
use crate::image_buffer::pack_rgb;
use crate::input::{
    Arg, ArgView, CoerceError, CommandError, CommandResult, Effect, EffectView, ExportFailure,
    Outcome,
};
use crate::state::{State, StateView};
use vstd::prelude::*;

verus! {

/// The file that an export without a name goes to.
pub open spec fn default_export_path() -> Seq<char> {
    "tmp/test_out.png"@
}

/// What `set_color` does: the colour on top of the argument stack is taken
/// off and becomes the colour to draw with.
pub open spec fn set_color_step(s: StateView) -> (StateView, Outcome) {
    if s.args.len() == 0 {
        (s, Err(CommandError::MissingArgument))
    } else {
        match s.args.last() {
            ArgView::Color(color) => (
                StateView { current_color: color, args: s.args.drop_last(), ..s },
                Ok((CommandResult::Success, EffectView::ColorSet)),
            ),
            _ => (s, Err(CommandError::Argument(CoerceError::ExpectedColor))),
        }
    }
}

/// What `print` does: the text on top of the argument stack is taken off
/// and is to be printed.
pub open spec fn print_step(s: StateView) -> (StateView, Outcome) {
    if s.args.len() == 0 {
        (s, Err(CommandError::MissingArgument))
    } else {
        match s.args.last() {
            ArgView::String(text) => (
                StateView { args: s.args.drop_last(), ..s },
                Ok((CommandResult::Success, EffectView::Print(text))),
            ),
            _ => (s, Err(CommandError::Argument(CoerceError::ExpectedString))),
        }
    }
}

/// What `export_png` does: the first image is to be written to the file
/// named on top of the argument stack, or to the default file where the
/// stack is empty. The command is pending until it is known whether the
/// file was written: `export_outcome` gives its result then.
pub open spec fn export_png_step(s: StateView) -> (StateView, Outcome) {
    if s.images.len() == 0 {
        (s, Err(CommandError::NoImage))
    } else if s.args.len() == 0 {
        (s, Ok((CommandResult::Pending, EffectView::ExportPng(default_export_path()))))
    } else {
        match s.args.last() {
            ArgView::String(path) => (
                StateView { args: s.args.drop_last(), ..s },
                Ok((CommandResult::Pending, EffectView::ExportPng(path))),
            ),
            _ => (s, Err(CommandError::Argument(CoerceError::ExpectedString))),
        }
    }
}

/// The outcome of a command as a mathematical value.
pub open spec fn outcome_view(r: Result<(CommandResult, Effect), CommandError>) -> Outcome {
    match r {
        Ok((result, effect)) => Ok((result, effect@)),
        Err(e) => Err(e),
    }
}

/// Takes the text on top of the argument stack off. An argument of another
/// kind stays where it is.
fn pop_string(state: &mut State) -> (r: Result<String, CommandError>)
    ensures
        match r {
            Ok(text) => {
                &&& old(state)@.args.len() > 0
                &&& old(state)@.args.last() == ArgView::String(text@)
                &&& final(state)@ == (StateView { args: old(state)@.args.drop_last(), ..old(state)@ })
            },
            Err(e) => {
                &&& final(state)@ == old(state)@
                &&& old(state)@.args.len() == 0 ==> e == CommandError::MissingArgument
                &&& old(state)@.args.len() > 0 ==> {
                    &&& !(old(state)@.args.last() is String)
                    &&& e == CommandError::Argument(CoerceError::ExpectedString)
                }
            },
        },
{
    let ghost before = state@;
    match state.args.pop() {
        None => Err(CommandError::MissingArgument),
        Some(Arg::String(text)) => {
            assert(state@.args =~= before.args.drop_last());
            Ok(text)
        },
        Some(other) => {
            state.args.push(other);
            assert(state@.args =~= before.args);
            Err(CommandError::Argument(CoerceError::ExpectedString))
        },
    }
}

/// Makes the colour on top of the argument stack the colour to draw with.
pub fn set_color(state: &mut State) -> (r: Result<(CommandResult, Effect), CommandError>)
    ensures
        (final(state)@, outcome_view(r)) == set_color_step(old(state)@),
{
    let ghost before = state@;
    match state.args.pop() {
        None => Err(CommandError::MissingArgument),
        Some(Arg::Color(color)) => {
            state.current_color = color;
            assert(state@.args =~= before.args.drop_last());
            Ok((CommandResult::Success, Effect::ColorSet))
        },
        Some(other) => {
            state.args.push(other);
            assert(state@.args =~= before.args);
            Err(CommandError::Argument(CoerceError::ExpectedColor))
        },
    }
}

/// Asks for the first image to be written to the file named on top of the
/// argument stack. Nothing is written here, and the command is pending:
/// `export_bytes` gives what is to be written, and `export_result` the
/// result of the command from the outcome of the write.
pub fn export_png(state: &mut State) -> (r: Result<(CommandResult, Effect), CommandError>)
    ensures
        (final(state)@, outcome_view(r)) == export_png_step(old(state)@),
{
    if state.images.len() == 0 {
        return Err(CommandError::NoImage);
    }
    if state.args.len() == 0 {
        return Ok((CommandResult::Pending, Effect::ExportPng(String::from_str("tmp/test_out.png"))));
    }
    match pop_string(state) {
        Ok(path) => Ok((CommandResult::Pending, Effect::ExportPng(path))),
        Err(e) => Err(e),
    }
}

/// The bytes that an export is to write: the first image as a PNG file.
///
/// They come out if and only if there is a first image and it can be
/// saved. The state is only read.
pub fn export_bytes(state: &State) -> (r: Result<Vec<u8>, CommandError>)
    ensures
        r.is_ok() <==> state@.images.len() > 0 && state@.images[0].savable(),
        r matches Ok(file) ==> file@ == png_encoded(
            state@.images[0].width as u32,
            state@.images[0].height as u32,
            pack_rgb(state@.images[0].pixels),
        ),
        r matches Err(e) ==> {
            &&& e is NoImage <==> state@.images.len() == 0
            &&& e is Export <==> state@.images.len() > 0
            &&& e matches CommandError::Export(failure) ==> {
                &&& failure matches ExportFailure::Encoding(refusal)
                &&& refusal is Malformed <==> !state@.images[0].wf()
                &&& refusal is TooLarge <==> state@.images[0].wf() && state@.images[0].too_large()
                &&& refusal is Encoding <==> state@.images[0].wf() && !state@.images[0].too_large()
            }
        },
{
    if state.images.len() == 0 {
        return Err(CommandError::NoImage);
    }
    assert(state@.images[0] == state.images@[0]@);
    match state.images[0].save_png_image() {
        Ok(file) => Ok(file),
        Err(e) => Err(CommandError::Export(ExportFailure::Encoding(e))),
    }
}

/// The result of an export, given whether its file came about: success if
/// it did, and the failure if it did not.
pub open spec fn export_outcome(written: Result<(), ExportFailure>) -> Result<
    CommandResult,
    CommandError,
> {
    match written {
        Ok(_) => Ok(CommandResult::Success),
        Err(failure) => Err(CommandError::Export(failure)),
    }
}

/// Tells how an export ended, once it is known whether its file was
/// written. An export whose file was not written has failed, and says why.
pub fn export_result(written: Result<(), ExportFailure>) -> (r: Result<
    CommandResult,
    CommandError,
>)
    ensures
        r == export_outcome(written),
        written.is_err() ==> r.is_err(),
{
    match written {
        Ok(_) => Ok(CommandResult::Success),
        Err(failure) => Err(CommandError::Export(failure)),
    }
}

/// Asks for the text on top of the argument stack to be printed.
pub fn print(state: &mut State) -> (r: Result<(CommandResult, Effect), CommandError>)
    ensures
        (final(state)@, outcome_view(r)) == print_step(old(state)@),
{
    match pop_string(state) {
        Ok(text) => Ok((CommandResult::Success, Effect::Print(text))),
        Err(e) => Err(e),
    }
}

} // verus!
