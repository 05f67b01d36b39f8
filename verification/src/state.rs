//! The state of the editor, and the undo log of its drawing gestures.

use crate::color::Color;
use crate::image_buffer::{lemma_index_in_bounds, ImageBuffer, ImageView};
use crate::input::{
    key_char, keycode_to_char, token_views, Arg, ArgView, CoerceError, Input, InputView, Mod,
    LALTMOD, LCTRLMOD,
};
use crate::text::{decimal_digits, decimal_text, push_digits, push_isize};
use vstd::prelude::*;

verus! {

/// The colour that one pixel had before a gesture wrote to it.
#[derive(Clone, Copy, Debug, PartialEq, Eq, Structural)]
pub struct DrawUndo {
    pub image_id: usize,
    pub x: usize,
    pub y: usize,
    pub color: Color,
}

impl DrawUndo {
    /// The note that the pixel at column `x` of row `y` of the image
    /// `image_id` had the colour `color`.
    pub fn new(image_id: usize, x: usize, y: usize, color: Color) -> (entry: Self)
        ensures
            entry == (DrawUndo { image_id, x, y, color }),
    {
        DrawUndo { image_id: image_id, x: x, y: y, color: color }
    }

    /// Whether the entry is about the pixel at column `x` of row `y` of the
    /// image `image_id`.
    pub open spec fn is_at(self, image_id: usize, x: usize, y: usize) -> bool {
        self.image_id == image_id && self.x == x && self.y == y
    }

    /// Whether the pixel of the entry lies inside its image.
    pub open spec fn fits(self, images: Seq<ImageView>) -> bool {
        self.image_id < images.len() && images[self.image_id as int].contains(
            self.x as int,
            self.y as int,
        )
    }
}

/// Everything that is needed to take one drawing gesture back.
#[derive(Debug)]
pub struct Undo {
    pub draw_undo: Vec<DrawUndo>,
}

impl View for Undo {
    type V = Seq<DrawUndo>;

    open spec fn view(&self) -> Seq<DrawUndo> {
        self.draw_undo@
    }
}

impl Undo {
    /// A frame with nothing noted in it.
    pub fn new() -> (undo: Undo)
        ensures
            undo@ == Seq::<DrawUndo>::empty(),
    {
        Undo { draw_undo: Vec::new() }
    }

    /// Whether nothing is noted in the frame.
    pub fn is_empty(&self) -> (r: bool)
        ensures
            r == (self@.len() == 0),
    {
        self.draw_undo.len() == 0
    }
}

/// The colour of the pixel at column `x` of row `y` of the image `image_id`.
pub open spec fn pixel(images: Seq<ImageView>, image_id: usize, x: usize, y: usize) -> Color {
    images[image_id as int].at(x as int, y as int)
}

/// Whether there is such a pixel.
pub open spec fn has_pixel(images: Seq<ImageView>, image_id: usize, x: usize, y: usize) -> bool {
    image_id < images.len() && images[image_id as int].contains(x as int, y as int)
}

/// Whether a frame holds an entry about the given pixel.
pub open spec fn frame_has(frame: Seq<DrawUndo>, image_id: usize, x: usize, y: usize) -> bool {
    exists|i: int| 0 <= i < frame.len() && (#[trigger] frame[i]).is_at(image_id, x, y)
}

/// Whether every pixel that a frame speaks of lies inside its image.
pub open spec fn frame_fits(frame: Seq<DrawUndo>, images: Seq<ImageView>) -> bool {
    forall|i: int| 0 <= i < frame.len() ==> (#[trigger] frame[i]).fits(images)
}

/// Whether two lists of images are of one length, image by image of one
/// size.
pub open spec fn same_sizes(a: Seq<ImageView>, b: Seq<ImageView>) -> bool {
    &&& a.len() == b.len()
    &&& forall|i: int|
        0 <= i < a.len() ==> (#[trigger] a[i]).width == b[i].width && a[i].height == b[i].height
}

/// A frame that speaks only of pixels that exist goes on doing so while
/// the images keep their sizes.
pub proof fn lemma_frame_fits_same_sizes(
    frame: Seq<DrawUndo>,
    before: Seq<ImageView>,
    after: Seq<ImageView>,
)
    requires
        frame_fits(frame, before),
        same_sizes(before, after),
    ensures
        frame_fits(frame, after),
{
    assert forall|i: int| 0 <= i < frame.len() implies (#[trigger] frame[i]).fits(after) by {
        assert(frame[i].fits(before));
    }
}

/// The images after the colours of a frame have been written back, entry by
/// entry.
pub open spec fn restored(images: Seq<ImageView>, frame: Seq<DrawUndo>) -> Seq<ImageView>
    decreases frame.len(),
{
    if frame.len() == 0 {
        images
    } else {
        let before = restored(images, frame.drop_last());
        let entry = frame.last();
        before.update(
            entry.image_id as int,
            before[entry.image_id as int].with_pixel(entry.x as int, entry.y as int, entry.color),
        )
    }
}

/// Holds the main state of the editor.
#[derive(Debug)]
pub struct State {
    pub current_color: Color,
    pub left_mouse_down: bool,
    pub right_mouse_down: bool,
    pub mouse_x: i32,
    pub mouse_y: i32,
    pub images: Vec<ImageBuffer>,
    pub current_palette_index: usize,
    pub palettes: Vec<Vec<Color>>,
    pub input: Vec<Input>,
    pub args: Vec<Arg>,
    pub input_buffer: String,
    pub window_index: usize,
    pub undo_stack: Vec<Undo>,
}

/// The state of the editor as a mathematical value.
pub struct StateView {
    pub current_color: Color,
    pub left_mouse_down: bool,
    pub right_mouse_down: bool,
    pub mouse_x: i32,
    pub mouse_y: i32,
    pub images: Seq<ImageView>,
    pub current_palette_index: usize,
    pub palettes: Seq<Seq<Color>>,
    pub input: Seq<InputView>,
    pub args: Seq<ArgView>,
    pub input_buffer: Seq<char>,
    pub window_index: usize,
    pub undo_stack: Seq<Seq<DrawUndo>>,
}

impl View for State {
    type V = StateView;

    open spec fn view(&self) -> StateView {
        StateView {
            current_color: self.current_color,
            left_mouse_down: self.left_mouse_down,
            right_mouse_down: self.right_mouse_down,
            mouse_x: self.mouse_x,
            mouse_y: self.mouse_y,
            images: self.images@.map_values(|image: ImageBuffer| image@),
            current_palette_index: self.current_palette_index,
            palettes: self.palettes@.map_values(|palette: Vec<Color>| palette@),
            input: token_views(self.input@),
            args: self.args@.map_values(|arg: Arg| arg@),
            input_buffer: self.input_buffer@,
            window_index: self.window_index,
            undo_stack: self.undo_stack@.map_values(|undo: Undo| undo@),
        }
    }
}

impl StateView {
    /// Every image has one colour for each coordinate, a palette is chosen,
    /// and the undo log speaks only of pixels that exist.
    pub open spec fn wf(self) -> bool {
        &&& self.images.len() <= usize::MAX
        &&& forall|i: int| 0 <= i < self.images.len() ==> (#[trigger] self.images[i]).wf()
        &&& self.current_palette_index < self.palettes.len()
        &&& forall|i: int|
            0 <= i < self.undo_stack.len() ==> frame_fits(#[trigger] self.undo_stack[i], self.images)
    }

    /// The state after the last gesture has been taken back: its frame is
    /// off the log, and every colour that it holds is written back.
    pub open spec fn undone(self) -> StateView {
        if self.undo_stack.len() == 0 {
            self
        } else {
            StateView {
                images: restored(self.images, self.undo_stack.last()),
                undo_stack: self.undo_stack.drop_last(),
                ..self
            }
        }
    }
}

/// The state that the editor starts with: white as the colour to draw with,
/// one palette of four colours, no image, no input, nothing to undo.
pub open spec fn initial_state() -> StateView {
    StateView {
        current_color: Color::RGB(255, 255, 255),
        left_mouse_down: false,
        right_mouse_down: false,
        mouse_x: 0,
        mouse_y: 0,
        images: Seq::empty(),
        current_palette_index: 0,
        palettes: seq![
            seq![
                Color::RGB(0, 0, 0),
                Color::RGB(128, 128, 128),
                Color::RGB(255, 255, 255),
                Color::RGB(192, 128, 112),
            ],
        ],
        input: Seq::empty(),
        args: Seq::empty(),
        input_buffer: Seq::empty(),
        window_index: 0,
        undo_stack: Seq::empty(),
    }
}

/// Writing colours back changes no image's size, and leaves the number of
/// images as it is.
pub proof fn lemma_restored_keeps_sizes(images: Seq<ImageView>, frame: Seq<DrawUndo>)
    requires
        frame_fits(frame, images),
        forall|i: int| 0 <= i < images.len() ==> (#[trigger] images[i]).wf(),
    ensures
        restored(images, frame).len() == images.len(),
        forall|i: int|
            0 <= i < images.len() ==> {
                &&& (#[trigger] restored(images, frame)[i]).width == images[i].width
                &&& restored(images, frame)[i].height == images[i].height
                &&& restored(images, frame)[i].wf()
            },
    decreases frame.len(),
{
    if frame.len() > 0 {
        let shorter = frame.drop_last();
        assert forall|i: int| 0 <= i < shorter.len() implies (#[trigger] shorter[i]).fits(
            images,
        ) by {
        }
        lemma_restored_keeps_sizes(images, shorter);
        let entry = frame.last();
        lemma_index_in_bounds(
            entry.x as int,
            entry.y as int,
            images[entry.image_id as int].width as int,
            images[entry.image_id as int].height as int,
        );
    }
}

/// How the modifiers of a chord are shown: alt alone as `M-`, control alone
/// as `C-`, anything else not at all.
pub open spec fn modifier_text(modifier: Mod) -> Seq<char> {
    if modifier == LALTMOD {
        "M-"@
    } else if modifier == LCTRLMOD {
        "C-"@
    } else {
        Seq::empty()
    }
}

/// How a colour is shown: its channels in brackets.
pub open spec fn color_text(color: Color) -> Seq<char> {
    match color {
        Color::RGB(r, g, b) => "rgb("@ + decimal_digits(r as nat) + ","@ + decimal_digits(g as nat)
            + ","@ + decimal_digits(b as nat) + ")"@,
        Color::RGBA(r, g, b, a) => "rgb("@ + decimal_digits(r as nat) + ","@ + decimal_digits(
            g as nat,
        ) + ","@ + decimal_digits(b as nat) + ","@ + decimal_digits(a as nat) + ")"@,
    }
}

/// The number of tokens that came with an argument.
pub open spec fn argument_count(input: Seq<InputView>) -> nat
    decreases input.len(),
{
    if input.len() == 0 {
        0
    } else {
        argument_count(input.drop_last()) + match input.last() {
            InputView::Integer | InputView::String | InputView::Color => 1nat,
            _ => 0nat,
        }
    }
}

/// How one token is shown. A token that came with an argument shows the
/// argument, which is the one at `place` on the stack, and has to be of
/// the token's kind.
pub open spec fn token_text(token: InputView, args: Seq<ArgView>, place: nat) -> Result<
    Seq<char>,
    CoerceError,
> {
    match token {
        InputView::Char(keycode, modifier) => Ok(
            modifier_text(modifier).push(
                match key_char(keycode) {
                    Some(c) => c,
                    None => ' ',
                },
            ),
        ),
        InputView::Exact(phrase) => Ok(phrase),
        InputView::Integer => if place < args.len() && args[place as int] is Integer {
            Ok(decimal_text(args[place as int]->Integer_0 as int))
        } else {
            Err(CoerceError::ExpectedInteger)
        },
        InputView::String => if place < args.len() && args[place as int] is String {
            Ok(args[place as int]->String_0)
        } else {
            Err(CoerceError::ExpectedString)
        },
        InputView::Color => if place < args.len() && args[place as int] is Color {
            Ok(color_text(args[place as int]->Color_0))
        } else {
            Err(CoerceError::ExpectedColor)
        },
    }
}

/// How the pending input is shown: token by token, a space after each.
pub open spec fn tokens_text(input: Seq<InputView>, args: Seq<ArgView>) -> Result<
    Seq<char>,
    CoerceError,
>
    decreases input.len(),
{
    if input.len() == 0 {
        Ok(Seq::empty())
    } else {
        match tokens_text(input.drop_last(), args) {
            Ok(before) => match token_text(
                input.last(),
                args,
                argument_count(input.drop_last()),
            ) {
                Ok(text) => Ok(before + text + " "@),
                Err(e) => Err(e),
            },
            Err(e) => Err(e),
        }
    }
}

/// The line that shows what has been typed: the pending input, a space,
/// and the text typed since the last token.
pub open spec fn status_text(s: StateView) -> Result<Seq<char>, CoerceError> {
    match tokens_text(s.input, s.args) {
        Ok(tokens) => Ok(tokens + " "@ + s.input_buffer),
        Err(e) => Err(e),
    }
}

/// A text, or why there is none, as a mathematical value.
pub open spec fn text_view(r: Result<String, CoerceError>) -> Result<Seq<char>, CoerceError> {
    match r {
        Ok(text) => Ok(text@),
        Err(e) => Err(e),
    }
}

/// Appends how a colour is shown.
fn push_color(string: &mut String, color: Color)
    ensures
        final(string)@ == old(string)@ + color_text(color),
{
    string.append("rgb(");
    match color {
        Color::RGB(r, g, b) => {
            push_digits(string, r as u128);
            string.append(",");
            push_digits(string, g as u128);
            string.append(",");
            push_digits(string, b as u128);
        },
        Color::RGBA(r, g, b, a) => {
            push_digits(string, r as u128);
            string.append(",");
            push_digits(string, g as u128);
            string.append(",");
            push_digits(string, b as u128);
            string.append(",");
            push_digits(string, a as u128);
        },
    }
    string.append(")");
}

/// Where one token cannot be shown, the whole input cannot, and the reason
/// is that of the first such token.
proof fn lemma_tokens_text_fails(input: Seq<InputView>, args: Seq<ArgView>, i: int)
    requires
        0 <= i < input.len(),
        tokens_text(input.take(i), args).is_ok(),
        token_text(input[i], args, argument_count(input.take(i))).is_err(),
    ensures
        tokens_text(input, args).is_err(),
        tokens_text(input, args)->Err_0 == token_text(
            input[i],
            args,
            argument_count(input.take(i)),
        )->Err_0,
    decreases input.len(),
{
    if i < input.len() - 1 {
        assert(input.drop_last().take(i) =~= input.take(i));
        lemma_tokens_text_fails(input.drop_last(), args, i);
    }
}

impl State {
    /// Every image has one colour for each coordinate, a palette is chosen,
    /// and the undo log speaks only of pixels that exist.
    pub open spec fn wf(&self) -> bool {
        self@.wf()
    }

    /// Tells whether every pixel that the frame speaks of lies inside its
    /// image.
    fn frame_is_inside(&self, frame: &Undo) -> (r: bool)
        ensures
            r == frame_fits(frame@, self@.images),
    {
        let mut i: usize = 0;
        while i < frame.draw_undo.len()
            invariant
                i <= frame@.len(),
                forall|j: int| 0 <= j < i ==> (#[trigger] frame@[j]).fits(self@.images),
            decreases frame@.len() - i,
        {
            let entry = frame.draw_undo[i];
            if entry.image_id >= self.images.len() {
                return false;
            }
            if entry.x >= self.images[entry.image_id].width || entry.y
                >= self.images[entry.image_id].height {
                return false;
            }
            i += 1;
        }
        true
    }

    /// Tells whether the state is well formed: whether the functions that
    /// ask for a well-formed state can be called on it.
    pub fn is_well_formed(&self) -> (r: bool)
        ensures
            r == self.wf(),
    {
        if self.current_palette_index >= self.palettes.len() {
            return false;
        }
        let mut i: usize = 0;
        while i < self.images.len()
            invariant
                i <= self.images@.len(),
                forall|j: int| 0 <= j < i ==> (#[trigger] self@.images[j]).wf(),
            decreases self.images@.len() - i,
        {
            assert(self@.images[i as int] == self.images@[i as int]@);
            if !self.images[i].is_well_formed() {
                return false;
            }
            i += 1;
        }
        let mut k: usize = 0;
        while k < self.undo_stack.len()
            invariant
                k <= self.undo_stack@.len(),
                forall|j: int|
                    0 <= j < k ==> frame_fits(#[trigger] self@.undo_stack[j], self@.images),
            decreases self.undo_stack@.len() - k,
        {
            assert(self@.undo_stack[k as int] == self.undo_stack@[k as int]@);
            if !self.frame_is_inside(&self.undo_stack[k]) {
                return false;
            }
            k += 1;
        }
        true
    }

    /// The state that the editor starts with.
    pub fn new() -> (state: Self)
        ensures
            state@ == initial_state(),
            state.wf(),
    {
        let mut palette: Vec<Color> = Vec::new();
        palette.push(Color::RGB(0, 0, 0));
        palette.push(Color::RGB(128, 128, 128));
        palette.push(Color::RGB(255, 255, 255));
        palette.push(Color::RGB(192, 128, 112));
        let mut palettes: Vec<Vec<Color>> = Vec::new();
        palettes.push(palette);
        let state = State {
            current_color: Color::RGB(255, 255, 255),
            left_mouse_down: false,
            right_mouse_down: false,
            mouse_x: 0,
            mouse_y: 0,
            images: Vec::new(),
            current_palette_index: 0,
            palettes: palettes,
            input: Vec::new(),
            args: Vec::new(),
            input_buffer: String::new(),
            window_index: 0,
            undo_stack: Vec::new(),
        };
        proof {
            assert(state@.images =~= initial_state().images);
            assert(state@.palettes =~~= initial_state().palettes);
            assert(state@.input =~= initial_state().input);
            assert(state@.args =~= initial_state().args);
            assert(state@.undo_stack =~= initial_state().undo_stack);
        }
        state
    }

    /// The palette that colours are picked from.
    pub fn current_palette(&self) -> (palette: &[Color])
        requires
            self.current_palette_index < self.palettes@.len(),
        ensures
            palette@ == self@.palettes[self.current_palette_index as int],
    {
        self.palettes[self.current_palette_index].as_slice()
    }

    /// The line that shows what has been typed so far. There is none where
    /// a token that came with an argument does not find it on the stack.
    pub fn show_input_stack(&self) -> (r: Result<String, CoerceError>)
        ensures
            text_view(r) == status_text(self@),
    {
        let ghost input = self@.input;
        let ghost args = self@.args;
        let mut string = String::new();
        let mut count: usize = 0;
        let mut i: usize = 0;
        while i < self.input.len()
            invariant
                i <= self.input@.len(),
                input == self@.input,
                args == self@.args,
                count == argument_count(input.take(i as int)),
                count <= i,
                tokens_text(input.take(i as int), args) == Ok::<Seq<char>, CoerceError>(string@),
            decreases self.input@.len() - i,
        {
            let ghost before = string@;
            proof {
                assert(input.take(i + 1).drop_last() =~= input.take(i as int));
            }
            match &self.input[i] {
                Input::Char(keycode, modifier) => {
                    if *modifier == LALTMOD {
                        string.append("M-");
                    } else if *modifier == LCTRLMOD {
                        string.append("C-");
                    }
                    match keycode_to_char(*keycode) {
                        Some(c) => string.push(c),
                        None => string.push(' '),
                    }
                    assert(string@ =~= before + modifier_text(*modifier).push(
                        match key_char(*keycode) {
                            Some(c) => c,
                            None => ' ',
                        },
                    ));
                },
                Input::Integer => {
                    if count >= self.args.len() {
                        proof {
                            lemma_tokens_text_fails(input, args, i as int);
                        }
                        return Err(CoerceError::ExpectedInteger);
                    }
                    match self.args[count].try_coerce_integer() {
                        Ok(n) => push_isize(&mut string, n),
                        Err(e) => {
                            proof {
                                lemma_tokens_text_fails(input, args, i as int);
                            }
                            return Err(e);
                        },
                    }
                    count += 1;
                },
                Input::Exact(phrase) => {
                    string.append(phrase.as_str());
                },
                Input::String => {
                    if count >= self.args.len() {
                        proof {
                            lemma_tokens_text_fails(input, args, i as int);
                        }
                        return Err(CoerceError::ExpectedString);
                    }
                    match self.args[count].try_coerce_string() {
                        Ok(text) => string.append(text.as_str()),
                        Err(e) => {
                            proof {
                                lemma_tokens_text_fails(input, args, i as int);
                            }
                            return Err(e);
                        },
                    }
                    count += 1;
                },
                Input::Color => {
                    if count >= self.args.len() {
                        proof {
                            lemma_tokens_text_fails(input, args, i as int);
                        }
                        return Err(CoerceError::ExpectedColor);
                    }
                    match self.args[count].try_coerce_color() {
                        Ok(color) => push_color(&mut string, color),
                        Err(e) => {
                            proof {
                                lemma_tokens_text_fails(input, args, i as int);
                            }
                            return Err(e);
                        },
                    }
                    count += 1;
                },
            }
            string.append(" ");
            i += 1;
        }
        assert(input.take(input.len() as int) =~= input);
        string.append(" ");
        string.append(self.input_buffer.as_str());
        Ok(string)
    }

    /// Takes the last drawing gesture back.
    pub fn undo(&mut self)
        requires
            old(self).wf(),
        ensures
            final(self)@ == old(self)@.undone(),
            final(self).wf(),
    {
        let ghost before = self@;
        if let Some(undo) = self.undo_stack.pop() {
            let ghost frame = undo@;
            let ghost stack = self@.undo_stack;
            proof {
                assert(stack =~= before.undo_stack.drop_last());
            }
            let mut i: usize = 0;
            while i < undo.draw_undo.len()
                invariant
                    i <= frame.len(),
                    frame == undo@,
                    before.wf(),
                    frame_fits(frame, before.images),
                    self@.images == restored(before.images, frame.take(i as int)),
                    self@ == (StateView { images: self@.images, undo_stack: stack, ..before }),
                decreases frame.len() - i,
            {
                let DrawUndo { image_id, x, y, color } = undo.draw_undo[i];
                proof {
                    let part = frame.take(i as int);
                    assert forall|j: int| 0 <= j < part.len() implies (#[trigger] part[j]).fits(
                        before.images,
                    ) by {
                    }
                    lemma_restored_keeps_sizes(before.images, part);
                    assert(frame.take(i + 1).drop_last() =~= part);
                    assert(self@.images[image_id as int] == self.images@[image_id as int]@);
                }
                *self.images[image_id].get_mut_ref(x, y) = color;
                i += 1;
            }
            proof {
                assert(frame.take(frame.len() as int) =~= frame);
                lemma_restored_keeps_sizes(before.images, frame);
                assert forall|k: int| 0 <= k < stack.len() implies frame_fits(
                    #[trigger] stack[k],
                    self@.images,
                ) by {
                    lemma_frame_fits_same_sizes(before.undo_stack[k], before.images, self@.images);
                }
            }
        }
    }
}

} // verus!
