//! A small pixel-art editor, without its window.
//!
//! The library holds what the editor knows and decides: the canvas and its
//! passage to and from PNG files, the palette, the emacs-like interpreter
//! that turns keys into commands, drawing with the mouse, and undo. The
//! program around it owns the window: it hands the events of the mouse and
//! of the keyboard in, draws what the state says, and does what a command
//! leaves to do.
//!
//! - [`color`]: colours and their channels.
//! - [`image_buffer`]: the canvas, and images as frames of samples.
//! - [`codec`]: the PNG decoder and encoder, as far as the library relies
//!   on them without proof.
//! - [`text`]: numbers written in base ten, read and written.
//! - [`util`]: colours written as text.
//! - [`input`]: tokens, arguments, the command table, the interpreter and
//!   the commands.
//! - [`table`]: what makes a command table well made.
//! - [`state`]: the state of the editor, the undo log, the status line.
//! - [`windows`]: what each window does with the mouse and with zooming,
//!   and where it is drawn.
//! - [`events`]: what a press, a move and a release of the mouse and a key
//!   do to the state.
//! - [`gesture`]: what holds of a drawing gesture and of the undo after it.

pub mod codec;
pub mod color;
pub mod events;
pub mod gesture;
pub mod image_buffer;
pub mod input;
pub mod state;
pub mod table;
pub mod text;
pub mod util;
pub mod windows;
