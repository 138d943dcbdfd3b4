//! A screen-oriented text editor core: a line buffer, a cursor inside a
//! scrollable window, and the terminal output each edit needs.
//!
//! The library performs no input or output. Every operation takes the
//! terminal's size as a value and returns the list of [`render::ScreenOp`]s
//! that bring the screen up to date; file contents go in and out as values.
//!
//! - [`lines`]: the line store.
//! - [`viewport`]: screen rows against buffer lines, and scrolling.
//! - [`encoding`] and [`render`]: the bytes and instructions of a repaint.
//! - [`screen`]: a model of the screen, which says what a repaint shows.
//! - [`codec`]: a file's text to lines and back.
//! - [`buffer`]: the editor's state and its operations.

pub mod encoding;
pub mod lines;
pub mod codec;
pub mod viewport;
pub mod render;
pub mod screen;
pub mod buffer;
