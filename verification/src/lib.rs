//! Core model of a terminal pixel-art editor: a fixed-size canvas, a cursor
//! that paints colored blocks, a store of placed blocks, a small color
//! palette, an overlay state machine, and a line-oriented text codec plus a
//! raw raster codec for persisting paintings.
//!
//! Everything here is pure logic over plain values. Reading keys, drawing
//! cells on the terminal, and file or image I/O live outside this crate and
//! talk to it through the session step function and the codec functions.

pub mod canvas;
pub mod codec;
pub mod cursor;
pub mod input;
pub mod palette;
pub mod raster;
pub mod session;
pub mod store;

pub use canvas::Canvas;
pub use codec::{LoadError, export_text, import_text};
pub use cursor::{Direction, Runtime};
pub use input::{KEY, cursor_input};
pub use palette::{Color, color_for_code, code_for_color, return_color, return_color_int,
    rgb_of_color, color_of_rgb};
pub use raster::{raster_of, import_raster};
pub use session::{FileAction, FileMenu, Overlay, Request, Session, State, file_menu_hit, menu};
pub use store::{Entry, PlacedStore};
