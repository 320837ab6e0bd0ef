//! The core of a terminal multiplexer: a terminal emulator and the rules of a
//! window manager.

pub mod attrs;
pub mod cell;
pub mod color;
pub mod command;
pub mod coords;
pub mod cursor;
pub mod emulator;
pub mod graphics;
pub mod grid;
pub mod hyperlinks;
pub mod image_size;
pub mod image_store;
pub mod iterm;
pub mod keyboard;
pub mod mark;
pub mod modes;
pub mod parser;
pub mod reflow;
pub mod reply;
pub mod row;
pub mod scan;
pub mod screen;
pub mod scrollback;
pub mod tabs;
pub mod terminfo;
pub mod text;
pub mod vt;
pub mod width;
pub mod window_manager;

pub use attrs::{Attrs, UnderlineStyle};
pub use cell::Cell;
pub use color::Color;
pub use cursor::{Cursor, CursorShape};
pub use emulator::Emulator;
pub use graphics::{AnimControl, Frame, Image, ImageFormat, ImageProtocol, ImageStore, Placement};
pub use grid::{Grid, Row, RowMark, WrapOrigin};
pub use hyperlinks::HyperlinkTable;
pub use keyboard::KeyboardState;
pub use modes::Modes;
pub use screen::{ColorQuery, Screen};
pub use scrollback::{Scrollback, DEFAULT_SCROLLBACK_LINES};
pub use tabs::TabStops;
pub use width::display_width;
