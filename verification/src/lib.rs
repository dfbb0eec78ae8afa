//! Progress bars for the terminal that many producers can drive at once.
//!
//! The crate holds the rules of the display: which row each bar occupies,
//! when buffered progress becomes a visible update, what a bar's line looks
//! like, and which bytes place that line at its row. Reading the clock and
//! the terminal, and writing the bytes out, is left to the caller, who hands
//! in a [`Reading`] and drains [`Screen::take_output`].

pub mod bar;
pub mod cursor;
pub mod laws;
pub mod registry;
pub mod render;
pub mod screen;
pub mod state;
pub mod style;
pub mod text;

pub use bar::AvanceBar;
pub use registry::{Registry, Slot};
pub use screen::{set_max_progress_bars, Reading, Screen};
pub use state::{Config, State};
pub use style::Style;
