//! Screenshots for a Wayland desktop, as a verified library.
//!
//! The rules of the program live here: the selection model, the frozen desktop and its crops,
//! the file naming, the settings lookup, the capture protocol's bookkeeping and the overlay's
//! state machine. Talking to the compositor, the disk and the clipboard is left to the program
//! around it, which hands plain values in and acts on the plain values it gets back.

pub mod cli;
pub mod clipboard;
pub mod config;
pub mod geometry;
pub mod grab;
pub mod path;
pub mod portal;
pub mod run;
pub mod save;
pub mod select;
pub mod shot;
pub mod text;
pub mod ui;
pub mod wayland;
pub mod xdg;

pub use ui::App;

