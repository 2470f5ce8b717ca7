//! A pattern tracker: a grid of note steps, a cursor that edits it, a
//! playback head that walks its rows, and the key bindings, timing
//! decisions and text rendering around them.

pub mod tracker;
pub mod state;
pub mod bindings;
pub mod playback;
pub mod ui;
pub mod audio;
