//! The navigation state of a snapshot browser: the directory on display, the
//! way back to the root, the cache of directory totals and the screen's mode.

pub mod entry;
pub mod laws;
pub mod mode;
pub mod model;
pub mod screen;
pub mod snapshot;
pub mod summary;
pub mod table;
pub mod text;
pub mod walk;
