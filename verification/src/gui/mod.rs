//! What the window shows and reads, apart from drawing it.

pub mod auto_save;
pub mod knobs;
pub mod logs;
pub mod parsers;
pub mod persist;
pub mod round_trips;
pub mod run_view;
pub mod settings_file;
pub mod snapshot;
pub mod state;
pub mod updates;
pub mod window;
