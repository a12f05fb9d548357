//! Verified core of a file browser's sandboxed thumbnail pipeline and browsing modes.

pub mod bytes;
pub mod command;
pub mod decode;
pub mod explorer;
pub mod fallback;
pub mod helper;
pub mod icons_cell;
pub mod listing;
pub mod media;
pub mod memory;
pub mod mode_views;
pub mod modes;
pub mod pane;
pub mod path;
pub mod pixels;
pub mod pool;
pub mod process;
pub mod protocol;
pub mod queue;
pub mod render;
pub mod rows;
pub mod selection;
pub mod slot;
pub mod source;
pub mod text;
pub mod transport;
pub mod type_groups;
pub mod viewport;
pub mod wire;
