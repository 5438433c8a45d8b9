//! Navigation engine of a dual-pane file manager: the record model shared by
//! every storage backend, per-pane cursor and selection state, the pull-based
//! row window fed to a virtualized list, and the key and command resolver.

pub mod api;
pub mod backend;
pub mod errors;
pub mod keys;
pub mod palette;
pub mod pane;
pub mod paths;
pub mod render;
pub mod self_update;
pub mod text;
pub mod window;
