//! A file chooser widget: the state it keeps and the decisions it takes.

pub mod entry;
pub mod sort;
pub mod filter;
pub mod paths;
pub mod state;
pub mod dirs;
pub mod zipdir;
pub mod pathbar;
