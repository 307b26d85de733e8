//! Verified core logic of the easy-imgui widgets: callback generation tags,
//! file chooser state, and related helpers.

pub mod generation;
pub mod text;
pub mod chooser;
pub mod shader;
pub mod atlas;
pub mod ui;
pub mod idler;
pub mod texmap;
pub mod glconfig;
pub mod keys;
