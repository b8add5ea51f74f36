//! A personal directory bookmark manager: an ordered, deduplicated store of
//! filesystem paths with load/save decisions against one configuration file,
//! and the state machine of a terminal selector that picks one of them.

pub mod paths;
pub mod ui;
pub mod utils;
