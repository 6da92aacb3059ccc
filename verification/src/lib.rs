//! A file quick-access manager: entries, tags, search, collections and the
//! application's state machine, with their contracts proved by Verus.
pub mod state;
pub mod string_map;
pub mod text;
pub mod tags;
pub mod file_entry;
pub mod theme;
pub mod config;
pub mod search;
pub mod urls;
pub mod tag_lists;
pub mod app;
pub mod paths;
pub mod async_ops;
pub mod plugins;
