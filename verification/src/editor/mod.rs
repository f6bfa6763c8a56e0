//! The editor's own pieces: the persisted list of enabled extensions and the hot-reload
//! loop that rebuilds a project when its sources change.

pub mod extensions_config;
pub mod hot_reload;
