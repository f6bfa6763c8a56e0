//! Docking panels: the dock world model, tab bars, sidebars, drag and drop, workspaces.

pub mod world;
pub mod tabs;
pub mod sidebar;
pub mod populate;
pub mod drag;
pub mod workspace;
pub mod workspace_tabs;
pub mod laws;
