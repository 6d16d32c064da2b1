//! What the window shows, and how its state moves from one event to the next.
pub mod actions;
pub mod app;
pub mod catalog;
pub mod cluster;
pub mod cluster_laws;
pub mod detail;
pub mod fuzzy;
pub mod laws;
pub mod palette;
pub mod prompt;
pub mod screen;
pub mod status;
pub mod table;
pub mod terminal;
pub mod theme;
pub mod view_laws;
