//! Verified core of the pitu image workbench.
pub mod imaging;
pub mod text;
pub mod formats;
pub mod geometry;
pub mod size;
pub mod paths;
pub mod history;
pub mod reader;
pub mod compress;
pub mod report;
pub mod banner;
pub mod repair;
pub mod session;
pub mod commands;
pub mod editors;
pub mod menus;
