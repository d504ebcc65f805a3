//! The state and the rules of a project-wide search panel.

pub mod actions;
pub mod answers;
pub mod delay;
pub mod dock;
pub mod effects;
pub mod entries;
pub mod files;
pub mod glob;
pub mod laws;
pub mod matches;
pub mod panel;
pub mod query;
pub mod render;
pub mod results;
pub mod settings;
pub mod storage;
pub mod text;
