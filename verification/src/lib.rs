//! Focus-or-launch logic for a key bound to a desktop application: press the
//! key and the application's window comes to the front, or the application
//! starts if it has none; press again and the focus moves on to its next
//! window, or its only window is minimized.

pub mod action;
pub mod apps;
pub mod backend;
pub mod contents;
pub mod decision;
pub mod encoding;
pub mod icon;
pub mod number;
pub mod orchestration;
pub mod order;
pub mod outside;
pub mod report;
pub mod run;
pub mod settings;
pub mod text;
