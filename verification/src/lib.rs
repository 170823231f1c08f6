//! Coordination core of a terminal file manager: a single-slot preview
//! engine, a task-scheduler facade with a running-task table and progress
//! pump, and the pure helpers they share (MIME classification, viewport
//! geometry, URL handling, file metadata snapshots).

pub mod fs;
pub mod highlight;
pub mod img;
pub mod layout;
pub mod mime;
pub mod preview;
pub mod tasks;
pub mod text;
pub mod url;
