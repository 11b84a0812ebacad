//! Core logic of an interactive editor for systemd-style unit files.
//!
//! A unit file is a plain-text buffer of lines, some of which are
//! `key=value` declarations.  This crate holds the verified heart of the
//! editor: the line classifier that decides which lines are addressable
//! declarations, the navigator that moves a cursor over those lines only,
//! the clamped selection list used for the template picker, the session
//! state machine that drives the whole workflow, and the pure part of
//! persistence (target path and serialized contents).  Terminal rendering
//! and all I/O live outside this crate and only exchange plain values
//! with it.

pub mod app;
pub mod command;
pub mod editinglist;
pub mod lines;
pub mod persist;
pub mod statefullist;
pub mod text;
