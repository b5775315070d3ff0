//! A remote build dispatcher: a client packages a project tree into an archive
//! and ships it to a build server, which cross-compiles it and streams the
//! produced binaries back.
//!
//! This crate holds the rules of that exchange: how cache paths are laid out,
//! which files an archive carries and under which names, how a build is
//! planned and judged, and how a connection and the listener move from one
//! state to the next. Every function here is pure: the caller performs the
//! input and output that the returned plans and actions describe.

pub mod cargo;
pub mod communication;
pub mod dispatcher;
pub mod file_handler;
pub mod paths;
pub mod text;
