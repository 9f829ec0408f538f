//! Building blocks for small file-organising command-line tools, and the
//! selection-and-move pipeline of a tool that gathers video files from a
//! nested directory tree into one flat directory.
//!
//! Everything that touches the outside world (the shell, the file system,
//! the terminal) is done by the caller; the functions here decide what to do
//! and what the outcome is.

pub mod text;
pub mod fs;
pub mod mv_videos;
pub mod moves;
pub mod config;
pub mod console;
pub mod logging;
