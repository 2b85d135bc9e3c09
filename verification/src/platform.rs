//! Decision logic of the platform layer: buffers, errors, process options
//! and the foreground and interaction watchers.
pub mod buffers;
pub mod errors;
pub mod process;
pub mod interaction;
pub mod foreground;
