//! The Xauthority file: what is in it, where it lies and how it is locked.

pub mod cookie;
pub mod encoding;
pub mod file;
pub mod lock;
pub mod setup;
