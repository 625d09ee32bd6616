//! The environment: typed variables, and containers that hold them.
//!
//! A key is text; a value is raw bytes.
use vstd::prelude::*;

pub mod container;
pub mod diff;
pub mod parse;
pub mod system;
pub mod variables;
