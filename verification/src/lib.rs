//! Starting Xorg like any other session.
//!
//! What the server is started with, what its clients are told and what is
//! written to their files is decided here; the program around this library
//! reads the system and carries the decisions out.
//!
//! - [`session`] prepares a server first and waits for it later, [`shim`] sets
//!   one up in one go, and [`launcher`] keeps its files in the runtime
//!   directory. All of them rest on [`server`] for the command line, on
//!   [`xauthority`] for the secret that server and clients share, on [`fd`] for
//!   the descriptors that the server is given and on [`display`] for what it
//!   answers.
//! - [`files`] is what is done to files and directories, step by step.
//! - [`context`] is what is known of the session, [`strategy`] which environment
//!   it gets, [`client`] what is run in it and [`connect`] how a client connects.
//! - [`systemd`] is for living with the service manager and the journal.
//! - [`env`] is about environments and typed variables.
#![allow(unused_imports)]

pub mod client;
pub mod command;
pub mod connect;
pub mod context;
pub mod display;
pub mod env;
pub mod fd;
pub mod files;
pub mod launcher;
pub mod path;
pub mod runtime_dir;
pub mod server;
pub mod session;
pub mod shim;
pub mod strategy;
pub mod system;
pub mod systemd;
pub mod table;
pub mod text;
pub mod views;
pub mod warn;
pub mod xauthority;
