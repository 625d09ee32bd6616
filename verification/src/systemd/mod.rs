//! Living with systemd.
pub mod environment;
pub mod journald;
pub mod notify;
pub mod socket_activation;
pub mod units;
