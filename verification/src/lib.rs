//! Wire format and request handling of the Knight Online login server.
//!
//! `protocol` frames and unframes packets and answers the login-server
//! opcodes; `login` reads login requests and decides them; `config` holds the
//! server's configuration and state records; `standalone` is the version-only
//! handler of the minimal server binary; `laws` states byte by byte what the
//! packets and replies hold.

pub mod config;
pub mod laws;
pub mod login;
pub mod protocol;
pub mod standalone;
