//! A byte tunnel that carries a TCP conversation over a second channel
//! (a child process's standard streams, a websocket, or HTTP polling).
//!
//! This crate holds the tunnel's decisions: how chunks are framed on a
//! line-oriented pipe, how websocket messages are treated, how polling
//! requests carry data, and how the channel-backed streams behave.

pub mod channel;
pub mod codec;
pub mod stream;
pub mod commu_client_subprocess;
pub mod commu_client_webterminal;
pub mod subprocess;
pub mod websocket;
pub mod cli;
pub mod commu_client_securecrt;
pub mod proxy;
