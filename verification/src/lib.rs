//! The protocol logic of a SOCKS5 server that can also listen on a tailnet.
//!
//! Everything the server decides is here, as functions from plain values to
//! plain values: what each message on the wire means, which bytes are sent back,
//! who may use the server, and which address is contacted next. The library does
//! no input or output. A [`session::Session`] is told what happened and answers
//! with the next [`session::Action`] to perform; a [`server::Server`] does the
//! same for the loop that accepts clients.

pub mod addr;
pub mod associate;
pub mod auth;
pub mod bind;
pub mod connect;
pub mod error;
pub mod handshake;
pub mod net;
pub mod run;
pub mod server;
pub mod session;
pub mod text;
pub mod wire;
