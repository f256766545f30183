//! The protocol core of an HTTP/3 CONNECT-UDP (MASQUE) proxy.

pub mod auth;
pub mod buffer;
pub mod capsule;
pub mod cli;
pub mod connection;
pub mod datagram;
pub mod endpoint;
pub mod error;
pub mod outside;
pub mod relay;
pub mod request;
pub mod response;
pub mod server;
pub mod session;
pub mod setup;
pub mod text;
pub mod tunnel;
pub mod varint;
