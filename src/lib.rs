//! A small request/response network service: message codecs, request
//! handlers, and the per-connection, per-datagram and client-side decision
//! logic that drives them. The sockets themselves live with the caller.

pub mod decimal;
pub mod json;
pub mod message;
pub mod codec;
pub mod handler;
pub mod stream;
pub mod datagram;
pub mod client;
pub mod config;
pub mod arith;
pub mod rectangle;
pub mod restaurant;
pub mod summary;
pub mod minigrep;
pub mod iterators;
pub mod smart_pointers;
