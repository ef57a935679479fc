//! A server's settings, fixed when it starts.

use vstd::prelude::*;
use crate::codec::Codec;
use crate::handler::Handler;

verus! {

#[derive(Clone, Copy, PartialEq, Eq, Structural, Debug)]
pub enum Transport {
    /// Connections, one worker each.
    Stream,
    /// Datagrams, one worker each.
    Datagram,
}

/// Where and how a server listens, and what it answers. Read-only once made.
pub struct ServerConfig {
    address: String,
    transport: Transport,
    codec: Codec,
    handler: Handler,
    slow: bool,
}

pub struct ServerConfigView {
    pub address: Seq<char>,
    pub transport: Transport,
    pub codec: Codec,
    pub handler: Handler,
    pub slow: bool,
}

impl View for ServerConfig {
    type V = ServerConfigView;

    closed spec fn view(&self) -> ServerConfigView {
        ServerConfigView {
            address: self.address@,
            transport: self.transport,
            codec: self.codec,
            handler: self.handler,
            slow: self.slow,
        }
    }
}

impl ServerConfig {
    /// A server bound to `address` over `transport`; when `slow`, each answer
    /// waits a random delay first.
    pub fn new(address: String, transport: Transport, codec: Codec, handler: Handler, slow: bool) -> (r:
        ServerConfig)
        ensures
            r@ == (ServerConfigView { address: address@, transport, codec, handler, slow }),
    {
        ServerConfig { address, transport, codec, handler, slow }
    }

    pub fn address(&self) -> (r: &str)
        ensures
            r@ == self@.address,
    {
        self.address.as_str()
    }

    pub fn transport(&self) -> (r: Transport)
        ensures
            r == self@.transport,
    {
        self.transport
    }

    pub fn codec(&self) -> (r: Codec)
        ensures
            r == self@.codec,
    {
        self.codec
    }

    pub fn handler(&self) -> (r: Handler)
        ensures
            r == self@.handler,
    {
        self.handler
    }

    pub fn slow(&self) -> (r: bool)
        ensures
            r == self@.slow,
    {
        self.slow
    }
}

} // verus!
