//! Application messages and the peer identity that transports supply.

use vstd::prelude::*;

verus! {

/// A decoded request or response.
pub enum Message {
    /// An opaque payload.
    Bytes(Vec<u8>),
    /// A point in three dimensions.
    Vector3 { x: u32, y: u32, z: u32 },
}

/// What a `Message` holds, as mathematical values.
pub enum MessageView {
    Bytes(Seq<u8>),
    Vector3 { x: u32, y: u32, z: u32 },
}

impl View for Message {
    type V = MessageView;

    open spec fn view(&self) -> MessageView {
        match self {
            Message::Bytes(b) => MessageView::Bytes(b@),
            Message::Vector3 { x, y, z } => MessageView::Vector3 { x: *x, y: *y, z: *z },
        }
    }
}

/// The remote endpoint of a connection or datagram, as the transport names it.
pub struct PeerInfo {
    pub address: String,
}

} // verus!
