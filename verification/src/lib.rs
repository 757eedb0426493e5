//! A server-side WebSocket engine: the frame codec, the opening handshake
//! and the life of a connection, with their behaviour stated in contracts.
//!
//! Reading and writing sockets is left to the caller. The library turns
//! the bytes of a request into the bytes of its answer, buffered bytes
//! into frames and back, and events on a connection into calls of a
//! handler.

use vstd::prelude::*;

pub mod buffer;
pub mod endian;
pub mod frame;
pub mod handshake;
pub mod message;
pub mod session;
pub mod text;

verus! {

/// A request of a client, by the resource that it names.
pub struct Request {
    pub id: String,
    pub resource: String,
    pub message: String,
}

/// What is sent back for a request.
pub struct Response {
    pub message: String,
}

/// What a handler of one connection is called with.
///
/// A handler has to say what it does when the connection is closed. Of
/// the opening and of messages it may take no notice.
pub trait SocketCallback {
    /// The connection is open.
    fn on_open(&mut self) {
    }

    /// The connection is closed, with the status code and the text that
    /// the peer gave for it, if any.
    fn on_close(&mut self, close_code: Option<u32>, reason: String);

    /// A text message came.
    fn on_message(&mut self, frame: message::Message) {
        let _ = frame;
    }
}

} // verus!
