//! WebSocket messages as the relay reads them, and which of them become a
//! datagram with what payload.

use vstd::prelude::*;

verus! {

/// The body of a close message: a status code and the reason, as raw bytes.
#[derive(Debug, PartialEq, Eq)]
pub struct CloseFrame {
    pub code: u16,
    pub reason: Vec<u8>,
}

/// One message received on an upgraded connection.
///
/// Text is held as the bytes that came over the wire: the relay forwards them
/// as they are and never decodes them.
#[derive(Debug, PartialEq, Eq)]
pub enum Message {
    /// Application text.
    Text(Vec<u8>),
    /// Application bytes.
    Binary(Vec<u8>),
    /// A ping with its payload.
    Ping(Vec<u8>),
    /// A pong with its payload.
    Pong(Vec<u8>),
    /// A close message, with its body if the peer sent one.
    Close(Option<CloseFrame>),
    /// A raw frame, given by its payload.
    Frame(Vec<u8>),
}

impl Message {
    /// The bytes that the message carries, whatever its kind. A close message
    /// carries its reason, or nothing where it has no body.
    pub open spec fn data(self) -> Seq<u8> {
        match self {
            Message::Text(b) => b@,
            Message::Binary(b) => b@,
            Message::Ping(b) => b@,
            Message::Pong(b) => b@,
            Message::Close(None) => Seq::empty(),
            Message::Close(Some(body)) => body.reason@,
            Message::Frame(b) => b@,
        }
    }

    /// Whether the message is application data: text or binary.
    pub open spec fn is_data(self) -> bool {
        self is Text || self is Binary
    }

    /// Whether the message is one of the control messages ping, pong and close.
    pub open spec fn is_control(self) -> bool {
        self is Ping || self is Pong || self is Close
    }

    /// The datagram payload that the message gives rise to: its bytes where
    /// it is application data, none otherwise.
    pub open spec fn forwarded(self) -> Option<Seq<u8>> {
        if self.is_data() {
            Some(self.data())
        } else {
            None
        }
    }

    /// Whether this is a text message.
    pub fn is_text(&self) -> (r: bool)
        ensures
            r == (*self is Text),
    {
        match self {
            Message::Text(_) => true,
            _ => false,
        }
    }

    /// Whether this is a binary message.
    pub fn is_binary(&self) -> (r: bool)
        ensures
            r == (*self is Binary),
    {
        match self {
            Message::Binary(_) => true,
            _ => false,
        }
    }

    /// Whether this is a close message.
    pub fn is_close(&self) -> (r: bool)
        ensures
            r == (*self is Close),
    {
        match self {
            Message::Close(_) => true,
            _ => false,
        }
    }

    /// Gives up the message for the bytes it carries.
    pub fn into_data(self) -> (r: Vec<u8>)
        ensures
            r@ == self.data(),
    {
        match self {
            Message::Text(b) => b,
            Message::Binary(b) => b,
            Message::Ping(b) => b,
            Message::Pong(b) => b,
            Message::Close(None) => Vec::new(),
            Message::Close(Some(body)) => body.reason,
            Message::Frame(b) => b,
        }
    }

    /// Translates the message into the payload of the datagram to send for it.
    ///
    /// Text and binary messages give their bytes unchanged; every other
    /// message gives nothing.
    pub fn translate(self) -> (r: Option<Vec<u8>>)
        ensures
            match r {
                Some(bytes) => self.forwarded() == Some(bytes@),
                None => self.forwarded() is None,
            },
    {
        if self.is_text() || self.is_binary() {
            Some(self.into_data())
        } else {
            None
        }
    }
}

/// Every message is application data or not, and only application data is
/// forwarded: a control message never gives a datagram, and a data message
/// always gives one with its own bytes.
pub proof fn lemma_forwarded_iff_data(m: Message)
    ensures
        m.is_control() ==> m.forwarded() is None,
        m.is_data() <==> m.forwarded() is Some,
        m.is_data() ==> m.forwarded() == Some(m.data()),
        !(m.is_data() && m.is_control()),
{
}

} // verus!
