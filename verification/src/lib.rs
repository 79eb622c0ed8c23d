//! Wire message model for a sensor-node telemetry protocol.
//!
//! A [`Message`] pairs a correlation id with either a [`request::Request`] or a
//! [`response::Response`] body.  The [`serde`] module turns messages into a
//! compact little-endian byte stream and back, and proves that the two
//! directions are exact inverses of one another.

use vstd::prelude::*;

pub mod aliases;
pub mod kick;
pub mod mac;
pub mod request;
pub mod response;
pub mod serde;
pub mod settings;
pub mod version;

verus! {

/// Message ID type.
pub type MsgId = u32;

/// A Message object.
/// Can either be a request or a response.
#[derive(Debug, Clone, PartialEq)]
pub struct Message {
    /// ID of this message, chosen by the sender to correlate a response with
    /// its request.  This core imposes no uniqueness invariant on it.
    pub id: MsgId,

    /// Actual content of the message, which can be either a request or a
    /// response.
    pub content: MessageContent,
}

/// A wrapper for the contents of the message: exactly one of the two bodies,
/// never both, never neither.
#[derive(Debug, Clone, PartialEq)]
pub enum MessageContent {
    /// The message carries a request.
    Request(request::Request),
    /// The message carries a response.
    Response(response::Response),
}

/// The abstract value of a [`MessageContent`].
pub enum MessageContentView {
    /// Abstraction of [`MessageContent::Request`].
    Request(request::RequestView),
    /// Abstraction of [`MessageContent::Response`].
    Response(response::ResponseView),
}

/// The abstract value of a [`Message`].
pub struct MessageView {
    /// The correlation id.
    pub id: MsgId,
    /// The abstract body.
    pub content: MessageContentView,
}

impl View for MessageContent {
    type V = MessageContentView;

    open spec fn view(&self) -> MessageContentView {
        match self {
            MessageContent::Request(r) => MessageContentView::Request(r@),
            MessageContent::Response(r) => MessageContentView::Response(r@),
        }
    }
}

impl View for Message {
    type V = MessageView;

    open spec fn view(&self) -> MessageView {
        MessageView { id: self.id, content: self.content@ }
    }
}

impl Message {
    /// Wrap a request and assign the given ID to the message.
    pub fn new_request(req: request::Request, id: MsgId) -> (r: Self)
        ensures
            r@ == (MessageView { id, content: MessageContentView::Request(req@) }),
    {
        Message { id, content: MessageContent::Request(req) }
    }

    /// Wrap a response and assign the given ID to the message.
    pub fn new_response(res: response::Response, id: MsgId) -> (r: Self)
        ensures
            r@ == (MessageView { id, content: MessageContentView::Response(res@) }),
    {
        Message { id, content: MessageContent::Response(res) }
    }

    /// Serialize the message into raw bytes.
    ///
    /// Serialization is total: it succeeds for every constructible message
    /// and returns exactly the bytes that
    /// [`serde::wire::spec_encode_msg`] describes.
    pub fn serialize(self) -> (r: Vec<u8>)
        ensures
            r@ == serde::wire::spec_encode_msg(self@),
    {
        serde::serialize(self)
    }

    /// Deserialize a message from raw bytes.
    ///
    /// Returns `Some` exactly when `bytes` is a complete, well-formed
    /// encoding of a message, and that message is the decoded one; the
    /// specific decode error is available through
    /// [`serde::deserialize`].
    pub fn deserialize(bytes: &[u8]) -> (r: Option<Self>)
        ensures
            match (r, serde::wire::spec_decode_msg(bytes@)) {
                (Some(m), Ok(mv)) => m@ == mv,
                (None, Err(_)) => true,
                _ => false,
            },
            r matches Some(m) ==> bytes@ == serde::wire::spec_encode_msg(m@),
    {
        match serde::deserialize(bytes) {
            Ok(m) => Some(m),
            Err(_) => None,
        }
    }

    /// Returns a reference to the contained [`request::Request`].
    /// If the message contains a [`response::Response`] instead, `None` is
    /// returned.
    pub fn request(&self) -> (r: Option<&request::Request>)
        ensures
            match r {
                Some(req) => self@.content == MessageContentView::Request(req@),
                None => self@.content is Response,
            },
    {
        if let MessageContent::Request(req) = &self.content {
            Some(req)
        } else {
            None
        }
    }

    /// Returns a reference to the contained [`response::Response`].
    /// If the message contains a [`request::Request`] instead, `None` is
    /// returned.
    pub fn response(&self) -> (r: Option<&response::Response>)
        ensures
            match r {
                Some(res) => self@.content == MessageContentView::Response(res@),
                None => self@.content is Request,
            },
    {
        if let MessageContent::Response(res) = &self.content {
            Some(res)
        } else {
            None
        }
    }

    /// Similar to [`request()`](Self::request), but consumes the message.
    pub fn take_request(self) -> (r: Option<request::Request>)
        ensures
            match r {
                Some(req) => self@.content == MessageContentView::Request(req@),
                None => self@.content is Response,
            },
    {
        if let MessageContent::Request(req) = self.content {
            Some(req)
        } else {
            None
        }
    }

    /// Similar to [`response()`](Self::response), but consumes the message.
    pub fn take_response(self) -> (r: Option<response::Response>)
        ensures
            match r {
                Some(res) => self@.content == MessageContentView::Response(res@),
                None => self@.content is Request,
            },
    {
        if let MessageContent::Response(res) = self.content {
            Some(res)
        } else {
            None
        }
    }

    /// Returns the message ID.
    pub fn id(&self) -> (r: MsgId)
        ensures
            r == self@.id,
    {
        self.id
    }
}

} // verus!
