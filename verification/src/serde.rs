//! Serialization and deserialization of [`Message`](crate::Message) values.
//!
//! The wire format is little-endian throughout:
//!
//! ```text
//! [id: 4 bytes] [kind: 1 byte] [variant discriminant: 1 byte] [fields...]
//! ```
//!
//! Fixed-width integers are written as their little-endian bytes, booleans as
//! a single `0`/`1` byte, optional values as a `0`/`1` tag byte followed by
//! the value when present, and variable-length blobs and text as a 64-bit
//! little-endian length followed by the raw bytes.  Decoding accepts exactly
//! the byte strings that encoding produces and reports a specific
//! [`error::Deserialize`] value for every malformed input.

use vstd::prelude::*;

use crate::request::Request;
use crate::response::Response;
use crate::Message;
use crate::MessageContent;

use deserializer::Deserializable;
use serializer::Serializable;

pub mod consts;
pub mod deserializer;
pub mod error;
pub mod lemmas;
pub mod serializer;
pub mod utils;
pub mod wire;

verus! {

/// Serialize a message: the 32-bit id, the kind byte, then the body.
///
/// Serialization is total: it succeeds for every constructible message.
pub fn serialize(msg: Message) -> (r: Vec<u8>)
    ensures
        r@ == wire::spec_encode_msg(msg@),
{
    let mut buffer: Vec<u8> = Vec::new();
    utils::serialize_u32(msg.id, &mut buffer);
    match &msg.content {
        MessageContent::Request(req) => {
            buffer.push(consts::MSG_KIND_REQUEST);
            req.serialize(&mut buffer);
        },
        MessageContent::Response(res) => {
            buffer.push(consts::MSG_KIND_RESPONSE);
            res.serialize(&mut buffer);
        },
    }
    proof {
        assert(buffer@ =~= wire::spec_encode_msg(msg@));
    }
    buffer
}

/// Deserialize a request body from `bytes`, starting at `*pos`.
pub fn deserialize_request(bytes: &[u8], pos: &mut usize) -> (r: Result<Request, error::Deserialize>)
    requires
        *old(pos) <= bytes@.len(),
    ensures
        *final(pos) <= bytes@.len(),
        match (r, wire::spec_take_request(bytes@.skip(*old(pos) as int))) {
            (Ok(v), Ok(p)) => v@ == p.0 && *final(pos) == *old(pos) + p.1,
            (Err(e1), Err(e2)) => e1 == e2,
            _ => false,
        },
{
    Request::deserialize(bytes, pos)
}

/// Deserialize a response body from `bytes`, starting at `*pos`.
pub fn deserialize_response(bytes: &[u8], pos: &mut usize) -> (r: Result<
    Response,
    error::Deserialize,
>)
    requires
        *old(pos) <= bytes@.len(),
    ensures
        *final(pos) <= bytes@.len(),
        match (r, wire::spec_take_response(bytes@.skip(*old(pos) as int))) {
            (Ok(v), Ok(p)) => v@ == p.0 && *final(pos) == *old(pos) + p.1,
            (Err(e1), Err(e2)) => e1 == e2,
            _ => false,
        },
{
    Response::deserialize(bytes, pos)
}

/// Deserialize a whole message.
///
/// The result is exactly what [`wire::spec_decode_msg`] prescribes: the
/// decoded message when `bytes` is a complete, well-formed encoding, and the
/// precise [`error::Deserialize`] value otherwise — in particular, bytes
/// left over after the body are an [`error::Deserialize::ExtraDataLeft`]
/// error, never silently ignored.
pub fn deserialize(bytes: &[u8]) -> (r: Result<Message, error::Deserialize>)
    ensures
        match (r, wire::spec_decode_msg(bytes@)) {
            (Ok(m), Ok(mv)) => m@ == mv,
            (Err(e1), Err(e2)) => e1 == e2,
            _ => false,
        },
        r matches Ok(m) ==> bytes@ == wire::spec_encode_msg(m@),
{
    proof {
        lemmas::lemma_decode_canonical(bytes@);
    }
    let mut pos: usize = 0;
    proof {
        assert(bytes@.skip(0) =~= bytes@);
    }
    let msg_id = match utils::deserialize_u32(bytes, &mut pos) {
        Ok(v) => v,
        Err(e) => {
            return Err(e);
        },
    };
    let msg_type = match utils::next_byte(bytes, &mut pos) {
        Ok(v) => v,
        Err(e) => {
            return Err(e);
        },
    };
    if msg_type == consts::MSG_KIND_REQUEST {
        match Request::deserialize(bytes, &mut pos) {
            Ok(req) => {
                if pos == bytes.len() {
                    Ok(Message::new_request(req, msg_id))
                } else {
                    Err(error::Deserialize::ExtraDataLeft(bytes.len() - pos))
                }
            },
            Err(e) => Err(e),
        }
    } else if msg_type == consts::MSG_KIND_RESPONSE {
        match Response::deserialize(bytes, &mut pos) {
            Ok(res) => {
                if pos == bytes.len() {
                    Ok(Message::new_response(res, msg_id))
                } else {
                    Err(error::Deserialize::ExtraDataLeft(bytes.len() - pos))
                }
            },
            Err(e) => Err(e),
        }
    } else {
        Err(error::Deserialize::IllegalMessageType(msg_type))
    }
}

} // verus!
