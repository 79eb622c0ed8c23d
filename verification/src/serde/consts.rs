//! The single source of truth for the wire discriminant bytes.
//!
//! Each tagged union owns a disjoint numeric band: the message kind bytes sit
//! below 10, request discriminants occupy 10 through 30, and response
//! discriminants occupy 40 through 60.  A value, once assigned, is never
//! reused for a different variant.

use vstd::prelude::*;

verus! {

/// Byte for representing that an optional value is empty.
pub const OPTIONAL_EMPTY: u8 = 0;

/// Byte for representing that an optional value is present.
pub const OPTIONAL_EXIST: u8 = 1;

/// Kind byte for a message that carries a request.
pub const MSG_KIND_REQUEST: u8 = 4;

/// Kind byte for a message that carries a response.
pub const MSG_KIND_RESPONSE: u8 = 6;

// reserve 7~9

// REQUESTS - 10~30

/// Discriminant of [`Request::Ping`](crate::request::Request::Ping).
pub const REQ_KIND_PING: u8 = 10;

/// Discriminant of [`Request::Handshake`](crate::request::Request::Handshake).
pub const REQ_KIND_HANDSHAKE: u8 = 11;

/// Discriminant of [`Request::PostResults`](crate::request::Request::PostResults).
pub const REQ_KIND_POST_RESULTS: u8 = 12;

/// Discriminant of [`Request::PostStats`](crate::request::Request::PostStats).
pub const REQ_KIND_POST_STATS: u8 = 13;

/// Discriminant of [`Request::SendNotification`](crate::request::Request::SendNotification).
pub const REQ_KIND_SEND_NOTIFICATION: u8 = 14;

/// Discriminant of [`Request::GetSettings`](crate::request::Request::GetSettings).
pub const REQ_KIND_GET_SETTINGS: u8 = 15;

/// Discriminant of [`Request::UpdateCheck`](crate::request::Request::UpdateCheck).
pub const REQ_KIND_UPDATE_CHECK: u8 = 16;

/// Discriminant of [`Request::NextUpdateChunk`](crate::request::Request::NextUpdateChunk).
pub const REQ_KIND_NEXT_UPDATE_CHUNK: u8 = 17;

/// Discriminant of [`Request::ReportFirmwareUpdate`](crate::request::Request::ReportFirmwareUpdate).
pub const REQ_KIND_REPORT_FWU: u8 = 18;

/// Discriminant of [`Request::Bye`](crate::request::Request::Bye).
pub const REQ_KIND_BYE: u8 = 19;

// reserve 20~30

// RESPONSES - 40~60

/// Discriminant of [`Response::Pong`](crate::response::Response::Pong).
pub const RES_KIND_PONG: u8 = 40;

/// Discriminant of [`Response::Ok`](crate::response::Response::Ok).
pub const RES_KIND_OK: u8 = 41;

/// Discriminant of [`Response::Reject`](crate::response::Response::Reject).
pub const RES_KIND_REJECT: u8 = 42;

/// Discriminant of [`Response::InvalidRequest`](crate::response::Response::InvalidRequest).
pub const RES_KIND_INVALID_REQ: u8 = 43;

/// Discriminant of [`Response::RateLimitExceeded`](crate::response::Response::RateLimitExceeded).
pub const RES_KIND_RLE: u8 = 44;

/// Discriminant of [`Response::InternalServerError`](crate::response::Response::InternalServerError).
pub const RES_KIND_ISE: u8 = 45;

/// Discriminant of [`Response::Stalling`](crate::response::Response::Stalling).
pub const RES_KIND_STALLING: u8 = 46;

/// Discriminant of [`Response::FirmwareUpToDate`](crate::response::Response::FirmwareUpToDate).
pub const RES_KIND_FW_UTD: u8 = 47;

/// Discriminant of [`Response::UpdateAvailable`](crate::response::Response::UpdateAvailable).
pub const RES_KIND_FW_UAVAIL: u8 = 48;

/// Discriminant of [`Response::UpdatePart`](crate::response::Response::UpdatePart).
pub const RES_KIND_FW_UPART: u8 = 49;

/// Discriminant of [`Response::UpdateEnd`](crate::response::Response::UpdateEnd).
pub const RES_KIND_FW_UEND: u8 = 50;

/// Discriminant of [`Response::Settings`](crate::response::Response::Settings).
pub const RES_KIND_SETTINGS: u8 = 51;

// reserve 52~60

} // verus!
