//! The mathematical description of the wire format.
//!
//! For every kind of value the protocol carries there is a `spec_encode_*`
//! function giving the exact byte sequence written for it, and a
//! `spec_take_*` function giving what decoding reads from the front of a byte
//! sequence: either the decoded abstract value together with the number of
//! bytes consumed, or the precise [`Deserialize`] error.  The executable
//! codec in the surrounding modules is proved to follow these functions
//! exactly, and the lemmas in [`super::lemmas`] relate the two directions.

use vstd::prelude::*;
use vstd::utf8::{decode_utf8, encode_utf8, valid_utf8};

use crate::mac::Mac;
use crate::request::RequestView;
use crate::response::ResponseView;
use crate::settings::NodeSettings;
use crate::version::Version;
use crate::MessageContentView;
use crate::MessageView;

use super::consts;
use super::error::Deserialize;
use super::error::Utf8Error;

verus! {

/// Dropping `i` bytes and then `j` more drops `i + j` bytes.
pub proof fn lemma_skip_skip(b: Seq<u8>, i: int, j: int)
    requires
        0 <= i,
        0 <= j,
        i + j <= b.len(),
    ensures
        b.skip(i).skip(j) == b.skip(i + j),
{
    assert(b.skip(i).skip(j) =~= b.skip(i + j));
}

// ---------------------------------------------------------------------------
// Little-endian fixed-width integers
// ---------------------------------------------------------------------------

/// The two little-endian bytes of a 16-bit integer.
pub open spec fn spec_u16_le(v: u16) -> Seq<u8> {
    seq![(v % 256) as u8, ((v / 256) % 256) as u8]
}

/// The four little-endian bytes of a 32-bit integer.
pub open spec fn spec_u32_le(v: u32) -> Seq<u8> {
    seq![
        (v % 256) as u8,
        ((v / 256) % 256) as u8,
        ((v / 65536) % 256) as u8,
        ((v / 16777216) % 256) as u8,
    ]
}

/// The eight little-endian bytes of a 64-bit integer.
pub open spec fn spec_u64_le(v: u64) -> Seq<u8> {
    seq![
        (v % 256) as u8,
        ((v / 256) % 256) as u8,
        ((v / 65536) % 256) as u8,
        ((v / 16777216) % 256) as u8,
        ((v / 4294967296) % 256) as u8,
        ((v / 1099511627776) % 256) as u8,
        ((v / 281474976710656) % 256) as u8,
        ((v / 72057594037927936) % 256) as u8,
    ]
}

/// The 16-bit value held by two little-endian bytes.
pub open spec fn spec_u16_of(b0: u8, b1: u8) -> u16 {
    (b0 + 256 * b1) as u16
}

/// The 32-bit value held by four little-endian bytes.
pub open spec fn spec_u32_of(b0: u8, b1: u8, b2: u8, b3: u8) -> u32 {
    (b0 + 256 * b1 + 65536 * b2 + 16777216 * b3) as u32
}

/// The 64-bit value held by eight little-endian bytes.
pub open spec fn spec_u64_of(
    b0: u8,
    b1: u8,
    b2: u8,
    b3: u8,
    b4: u8,
    b5: u8,
    b6: u8,
    b7: u8,
) -> u64 {
    (b0 + 256 * b1 + 65536 * b2 + 16777216 * b3 + 4294967296 * b4 + 1099511627776 * b5
        + 281474976710656 * b6 + 72057594037927936 * b7) as u64
}

/// The single byte that encodes a boolean.
pub open spec fn spec_bool_byte(v: bool) -> u8 {
    if v {
        consts::OPTIONAL_EXIST
    } else {
        consts::OPTIONAL_EMPTY
    }
}

/// The single byte that encodes a signed 8-bit value (two's complement).
pub open spec fn spec_i8_byte(v: i8) -> u8 {
    if v >= 0 {
        v as u8
    } else {
        (v + 256) as u8
    }
}

/// The signed 8-bit value held by one byte (two's complement).
pub open spec fn spec_i8_of(b: u8) -> i8 {
    if b < 128 {
        b as i8
    } else {
        (b - 256) as i8
    }
}

// ---------------------------------------------------------------------------
// Encoding
// ---------------------------------------------------------------------------

/// A length-prefixed blob: a 64-bit little-endian length, then the raw bytes.
pub open spec fn spec_encode_blob(b: Seq<u8>) -> Seq<u8> {
    spec_u64_le(b.len() as u64) + b
}

/// Text is encoded as the blob of its UTF-8 bytes.
pub open spec fn spec_encode_text(s: Seq<char>) -> Seq<u8> {
    spec_encode_blob(encode_utf8(s))
}

/// An optional 16-bit value: a presence byte, then the value if present.
pub open spec fn spec_encode_opt_u16(v: Option<u16>) -> Seq<u8> {
    match v {
        Option::None => seq![spec_bool_byte(false)],
        Option::Some(x) => seq![spec_bool_byte(true)] + spec_u16_le(x),
    }
}

/// A settings record: its five fields in declaration order, six bytes total.
pub open spec fn spec_encode_settings(s: NodeSettings) -> Seq<u8> {
    seq![spec_bool_byte(s.battery_ignore), spec_bool_byte(s.ota)] + spec_u16_le(s.sleep_time)
        + seq![spec_bool_byte(s.sbop), spec_bool_byte(s.mute_notifications)]
}

/// An optional settings record: a presence byte, then the record if present.
pub open spec fn spec_encode_opt_settings(v: Option<NodeSettings>) -> Seq<u8> {
    match v {
        Option::None => seq![spec_bool_byte(false)],
        Option::Some(s) => seq![spec_bool_byte(true)] + spec_encode_settings(s),
    }
}

/// A version: its three parts as three raw bytes, no prefix.
pub open spec fn spec_encode_version(v: Version) -> Seq<u8> {
    seq![v.major, v.middle, v.minor]
}

/// The encoding of a request body: its discriminant byte, then its fields in
/// declaration order with no further framing.
pub open spec fn spec_encode_request(r: RequestView) -> Seq<u8> {
    seq![r.type_id()] + match r {
        RequestView::Ping => Seq::<u8>::empty(),
        RequestView::Handshake { mac } => mac,
        RequestView::PostResults { temperature, humidity, air_pressure } => spec_u32_le(
            temperature.bits,
        ) + seq![humidity] + spec_encode_opt_u16(air_pressure),
        RequestView::PostStats { battery, wifi_ssid, wifi_rssi } => spec_u32_le(battery.bits)
            + spec_encode_text(wifi_ssid) + seq![spec_i8_byte(wifi_rssi)],
        RequestView::SendNotification(content) => spec_encode_text(content),
        RequestView::GetSettings => Seq::<u8>::empty(),
        RequestView::UpdateCheck(current_ver) => spec_encode_version(current_ver),
        RequestView::NextUpdateChunk(size) => spec_u64_le(size),
        RequestView::ReportFirmwareUpdate(good) => seq![spec_bool_byte(good)],
        RequestView::Bye => Seq::<u8>::empty(),
    }
}

/// The encoding of a response body: its discriminant byte, then its fields.
pub open spec fn spec_encode_response(r: ResponseView) -> Seq<u8> {
    seq![r.type_id()] + match r {
        ResponseView::UpdateAvailable(new_version) => spec_encode_version(new_version),
        ResponseView::UpdatePart(blob) => spec_encode_blob(blob),
        ResponseView::Settings(settings) => spec_encode_opt_settings(settings),
        _ => Seq::<u8>::empty(),
    }
}

/// The encoding of a message body: the kind byte, then the body.
pub open spec fn spec_encode_content(c: MessageContentView) -> Seq<u8> {
    match c {
        MessageContentView::Request(r) => seq![consts::MSG_KIND_REQUEST] + spec_encode_request(r),
        MessageContentView::Response(r) => seq![consts::MSG_KIND_RESPONSE] + spec_encode_response(
            r,
        ),
    }
}

/// The encoding of a whole message: the 32-bit id, then the body.
pub open spec fn spec_encode_msg(m: MessageView) -> Seq<u8> {
    spec_u32_le(m.id) + spec_encode_content(m.content)
}

// ---------------------------------------------------------------------------
// Well-formed abstract values
// ---------------------------------------------------------------------------

/// A request whose variable-length parts a real value can hold: the address
/// is six octets and text is at most `u64::MAX` bytes of UTF-8.  Every value
/// built from a real [`crate::request::Request`] satisfies this.
pub open spec fn wf_request(r: RequestView) -> bool {
    match r {
        RequestView::Handshake { mac } => mac.len() == 6,
        RequestView::PostStats { wifi_ssid, .. } => encode_utf8(wifi_ssid).len() <= u64::MAX,
        RequestView::SendNotification(content) => encode_utf8(content).len() <= u64::MAX,
        _ => true,
    }
}

/// A response whose blob a real value can hold.
pub open spec fn wf_response(r: ResponseView) -> bool {
    match r {
        ResponseView::UpdatePart(blob) => blob.len() <= u64::MAX,
        _ => true,
    }
}

/// A message whose body is well-formed.
pub open spec fn wf_msg(m: MessageView) -> bool {
    match m.content {
        MessageContentView::Request(r) => wf_request(r),
        MessageContentView::Response(r) => wf_response(r),
    }
}

// ---------------------------------------------------------------------------
// Decoding
// ---------------------------------------------------------------------------

/// Read one byte from the front of `b`.
pub open spec fn spec_take_u8(b: Seq<u8>) -> Result<(u8, int), Deserialize> {
    if b.len() >= 1 {
        Ok((b[0], 1))
    } else {
        Err(Deserialize::ExpectedOneMoreByte)
    }
}

/// Read a 16-bit little-endian integer from the front of `b`.
pub open spec fn spec_take_u16(b: Seq<u8>) -> Result<(u16, int), Deserialize> {
    if b.len() >= 2 {
        Ok((spec_u16_of(b[0], b[1]), 2))
    } else {
        Err(Deserialize::ExpectedMoreBytes { expected: 2, got: b.len() as u64 })
    }
}

/// Read a 32-bit little-endian integer from the front of `b`.
pub open spec fn spec_take_u32(b: Seq<u8>) -> Result<(u32, int), Deserialize> {
    if b.len() >= 4 {
        Ok((spec_u32_of(b[0], b[1], b[2], b[3]), 4))
    } else {
        Err(Deserialize::ExpectedMoreBytes { expected: 4, got: b.len() as u64 })
    }
}

/// Read a 64-bit little-endian integer from the front of `b`.
pub open spec fn spec_take_u64(b: Seq<u8>) -> Result<(u64, int), Deserialize> {
    if b.len() >= 8 {
        Ok((spec_u64_of(b[0], b[1], b[2], b[3], b[4], b[5], b[6], b[7]), 8))
    } else {
        Err(Deserialize::ExpectedMoreBytes { expected: 8, got: b.len() as u64 })
    }
}

/// Read a signed 8-bit integer from the front of `b`.
pub open spec fn spec_take_i8(b: Seq<u8>) -> Result<(i8, int), Deserialize> {
    if b.len() >= 1 {
        Ok((spec_i8_of(b[0]), 1))
    } else {
        Err(Deserialize::ExpectedOneMoreByte)
    }
}

/// Read a boolean from the front of `b`: one byte, `0` or `1`; any other
/// byte is an [`Deserialize::IllegalBoolean`] error.
pub open spec fn spec_take_bool(b: Seq<u8>) -> Result<(bool, int), Deserialize> {
    if b.len() >= 1 {
        if b[0] == 0 {
            Ok((false, 1))
        } else if b[0] == 1 {
            Ok((true, 1))
        } else {
            Err(Deserialize::IllegalBoolean(b[0]))
        }
    } else {
        Err(Deserialize::ExpectedOneMoreByte)
    }
}

/// Read `n` raw bytes from the front of `b`.
pub open spec fn spec_take_fixed(b: Seq<u8>, n: int) -> Result<(Seq<u8>, int), Deserialize> {
    if b.len() >= n {
        Ok((b.take(n), n))
    } else {
        Err(Deserialize::ExpectedMoreBytes { expected: n as u64, got: b.len() as u64 })
    }
}

/// Read a hardware address: exactly six raw bytes.
pub open spec fn spec_take_mac(b: Seq<u8>) -> Result<(Seq<u8>, int), Deserialize> {
    spec_take_fixed(b, 6)
}

/// Read a version: exactly three raw bytes, major then middle then minor.
pub open spec fn spec_take_version(b: Seq<u8>) -> Result<(Version, int), Deserialize> {
    if b.len() >= 3 {
        Ok((Version { major: b[0], middle: b[1], minor: b[2] }, 3))
    } else {
        Err(Deserialize::ExpectedMoreBytes { expected: 3, got: b.len() as u64 })
    }
}

/// Read a settings record: five fields in declaration order.
pub open spec fn spec_take_settings(b: Seq<u8>) -> Result<(NodeSettings, int), Deserialize> {
    match spec_take_bool(b) {
        Err(e) => Err(e),
        Ok((battery_ignore, _)) => match spec_take_bool(b.skip(1)) {
            Err(e) => Err(e),
            Ok((ota, _)) => match spec_take_u16(b.skip(2)) {
                Err(e) => Err(e),
                Ok((sleep_time, _)) => match spec_take_bool(b.skip(4)) {
                    Err(e) => Err(e),
                    Ok((sbop, _)) => match spec_take_bool(b.skip(5)) {
                        Err(e) => Err(e),
                        Ok((mute_notifications, _)) => Ok(
                            (
                                NodeSettings {
                                    battery_ignore,
                                    ota,
                                    sleep_time,
                                    sbop,
                                    mute_notifications,
                                },
                                6,
                            ),
                        ),
                    },
                },
            },
        },
    }
}

/// Read a length-prefixed blob: a 64-bit length, then exactly that many bytes.
pub open spec fn spec_take_blob(b: Seq<u8>) -> Result<(Seq<u8>, int), Deserialize> {
    match spec_take_u64(b) {
        Err(e) => Err(e),
        Ok((n, _)) => {
            if b.len() - 8 >= n {
                Ok((b.skip(8).take(n as int), 8 + n))
            } else {
                Err(
                    Deserialize::ExpectedMoreBytes {
                        expected: n,
                        got: (b.len() - 8) as u64,
                    },
                )
            }
        },
    }
}

/// Length of the longest prefix of `b` that is valid UTF-8.
pub open spec fn spec_utf8_valid_up_to(b: Seq<u8>) -> int
    decreases b.len(),
{
    if valid_utf8(b) {
        b.len() as int
    } else if b.len() == 0 {
        0
    } else {
        spec_utf8_valid_up_to(b.take(b.len() - 1))
    }
}

/// Read a text field: a blob whose bytes must form valid UTF-8.
pub open spec fn spec_take_text(b: Seq<u8>) -> Result<(Seq<char>, int), Deserialize> {
    match spec_take_blob(b) {
        Err(e) => Err(e),
        Ok((bytes, n)) => {
            if valid_utf8(bytes) {
                Ok((decode_utf8(bytes), n))
            } else {
                Err(
                    Deserialize::IllegalUtf8String(
                        Utf8Error { valid_up_to: spec_utf8_valid_up_to(bytes) as usize },
                    ),
                )
            }
        },
    }
}

/// Read an optional 16-bit value: a presence byte, then the value if present.
pub open spec fn spec_take_opt_u16(b: Seq<u8>) -> Result<(Option<u16>, int), Deserialize> {
    match spec_take_bool(b) {
        Err(e) => Err(e),
        Ok((present, _)) => {
            if !present {
                Ok((Option::None, 1))
            } else {
                match spec_take_u16(b.skip(1)) {
                    Err(e) => Err(e),
                    Ok((v, n)) => Ok((Option::Some(v), 1 + n)),
                }
            }
        },
    }
}

/// Read an optional settings record.
pub open spec fn spec_take_opt_settings(b: Seq<u8>) -> Result<
    (Option<NodeSettings>, int),
    Deserialize,
> {
    match spec_take_bool(b) {
        Err(e) => Err(e),
        Ok((present, _)) => {
            if !present {
                Ok((Option::None, 1))
            } else {
                match spec_take_settings(b.skip(1)) {
                    Err(e) => Err(e),
                    Ok((v, n)) => Ok((Option::Some(v), 1 + n)),
                }
            }
        },
    }
}

/// Read a request body: the discriminant byte, then the variant's fields.
/// An unknown discriminant is an [`Deserialize::IllegalRequestType`] error.
pub open spec fn spec_take_request(b: Seq<u8>) -> Result<(RequestView, int), Deserialize> {
    match spec_take_u8(b) {
        Err(e) => Err(e),
        Ok((t, _)) => {
            let rest = b.skip(1);
            if t == consts::REQ_KIND_PING {
                Ok((RequestView::Ping, 1))
            } else if t == consts::REQ_KIND_HANDSHAKE {
                match spec_take_mac(rest) {
                    Err(e) => Err(e),
                    Ok((mac, n)) => Ok((RequestView::Handshake { mac }, 1 + n)),
                }
            } else if t == consts::REQ_KIND_POST_RESULTS {
                match spec_take_u32(rest) {
                    Err(e) => Err(e),
                    Ok((bits, n1)) => match spec_take_u8(rest.skip(n1)) {
                        Err(e) => Err(e),
                        Ok((humidity, n2)) => match spec_take_opt_u16(rest.skip(n1 + n2)) {
                            Err(e) => Err(e),
                            Ok((air_pressure, n3)) => Ok(
                                (
                                    RequestView::PostResults {
                                        temperature: crate::aliases::FloatBits { bits },
                                        humidity,
                                        air_pressure,
                                    },
                                    1 + n1 + n2 + n3,
                                ),
                            ),
                        },
                    },
                }
            } else if t == consts::REQ_KIND_POST_STATS {
                match spec_take_u32(rest) {
                    Err(e) => Err(e),
                    Ok((bits, n1)) => match spec_take_text(rest.skip(n1)) {
                        Err(e) => Err(e),
                        Ok((wifi_ssid, n2)) => match spec_take_i8(rest.skip(n1 + n2)) {
                            Err(e) => Err(e),
                            Ok((wifi_rssi, n3)) => Ok(
                                (
                                    RequestView::PostStats {
                                        battery: crate::aliases::FloatBits { bits },
                                        wifi_ssid,
                                        wifi_rssi,
                                    },
                                    1 + n1 + n2 + n3,
                                ),
                            ),
                        },
                    },
                }
            } else if t == consts::REQ_KIND_SEND_NOTIFICATION {
                match spec_take_text(rest) {
                    Err(e) => Err(e),
                    Ok((content, n)) => Ok((RequestView::SendNotification(content), 1 + n)),
                }
            } else if t == consts::REQ_KIND_GET_SETTINGS {
                Ok((RequestView::GetSettings, 1))
            } else if t == consts::REQ_KIND_UPDATE_CHECK {
                match spec_take_version(rest) {
                    Err(e) => Err(e),
                    Ok((version, n)) => Ok((RequestView::UpdateCheck(version), 1 + n)),
                }
            } else if t == consts::REQ_KIND_NEXT_UPDATE_CHUNK {
                match spec_take_u64(rest) {
                    Err(e) => Err(e),
                    Ok((amount, n)) => Ok((RequestView::NextUpdateChunk(amount), 1 + n)),
                }
            } else if t == consts::REQ_KIND_REPORT_FWU {
                match spec_take_bool(rest) {
                    Err(e) => Err(e),
                    Ok((success, n)) => Ok((RequestView::ReportFirmwareUpdate(success), 1 + n)),
                }
            } else if t == consts::REQ_KIND_BYE {
                Ok((RequestView::Bye, 1))
            } else {
                Err(Deserialize::IllegalRequestType(t))
            }
        },
    }
}

/// Read a response body: the discriminant byte, then the variant's fields.
/// An unknown discriminant is an [`Deserialize::IllegalResponseType`] error.
pub open spec fn spec_take_response(b: Seq<u8>) -> Result<(ResponseView, int), Deserialize> {
    match spec_take_u8(b) {
        Err(e) => Err(e),
        Ok((t, _)) => {
            let rest = b.skip(1);
            if t == consts::RES_KIND_PONG {
                Ok((ResponseView::Pong, 1))
            } else if t == consts::RES_KIND_OK {
                Ok((ResponseView::Okay, 1))
            } else if t == consts::RES_KIND_REJECT {
                Ok((ResponseView::Reject, 1))
            } else if t == consts::RES_KIND_INVALID_REQ {
                Ok((ResponseView::InvalidRequest, 1))
            } else if t == consts::RES_KIND_RLE {
                Ok((ResponseView::RateLimitExceeded, 1))
            } else if t == consts::RES_KIND_ISE {
                Ok((ResponseView::InternalServerError, 1))
            } else if t == consts::RES_KIND_STALLING {
                Ok((ResponseView::Stalling, 1))
            } else if t == consts::RES_KIND_FW_UTD {
                Ok((ResponseView::FirmwareUpToDate, 1))
            } else if t == consts::RES_KIND_FW_UAVAIL {
                match spec_take_version(rest) {
                    Err(e) => Err(e),
                    Ok((version, n)) => Ok((ResponseView::UpdateAvailable(version), 1 + n)),
                }
            } else if t == consts::RES_KIND_FW_UPART {
                match spec_take_blob(rest) {
                    Err(e) => Err(e),
                    Ok((blob, n)) => Ok((ResponseView::UpdatePart(blob), 1 + n)),
                }
            } else if t == consts::RES_KIND_FW_UEND {
                Ok((ResponseView::UpdateEnd, 1))
            } else if t == consts::RES_KIND_SETTINGS {
                match spec_take_opt_settings(rest) {
                    Err(e) => Err(e),
                    Ok((settings, n)) => Ok((ResponseView::Settings(settings), 1 + n)),
                }
            } else {
                Err(Deserialize::IllegalResponseType(t))
            }
        },
    }
}

/// Decode a whole message from `b`: the 32-bit id, the kind byte, the body,
/// and — after the body — a check that not a single byte is left over.
pub open spec fn spec_decode_msg(b: Seq<u8>) -> Result<MessageView, Deserialize> {
    match spec_take_u32(b) {
        Err(e) => Err(e),
        Ok((id, _)) => match spec_take_u8(b.skip(4)) {
            Err(e) => Err(e),
            Ok((kind, _)) => {
                if kind == consts::MSG_KIND_REQUEST {
                    match spec_take_request(b.skip(5)) {
                        Err(e) => Err(e),
                        Ok((r, n)) => {
                            if 5 + n == b.len() {
                                Ok(MessageView { id, content: MessageContentView::Request(r) })
                            } else {
                                Err(Deserialize::ExtraDataLeft((b.len() - 5 - n) as usize))
                            }
                        },
                    }
                } else if kind == consts::MSG_KIND_RESPONSE {
                    match spec_take_response(b.skip(5)) {
                        Err(e) => Err(e),
                        Ok((r, n)) => {
                            if 5 + n == b.len() {
                                Ok(MessageView { id, content: MessageContentView::Response(r) })
                            } else {
                                Err(Deserialize::ExtraDataLeft((b.len() - 5 - n) as usize))
                            }
                        },
                    }
                } else {
                    Err(Deserialize::IllegalMessageType(kind))
                }
            },
        },
    }
}

} // verus!
