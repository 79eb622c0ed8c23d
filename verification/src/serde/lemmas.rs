//! The laws of the codec.
//!
//! The public proof functions here state the guarantees of the wire format:
//! decoding inverts encoding exactly ([`lemma_round_trip`]), a truncated
//! encoding fails with an exhaustion error ([`lemma_truncation`]), trailing
//! bytes fail with [`Deserialize::ExtraDataLeft`] ([`lemma_trailing_data`]),
//! unknown discriminants fail with the matching `Illegal*Type` error, and a
//! text field that is not valid UTF-8 fails with
//! [`Deserialize::IllegalUtf8String`].

use vstd::prelude::*;
use vstd::utf8::{encode_utf8, valid_utf8};

use crate::request::RequestView;
use crate::response::ResponseView;
use crate::settings::NodeSettings;
use crate::version::Version;
use crate::MessageContentView;
use crate::MessageView;

use super::consts;
use super::error::Deserialize;
use super::error::Utf8Error;
use super::wire::{
    spec_bool_byte, spec_decode_msg, spec_encode_blob, spec_encode_content, spec_encode_msg,
    spec_encode_opt_settings, spec_encode_opt_u16, spec_encode_request, spec_encode_response,
    spec_encode_settings, spec_encode_text, spec_encode_version, spec_i8_byte, spec_take_blob,
    spec_take_bool, spec_take_i8, spec_take_mac, spec_take_opt_settings, spec_take_opt_u16,
    spec_take_request, spec_take_response, spec_take_settings, spec_take_text, spec_take_u16,
    spec_take_u32, spec_take_u64, spec_take_u8, spec_take_version, spec_i8_of, spec_u16_le, spec_u16_of,
    spec_u32_le, spec_u32_of, spec_u64_le, spec_u64_of, spec_utf8_valid_up_to, wf_msg, wf_request,
    wf_response,
};

verus! {

// ---------------------------------------------------------------------------
// Little-endian reconstruction
// ---------------------------------------------------------------------------

/// Reassembling the two little-endian bytes of `v` gives back `v`.
proof fn lemma_u16_reconstruct(v: u16)
    ensures
        spec_u16_of((v % 256) as u8, ((v / 256) % 256) as u8) == v,
{
    assert(v % 256 + 256 * (v / 256 % 256) == v) by (bit_vector);
}

/// Reassembling the four little-endian bytes of `v` gives back `v`.
proof fn lemma_u32_reconstruct(v: u32)
    ensures
        spec_u32_of(
            (v % 256) as u8,
            ((v / 256) % 256) as u8,
            ((v / 65536) % 256) as u8,
            ((v / 16777216) % 256) as u8,
        ) == v,
{
    assert(v % 256 + 256 * (v / 256 % 256) + 65536 * (v / 65536 % 256) + 16777216 * (v / 16777216
        % 256) == v) by (bit_vector);
}

/// Reassembling the eight little-endian bytes of `v` gives back `v`.
proof fn lemma_u64_reconstruct(v: u64)
    ensures
        spec_u64_of(
            (v % 256) as u8,
            ((v / 256) % 256) as u8,
            ((v / 65536) % 256) as u8,
            ((v / 16777216) % 256) as u8,
            ((v / 4294967296) % 256) as u8,
            ((v / 1099511627776) % 256) as u8,
            ((v / 281474976710656) % 256) as u8,
            ((v / 72057594037927936) % 256) as u8,
        ) == v,
{
    assert(v % 256 + 256 * (v / 256 % 256) + 65536 * (v / 65536 % 256) + 16777216 * (v / 16777216
        % 256) + 4294967296 * (v / 4294967296 % 256) + 1099511627776 * (v / 1099511627776 % 256)
        + 281474976710656 * (v / 281474976710656 % 256) + 72057594037927936 * (v
        / 72057594037927936 % 256) == v) by (bit_vector);
}

// ---------------------------------------------------------------------------
// Round trips with an arbitrary suffix
// ---------------------------------------------------------------------------
//
// Each of these says: decoding a byte sequence that starts with the encoding
// of `v` succeeds with `v` and consumes exactly the encoding, whatever
// follows.  Besides giving the round trip itself (with an empty suffix),
// this is what makes decoding of a composite deterministic: each field
// reads its own bytes and not one byte more.

/// Reading a 16-bit integer from its encoding, whatever follows.
proof fn lemma_take_u16_rt(v: u16, rest: Seq<u8>)
    ensures
        spec_take_u16(spec_u16_le(v) + rest) == Ok::<(u16, int), Deserialize>((v, 2)),
{
    lemma_u16_reconstruct(v);
}

/// Reading a 32-bit integer from its encoding, whatever follows.
proof fn lemma_take_u32_rt(v: u32, rest: Seq<u8>)
    ensures
        spec_take_u32(spec_u32_le(v) + rest) == Ok::<(u32, int), Deserialize>((v, 4)),
{
    lemma_u32_reconstruct(v);
}

/// Reading a 64-bit integer from its encoding, whatever follows.
proof fn lemma_take_u64_rt(v: u64, rest: Seq<u8>)
    ensures
        spec_take_u64(spec_u64_le(v) + rest) == Ok::<(u64, int), Deserialize>((v, 8)),
{
    lemma_u64_reconstruct(v);
}

/// Reading a boolean from its encoding, whatever follows.
proof fn lemma_take_bool_rt(v: bool, rest: Seq<u8>)
    ensures
        spec_take_bool(seq![spec_bool_byte(v)] + rest) == Ok::<(bool, int), Deserialize>((v, 1)),
{
}

/// Reading a signed 8-bit integer from its encoding, whatever follows.
proof fn lemma_take_i8_rt(v: i8, rest: Seq<u8>)
    ensures
        spec_take_i8(seq![spec_i8_byte(v)] + rest) == Ok::<(i8, int), Deserialize>((v, 1)),
{
}

/// Reading a blob from its encoding, whatever follows.
#[verifier::rlimit(100)]
proof fn lemma_take_blob_rt(b: Seq<u8>, rest: Seq<u8>)
    requires
        b.len() <= u64::MAX,
    ensures
        spec_take_blob(spec_encode_blob(b) + rest) == Ok::<(Seq<u8>, int), Deserialize>(
            (b, 8 + b.len() as int),
        ),
{
    let n: u64 = b.len() as u64;
    let s = spec_encode_blob(b) + rest;
    assert(s =~= spec_u64_le(n) + (b + rest));
    lemma_take_u64_rt(n, b + rest);
    assert(s.skip(8) =~= b + rest);
    assert(s.skip(8).take(n as int) =~= b);
}

/// Reading a text field from its encoding, whatever follows.
#[verifier::rlimit(100)]
proof fn lemma_take_text_rt(s: Seq<char>, rest: Seq<u8>)
    requires
        encode_utf8(s).len() <= u64::MAX,
    ensures
        spec_take_text(spec_encode_text(s) + rest) == Ok::<(Seq<char>, int), Deserialize>(
            (s, 8 + encode_utf8(s).len() as int),
        ),
{
    lemma_take_blob_rt(encode_utf8(s), rest);
    vstd::utf8::encode_utf8_valid_utf8(s);
    vstd::utf8::encode_utf8_decode_utf8(s);
}

/// Reading a hardware address from its six octets, whatever follows.
proof fn lemma_take_mac_rt(mac: Seq<u8>, rest: Seq<u8>)
    requires
        mac.len() == 6,
    ensures
        spec_take_mac(mac + rest) == Ok::<(Seq<u8>, int), Deserialize>((mac, 6)),
{
    assert((mac + rest).take(6) =~= mac);
}

/// Reading a version from its three bytes, whatever follows.
proof fn lemma_take_version_rt(v: Version, rest: Seq<u8>)
    ensures
        spec_take_version(spec_encode_version(v) + rest) == Ok::<(Version, int), Deserialize>(
            (v, 3),
        ),
{
}

/// Reading a settings record from its six bytes, whatever follows.
proof fn lemma_take_settings_rt(v: NodeSettings, rest: Seq<u8>)
    ensures
        spec_take_settings(spec_encode_settings(v) + rest) == Ok::<
            (NodeSettings, int),
            Deserialize,
        >((v, 6)),
{
    let s = spec_encode_settings(v) + rest;
    lemma_u16_reconstruct(v.sleep_time);
    assert(s[2] == (v.sleep_time % 256) as u8);
    assert(s[3] == ((v.sleep_time / 256) % 256) as u8);
}

/// Reading an optional 16-bit value from its encoding, whatever follows.
proof fn lemma_take_opt_u16_rt(v: Option<u16>, rest: Seq<u8>)
    ensures
        spec_take_opt_u16(spec_encode_opt_u16(v) + rest) == Ok::<
            (Option<u16>, int),
            Deserialize,
        >((v, spec_encode_opt_u16(v).len() as int)),
{
    let s = spec_encode_opt_u16(v) + rest;
    match v {
        None => {},
        Some(x) => {
            assert(s.skip(1) =~= spec_u16_le(x) + rest);
            lemma_take_u16_rt(x, rest);
        },
    }
}

/// Reading an optional settings record from its encoding, whatever follows.
proof fn lemma_take_opt_settings_rt(v: Option<NodeSettings>, rest: Seq<u8>)
    ensures
        spec_take_opt_settings(spec_encode_opt_settings(v) + rest) == Ok::<
            (Option<NodeSettings>, int),
            Deserialize,
        >((v, spec_encode_opt_settings(v).len() as int)),
{
    let s = spec_encode_opt_settings(v) + rest;
    match v {
        None => {},
        Some(x) => {
            assert(s.skip(1) =~= spec_encode_settings(x) + rest);
            lemma_take_settings_rt(x, rest);
        },
    }
}

/// The measurement-report case of [`lemma_take_request_rt`].
#[verifier::rlimit(100)]
proof fn lemma_take_request_rt_results(
    temperature: crate::aliases::FloatBits,
    humidity: u8,
    air_pressure: Option<u16>,
    rest: Seq<u8>,
)
    ensures
        ({
            let r = RequestView::PostResults { temperature, humidity, air_pressure };
            spec_take_request(spec_encode_request(r) + rest) == Ok::<
                (RequestView, int),
                Deserialize,
            >((r, spec_encode_request(r).len() as int))
        }),
{
    let r = RequestView::PostResults { temperature, humidity, air_pressure };
    let s = spec_encode_request(r) + rest;
    assert(s[0] == r.type_id());
    let t1 = seq![humidity] + spec_encode_opt_u16(air_pressure) + rest;
    assert(s.skip(1) =~= spec_u32_le(temperature.bits) + t1);
    lemma_take_u32_rt(temperature.bits, t1);
    assert(s.skip(1).skip(4) =~= t1);
    let t2 = spec_encode_opt_u16(air_pressure) + rest;
    assert(s.skip(1).skip(5) =~= t2);
    lemma_take_opt_u16_rt(air_pressure, rest);
}

/// The statistics-report case of [`lemma_take_request_rt`].
#[verifier::rlimit(100)]
proof fn lemma_take_request_rt_stats(
    battery: crate::aliases::FloatBits,
    wifi_ssid: Seq<char>,
    wifi_rssi: i8,
    rest: Seq<u8>,
)
    requires
        encode_utf8(wifi_ssid).len() <= u64::MAX,
    ensures
        ({
            let r = RequestView::PostStats { battery, wifi_ssid, wifi_rssi };
            spec_take_request(spec_encode_request(r) + rest) == Ok::<
                (RequestView, int),
                Deserialize,
            >((r, spec_encode_request(r).len() as int))
        }),
{
    let r = RequestView::PostStats { battery, wifi_ssid, wifi_rssi };
    let s = spec_encode_request(r) + rest;
    assert(s[0] == r.type_id());
    let text = spec_encode_text(wifi_ssid);
    let t1 = text + (seq![spec_i8_byte(wifi_rssi)] + rest);
    assert(s.skip(1) =~= spec_u32_le(battery.bits) + t1);
    lemma_take_u32_rt(battery.bits, t1);
    assert(s.skip(1).skip(4) =~= t1);
    lemma_take_text_rt(wifi_ssid, seq![spec_i8_byte(wifi_rssi)] + rest);
    assert(s.skip(1).skip(4 + text.len() as int) =~= seq![spec_i8_byte(wifi_rssi)] + rest);
    lemma_take_i8_rt(wifi_rssi, rest);
}

/// Reading a request body from its encoding, whatever follows.
#[verifier::rlimit(100)]
proof fn lemma_take_request_rt(r: RequestView, rest: Seq<u8>)
    requires
        wf_request(r),
    ensures
        spec_take_request(spec_encode_request(r) + rest) == Ok::<
            (RequestView, int),
            Deserialize,
        >((r, spec_encode_request(r).len() as int)),
{
    let enc = spec_encode_request(r);
    let s = enc + rest;
    assert(s[0] == r.type_id());
    match r {
        RequestView::Ping => {},
        RequestView::Handshake { mac } => {
            assert(s.skip(1) =~= mac + rest);
            lemma_take_mac_rt(mac, rest);
        },
        RequestView::PostResults { temperature, humidity, air_pressure } => {
            lemma_take_request_rt_results(temperature, humidity, air_pressure, rest);
        },
        RequestView::PostStats { battery, wifi_ssid, wifi_rssi } => {
            lemma_take_request_rt_stats(battery, wifi_ssid, wifi_rssi, rest);
        },
        RequestView::SendNotification(content) => {
            assert(s.skip(1) =~= spec_encode_text(content) + rest);
            lemma_take_text_rt(content, rest);
        },
        RequestView::GetSettings => {},
        RequestView::UpdateCheck(current_ver) => {
            assert(s.skip(1) =~= spec_encode_version(current_ver) + rest);
            lemma_take_version_rt(current_ver, rest);
        },
        RequestView::NextUpdateChunk(size) => {
            assert(s.skip(1) =~= spec_u64_le(size) + rest);
            lemma_take_u64_rt(size, rest);
        },
        RequestView::ReportFirmwareUpdate(good) => {
            assert(s.skip(1) =~= seq![spec_bool_byte(good)] + rest);
            lemma_take_bool_rt(good, rest);
        },
        RequestView::Bye => {},
    }
}

/// The update-available case of [`lemma_take_response_rt`].
#[verifier::rlimit(100)]
proof fn lemma_take_response_rt_ua(new_version: Version, rest: Seq<u8>)
    ensures
        spec_take_response(spec_encode_response(ResponseView::UpdateAvailable(new_version)) + rest)
            == Ok::<(ResponseView, int), Deserialize>(
            (ResponseView::UpdateAvailable(new_version), 4),
        ),
{
    let s = spec_encode_response(ResponseView::UpdateAvailable(new_version)) + rest;
    assert(s[0] == consts::RES_KIND_FW_UAVAIL);
    assert(s.skip(1) =~= spec_encode_version(new_version) + rest);
    lemma_take_version_rt(new_version, rest);
}

/// The update-part case of [`lemma_take_response_rt`].
#[verifier::rlimit(100)]
proof fn lemma_take_response_rt_up(blob: Seq<u8>, rest: Seq<u8>)
    requires
        blob.len() <= u64::MAX,
    ensures
        spec_take_response(spec_encode_response(ResponseView::UpdatePart(blob)) + rest) == Ok::<
            (ResponseView, int),
            Deserialize,
        >((ResponseView::UpdatePart(blob), 9 + blob.len() as int)),
{
    let s = spec_encode_response(ResponseView::UpdatePart(blob)) + rest;
    assert(s[0] == consts::RES_KIND_FW_UPART);
    assert(s.skip(1) =~= spec_encode_blob(blob) + rest);
    lemma_take_blob_rt(blob, rest);
}

/// The settings case of [`lemma_take_response_rt`].
#[verifier::rlimit(100)]
proof fn lemma_take_response_rt_settings(settings: Option<NodeSettings>, rest: Seq<u8>)
    ensures
        spec_take_response(spec_encode_response(ResponseView::Settings(settings)) + rest) == Ok::<
            (ResponseView, int),
            Deserialize,
        >(
            (
                ResponseView::Settings(settings),
                1 + spec_encode_opt_settings(settings).len() as int,
            ),
        ),
{
    let s = spec_encode_response(ResponseView::Settings(settings)) + rest;
    assert(s[0] == consts::RES_KIND_SETTINGS);
    assert(s.skip(1) =~= spec_encode_opt_settings(settings) + rest);
    lemma_take_opt_settings_rt(settings, rest);
}

/// The fieldless cases of [`lemma_take_response_rt`].
proof fn lemma_take_response_rt_unit(r: ResponseView, rest: Seq<u8>)
    requires
        !(r is UpdateAvailable),
        !(r is UpdatePart),
        !(r is Settings),
    ensures
        spec_take_response(seq![r.type_id()] + rest) == Ok::<(ResponseView, int), Deserialize>(
            (r, 1),
        ),
{
}

/// Reading a response body from its encoding, whatever follows.
#[verifier::rlimit(80)]
proof fn lemma_take_response_rt(r: ResponseView, rest: Seq<u8>)
    requires
        wf_response(r),
    ensures
        spec_take_response(spec_encode_response(r) + rest) == Ok::<
            (ResponseView, int),
            Deserialize,
        >((r, spec_encode_response(r).len() as int)),
{
    match r {
        ResponseView::UpdateAvailable(new_version) => {
            lemma_take_response_rt_ua(new_version, rest);
        },
        ResponseView::UpdatePart(blob) => {
            assert(spec_u64_le(blob.len() as u64).len() == 8);
            assert(spec_encode_blob(blob).len() == 8 + blob.len());
            assert(spec_encode_response(r).len() == 9 + blob.len());
            lemma_take_response_rt_up(blob, rest);
        },
        ResponseView::Settings(settings) => {
            lemma_take_response_rt_settings(settings, rest);
        },
        _ => {
            assert(spec_encode_response(r) =~= seq![r.type_id()]);
            lemma_take_response_rt_unit(r, rest);
        },
    }
}

/// Decoding a message's encoding followed by arbitrary bytes reads exactly
/// the encoded body; what is decided by the leftover count is left to the
/// two public lemmas below.
#[verifier::rlimit(80)]
proof fn lemma_decode_prefix(m: MessageView, extra: Seq<u8>)
    requires
        wf_msg(m),
    ensures
        ({
            let b = spec_encode_msg(m) + extra;
            if extra.len() == 0 {
                spec_decode_msg(b) == Ok::<MessageView, Deserialize>(m)
            } else {
                spec_decode_msg(b) == Err::<MessageView, Deserialize>(
                    Deserialize::ExtraDataLeft(extra.len() as usize),
                )
            }
        }),
{
    let enc = spec_encode_msg(m);
    let b = enc + extra;
    let content = spec_encode_content(m.content);
    assert(b =~= spec_u32_le(m.id) + (content + extra));
    lemma_take_u32_rt(m.id, content + extra);
    assert(b.skip(4) =~= content + extra);
    match m.content {
        MessageContentView::Request(r) => {
            assert(b.skip(4)[0] == consts::MSG_KIND_REQUEST);
            assert(b.skip(5) =~= spec_encode_request(r) + extra);
            lemma_take_request_rt(r, extra);
            assert(b.len() - 5 - spec_encode_request(r).len() == extra.len());
        },
        MessageContentView::Response(r) => {
            assert(b.skip(4)[0] == consts::MSG_KIND_RESPONSE);
            assert(b.skip(5) =~= spec_encode_response(r) + extra);
            lemma_take_response_rt(r, extra);
            assert(b.len() - 5 - spec_encode_response(r).len() == extra.len());
        },
    }
}

/// **Round trip.**  Decoding the encoding of any well-formed message value
/// gives back exactly that value.
pub proof fn lemma_round_trip(m: MessageView)
    requires
        wf_msg(m),
    ensures
        spec_decode_msg(spec_encode_msg(m)) == Ok::<MessageView, Deserialize>(m),
{
    lemma_decode_prefix(m, Seq::<u8>::empty());
    assert(spec_encode_msg(m) + Seq::<u8>::empty() =~= spec_encode_msg(m));
}

/// **Trailing-data rejection.**  Appending any nonempty byte sequence to a
/// valid encoding makes decoding fail with `ExtraDataLeft`, carrying the
/// exact number of bytes left over.
pub proof fn lemma_trailing_data(m: MessageView, extra: Seq<u8>)
    requires
        wf_msg(m),
        1 <= extra.len() <= usize::MAX,
    ensures
        spec_decode_msg(spec_encode_msg(m) + extra) == Err::<MessageView, Deserialize>(
            Deserialize::ExtraDataLeft(extra.len() as usize),
        ),
{
    lemma_decode_prefix(m, extra);
}

// ---------------------------------------------------------------------------
// Discriminant stability
// ---------------------------------------------------------------------------

/// **Discriminant stability, kind byte.**  A message whose kind byte is
/// neither the request nor the response kind fails with exactly
/// `IllegalMessageType` carrying that byte — never an unspecific error.
pub proof fn lemma_illegal_message_type(b: Seq<u8>)
    requires
        b.len() >= 5,
        b[4] != consts::MSG_KIND_REQUEST,
        b[4] != consts::MSG_KIND_RESPONSE,
    ensures
        spec_decode_msg(b) == Err::<MessageView, Deserialize>(
            Deserialize::IllegalMessageType(b[4]),
        ),
{
    assert(b.skip(4)[0] == b[4]);
}

/// **Discriminant stability, requests.**  A request body whose discriminant
/// byte lies outside the request band fails with exactly
/// `IllegalRequestType` carrying that byte.
pub proof fn lemma_illegal_request_type(b: Seq<u8>)
    requires
        b.len() >= 6,
        b[4] == consts::MSG_KIND_REQUEST,
        b[5] < consts::REQ_KIND_PING || b[5] > consts::REQ_KIND_BYE,
    ensures
        spec_decode_msg(b) == Err::<MessageView, Deserialize>(
            Deserialize::IllegalRequestType(b[5]),
        ),
{
    assert(b.skip(4)[0] == b[4]);
    assert(b.skip(5)[0] == b[5]);
}

/// **Discriminant stability, responses.**  A response body whose
/// discriminant byte lies outside the response band fails with exactly
/// `IllegalResponseType` carrying that byte.
pub proof fn lemma_illegal_response_type(b: Seq<u8>)
    requires
        b.len() >= 6,
        b[4] == consts::MSG_KIND_RESPONSE,
        b[5] < consts::RES_KIND_PONG || b[5] > consts::RES_KIND_SETTINGS,
    ensures
        spec_decode_msg(b) == Err::<MessageView, Deserialize>(
            Deserialize::IllegalResponseType(b[5]),
        ),
{
    assert(b.skip(4)[0] == b[4]);
    assert(b.skip(5)[0] == b[5]);
}

// ---------------------------------------------------------------------------
// The UTF-8 guard
// ---------------------------------------------------------------------------

/// **UTF-8 guard.**  A blob standing in text position whose bytes are not
/// valid UTF-8 fails with exactly `IllegalUtf8String`; the error carries
/// only the length of the longest valid prefix, never the bytes themselves.
pub proof fn lemma_utf8_guard(b: Seq<u8>, rest: Seq<u8>)
    requires
        b.len() <= u64::MAX,
        !valid_utf8(b),
    ensures
        spec_take_text(spec_encode_blob(b) + rest) == Err::<(Seq<char>, int), Deserialize>(
            Deserialize::IllegalUtf8String(
                Utf8Error { valid_up_to: spec_utf8_valid_up_to(b) as usize },
            ),
        ),
{
    lemma_take_blob_rt(b, rest);
}

// ---------------------------------------------------------------------------
// Truncation safety
// ---------------------------------------------------------------------------
//
// Each of these says: a strict prefix of the encoding of a value fails to
// decode, and the error is one of the two exhaustion errors — never a panic,
// never a partially-populated value, and never some unrelated error.

/// A decode error that reports input exhaustion.
pub open spec fn is_exhaustion(e: Deserialize) -> bool {
    e is ExpectedOneMoreByte || e is ExpectedMoreBytes
}

/// What truncation safety says of one `spec_take_*` result.
pub open spec fn take_truncated<T>(r: Result<(T, int), Deserialize>) -> bool {
    r matches Err(e) && is_exhaustion(e)
}

/// A strict prefix of a blob encoding fails with an exhaustion error.
proof fn lemma_blob_trunc(b: Seq<u8>, p: int)
    requires
        b.len() <= u64::MAX,
        0 <= p < spec_encode_blob(b).len(),
    ensures
        take_truncated(spec_take_blob(spec_encode_blob(b).take(p))),
{
    let t = spec_encode_blob(b).take(p);
    if p < 8 {
    } else {
        let n: u64 = b.len() as u64;
        assert forall|i: int| 0 <= i < 8 implies t[i] == spec_u64_le(n)[i] by {}
        lemma_u64_reconstruct(n);
        assert(spec_take_u64(t) == Ok::<(u64, int), Deserialize>((n, 8)));
        assert(t.len() - 8 < n);
    }
}

/// A strict prefix of a text encoding fails with an exhaustion error.
proof fn lemma_text_trunc(s: Seq<char>, p: int)
    requires
        encode_utf8(s).len() <= u64::MAX,
        0 <= p < spec_encode_text(s).len(),
    ensures
        take_truncated(spec_take_text(spec_encode_text(s).take(p))),
{
    lemma_blob_trunc(encode_utf8(s), p);
}

/// A strict prefix of a settings encoding fails with an exhaustion error.
proof fn lemma_settings_trunc(v: NodeSettings, p: int)
    requires
        0 <= p < 6,
    ensures
        take_truncated(spec_take_settings(spec_encode_settings(v).take(p))),
{
    let t = spec_encode_settings(v).take(p);
    assert(t.len() == p);
    if p >= 1 {
        assert(t[0] == spec_bool_byte(v.battery_ignore));
    }
    if p >= 2 {
        assert(t[1] == spec_bool_byte(v.ota));
    }
    if p >= 4 {
        assert(t[2] == spec_encode_settings(v)[2]);
        assert(t[3] == spec_encode_settings(v)[3]);
    }
    if p >= 5 {
        assert(t[4] == spec_bool_byte(v.sbop));
    }
}

/// A strict prefix of an optional 16-bit encoding fails with an exhaustion
/// error.
proof fn lemma_opt_u16_trunc(v: Option<u16>, p: int)
    requires
        0 <= p < spec_encode_opt_u16(v).len(),
    ensures
        take_truncated(spec_take_opt_u16(spec_encode_opt_u16(v).take(p))),
{
    let enc = spec_encode_opt_u16(v);
    let t = enc.take(p);
    if p >= 1 {
        assert(t[0] == spec_bool_byte(true));
        assert(t.skip(1) =~= spec_u16_le(v->0).take(p - 1));
    }
}

/// A strict prefix of an optional settings encoding fails with an
/// exhaustion error.
proof fn lemma_opt_settings_trunc(v: Option<NodeSettings>, p: int)
    requires
        0 <= p < spec_encode_opt_settings(v).len(),
    ensures
        take_truncated(spec_take_opt_settings(spec_encode_opt_settings(v).take(p))),
{
    let enc = spec_encode_opt_settings(v);
    let t = enc.take(p);
    if p >= 1 {
        assert(t[0] == spec_bool_byte(true));
        assert(t.skip(1) =~= spec_encode_settings(v->0).take(p - 1));
        lemma_settings_trunc(v->0, p - 1);
    }
}

/// A strict prefix of a request-body encoding fails with an exhaustion
/// error.
#[verifier::rlimit(80)]
proof fn lemma_request_trunc(r: RequestView, p: int)
    requires
        wf_request(r),
        0 <= p < spec_encode_request(r).len(),
    ensures
        take_truncated(spec_take_request(spec_encode_request(r).take(p))),
{
    let enc = spec_encode_request(r);
    let t = enc.take(p);
    if p == 0 {
    } else {
        assert(t[0] == r.type_id());
        let q = p - 1;
        match r {
            RequestView::Ping => {},
            RequestView::Handshake { mac } => {
                assert(t.skip(1) =~= mac.take(q));
            },
            RequestView::PostResults { temperature, humidity, air_pressure } => {
                let fields = spec_u32_le(temperature.bits) + seq![humidity] + spec_encode_opt_u16(
                    air_pressure,
                );
                assert(enc =~= seq![r.type_id()] + fields);
                assert(t.skip(1) =~= fields.take(q));
                lemma_post_results_trunc(temperature, humidity, air_pressure, q, t);
            },
            RequestView::PostStats { battery, wifi_ssid, wifi_rssi } => {
                let fields = spec_u32_le(battery.bits) + spec_encode_text(wifi_ssid) + seq![
                    spec_i8_byte(wifi_rssi),
                ];
                assert(enc =~= seq![r.type_id()] + fields);
                assert(t.skip(1) =~= fields.take(q));
                lemma_post_stats_trunc(battery, wifi_ssid, wifi_rssi, q, t);
            },
            RequestView::SendNotification(content) => {
                assert(t.skip(1) =~= spec_encode_text(content).take(q));
                lemma_text_trunc(content, q);
            },
            RequestView::GetSettings => {},
            RequestView::UpdateCheck(current_ver) => {
                assert(t.skip(1) =~= spec_encode_version(current_ver).take(q));
            },
            RequestView::NextUpdateChunk(size) => {
                assert(t.skip(1) =~= spec_u64_le(size).take(q));
            },
            RequestView::ReportFirmwareUpdate(good) => {
                assert(t.skip(1) =~= seq![spec_bool_byte(good)].take(q));
            },
            RequestView::Bye => {},
        }
    }
}

/// The measurement-report case of [`lemma_request_trunc`]: `t` is the
/// truncated encoding, whose field part holds `q` bytes.
#[verifier::rlimit(80)]
proof fn lemma_post_results_trunc(
    temperature: crate::aliases::FloatBits,
    humidity: u8,
    air_pressure: Option<u16>,
    q: int,
    t: Seq<u8>,
)
    requires
        ({
            let fields = spec_u32_le(temperature.bits) + seq![humidity] + spec_encode_opt_u16(
                air_pressure,
            );
            &&& 0 <= q < fields.len()
            &&& t.len() == 1 + q
            &&& t.skip(1) == fields.take(q)
        }),
    ensures
        take_truncated(
            match spec_take_u32(t.skip(1)) {
                Err(e) => Err(e),
                Ok((bits, n1)) => match spec_take_u8(t.skip(1).skip(n1)) {
                    Err(e) => Err(e),
                    Ok((h, n2)) => match spec_take_opt_u16(t.skip(1).skip(n1 + n2)) {
                        Err(e) => Err(e),
                        Ok((ap, n3)) => Ok::<(u8, int), Deserialize>((h, 1 + n1 + n2 + n3)),
                    },
                },
            },
        ),
{
    let fields = spec_u32_le(temperature.bits) + seq![humidity] + spec_encode_opt_u16(air_pressure);
    let f = t.skip(1);
    if q < 4 {
        assert(f.len() < 4);
    } else {
        assert(f.len() >= 4);
        if q == 4 {
            assert(f.skip(4).len() == 0);
        } else {
            assert(f.skip(4)[0] == fields[4]);
            assert(f.skip(5) =~= spec_encode_opt_u16(air_pressure).take(q - 5));
            lemma_opt_u16_trunc(air_pressure, q - 5);
        }
    }
}

/// The statistics-report case of [`lemma_request_trunc`]: `t` is the
/// truncated encoding, whose field part holds `q` bytes.
#[verifier::rlimit(80)]
proof fn lemma_post_stats_trunc(
    battery: crate::aliases::FloatBits,
    wifi_ssid: Seq<char>,
    wifi_rssi: i8,
    q: int,
    t: Seq<u8>,
)
    requires
        encode_utf8(wifi_ssid).len() <= u64::MAX,
        ({
            let fields = spec_u32_le(battery.bits) + spec_encode_text(wifi_ssid) + seq![
                spec_i8_byte(wifi_rssi),
            ];
            &&& 0 <= q < fields.len()
            &&& t.len() == 1 + q
            &&& t.skip(1) == fields.take(q)
        }),
    ensures
        take_truncated(
            match spec_take_u32(t.skip(1)) {
                Err(e) => Err(e),
                Ok((bits, n1)) => match spec_take_text(t.skip(1).skip(n1)) {
                    Err(e) => Err(e),
                    Ok((s, n2)) => match spec_take_i8(t.skip(1).skip(n1 + n2)) {
                        Err(e) => Err(e),
                        Ok((v, n3)) => Ok::<(i8, int), Deserialize>((v, 1 + n1 + n2 + n3)),
                    },
                },
            },
        ),
{
    let text = spec_encode_text(wifi_ssid);
    let f = t.skip(1);
    if q < 4 {
        assert(f.len() < 4);
    } else {
        assert(f.len() >= 4);
        if q - 4 < text.len() {
            assert(f.skip(4) =~= text.take(q - 4));
            lemma_text_trunc(wifi_ssid, q - 4);
        } else {
            assert(q - 4 == text.len());
            assert(f.skip(4) =~= text + Seq::<u8>::empty());
            lemma_take_text_rt(wifi_ssid, Seq::<u8>::empty());
            assert(f.skip(4).skip(text.len() as int).len() == 0);
        }
    }
}

/// A strict prefix of a response-body encoding fails with an exhaustion
/// error.
#[verifier::rlimit(80)]
proof fn lemma_response_trunc(r: ResponseView, p: int)
    requires
        wf_response(r),
        0 <= p < spec_encode_response(r).len(),
    ensures
        take_truncated(spec_take_response(spec_encode_response(r).take(p))),
{
    let enc = spec_encode_response(r);
    let t = enc.take(p);
    if p == 0 {
    } else {
        assert(t[0] == r.type_id());
        let q = p - 1;
        match r {
            ResponseView::UpdateAvailable(new_version) => {
                assert(t.skip(1) =~= spec_encode_version(new_version).take(q));
            },
            ResponseView::UpdatePart(blob) => {
                assert(t.skip(1) =~= spec_encode_blob(blob).take(q));
                lemma_blob_trunc(blob, q);
            },
            ResponseView::Settings(settings) => {
                assert(t.skip(1) =~= spec_encode_opt_settings(settings).take(q));
                lemma_opt_settings_trunc(settings, q);
            },
            _ => {
                assert(enc.len() == 1);
            },
        }
    }
}

/// **Truncation safety.**  Feeding any strict prefix of a valid encoding to
/// the decoder fails with `ExpectedOneMoreByte` or `ExpectedMoreBytes` —
/// never a partially-populated message, and never any other error.
#[verifier::rlimit(80)]
pub proof fn lemma_truncation(m: MessageView, p: int)
    requires
        wf_msg(m),
        0 <= p < spec_encode_msg(m).len(),
    ensures
        spec_decode_msg(spec_encode_msg(m).take(p)) matches Err(e) && is_exhaustion(e),
{
    let enc = spec_encode_msg(m);
    let t = enc.take(p);
    let content = spec_encode_content(m.content);
    assert(enc =~= spec_u32_le(m.id) + content);
    if p < 4 {
        assert(t.len() < 4);
    } else if p == 4 {
        assert(t.skip(4).len() == 0);
    } else {
        assert(t.len() >= 5);
        assert(t.skip(4)[0] == enc[4]);
        match m.content {
            MessageContentView::Request(r) => {
                assert(enc[4] == consts::MSG_KIND_REQUEST);
                assert(t.skip(5) =~= spec_encode_request(r).take(p - 5));
                lemma_request_trunc(r, p - 5);
            },
            MessageContentView::Response(r) => {
                assert(enc[4] == consts::MSG_KIND_RESPONSE);
                assert(t.skip(5) =~= spec_encode_response(r).take(p - 5));
                lemma_response_trunc(r, p - 5);
            },
        }
    }
}

// ---------------------------------------------------------------------------
// Decoding accepts only encodings
// ---------------------------------------------------------------------------
//
// Each of these says: when a `spec_take_*` function succeeds, the bytes it
// consumed are exactly the encoding of the value it returned.  Together with
// the round-trip lemmas this pins the decoder down completely: it accepts an
// encoding of every well-formed value and nothing else.

/// Re-encoding a 16-bit value read from two bytes gives back the bytes.
proof fn lemma_u16_split(b0: u8, b1: u8)
    ensures
        spec_u16_le(spec_u16_of(b0, b1)) == seq![b0, b1],
{
    let v = spec_u16_of(b0, b1);
    assert(v == b0 as u16 + 256 * (b1 as u16));
    assert(v % 256 == b0 as u16 && v / 256 % 256 == b1 as u16) by (bit_vector)
        requires
            v == b0 as u16 + 256 * (b1 as u16),
    ;
    assert(spec_u16_le(v) =~= seq![b0, b1]);
}

/// Re-encoding a 32-bit value read from four bytes gives back the bytes.
proof fn lemma_u32_split(b0: u8, b1: u8, b2: u8, b3: u8)
    ensures
        spec_u32_le(spec_u32_of(b0, b1, b2, b3)) == seq![b0, b1, b2, b3],
{
    let v = spec_u32_of(b0, b1, b2, b3);
    assert(v == b0 as u32 + 256 * (b1 as u32) + 65536 * (b2 as u32) + 16777216 * (b3 as u32));
    assert(v % 256 == b0 as u32 && v / 256 % 256 == b1 as u32 && v / 65536 % 256 == b2 as u32 && v
        / 16777216 % 256 == b3 as u32) by (bit_vector)
        requires
            v == b0 as u32 + 256 * (b1 as u32) + 65536 * (b2 as u32) + 16777216 * (b3 as u32),
    ;
    assert(spec_u32_le(v) =~= seq![b0, b1, b2, b3]);
}

/// Re-encoding a 64-bit value read from eight bytes gives back the bytes.
proof fn lemma_u64_split(b0: u8, b1: u8, b2: u8, b3: u8, b4: u8, b5: u8, b6: u8, b7: u8)
    ensures
        spec_u64_le(spec_u64_of(b0, b1, b2, b3, b4, b5, b6, b7)) == seq![
            b0,
            b1,
            b2,
            b3,
            b4,
            b5,
            b6,
            b7,
        ],
{
    let v = spec_u64_of(b0, b1, b2, b3, b4, b5, b6, b7);
    assert(v == b0 as u64 + 256 * (b1 as u64) + 65536 * (b2 as u64) + 16777216 * (b3 as u64)
        + 4294967296 * (b4 as u64) + 1099511627776 * (b5 as u64) + 281474976710656 * (b6 as u64)
        + 72057594037927936 * (b7 as u64));
    assert(v % 256 == b0 as u64 && v / 256 % 256 == b1 as u64 && v / 65536 % 256 == b2 as u64 && v
        / 16777216 % 256 == b3 as u64 && v / 4294967296 % 256 == b4 as u64 && v / 1099511627776
        % 256 == b5 as u64 && v / 281474976710656 % 256 == b6 as u64 && v / 72057594037927936 % 256
        == b7 as u64) by (bit_vector)
        requires
            v == b0 as u64 + 256 * (b1 as u64) + 65536 * (b2 as u64) + 16777216 * (b3 as u64)
                + 4294967296 * (b4 as u64) + 1099511627776 * (b5 as u64) + 281474976710656 * (b6
                as u64) + 72057594037927936 * (b7 as u64),
    ;
    assert(spec_u64_le(v) =~= seq![b0, b1, b2, b3, b4, b5, b6, b7]);
}

/// A successful blob read consumed exactly the blob's encoding.
#[verifier::rlimit(100)]
proof fn lemma_take_blob_canon(b: Seq<u8>)
    ensures
        spec_take_blob(b) matches Ok(p) ==> {
            &&& p.0.len() <= u64::MAX
            &&& p.1 == 8 + p.0.len()
            &&& p.1 <= b.len()
            &&& b.take(p.1) == spec_encode_blob(p.0)
        },
{
    if spec_take_blob(b) is Ok {
        let n = spec_take_u64(b)->Ok_0.0;
        lemma_u64_split(b[0], b[1], b[2], b[3], b[4], b[5], b[6], b[7]);
        let data = b.skip(8).take(n as int);
        assert(b.take(8) =~= seq![b[0], b[1], b[2], b[3], b[4], b[5], b[6], b[7]]);
        assert(data.len() == n);
        assert(b.take(8 + n as int) =~= b.take(8) + data);
        assert(spec_encode_blob(data) == spec_u64_le(n) + data);
    }
}

/// A successful text read consumed exactly the text's encoding.
#[verifier::rlimit(100)]
proof fn lemma_take_text_canon(b: Seq<u8>)
    ensures
        spec_take_text(b) matches Ok(p) ==> {
            &&& encode_utf8(p.0).len() <= u64::MAX
            &&& p.1 == 8 + encode_utf8(p.0).len()
            &&& p.1 <= b.len()
            &&& b.take(p.1) == spec_encode_text(p.0)
        },
{
    if spec_take_text(b) is Ok {
        lemma_take_blob_canon(b);
        let data = spec_take_blob(b)->Ok_0.0;
        vstd::utf8::decode_utf8_encode_utf8(data);
    }
}

/// A successful settings read consumed exactly the record's encoding.
#[verifier::rlimit(100)]
proof fn lemma_take_settings_canon(b: Seq<u8>)
    ensures
        spec_take_settings(b) matches Ok(p) ==> p.1 == 6 && 6 <= b.len() && b.take(6)
            == spec_encode_settings(p.0),
{
    if spec_take_settings(b) is Ok {
        let st = spec_take_settings(b)->Ok_0.0;
        lemma_u16_split(b[2], b[3]);
        assert(b.skip(2)[0] == b[2] && b.skip(2)[1] == b[3]);
        assert(spec_u16_le(st.sleep_time) == seq![b[2], b[3]]);
        assert(b.take(6) =~= spec_encode_settings(st));
    }
}

/// A successful optional-16-bit read consumed exactly the encoding.
proof fn lemma_take_opt_u16_canon(b: Seq<u8>)
    ensures
        spec_take_opt_u16(b) matches Ok(p) ==> p.1 == spec_encode_opt_u16(p.0).len() && p.1
            <= b.len() && b.take(p.1) == spec_encode_opt_u16(p.0),
{
    if spec_take_opt_u16(b) is Ok {
        let v = spec_take_opt_u16(b)->Ok_0.0;
        match v {
            None => {
                assert(b.take(1) =~= spec_encode_opt_u16(v));
            },
            Some(x) => {
                lemma_u16_split(b.skip(1)[0], b.skip(1)[1]);
                assert(b.take(3) =~= seq![b[0]] + seq![b.skip(1)[0], b.skip(1)[1]]);
                assert(b.take(3) =~= spec_encode_opt_u16(v));
            },
        }
    }
}

/// A successful optional-settings read consumed exactly the encoding.
#[verifier::rlimit(100)]
proof fn lemma_take_opt_settings_canon(b: Seq<u8>)
    ensures
        spec_take_opt_settings(b) matches Ok(p) ==> p.1 == spec_encode_opt_settings(p.0).len()
            && p.1 <= b.len() && b.take(p.1) == spec_encode_opt_settings(p.0),
{
    if spec_take_opt_settings(b) is Ok {
        let v = spec_take_opt_settings(b)->Ok_0.0;
        match v {
            None => {
                assert(b.take(1) =~= spec_encode_opt_settings(v));
            },
            Some(x) => {
                lemma_take_settings_canon(b.skip(1));
                assert(b.take(7) =~= seq![b[0]] + b.skip(1).take(6));
                assert(b.take(7) =~= spec_encode_opt_settings(v));
            },
        }
    }
}

/// A successful request read consumed exactly the encoding of a well-formed
/// request.
#[verifier::rlimit(100)]
proof fn lemma_take_request_canon(b: Seq<u8>)
    ensures
        spec_take_request(b) matches Ok(p) ==> {
            &&& wf_request(p.0)
            &&& p.1 == spec_encode_request(p.0).len()
            &&& 1 <= p.1 <= b.len()
            &&& b.take(p.1) == spec_encode_request(p.0)
        },
{
    if spec_take_request(b) is Ok {
        let (r, n) = spec_take_request(b)->Ok_0;
        let t = b[0];
        let rest = b.skip(1);
        if t == consts::REQ_KIND_PING || t == consts::REQ_KIND_GET_SETTINGS || t
            == consts::REQ_KIND_BYE {
            assert(b.take(1) =~= spec_encode_request(r));
        } else if t == consts::REQ_KIND_HANDSHAKE {
            assert(b.take(7) =~= seq![t] + rest.take(6));
            assert(b.take(7) =~= spec_encode_request(r));
        } else if t == consts::REQ_KIND_POST_RESULTS {
            lemma_u32_split(rest[0], rest[1], rest[2], rest[3]);
            lemma_take_opt_u16_canon(rest.skip(5));
            let ap = spec_take_opt_u16(rest.skip(5))->Ok_0;
            assert(rest.take(4) =~= seq![rest[0], rest[1], rest[2], rest[3]]);
            assert(b.take(n) =~= seq![t] + rest.take(4) + seq![rest[4]] + rest.skip(5).take(ap.1));
            assert(b.take(n) =~= spec_encode_request(r));
        } else if t == consts::REQ_KIND_POST_STATS {
            lemma_u32_split(rest[0], rest[1], rest[2], rest[3]);
            lemma_take_text_canon(rest.skip(4));
            let tx = spec_take_text(rest.skip(4))->Ok_0;
            assert(rest.take(4) =~= seq![rest[0], rest[1], rest[2], rest[3]]);
            assert(spec_i8_byte(spec_i8_of(rest.skip(4 + tx.1)[0])) == rest.skip(4 + tx.1)[0]);
            assert(b.take(n) =~= seq![t] + rest.take(4) + rest.skip(4).take(tx.1) + seq![
                rest.skip(4 + tx.1)[0],
            ]);
            assert(b.take(n) =~= spec_encode_request(r));
        } else if t == consts::REQ_KIND_SEND_NOTIFICATION {
            lemma_take_text_canon(rest);
            let tx = spec_take_text(rest)->Ok_0;
            assert(b.take(n) =~= seq![t] + rest.take(tx.1));
            assert(b.take(n) =~= spec_encode_request(r));
        } else if t == consts::REQ_KIND_UPDATE_CHECK {
            assert(b.take(4) =~= seq![t, rest[0], rest[1], rest[2]]);
            assert(b.take(4) =~= spec_encode_request(r));
        } else if t == consts::REQ_KIND_NEXT_UPDATE_CHUNK {
            lemma_u64_split(
                rest[0],
                rest[1],
                rest[2],
                rest[3],
                rest[4],
                rest[5],
                rest[6],
                rest[7],
            );
            assert(b.take(9) =~= seq![t] + seq![
                rest[0],
                rest[1],
                rest[2],
                rest[3],
                rest[4],
                rest[5],
                rest[6],
                rest[7],
            ]);
            assert(b.take(9) =~= spec_encode_request(r));
        } else if t == consts::REQ_KIND_REPORT_FWU {
            assert(b.take(2) =~= seq![t, rest[0]]);
            assert(b.take(2) =~= spec_encode_request(r));
        }
    }
}

/// A successful response read consumed exactly the encoding of a
/// well-formed response.
#[verifier::rlimit(100)]
proof fn lemma_take_response_canon(b: Seq<u8>)
    ensures
        spec_take_response(b) matches Ok(p) ==> {
            &&& wf_response(p.0)
            &&& p.1 == spec_encode_response(p.0).len()
            &&& 1 <= p.1 <= b.len()
            &&& b.take(p.1) == spec_encode_response(p.0)
        },
{
    if spec_take_response(b) is Ok {
        let (r, n) = spec_take_response(b)->Ok_0;
        let t = b[0];
        let rest = b.skip(1);
        if t == consts::RES_KIND_FW_UAVAIL {
            assert(b.take(4) =~= seq![t, rest[0], rest[1], rest[2]]);
            assert(b.take(4) =~= spec_encode_response(r));
        } else if t == consts::RES_KIND_FW_UPART {
            lemma_take_blob_canon(rest);
            let bl = spec_take_blob(rest)->Ok_0;
            assert(b.take(n) =~= seq![t] + rest.take(bl.1));
            assert(b.take(n) =~= spec_encode_response(r));
        } else if t == consts::RES_KIND_SETTINGS {
            lemma_take_opt_settings_canon(rest);
            let st = spec_take_opt_settings(rest)->Ok_0;
            assert(b.take(n) =~= seq![t] + rest.take(st.1));
            assert(b.take(n) =~= spec_encode_response(r));
        } else {
            assert(b.take(1) =~= spec_encode_response(r));
        }
    }
}

/// **Exactness.**  Decoding yields `m` if and only if the input is the
/// encoding of the well-formed value `m`: the wire format is unambiguous in
/// both directions.
pub proof fn lemma_codec_exact(b: Seq<u8>, m: MessageView)
    ensures
        spec_decode_msg(b) == Ok::<MessageView, Deserialize>(m) <==> (wf_msg(m) && b
            == spec_encode_msg(m)),
{
    lemma_decode_canonical(b);
    if wf_msg(m) && b == spec_encode_msg(m) {
        lemma_round_trip(m);
    }
}

/// **Canonicity.**  When decoding succeeds, the input was exactly the
/// encoding of the decoded message, which is well-formed: the decoder
/// accepts the image of the encoder and nothing else.
#[verifier::rlimit(100)]
pub proof fn lemma_decode_canonical(b: Seq<u8>)
    ensures
        spec_decode_msg(b) matches Ok(m) ==> wf_msg(m) && b == spec_encode_msg(m),
{
    if spec_decode_msg(b) is Ok {
        let m = spec_decode_msg(b)->Ok_0;
        lemma_u32_split(b[0], b[1], b[2], b[3]);
        assert(b.take(4) =~= seq![b[0], b[1], b[2], b[3]]);
        let body = b.skip(5);
        match m.content {
            MessageContentView::Request(r) => {
                lemma_take_request_canon(body);
                let p = spec_take_request(body)->Ok_0;
                assert(b =~= b.take(4) + seq![b.skip(4)[0]] + body.take(p.1));
                assert(b =~= spec_encode_msg(m));
            },
            MessageContentView::Response(r) => {
                lemma_take_response_canon(body);
                let p = spec_take_response(body)->Ok_0;
                assert(b =~= b.take(4) + seq![b.skip(4)[0]] + body.take(p.1));
                assert(b =~= spec_encode_msg(m));
            },
        }
    }
}

} // verus!
