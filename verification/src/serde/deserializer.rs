//! Definition of the `Deserializable` trait and its implementations.

use vstd::prelude::*;

use crate::mac::Mac;
use crate::request::Request;
use crate::response::Response;
use crate::settings::NodeSettings;
use crate::version::Version;

use super::consts;
use super::error::Deserialize;
use super::utils::{
    deserialize_blob, deserialize_bool, deserialize_i8, deserialize_string, deserialize_u16,
    deserialize_u32, deserialize_u64, next_byte, next_bytes,
};
use super::wire::{
    lemma_skip_skip, spec_take_mac, spec_take_opt_settings, spec_take_opt_u16, spec_take_request,
    spec_take_response, spec_take_settings, spec_take_version,
};

verus! {

/// An object that is deserializable from a sequence of bytes.
///
/// `deserialize` reads the object from the front of `bytes[pos..]`, moving
/// the cursor past the consumed bytes on success; it returns exactly what
/// [`Self::spec_take`] says, value and error alike.
pub trait Deserializable: View + Sized {
    /// What decoding reads from the front of `b`: the abstract value and the
    /// number of bytes consumed, or the precise error.
    spec fn spec_take(b: Seq<u8>) -> Result<(Self::V, int), Deserialize>;

    /// Deserialize the object from `bytes`, starting at `*pos`.
    fn deserialize(bytes: &[u8], pos: &mut usize) -> (r: Result<Self, Deserialize>)
        requires
            *old(pos) <= bytes@.len(),
        ensures
            *final(pos) <= bytes@.len(),
            match (r, Self::spec_take(bytes@.skip(*old(pos) as int))) {
                (Ok(v), Ok(p)) => v@ == p.0 && *final(pos) == *old(pos) + p.1,
                (Err(e1), Err(e2)) => e1 == e2,
                _ => false,
            },
    ;
}

impl Deserializable for Mac {
    /// Exactly six raw octets.
    open spec fn spec_take(b: Seq<u8>) -> Result<(Seq<u8>, int), Deserialize> {
        spec_take_mac(b)
    }

    fn deserialize(bytes: &[u8], pos: &mut usize) -> (r: Result<Self, Deserialize>) {
        let octets = match next_bytes(bytes, pos, 6) {
            Ok(v) => v,
            Err(e) => {
                return Err(e);
            },
        };
        let mac = Mac::new(octets[0], octets[1], octets[2], octets[3], octets[4], octets[5]);
        proof {
            assert(mac@ =~= octets@);
        }
        Ok(mac)
    }
}

impl Deserializable for Version {
    /// Exactly three raw bytes: major, middle, minor.
    open spec fn spec_take(b: Seq<u8>) -> Result<(Version, int), Deserialize> {
        spec_take_version(b)
    }

    fn deserialize(bytes: &[u8], pos: &mut usize) -> (r: Result<Self, Deserialize>) {
        let parts = match next_bytes(bytes, pos, 3) {
            Ok(v) => v,
            Err(e) => {
                return Err(e);
            },
        };
        Ok(Version::new(parts[0], parts[1], parts[2]))
    }
}

impl Deserializable for NodeSettings {
    /// The five fields in declaration order: six bytes.
    open spec fn spec_take(b: Seq<u8>) -> Result<(NodeSettings, int), Deserialize> {
        spec_take_settings(b)
    }

    fn deserialize(bytes: &[u8], pos: &mut usize) -> (r: Result<Self, Deserialize>) {
        let ghost s: Seq<u8> = bytes@.skip(*old(pos) as int);
        let ghost p0: int = *old(pos) as int;
        let battery_ignore = match deserialize_bool(bytes, pos) {
            Ok(v) => v,
            Err(e) => {
                return Err(e);
            },
        };
        proof {
            lemma_skip_skip(bytes@, p0, 1);
        }
        let ota = match deserialize_bool(bytes, pos) {
            Ok(v) => v,
            Err(e) => {
                return Err(e);
            },
        };
        proof {
            lemma_skip_skip(bytes@, p0, 2);
        }
        let sleep_time = match deserialize_u16(bytes, pos) {
            Ok(v) => v,
            Err(e) => {
                return Err(e);
            },
        };
        proof {
            lemma_skip_skip(bytes@, p0, 4);
        }
        let sbop = match deserialize_bool(bytes, pos) {
            Ok(v) => v,
            Err(e) => {
                return Err(e);
            },
        };
        proof {
            lemma_skip_skip(bytes@, p0, 5);
        }
        let mute_notifications = match deserialize_bool(bytes, pos) {
            Ok(v) => v,
            Err(e) => {
                return Err(e);
            },
        };
        Ok(NodeSettings { battery_ignore, ota, sleep_time, sbop, mute_notifications })
    }
}

/// Read an optional 16-bit value: a presence byte, then the value if present.
pub fn deserialize_opt_u16(bytes: &[u8], pos: &mut usize) -> (r: Result<Option<u16>, Deserialize>)
    requires
        *old(pos) <= bytes@.len(),
    ensures
        *final(pos) <= bytes@.len(),
        match (r, spec_take_opt_u16(bytes@.skip(*old(pos) as int))) {
            (Ok(v), Ok(p)) => v == p.0 && *final(pos) == *old(pos) + p.1,
            (Err(e1), Err(e2)) => e1 == e2,
            _ => false,
        },
{
    let ghost p0: int = *old(pos) as int;
    let present = match deserialize_bool(bytes, pos) {
        Ok(v) => v,
        Err(e) => {
            return Err(e);
        },
    };
    if !present {
        return Ok(None);
    }
    proof {
        lemma_skip_skip(bytes@, p0, 1);
    }
    match deserialize_u16(bytes, pos) {
        Ok(v) => Ok(Some(v)),
        Err(e) => Err(e),
    }
}

/// Read an optional settings record: a presence byte, then the record.
pub fn deserialize_opt_settings(bytes: &[u8], pos: &mut usize) -> (r: Result<
    Option<NodeSettings>,
    Deserialize,
>)
    requires
        *old(pos) <= bytes@.len(),
    ensures
        *final(pos) <= bytes@.len(),
        match (r, spec_take_opt_settings(bytes@.skip(*old(pos) as int))) {
            (Ok(v), Ok(p)) => v == p.0 && *final(pos) == *old(pos) + p.1,
            (Err(e1), Err(e2)) => e1 == e2,
            _ => false,
        },
{
    let ghost p0: int = *old(pos) as int;
    let present = match deserialize_bool(bytes, pos) {
        Ok(v) => v,
        Err(e) => {
            return Err(e);
        },
    };
    if !present {
        return Ok(None);
    }
    proof {
        lemma_skip_skip(bytes@, p0, 1);
    }
    match NodeSettings::deserialize(bytes, pos) {
        Ok(v) => Ok(Some(v)),
        Err(e) => Err(e),
    }
}

impl Deserializable for Request {
    /// The discriminant byte, then the variant's fields.
    open spec fn spec_take(b: Seq<u8>) -> Result<(crate::request::RequestView, int), Deserialize> {
        spec_take_request(b)
    }

    fn deserialize(bytes: &[u8], pos: &mut usize) -> (r: Result<Self, Deserialize>) {
        let ghost p0: int = *old(pos) as int;
        let req_type = match next_byte(bytes, pos) {
            Ok(t) => t,
            Err(e) => {
                return Err(e);
            },
        };
        proof {
            lemma_skip_skip(bytes@, p0, 1);
        }
        if req_type == consts::REQ_KIND_PING {
            Ok(Request::Ping)
        } else if req_type == consts::REQ_KIND_HANDSHAKE {
            let mac = match Mac::deserialize(bytes, pos) {
                Ok(v) => v,
                Err(e) => {
                    return Err(e);
                },
            };
            Ok(Request::Handshake { mac })
        } else if req_type == consts::REQ_KIND_POST_RESULTS {
            let bits = match deserialize_u32(bytes, pos) {
                Ok(v) => v,
                Err(e) => {
                    return Err(e);
                },
            };
            proof {
                lemma_skip_skip(bytes@, p0 + 1, 4);
            }
            let humidity = match next_byte(bytes, pos) {
                Ok(v) => v,
                Err(e) => {
                    return Err(e);
                },
            };
            proof {
                lemma_skip_skip(bytes@, p0 + 1, 5);
            }
            let air_pressure = match deserialize_opt_u16(bytes, pos) {
                Ok(v) => v,
                Err(e) => {
                    return Err(e);
                },
            };
            Ok(
                Request::PostResults {
                    temperature: crate::aliases::FloatBits::from_bits(bits),
                    humidity,
                    air_pressure,
                },
            )
        } else if req_type == consts::REQ_KIND_POST_STATS {
            let bits = match deserialize_u32(bytes, pos) {
                Ok(v) => v,
                Err(e) => {
                    return Err(e);
                },
            };
            proof {
                lemma_skip_skip(bytes@, p0 + 1, 4);
            }
            let ghost mid: int = *pos as int;
            let wifi_ssid = match deserialize_string(bytes, pos) {
                Ok(v) => v,
                Err(e) => {
                    return Err(e);
                },
            };
            proof {
                lemma_skip_skip(bytes@, p0 + 1, *pos - (p0 + 1));
            }
            let wifi_rssi = match deserialize_i8(bytes, pos) {
                Ok(v) => v,
                Err(e) => {
                    return Err(e);
                },
            };
            Ok(
                Request::PostStats {
                    battery: crate::aliases::FloatBits::from_bits(bits),
                    wifi_ssid,
                    wifi_rssi,
                },
            )
        } else if req_type == consts::REQ_KIND_SEND_NOTIFICATION {
            let content = match deserialize_string(bytes, pos) {
                Ok(v) => v,
                Err(e) => {
                    return Err(e);
                },
            };
            Ok(Request::SendNotification(content))
        } else if req_type == consts::REQ_KIND_GET_SETTINGS {
            Ok(Request::GetSettings)
        } else if req_type == consts::REQ_KIND_UPDATE_CHECK {
            let version = match Version::deserialize(bytes, pos) {
                Ok(v) => v,
                Err(e) => {
                    return Err(e);
                },
            };
            Ok(Request::UpdateCheck(version))
        } else if req_type == consts::REQ_KIND_NEXT_UPDATE_CHUNK {
            let amount = match deserialize_u64(bytes, pos) {
                Ok(v) => v,
                Err(e) => {
                    return Err(e);
                },
            };
            Ok(Request::NextUpdateChunk(amount))
        } else if req_type == consts::REQ_KIND_REPORT_FWU {
            let success = match deserialize_bool(bytes, pos) {
                Ok(v) => v,
                Err(e) => {
                    return Err(e);
                },
            };
            Ok(Request::ReportFirmwareUpdate(success))
        } else if req_type == consts::REQ_KIND_BYE {
            Ok(Request::Bye)
        } else {
            Err(Deserialize::IllegalRequestType(req_type))
        }
    }
}

impl Deserializable for Response {
    /// The discriminant byte, then the variant's fields.
    open spec fn spec_take(b: Seq<u8>) -> Result<
        (crate::response::ResponseView, int),
        Deserialize,
    > {
        spec_take_response(b)
    }

    fn deserialize(bytes: &[u8], pos: &mut usize) -> (r: Result<Self, Deserialize>) {
        let ghost p0: int = *old(pos) as int;
        let res_type = match next_byte(bytes, pos) {
            Ok(t) => t,
            Err(e) => {
                return Err(e);
            },
        };
        proof {
            lemma_skip_skip(bytes@, p0, 1);
        }
        if res_type == consts::RES_KIND_PONG {
            Ok(Response::Pong)
        } else if res_type == consts::RES_KIND_OK {
            Ok(Response::Okay)
        } else if res_type == consts::RES_KIND_REJECT {
            Ok(Response::Reject)
        } else if res_type == consts::RES_KIND_INVALID_REQ {
            Ok(Response::InvalidRequest)
        } else if res_type == consts::RES_KIND_RLE {
            Ok(Response::RateLimitExceeded)
        } else if res_type == consts::RES_KIND_ISE {
            Ok(Response::InternalServerError)
        } else if res_type == consts::RES_KIND_STALLING {
            Ok(Response::Stalling)
        } else if res_type == consts::RES_KIND_FW_UTD {
            Ok(Response::FirmwareUpToDate)
        } else if res_type == consts::RES_KIND_FW_UAVAIL {
            let version = match Version::deserialize(bytes, pos) {
                Ok(v) => v,
                Err(e) => {
                    return Err(e);
                },
            };
            Ok(Response::UpdateAvailable(version))
        } else if res_type == consts::RES_KIND_FW_UPART {
            let blob = match deserialize_blob(bytes, pos) {
                Ok(v) => v,
                Err(e) => {
                    return Err(e);
                },
            };
            Ok(Response::UpdatePart(blob))
        } else if res_type == consts::RES_KIND_FW_UEND {
            Ok(Response::UpdateEnd)
        } else if res_type == consts::RES_KIND_SETTINGS {
            let settings = match deserialize_opt_settings(bytes, pos) {
                Ok(v) => v,
                Err(e) => {
                    return Err(e);
                },
            };
            Ok(Response::Settings(settings))
        } else {
            Err(Deserialize::IllegalResponseType(res_type))
        }
    }
}

} // verus!
