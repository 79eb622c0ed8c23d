//! Definition of the `Serializable` trait and its implementations.

use vstd::prelude::*;

use crate::mac::Mac;
use crate::request::Request;
use crate::response::Response;
use crate::settings::NodeSettings;
use crate::version::Version;

use super::utils::{
    serialize_blob, serialize_bool, serialize_i8, serialize_string, serialize_u16, serialize_u32,
    serialize_u64,
};
use super::wire::{
    spec_encode_request, spec_encode_response, spec_encode_settings, spec_encode_version,
};

verus! {

/// An object that is serializable as a sequence of bytes.
pub trait Serializable: View {
    /// The exact bytes that [`Self::serialize`] appends for this value.
    spec fn wire_bytes(&self) -> Seq<u8>;

    /// Serialize the object, appending its encoding to `buffer`.
    fn serialize(&self, buffer: &mut Vec<u8>)
        ensures
            final(buffer)@ == old(buffer)@ + self.wire_bytes(),
    ;
}

impl Serializable for Mac {
    /// Exactly the six octets, no length prefix.
    open spec fn wire_bytes(&self) -> Seq<u8> {
        self@
    }

    fn serialize(&self, buffer: &mut Vec<u8>) {
        buffer.push(self.octets[0]);
        buffer.push(self.octets[1]);
        buffer.push(self.octets[2]);
        buffer.push(self.octets[3]);
        buffer.push(self.octets[4]);
        buffer.push(self.octets[5]);
        proof {
            assert(buffer@ =~= old(buffer)@ + self@);
        }
    }
}

impl Serializable for Version {
    /// Exactly three raw bytes: major, middle, minor.
    open spec fn wire_bytes(&self) -> Seq<u8> {
        spec_encode_version(*self)
    }

    fn serialize(&self, buffer: &mut Vec<u8>) {
        buffer.push(self.major);
        buffer.push(self.middle);
        buffer.push(self.minor);
        proof {
            assert(buffer@ =~= old(buffer)@ + spec_encode_version(*self));
        }
    }
}

impl Serializable for NodeSettings {
    /// The five fields in declaration order: six bytes, no prefix, no tag.
    open spec fn wire_bytes(&self) -> Seq<u8> {
        spec_encode_settings(*self)
    }

    fn serialize(&self, buffer: &mut Vec<u8>) {
        serialize_bool(self.battery_ignore, buffer);
        serialize_bool(self.ota, buffer);
        serialize_u16(self.sleep_time, buffer);
        serialize_bool(self.sbop, buffer);
        serialize_bool(self.mute_notifications, buffer);
        proof {
            assert(buffer@ =~= old(buffer)@ + spec_encode_settings(*self));
        }
    }
}

impl Serializable for Request {
    /// The discriminant byte, then the variant's fields in declaration order.
    open spec fn wire_bytes(&self) -> Seq<u8> {
        spec_encode_request(self@)
    }

    fn serialize(&self, buffer: &mut Vec<u8>) {
        buffer.push(self.type_id());
        match self {
            Request::Ping => {},
            Request::Handshake { mac } => {
                mac.serialize(buffer);
            },
            Request::PostResults { temperature, humidity, air_pressure } => {
                serialize_u32(temperature.bits, buffer);
                buffer.push(*humidity);
                match air_pressure {
                    None => serialize_bool(false, buffer),
                    Some(val) => {
                        serialize_bool(true, buffer);
                        serialize_u16(*val, buffer);
                    },
                }
            },
            Request::PostStats { battery, wifi_ssid, wifi_rssi } => {
                serialize_u32(battery.bits, buffer);
                serialize_string(wifi_ssid.as_str(), buffer);
                serialize_i8(*wifi_rssi, buffer);
            },
            Request::SendNotification(content) => {
                serialize_string(content.as_str(), buffer);
            },
            Request::GetSettings => {},
            Request::UpdateCheck(current_ver) => {
                current_ver.serialize(buffer);
            },
            Request::NextUpdateChunk(size) => {
                serialize_u64(*size, buffer);
            },
            Request::ReportFirmwareUpdate(good) => {
                serialize_bool(*good, buffer);
            },
            Request::Bye => {},
        }
        proof {
            assert(buffer@ =~= old(buffer)@ + spec_encode_request(self@));
        }
    }
}

impl Serializable for Response {
    /// The discriminant byte, then the variant's fields in declaration order.
    open spec fn wire_bytes(&self) -> Seq<u8> {
        spec_encode_response(self@)
    }

    fn serialize(&self, buffer: &mut Vec<u8>) {
        buffer.push(self.type_id());
        match self {
            Response::UpdateAvailable(new_version) => {
                new_version.serialize(buffer);
            },
            Response::UpdatePart(blob) => {
                serialize_blob(blob.as_slice(), buffer);
            },
            Response::Settings(settings) => {
                match settings {
                    None => serialize_bool(false, buffer),
                    Some(val) => {
                        serialize_bool(true, buffer);
                        val.serialize(buffer);
                    },
                }
            },
            _ => {},
        }
        proof {
            assert(buffer@ =~= old(buffer)@ + spec_encode_response(self@));
        }
    }
}

} // verus!
