//! Contains the definition of a request message.

use vstd::prelude::*;

use crate::aliases::{AirPressure, BatteryVoltage, Humidity, Rssi, Temperature};
use crate::mac::Mac;
use crate::version::Version;

verus! {

/// A request message used by nodes to ask the server to perform an operation.
#[derive(Debug, PartialEq, Clone)]
pub enum Request {
    /// Used to check if the server is alive.
    Ping,

    /// Ask the server to authorize the node using its MAC address.
    Handshake {
        /// The node's MAC address.
        mac: Mac,
    },

    /// Post measurement results to the database.
    PostResults {
        /// Temperature.
        temperature: Temperature,
        /// Humidity.
        humidity: Humidity,
        /// Air pressure *(if supported by the node)*.
        air_pressure: Option<AirPressure>,
    },

    /// Post node statistics to the database.
    PostStats {
        /// Node's battery voltage.
        battery: BatteryVoltage,
        /// ESSID of the wireless network.
        wifi_ssid: String,
        /// Signal quality of the connection to the wireless network.
        wifi_rssi: Rssi,
    },

    /// Store a notification in the database.
    SendNotification(String),

    /// Retrieve the node's settings from the database.
    GetSettings,

    /// Check for a firmware update.
    UpdateCheck(Version),

    /// Request a part of a firmware upgrade; the parameter is the maximum
    /// chunk size that shall be received.
    NextUpdateChunk(u64),

    /// Report back about the updated firmware version: whether the new
    /// firmware works, or the node has rolled back to a previous version.
    ReportFirmwareUpdate(bool),

    /// Tell the server that the session is over and the node will disconnect.
    Bye,
}

/// The abstract value of a [`Request`]: text becomes a sequence of
/// characters; everything else is already a plain value.
pub enum RequestView {
    /// Abstraction of [`Request::Ping`].
    Ping,
    /// Abstraction of [`Request::Handshake`].
    Handshake { mac: Seq<u8> },
    /// Abstraction of [`Request::PostResults`].
    PostResults { temperature: Temperature, humidity: Humidity, air_pressure: Option<AirPressure> },
    /// Abstraction of [`Request::PostStats`].
    PostStats { battery: BatteryVoltage, wifi_ssid: Seq<char>, wifi_rssi: Rssi },
    /// Abstraction of [`Request::SendNotification`].
    SendNotification(Seq<char>),
    /// Abstraction of [`Request::GetSettings`].
    GetSettings,
    /// Abstraction of [`Request::UpdateCheck`].
    UpdateCheck(Version),
    /// Abstraction of [`Request::NextUpdateChunk`].
    NextUpdateChunk(u64),
    /// Abstraction of [`Request::ReportFirmwareUpdate`].
    ReportFirmwareUpdate(bool),
    /// Abstraction of [`Request::Bye`].
    Bye,
}

impl View for Request {
    type V = RequestView;

    open spec fn view(&self) -> RequestView {
        match self {
            Request::Ping => RequestView::Ping,
            Request::Handshake { mac } => RequestView::Handshake { mac: mac@ },
            Request::PostResults { temperature, humidity, air_pressure } => {
                RequestView::PostResults {
                    temperature: *temperature,
                    humidity: *humidity,
                    air_pressure: *air_pressure,
                }
            },
            Request::PostStats { battery, wifi_ssid, wifi_rssi } => {
                RequestView::PostStats {
                    battery: *battery,
                    wifi_ssid: wifi_ssid@,
                    wifi_rssi: *wifi_rssi,
                }
            },
            Request::SendNotification(content) => RequestView::SendNotification(content@),
            Request::GetSettings => RequestView::GetSettings,
            Request::UpdateCheck(current_ver) => RequestView::UpdateCheck(*current_ver),
            Request::NextUpdateChunk(size) => RequestView::NextUpdateChunk(*size),
            Request::ReportFirmwareUpdate(good) => RequestView::ReportFirmwareUpdate(*good),
            Request::Bye => RequestView::Bye,
        }
    }
}

impl Request {
    /// Return the discriminant byte that identifies this variant on the wire.
    pub fn type_id(&self) -> (r: u8)
        ensures
            r == self@.type_id(),
    {
        match self {
            Request::Ping => crate::serde::consts::REQ_KIND_PING,
            Request::Handshake { .. } => crate::serde::consts::REQ_KIND_HANDSHAKE,
            Request::PostResults { .. } => crate::serde::consts::REQ_KIND_POST_RESULTS,
            Request::PostStats { .. } => crate::serde::consts::REQ_KIND_POST_STATS,
            Request::SendNotification(..) => crate::serde::consts::REQ_KIND_SEND_NOTIFICATION,
            Request::GetSettings => crate::serde::consts::REQ_KIND_GET_SETTINGS,
            Request::UpdateCheck(..) => crate::serde::consts::REQ_KIND_UPDATE_CHECK,
            Request::NextUpdateChunk(..) => crate::serde::consts::REQ_KIND_NEXT_UPDATE_CHUNK,
            Request::ReportFirmwareUpdate(..) => crate::serde::consts::REQ_KIND_REPORT_FWU,
            Request::Bye => crate::serde::consts::REQ_KIND_BYE,
        }
    }
}

impl RequestView {
    /// The discriminant byte of the variant, as written on the wire.
    pub open spec fn type_id(&self) -> u8 {
        match self {
            RequestView::Ping => crate::serde::consts::REQ_KIND_PING,
            RequestView::Handshake { .. } => crate::serde::consts::REQ_KIND_HANDSHAKE,
            RequestView::PostResults { .. } => crate::serde::consts::REQ_KIND_POST_RESULTS,
            RequestView::PostStats { .. } => crate::serde::consts::REQ_KIND_POST_STATS,
            RequestView::SendNotification(..) => crate::serde::consts::REQ_KIND_SEND_NOTIFICATION,
            RequestView::GetSettings => crate::serde::consts::REQ_KIND_GET_SETTINGS,
            RequestView::UpdateCheck(..) => crate::serde::consts::REQ_KIND_UPDATE_CHECK,
            RequestView::NextUpdateChunk(..) => crate::serde::consts::REQ_KIND_NEXT_UPDATE_CHUNK,
            RequestView::ReportFirmwareUpdate(..) => crate::serde::consts::REQ_KIND_REPORT_FWU,
            RequestView::Bye => crate::serde::consts::REQ_KIND_BYE,
        }
    }
}

} // verus!
