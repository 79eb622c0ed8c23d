//! Contains the definition of a response message, used to respond to requests.

use vstd::prelude::*;

use crate::settings::NodeSettings;
use crate::version::Version;

verus! {

/// A response message used by the server to respond to
/// [`Request`](crate::request::Request)s.
#[derive(Debug, PartialEq, Eq, Clone)]
pub enum Response {
    /// A response message to [`Request::Ping`](crate::request::Request::Ping).
    Pong,

    /// Indicate a successfully processed request.
    Okay,

    /// The server has rejected authentication; the node will be disconnected.
    Reject,

    /// The client made an invalid request.
    InvalidRequest,

    /// Client exceeded the server's rate limit.
    RateLimitExceeded,

    /// An error occurred on the server while processing the request.
    InternalServerError,

    /// Kicked for stalling.
    Stalling,

    /// No new firmware update is available.
    FirmwareUpToDate,

    /// Firmware update available.
    UpdateAvailable(Version),

    /// Part of a firmware update.
    UpdatePart(Vec<u8>),

    /// End of firmware update chunks.
    UpdateEnd,

    /// Node settings.
    Settings(Option<NodeSettings>),
}

/// The abstract value of a [`Response`]: the update blob becomes a sequence
/// of bytes; everything else is already a plain value.
pub enum ResponseView {
    /// Abstraction of [`Response::Pong`].
    Pong,
    /// Abstraction of [`Response::Okay`].
    Okay,
    /// Abstraction of [`Response::Reject`].
    Reject,
    /// Abstraction of [`Response::InvalidRequest`].
    InvalidRequest,
    /// Abstraction of [`Response::RateLimitExceeded`].
    RateLimitExceeded,
    /// Abstraction of [`Response::InternalServerError`].
    InternalServerError,
    /// Abstraction of [`Response::Stalling`].
    Stalling,
    /// Abstraction of [`Response::FirmwareUpToDate`].
    FirmwareUpToDate,
    /// Abstraction of [`Response::UpdateAvailable`].
    UpdateAvailable(Version),
    /// Abstraction of [`Response::UpdatePart`].
    UpdatePart(Seq<u8>),
    /// Abstraction of [`Response::UpdateEnd`].
    UpdateEnd,
    /// Abstraction of [`Response::Settings`].
    Settings(Option<NodeSettings>),
}

impl View for Response {
    type V = ResponseView;

    open spec fn view(&self) -> ResponseView {
        match self {
            Response::Pong => ResponseView::Pong,
            Response::Okay => ResponseView::Okay,
            Response::Reject => ResponseView::Reject,
            Response::InvalidRequest => ResponseView::InvalidRequest,
            Response::RateLimitExceeded => ResponseView::RateLimitExceeded,
            Response::InternalServerError => ResponseView::InternalServerError,
            Response::Stalling => ResponseView::Stalling,
            Response::FirmwareUpToDate => ResponseView::FirmwareUpToDate,
            Response::UpdateAvailable(new_version) => ResponseView::UpdateAvailable(*new_version),
            Response::UpdatePart(blob) => ResponseView::UpdatePart(blob@),
            Response::UpdateEnd => ResponseView::UpdateEnd,
            Response::Settings(settings) => ResponseView::Settings(*settings),
        }
    }
}

impl Response {
    /// Return the discriminant byte that identifies this variant on the wire.
    pub fn type_id(&self) -> (r: u8)
        ensures
            r == self@.type_id(),
    {
        match self {
            Response::Pong => crate::serde::consts::RES_KIND_PONG,
            Response::Okay => crate::serde::consts::RES_KIND_OK,
            Response::Reject => crate::serde::consts::RES_KIND_REJECT,
            Response::InvalidRequest => crate::serde::consts::RES_KIND_INVALID_REQ,
            Response::RateLimitExceeded => crate::serde::consts::RES_KIND_RLE,
            Response::InternalServerError => crate::serde::consts::RES_KIND_ISE,
            Response::Stalling => crate::serde::consts::RES_KIND_STALLING,
            Response::FirmwareUpToDate => crate::serde::consts::RES_KIND_FW_UTD,
            Response::UpdateAvailable(..) => crate::serde::consts::RES_KIND_FW_UAVAIL,
            Response::UpdatePart(..) => crate::serde::consts::RES_KIND_FW_UPART,
            Response::UpdateEnd => crate::serde::consts::RES_KIND_FW_UEND,
            Response::Settings(..) => crate::serde::consts::RES_KIND_SETTINGS,
        }
    }
}

impl ResponseView {
    /// The discriminant byte of the variant, as written on the wire.
    pub open spec fn type_id(&self) -> u8 {
        match self {
            ResponseView::Pong => crate::serde::consts::RES_KIND_PONG,
            ResponseView::Okay => crate::serde::consts::RES_KIND_OK,
            ResponseView::Reject => crate::serde::consts::RES_KIND_REJECT,
            ResponseView::InvalidRequest => crate::serde::consts::RES_KIND_INVALID_REQ,
            ResponseView::RateLimitExceeded => crate::serde::consts::RES_KIND_RLE,
            ResponseView::InternalServerError => crate::serde::consts::RES_KIND_ISE,
            ResponseView::Stalling => crate::serde::consts::RES_KIND_STALLING,
            ResponseView::FirmwareUpToDate => crate::serde::consts::RES_KIND_FW_UTD,
            ResponseView::UpdateAvailable(..) => crate::serde::consts::RES_KIND_FW_UAVAIL,
            ResponseView::UpdatePart(..) => crate::serde::consts::RES_KIND_FW_UPART,
            ResponseView::UpdateEnd => crate::serde::consts::RES_KIND_FW_UEND,
            ResponseView::Settings(..) => crate::serde::consts::RES_KIND_SETTINGS,
        }
    }
}

} // verus!
