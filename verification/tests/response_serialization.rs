use pwmp_msg::response::Response;
use pwmp_msg::settings::NodeSettings;
use pwmp_msg::version::Version;
use pwmp_msg::Message;

fn round_trip(response: Response) {
    let original_message = Message::new_response(response, 0);
    let serialized = original_message.clone().serialize();
    let deserialized = Message::deserialize(&serialized).unwrap();
    assert_eq!(original_message, deserialized);
}

#[test]
fn can_serialize_pong() {
    round_trip(Response::Pong);
}

#[test]
fn can_serialize_ok() {
    round_trip(Response::Okay);
}

#[test]
fn can_serialize_reject() {
    round_trip(Response::Reject);
}

#[test]
fn can_serialize_invalid_request() {
    round_trip(Response::InvalidRequest);
}

#[test]
fn can_serialize_rate_limit_exceeded() {
    round_trip(Response::RateLimitExceeded);
}

#[test]
fn can_serialize_internal_server_error() {
    round_trip(Response::InternalServerError);
}

#[test]
fn can_serialize_stalling() {
    round_trip(Response::Stalling);
}

#[test]
fn can_serialize_fw_up_to_date() {
    round_trip(Response::FirmwareUpToDate);
}

#[test]
fn can_serialize_update_available() {
    round_trip(Response::UpdateAvailable(Version::default()));
}

#[test]
fn can_serialize_update_part() {
    round_trip(Response::UpdatePart(b"blob".to_vec()));
}

#[test]
fn can_serialize_update_end() {
    round_trip(Response::UpdateEnd);
}

#[test]
fn can_serialize_empty_settings() {
    round_trip(Response::Settings(None));
}

#[test]
fn can_serialize_settings() {
    round_trip(Response::Settings(Some(NodeSettings {
        battery_ignore: true,
        ota: true,
        sleep_time: 16,
        sbop: false,
        mute_notifications: true,
    })));
}
