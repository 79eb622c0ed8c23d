use pwmp_msg::aliases::FloatBits;
use pwmp_msg::mac::Mac;
use pwmp_msg::request::Request;
use pwmp_msg::version::Version;
use pwmp_msg::Message;

fn round_trip(request: Request) {
    let original_message = Message::new_request(request, 1);
    let serialized = original_message.clone().serialize();
    let deserialized = Message::deserialize(&serialized).unwrap();
    assert_eq!(original_message, deserialized);
}

#[test]
fn can_deserialize_ping() {
    round_trip(Request::Ping);
}

#[test]
fn can_deserialize_hello() {
    round_trip(Request::Handshake {
        mac: Mac::new(0, 1, 2, 3, 4, 5),
    });
}

#[test]
fn can_deserialize_post_results() {
    round_trip(Request::PostResults {
        temperature: FloatBits::from_bits(0),
        humidity: 50,
        air_pressure: Some(u16::MAX),
    });
}

#[test]
fn can_deserialize_post_results_without_pressure() {
    round_trip(Request::PostResults {
        temperature: FloatBits::from_bits(22.5f32.to_bits()),
        humidity: 50,
        air_pressure: None,
    });
}

#[test]
fn can_deserialize_post_stats() {
    round_trip(Request::PostStats {
        battery: FloatBits::from_bits(0),
        wifi_ssid: "ABC 123".into(),
        wifi_rssi: -15,
    });
}

#[test]
fn can_deserialize_send_notification() {
    round_trip(Request::SendNotification("Hello, World!".into()));
}

#[test]
fn can_deserialize_get_settings() {
    round_trip(Request::GetSettings);
}

#[test]
fn can_deserialize_update_check() {
    round_trip(Request::UpdateCheck(Version::new(1, 0, 1)));
}

#[test]
fn can_deserialize_update_chunk() {
    round_trip(Request::NextUpdateChunk(256));
}

#[test]
fn can_deserialize_report_pos_fw_update() {
    round_trip(Request::ReportFirmwareUpdate(true));
}

#[test]
fn can_deserialize_report_neg_fw_update() {
    round_trip(Request::ReportFirmwareUpdate(false));
}

#[test]
fn float_bits_survive_the_trip() {
    let message = Message::new_request(
        Request::PostResults {
            temperature: FloatBits::from_bits((-7.25f32).to_bits()),
            humidity: 93,
            air_pressure: Some(1013),
        },
        9,
    );
    let bytes = message.clone().serialize();
    let back = Message::deserialize(&bytes).unwrap();
    match back.take_request().unwrap() {
        Request::PostResults { temperature, .. } => {
            assert_eq!(f32::from_bits(temperature.to_bits()), -7.25f32);
        }
        other => panic!("unexpected request: {other:?}"),
    }
}
