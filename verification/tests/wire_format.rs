use pwmp_msg::kick::KickReason;
use pwmp_msg::request::Request;
use pwmp_msg::response::Response;
use pwmp_msg::serde::error::Deserialize;
use pwmp_msg::settings::NodeSettings;
use pwmp_msg::version::Version;
use pwmp_msg::Message;

#[test]
fn ping_envelope_is_six_bytes() {
    let message = Message::new_request(Request::Ping, 1);
    let bytes = message.clone().serialize();
    assert_eq!(bytes.len(), 6);
    assert_eq!(bytes, vec![1, 0, 0, 0, 4, 10]);
    assert_eq!(Message::deserialize(&bytes), Some(message));
}

#[test]
fn update_check_exact_layout() {
    let message = Message::new_request(Request::UpdateCheck(Version::new(1, 0, 1)), 2);
    let bytes = message.serialize();
    assert_eq!(bytes, vec![2, 0, 0, 0, 4, 16, 1, 0, 1]);
}

#[test]
fn next_update_chunk_little_endian_length() {
    let message = Message::new_request(Request::NextUpdateChunk(256), 0);
    let bytes = message.serialize();
    assert_eq!(bytes, vec![0, 0, 0, 0, 4, 17, 0, 1, 0, 0, 0, 0, 0, 0]);
}

#[test]
fn settings_exact_layout() {
    let message = Message::new_response(
        Response::Settings(Some(NodeSettings {
            battery_ignore: false,
            ota: true,
            sleep_time: 300,
            sbop: true,
            mute_notifications: false,
        })),
        7,
    );
    let bytes = message.serialize();
    assert_eq!(bytes, vec![7, 0, 0, 0, 6, 51, 1, 0, 1, 44, 1, 1, 0]);
}

#[test]
fn notification_blob_layout() {
    let message = Message::new_request(Request::SendNotification("hi".into()), 0);
    let bytes = message.serialize();
    assert_eq!(
        bytes,
        vec![0, 0, 0, 0, 4, 14, 2, 0, 0, 0, 0, 0, 0, 0, b'h', b'i']
    );
}

#[test]
fn large_update_part_length_prefix() {
    let blob: Vec<u8> = (0..300).map(|i| (i % 256) as u8).collect();
    let message = Message::new_response(Response::UpdatePart(blob), 1);
    let bytes = message.clone().serialize();
    assert_eq!(bytes.len(), 4 + 1 + 1 + 8 + 300);
    assert_eq!(&bytes[6..14], &[44, 1, 0, 0, 0, 0, 0, 0]);
    assert_eq!(Message::deserialize(&bytes), Some(message));
}

#[test]
fn illegal_message_kind_is_reported() {
    let result = pwmp_msg::serde::deserialize(&[0, 0, 0, 0, 99, 10]);
    assert_eq!(result, Err(Deserialize::IllegalMessageType(99)));
}

#[test]
fn illegal_request_type_is_reported() {
    let result = pwmp_msg::serde::deserialize(&[0, 0, 0, 0, 4, 99]);
    assert_eq!(result, Err(Deserialize::IllegalRequestType(99)));
}

#[test]
fn illegal_response_type_is_reported() {
    let result = pwmp_msg::serde::deserialize(&[0, 0, 0, 0, 6, 99]);
    assert_eq!(result, Err(Deserialize::IllegalResponseType(99)));
}

#[test]
fn illegal_boolean_is_reported() {
    // A settings response whose presence byte is neither 0 nor 1.
    let result = pwmp_msg::serde::deserialize(&[0, 0, 0, 0, 6, 51, 2]);
    assert_eq!(result, Err(Deserialize::IllegalBoolean(2)));
}

#[test]
fn every_strict_prefix_is_rejected_as_truncated() {
    let message = Message::new_request(
        Request::PostStats {
            battery: pwmp_msg::aliases::FloatBits::from_bits(0x3f800000),
            wifi_ssid: "net".into(),
            wifi_rssi: -40,
        },
        3,
    );
    let bytes = message.serialize();
    for cut in 0..bytes.len() {
        let result = pwmp_msg::serde::deserialize(&bytes[..cut]);
        match result {
            Err(Deserialize::ExpectedOneMoreByte) => {}
            Err(Deserialize::ExpectedMoreBytes { .. }) => {}
            other => panic!("prefix of {cut} bytes gave {other:?}"),
        }
    }
}

#[test]
fn empty_input_wants_the_id() {
    let result = pwmp_msg::serde::deserialize(&[]);
    assert_eq!(
        result,
        Err(Deserialize::ExpectedMoreBytes {
            expected: 4,
            got: 0
        })
    );
}

#[test]
fn missing_kind_byte_is_reported() {
    let result = pwmp_msg::serde::deserialize(&[0, 0, 0, 0]);
    assert_eq!(result, Err(Deserialize::ExpectedOneMoreByte));
}

#[test]
fn short_blob_is_reported() {
    // A notification whose length prefix promises five bytes but supplies two.
    let result = pwmp_msg::serde::deserialize(&[0, 0, 0, 0, 4, 14, 5, 0, 0, 0, 0, 0, 0, 0, 1, 2]);
    assert_eq!(
        result,
        Err(Deserialize::ExpectedMoreBytes {
            expected: 5,
            got: 2
        })
    );
}

#[test]
fn trailing_byte_is_rejected() {
    let message = Message::new_response(Response::Pong, 12);
    let mut bytes = message.serialize();
    bytes.push(0);
    let result = pwmp_msg::serde::deserialize(&bytes);
    assert_eq!(result, Err(Deserialize::ExtraDataLeft(1)));
    assert_eq!(Message::deserialize(&bytes), None);
}

#[test]
fn invalid_utf8_notification_is_rejected() {
    // A one-byte text blob holding 0xFF, which is not valid UTF-8.
    let result = pwmp_msg::serde::deserialize(&[0, 0, 0, 0, 4, 14, 1, 0, 0, 0, 0, 0, 0, 0, 0xFF]);
    match result {
        Err(Deserialize::IllegalUtf8String(cause)) => assert_eq!(cause.valid_up_to, 0),
        other => panic!("expected a UTF-8 error, got {other:?}"),
    }
}

#[test]
fn invalid_utf8_reports_longest_valid_prefix() {
    // "hi" followed by a stray continuation byte.
    let result = pwmp_msg::serde::deserialize(&[
        0, 0, 0, 0, 4, 14, 3, 0, 0, 0, 0, 0, 0, 0, b'h', b'i', 0x80,
    ]);
    match result {
        Err(Deserialize::IllegalUtf8String(cause)) => assert_eq!(cause.valid_up_to, 2),
        other => panic!("expected a UTF-8 error, got {other:?}"),
    }
}

#[test]
fn message_accessors() {
    let request_message = Message::new_request(Request::Bye, 42);
    assert_eq!(request_message.id(), 42);
    assert_eq!(request_message.request(), Some(&Request::Bye));
    assert_eq!(request_message.response(), None);
    assert_eq!(request_message.clone().take_request(), Some(Request::Bye));
    assert_eq!(request_message.take_response(), None);

    let response_message = Message::new_response(Response::UpdateEnd, 43);
    assert_eq!(response_message.id(), 43);
    assert_eq!(response_message.response(), Some(&Response::UpdateEnd));
    assert_eq!(response_message.request(), None);
    assert_eq!(
        response_message.clone().take_response(),
        Some(Response::UpdateEnd)
    );
    assert_eq!(response_message.take_request(), None);
}

#[test]
fn settings_defaults() {
    let defaults = NodeSettings::const_default();
    assert_eq!(defaults, NodeSettings::default());
    assert!(!defaults.battery_ignore);
    assert!(defaults.ota);
    assert_eq!(defaults.sleep_time, 60);
    assert!(defaults.sbop);
    assert!(!defaults.mute_notifications);
    let mut settings = defaults;
    settings.sleep_time = 555;
    assert_eq!(settings.sleep_time(), 555);
}

#[test]
fn mac_octets() {
    let mac = pwmp_msg::mac::Mac::new(0xDE, 0xAD, 0xBE, 0xEF, 0x01, 0x02);
    assert_eq!(mac.octet(0), 0xDE);
    assert_eq!(mac.octet(5), 0x02);
    assert_eq!(mac, pwmp_msg::mac::Mac::new(0xDE, 0xAD, 0xBE, 0xEF, 0x01, 0x02));
}

#[test]
fn kick_reasons_are_distinct() {
    let reasons = [
        KickReason::InternalServerError,
        KickReason::CapacityReached,
        KickReason::BadRequest,
        KickReason::TooManyRequests,
        KickReason::Unspecified,
    ];
    for (a, left) in reasons.iter().enumerate() {
        for (b, right) in reasons.iter().enumerate() {
            assert_eq!(a == b, left == right);
        }
    }
}
