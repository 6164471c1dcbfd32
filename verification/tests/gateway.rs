use rs_wfirex4::ack::AckError;
use rs_wfirex4::gateway::{
    execute_response, get_ir_data, lookup_message, packet_output, to_hex, Response, Settings,
    HEX_DIGITS, STATUS_INTERNAL_SERVER_ERROR, STATUS_NOT_FOUND, STATUS_OK,
};
use rs_wfirex4::registry::{LookupError, Registry};
use rs_wfirex4::transport::TransportError;

fn sample() -> Registry {
    let mut registry = Registry::new();
    assert_eq!(registry.register("tv", "power", vec![0x01, 0x02]), Ok(()));
    assert_eq!(registry.register("ac", "on", vec![0x03]), Ok(()));
    assert_eq!(registry.register("ac", "off", vec![0x04]), Ok(()));
    registry
}

#[test]
fn status_codes() {
    assert_eq!(STATUS_OK, 200);
    assert_eq!(STATUS_NOT_FOUND, 404);
    assert_eq!(STATUS_INTERNAL_SERVER_ERROR, 500);
}

#[test]
fn hex_of_bytes() {
    assert_eq!(HEX_DIGITS, "0123456789abcdef");
    assert_eq!(to_hex(&[]), "");
    assert_eq!(to_hex(&[0x00]), "00");
    assert_eq!(to_hex(&[0x0F, 0xF0]), "0ff0");
    assert_eq!(to_hex(&[0xAA, 0x00, 0x04, 0x11]), "aa000411");
    assert_eq!(to_hex(&[0x01, 0x23, 0x45, 0x67, 0x89, 0xAB, 0xCD, 0xEF]), "0123456789abcdef");
}

#[test]
fn hex_matches_the_standard_formatting() {
    for byte in 0..=255u8 {
        assert_eq!(to_hex(&[byte]), format!("{:02x}", byte));
    }
}

#[test]
fn settings_give_the_address() {
    let settings = Settings::new("rs-wfirex4".to_string());
    assert_eq!(settings.host(), "rs-wfirex4");
    assert_eq!(settings.address(), "rs-wfirex4:60001");
    let settings = Settings::new("192.168.0.10".to_string());
    assert_eq!(settings.address(), "192.168.0.10:60001");
    let copy = settings.clone();
    assert_eq!(copy.host(), settings.host());
}

#[test]
fn message_for_an_unknown_device() {
    assert_eq!(
        lookup_message(LookupError::DeviceNotFound, "unknown_device", "x"),
        "Invalid device 'unknown_device'."
    );
}

#[test]
fn message_for_an_unknown_button() {
    assert_eq!(
        lookup_message(LookupError::ButtonNotFound, "tv", "mute"),
        "Invalid button 'mute' on device 'tv'."
    );
}

#[test]
fn packet_for_an_unknown_device_is_not_found() {
    let response = packet_output(&sample(), "unknown_device", "x");
    assert_eq!(response.status, 404);
    assert!(response.body.contains("unknown_device"));
    assert_eq!(response.body, "Invalid device 'unknown_device'.");
}

#[test]
fn packet_for_an_unknown_button_is_not_found() {
    let response = packet_output(&sample(), "tv", "mute");
    assert_eq!(
        response,
        Response { status: 404, body: "Invalid button 'mute' on device 'tv'.".to_string() }
    );
}

#[test]
fn packet_shows_the_frame_in_hex() {
    let response = packet_output(&sample(), "tv", "power");
    assert_eq!(
        response,
        Response {
            status: 200,
            body: "Button 'power' on device 'tv'.\naa0006110000020102bf".to_string(),
        }
    );
    let response = packet_output(&sample(), "ac", "on");
    assert_eq!(response.status, 200);
    assert_eq!(response.body, "Button 'on' on device 'ac'.\naa0005110000010338");
    let response = packet_output(&sample(), "ac", "off");
    assert_eq!(response.body, "Button 'off' on device 'ac'.\naa00051100000104a9");
}

#[test]
fn ir_data_is_found_or_answered() {
    let registry = sample();
    assert_eq!(get_ir_data(&registry, "tv", "power"), Ok(&vec![0x01, 0x02]));
    assert_eq!(
        get_ir_data(&registry, "radio", "power"),
        Err(Response { status: 404, body: "Invalid device 'radio'.".to_string() })
    );
    assert_eq!(
        get_ir_data(&registry, "ac", "power"),
        Err(Response { status: 404, body: "Invalid button 'power' on device 'ac'.".to_string() })
    );
}

#[test]
fn pressed_button_is_confirmed() {
    assert_eq!(
        execute_response("tv", "power", Ok(())),
        Response {
            status: 200,
            body: "Button 'power' on device 'tv' has been pressed.".to_string(),
        }
    );
}

#[test]
fn failed_exchange_is_an_internal_error() {
    let failures = [
        TransportError::Connect,
        TransportError::Write,
        TransportError::Read,
        TransportError::Protocol(AckError::InvalidHeader),
        TransportError::Protocol(AckError::InvalidLength),
        TransportError::Protocol(AckError::InvalidOrder),
        TransportError::Protocol(AckError::InvalidCrc),
    ];
    for failure in failures {
        assert_eq!(
            execute_response("tv", "power", Err(failure)),
            Response { status: 500, body: "Button 'power' on device 'tv' was Error.".to_string() }
        );
    }
}
