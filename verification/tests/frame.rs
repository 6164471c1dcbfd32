use rs_wfirex4::frame::{encode, get_payload, EncodeError, Payload, SendData, MAX_WAVEFORM_LEN};
use rs_wfirex4::wire::{u16_from_be, u16_to_be, IR_HEADER, IR_ORDER};

fn pattern(len: usize) -> Vec<u8> {
    (0..len).map(|i| ((i * 7 + 3) & 0xFF) as u8).collect()
}

#[test]
fn constants_of_the_protocol() {
    assert_eq!(IR_HEADER, 0xAA);
    assert_eq!(IR_ORDER, 0x1100);
    assert_eq!(MAX_WAVEFORM_LEN, 65535);
}

#[test]
fn big_endian_fields() {
    assert_eq!(u16_to_be(0x1100), [0x11, 0x00]);
    assert_eq!(u16_to_be(0x0002), [0x00, 0x02]);
    assert_eq!(u16_to_be(0xFFFB), [0xFF, 0xFB]);
    assert_eq!(u16_from_be(0x11, 0x00), 0x1100);
    assert_eq!(u16_from_be(0x00, 0x02), 2);
    assert_eq!(u16_from_be(0xFF, 0xFF), 65535);
    for n in [0u16, 1, 255, 256, 0x1234, 65535] {
        let bytes = u16_to_be(n);
        assert_eq!(u16_from_be(bytes[0], bytes[1]), n);
    }
}

#[test]
fn frame_of_the_empty_waveform() {
    let frame = get_payload(&vec![]);
    assert_eq!(frame, vec![0xAA, 0x00, 0x04, 0x11, 0x00, 0x00, 0x00, 0xF3]);
}

#[test]
fn frame_of_a_short_waveform() {
    let frame = get_payload(&vec![0x01, 0x02]);
    assert_eq!(frame, vec![0xAA, 0x00, 0x06, 0x11, 0x00, 0x00, 0x02, 0x01, 0x02, 0xBF]);
    let frame = get_payload(&vec![0x03]);
    assert_eq!(frame, vec![0xAA, 0x00, 0x05, 0x11, 0x00, 0x00, 0x01, 0x03, 0x38]);
    let frame = get_payload(&vec![0x04]);
    assert_eq!(frame, vec![0xAA, 0x00, 0x05, 0x11, 0x00, 0x00, 0x01, 0x04, 0xA9]);
}

#[test]
fn frame_of_five_bytes() {
    let frame = get_payload(&vec![0x01, 0x02, 0x03, 0xFE, 0xFF]);
    assert_eq!(
        frame,
        vec![0xAA, 0x00, 0x09, 0x11, 0x00, 0x00, 0x05, 0x01, 0x02, 0x03, 0xFE, 0xFF, 0x13]
    );
}

#[test]
fn frame_lengths_count_payload_and_waveform() {
    for len in [0usize, 1, 2, 255, 256, 300, 4096, 65531] {
        let waveform = pattern(len);
        let frame = get_payload(&waveform);
        assert_eq!(frame.len(), len + 8);
        assert_eq!(frame[0], 0xAA);
        assert_eq!(u16_from_be(frame[1], frame[2]) as usize, len + 4);
        assert_eq!(u16_from_be(frame[3], frame[4]), 0x1100);
        assert_eq!(u16_from_be(frame[5], frame[6]) as usize, len);
        assert_eq!(&frame[7..7 + len], &waveform[..]);
    }
}

#[test]
fn frame_of_three_hundred_bytes() {
    let frame = get_payload(&pattern(300));
    assert_eq!(&frame[..7], &[0xAA, 0x01, 0x30, 0x11, 0x00, 0x01, 0x2C]);
    assert_eq!(frame[frame.len() - 1], 0x36);
    assert_eq!(frame.len(), 308);
}

#[test]
fn frame_of_the_longest_waveform_whose_payload_length_fits() {
    let frame = get_payload(&pattern(65531));
    assert_eq!(&frame[..7], &[0xAA, 0xFF, 0xFF, 0x11, 0x00, 0xFF, 0xFB]);
    assert_eq!(frame[frame.len() - 1], 0x8B);
    assert_eq!(frame.len(), 65539);
}

#[test]
fn frame_length_field_wraps_for_the_four_longest_waveforms() {
    let frame = get_payload(&pattern(65532));
    assert_eq!(&frame[..7], &[0xAA, 0x00, 0x00, 0x11, 0x00, 0xFF, 0xFC]);
    assert_eq!(frame[frame.len() - 1], 0xED);
    assert_eq!(frame.len(), 65540);

    let frame = get_payload(&pattern(65535));
    assert_eq!(&frame[..7], &[0xAA, 0x00, 0x03, 0x11, 0x00, 0xFF, 0xFF]);
    assert_eq!(frame[frame.len() - 1], 0x44);
    assert_eq!(frame.len(), 65543);
}

#[test]
fn frame_ends_with_the_checksum_of_its_payload() {
    let waveform = pattern(1000);
    let frame = get_payload(&waveform);
    let payload = &frame[3..frame.len() - 1];
    assert_eq!(frame[frame.len() - 1], rs_wfirex4::calculate_crc(payload));
}

#[test]
fn encode_gives_the_frame() {
    assert_eq!(
        encode(&vec![0x01, 0x02]),
        Ok(vec![0xAA, 0x00, 0x06, 0x11, 0x00, 0x00, 0x02, 0x01, 0x02, 0xBF])
    );
    let longest = pattern(65535);
    assert_eq!(encode(&longest), Ok(get_payload(&longest)));
}

#[test]
fn encode_refuses_a_waveform_that_is_too_long() {
    assert_eq!(encode(&pattern(65536)), Err(EncodeError::WaveformTooLarge));
    assert_eq!(encode(&pattern(70000)), Err(EncodeError::WaveformTooLarge));
}

#[test]
fn payload_holds_order_length_and_waveform() {
    let payload = Payload::new(&vec![0x09, 0x08, 0x07]);
    assert_eq!(payload.len(), 7);
    assert_eq!(payload.to_bytes(), vec![0x11, 0x00, 0x00, 0x03, 0x09, 0x08, 0x07]);

    let empty = Payload::new(&vec![]);
    assert_eq!(empty.len(), 4);
    assert_eq!(empty.to_bytes(), vec![0x11, 0x00, 0x00, 0x00]);
}

#[test]
fn payload_length_matches_its_bytes() {
    for len in [0usize, 1, 17, 255, 256, 65535] {
        let payload = Payload::new(&pattern(len));
        assert_eq!(payload.len(), len + 4);
        assert_eq!(payload.to_bytes().len(), payload.len());
    }
}

#[test]
fn send_data_serialises_to_the_frame() {
    let waveform = vec![0x01, 0x02];
    let send_data = SendData::new(&waveform);
    assert_eq!(send_data.to_bytes(), get_payload(&waveform));
    assert_eq!(
        send_data.to_bytes(),
        vec![0xAA, 0x00, 0x06, 0x11, 0x00, 0x00, 0x02, 0x01, 0x02, 0xBF]
    );
}

#[test]
fn encoding_twice_gives_the_same_frame() {
    let waveform = pattern(513);
    assert_eq!(get_payload(&waveform), get_payload(&waveform));
}
