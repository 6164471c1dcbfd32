use rs_wfirex4::ack::{check_field, validate_ack, AckError, AckField, ACK_LEN};
use rs_wfirex4::calculate_crc;

#[test]
fn acknowledgement_is_six_bytes() {
    assert_eq!(ACK_LEN, 6);
    let total: usize = [AckField::Header, AckField::Length, AckField::Order, AckField::Crc]
        .iter()
        .map(|field| field.width())
        .sum();
    assert_eq!(total, ACK_LEN);
}

#[test]
fn valid_acknowledgement_is_accepted() {
    let crc = calculate_crc(&[0x11, 0x00]);
    assert_eq!(crc, 0xD1);
    assert_eq!(validate_ack(&[0xAA, 0x00, 0x02, 0x11, 0x00, crc]), Ok(()));
    assert_eq!(validate_ack(&[0xAA, 0x00, 0x02, 0x11, 0x00, 0xD1]), Ok(()));
}

#[test]
fn wrong_header_is_invalid_header_whatever_follows() {
    assert_eq!(
        validate_ack(&[0xAB, 0x00, 0x02, 0x11, 0x00, 0xD1]),
        Err(AckError::InvalidHeader)
    );
    assert_eq!(
        validate_ack(&[0x00, 0x00, 0x00, 0x00, 0x00, 0x00]),
        Err(AckError::InvalidHeader)
    );
    assert_eq!(
        validate_ack(&[0x55, 0xFF, 0xFF, 0xFF, 0xFF, 0xFF]),
        Err(AckError::InvalidHeader)
    );
    for header in 0..=255u8 {
        if header != 0xAA {
            for rest in [0x00u8, 0x02, 0x11, 0xAA, 0xD1, 0xFF] {
                assert_eq!(
                    validate_ack(&[header, rest, rest, rest, rest, rest]),
                    Err(AckError::InvalidHeader)
                );
            }
        }
    }
}

#[test]
fn wrong_length_is_invalid_length() {
    assert_eq!(
        validate_ack(&[0xAA, 0x00, 0x03, 0x11, 0x00, 0xD1]),
        Err(AckError::InvalidLength)
    );
    assert_eq!(
        validate_ack(&[0xAA, 0x02, 0x00, 0x11, 0x00, 0xD1]),
        Err(AckError::InvalidLength)
    );
    assert_eq!(
        validate_ack(&[0xAA, 0x00, 0x00, 0x00, 0x00, 0x00]),
        Err(AckError::InvalidLength)
    );
    assert_eq!(
        validate_ack(&[0xAA, 0x01, 0x02, 0x11, 0x00, 0xD1]),
        Err(AckError::InvalidLength)
    );
}

#[test]
fn wrong_order_is_invalid_order() {
    assert_eq!(
        validate_ack(&[0xAA, 0x00, 0x02, 0x11, 0x01, 0xD1]),
        Err(AckError::InvalidOrder)
    );
    assert_eq!(
        validate_ack(&[0xAA, 0x00, 0x02, 0x00, 0x11, 0xD1]),
        Err(AckError::InvalidOrder)
    );
    let crc = calculate_crc(&[0x12, 0x00]);
    assert_eq!(
        validate_ack(&[0xAA, 0x00, 0x02, 0x12, 0x00, crc]),
        Err(AckError::InvalidOrder)
    );
}

#[test]
fn wrong_checksum_is_invalid_crc() {
    assert_eq!(
        validate_ack(&[0xAA, 0x00, 0x02, 0x11, 0x00, 0xD0]),
        Err(AckError::InvalidCrc)
    );
    assert_eq!(
        validate_ack(&[0xAA, 0x00, 0x02, 0x11, 0x00, 0x00]),
        Err(AckError::InvalidCrc)
    );
    for crc in 0..=255u8 {
        let expected = if crc == 0xD1 { Ok(()) } else { Err(AckError::InvalidCrc) };
        assert_eq!(validate_ack(&[0xAA, 0x00, 0x02, 0x11, 0x00, crc]), expected);
    }
}

#[test]
fn first_wrong_field_decides() {
    assert_eq!(
        validate_ack(&[0x00, 0x00, 0x09, 0x99, 0x99, 0x99]),
        Err(AckError::InvalidHeader)
    );
    assert_eq!(
        validate_ack(&[0xAA, 0x00, 0x09, 0x99, 0x99, 0x99]),
        Err(AckError::InvalidLength)
    );
    assert_eq!(
        validate_ack(&[0xAA, 0x00, 0x02, 0x99, 0x99, 0x99]),
        Err(AckError::InvalidOrder)
    );
    assert_eq!(
        validate_ack(&[0xAA, 0x00, 0x02, 0x11, 0x00, 0x99]),
        Err(AckError::InvalidCrc)
    );
}

#[test]
fn fields_come_in_order() {
    assert_eq!(AckField::Header.next(), Some(AckField::Length));
    assert_eq!(AckField::Length.next(), Some(AckField::Order));
    assert_eq!(AckField::Order.next(), Some(AckField::Crc));
    assert_eq!(AckField::Crc.next(), None);
    assert_eq!(AckField::Header.width(), 1);
    assert_eq!(AckField::Length.width(), 2);
    assert_eq!(AckField::Order.width(), 2);
    assert_eq!(AckField::Crc.width(), 1);
}

#[test]
fn each_field_is_checked_alone() {
    assert_eq!(check_field(AckField::Header, &[0xAA]), Ok(()));
    assert_eq!(check_field(AckField::Header, &[0xAB]), Err(AckError::InvalidHeader));
    assert_eq!(check_field(AckField::Length, &[0x00, 0x02]), Ok(()));
    assert_eq!(check_field(AckField::Length, &[0x02, 0x00]), Err(AckError::InvalidLength));
    assert_eq!(check_field(AckField::Order, &[0x11, 0x00]), Ok(()));
    assert_eq!(check_field(AckField::Order, &[0x00, 0x11]), Err(AckError::InvalidOrder));
    assert_eq!(check_field(AckField::Crc, &[0xD1]), Ok(()));
    assert_eq!(check_field(AckField::Crc, &[0xD2]), Err(AckError::InvalidCrc));
}

#[test]
fn fields_agree_with_the_whole() {
    let frames: [[u8; 6]; 6] = [
        [0xAA, 0x00, 0x02, 0x11, 0x00, 0xD1],
        [0xAB, 0x00, 0x02, 0x11, 0x00, 0xD1],
        [0xAA, 0x00, 0x03, 0x11, 0x00, 0xD1],
        [0xAA, 0x00, 0x02, 0x11, 0x01, 0xD1],
        [0xAA, 0x00, 0x02, 0x11, 0x00, 0xD2],
        [0x00, 0x00, 0x00, 0x00, 0x00, 0x00],
    ];
    for frame in frames.iter() {
        let by_fields = check_field(AckField::Header, &frame[0..1])
            .and_then(|_| check_field(AckField::Length, &frame[1..3]))
            .and_then(|_| check_field(AckField::Order, &frame[3..5]))
            .and_then(|_| check_field(AckField::Crc, &frame[5..6]));
        assert_eq!(by_fields, validate_ack(frame));
    }
}

#[test]
fn changing_any_byte_of_the_valid_acknowledgement_spoils_it() {
    let valid: [u8; 6] = [0xAA, 0x00, 0x02, 0x11, 0x00, 0xD1];
    assert_eq!(validate_ack(&valid), Ok(()));
    let errors = [
        AckError::InvalidHeader,
        AckError::InvalidLength,
        AckError::InvalidLength,
        AckError::InvalidOrder,
        AckError::InvalidOrder,
        AckError::InvalidCrc,
    ];
    for position in 0..6 {
        for byte in 0..=255u8 {
            if byte != valid[position] {
                let mut frame = valid;
                frame[position] = byte;
                assert_eq!(validate_ack(&frame), Err(errors[position]));
            }
        }
    }
}
