//! Validation of the acknowledgement that the appliance sends back.
//!
//! An acknowledgement is six bytes: the header, a two-byte length that must be
//! 2, the two-byte order code of the command it answers, and the checksum of
//! those two order bytes. The fields are checked in that order and the first
//! one that is wrong decides the error.

use vstd::prelude::*;
use crate::crc::{calculate_crc, crc8, crc8_concat, crc8_from_single, crc8_update};
use crate::wire::{be16, be16_encodes, be16_value, u16_from_be, u16_to_be, IR_HEADER, IR_ORDER};

verus! {

/// The number of bytes in an acknowledgement.
pub const ACK_LEN: usize = 6;

/// The value that the length field of an acknowledgement must hold: the
/// number of order bytes.
pub const ACK_BODY_LEN: u16 = 2;

/// Why an acknowledgement was refused.
#[derive(Debug, Clone, Copy, PartialEq, Eq, Structural)]
pub enum AckError {
    /// The first byte is not the frame header.
    InvalidHeader,
    /// The length field is not 2.
    InvalidLength,
    /// The order code is not the one that was sent.
    InvalidOrder,
    /// The last byte is not the checksum of the order bytes.
    InvalidCrc,
}

/// The first byte is the frame header.
pub open spec fn header_ok(frame: Seq<u8>) -> bool {
    frame[0] == IR_HEADER
}

/// The length field holds 2.
pub open spec fn length_ok(frame: Seq<u8>) -> bool {
    be16_value(frame[1], frame[2]) == ACK_BODY_LEN
}

/// The order field holds the order code that commands carry.
pub open spec fn order_ok(frame: Seq<u8>) -> bool {
    be16_value(frame[3], frame[4]) == IR_ORDER
}

/// The last byte is the checksum of the two order bytes.
pub open spec fn crc_ok(frame: Seq<u8>) -> bool {
    frame[5] == crc8(frame.subrange(3, 5))
}

/// The verdict that refuses an acknowledgement with `error`.
pub open spec fn refused(error: AckError) -> Result<(), AckError> {
    Err(error)
}

/// The verdict on a complete acknowledgement of six bytes: the error of the
/// first field that is wrong, or success if none is.
pub open spec fn ack_verdict(frame: Seq<u8>) -> Result<(), AckError>
    recommends
        frame.len() == ACK_LEN,
{
    if !header_ok(frame) {
        Err(AckError::InvalidHeader)
    } else if !length_ok(frame) {
        Err(AckError::InvalidLength)
    } else if !order_ok(frame) {
        Err(AckError::InvalidOrder)
    } else if !crc_ok(frame) {
        Err(AckError::InvalidCrc)
    } else {
        Ok(())
    }
}

/// Checks a complete acknowledgement.
pub fn validate_ack(frame: &[u8; 6]) -> (verdict: Result<(), AckError>)
    ensures
        verdict == ack_verdict(frame@),
        !header_ok(frame@) ==> verdict == refused(AckError::InvalidHeader),
        header_ok(frame@) && !length_ok(frame@) ==> verdict == refused(AckError::InvalidLength),
        header_ok(frame@) && length_ok(frame@) && !order_ok(frame@) ==> verdict == refused(
            AckError::InvalidOrder,
        ),
        header_ok(frame@) && length_ok(frame@) && order_ok(frame@) && !crc_ok(frame@)
            ==> verdict == refused(AckError::InvalidCrc),
        header_ok(frame@) && length_ok(frame@) && order_ok(frame@) && crc_ok(frame@)
            ==> verdict is Ok,
{
    if frame[0] != IR_HEADER {
        return Err(AckError::InvalidHeader);
    }
    if u16_from_be(frame[1], frame[2]) != ACK_BODY_LEN {
        return Err(AckError::InvalidLength);
    }
    if u16_from_be(frame[3], frame[4]) != IR_ORDER {
        return Err(AckError::InvalidOrder);
    }
    let order: [u8; 2] = [frame[3], frame[4]];
    assert(order@ =~= frame@.subrange(3, 5));
    if frame[5] != calculate_crc(order.as_slice()) {
        return Err(AckError::InvalidCrc);
    }
    Ok(())
}

/// There is one valid acknowledgement: `AA 00 02 11 00 D1`.
pub proof fn the_valid_ack(frame: Seq<u8>)
    requires
        frame.len() == ACK_LEN,
    ensures
        ack_verdict(frame) is Ok <==> frame == seq![0xAAu8, 0x00u8, 0x02u8, 0x11u8, 0x00u8, 0xD1u8],
{
    let order = seq![0x11u8, 0x00u8];
    assert(crc8(order) == 0xD1) by {
        crc8_from_single(0, 0x11);
        crc8_concat(0, seq![0x11u8], seq![0x00u8]);
        crc8_from_single(crc8(seq![0x11u8]), 0x00);
        assert(seq![0x11u8] + seq![0x00u8] =~= order);
        assert(crc8_update(crc8_update(0, 0x11), 0x00) == 0xD1) by (bit_vector);
    }
    if ack_verdict(frame) is Ok {
        assert(frame.subrange(3, 5) =~= order);
        assert(frame =~= seq![0xAAu8, 0x00u8, 0x02u8, 0x11u8, 0x00u8, 0xD1u8]);
    }
    if frame == seq![0xAAu8, 0x00u8, 0x02u8, 0x11u8, 0x00u8, 0xD1u8] {
        assert(frame.subrange(3, 5) =~= order);
    }
}

/// One of the four fields of an acknowledgement, in the order in which they
/// arrive.
#[derive(Debug, Clone, Copy, PartialEq, Eq, Structural)]
pub enum AckField {
    Header,
    Length,
    Order,
    Crc,
}

impl AckField {
    /// The number of bytes the field takes.
    pub open spec fn spec_width(self) -> nat {
        match self {
            AckField::Header => 1,
            AckField::Length => 2,
            AckField::Order => 2,
            AckField::Crc => 1,
        }
    }

    /// The position of the field's first byte in the acknowledgement.
    pub open spec fn spec_offset(self) -> nat {
        match self {
            AckField::Header => 0,
            AckField::Length => 1,
            AckField::Order => 3,
            AckField::Crc => 5,
        }
    }

    /// The field that follows this one, if any.
    pub open spec fn spec_next(self) -> Option<AckField> {
        match self {
            AckField::Header => Some(AckField::Length),
            AckField::Length => Some(AckField::Order),
            AckField::Order => Some(AckField::Crc),
            AckField::Crc => None,
        }
    }

    /// The number of bytes the field takes.
    pub fn width(self) -> (w: usize)
        ensures
            w == self.spec_width(),
    {
        match self {
            AckField::Header => 1,
            AckField::Length => 2,
            AckField::Order => 2,
            AckField::Crc => 1,
        }
    }

    /// The field that follows this one, if any.
    pub fn next(self) -> (following: Option<AckField>)
        ensures
            following == self.spec_next(),
    {
        match self {
            AckField::Header => Some(AckField::Length),
            AckField::Length => Some(AckField::Order),
            AckField::Order => Some(AckField::Crc),
            AckField::Crc => None,
        }
    }
}

/// The verdict on the bytes of one field, taken alone. The checksum field is
/// compared with the checksum of the order code's own bytes: by the time it is
/// read, the order field has been found equal to them.
pub open spec fn field_verdict(field: AckField, bytes: Seq<u8>) -> Result<(), AckError>
    recommends
        bytes.len() == field.spec_width(),
{
    match field {
        AckField::Header => if bytes[0] == IR_HEADER {
            Ok(())
        } else {
            Err(AckError::InvalidHeader)
        },
        AckField::Length => if be16_value(bytes[0], bytes[1]) == ACK_BODY_LEN {
            Ok(())
        } else {
            Err(AckError::InvalidLength)
        },
        AckField::Order => if be16_value(bytes[0], bytes[1]) == IR_ORDER {
            Ok(())
        } else {
            Err(AckError::InvalidOrder)
        },
        AckField::Crc => if bytes[0] == crc8(be16(IR_ORDER)) {
            Ok(())
        } else {
            Err(AckError::InvalidCrc)
        },
    }
}

/// Checks the bytes of one field.
pub fn check_field(field: AckField, bytes: &[u8]) -> (verdict: Result<(), AckError>)
    requires
        bytes@.len() == field.spec_width(),
    ensures
        verdict == field_verdict(field, bytes@),
{
    match field {
        AckField::Header => {
            if bytes[0] == IR_HEADER {
                Ok(())
            } else {
                Err(AckError::InvalidHeader)
            }
        },
        AckField::Length => {
            if u16_from_be(bytes[0], bytes[1]) == ACK_BODY_LEN {
                Ok(())
            } else {
                Err(AckError::InvalidLength)
            }
        },
        AckField::Order => {
            if u16_from_be(bytes[0], bytes[1]) == IR_ORDER {
                Ok(())
            } else {
                Err(AckError::InvalidOrder)
            }
        },
        AckField::Crc => {
            let order = u16_to_be(IR_ORDER);
            if bytes[0] == calculate_crc(order.as_slice()) {
                Ok(())
            } else {
                Err(AckError::InvalidCrc)
            }
        },
    }
}

/// The bytes of `field` in `frame`.
pub open spec fn field_of(frame: Seq<u8>, field: AckField) -> Seq<u8>
    recommends
        frame.len() >= field.spec_offset() + field.spec_width(),
{
    frame.subrange(field.spec_offset() as int, (field.spec_offset() + field.spec_width()) as int)
}

/// An acknowledgement is valid exactly when each of its four fields, taken
/// alone, is; and the error of an invalid one is that of its first wrong
/// field.
pub proof fn verdict_by_fields(frame: Seq<u8>)
    requires
        frame.len() == ACK_LEN,
    ensures
        ack_verdict(frame) == (if field_verdict(AckField::Header, field_of(frame, AckField::Header))
            is Err {
            field_verdict(AckField::Header, field_of(frame, AckField::Header))
        } else if field_verdict(AckField::Length, field_of(frame, AckField::Length)) is Err {
            field_verdict(AckField::Length, field_of(frame, AckField::Length))
        } else if field_verdict(AckField::Order, field_of(frame, AckField::Order)) is Err {
            field_verdict(AckField::Order, field_of(frame, AckField::Order))
        } else {
            field_verdict(AckField::Crc, field_of(frame, AckField::Crc))
        }),
{
    if header_ok(frame) && length_ok(frame) && order_ok(frame) {
        be16_encodes(frame[3], frame[4], IR_ORDER);
        assert(frame.subrange(3, 5) =~= seq![frame[3], frame[4]]);
    }
}

} // verus!
