//! The command frame that carries a waveform to the appliance.
//!
//! A payload is the order code, the length of the waveform and the waveform.
//! A frame is the header, the length of the payload, the payload and the
//! checksum of the payload. Both lengths are two bytes, most significant
//! first.

use vstd::prelude::*;
use crate::crc::{calculate_crc, crc8};
use crate::wire::{be16, be16_value, u16_to_be, IR_HEADER, IR_ORDER};

verus! {

/// The longest waveform that a payload's length field can describe.
pub const MAX_WAVEFORM_LEN: usize = 65535;

/// The bytes of the payload that carries `ir_data`.
pub open spec fn payload_bytes(ir_data: Seq<u8>) -> Seq<u8>
    recommends
        ir_data.len() <= MAX_WAVEFORM_LEN,
{
    be16(IR_ORDER) + be16(ir_data.len() as u16) + ir_data
}

/// What the frame's length field holds for a payload of `payload_len` bytes:
/// the length itself while two bytes can hold it, and its low sixteen bits
/// beyond that.
pub open spec fn frame_length_field(payload_len: nat) -> u16 {
    (payload_len % 0x1_0000) as u16
}

/// The bytes of the frame that carries `ir_data`.
pub open spec fn frame_bytes(ir_data: Seq<u8>) -> Seq<u8>
    recommends
        ir_data.len() <= MAX_WAVEFORM_LEN,
{
    let payload = payload_bytes(ir_data);
    seq![IR_HEADER] + be16(frame_length_field(payload.len())) + payload + seq![crc8(payload)]
}

/// The command to transmit one waveform.
pub struct Payload {
    order: [u8; 2],
    len: [u8; 2],
    ir_data: Vec<u8>,
}

impl View for Payload {
    type V = Seq<u8>;

    /// The waveform that the payload carries.
    closed spec fn view(&self) -> Seq<u8> {
        self.ir_data@
    }
}

impl Payload {
    #[verifier::type_invariant]
    spec fn well_formed(self) -> bool {
        &&& self.ir_data@.len() <= MAX_WAVEFORM_LEN
        &&& self.order@ == be16(IR_ORDER)
        &&& self.len@ == be16(self.ir_data@.len() as u16)
    }

    /// Makes the payload for `ir_data`.
    pub fn new(ir_data: &Vec<u8>) -> (payload: Self)
        requires
            ir_data@.len() <= MAX_WAVEFORM_LEN,
        ensures
            payload@ == ir_data@,
    {
        Payload {
            order: u16_to_be(IR_ORDER),
            len: u16_to_be(ir_data.len() as u16),
            ir_data: ir_data.clone(),
        }
    }

    /// The number of bytes that the payload takes on the wire.
    pub fn len(&self) -> (n: usize)
        ensures
            n == payload_bytes(self@).len(),
            n == self@.len() + 4,
    {
        proof {
            use_type_invariant(self);
        }
        self.order.len() + self.len.len() + self.ir_data.len()
    }

    /// The payload as it goes on the wire.
    pub fn to_bytes(&self) -> (bytes: Vec<u8>)
        ensures
            bytes@ == payload_bytes(self@),
    {
        proof {
            use_type_invariant(self);
        }
        let mut bytes = Vec::new();
        bytes.extend_from_slice(self.order.as_slice());
        bytes.extend_from_slice(self.len.as_slice());
        bytes.extend_from_slice(self.ir_data.as_slice());
        bytes
    }
}

/// A frame ready to be sent: a payload between its header and length and its
/// checksum.
pub struct SendData {
    header: [u8; 1],
    len: [u8; 2],
    payload: Payload,
    crc: [u8; 1],
}

impl View for SendData {
    type V = Seq<u8>;

    /// The waveform that the frame carries.
    closed spec fn view(&self) -> Seq<u8> {
        self.payload@
    }
}

impl SendData {
    #[verifier::type_invariant]
    spec fn well_formed(self) -> bool {
        &&& self.payload@.len() <= MAX_WAVEFORM_LEN
        &&& self.header@ == seq![IR_HEADER]
        &&& self.len@ == be16(frame_length_field(payload_bytes(self.payload@).len()))
        &&& self.crc@ == seq![crc8(payload_bytes(self.payload@))]
    }

    /// Makes the frame for `ir_data`: builds the payload and takes its length
    /// and checksum.
    pub fn new(ir_data: &Vec<u8>) -> (frame: Self)
        requires
            ir_data@.len() <= MAX_WAVEFORM_LEN,
        ensures
            frame@ == ir_data@,
    {
        let payload = Payload::new(ir_data);
        let crc = calculate_crc(payload.to_bytes().as_slice());
        let len = u16_to_be((payload.len() % 0x1_0000) as u16);
        let header = [IR_HEADER];
        let crc = [crc];
        assert(header@ =~= seq![IR_HEADER]);
        assert(crc@ =~= seq![crc8(payload_bytes(payload@))]);
        SendData { header, len, payload, crc }
    }

    /// The frame as it goes on the wire.
    pub fn to_bytes(&self) -> (bytes: Vec<u8>)
        ensures
            bytes@ == frame_bytes(self@),
    {
        proof {
            use_type_invariant(self);
        }
        let mut bytes = Vec::new();
        bytes.extend_from_slice(self.header.as_slice());
        bytes.extend_from_slice(self.len.as_slice());
        bytes.extend_from_slice(self.payload.to_bytes().as_slice());
        bytes.extend_from_slice(self.crc.as_slice());
        bytes
    }
}

/// Encodes the frame that carries `ir_data`.
pub fn get_payload(ir_data: &Vec<u8>) -> (frame: Vec<u8>)
    requires
        ir_data@.len() <= MAX_WAVEFORM_LEN,
    ensures
        frame@ == frame_bytes(ir_data@),
{
    let send_data = SendData::new(ir_data);
    send_data.to_bytes()
}

/// Why a waveform cannot be encoded.
#[derive(Debug, Clone, Copy, PartialEq, Eq, Structural)]
pub enum EncodeError {
    /// The waveform is longer than a payload's length field can describe.
    WaveformTooLarge,
}

/// Encodes the frame that carries `waveform`, or refuses a waveform of more
/// than 65535 bytes.
pub fn encode(waveform: &Vec<u8>) -> (encoded: Result<Vec<u8>, EncodeError>)
    ensures
        waveform@.len() <= MAX_WAVEFORM_LEN ==> encoded is Ok && encoded->Ok_0@ == frame_bytes(
            waveform@,
        ),
        waveform@.len() > MAX_WAVEFORM_LEN ==> encoded is Err && encoded->Err_0
            == EncodeError::WaveformTooLarge,
{
    if waveform.len() > MAX_WAVEFORM_LEN {
        Err(EncodeError::WaveformTooLarge)
    } else {
        Ok(get_payload(waveform))
    }
}

/// The layout of a frame: one header byte, two length bytes, the payload of
/// two order bytes, two length bytes and the waveform, and one checksum byte.
pub proof fn frame_layout(ir_data: Seq<u8>)
    requires
        ir_data.len() <= MAX_WAVEFORM_LEN,
    ensures
        frame_bytes(ir_data).len() == ir_data.len() + 8,
        frame_bytes(ir_data)[0] == IR_HEADER,
        frame_bytes(ir_data).subrange(3, ir_data.len() as int + 7) == payload_bytes(ir_data),
        be16_value(frame_bytes(ir_data)[3], frame_bytes(ir_data)[4]) == IR_ORDER,
        be16_value(frame_bytes(ir_data)[5], frame_bytes(ir_data)[6]) == ir_data.len(),
        frame_bytes(ir_data).subrange(7, ir_data.len() as int + 7) == ir_data,
        frame_bytes(ir_data)[ir_data.len() as int + 7] == crc8(payload_bytes(ir_data)),
{
}

/// While the payload's length fits in two bytes, the frame's length field
/// holds it: the length of the waveform plus four.
pub proof fn frame_length_exact(ir_data: Seq<u8>)
    requires
        ir_data.len() + 4 <= 0xFFFF,
    ensures
        be16_value(frame_bytes(ir_data)[1], frame_bytes(ir_data)[2]) == ir_data.len() + 4,
        be16_value(frame_bytes(ir_data)[5], frame_bytes(ir_data)[6]) == ir_data.len(),
{
}

/// The four longest waveforms make a payload whose length no longer fits in
/// two bytes: the frame's length field then holds that length less 65536.
pub proof fn frame_length_wraps(ir_data: Seq<u8>)
    requires
        0xFFFF < ir_data.len() + 4,
        ir_data.len() <= MAX_WAVEFORM_LEN,
    ensures
        be16_value(frame_bytes(ir_data)[1], frame_bytes(ir_data)[2]) == ir_data.len() + 4
            - 0x1_0000,
{
}

} // verus!
