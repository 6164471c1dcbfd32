//! The exchange with the appliance: one connection, one frame out, one
//! acknowledgement back.
//!
//! Nothing here touches a socket. The rules of the exchange are functions of
//! what the socket reported, so that the caller that owns the socket only
//! performs what it is told and reports back.

use vstd::prelude::*;
use vstd::slice::slice_subrange;
use crate::ack::{
    ack_verdict, check_field, crc_ok, field_of, field_verdict, header_ok, length_ok, order_ok,
    verdict_by_fields, AckError, AckField, ACK_LEN,
};
use crate::wire::{be16_encodes, IR_ORDER};
use crate::frame::{frame_bytes, get_payload, MAX_WAVEFORM_LEN};

verus! {

/// Why an exchange failed.
#[derive(Debug, Clone, Copy, PartialEq, Eq, Structural)]
pub enum TransportError {
    /// The connection could not be opened.
    Connect,
    /// The frame could not be written, or not all of it.
    Write,
    /// The acknowledgement could not be read, or not all of it.
    Read,
    /// The acknowledgement arrived and was refused.
    Protocol(AckError),
}

/// The result of an exchange whose acknowledgement got `verdict`.
pub open spec fn protocol_result(verdict: Result<(), AckError>) -> Result<(), TransportError> {
    match verdict {
        Ok(()) => Ok(()),
        Err(e) => Err(TransportError::Protocol(e)),
    }
}

/// The result of reading one acknowledgement from `stream`, the bytes that
/// the peer sent before it closed the connection. Each field is read in full
/// and then checked: a field that the stream is too short for is a failed
/// read, and the first wrong field ends the reading.
pub open spec fn response_outcome(stream: Seq<u8>) -> Result<(), TransportError> {
    if stream.len() < 1 {
        Err(TransportError::Read)
    } else if !header_ok(stream) {
        Err(TransportError::Protocol(AckError::InvalidHeader))
    } else if stream.len() < 3 {
        Err(TransportError::Read)
    } else if !length_ok(stream) {
        Err(TransportError::Protocol(AckError::InvalidLength))
    } else if stream.len() < 5 {
        Err(TransportError::Read)
    } else if !order_ok(stream) {
        Err(TransportError::Protocol(AckError::InvalidOrder))
    } else if stream.len() < 6 {
        Err(TransportError::Read)
    } else if !crc_ok(stream) {
        Err(TransportError::Protocol(AckError::InvalidCrc))
    } else {
        Ok(())
    }
}

/// The result of reading the fields of an acknowledgement from `stream`, from
/// `field` on.
spec fn read_from(stream: Seq<u8>, field: AckField) -> Result<(), TransportError>
    decreases ACK_LEN - field.spec_offset(),
{
    if stream.len() < field.spec_offset() + field.spec_width() {
        Err(TransportError::Read)
    } else {
        match field_verdict(field, field_of(stream, field)) {
            Err(e) => Err(TransportError::Protocol(e)),
            Ok(()) => match field.spec_next() {
                Some(following) => read_from(stream, following),
                None => Ok(()),
            },
        }
    }
}

proof fn lemma_read_from_header(stream: Seq<u8>)
    ensures
        read_from(stream, AckField::Header) == response_outcome(stream),
{
    reveal_with_fuel(read_from, 5);
    if stream.len() >= 5 && order_ok(stream) {
        be16_encodes(stream[3], stream[4], IR_ORDER);
        assert(stream.subrange(3, 5) =~= seq![stream[3], stream[4]]);
    }
}

/// Reads one acknowledgement from `stream`, the bytes that the peer sent, and
/// checks it field by field. Bytes after the acknowledgement are not looked
/// at.
pub fn recv_response(stream: &[u8]) -> (outcome: Result<(), TransportError>)
    ensures
        outcome == response_outcome(stream@),
{
    proof {
        lemma_read_from_header(stream@);
    }
    let mut field = AckField::Header;
    let mut pos: usize = 0;
    loop
        invariant
            pos == field.spec_offset(),
            response_outcome(stream@) == read_from(stream@, field),
        decreases ACK_LEN - pos,
    {
        let width = field.width();
        if stream.len() < pos + width {
            return Err(TransportError::Read);
        }
        let bytes = slice_subrange(stream, pos, pos + width);
        match check_field(field, bytes) {
            Err(e) => {
                return Err(TransportError::Protocol(e));
            },
            Ok(()) => {
                match field.next() {
                    Some(following) => {
                        pos = pos + width;
                        field = following;
                    },
                    None => {
                        return Ok(());
                    },
                }
            },
        }
    }
}

/// A stream that holds a whole acknowledgement gets the verdict on that
/// acknowledgement, whatever follows it.
pub proof fn response_with_whole_ack(stream: Seq<u8>)
    requires
        stream.len() >= ACK_LEN,
    ensures
        response_outcome(stream) == protocol_result(
            ack_verdict(stream.subrange(0, ACK_LEN as int)),
        ),
{
    let frame = stream.subrange(0, ACK_LEN as int);
    assert(frame.subrange(3, 5) =~= stream.subrange(3, 5));
}

/// A stream that ends inside the acknowledgement never succeeds: it is a
/// failed read, unless a field that arrived in full was already wrong.
pub proof fn response_cut_short(stream: Seq<u8>)
    requires
        stream.len() < ACK_LEN,
    ensures
        response_outcome(stream) is Err,
        response_outcome(stream) != Err::<(), TransportError>(TransportError::Read) ==> {
            ||| stream.len() >= 1 && !header_ok(stream)
            ||| stream.len() >= 3 && !length_ok(stream)
            ||| stream.len() >= 5 && !order_ok(stream)
        },
{
}

/// Where an exchange stands.
#[derive(Debug, Clone, Copy, PartialEq, Eq)]
pub enum Phase {
    /// The connection is to be opened.
    Connecting,
    /// The frame is to be written.
    Writing,
    /// This field of the acknowledgement is to be read.
    Reading(AckField),
    /// The exchange is over, with this result.
    Finished(Result<(), TransportError>),
}

/// What the owner of the socket does next.
#[derive(Debug, Clone, Copy, PartialEq, Eq)]
pub enum Action {
    /// Open the connection.
    Connect,
    /// Write the whole frame.
    Write,
    /// Read exactly this many bytes.
    Read(usize),
    /// Close the connection, if one was opened, and report this result.
    Close(Result<(), TransportError>),
}

/// What the owner of the socket reports back.
#[derive(Debug)]
pub enum Event {
    /// The connection is open.
    Connected,
    /// The connection could not be opened.
    ConnectFailed,
    /// A write returned, having taken this many bytes.
    Written(usize),
    /// A write failed.
    WriteFailed,
    /// A read returned these bytes.
    Received(Vec<u8>),
    /// A read failed, or the stream ended before the bytes asked for.
    ReadFailed,
}

/// The action that a phase asks for.
pub open spec fn pending_action(phase: Phase) -> Action {
    match phase {
        Phase::Connecting => Action::Connect,
        Phase::Writing => Action::Write,
        Phase::Reading(field) => Action::Read(field.spec_width() as usize),
        Phase::Finished(result) => Action::Close(result),
    }
}

/// The phase after the bytes of `field` arrived.
pub open spec fn phase_after_field(field: AckField, bytes: Seq<u8>) -> Phase {
    if bytes.len() != field.spec_width() {
        Phase::Finished(Err(TransportError::Read))
    } else {
        match field_verdict(field, bytes) {
            Err(e) => Phase::Finished(Err(TransportError::Protocol(e))),
            Ok(()) => match field.spec_next() {
                Some(following) => Phase::Reading(following),
                None => Phase::Finished(Ok(())),
            },
        }
    }
}

/// The phase that `event` leads to from `phase`, in an exchange whose frame
/// has `frame_len` bytes. An event that does not answer the pending action
/// changes nothing; a finished exchange stays finished.
pub open spec fn next_phase(phase: Phase, frame_len: nat, event: Event) -> Phase {
    match phase {
        Phase::Connecting => match event {
            Event::Connected => Phase::Writing,
            Event::ConnectFailed => Phase::Finished(Err(TransportError::Connect)),
            _ => phase,
        },
        Phase::Writing => match event {
            Event::Written(n) => if n == frame_len {
                Phase::Reading(AckField::Header)
            } else {
                Phase::Finished(Err(TransportError::Write))
            },
            Event::WriteFailed => Phase::Finished(Err(TransportError::Write)),
            _ => phase,
        },
        Phase::Reading(field) => match event {
            Event::Received(bytes) => phase_after_field(field, bytes@),
            Event::ReadFailed => Phase::Finished(Err(TransportError::Read)),
            _ => phase,
        },
        Phase::Finished(_) => phase,
    }
}

/// One exchange with the appliance: the frame to send and how far the
/// exchange has come.
pub struct Exchange {
    phase: Phase,
    frame: Vec<u8>,
}

impl Exchange {
    /// Where the exchange stands.
    pub closed spec fn phase(&self) -> Phase {
        self.phase
    }

    /// The bytes of the frame that the exchange sends.
    pub closed spec fn frame(&self) -> Seq<u8> {
        self.frame@
    }

    /// Starts the exchange that sends `ir_data`: the frame is encoded and the
    /// connection is to be opened.
    pub fn new(ir_data: &Vec<u8>) -> (exchange: Self)
        requires
            ir_data@.len() <= MAX_WAVEFORM_LEN,
        ensures
            exchange.phase() == Phase::Connecting,
            exchange.frame() == frame_bytes(ir_data@),
    {
        Exchange { phase: Phase::Connecting, frame: get_payload(ir_data) }
    }

    /// The frame to write.
    pub fn frame_to_send(&self) -> (frame: &Vec<u8>)
        ensures
            frame@ == self.frame(),
    {
        &self.frame
    }

    /// What to do next.
    pub fn action(&self) -> (action: Action)
        ensures
            action == pending_action(self.phase()),
    {
        match self.phase {
            Phase::Connecting => Action::Connect,
            Phase::Writing => Action::Write,
            Phase::Reading(field) => Action::Read(field.width()),
            Phase::Finished(result) => Action::Close(result),
        }
    }

    /// Takes in what the socket reported.
    pub fn handle(&mut self, event: &Event)
        ensures
            final(self).phase() == next_phase(old(self).phase(), old(self).frame().len(), *event),
            final(self).frame() == old(self).frame(),
    {
        match self.phase {
            Phase::Connecting => {
                match event {
                    Event::Connected => {
                        self.phase = Phase::Writing;
                    },
                    Event::ConnectFailed => {
                        self.phase = Phase::Finished(Err(TransportError::Connect));
                    },
                    _ => {},
                }
            },
            Phase::Writing => {
                match event {
                    Event::Written(n) => {
                        if *n == self.frame.len() {
                            self.phase = Phase::Reading(AckField::Header);
                        } else {
                            self.phase = Phase::Finished(Err(TransportError::Write));
                        }
                    },
                    Event::WriteFailed => {
                        self.phase = Phase::Finished(Err(TransportError::Write));
                    },
                    _ => {},
                }
            },
            Phase::Reading(field) => {
                match event {
                    Event::Received(bytes) => {
                        self.phase = after_field(field, bytes.as_slice());
                    },
                    Event::ReadFailed => {
                        self.phase = Phase::Finished(Err(TransportError::Read));
                    },
                    _ => {},
                }
            },
            Phase::Finished(_) => {},
        }
    }
}

/// How far an exchange has come: a number that grows with every step.
pub open spec fn progress(phase: Phase) -> nat {
    match phase {
        Phase::Connecting => 0,
        Phase::Writing => 1,
        Phase::Reading(field) => 2 + field.spec_offset(),
        Phase::Finished(_) => 8,
    }
}

/// An exchange only moves forward: no event takes it back to a step that it
/// has left, so nothing is tried twice.
pub proof fn exchange_only_advances(phase: Phase, frame_len: nat, event: Event)
    ensures
        next_phase(phase, frame_len, event) == phase || progress(
            next_phase(phase, frame_len, event),
        ) > progress(phase),
{
}

/// An exchange that is over stays over, with the same result, whatever is
/// reported afterwards.
pub proof fn finished_is_final(result: Result<(), TransportError>, frame_len: nat, event: Event)
    ensures
        next_phase(Phase::Finished(result), frame_len, event) == Phase::Finished(result),
{
}

/// Success is reported only on the appliance's acknowledgement: the one step
/// that ends an exchange well is the arrival of a right checksum field, after
/// the header, the length and the order were read and found right.
pub proof fn success_needs_acknowledgement(phase: Phase, frame_len: nat, event: Event)
    requires
        !(phase is Finished),
        next_phase(phase, frame_len, event) == Phase::Finished(Ok(())),
    ensures
        phase == Phase::Reading(AckField::Crc),
        event is Received,
        event->Received_0@.len() == 1,
        field_verdict(AckField::Crc, event->Received_0@) is Ok,
{
}

/// An exchange in which the connection opens, the whole frame is written and
/// the four fields of an acknowledgement arrive ends with the verdict on that
/// acknowledgement.
pub proof fn exchange_ends_with_verdict(
    frame_len: usize,
    header: Vec<u8>,
    length: Vec<u8>,
    order: Vec<u8>,
    crc: Vec<u8>,
)
    requires
        header@.len() == 1,
        length@.len() == 2,
        order@.len() == 2,
        crc@.len() == 1,
    ensures
        ({
            let n = frame_len as nat;
            let connected = next_phase(Phase::Connecting, n, Event::Connected);
            let written = next_phase(connected, n, Event::Written(frame_len));
            let past_header = next_phase(written, n, Event::Received(header));
            let past_length = next_phase(past_header, n, Event::Received(length));
            let past_order = next_phase(past_length, n, Event::Received(order));
            let past_crc = next_phase(past_order, n, Event::Received(crc));
            past_crc == Phase::Finished(
                protocol_result(ack_verdict(header@ + length@ + order@ + crc@)),
            )
        }),
{
    let frame = header@ + length@ + order@ + crc@;
    verdict_by_fields(frame);
}

/// Judges the bytes that arrived for `field`.
fn after_field(field: AckField, bytes: &[u8]) -> (phase: Phase)
    ensures
        phase == phase_after_field(field, bytes@),
{
    if bytes.len() != field.width() {
        return Phase::Finished(Err(TransportError::Read));
    }
    match check_field(field, bytes) {
        Err(e) => Phase::Finished(Err(TransportError::Protocol(e))),
        Ok(()) => match field.next() {
            Some(following) => Phase::Reading(following),
            None => Phase::Finished(Ok(())),
        },
    }
}

} // verus!
