//! What the HTTP face of the service answers.
//!
//! Each operation is a function from the request's names, the table of
//! waveforms and, where a frame was sent, the result of the exchange, to a
//! status code and a body. Serving the answers is left to the caller.

use vstd::prelude::*;
use vstd::string::*;
use crate::frame::{frame_bytes, get_payload, MAX_WAVEFORM_LEN};
use crate::registry::{lookup_result, Devices, LookupError, Registry};
use crate::transport::TransportError;

verus! {

/// The status of an answer that carries what was asked for.
pub const STATUS_OK: u16 = 200;

/// The status of an answer to a request that names an unknown device or
/// button.
pub const STATUS_NOT_FOUND: u16 = 404;

/// The status of an answer to a request whose exchange with the appliance
/// failed.
pub const STATUS_INTERNAL_SERVER_ERROR: u16 = 500;

/// The sixteen hexadecimal digits, in order.
pub const HEX_DIGITS: &'static str = "0123456789abcdef";

/// An answer: a status code and a body of text.
#[derive(Debug, Clone, PartialEq, Eq)]
pub struct Response {
    pub status: u16,
    pub body: String,
}

/// Where the appliance is found.
#[derive(Debug, Clone)]
pub struct Settings {
    host: String,
}

impl View for Settings {
    type V = Seq<char>;

    /// The host name.
    closed spec fn view(&self) -> Seq<char> {
        self.host@
    }
}

impl Settings {
    /// Settings for the appliance at `host`.
    pub fn new(host: String) -> (settings: Self)
        ensures
            settings@ == host@,
    {
        Settings { host }
    }

    /// The host name.
    pub fn host(&self) -> (host: &String)
        ensures
            host@ == self@,
    {
        &self.host
    }

    /// The address that exchanges connect to: the host and the appliance's
    /// port, 60001.
    pub fn address(&self) -> (address: String)
        ensures
            address@ == self@ + ":60001"@,
    {
        let mut address = self.host.clone();
        address.append(":60001");
        address
    }
}

/// The text of `bytes` in hexadecimal: two lower-case digits for each byte,
/// the high one first.
pub open spec fn hex_text(bytes: Seq<u8>) -> Seq<char> {
    Seq::new(
        2 * bytes.len(),
        |i: int|
            if i % 2 == 0 {
                HEX_DIGITS@[bytes[i / 2] as int / 16]
            } else {
                HEX_DIGITS@[bytes[i / 2] as int % 16]
            },
    )
}

fn hex_digit(nibble: u8) -> (digit: &'static str)
    requires
        nibble < 16,
    ensures
        digit@ == seq![HEX_DIGITS@[nibble as int]],
{
    proof {
        reveal_strlit("0123456789abcdef");
    }
    HEX_DIGITS.substring_ascii(nibble as usize, nibble as usize + 1)
}

/// Appends the hexadecimal text of `bytes` to `text`.
fn append_hex(text: &mut String, bytes: &[u8])
    ensures
        final(text)@ == old(text)@ + hex_text(bytes@),
{
    let ghost before = text@;
    let mut i: usize = 0;
    while i < bytes.len()
        invariant
            i <= bytes.len(),
            text@ == before + hex_text(bytes@.take(i as int)),
        decreases bytes.len() - i,
    {
        let byte = bytes[i];
        text.append(hex_digit(byte / 16));
        text.append(hex_digit(byte % 16));
        assert(text@ =~= before + hex_text(bytes@.take(i + 1)));
        i = i + 1;
    }
}

/// Writes `bytes` in hexadecimal.
pub fn to_hex(bytes: &[u8]) -> (text: String)
    ensures
        text@ == hex_text(bytes@),
{
    let mut text = String::new();
    append_hex(&mut text, bytes);
    text
}

/// The message that tells a client why a lookup failed.
pub open spec fn lookup_message_text(
    error: LookupError,
    device: Seq<char>,
    button: Seq<char>,
) -> Seq<char> {
    match error {
        LookupError::DeviceNotFound => "Invalid device '"@ + device + "'."@,
        LookupError::ButtonNotFound => "Invalid button '"@ + button + "' on device '"@ + device
            + "'."@,
    }
}

/// The body that shows the frame for a button.
pub open spec fn packet_text(device: Seq<char>, button: Seq<char>, frame: Seq<u8>) -> Seq<char> {
    "Button '"@ + button + "' on device '"@ + device + "'.\n"@ + hex_text(frame)
}

/// The body that reports how pressing a button went.
pub open spec fn pressed_text(device: Seq<char>, button: Seq<char>, pressed: bool) -> Seq<char> {
    "Button '"@ + button + "' on device '"@ + device + (if pressed {
        "' has been pressed."@
    } else {
        "' was Error."@
    })
}

/// `needle` stands somewhere in `text`, whole and in one piece.
pub open spec fn occurs_in(needle: Seq<char>, text: Seq<char>) -> bool {
    exists|at: int|
        0 <= at && at + needle.len() <= text.len() && #[trigger] text.subrange(
            at,
            at + needle.len(),
        ) == needle
}

/// The message for a failed lookup names the device that was asked for, and
/// the button too where it is the button that is unknown.
pub proof fn message_names_what_is_unknown(error: LookupError, device: Seq<char>, button: Seq<char>)
    ensures
        occurs_in(device, lookup_message_text(error, device, button)),
        error == LookupError::ButtonNotFound ==> occurs_in(
            button,
            lookup_message_text(error, device, button),
        ),
{
    let text = lookup_message_text(error, device, button);
    match error {
        LookupError::DeviceNotFound => {
            let at = "Invalid device '"@.len() as int;
            assert(text.subrange(at, at + device.len()) =~= device);
        },
        LookupError::ButtonNotFound => {
            let at = "Invalid button '"@.len() as int;
            assert(text.subrange(at, at + button.len()) =~= button);
            let then = at + button.len() + "' on device '"@.len();
            assert(text.subrange(then, then + device.len()) =~= device);
        },
    }
}

/// A request that names a device the table does not have is answered with
/// "not found" and a message that holds the device's name, whatever the
/// button.
pub proof fn unknown_device_is_named(devices: Devices, device: Seq<char>, button: Seq<char>)
    requires
        !devices.contains_key(device),
    ensures
        lookup_result(devices, device, button) == Err::<Seq<u8>, LookupError>(
            LookupError::DeviceNotFound,
        ),
        occurs_in(device, lookup_message_text(LookupError::DeviceNotFound, device, button)),
{
    message_names_what_is_unknown(LookupError::DeviceNotFound, device, button);
}

/// Writes the message that tells a client why a lookup failed.
pub fn lookup_message(error: LookupError, device: &str, button: &str) -> (message: String)
    ensures
        message@ == lookup_message_text(error, device@, button@),
{
    match error {
        LookupError::DeviceNotFound => {
            let mut message = String::from_str("Invalid device '");
            message.append(device);
            message.append("'.");
            message
        },
        LookupError::ButtonNotFound => {
            let mut message = String::from_str("Invalid button '");
            message.append(button);
            message.append("' on device '");
            message.append(device);
            message.append("'.");
            message
        },
    }
}

/// Finds the waveform of `button` on `device`, or makes the answer that says
/// what is unknown.
pub fn get_ir_data<'a>(registry: &'a Registry, device: &str, button: &str) -> (found: Result<
    &'a Vec<u8>,
    Response,
>)
    ensures
        match lookup_result(registry@, device@, button@) {
            Ok(waveform) => found is Ok && found->Ok_0@ == waveform && waveform.len()
                <= MAX_WAVEFORM_LEN,
            Err(error) => found is Err && found->Err_0.status == STATUS_NOT_FOUND
                && found->Err_0.body@ == lookup_message_text(error, device@, button@),
        },
{
    match registry.lookup(device, button) {
        Ok(waveform) => Ok(waveform),
        Err(error) => Err(
            Response { status: STATUS_NOT_FOUND, body: lookup_message(error, device, button) },
        ),
    }
}

/// Answers a request for the frame of a button: the frame in hexadecimal, or
/// what is unknown. Nothing is sent.
pub fn packet_output(registry: &Registry, device: &str, button: &str) -> (response: Response)
    ensures
        match lookup_result(registry@, device@, button@) {
            Ok(waveform) => response.status == STATUS_OK && response.body@ == packet_text(
                device@,
                button@,
                frame_bytes(waveform),
            ),
            Err(error) => response.status == STATUS_NOT_FOUND && response.body@
                == lookup_message_text(error, device@, button@),
        },
{
    match get_ir_data(registry, device, button) {
        Err(response) => response,
        Ok(waveform) => {
            let frame = get_payload(waveform);
            let mut body = String::from_str("Button '");
            body.append(button);
            body.append("' on device '");
            body.append(device);
            body.append("'.\n");
            append_hex(&mut body, frame.as_slice());
            Response { status: STATUS_OK, body }
        },
    }
}

/// Answers a request to press a button, once the exchange with the appliance
/// is over: a confirmation if the appliance acknowledged, and an error that
/// does not say which step failed if it did not.
pub fn execute_response(
    device: &str,
    button: &str,
    outcome: Result<(), TransportError>,
) -> (response: Response)
    ensures
        response.status == (if outcome is Ok {
            STATUS_OK
        } else {
            STATUS_INTERNAL_SERVER_ERROR
        }),
        response.body@ == pressed_text(device@, button@, outcome is Ok),
{
    let mut body = String::from_str("Button '");
    body.append(button);
    body.append("' on device '");
    body.append(device);
    match outcome {
        Ok(()) => {
            body.append("' has been pressed.");
            Response { status: STATUS_OK, body }
        },
        Err(_) => {
            body.append("' was Error.");
            Response { status: STATUS_INTERNAL_SERVER_ERROR, body }
        },
    }
}

} // verus!
