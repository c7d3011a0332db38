//! Frame codec: command frames and the verdict of a reply.
use vstd::prelude::*;
use vstd::utf8::{decode_utf8, valid_utf8};
use crate::{encode_signed, int_to_byte, num_to_bytes};

verus! {

/// Start byte of every command frame.
pub const STX: u8 = 2;

/// Terminator of every command frame.
pub const CR: u8 = 13;

/// Offset of the result byte in a reply.
pub const RESULT_IDX: usize = 3;

/// Terminator of every reply.
pub const NUL: u8 = 0;

/// Result byte of a rejected command: `'?'`.
pub const FAILED_REPLY: u8 = 63;

/// What went wrong with a command.
#[derive(Debug, Clone, Copy, PartialEq, Eq, Structural)]
pub enum ErrorKind {
    /// The transport could not be established.
    Connection,
    /// A write or a read failed during an exchange.
    Io,
    /// The reply is too short to hold a result byte, or cannot be decoded.
    MalformedReply,
    /// The controller answered with the failure marker.
    CommandRejected,
    /// The status byte is none of the known states.
    UnknownStatus,
}

/// A failed command: its kind and a text for diagnostics.
#[derive(Debug)]
pub struct Error {
    pub kind: ErrorKind,
    pub message: String,
}

impl View for Error {
    type V = (ErrorKind, Seq<char>);

    open spec fn view(&self) -> (ErrorKind, Seq<char>) {
        (self.kind, self.message@)
    }
}

impl Error {
    /// The error of a transport that could not be established, with the
    /// cause's own text.
    pub fn connection(message: String) -> (e: Error)
        ensures
            e@ == (ErrorKind::Connection, message@),
    {
        Error { kind: ErrorKind::Connection, message }
    }

    /// The error of a write or a read that failed, with the cause's own
    /// text.
    pub fn io(message: String) -> (e: Error)
        ensures
            e@ == (ErrorKind::Io, message@),
    {
        Error { kind: ErrorKind::Io, message }
    }

    /// The error of a command that the controller rejected. `text` is what
    /// decoding the reply as UTF-8 gave: the reply's text, or else the
    /// description of the decoding fault; either one becomes the message.
    pub fn rejected(text: Result<String, String>) -> (e: Error)
        ensures
            e@ == (
                ErrorKind::CommandRejected,
                match text {
                    Ok(reply) => reply@,
                    Err(fault) => fault@,
                },
            ),
    {
        let message = match text {
            Ok(reply) => reply,
            Err(fault) => fault,
        };
        Error { kind: ErrorKind::CommandRejected, message }
    }

    /// The text of the error, as it is shown to a user.
    pub fn to_string(&self) -> (text: String)
        ensures
            text@ == self.message@,
    {
        self.message.clone()
    }
}

/// The text with which `std::str::from_utf8` describes why `bytes` is no
/// UTF-8.
pub uninterp spec fn utf8_error_text(bytes: Seq<u8>) -> Seq<char>;

/// The bytes of a command frame: start byte, device class, channel digit,
/// the two opcode bytes, the parameter in decimal if there is one, and the
/// terminator.
pub open spec fn frame_bytes(
    device_class: u8,
    channel_id: u8,
    opcode: Seq<u8>,
    parameter: Option<int>,
) -> Seq<u8> {
    let head = seq![STX, device_class, (channel_id + 48) as u8, opcode[0], opcode[1]];
    let body = match parameter {
        Some(v) => encode_signed(v),
        None => Seq::<u8>::empty(),
    };
    head + body + seq![CR]
}

/// The diagnostic text of a rejected reply: the reply itself as text, or,
/// where it is no UTF-8, the description of that fault.
pub open spec fn rejection_text(reply: Seq<u8>) -> Seq<char> {
    if valid_utf8(reply) {
        decode_utf8(reply)
    } else {
        utf8_error_text(reply)
    }
}

/// Whether a reply is long enough to hold a result byte.
pub open spec fn has_result(reply: Seq<u8>) -> bool {
    reply.len() > RESULT_IDX
}

/// What is wrong with a reply as such, if anything: too short to hold a
/// result byte, or the failure marker in that place.
pub open spec fn reply_fault(reply: Seq<u8>) -> Option<(ErrorKind, Seq<char>)> {
    if !has_result(reply) {
        Some((ErrorKind::MalformedReply, "malformed reply"@))
    } else if reply[RESULT_IDX as int] == FAILED_REPLY {
        Some((ErrorKind::CommandRejected, rejection_text(reply)))
    } else {
        None
    }
}

/// A result with the error, if any, taken by its view.
pub open spec fn outcome<T>(result: Result<T, Error>) -> Result<T, (ErrorKind, Seq<char>)> {
    match result {
        Ok(value) => Ok(value),
        Err(e) => Err(e@),
    }
}

/// Calls `std::str::from_utf8` and hands out owned text. The call succeeds
/// exactly on valid UTF-8 and then gives the characters that the bytes
/// encode; otherwise the error's description comes back, which depends on
/// the bytes alone.
#[verifier::external_body]
fn utf8_text(bytes: &[u8]) -> (text: Result<String, String>)
    ensures
        text is Ok <==> valid_utf8(bytes@),
        text matches Ok(s) ==> s@ == decode_utf8(bytes@),
        text matches Err(m) ==> m@ == utf8_error_text(bytes@),
{
    match std::str::from_utf8(bytes) {
        Ok(s) => Ok(s.to_string()),
        Err(e) => Err(e.to_string()),
    }
}

/// Builds a command frame.
pub fn build_frame(
    device_class: u8,
    channel_id: u8,
    opcode: [u8; 2],
    parameter: Option<isize>,
) -> (frame: Vec<u8>)
    requires
        channel_id <= 9,
    ensures
        frame@ == frame_bytes(
            device_class,
            channel_id,
            opcode@,
            match parameter {
                Some(v) => Some(v as int),
                None => None,
            },
        ),
{
    let mut frame: Vec<u8> = Vec::new();
    frame.push(STX);
    frame.push(device_class);
    frame.push(int_to_byte(channel_id));
    frame.push(opcode[0]);
    frame.push(opcode[1]);
    let ghost head = frame@;
    match parameter {
        Some(value) => {
            let mut digits = num_to_bytes(value);
            frame.append(&mut digits);
        },
        None => {},
    }
    frame.push(CR);
    proof {
        let body = match parameter {
            Some(v) => encode_signed(v as int),
            None => Seq::<u8>::empty(),
        };
        assert(head =~= seq![STX, device_class, (channel_id + 48) as u8, opcode@[0], opcode@[1]]);
        assert(frame@ =~= head + body + seq![CR]);
    }
    frame
}

/// Whether the first terminator in `received` is the byte before offset `n`.
pub open spec fn is_reply_end(received: Seq<u8>, n: int) -> bool {
    &&& 1 <= n <= received.len()
    &&& received[n - 1] == NUL
    &&& forall|i: int| 0 <= i < n - 1 ==> received[i] != NUL
}

/// Tells whether the bytes received so far hold a whole reply, and where it
/// ends: `Some(n)` when the first terminator is the byte before offset `n`,
/// `None` while no terminator has arrived.
pub fn reply_end(received: &[u8]) -> (end: Option<usize>)
    ensures
        match end {
            Some(n) => is_reply_end(received@, n as int),
            None => forall|i: int| 0 <= i < received@.len() ==> received@[i] != NUL,
        },
{
    let mut i: usize = 0;
    while i < received.len()
        invariant
            i <= received.len(),
            forall|k: int| 0 <= k < i ==> received@[k] != NUL,
        decreases received.len() - i,
    {
        if received[i] == NUL {
            return Some(i + 1);
        }
        i += 1;
    }
    None
}

/// Judges a reply by its result byte. A reply too short to hold one is
/// malformed; the failure marker means that the controller rejected the
/// command, and the error carries the reply as text; any other result byte
/// is success.
pub fn check_reply(reply: &[u8]) -> (verdict: Result<(), Error>)
    ensures
        outcome(verdict) == match reply_fault(reply@) {
            Some(fault) => Err::<(), (ErrorKind, Seq<char>)>(fault),
            None => Ok(()),
        },
{
    if reply.len() <= RESULT_IDX {
        Err(Error { kind: ErrorKind::MalformedReply, message: "malformed reply".to_owned() })
    } else if reply[RESULT_IDX] == FAILED_REPLY {
        Err(Error::rejected(utf8_text(reply)))
    } else {
        Ok(())
    }
}

} // verus!
