//! Command set of a motor axis: the request frame of each command, and the
//! readings that the replies to the two queries carry.
use vstd::prelude::*;
use crate::controller::clear_core::{
    build_frame, check_reply, frame_bytes, outcome, reply_fault, Error, ErrorKind, RESULT_IDX,
};
use crate::{decode_signed, digits_value, try_ascii_to_int};

verus! {

/// Device-class byte of a motor: `'M'`.
pub const MOTOR_CHAR: u8 = 77;

/// State of a motor, as the controller reports it.
#[derive(Debug, Clone, Copy, PartialEq, Eq, Structural)]
pub enum Status {
    Disabled,
    Enabling,
    Faulted,
    Ready,
    Moving,
}

/// The commands of a motor axis.
#[derive(Debug, Clone, Copy, PartialEq, Eq, Structural)]
pub enum Opcode {
    Enable,
    Disable,
    AbsoluteMove,
    RelativeMove,
    AbruptStop,
    Stop,
    SetPosition,
    SetVelocity,
    SetAcceleration,
    SetDeceleration,
    GetStatus,
    GetPosition,
    ClearAlerts,
}

impl Opcode {
    /// The two ASCII letters of the command on the wire.
    pub open spec fn letters(self) -> Seq<u8> {
        match self {
            Opcode::Enable => seq![69u8, 78u8],
            Opcode::Disable => seq![68u8, 69u8],
            Opcode::AbsoluteMove => seq![65u8, 77u8],
            Opcode::RelativeMove => seq![82u8, 77u8],
            Opcode::AbruptStop => seq![65u8, 83u8],
            Opcode::Stop => seq![83u8, 84u8],
            Opcode::SetPosition => seq![83u8, 80u8],
            Opcode::SetVelocity => seq![83u8, 86u8],
            Opcode::SetAcceleration => seq![83u8, 65u8],
            Opcode::SetDeceleration => seq![83u8, 68u8],
            Opcode::GetStatus => seq![71u8, 83u8],
            Opcode::GetPosition => seq![71u8, 80u8],
            Opcode::ClearAlerts => seq![67u8, 65u8],
        }
    }

    /// The two ASCII letters of the command on the wire.
    pub fn bytes(self) -> (letters: [u8; 2])
        ensures
            letters@ == self.letters(),
    {
        let letters: [u8; 2] = match self {
            Opcode::Enable => [69, 78],
            Opcode::Disable => [68, 69],
            Opcode::AbsoluteMove => [65, 77],
            Opcode::RelativeMove => [82, 77],
            Opcode::AbruptStop => [65, 83],
            Opcode::Stop => [83, 84],
            Opcode::SetPosition => [83, 80],
            Opcode::SetVelocity => [83, 86],
            Opcode::SetAcceleration => [83, 65],
            Opcode::SetDeceleration => [83, 68],
            Opcode::GetStatus => [71, 83],
            Opcode::GetPosition => [71, 80],
            Opcode::ClearAlerts => [67, 65],
        };
        assert(letters@ =~= self.letters());
        letters
    }
}

/// The state that a status byte stands for: `'0'` to `'4'` in the order of
/// the enumeration, nothing else.
pub open spec fn status_of(byte: u8) -> Option<Status> {
    if byte == 48 {
        Some(Status::Disabled)
    } else if byte == 49 {
        Some(Status::Enabling)
    } else if byte == 50 {
        Some(Status::Faulted)
    } else if byte == 51 {
        Some(Status::Ready)
    } else if byte == 52 {
        Some(Status::Moving)
    } else {
        None
    }
}

/// What the reply to a status query says.
pub open spec fn status_reading(reply: Seq<u8>) -> Result<Status, (ErrorKind, Seq<char>)> {
    match reply_fault(reply) {
        Some(fault) => Err(fault),
        None => match status_of(reply[RESULT_IDX as int]) {
            Some(status) => Ok(status),
            None => Err((ErrorKind::UnknownStatus, "unknown status"@)),
        },
    }
}

/// What the reply to a position query says, in counts.
pub open spec fn position_reading(reply: Seq<u8>) -> Result<isize, (ErrorKind, Seq<char>)> {
    match reply_fault(reply) {
        Some(fault) => Err(fault),
        None => if digits_value(reply) <= isize::MAX {
            Ok(decode_signed(reply) as isize)
        } else {
            Err((ErrorKind::MalformedReply, "position out of range"@))
        },
    }
}

/// A rate in counts as it is sent: a negative one is sent as zero.
pub open spec fn clamped(counts: int) -> int {
    if counts < 0 {
        0
    } else {
        counts
    }
}

/// Decodes the reply to a status query.
pub fn decode_status(reply: &[u8]) -> (status: Result<Status, Error>)
    ensures
        outcome(status) == status_reading(reply@),
{
    match check_reply(reply) {
        Err(e) => Err(e),
        Ok(()) => {
            let byte: u8 = reply[RESULT_IDX];
            if byte == 48 {
                Ok(Status::Disabled)
            } else if byte == 49 {
                Ok(Status::Enabling)
            } else if byte == 50 {
                Ok(Status::Faulted)
            } else if byte == 51 {
                Ok(Status::Ready)
            } else if byte == 52 {
                Ok(Status::Moving)
            } else {
                Err(Error { kind: ErrorKind::UnknownStatus, message: "unknown status".to_owned() })
            }
        },
    }
}

/// Decodes the reply to a position query into counts.
pub fn decode_position(reply: &[u8]) -> (counts: Result<isize, Error>)
    ensures
        outcome(counts) == position_reading(reply@),
{
    match check_reply(reply) {
        Err(e) => Err(e),
        Ok(()) => match try_ascii_to_int(reply) {
            Some(value) => Ok(value),
            None => Err(
                Error {
                    kind: ErrorKind::MalformedReply,
                    message: "position out of range".to_owned(),
                },
            ),
        },
    }
}

/// One motor axis of a controller: its channel and its scale, the number of
/// counts in one physical unit.
pub struct Motor {
    id: u8,
    scale: usize,
}

impl Motor {
    #[verifier::type_invariant]
    spec fn encodable(self) -> bool {
        self.id <= 9
    }

    /// The channel of the axis.
    pub closed spec fn channel(self) -> u8 {
        self.id
    }

    /// Counts per physical unit.
    pub closed spec fn counts_per_unit(self) -> usize {
        self.scale
    }

    /// The frame of a command to this axis.
    pub open spec fn command(self, opcode: Opcode, parameter: Option<int>) -> Seq<u8> {
        frame_bytes(MOTOR_CHAR, self.channel(), opcode.letters(), parameter)
    }

    /// The frame of a command that sets a rate: the rate is clamped first.
    pub open spec fn rate_command(self, opcode: Opcode, counts: int) -> Seq<u8> {
        self.command(opcode, Some(clamped(counts)))
    }

    /// A handle for the axis on channel `id`, which has to be a single digit.
    pub fn new(id: u8, scale: usize) -> (motor: Self)
        requires
            id <= 9,
        ensures
            motor.channel() == id,
            motor.counts_per_unit() == scale,
    {
        Self { id, scale }
    }

    /// The channel of the axis.
    pub fn id(&self) -> (id: u8)
        ensures
            id == self.channel(),
            id <= 9,
    {
        proof {
            use_type_invariant(self);
        }
        self.id
    }

    /// Counts per physical unit.
    pub fn scale(&self) -> (scale: usize)
        ensures
            scale == self.counts_per_unit(),
    {
        self.scale
    }

    /// The frame of a command without a parameter.
    fn plain(&self, opcode: Opcode) -> (frame: Vec<u8>)
        ensures
            frame@ == self.command(opcode, None),
    {
        proof {
            use_type_invariant(self);
        }
        build_frame(MOTOR_CHAR, self.id, opcode.bytes(), None)
    }

    /// The frame of a command with a parameter in counts.
    fn with_counts(&self, opcode: Opcode, counts: isize) -> (frame: Vec<u8>)
        ensures
            frame@ == self.command(opcode, Some(counts as int)),
    {
        proof {
            use_type_invariant(self);
        }
        build_frame(MOTOR_CHAR, self.id, opcode.bytes(), Some(counts))
    }

    /// The frame of a command that sets a rate.
    fn with_rate(&self, opcode: Opcode, counts: isize) -> (frame: Vec<u8>)
        ensures
            frame@ == self.rate_command(opcode, counts as int),
    {
        let sent: isize = if counts < 0 { 0 } else { counts };
        self.with_counts(opcode, sent)
    }

    /// The request that enables the motor.
    pub fn enable(&self) -> (frame: Vec<u8>)
        ensures
            frame@ == self.command(Opcode::Enable, None),
    {
        self.plain(Opcode::Enable)
    }

    /// The request that disables the motor.
    pub fn disable(&self) -> (frame: Vec<u8>)
        ensures
            frame@ == self.command(Opcode::Disable, None),
    {
        self.plain(Opcode::Disable)
    }

    /// The request that moves to an absolute position, given in counts.
    pub fn absolute_move(&self, position: isize) -> (frame: Vec<u8>)
        ensures
            frame@ == self.command(Opcode::AbsoluteMove, Some(position as int)),
    {
        self.with_counts(Opcode::AbsoluteMove, position)
    }

    /// The request that moves by a displacement, given in counts.
    pub fn relative_move(&self, displacement: isize) -> (frame: Vec<u8>)
        ensures
            frame@ == self.command(Opcode::RelativeMove, Some(displacement as int)),
    {
        self.with_counts(Opcode::RelativeMove, displacement)
    }

    /// The request that halts the motor at once.
    pub fn abrupt_stop(&self) -> (frame: Vec<u8>)
        ensures
            frame@ == self.command(Opcode::AbruptStop, None),
    {
        self.plain(Opcode::AbruptStop)
    }

    /// The request that stops the motor by decelerating.
    pub fn stop(&self) -> (frame: Vec<u8>)
        ensures
            frame@ == self.command(Opcode::Stop, None),
    {
        self.plain(Opcode::Stop)
    }

    /// The request that sets the current position, given in counts.
    pub fn set_position(&self, position: isize) -> (frame: Vec<u8>)
        ensures
            frame@ == self.command(Opcode::SetPosition, Some(position as int)),
    {
        self.with_counts(Opcode::SetPosition, position)
    }

    /// The request that sets the velocity, given in counts; a negative one
    /// is sent as zero.
    pub fn set_velocity(&self, velocity: isize) -> (frame: Vec<u8>)
        ensures
            frame@ == self.rate_command(Opcode::SetVelocity, velocity as int),
    {
        self.with_rate(Opcode::SetVelocity, velocity)
    }

    /// The request that sets the acceleration, given in counts; a negative
    /// one is sent as zero.
    pub fn set_acceleration(&self, acceleration: isize) -> (frame: Vec<u8>)
        ensures
            frame@ == self.rate_command(Opcode::SetAcceleration, acceleration as int),
    {
        self.with_rate(Opcode::SetAcceleration, acceleration)
    }

    /// The request that sets the deceleration, given in counts; a negative
    /// one is sent as zero.
    pub fn set_deceleration(&self, deceleration: isize) -> (frame: Vec<u8>)
        ensures
            frame@ == self.rate_command(Opcode::SetDeceleration, deceleration as int),
    {
        self.with_rate(Opcode::SetDeceleration, deceleration)
    }

    /// The request that asks for the motor's status; `decode_status` reads
    /// the reply.
    pub fn get_status(&self) -> (frame: Vec<u8>)
        ensures
            frame@ == self.command(Opcode::GetStatus, None),
    {
        self.plain(Opcode::GetStatus)
    }

    /// The request that asks for the motor's position; `decode_position`
    /// reads the reply.
    pub fn get_position(&self) -> (frame: Vec<u8>)
        ensures
            frame@ == self.command(Opcode::GetPosition, None),
    {
        self.plain(Opcode::GetPosition)
    }

    /// The request that clears the motor's alerts.
    pub fn clear_alerts(&self) -> (frame: Vec<u8>)
        ensures
            frame@ == self.command(Opcode::ClearAlerts, None),
    {
        self.plain(Opcode::ClearAlerts)
    }
}

/// A negative rate puts the same frame on the wire as a rate of zero.
pub proof fn lemma_negative_rate_sent_as_zero(motor: Motor, opcode: Opcode, counts: int)
    requires
        counts < 0,
    ensures
        motor.rate_command(opcode, counts) == motor.rate_command(opcode, 0),
{
}

} // verus!
