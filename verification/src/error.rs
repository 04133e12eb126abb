use vstd::prelude::*;

verus! {

/// Every way in which a call into this crate can fail.
#[derive(Copy, Clone, Debug, PartialEq, Eq, Structural)]
pub enum Error {
    /// A socket operation failed. Never produced by this crate itself: the
    /// caller that owns the sockets reports it to the session.
    Transport,
    /// Fewer than 32 bytes were offered where a packet header is decoded.
    Truncated,
    /// A response datagram is shorter than a packet header.
    ShortResponse,
    /// The body of a status response is not exactly 20 bytes long.
    ShapeMismatch,
    /// The printer did not acknowledge start-print with `02 00 00`.
    StartRejected,
    /// The printer did not acknowledge stop-print with `03 00 00`.
    StopRejected,
    /// The response to the first data-stream notification has a body.
    NotifyOpenFailed,
    /// The response to the second data-stream notification is neither `10` nor `00`.
    NotifyReadyFailed,
    /// A bracketed command in a label stream is cut short, shorter than two
    /// payload bytes, lacks its sentinel or fails its checksum.
    BadFrame,
    /// A raster row in a label stream is cut short or departs from the fixed prefix.
    BadRaster,
    /// A label stream holds a byte at which no command starts.
    UnknownOpcode,
    /// The tape is not one of the known kinds.
    UnsupportedTape,
    /// The printer holds no usable tape where a job needs one.
    UnexpectedState,
    /// No print command was selected.
    NoCommand,
    /// A job is to be sent but no printer address was given.
    MissingPrinter,
}

/// The coarse classes into which failures are sorted when they are reported.
#[derive(Copy, Clone, Debug, PartialEq, Eq, Structural)]
pub enum ErrorKind {
    Transport,
    Truncated,
    ShapeMismatch,
    BadFrame,
    BadRaster,
    UnknownOpcode,
    UnsupportedTape,
    UnexpectedState,
    /// The caller asked for something that cannot be carried out as stated.
    Usage,
}

impl Error {
    pub open spec fn spec_kind(self) -> ErrorKind {
        match self {
            Error::Transport => ErrorKind::Transport,
            Error::Truncated | Error::ShortResponse => ErrorKind::Truncated,
            Error::ShapeMismatch
            | Error::StartRejected
            | Error::StopRejected
            | Error::NotifyOpenFailed
            | Error::NotifyReadyFailed => ErrorKind::ShapeMismatch,
            Error::BadFrame => ErrorKind::BadFrame,
            Error::BadRaster => ErrorKind::BadRaster,
            Error::UnknownOpcode => ErrorKind::UnknownOpcode,
            Error::UnsupportedTape => ErrorKind::UnsupportedTape,
            Error::UnexpectedState => ErrorKind::UnexpectedState,
            Error::NoCommand | Error::MissingPrinter => ErrorKind::Usage,
        }
    }

    /// The class under which this failure is reported.
    pub fn kind(&self) -> (k: ErrorKind)
        ensures
            k == self.spec_kind(),
    {
        match self {
            Error::Transport => ErrorKind::Transport,
            Error::Truncated | Error::ShortResponse => ErrorKind::Truncated,
            Error::ShapeMismatch
            | Error::StartRejected
            | Error::StopRejected
            | Error::NotifyOpenFailed
            | Error::NotifyReadyFailed => ErrorKind::ShapeMismatch,
            Error::BadFrame => ErrorKind::BadFrame,
            Error::BadRaster => ErrorKind::BadRaster,
            Error::UnknownOpcode => ErrorKind::UnknownOpcode,
            Error::UnsupportedTape => ErrorKind::UnsupportedTape,
            Error::UnexpectedState => ErrorKind::UnexpectedState,
            Error::NoCommand | Error::MissingPrinter => ErrorKind::Usage,
        }
    }
}

} // verus!
