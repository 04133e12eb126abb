use crate::protocol::PacketHeader;
use crate::tape::Tape;
use vstd::prelude::*;

verus! {

/// Length in bytes of the body of a status response.
pub const STATUS_BODY_LEN: usize = 20;

/// What the printer reports about itself.
#[derive(Copy, Clone, Debug, PartialEq, Eq)]
pub enum PrinterStatus {
    NoTape,
    SomeTape(Tape),
    CoverIsOpened,
    Printing,
    /// A response this driver has no reading for, kept as it came.
    Unknown(PacketHeader, [u8; 20]),
}

/// The reading of a 20-byte status body, where the body has one.
///
/// Byte 1 tells a running job (2) from an idle device (0), byte 13 must be 0
/// while printing and 0, 1 or 2 when idle, byte 2 names the fault and byte 3
/// the tape.
pub open spec fn spec_known_status(body: Seq<u8>) -> Option<PrinterStatus> {
    if body[0x01] == 2 && body[0x0d] == 0 {
        Some(PrinterStatus::Printing)
    } else if body[0x01] == 0 && body[0x0d] <= 2 {
        if body[0x02] == 0x06 {
            Some(PrinterStatus::NoTape)
        } else if body[0x02] == 0x21 {
            Some(PrinterStatus::CoverIsOpened)
        } else if body[0x02] == 0x00 {
            Some(PrinterStatus::SomeTape(Tape::spec_from_index(body[0x03])))
        } else {
            None
        }
    } else {
        None
    }
}

/// What `body`, received under `header`, classifies as.
pub open spec fn spec_classify(header: PacketHeader, body: [u8; 20]) -> PrinterStatus {
    match spec_known_status(body@) {
        Some(status) => status,
        None => PrinterStatus::Unknown(header, body),
    }
}

impl PrinterStatus {
    /// Whether a job may be started on a printer in this state.
    pub open spec fn spec_has_tape(self) -> bool {
        self is SomeTape
    }

    /// Whether a job may be started on a printer in this state.
    pub fn has_tape(&self) -> (b: bool)
        ensures
            b == self.spec_has_tape(),
    {
        match self {
            PrinterStatus::SomeTape(_) => true,
            _ => false,
        }
    }

    /// Whether the printer is still busy with a job.
    pub fn is_printing(&self) -> (b: bool)
        ensures
            b == (*self is Printing),
    {
        match self {
            PrinterStatus::Printing => true,
            _ => false,
        }
    }
}

/// Classifies the body of a status response. The header is only kept, inside
/// `Unknown`, where the body has no reading.
pub fn classify(header: PacketHeader, body: [u8; 20]) -> (status: PrinterStatus)
    ensures
        status == spec_classify(header, body),
{
    if body[0x01] == 2 && body[0x0d] == 0 {
        PrinterStatus::Printing
    } else if body[0x01] == 0 && body[0x0d] <= 2 {
        if body[0x02] == 0x06 {
            PrinterStatus::NoTape
        } else if body[0x02] == 0x21 {
            PrinterStatus::CoverIsOpened
        } else if body[0x02] == 0x00 {
            PrinterStatus::SomeTape(Tape::from_index(body[0x03]))
        } else {
            PrinterStatus::Unknown(header, body)
        }
    } else {
        PrinterStatus::Unknown(header, body)
    }
}

/// A body classifies as a known tape only where byte 2 is 0 and byte 3 is one
/// of the known tape indices, and as printing only where byte 1 is 2 and
/// byte 13 is 0.
pub proof fn lemma_classification_sound(header: PacketHeader, body: [u8; 20])
    ensures
        (spec_classify(header, body) matches PrinterStatus::SomeTape(t) && t.is_known()) ==> body@[0x02]
            == 0 && 1 <= body@[0x03] <= 6,
        spec_classify(header, body) is Printing <==> body@[0x01] == 2 && body@[0x0d] == 0,
{
}

} // verus!
