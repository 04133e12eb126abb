use crate::error::Error;
use vstd::prelude::*;

verus! {

/// The physical tape cartridges the printer can hold.
#[derive(Copy, Clone, Debug, PartialEq, Eq, Structural)]
pub enum Tape {
    W4,
    W6,
    W9,
    W12,
    W18,
    W24,
    W36,
    /// A tape index reported by the device that maps to none of the known widths.
    UnknownIndex(u8),
}

/// The name under which the wire protocol refers to a tape.
pub type TapeKind = Tape;

/// Dots per inch of the print head.
pub const DPI: u64 = 360;

/// Pixels covered by a length given in hundredths of a millimetre: the length
/// times 360 dpi over 25.4 mm per inch, rounded down.
pub open spec fn spec_mm_to_px(centi_mm: int) -> int {
    centi_mm * 360 / 2540
}

/// The smallest multiple of 8 that is not below `px`.
pub open spec fn spec_round_up_to_8(px: int) -> int {
    (px + 7) / 8 * 8
}

/// Converts a length in hundredths of a millimetre to whole pixels at 360 dpi,
/// rounding down.
pub fn mm_to_px(centi_mm: u32) -> (px: i32)
    ensures
        px == spec_mm_to_px(centi_mm as int),
{
    let wide: u64 = centi_mm as u64 * DPI / 2540;
    wide as i32
}

impl Tape {
    /// Whether the tape is one of the seven known cartridges.
    pub open spec fn is_known(self) -> bool {
        !(self is UnknownIndex)
    }

    /// The printable width of a known tape in hundredths of a millimetre.
    pub open spec fn spec_width_centi_mm(self) -> int {
        match self {
            Tape::W4 => 285,
            Tape::W6 => 500,
            Tape::W9 => 700,
            Tape::W12 => 1000,
            Tape::W18 => 1520,
            Tape::W24 => 2000,
            Tape::W36 => 2600,
            Tape::UnknownIndex(_) => 0,
        }
    }

    /// The row width in pixels that the printer expects for a known tape: the
    /// printable width at 360 dpi, rounded down to whole pixels and then up to
    /// a whole number of bytes.
    pub open spec fn spec_width_px(self) -> int {
        spec_round_up_to_8(spec_mm_to_px(self.spec_width_centi_mm()))
    }

    /// The tape sold under the nominal width `mm`.
    pub open spec fn spec_from_mm(mm: int) -> Option<Tape> {
        if mm == 4 {
            Some(Tape::W4)
        } else if mm == 6 {
            Some(Tape::W6)
        } else if mm == 9 {
            Some(Tape::W9)
        } else if mm == 12 {
            Some(Tape::W12)
        } else if mm == 18 {
            Some(Tape::W18)
        } else if mm == 24 {
            Some(Tape::W24)
        } else if mm == 36 {
            Some(Tape::W36)
        } else {
            None
        }
    }

    /// The tape the device means by index `index` in a status body.
    pub open spec fn spec_from_index(index: u8) -> Tape {
        match index {
            1 => Tape::W6,
            2 => Tape::W9,
            3 => Tape::W12,
            4 => Tape::W18,
            5 => Tape::W24,
            6 => Tape::W36,
            _ => Tape::UnknownIndex(index),
        }
    }

    /// Looks a tape up by its nominal width in millimetres.
    pub fn from_mm(mm: usize) -> (r: Result<Tape, Error>)
        ensures
            match Tape::spec_from_mm(mm as int) {
                Some(t) => r == Ok::<Tape, Error>(t),
                None => r == Err::<Tape, Error>(Error::UnsupportedTape),
            },
    {
        match mm {
            4 => Ok(Tape::W4),
            6 => Ok(Tape::W6),
            9 => Ok(Tape::W9),
            12 => Ok(Tape::W12),
            18 => Ok(Tape::W18),
            24 => Ok(Tape::W24),
            36 => Ok(Tape::W36),
            _ => Err(Error::UnsupportedTape),
        }
    }

    /// Maps the tape index of a status body to a tape.
    pub fn from_index(index: u8) -> (t: Tape)
        ensures
            t == Tape::spec_from_index(index),
    {
        match index {
            1 => Tape::W6,
            2 => Tape::W9,
            3 => Tape::W12,
            4 => Tape::W18,
            5 => Tape::W24,
            6 => Tape::W36,
            _ => Tape::UnknownIndex(index),
        }
    }

    /// The printable width in hundredths of a millimetre, for a known tape.
    pub fn width_centi_mm(&self) -> (w: Option<u32>)
        ensures
            self.is_known() ==> w == Some(self.spec_width_centi_mm() as u32),
            !self.is_known() ==> w.is_none(),
    {
        match self {
            Tape::W4 => Some(285),
            Tape::W6 => Some(500),
            Tape::W9 => Some(700),
            Tape::W12 => Some(1000),
            Tape::W18 => Some(1520),
            Tape::W24 => Some(2000),
            Tape::W36 => Some(2600),
            Tape::UnknownIndex(_) => None,
        }
    }

    /// The row width in pixels for a known tape.
    pub fn width_px(&self) -> (w: i32)
        requires
            self.is_known(),
        ensures
            w == self.spec_width_px(),
            w > 0,
            w % 8 == 0,
    {
        let centi_mm: u32 = match self.width_centi_mm() {
            Some(c) => c,
            None => 0,
        };
        let px: i32 = mm_to_px(centi_mm);
        (px + 7) / 8 * 8
    }
}

/// The row width in pixels for `kind`, or `UnsupportedTape` where the kind is
/// not a known one.
pub fn tape_width_px(kind: &TapeKind) -> (r: Result<i32, Error>)
    ensures
        kind.is_known() ==> r == Ok::<i32, Error>(kind.spec_width_px() as i32),
        !kind.is_known() ==> r == Err::<i32, Error>(Error::UnsupportedTape),
        r matches Ok(w) ==> w > 0 && w % 8 == 0,
{
    match kind {
        Tape::UnknownIndex(_) => Err(Error::UnsupportedTape),
        _ => Ok(kind.width_px()),
    }
}

/// Every known tape has a row width that is positive and a whole number of bytes.
pub proof fn lemma_width_px_byte_aligned(kind: Tape)
    requires
        kind.is_known(),
    ensures
        kind.spec_width_px() > 0,
        kind.spec_width_px() % 8 == 0,
        kind.spec_width_px() <= 368,
{
}

} // verus!
