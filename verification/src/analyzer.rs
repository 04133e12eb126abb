use crate::error::Error;
use crate::print::{checksum_of, spec_le_value, sum_bytes, END_OF_DATA};
use vstd::prelude::*;

verus! {

/// What reading a label stream yields, as plain numbers.
pub struct Summary {
    /// How many bracketed commands the stream holds.
    pub commands: nat,
    /// How many raster rows the stream holds.
    pub data_rows: nat,
    /// The tape length in pixels that the stream declared last, if any.
    pub tape_len: Option<u32>,
}

/// What reading a label stream yields.
#[derive(Copy, Clone, Debug, PartialEq, Eq)]
pub struct StreamReport {
    /// How many bracketed commands the stream holds.
    pub num_commands: usize,
    /// How many raster rows the stream holds.
    pub num_data_rows: usize,
    /// The tape length in pixels that the stream declared last, if any.
    pub tape_len: Option<u32>,
}

impl View for StreamReport {
    type V = Summary;

    open spec fn view(&self) -> Summary {
        Summary {
            commands: self.num_commands as nat,
            data_rows: self.num_data_rows as nat,
            tape_len: self.tape_len,
        }
    }
}

/// Whether a sound bracketed command starts at `i`: the length byte is there
/// and at least 2, the payload is there in full and ends in the sentinel, and
/// the bytes before the sentinel sum, modulo 256, to twice the checksum.
pub open spec fn frame_ok(s: Seq<u8>, i: int) -> bool {
    &&& i + 3 <= s.len()
    &&& s[i + 2] >= 2
    &&& i + 3 + s[i + 2] <= s.len()
    &&& s[i + 2 + s[i + 2]] == 0x7d
    &&& sum_bytes(s.subrange(i + 3, i + 2 + s[i + 2])) % 256 == (2 * s[i + 1 + s[i + 2]]) % 256
}

/// The tape length that the sound command at `i` declares, if it declares
/// one: its body opens with `4C` and holds four more bytes after it.
pub open spec fn frame_tape_len(s: Seq<u8>, i: int) -> Option<u32> {
    if s[i + 2] >= 7 && s[i + 3] == 0x4c {
        Some(spec_le_value(s.subrange(i + 4, i + 8)))
    } else {
        None
    }
}

/// The number of data bytes of the raster row at `i`: its width in bits,
/// rounded up to whole bytes.
pub open spec fn row_data_len(s: Seq<u8>, i: int) -> int {
    (s[i + 6] + s[i + 7] * 0x100 + 7) / 8
}

/// Whether a sound raster row starts at `i`: the prefix `1B 2E 00 00 00 01`
/// and the width are there, and so is the data in full.
pub open spec fn row_ok(s: Seq<u8>, i: int) -> bool {
    &&& i + 8 <= s.len()
    &&& s[i + 2] == 0
    &&& s[i + 3] == 0
    &&& s[i + 4] == 0
    &&& s[i + 5] == 1
    &&& i + 8 + row_data_len(s, i) <= s.len()
}

/// The summary after one more bracketed command, which may declare a tape length.
pub open spec fn after_command(acc: Summary, declared: Option<u32>) -> Summary {
    Summary {
        commands: acc.commands + 1,
        data_rows: acc.data_rows,
        tape_len: if declared is Some {
            declared
        } else {
            acc.tape_len
        },
    }
}

/// The summary after one more raster row.
pub open spec fn after_row(acc: Summary) -> Summary {
    Summary { commands: acc.commands, data_rows: acc.data_rows + 1, tape_len: acc.tape_len }
}

/// Reads the stream from position `i` on, `acc` being what was read before.
pub open spec fn parse_from(s: Seq<u8>, i: int, acc: Summary) -> Result<Summary, Error>
    decreases s.len() - i,
{
    if i < 0 || i >= s.len() {
        Ok(acc)
    } else if s[i] == END_OF_DATA {
        parse_from(s, i + 1, acc)
    } else if s[i] == 0x1b && i + 1 < s.len() && s[i + 1] == 0x7b {
        if frame_ok(s, i) {
            parse_from(s, i + 3 + s[i + 2], after_command(acc, frame_tape_len(s, i)))
        } else {
            Err(Error::BadFrame)
        }
    } else if s[i] == 0x1b && i + 1 < s.len() && s[i + 1] == 0x2e {
        if row_ok(s, i) {
            parse_from(s, i + 8 + row_data_len(s, i), after_row(acc))
        } else {
            Err(Error::BadRaster)
        }
    } else {
        Err(Error::UnknownOpcode)
    }
}

/// What reading the whole of `s` yields.
pub open spec fn spec_analyze(s: Seq<u8>) -> Result<Summary, Error> {
    parse_from(s, 0, Summary { commands: 0, data_rows: 0, tape_len: None })
}

/// Walks a label stream command by command and reports what it holds.
///
/// A bracketed command that is cut short, whose payload is shorter than two
/// bytes, does not end in `7D` or fails its checksum is `BadFrame`. A raster
/// row that is cut short or departs from its fixed prefix is `BadRaster`. A
/// byte at which no command starts is `UnknownOpcode`. The first fault ends
/// the walk.
pub fn analyze_tcp_data(data: &[u8]) -> (r: Result<StreamReport, Error>)
    ensures
        match spec_analyze(data@) {
            Ok(summary) => r is Ok && r->Ok_0@ == summary,
            Err(e) => r == Err::<StreamReport, Error>(e),
        },
{
    let len = data.len();
    let mut report = StreamReport { num_commands: 0, num_data_rows: 0, tape_len: None };
    let mut i: usize = 0;
    while i < len
        invariant
            len == data@.len(),
            i <= len,
            report.num_commands + report.num_data_rows <= i,
            spec_analyze(data@) == parse_from(data@, i as int, report@),
        decreases len - i,
    {
        let lead = data[i];
        if lead == END_OF_DATA {
            i += 1;
        } else if lead == 0x1b && len - i >= 2 && data[i + 1] == 0x7b {
            if len - i < 3 {
                return Err(Error::BadFrame);
            }
            let n: usize = data[i + 2] as usize;
            if n < 2 || len - i - 3 < n {
                return Err(Error::BadFrame);
            }
            if data[i + 2 + n] != 0x7d {
                return Err(Error::BadFrame);
            }
            let summed = checksum_of(&data[i + 3..i + 2 + n]);
            let doubled: u8 = ((2 * (data[i + 1 + n] as u32)) % 256) as u8;
            if summed != doubled {
                return Err(Error::BadFrame);
            }
            assert(frame_ok(data@, i as int));
            if n >= 7 && data[i + 3] == 0x4c {
                let b0: u32 = data[i + 4] as u32;
                let b1: u32 = data[i + 5] as u32;
                let b2: u32 = data[i + 6] as u32;
                let b3: u32 = data[i + 7] as u32;
                report.tape_len = Some(b0 + b1 * 0x100 + b2 * 0x1_0000 + b3 * 0x100_0000);
            }
            report.num_commands = report.num_commands + 1;
            i = i + 3 + n;
        } else if lead == 0x1b && len - i >= 2 && data[i + 1] == 0x2e {
            if len - i < 8 {
                return Err(Error::BadRaster);
            }
            if data[i + 2] != 0 || data[i + 3] != 0 || data[i + 4] != 0 || data[i + 5] != 1 {
                return Err(Error::BadRaster);
            }
            let bits: usize = data[i + 6] as usize + data[i + 7] as usize * 0x100;
            let bytes: usize = (bits + 7) / 8;
            if len - i - 8 < bytes {
                return Err(Error::BadRaster);
            }
            assert(row_ok(data@, i as int));
            report.num_data_rows = report.num_data_rows + 1;
            i = i + 8 + bytes;
        } else {
            return Err(Error::UnknownOpcode);
        }
    }
    Ok(report)
}

} // verus!
