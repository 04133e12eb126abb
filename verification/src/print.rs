use crate::display::{Raster, TapeDisplay};
use crate::error::Error;
use crate::status::PrinterStatus;
use crate::tape::{lemma_width_px_byte_aligned, tape_width_px, Tape, TapeKind};
use vstd::prelude::*;

verus! {

/// The sum of the bytes of `s`.
pub open spec fn sum_bytes(s: Seq<u8>) -> int
    decreases s.len(),
{
    if s.len() == 0 {
        0
    } else {
        sum_bytes(s.drop_last()) + s.last()
    }
}

/// The checksum that closes a command body: the low eight bits of the sum of
/// its bytes.
pub open spec fn checksum(body: Seq<u8>) -> u8 {
    (sum_bytes(body) % 256) as u8
}

/// The bracketed command that carries `body`: `1B 7B`, the payload length,
/// then as payload the body, its checksum and the sentinel `7D`.
pub open spec fn bracketed(body: Seq<u8>) -> Seq<u8> {
    seq![0x1bu8, 0x7bu8, (body.len() + 2) as u8] + body + seq![checksum(body), 0x7du8]
}

/// The four bytes of `x`, least significant first.
pub open spec fn spec_le_bytes(x: u32) -> Seq<u8> {
    seq![
        (x % 0x100) as u8,
        (x / 0x100 % 0x100) as u8,
        (x / 0x1_0000 % 0x100) as u8,
        (x / 0x100_0000) as u8,
    ]
}

/// The number whose little-endian bytes are the first four of `s`.
pub open spec fn spec_le_value(s: Seq<u8>) -> u32 {
    (s[0] + s[1] * 0x100 + s[2] * 0x1_0000 + s[3] * 0x100_0000) as u32
}

/// The command that resets the printer. It opens and closes every label.
pub open spec fn init_command() -> Seq<u8> {
    seq![0x1bu8, 0x7bu8, 3u8, 0x40u8, 0x40u8, 0x7du8]
}

/// The five fixed commands that open a label.
pub open spec fn prologue() -> Seq<u8> {
    init_command() + seq![0x1bu8, 0x7bu8, 7u8, 0x7bu8, 0x00u8, 0x00u8, 0x53u8, 0x54u8, 0x22u8, 0x7du8]
        + seq![0x1bu8, 0x7bu8, 7u8, 0x43u8, 0x02u8, 0x02u8, 0x01u8, 0x01u8, 0x49u8, 0x7du8] + seq![
        0x1bu8,
        0x7bu8,
        4u8,
        0x44u8,
        0x05u8,
        0x49u8,
        0x7du8,
    ] + seq![0x1bu8, 0x7bu8, 3u8, 0x47u8, 0x47u8, 0x7du8]
}

/// The command that declares the tape length in pixels.
pub open spec fn tape_length_command(len: u32) -> Seq<u8> {
    bracketed(seq![0x4cu8] + spec_le_bytes(len))
}

/// The three fixed commands that follow the tape length.
pub open spec fn mode_block() -> Seq<u8> {
    seq![0x1bu8, 0x7bu8, 5u8, 0x54u8, 0x2au8, 0x00u8, 0x7eu8, 0x7du8] + seq![
        0x1bu8,
        0x7bu8,
        4u8,
        0x48u8,
        0x05u8,
        0x4du8,
        0x7du8,
    ] + seq![0x1bu8, 0x7bu8, 4u8, 0x73u8, 0x00u8, 0x73u8, 0x7du8]
}

/// The byte that ends the raster rows.
pub const END_OF_DATA: u8 = 0x0c;

/// Appends the bytes of `bytes` to `out`.
fn push_all(out: &mut Vec<u8>, bytes: &[u8])
    ensures
        final(out)@ == old(out)@ + bytes@,
{
    let mut i: usize = 0;
    while i < bytes.len()
        invariant
            i <= bytes@.len(),
            out@ == old(out)@ + bytes@.subrange(0, i as int),
        decreases bytes@.len() - i,
    {
        out.push(bytes[i]);
        i += 1;
        assert(out@ =~= old(out)@ + bytes@.subrange(0, i as int));
    }
    assert(bytes@.subrange(0, bytes@.len() as int) =~= bytes@);
}

/// Computes the checksum of a command body.
pub fn checksum_of(body: &[u8]) -> (c: u8)
    ensures
        c == checksum(body@),
{
    let mut c: u8 = 0;
    let mut i: usize = 0;
    while i < body.len()
        invariant
            i <= body@.len(),
            c == checksum(body@.subrange(0, i as int)),
        decreases body@.len() - i,
    {
        let next: u32 = (c as u32 + body[i] as u32) % 256;
        proof {
            let grown = body@.subrange(0, i + 1);
            assert(grown.drop_last() =~= body@.subrange(0, i as int));
            assert(grown.last() == body@[i as int]);
        }
        c = next as u8;
        i += 1;
    }
    assert(body@.subrange(0, body@.len() as int) =~= body@);
    c
}

/// Appends the bracketed command that carries `body` to `out`.
fn push_command(out: &mut Vec<u8>, body: &[u8])
    requires
        body@.len() <= 253,
    ensures
        final(out)@ == old(out)@ + bracketed(body@),
{
    let c = checksum_of(body);
    out.push(0x1b);
    out.push(0x7b);
    out.push((body.len() + 2) as u8);
    push_all(out, body);
    out.push(c);
    out.push(0x7d);
    assert(out@ =~= old(out)@ + bracketed(body@));
}

/// Two to the power `dx`, for `dx` from 0 to 8: the value of bit `dx` of a
/// byte, bit 0 being the lowest, and 256 for the bit beyond the byte.
pub open spec fn bit_weight(dx: int) -> int {
    if dx == 0 {
        1
    } else if dx == 1 {
        2
    } else if dx == 2 {
        4
    } else if dx == 3 {
        8
    } else if dx == 4 {
        16
    } else if dx == 5 {
        32
    } else if dx == 6 {
        64
    } else if dx == 7 {
        128
    } else {
        256
    }
}

/// The low `n` bits of the byte that packs the eight pixels of column `col`
/// from row `base` on, the first of them in the highest bit: bit `dx` is set
/// where the pixel at row `base + 7 - dx` is.
pub open spec fn packed_bits(r: Raster, col: int, base: int, n: nat) -> int
    decreases n,
{
    if n == 0 {
        0
    } else {
        packed_bits(r, col, base, (n - 1) as nat) + if r.get(col, base + 7 - (n - 1)) {
            bit_weight(n - 1)
        } else {
            0
        }
    }
}

/// Byte `xb` of the data of output row `y`. Output rows run from the far end
/// of the tape towards its origin, so row `y` shows column `width - 1 - y`.
pub open spec fn row_byte(r: Raster, y: int, xb: int) -> u8 {
    packed_bits(r, r.width - 1 - y, xb * 8, 8) as u8
}

/// The raster command for output row `y`: the fixed prefix, the row width in
/// bits as a little-endian `u16`, then the packed pixels.
pub open spec fn raster_row(r: Raster, y: int, width_bits: int) -> Seq<u8> {
    seq![
        0x1bu8,
        0x2eu8,
        0u8,
        0u8,
        0u8,
        1u8,
        (width_bits % 0x100) as u8,
        (width_bits / 0x100 % 0x100) as u8,
    ] + Seq::new((width_bits / 8) as nat, |xb: int| row_byte(r, y, xb))
}

/// The raster commands for output rows `0` to `n - 1`, one after the other.
pub open spec fn raster_rows(r: Raster, width_bits: int, n: nat) -> Seq<u8>
    decreases n,
{
    if n == 0 {
        Seq::empty()
    } else {
        raster_rows(r, width_bits, (n - 1) as nat) + raster_row(r, n - 1, width_bits)
    }
}

/// The complete byte stream that prints `r` on a tape `width_bits` pixels wide.
pub open spec fn label_stream(r: Raster, width_bits: int) -> Seq<u8> {
    prologue() + tape_length_command(r.width as u32) + mode_block() + raster_rows(
        r,
        width_bits,
        r.width,
    ) + seq![END_OF_DATA] + init_command()
}

/// The partial sums of a packed byte stay below the weight of the next bit.
pub proof fn lemma_packed_bits_bound(r: Raster, col: int, base: int, n: nat)
    requires
        n <= 8,
    ensures
        0 <= packed_bits(r, col, base, n) < bit_weight(n as int),
    decreases n,
{
    if n > 0 {
        lemma_packed_bits_bound(r, col, base, (n - 1) as nat);
    }
}

/// Packs the eight pixels of column `col` from row `base` on into a byte.
fn pack_row_byte(td: &TapeDisplay, col: usize, base: usize) -> (chunk: u8)
    requires
        td.wf(),
        base + 8 <= usize::MAX,
    ensures
        chunk == packed_bits(td@, col as int, base as int, 8),
{
    let mut chunk: u8 = 0;
    let mut dx: u32 = 0;
    while dx < 8
        invariant
            td.wf(),
            base + 8 <= usize::MAX,
            dx <= 8,
            chunk == packed_bits(td@, col as int, base as int, dx as nat),
        decreases 8 - dx,
    {
        let x: usize = base + (7 - dx as usize);
        if td.get_pixel(col, x) {
            let w: u8 = 1u8 << dx;
            proof {
                lemma_packed_bits_bound(td@, col as int, base as int, dx as nat);
                assert(w == (if dx == 0 {
                    1u8
                } else if dx == 1 {
                    2u8
                } else if dx == 2 {
                    4u8
                } else if dx == 3 {
                    8u8
                } else if dx == 4 {
                    16u8
                } else if dx == 5 {
                    32u8
                } else if dx == 6 {
                    64u8
                } else {
                    128u8
                })) by (bit_vector)
                    requires
                        w == 1u8 << dx,
                        dx < 8,
                ;
                assert(chunk | w == chunk + w) by (bit_vector)
                    requires
                        chunk < w,
                        w == 1 || w == 2 || w == 4 || w == 8 || w == 16 || w == 32 || w == 64 || w
                            == 128,
                ;
            }
            chunk = chunk | w;
        }
        dx += 1;
    }
    chunk
}

/// Appends the raster command for output row `y` to `out`.
fn push_row(out: &mut Vec<u8>, td: &TapeDisplay, y: usize, width_bits: usize)
    requires
        td.wf(),
        y < td.width,
        width_bits < 0x1_0000,
    ensures
        final(out)@ == old(out)@ + raster_row(td@, y as int, width_bits as int),
{
    out.push(0x1b);
    out.push(0x2e);
    out.push(0);
    out.push(0);
    out.push(0);
    out.push(1);
    out.push((width_bits % 0x100) as u8);
    out.push((width_bits / 0x100 % 0x100) as u8);
    let ghost head = out@;
    let row_bytes: usize = width_bits / 8;
    let mut xb: usize = 0;
    while xb < row_bytes
        invariant
            td.wf(),
            y < td.width,
            row_bytes == width_bits / 8,
            width_bits < 0x1_0000,
            xb <= row_bytes,
            out@ == head + Seq::new(xb as nat, |k: int| row_byte(td@, y as int, k)),
        decreases row_bytes - xb,
    {
        let chunk = pack_row_byte(td, td.width - 1 - y, xb * 8);
        out.push(chunk);
        xb += 1;
        assert(out@ =~= head + Seq::new(xb as nat, |k: int| row_byte(td@, y as int, k)));
    }
    assert(out@ =~= old(out)@ + raster_row(td@, y as int, width_bits as int));
}

/// Encodes a finished raster as the byte stream that prints it on a tape of
/// the given kind.
///
/// The width of the raster runs along the tape and becomes the declared tape
/// length; its height runs across the tape. Every output row is as wide as the
/// tape, whatever the height of the raster: rows of the raster beyond the tape
/// width are dropped and missing ones print blank.
pub fn gen_tcp_data(td: &TapeDisplay, kind: &TapeKind) -> (r: Result<Vec<u8>, Error>)
    requires
        td.wf(),
        td.width <= u32::MAX,
    ensures
        !kind.is_known() ==> r == Err::<Vec<u8>, Error>(Error::UnsupportedTape),
        kind.is_known() ==> r is Ok && r->Ok_0@ == label_stream(td@, kind.spec_width_px()),
{
    let width_bits: usize = match tape_width_px(kind) {
        Ok(w) => w as usize,
        Err(e) => { return Err(e); },
    };
    proof {
        lemma_width_px_byte_aligned(*kind);
    }
    let mut out: Vec<u8> = Vec::new();

    let init: [u8; 6] = [0x1b, 0x7b, 3, 0x40, 0x40, 0x7d];
    let ident: [u8; 10] = [0x1b, 0x7b, 7, 0x7b, 0x00, 0x00, 0x53, 0x54, 0x22, 0x7d];
    let half_cut: [u8; 10] = [0x1b, 0x7b, 7, 0x43, 0x02, 0x02, 0x01, 0x01, 0x49, 0x7d];
    let option_d: [u8; 7] = [0x1b, 0x7b, 4, 0x44, 0x05, 0x49, 0x7d];
    let option_g: [u8; 6] = [0x1b, 0x7b, 3, 0x47, 0x47, 0x7d];
    push_all(&mut out, init.as_slice());
    push_all(&mut out, ident.as_slice());
    push_all(&mut out, half_cut.as_slice());
    push_all(&mut out, option_d.as_slice());
    push_all(&mut out, option_g.as_slice());
    assert(init@ =~= init_command());
    assert(out@ =~= prologue());

    let tape_len: u32 = td.width as u32;
    let length_body: [u8; 5] = [
        0x4c,
        (tape_len % 0x100) as u8,
        (tape_len / 0x100 % 0x100) as u8,
        (tape_len / 0x1_0000 % 0x100) as u8,
        (tape_len / 0x100_0000) as u8,
    ];
    assert(length_body@ =~= seq![0x4cu8] + spec_le_bytes(tape_len));
    push_command(&mut out, length_body.as_slice());

    let option_t: [u8; 8] = [0x1b, 0x7b, 5, 0x54, 0x2a, 0x00, 0x7e, 0x7d];
    let option_h: [u8; 7] = [0x1b, 0x7b, 4, 0x48, 0x05, 0x4d, 0x7d];
    let option_s: [u8; 7] = [0x1b, 0x7b, 4, 0x73, 0x00, 0x73, 0x7d];
    let ghost before_mode = out@;
    push_all(&mut out, option_t.as_slice());
    push_all(&mut out, option_h.as_slice());
    push_all(&mut out, option_s.as_slice());
    assert(out@ =~= before_mode + mode_block());

    let ghost head = out@;
    let mut y: usize = 0;
    while y < td.width
        invariant
            td.wf(),
            width_bits < 0x1_0000,
            y <= td.width,
            out@ == head + raster_rows(td@, width_bits as int, y as nat),
        decreases td.width - y,
    {
        push_row(&mut out, td, y, width_bits);
        y += 1;
        assert(out@ =~= head + raster_rows(td@, width_bits as int, y as nat));
    }
    out.push(END_OF_DATA);
    push_all(&mut out, init.as_slice());
    assert(out@ =~= label_stream(td@, kind.spec_width_px()));
    Ok(out)
}

/// What the command line asks of the print command.
#[derive(Clone, Debug, PartialEq, Eq)]
pub struct PrintArgs {
    /// A MAC address to make a label for.
    pub mac_addr: Option<String>,
    /// A text to make a QR code label for.
    pub qr_text: Option<String>,
    /// Do not print: generate the label and analyze it.
    pub dry_run: bool,
    /// The raw dump of a data stream.
    pub tcp_data: Option<String>,
    /// Print the test pattern.
    pub test_pattern: bool,
    /// The address of the printer.
    pub printer: Option<String>,
}

/// Where the tape width of a job comes from.
#[derive(Copy, Clone, Debug, PartialEq, Eq, Structural)]
pub enum TapeSource {
    /// The printer is asked which tape it holds.
    Probe,
    /// No printer was named: a 24 mm tape is taken.
    Default,
}

/// What becomes of the encoded label.
#[derive(Copy, Clone, Debug, PartialEq, Eq, Structural)]
pub enum Delivery {
    /// The label is read back by the analyzer and not sent.
    Analyze,
    /// The label is sent to the printer.
    Send,
}

/// How the test pattern is to be produced and what is to become of it.
#[derive(Copy, Clone, Debug, PartialEq, Eq)]
pub struct PrintPlan {
    pub tape_source: TapeSource,
    /// Where the label goes, which is decided only after it was rendered:
    /// `MissingPrinter` where it is to be sent and no printer was named.
    pub delivery: Result<Delivery, Error>,
}

/// What `do_print` makes of the given switches.
pub open spec fn spec_print_plan(test_pattern: bool, dry_run: bool, has_printer: bool) -> Result<
    PrintPlan,
    Error,
> {
    if !test_pattern {
        Err(Error::NoCommand)
    } else {
        Ok(
            PrintPlan {
                tape_source: if has_printer {
                    TapeSource::Probe
                } else {
                    TapeSource::Default
                },
                delivery: if dry_run {
                    Ok(Delivery::Analyze)
                } else if has_printer {
                    Ok(Delivery::Send)
                } else {
                    Err(Error::MissingPrinter)
                },
            },
        )
    }
}

/// Decides what a print command amounts to. Only the test pattern can be
/// printed; without it there is nothing to do and the call fails with
/// `NoCommand`.
pub fn do_print(args: &PrintArgs) -> (r: Result<PrintPlan, Error>)
    ensures
        r == spec_print_plan(args.test_pattern, args.dry_run, args.printer is Some),
{
    if !args.test_pattern {
        return Err(Error::NoCommand);
    }
    let has_printer = args.printer.is_some();
    let tape_source = if has_printer {
        TapeSource::Probe
    } else {
        TapeSource::Default
    };
    let delivery = if args.dry_run {
        Ok(Delivery::Analyze)
    } else if has_printer {
        Ok(Delivery::Send)
    } else {
        Err(Error::MissingPrinter)
    };
    Ok(PrintPlan { tape_source, delivery })
}

/// The tape a job is laid out for, given what the printer reported, or `None`
/// where no printer was asked.
pub open spec fn spec_determine_tape(status: Option<PrinterStatus>) -> Result<Tape, Error> {
    match status {
        None => Ok(Tape::W24),
        Some(PrinterStatus::SomeTape(t)) => if t.is_known() {
            Ok(t)
        } else {
            Err(Error::UnsupportedTape)
        },
        Some(_) => Err(Error::UnexpectedState),
    }
}

/// Settles the tape a job is laid out for. Where no printer was asked a
/// 24 mm tape is taken. A status without a tape is `UnexpectedState`, a tape
/// of unknown kind `UnsupportedTape`.
pub fn determine_tape(status: Option<&PrinterStatus>) -> (r: Result<Tape, Error>)
    ensures
        r == spec_determine_tape(
            match status {
                Some(s) => Some(*s),
                None => None,
            },
        ),
        r matches Ok(t) ==> t.is_known(),
{
    match status {
        None => Ok(Tape::W24),
        Some(PrinterStatus::SomeTape(t)) => match t {
            Tape::UnknownIndex(_) => Err(Error::UnsupportedTape),
            _ => Ok(*t),
        },
        Some(_) => Err(Error::UnexpectedState),
    }
}

/// Settles the row width in pixels for a job: the width of the tape that
/// `determine_tape` settles on.
pub fn determine_tape_width_px(status: Option<&PrinterStatus>) -> (r: Result<i32, Error>)
    ensures
        match spec_determine_tape(
            match status {
                Some(s) => Some(*s),
                None => None,
            },
        ) {
            Ok(t) => r == Ok::<i32, Error>(t.spec_width_px() as i32),
            Err(e) => r == Err::<i32, Error>(e),
        },
        r matches Ok(w) ==> w > 0 && w % 8 == 0,
{
    match determine_tape(status) {
        Ok(t) => tape_width_px(&t),
        Err(e) => Err(e),
    }
}

} // verus!
