use crate::analyzer::{
    after_command, after_row, frame_ok, frame_tape_len, parse_from, row_data_len, row_ok,
    Summary,
};
use crate::analyzer::spec_analyze;
use crate::display::Raster;
use crate::print::END_OF_DATA;
use crate::tape::{lemma_width_px_byte_aligned, Tape};
use crate::print::{
    bit_weight, bracketed, checksum, init_command, label_stream, mode_block, packed_bits,
    prologue, raster_row, raster_rows, row_byte, spec_le_bytes, spec_le_value, sum_bytes,
    tape_length_command,
};
use vstd::prelude::*;

verus! {

/// Appending a byte to a sequence adds it to the sum of the bytes.
pub proof fn lemma_sum_bytes_push(s: Seq<u8>, x: u8)
    ensures
        sum_bytes(s.push(x)) == sum_bytes(s) + x,
{
    assert(s.push(x).drop_last() =~= s);
}

/// In every bracketed command the payload bytes before the sentinel sum,
/// modulo 256, to twice the checksum.
pub proof fn lemma_bracketed_checksum_identity(body: Seq<u8>)
    requires
        body.len() <= 253,
    ensures
        bracketed(body).len() == body.len() + 5,
        bracketed(body)[2] == body.len() + 2,
        bracketed(body).last() == 0x7d,
        bracketed(body)[body.len() as int + 3] == checksum(body),
        bracketed(body).subrange(3, body.len() as int + 3) == body,
        sum_bytes(bracketed(body).subrange(3, body.len() as int + 4)) % 256 == (2 * checksum(body)) % 256,
{
    let f = bracketed(body);
    assert(f.subrange(3, body.len() as int + 3) =~= body);
    assert(f.subrange(3, body.len() as int + 4) =~= body.push(checksum(body)));
    lemma_sum_bytes_push(body, checksum(body));
}

/// Reading the little-endian bytes of a number gives the number back.
pub proof fn lemma_le_round_trip(x: u32)
    ensures
        spec_le_bytes(x).len() == 4,
        spec_le_value(spec_le_bytes(x)) == x,
{
    assert(x / 0x100_0000 < 0x100 && (x / 0x100_0000) * 0x100_0000 + (x / 0x1_0000 % 0x100)
        * 0x1_0000 + (x / 0x100 % 0x100) * 0x100 + x % 0x100 == x) by (bit_vector);
}

/// The tape length that a command with the given body declares, if any.
pub open spec fn declared_tape_len(body: Seq<u8>) -> Option<u32> {
    if body.len() >= 5 && body[0] == 0x4c {
        Some(spec_le_value(body.subrange(1, 5)))
    } else {
        None
    }
}

/// Where the bracketed command for `body` stands at position `i` of a stream,
/// the reader accepts it, counts it and goes on behind it.
pub proof fn lemma_command_at(s: Seq<u8>, i: int, body: Seq<u8>, acc: Summary)
    requires
        0 <= i,
        body.len() <= 253,
        i + body.len() + 5 <= s.len(),
        s.subrange(i, i + body.len() + 5) == bracketed(body),
    ensures
        frame_ok(s, i),
        parse_from(s, i, acc) == parse_from(
            s,
            i + body.len() + 5,
            after_command(acc, declared_tape_len(body)),
        ),
{
    let f = bracketed(body);
    let n = body.len() as int + 2;
    lemma_bracketed_checksum_identity(body);
    assert forall|k: int| 0 <= k < f.len() implies s[i + k] == f[k] by {
        assert(s.subrange(i, i + body.len() + 5)[k] == s[i + k]);
    }
    assert(s[i] == f[0]);
    assert(s[i + 1] == f[1]);
    assert(s[i + 2] == f[2]);
    assert(s[i + 2 + n] == f[2 + n]);
    assert(s[i + 1 + n] == f[1 + n]);
    assert(s.subrange(i + 3, i + 2 + n) =~= f.subrange(3, body.len() as int + 4));
    assert(frame_ok(s, i));
    if body.len() >= 5 {
        assert(s[i + 3] == f[3]);
        assert(f[3] == body[0]);
        assert(s.subrange(i + 4, i + 8) =~= body.subrange(1, 5));
    } else if body.len() > 0 {
        assert(s[i + 3] == f[3]);
    }
    assert(frame_tape_len(s, i) == declared_tape_len(body));
}

/// The length in bytes of one raster command for rows `width_bits` wide.
pub open spec fn row_len(width_bits: int) -> int {
    8 + width_bits / 8
}

/// The summary after `n` more raster rows.
pub open spec fn after_rows(acc: Summary, n: nat) -> Summary {
    Summary { commands: acc.commands, data_rows: acc.data_rows + n, tape_len: acc.tape_len }
}

/// Where the raster command of a row stands at position `i` of a stream, the
/// reader accepts it, counts it and goes on behind it.
pub proof fn lemma_row_at(s: Seq<u8>, i: int, r: Raster, y: int, width_bits: int, acc: Summary)
    requires
        0 <= i,
        0 <= width_bits < 0x1_0000,
        width_bits % 8 == 0,
        i + row_len(width_bits) <= s.len(),
        s.subrange(i, i + row_len(width_bits)) == raster_row(r, y, width_bits),
    ensures
        row_ok(s, i),
        parse_from(s, i, acc) == parse_from(s, i + row_len(width_bits), after_row(acc)),
{
    let row = raster_row(r, y, width_bits);
    assert forall|k: int| 0 <= k < 8 implies s[i + k] == row[k] by {
        assert(s.subrange(i, i + row_len(width_bits))[k] == s[i + k]);
    }
    assert(s[i] == row[0]);
    assert(s[i + 1] == row[1]);
    assert(s[i + 2] == row[2]);
    assert(s[i + 3] == row[3]);
    assert(s[i + 4] == row[4]);
    assert(s[i + 5] == row[5]);
    assert(s[i + 6] == row[6]);
    assert(s[i + 7] == row[7]);
    assert(row_data_len(s, i) == width_bits / 8);
}

/// `n + 1` rows take the room of `n` rows and one more.
proof fn lemma_rows_room(n: int, width_bits: int)
    by (nonlinear_arith)
    requires
        0 <= n,
        0 <= width_bits,
    ensures
        (n + 1) * row_len(width_bits) == n * row_len(width_bits) + row_len(width_bits),
        0 <= n * row_len(width_bits),
{
}

/// The raster commands of `n` rows take `n` times the room of one, and the
/// command of row `y` stands at `y` times that room.
pub proof fn lemma_rows_layout(r: Raster, width_bits: int, n: nat, y: int)
    requires
        0 <= width_bits,
        0 <= y < n,
    ensures
        raster_row(r, y, width_bits).len() == row_len(width_bits),
        raster_rows(r, width_bits, n).len() == n * row_len(width_bits),
        0 <= y * row_len(width_bits),
        (y + 1) * row_len(width_bits) <= n * row_len(width_bits),
        raster_rows(r, width_bits, n).subrange(
            y * row_len(width_bits),
            (y + 1) * row_len(width_bits),
        ) == raster_row(r, y, width_bits),
    decreases n,
{
    lemma_rows_len(r, width_bits, n);
    lemma_rows_len(r, width_bits, (n - 1) as nat);
    lemma_rows_room(n - 1, width_bits);
    lemma_rows_room(y, width_bits);
    let all = raster_rows(r, width_bits, n);
    let front = raster_rows(r, width_bits, (n - 1) as nat);
    if y == n - 1 {
        assert(all.subrange(y * row_len(width_bits), (y + 1) * row_len(width_bits)) =~= raster_row(
            r,
            y,
            width_bits,
        ));
    } else {
        lemma_rows_layout(r, width_bits, (n - 1) as nat, y);
        assert(all.subrange(y * row_len(width_bits), (y + 1) * row_len(width_bits))
            =~= front.subrange(y * row_len(width_bits), (y + 1) * row_len(width_bits)));
    }
}

/// The raster commands of `n` rows take `n` times the room of one.
pub proof fn lemma_rows_len(r: Raster, width_bits: int, n: nat)
    requires
        0 <= width_bits,
    ensures
        raster_rows(r, width_bits, n).len() == n * row_len(width_bits),
        n > 0 ==> raster_rows(r, width_bits, n).len() == raster_rows(
            r,
            width_bits,
            (n - 1) as nat,
        ).len() + row_len(width_bits),
    decreases n,
{
    if n > 0 {
        lemma_rows_len(r, width_bits, (n - 1) as nat);
        lemma_rows_room(n - 1, width_bits);
        assert(raster_row(r, n - 1, width_bits).len() == row_len(width_bits));
    } else {
        assert(n * row_len(width_bits) == 0) by (nonlinear_arith)
            requires
                n == 0,
        ;
    }
}

/// Where the raster commands of `n` rows stand at position `i` of a stream,
/// the reader accepts them all, counts `n` rows and goes on behind them.
pub proof fn lemma_rows_at(
    s: Seq<u8>,
    i: int,
    r: Raster,
    width_bits: int,
    n: nat,
    acc: Summary,
)
    requires
        0 <= i,
        0 <= width_bits < 0x1_0000,
        width_bits % 8 == 0,
        i + n * row_len(width_bits) <= s.len(),
        s.subrange(i, i + n * row_len(width_bits)) == raster_rows(r, width_bits, n),
    ensures
        parse_from(s, i, acc) == parse_from(s, i + n * row_len(width_bits), after_rows(acc, n)),
    decreases n,
{
    if n == 0 {
        assert(after_rows(acc, 0) == acc);
    } else {
        let m = (n - 1) as nat;
        let room = row_len(width_bits);
        lemma_rows_len(r, width_bits, n);
        lemma_rows_room(m as int, width_bits);
        let all = raster_rows(r, width_bits, n);
        assert(s.subrange(i, i + m * room) =~= all.subrange(0, m * room));
        assert(all.subrange(0, m * room) =~= raster_rows(r, width_bits, m));
        lemma_rows_at(s, i, r, width_bits, m, acc);
        assert(s.subrange(i + m * room, i + m * room + room) =~= all.subrange(
            m * room,
            m * room + room,
        ));
        assert(all.subrange(m * room, m * room + room) =~= raster_row(r, m as int, width_bits));
        lemma_row_at(s, i + m * room, r, m as int, width_bits, after_rows(acc, m));
        assert(after_row(after_rows(acc, m)) == after_rows(acc, n));
    }
}

/// The fixed commands are bracketed commands: each closes with the checksum
/// of its body and the sentinel.
pub proof fn lemma_fixed_commands()
    ensures
        init_command() == bracketed(seq![0x40u8]),
        prologue() == bracketed(seq![0x40u8]) + bracketed(
            seq![0x7bu8, 0x00u8, 0x00u8, 0x53u8, 0x54u8],
        ) + bracketed(seq![0x43u8, 0x02u8, 0x02u8, 0x01u8, 0x01u8]) + bracketed(
            seq![0x44u8, 0x05u8],
        ) + bracketed(seq![0x47u8]),
        mode_block() == bracketed(seq![0x54u8, 0x2au8, 0x00u8]) + bracketed(seq![0x48u8, 0x05u8])
            + bracketed(seq![0x73u8, 0x00u8]),
{
    let e = Seq::<u8>::empty();
    assert(sum_bytes(e) == 0);
    lemma_sum_bytes_push(e, 0x40);
    assert(seq![0x40u8] =~= e.push(0x40));
    assert(checksum(seq![0x40u8]) == 0x40);

    lemma_sum_bytes_push(e, 0x7b);
    lemma_sum_bytes_push(e.push(0x7b), 0x00);
    lemma_sum_bytes_push(e.push(0x7b).push(0x00), 0x00);
    lemma_sum_bytes_push(e.push(0x7b).push(0x00).push(0x00), 0x53);
    lemma_sum_bytes_push(e.push(0x7b).push(0x00).push(0x00).push(0x53), 0x54);
    assert(seq![0x7bu8, 0x00u8, 0x00u8, 0x53u8, 0x54u8] =~= e.push(0x7b).push(0x00).push(0x00).push(
        0x53,
    ).push(0x54));
    assert(checksum(seq![0x7bu8, 0x00u8, 0x00u8, 0x53u8, 0x54u8]) == 0x22);

    lemma_sum_bytes_push(e, 0x43);
    lemma_sum_bytes_push(e.push(0x43), 0x02);
    lemma_sum_bytes_push(e.push(0x43).push(0x02), 0x02);
    lemma_sum_bytes_push(e.push(0x43).push(0x02).push(0x02), 0x01);
    lemma_sum_bytes_push(e.push(0x43).push(0x02).push(0x02).push(0x01), 0x01);
    assert(seq![0x43u8, 0x02u8, 0x02u8, 0x01u8, 0x01u8] =~= e.push(0x43).push(0x02).push(0x02).push(
        0x01,
    ).push(0x01));
    assert(checksum(seq![0x43u8, 0x02u8, 0x02u8, 0x01u8, 0x01u8]) == 0x49);

    lemma_sum_bytes_push(e, 0x44);
    lemma_sum_bytes_push(e.push(0x44), 0x05);
    assert(seq![0x44u8, 0x05u8] =~= e.push(0x44).push(0x05));
    assert(checksum(seq![0x44u8, 0x05u8]) == 0x49);

    lemma_sum_bytes_push(e, 0x47);
    assert(seq![0x47u8] =~= e.push(0x47));
    assert(checksum(seq![0x47u8]) == 0x47);

    lemma_sum_bytes_push(e, 0x54);
    lemma_sum_bytes_push(e.push(0x54), 0x2a);
    lemma_sum_bytes_push(e.push(0x54).push(0x2a), 0x00);
    assert(seq![0x54u8, 0x2au8, 0x00u8] =~= e.push(0x54).push(0x2a).push(0x00));
    assert(checksum(seq![0x54u8, 0x2au8, 0x00u8]) == 0x7e);

    lemma_sum_bytes_push(e, 0x48);
    lemma_sum_bytes_push(e.push(0x48), 0x05);
    assert(seq![0x48u8, 0x05u8] =~= e.push(0x48).push(0x05));
    assert(checksum(seq![0x48u8, 0x05u8]) == 0x4d);

    lemma_sum_bytes_push(e, 0x73);
    lemma_sum_bytes_push(e.push(0x73), 0x00);
    assert(seq![0x73u8, 0x00u8] =~= e.push(0x73).push(0x00));
    assert(checksum(seq![0x73u8, 0x00u8]) == 0x73);

    assert(init_command() =~= bracketed(seq![0x40u8]));
    assert(prologue() =~= bracketed(seq![0x40u8]) + bracketed(
        seq![0x7bu8, 0x00u8, 0x00u8, 0x53u8, 0x54u8],
    ) + bracketed(seq![0x43u8, 0x02u8, 0x02u8, 0x01u8, 0x01u8]) + bracketed(seq![0x44u8, 0x05u8])
        + bracketed(seq![0x47u8]));
    assert(mode_block() =~= bracketed(seq![0x54u8, 0x2au8, 0x00u8]) + bracketed(
        seq![0x48u8, 0x05u8],
    ) + bracketed(seq![0x73u8, 0x00u8]));
}

/// The number of bytes that stand before the first raster row of a label.
pub open spec fn rows_offset() -> int {
    71
}

/// Where the parts of a sequence put together from six stand in it.
proof fn lemma_six_parts(
    a: Seq<u8>,
    b: Seq<u8>,
    c: Seq<u8>,
    d: Seq<u8>,
    e: Seq<u8>,
    f: Seq<u8>,
)
    ensures
        ({
            let s = a + b + c + d + e + f;
            let at_b = a.len() as int;
            let at_c = at_b + b.len();
            let at_d = at_c + c.len();
            let at_e = at_d + d.len();
            let at_f = at_e + e.len();
            &&& s.len() == at_f + f.len()
            &&& s.subrange(0, at_b) == a
            &&& s.subrange(at_b, at_c) == b
            &&& s.subrange(at_c, at_d) == c
            &&& s.subrange(at_d, at_e) == d
            &&& s.subrange(at_e, at_f) == e
            &&& s.subrange(at_f, at_f + f.len()) == f
        }),
{
    let s = a + b + c + d + e + f;
    let at_b = a.len() as int;
    let at_c = at_b + b.len();
    let at_d = at_c + c.len();
    let at_e = at_d + d.len();
    let at_f = at_e + e.len();
    assert(s.subrange(0, at_b) =~= a);
    assert(s.subrange(at_b, at_c) =~= b);
    assert(s.subrange(at_c, at_d) =~= c);
    assert(s.subrange(at_d, at_e) =~= d);
    assert(s.subrange(at_e, at_f) =~= e);
    assert(s.subrange(at_f, at_f + f.len()) =~= f);
}

/// A part of a part is a part of the whole.
proof fn lemma_part_of_part(s: Seq<u8>, from: int, to: int, a: int, b: int)
    requires
        0 <= from <= to <= s.len(),
        0 <= a <= b <= to - from,
    ensures
        s.subrange(from, to).subrange(a, b) == s.subrange(from + a, from + b),
{
    assert(s.subrange(from, to).subrange(a, b) =~= s.subrange(from + a, from + b));
}

/// How a label stream is laid out: the ten bracketed commands and the raster
/// rows stand at fixed places, and the end-of-data byte follows the last row.
pub proof fn lemma_stream_layout(r: Raster, width_bits: int)
    requires
        0 <= width_bits,
    ensures
        ({
            let s = label_stream(r, width_bits);
            let rows_room = r.width * row_len(width_bits);
            &&& 0 <= rows_room
            &&& s.len() == rows_offset() + rows_room + 7
            &&& s.subrange(0, 6) == bracketed(seq![0x40u8])
            &&& s.subrange(6, 16) == bracketed(seq![0x7bu8, 0x00u8, 0x00u8, 0x53u8, 0x54u8])
            &&& s.subrange(16, 26) == bracketed(seq![0x43u8, 0x02u8, 0x02u8, 0x01u8, 0x01u8])
            &&& s.subrange(26, 33) == bracketed(seq![0x44u8, 0x05u8])
            &&& s.subrange(33, 39) == bracketed(seq![0x47u8])
            &&& s.subrange(39, 49) == tape_length_command(r.width as u32)
            &&& s.subrange(49, 57) == bracketed(seq![0x54u8, 0x2au8, 0x00u8])
            &&& s.subrange(57, 64) == bracketed(seq![0x48u8, 0x05u8])
            &&& s.subrange(64, 71) == bracketed(seq![0x73u8, 0x00u8])
            &&& s.subrange(rows_offset(), rows_offset() + rows_room) == raster_rows(
                r,
                width_bits,
                r.width,
            )
            &&& s[rows_offset() + rows_room] == END_OF_DATA
            &&& s.subrange(rows_offset() + rows_room + 1, rows_offset() + rows_room + 7)
                == bracketed(seq![0x40u8])
        }),
{
    let s = label_stream(r, width_bits);
    let rows = raster_rows(r, width_bits, r.width);
    let rows_room = r.width * row_len(width_bits);
    let end = seq![END_OF_DATA];
    lemma_rows_len(r, width_bits, r.width);
    lemma_fixed_parts();
    lemma_bracketed_checksum_identity(seq![0x4cu8] + spec_le_bytes(r.width as u32));
    lemma_six_parts(
        prologue(),
        tape_length_command(r.width as u32),
        mode_block(),
        rows,
        end,
        init_command(),
    );
    lemma_part_of_part(s, 0, 39, 0, 6);
    lemma_part_of_part(s, 0, 39, 6, 16);
    lemma_part_of_part(s, 0, 39, 16, 26);
    lemma_part_of_part(s, 0, 39, 26, 33);
    lemma_part_of_part(s, 0, 39, 33, 39);
    lemma_part_of_part(s, 49, 71, 0, 8);
    lemma_part_of_part(s, 49, 71, 8, 15);
    lemma_part_of_part(s, 49, 71, 15, 22);
    assert(s.subrange(71 + rows_room, 71 + rows_room + 1)[0] == s[71 + rows_room]);
    assert(end[0] == END_OF_DATA);
}

/// Where the fixed commands stand in the prologue and in the mode block.
proof fn lemma_fixed_parts()
    ensures
        init_command().len() == 6,
        init_command() == bracketed(seq![0x40u8]),
        prologue().len() == 39,
        prologue().subrange(0, 6) == bracketed(seq![0x40u8]),
        prologue().subrange(6, 16) == bracketed(seq![0x7bu8, 0x00u8, 0x00u8, 0x53u8, 0x54u8]),
        prologue().subrange(16, 26) == bracketed(seq![0x43u8, 0x02u8, 0x02u8, 0x01u8, 0x01u8]),
        prologue().subrange(26, 33) == bracketed(seq![0x44u8, 0x05u8]),
        prologue().subrange(33, 39) == bracketed(seq![0x47u8]),
        mode_block().len() == 22,
        mode_block().subrange(0, 8) == bracketed(seq![0x54u8, 0x2au8, 0x00u8]),
        mode_block().subrange(8, 15) == bracketed(seq![0x48u8, 0x05u8]),
        mode_block().subrange(15, 22) == bracketed(seq![0x73u8, 0x00u8]),
{
    lemma_fixed_commands();
    let e = Seq::<u8>::empty();
    let c1 = bracketed(seq![0x40u8]);
    let c2 = bracketed(seq![0x7bu8, 0x00u8, 0x00u8, 0x53u8, 0x54u8]);
    let c3 = bracketed(seq![0x43u8, 0x02u8, 0x02u8, 0x01u8, 0x01u8]);
    let c4 = bracketed(seq![0x44u8, 0x05u8]);
    let c5 = bracketed(seq![0x47u8]);
    lemma_six_parts(c1, c2, c3, c4, c5, e);
    assert(c1 + c2 + c3 + c4 + c5 + e =~= c1 + c2 + c3 + c4 + c5);
    let m1 = bracketed(seq![0x54u8, 0x2au8, 0x00u8]);
    let m2 = bracketed(seq![0x48u8, 0x05u8]);
    let m3 = bracketed(seq![0x73u8, 0x00u8]);
    lemma_six_parts(m1, m2, m3, e, e, e);
    assert(m1 + m2 + m3 + e + e + e =~= m1 + m2 + m3);
}

/// What the reader reports of a well-formed label.
pub open spec fn label_summary(r: Raster) -> Summary {
    Summary { commands: 10, data_rows: r.width, tape_len: Some(r.width as u32) }
}

/// The reader accepts every label stream and finds in it ten bracketed
/// commands, one raster row for each column of the raster and the width of
/// the raster as the declared tape length.
pub proof fn lemma_label_stream_parses(r: Raster, width_bits: int)
    requires
        r.width <= u32::MAX,
        0 <= width_bits < 0x1_0000,
        width_bits % 8 == 0,
    ensures
        spec_analyze(label_stream(r, width_bits)) == Ok::<Summary, crate::error::Error>(
            label_summary(r),
        ),
{
    let s = label_stream(r, width_bits);
    let rows_room = r.width * row_len(width_bits);
    let w = r.width as u32;
    lemma_stream_layout(r, width_bits);
    lemma_le_round_trip(w);
    let a0 = Summary { commands: 0, data_rows: 0, tape_len: None };
    let a1 = after_command(a0, None);
    let a2 = after_command(a1, None);
    let a3 = after_command(a2, None);
    let a4 = after_command(a3, None);
    let a5 = after_command(a4, None);
    let a6 = after_command(a5, Some(w));
    let a7 = after_command(a6, None);
    let a8 = after_command(a7, None);
    let a9 = after_command(a8, None);
    let a10 = after_rows(a9, r.width);
    let a11 = after_command(a10, None);
    lemma_command_at(s, 0, seq![0x40u8], a0);
    lemma_command_at(s, 6, seq![0x7bu8, 0x00u8, 0x00u8, 0x53u8, 0x54u8], a1);
    lemma_command_at(s, 16, seq![0x43u8, 0x02u8, 0x02u8, 0x01u8, 0x01u8], a2);
    lemma_command_at(s, 26, seq![0x44u8, 0x05u8], a3);
    lemma_command_at(s, 33, seq![0x47u8], a4);
    let length_body = seq![0x4cu8] + spec_le_bytes(w);
    assert(length_body.subrange(1, 5) =~= spec_le_bytes(w));
    assert(declared_tape_len(length_body) == Some(w));
    lemma_command_at(s, 39, length_body, a5);
    lemma_command_at(s, 49, seq![0x54u8, 0x2au8, 0x00u8], a6);
    lemma_command_at(s, 57, seq![0x48u8, 0x05u8], a7);
    lemma_command_at(s, 64, seq![0x73u8, 0x00u8], a8);
    assert(parse_from(s, 0, a0) == parse_from(s, 71, a9));
    lemma_rows_at(s, 71, r, width_bits, r.width, a9);
    assert(parse_from(s, 71 + rows_room, a10) == parse_from(s, 71 + rows_room + 1, a10));
    lemma_command_at(s, 71 + rows_room + 1, seq![0x40u8], a10);
    assert(parse_from(s, 71 + rows_room + 7, a11) == Ok::<Summary, crate::error::Error>(a11));
    assert(a11 == label_summary(r));
}

/// What the encoder emits for a raster and a known tape, the reader accepts,
/// and it counts as many raster rows as the raster is wide.
pub proof fn lemma_encoder_output_parses(r: Raster, kind: Tape)
    requires
        r.width <= u32::MAX,
        kind.is_known(),
    ensures
        spec_analyze(label_stream(r, kind.spec_width_px())) == Ok::<Summary, crate::error::Error>(
            label_summary(r),
        ),
        label_summary(r).data_rows == r.width,
{
    lemma_width_px_byte_aligned(kind);
    lemma_label_stream_parses(r, kind.spec_width_px());
}

/// Every bracketed command of a label stream, the ten of them, is sound: its
/// payload bytes before the sentinel sum, modulo 256, to twice its checksum.
pub proof fn lemma_stream_commands_sound(r: Raster, width_bits: int)
    requires
        r.width <= u32::MAX,
        0 <= width_bits,
    ensures
        ({
            let s = label_stream(r, width_bits);
            let after_rows = rows_offset() + r.width * row_len(width_bits) + 1;
            &&& frame_ok(s, 0)
            &&& frame_ok(s, 6)
            &&& frame_ok(s, 16)
            &&& frame_ok(s, 26)
            &&& frame_ok(s, 33)
            &&& frame_ok(s, 39)
            &&& frame_ok(s, 49)
            &&& frame_ok(s, 57)
            &&& frame_ok(s, 64)
            &&& frame_ok(s, after_rows)
        }),
{
    let s = label_stream(r, width_bits);
    let rows_room = r.width * row_len(width_bits);
    let a = Summary { commands: 0, data_rows: 0, tape_len: None };
    lemma_stream_layout(r, width_bits);
    lemma_command_at(s, 0, seq![0x40u8], a);
    lemma_command_at(s, 6, seq![0x7bu8, 0x00u8, 0x00u8, 0x53u8, 0x54u8], a);
    lemma_command_at(s, 16, seq![0x43u8, 0x02u8, 0x02u8, 0x01u8, 0x01u8], a);
    lemma_command_at(s, 26, seq![0x44u8, 0x05u8], a);
    lemma_command_at(s, 33, seq![0x47u8], a);
    lemma_command_at(s, 39, seq![0x4cu8] + spec_le_bytes(r.width as u32), a);
    lemma_command_at(s, 49, seq![0x54u8, 0x2au8, 0x00u8], a);
    lemma_command_at(s, 57, seq![0x48u8, 0x05u8], a);
    lemma_command_at(s, 64, seq![0x73u8, 0x00u8], a);
    lemma_command_at(s, 71 + rows_room + 1, seq![0x40u8], a);
}

/// Whether bit `dx` of `b` is set, bit 0 being the lowest.
pub open spec fn bit_of(b: u8, dx: int) -> bool {
    (b as int / bit_weight(dx)) % 2 == 1
}

/// A packed byte written out as the sum of its eight bits.
proof fn lemma_packed_bits_unfold(r: Raster, col: int, base: int)
    ensures
        packed_bits(r, col, base, 8) == (if r.get(col, base + 7) { 1int } else { 0 }) + (if r.get(
            col,
            base + 6,
        ) { 2int } else { 0 }) + (if r.get(col, base + 5) { 4int } else { 0 }) + (if r.get(
            col,
            base + 4,
        ) { 8int } else { 0 }) + (if r.get(col, base + 3) { 16int } else { 0 }) + (if r.get(
            col,
            base + 2,
        ) { 32int } else { 0 }) + (if r.get(col, base + 1) { 64int } else { 0 }) + (if r.get(
            col,
            base,
        ) { 128int } else { 0 }),
{
    reveal_with_fuel(packed_bits, 9);
}

/// Each binary digit of a number below 256 can be read off by dividing.
proof fn lemma_binary_digits(
    v: u32,
    t0: u32,
    t1: u32,
    t2: u32,
    t3: u32,
    t4: u32,
    t5: u32,
    t6: u32,
    t7: u32,
)
    by (bit_vector)
    requires
        t0 <= 1,
        t1 <= 1,
        t2 <= 1,
        t3 <= 1,
        t4 <= 1,
        t5 <= 1,
        t6 <= 1,
        t7 <= 1,
        v == t0 + 2 * t1 + 4 * t2 + 8 * t3 + 16 * t4 + 32 * t5 + 64 * t6 + 128 * t7,
    ensures
        v < 256,
        (v / 1) % 2 == t0,
        (v / 2) % 2 == t1,
        (v / 4) % 2 == t2,
        (v / 8) % 2 == t3,
        (v / 16) % 2 == t4,
        (v / 32) % 2 == t5,
        (v / 64) % 2 == t6,
        (v / 128) % 2 == t7,
{
}

/// Bit `dx` of a packed byte is set exactly where the pixel at row
/// `base + 7 - dx` is: the first pixel of the eight sits in the highest bit.
pub proof fn lemma_packed_bit(r: Raster, col: int, base: int, dx: int)
    requires
        0 <= dx < 8,
    ensures
        0 <= packed_bits(r, col, base, 8) < 256,
        bit_of(packed_bits(r, col, base, 8) as u8, dx) == r.get(col, base + 7 - dx),
{
    let t0: u32 = if r.get(col, base + 7) { 1 } else { 0 };
    let t1: u32 = if r.get(col, base + 6) { 1 } else { 0 };
    let t2: u32 = if r.get(col, base + 5) { 1 } else { 0 };
    let t3: u32 = if r.get(col, base + 4) { 1 } else { 0 };
    let t4: u32 = if r.get(col, base + 3) { 1 } else { 0 };
    let t5: u32 = if r.get(col, base + 2) { 1 } else { 0 };
    let t6: u32 = if r.get(col, base + 1) { 1 } else { 0 };
    let t7: u32 = if r.get(col, base) { 1 } else { 0 };
    lemma_packed_bits_unfold(r, col, base);
    let v: u32 = (t0 + 2 * t1 + 4 * t2 + 8 * t3 + 16 * t4 + 32 * t5 + 64 * t6 + 128 * t7) as u32;
    assert(v == packed_bits(r, col, base, 8));
    lemma_binary_digits(v, t0, t1, t2, t3, t4, t5, t6, t7);
}

/// Where in a label stream the data byte that holds pixel `k` of output row
/// `y` stands.
pub open spec fn pixel_byte_offset(width_bits: int, y: int, k: int) -> int {
    rows_offset() + y * row_len(width_bits) + 8 + k / 8
}

/// The raster rows of a label stream stand together behind its first 71 bytes.
pub proof fn lemma_stream_rows_part(r: Raster, width_bits: int)
    requires
        0 <= width_bits,
    ensures
        0 <= r.width * row_len(width_bits),
        label_stream(r, width_bits).len() == rows_offset() + r.width * row_len(width_bits) + 7,
        label_stream(r, width_bits).subrange(
            rows_offset(),
            rows_offset() + r.width * row_len(width_bits),
        ) == raster_rows(r, width_bits, r.width),
{
    lemma_stream_layout(r, width_bits);
}

/// The raster command of output row `y` stands in a label stream behind the
/// first 71 bytes and the commands of the rows before it.
pub proof fn lemma_stream_row(r: Raster, width_bits: int, y: int)
    requires
        0 <= width_bits,
        0 <= y < r.width,
    ensures
        0 <= y * row_len(width_bits),
        rows_offset() + (y + 1) * row_len(width_bits) <= label_stream(r, width_bits).len(),
        (y + 1) * row_len(width_bits) == y * row_len(width_bits) + row_len(width_bits),
        label_stream(r, width_bits).subrange(
            rows_offset() + y * row_len(width_bits),
            rows_offset() + (y + 1) * row_len(width_bits),
        ) == raster_row(r, y, width_bits),
{
    let s = label_stream(r, width_bits);
    let room = row_len(width_bits);
    lemma_stream_rows_part(r, width_bits);
    lemma_rows_layout(r, width_bits, r.width, y);
    lemma_rows_room(y, width_bits);
    lemma_part_of_part(s, 71, 71 + r.width * room, y * room, (y + 1) * room);
}

/// Reading the data of output row `y` most significant bit first, bit `k` of
/// the row is the pixel at column `width - 1 - y`, row `k` of the raster.
pub proof fn lemma_encoded_bit(r: Raster, width_bits: int, y: int, k: int)
    requires
        0 <= width_bits,
        width_bits % 8 == 0,
        0 <= y < r.width,
        0 <= k < width_bits,
    ensures
        0 <= pixel_byte_offset(width_bits, y, k) < label_stream(r, width_bits).len(),
        raster_row(r, y, width_bits)[8 + k / 8] == label_stream(r, width_bits)[pixel_byte_offset(
            width_bits,
            y,
            k,
        )],
        bit_of(label_stream(r, width_bits)[pixel_byte_offset(width_bits, y, k)], 7 - k % 8)
            == r.get(r.width - 1 - y, k),
{
    let s = label_stream(r, width_bits);
    let room = row_len(width_bits);
    let row = raster_row(r, y, width_bits);
    let from = 71 + y * room;
    let at = 8 + k / 8;
    lemma_stream_row(r, width_bits, y);
    assert(0 <= at < room);
    assert(s.subrange(from, from + room)[at] == s[from + at]);
    assert(row[at] == row_byte(r, y, k / 8));
    lemma_packed_bit(r, r.width - 1 - y, (k / 8) * 8, 7 - k % 8);
}

} // verus!
