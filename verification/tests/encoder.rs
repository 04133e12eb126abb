use sr5900p::analyzer::{analyze_tcp_data, StreamReport};
use sr5900p::display::TapeDisplay;
use sr5900p::error::Error;
use sr5900p::print::{checksum_of, gen_tcp_data};
use sr5900p::tape::{tape_width_px, Tape};

const PROLOGUE: [u8; 39] = [
    0x1b, 0x7b, 3, 0x40, 0x40, 0x7d, //
    0x1b, 0x7b, 7, 0x7b, 0x00, 0x00, 0x53, 0x54, 0x22, 0x7d, //
    0x1b, 0x7b, 7, 0x43, 0x02, 0x02, 0x01, 0x01, 0x49, 0x7d, //
    0x1b, 0x7b, 4, 0x44, 0x05, 0x49, 0x7d, //
    0x1b, 0x7b, 3, 0x47, 0x47, 0x7d,
];
const MODE: [u8; 22] = [
    0x1b, 0x7b, 5, 0x54, 0x2a, 0x00, 0x7e, 0x7d, //
    0x1b, 0x7b, 4, 0x48, 0x05, 0x4d, 0x7d, //
    0x1b, 0x7b, 4, 0x73, 0x00, 0x73, 0x7d,
];
const EPILOGUE: [u8; 6] = [0x1b, 0x7b, 3, 0x40, 0x40, 0x7d];
const KNOWN: [Tape; 7] =
    [Tape::W4, Tape::W6, Tape::W9, Tape::W12, Tape::W18, Tape::W24, Tape::W36];

fn bit_msb_first(data: &[u8], k: usize) -> bool {
    (data[k / 8] >> (7 - k % 8)) & 1 == 1
}

#[test]
fn single_row_label_is_bit_exact() {
    let mut td = TapeDisplay::new(1, 72);
    td.set_pixel(0, 0, true);
    td.set_pixel(0, 9, true);
    td.set_pixel(0, 71, true);
    let data = gen_tcp_data(&td, &Tape::W6).unwrap();
    let mut expected = PROLOGUE.to_vec();
    expected.extend_from_slice(&[0x1b, 0x7b, 7, 0x4c, 1, 0, 0, 0, 0x4d, 0x7d]);
    expected.extend_from_slice(&MODE);
    expected.extend_from_slice(&[0x1b, 0x2e, 0, 0, 0, 1, 72, 0]);
    expected.extend_from_slice(&[0x80, 0x40, 0, 0, 0, 0, 0, 0, 0x01]);
    expected.push(0x0c);
    expected.extend_from_slice(&EPILOGUE);
    assert_eq!(data, expected);
}

#[test]
fn single_row_label_analyzes_to_one_row() {
    let td = TapeDisplay::new(1, 288);
    let data = gen_tcp_data(&td, &Tape::W24).unwrap();
    assert_eq!(&data[71..79], &[0x1b, 0x2e, 0, 0, 0, 1, 0x20, 0x01]);
    assert_eq!(data.len(), 71 + 8 + 36 + 1 + 6);
    assert_eq!(data[71 + 8 + 36], 0x0c);
    assert_eq!(&data[data.len() - 6..], &EPILOGUE);
    let report = analyze_tcp_data(&data).unwrap();
    assert_eq!(report.num_data_rows, 1);
    assert_eq!(
        report,
        StreamReport { num_commands: 10, num_data_rows: 1, tape_len: Some(1) }
    );
}

#[test]
fn tape_length_command_for_288() {
    let td = TapeDisplay::new(288, 8);
    let data = gen_tcp_data(&td, &Tape::W4).unwrap();
    assert_eq!(&data[39..49], &[0x1b, 0x7b, 7, 0x4c, 0x20, 0x01, 0x00, 0x00, 0x6d, 0x7d]);
    assert_eq!(checksum_of(&[0x4c, 0x20, 0x01, 0x00, 0x00]), 0x6d);
    let without_sentinel: u32 = data[42..48].iter().map(|b| *b as u32).sum();
    assert_eq!(without_sentinel % 256, (2 * 0x6d) % 256);
}

#[test]
fn tape_length_is_little_endian() {
    let td = TapeDisplay::new(0x0102, 0);
    let data = gen_tcp_data(&td, &Tape::W4).unwrap();
    assert_eq!(&data[42..47], &[0x4c, 0x02, 0x01, 0x00, 0x00]);
    assert_eq!(data[47], 0x4c + 0x02 + 0x01);
    assert_eq!(analyze_tcp_data(&data).unwrap().tape_len, Some(0x0102));
}

#[test]
fn checksum_wraps_modulo_256() {
    assert_eq!(checksum_of(&[]), 0);
    assert_eq!(checksum_of(&[0x40]), 0x40);
    assert_eq!(checksum_of(&[0xff, 0x02]), 0x01);
    assert_eq!(checksum_of(&[0x80, 0x80]), 0x00);
    assert_eq!(checksum_of(&[0xff; 253]), ((0xffu32 * 253) % 256) as u8);
}

#[test]
fn empty_label_has_no_rows() {
    let td = TapeDisplay::new(0, 40);
    let data = gen_tcp_data(&td, &Tape::W4).unwrap();
    let mut expected = PROLOGUE.to_vec();
    expected.extend_from_slice(&[0x1b, 0x7b, 7, 0x4c, 0, 0, 0, 0, 0x4c, 0x7d]);
    expected.extend_from_slice(&MODE);
    expected.push(0x0c);
    expected.extend_from_slice(&EPILOGUE);
    assert_eq!(data, expected);
    assert_eq!(
        analyze_tcp_data(&data),
        Ok(StreamReport { num_commands: 10, num_data_rows: 0, tape_len: Some(0) })
    );
}

#[test]
fn unknown_tape_is_unsupported() {
    let td = TapeDisplay::new(3, 8);
    assert_eq!(gen_tcp_data(&td, &Tape::UnknownIndex(0)), Err(Error::UnsupportedTape));
    assert_eq!(gen_tcp_data(&td, &Tape::UnknownIndex(200)), Err(Error::UnsupportedTape));
}

#[test]
fn rows_run_from_the_far_end_of_the_tape() {
    let mut td = TapeDisplay::new(2, 40);
    td.set_pixel(1, 0, true);
    td.set_pixel(0, 39, true);
    let data = gen_tcp_data(&td, &Tape::W4).unwrap();
    let row0 = &data[71..71 + 13];
    let row1 = &data[71 + 13..71 + 26];
    assert_eq!(row0, &[0x1b, 0x2e, 0, 0, 0, 1, 40, 0, 0x80, 0, 0, 0, 0]);
    assert_eq!(row1, &[0x1b, 0x2e, 0, 0, 0, 1, 40, 0, 0, 0, 0, 0, 0x01]);
}

#[test]
fn every_encoded_bit_is_the_mapped_pixel() {
    let mut td = TapeDisplay::new(5, 72);
    for x in 0..5usize {
        for y in 0..72usize {
            td.set_pixel(x, y, (x * 7 + y * 3) % 5 < 2);
        }
    }
    let data = gen_tcp_data(&td, &Tape::W6).unwrap();
    let row_len = 8 + 72 / 8;
    let mut set = 0;
    for y in 0..td.width {
        let row = &data[71 + y * row_len..71 + (y + 1) * row_len];
        assert_eq!(&row[..8], &[0x1b, 0x2e, 0, 0, 0, 1, 72, 0]);
        for k in 0..72usize {
            let bit = bit_msb_first(&row[8..], k);
            assert_eq!(bit, td.get_pixel(td.width - 1 - y, k));
            set += bit as usize;
        }
    }
    assert!(set > 0);
}

#[test]
fn raster_narrower_or_wider_than_the_tape() {
    // narrower: missing rows print blank
    let mut td = TapeDisplay::new(1, 4);
    td.set_pixel(0, 3, true);
    let data = gen_tcp_data(&td, &Tape::W4).unwrap();
    assert_eq!(&data[71..84], &[0x1b, 0x2e, 0, 0, 0, 1, 40, 0, 0x10, 0, 0, 0, 0]);
    // wider: rows beyond the tape width are dropped
    let mut td = TapeDisplay::new(1, 48);
    td.set_pixel(0, 39, true);
    td.set_pixel(0, 40, true);
    td.set_pixel(0, 47, true);
    let data = gen_tcp_data(&td, &Tape::W4).unwrap();
    assert_eq!(&data[71..84], &[0x1b, 0x2e, 0, 0, 0, 1, 40, 0, 0, 0, 0, 0, 0x01]);
    assert_eq!(data.len(), 71 + 13 + 7);
}

#[test]
fn encoder_output_round_trips_for_every_known_tape() {
    for (i, kind) in KNOWN.iter().enumerate() {
        let width = 3 + i * 5;
        let bits = tape_width_px(kind).unwrap() as usize;
        let mut td = TapeDisplay::new(width, bits);
        for x in 0..width {
            td.set_pixel(x, (x * 11) % bits, true);
            td.set_pixel(x, bits - 1, true);
        }
        let data = gen_tcp_data(&td, kind).unwrap();
        assert_eq!(data.len(), 71 + width * (8 + bits / 8) + 7);
        let report = analyze_tcp_data(&data).unwrap();
        assert_eq!(report.num_data_rows, td.width);
        assert_eq!(report.num_commands, 10);
        assert_eq!(report.tape_len, Some(width as u32));
    }
}

#[test]
fn every_bracketed_command_satisfies_the_checksum_identity() {
    let mut td = TapeDisplay::new(300, 40);
    td.set_pixel(17, 3, true);
    let data = gen_tcp_data(&td, &Tape::W4).unwrap();
    let mut i = 0;
    let mut commands = 0;
    while i < data.len() {
        if data[i] == 0x0c {
            i += 1;
        } else if data[i + 1] == 0x7b {
            let n = data[i + 2] as usize;
            let payload = &data[i + 3..i + 3 + n];
            assert_eq!(payload[n - 1], 0x7d);
            let sum: u32 = payload[..n - 1].iter().map(|b| *b as u32).sum();
            assert_eq!(sum % 256, (2 * payload[n - 2] as u32) % 256);
            commands += 1;
            i += 3 + n;
        } else {
            assert_eq!(data[i + 1], 0x2e);
            i += 8 + 5;
        }
    }
    assert_eq!(commands, 10);
}
