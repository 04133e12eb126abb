use sr5900p::error::Error;
use sr5900p::protocol::{
    check_notify_open, check_notify_ready, decode_header, encode_header, encode_request,
    notify_open_request,
    notify_ready_request, split_response, NotifyReady, PacketHeader, Sliceable,
    StartPrintRequest, StatusRequest, StopPrintRequest, HEADER_LEN,
};
use sr5900p::status::{classify, PrinterStatus};
use sr5900p::tape::Tape;

fn request_bytes(cmd: [u8; 4], size: [u8; 4]) -> Vec<u8> {
    let mut v = vec![0x54, 0x50, 0x52, 0x54, 0, 0, 0, 0, 0, 0, 0, 1, 0, 0, 0, 0x20];
    v.extend_from_slice(&cmd);
    v.extend_from_slice(&size);
    v.extend_from_slice(&[0; 8]);
    v
}

fn response(body: &[u8]) -> Vec<u8> {
    let mut v = vec![0x74, 0x70, 0x72, 0x74, 0, 0, 0, 0, 0, 0, 0, 1, 0, 0, 0, 0x20];
    v.extend_from_slice(&[0, 0, 0, 1]);
    v.extend_from_slice(&(body.len() as u32).to_be_bytes());
    v.extend_from_slice(&[192, 168, 0, 7]);
    v.extend_from_slice(&[0xde, 0xad, 0xbe, 0xef]);
    v.extend_from_slice(body);
    v
}

const IDLE: [u8; 20] = [0x20, 0, 0, 4, 0, 0, 0, 0, 0x40, 0, 0, 0, 0, 0, 0, 0, 0, 0, 0, 0];
const PRINTING: [u8; 20] = [0x20, 2, 0, 4, 0, 0, 0, 0, 0x40, 0, 0, 0, 0, 0, 0, 0, 0, 0, 0, 0];
const COMPLETED: [u8; 20] = [0x20, 0, 0, 4, 0, 0, 0, 0, 0x40, 0, 0, 0, 0, 1, 0, 0, 0, 0, 0, 0];
const EXHAUSTED: [u8; 20] =
    [0x20, 0, 0x42, 4, 0, 0, 0, 0, 0x40, 0, 0, 0x40, 0, 0, 0x42, 0, 0x40, 0, 0, 0];

#[test]
fn request_header_is_bit_exact() {
    let bytes = encode_header(0x0001, 0);
    assert_eq!(bytes.len(), 32);
    assert_eq!(bytes, request_bytes([0, 0, 0, 1], [0, 0, 0, 0]));
    let bytes = encode_header(0x0101, 0x0102_0304);
    assert_eq!(bytes, request_bytes([0, 0, 1, 1], [1, 2, 3, 4]));
    let bytes = encode_header(0xffff_ffff, 0xfffe_fdfc);
    assert_eq!(bytes, request_bytes([0xff; 4], [0xff, 0xfe, 0xfd, 0xfc]));
}

#[test]
fn new_request_fills_the_fixed_fields() {
    let h = PacketHeader::new_request(0x0100, 7);
    assert_eq!(h.signature, *b"TPRT");
    assert_eq!(h.const00, 0);
    assert_eq!(h.const01, 1);
    assert_eq!(h.const20, 0x20);
    assert_eq!(h.cmd, 0x0100);
    assert_eq!(h.data_size, 7);
    assert_eq!(h.ip_addr, 0);
    assert_eq!(h.token, 0);
    assert_eq!(h.encode(), encode_header(0x0100, 7));
    assert_eq!(HEADER_LEN, 32);
}

#[test]
fn decode_header_reads_big_endian_fields() {
    let bytes = response(&[1, 2, 3]);
    let h = decode_header(&bytes).unwrap();
    assert_eq!(h.signature, *b"tprt");
    assert_eq!(h.const00, 0);
    assert_eq!(h.const01, 1);
    assert_eq!(h.const20, 0x20);
    assert_eq!(h.cmd, 1);
    assert_eq!(h.data_size, 3);
    assert_eq!(h.ip_addr, 0xc0a8_0007);
    assert_eq!(h.token, 0xdead_beef);
}

#[test]
fn decode_header_fails_below_32_bytes() {
    assert_eq!(decode_header(&[]), Err(Error::Truncated));
    assert_eq!(decode_header(&[0x74; 31]), Err(Error::Truncated));
    assert!(decode_header(&[0x74; 32]).is_ok());
}

#[test]
fn decode_header_does_not_validate() {
    let bytes: Vec<u8> = (100u8..132).collect();
    let h = decode_header(&bytes).unwrap();
    assert_eq!(h.signature, [100, 101, 102, 103]);
    assert_eq!(h.const00, 0x6869_6a6b);
    assert_eq!(h.encode(), bytes);
}

#[test]
fn header_round_trip() {
    let h = PacketHeader {
        signature: *b"tprt",
        const00: 0x0102_0304,
        const01: 0xffff_ffff,
        const20: 0,
        cmd: 0x8000_0001,
        data_size: 20,
        ip_addr: 0x0a00_0001,
        token: 0x1234_5678,
    };
    let bytes = h.encode();
    assert_eq!(bytes.len(), 32);
    assert_eq!(decode_header(&bytes), Ok(h));
    assert_eq!(PacketHeader::copy_from_slice(&h.copy_into_slice()), Ok(h));
}

#[test]
fn requests_carry_their_command() {
    assert_eq!(StatusRequest::new().copy_into_slice(), request_bytes([0, 0, 0, 1], [0; 4]));
    assert_eq!(StartPrintRequest::new().copy_into_slice(), request_bytes([0, 0, 0, 2], [0; 4]));
    assert_eq!(StopPrintRequest::new().copy_into_slice(), request_bytes([0, 0, 0, 3], [0; 4]));
    assert_eq!(notify_open_request().encode(), request_bytes([0, 0, 1, 1], [0; 4]));
    assert_eq!(notify_ready_request().encode(), request_bytes([0, 0, 1, 0], [0; 4]));
    assert_eq!(StatusRequest::new().copy_into_slice().len(), 32);
}

#[test]
fn requests_read_back_from_bytes() {
    let bytes = request_bytes([0, 0, 0, 2], [0; 4]);
    assert_eq!(StartPrintRequest::copy_from_slice(&bytes), Ok(StartPrintRequest::new()));
    assert_eq!(StatusRequest::copy_from_slice(&bytes[..31]), Err(Error::Truncated));
    assert_eq!(StopPrintRequest::copy_from_slice(&[]), Err(Error::Truncated));
    let mut longer = request_bytes([0, 0, 0, 1], [0; 4]);
    longer.push(9);
    assert_eq!(StatusRequest::copy_from_slice(&longer), Ok(StatusRequest::new()));
}

#[test]
fn split_response_parts_header_and_body() {
    let resp = response(&[9, 8, 7]);
    let (h, body) = split_response(&resp).unwrap();
    assert_eq!(h.token, 0xdead_beef);
    assert_eq!(body, &[9, 8, 7]);
    let resp = response(&[]);
    let (_, body) = split_response(&resp).unwrap();
    assert!(body.is_empty());
    assert_eq!(split_response(&resp[..31]).err(), Some(Error::ShortResponse));
}

#[test]
fn status_with_tape_index_4_is_w18() {
    let st = StatusRequest::parse_response(&response(&IDLE));
    assert_eq!(st, Ok(PrinterStatus::SomeTape(Tape::W18)));
}

#[test]
fn status_printing() {
    assert_eq!(StatusRequest::parse_response(&response(&PRINTING)), Ok(PrinterStatus::Printing));
    let mut body = [0u8; 20];
    body[0x01] = 2;
    assert_eq!(StatusRequest::parse_response(&response(&body)), Ok(PrinterStatus::Printing));
}

#[test]
fn status_completed_reports_the_tape() {
    let st = StatusRequest::parse_response(&response(&COMPLETED));
    assert_eq!(st, Ok(PrinterStatus::SomeTape(Tape::W18)));
    let mut body = COMPLETED;
    body[0x0d] = 2;
    body[0x03] = 6;
    let st = StatusRequest::parse_response(&response(&body));
    assert_eq!(st, Ok(PrinterStatus::SomeTape(Tape::W36)));
}

#[test]
fn status_no_tape_and_cover_open() {
    let mut body = IDLE;
    body[0x02] = 0x06;
    assert_eq!(StatusRequest::parse_response(&response(&body)), Ok(PrinterStatus::NoTape));
    body[0x02] = 0x21;
    assert_eq!(
        StatusRequest::parse_response(&response(&body)),
        Ok(PrinterStatus::CoverIsOpened)
    );
}

#[test]
fn status_unknown_tape_index_is_kept() {
    let mut body = IDLE;
    body[0x03] = 0;
    assert_eq!(
        StatusRequest::parse_response(&response(&body)),
        Ok(PrinterStatus::SomeTape(Tape::UnknownIndex(0)))
    );
    body[0x03] = 7;
    assert_eq!(
        StatusRequest::parse_response(&response(&body)),
        Ok(PrinterStatus::SomeTape(Tape::UnknownIndex(7)))
    );
}

#[test]
fn status_exhausted_is_unknown_and_keeps_header_and_body() {
    let resp = response(&EXHAUSTED);
    let header = decode_header(&resp).unwrap();
    let st = StatusRequest::parse_response(&resp);
    assert_eq!(st, Ok(PrinterStatus::Unknown(header, EXHAUSTED)));
    assert_eq!(header.token, 0xdead_beef);
}

#[test]
fn status_other_unknown_shapes() {
    let header = PacketHeader::new_request(1, 20);
    // printing with a non-zero byte 13
    let mut body = PRINTING;
    body[0x0d] = 1;
    assert_eq!(classify(header, body), PrinterStatus::Unknown(header, body));
    // idle with byte 13 beyond 2
    let mut body = IDLE;
    body[0x0d] = 3;
    assert_eq!(classify(header, body), PrinterStatus::Unknown(header, body));
    // byte 1 neither 0 nor 2
    let mut body = IDLE;
    body[0x01] = 1;
    assert_eq!(classify(header, body), PrinterStatus::Unknown(header, body));
    assert_eq!(classify(header, IDLE), PrinterStatus::SomeTape(Tape::W18));
}

#[test]
fn status_response_shape_errors() {
    assert_eq!(StatusRequest::parse_response(&[]), Err(Error::ShortResponse));
    assert_eq!(StatusRequest::parse_response(&response(&IDLE)[..31]), Err(Error::ShortResponse));
    assert_eq!(StatusRequest::parse_response(&response(&[])), Err(Error::ShapeMismatch));
    assert_eq!(StatusRequest::parse_response(&response(&IDLE[..19])), Err(Error::ShapeMismatch));
    assert_eq!(StatusRequest::parse_response(&response(&[0; 21])), Err(Error::ShapeMismatch));
}

#[test]
fn status_predicates() {
    assert!(PrinterStatus::SomeTape(Tape::W6).has_tape());
    assert!(!PrinterStatus::NoTape.has_tape());
    assert!(!PrinterStatus::Printing.has_tape());
    assert!(PrinterStatus::Printing.is_printing());
    assert!(!PrinterStatus::CoverIsOpened.is_printing());
}

#[test]
fn start_print_response() {
    assert_eq!(StartPrintRequest::check_response(&response(&[2, 0, 0])), Ok(()));
    assert_eq!(
        StartPrintRequest::check_response(&response(&[3, 0, 0])),
        Err(Error::StartRejected)
    );
    assert_eq!(
        StartPrintRequest::check_response(&response(&[2, 0, 1])),
        Err(Error::StartRejected)
    );
    assert_eq!(StartPrintRequest::check_response(&response(&[2, 0])), Err(Error::StartRejected));
    assert_eq!(
        StartPrintRequest::check_response(&response(&[2, 0, 0, 0])),
        Err(Error::StartRejected)
    );
    assert_eq!(StartPrintRequest::check_response(&response(&[])), Err(Error::StartRejected));
    assert_eq!(StartPrintRequest::check_response(&[0; 31]), Err(Error::ShortResponse));
}

#[test]
fn stop_print_response() {
    assert_eq!(StopPrintRequest::check_response(&response(&[3, 0, 0])), Ok(()));
    assert_eq!(
        StopPrintRequest::check_response(&response(&[2, 0, 0])),
        Err(Error::StopRejected)
    );
    assert_eq!(StopPrintRequest::check_response(&response(&[3])), Err(Error::StopRejected));
    assert_eq!(StopPrintRequest::check_response(&[]), Err(Error::ShortResponse));
}

#[test]
fn notify_open_response() {
    assert_eq!(check_notify_open(&response(&[])), Ok(()));
    assert_eq!(check_notify_open(&response(&[0])), Err(Error::NotifyOpenFailed));
    assert_eq!(check_notify_open(&response(&[])[..20]), Err(Error::ShortResponse));
}

#[test]
fn notify_ready_response() {
    assert_eq!(check_notify_ready(&response(&[0x10])), Ok(NotifyReady::Ready));
    assert_eq!(check_notify_ready(&response(&[0x00])), Ok(NotifyReady::ReadyUnusual));
    assert_eq!(check_notify_ready(&response(&[0x01])), Err(Error::NotifyReadyFailed));
    assert_eq!(check_notify_ready(&response(&[])), Err(Error::NotifyReadyFailed));
    assert_eq!(check_notify_ready(&response(&[0x10, 0])), Err(Error::NotifyReadyFailed));
    assert_eq!(check_notify_ready(&[1, 2, 3]), Err(Error::ShortResponse));
}

#[test]
fn request_datagram_is_header_then_body() {
    let out = encode_request(0x0001, &[]);
    assert_eq!(out, request_bytes([0, 0, 0, 1], [0, 0, 0, 0]));
    let out = encode_request(0x0100, &[7, 8, 9]);
    let mut expected = request_bytes([0, 0, 1, 0], [0, 0, 0, 3]);
    expected.extend_from_slice(&[7, 8, 9]);
    assert_eq!(out, expected);
    assert_eq!(out.len(), 32 + 3);
}
