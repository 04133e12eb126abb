use crate::error::Error;
use crate::status::{classify, PrinterStatus, STATUS_BODY_LEN};
use vstd::prelude::*;

verus! {

/// Length in bytes of the header that opens every control packet.
pub const HEADER_LEN: usize = 32;

/// Command code of the status query.
pub const CMD_STATUS: u32 = 0x0001;

/// Command code that opens a print job.
pub const CMD_START_PRINT: u32 = 0x0002;

/// Command code that closes a print job.
pub const CMD_STOP_PRINT: u32 = 0x0003;

/// Command code announcing that the data stream is open.
pub const CMD_NOTIFY_OPEN: u32 = 0x0101;

/// Command code announcing that data is about to be written.
pub const CMD_NOTIFY_READY: u32 = 0x0100;

/// The four bytes of `x`, most significant first.
pub open spec fn spec_be_bytes(x: u32) -> Seq<u8> {
    seq![
        (x / 0x100_0000) as u8,
        (x / 0x1_0000 % 0x100) as u8,
        (x / 0x100 % 0x100) as u8,
        (x % 0x100) as u8,
    ]
}

/// The number whose big-endian bytes are the first four of `s`.
pub open spec fn spec_be_value(s: Seq<u8>) -> u32 {
    (s[0] * 0x100_0000 + s[1] * 0x1_0000 + s[2] * 0x100 + s[3]) as u32
}

/// The magic that opens a packet sent by the host: ASCII `TPRT`.
pub open spec fn request_magic() -> Seq<u8> {
    seq![0x54u8, 0x50u8, 0x52u8, 0x54u8]
}

/// The magic that opens a packet sent by the device: ASCII `tprt`.
pub open spec fn response_magic() -> Seq<u8> {
    seq![0x74u8, 0x70u8, 0x72u8, 0x74u8]
}

/// Reading back the big-endian bytes of a number gives the number, and
/// writing out the number read from four bytes gives those bytes.
pub proof fn lemma_be_round_trip(x: u32, s: Seq<u8>)
    ensures
        spec_be_bytes(x).len() == 4,
        spec_be_value(spec_be_bytes(x)) == x,
        s.len() == 4 ==> spec_be_bytes(spec_be_value(s)) == s,
{
    assert(x / 0x100_0000 < 0x100 && (x / 0x100_0000) * 0x100_0000 + (x / 0x1_0000 % 0x100)
        * 0x1_0000 + (x / 0x100 % 0x100) * 0x100 + x % 0x100 == x) by (bit_vector);
    if s.len() == 4 {
        let b0: u32 = s[0] as u32;
        let b1: u32 = s[1] as u32;
        let b2: u32 = s[2] as u32;
        let b3: u32 = s[3] as u32;
        let v: u32 = spec_be_value(s);
        assert(v == b0 * 0x100_0000 + b1 * 0x1_0000 + b2 * 0x100 + b3);
        assert(v / 0x100_0000 == b0 && v / 0x1_0000 % 0x100 == b1 && v / 0x100 % 0x100 == b2 && v
            % 0x100 == b3) by (bit_vector)
            requires
                b0 < 0x100,
                b1 < 0x100,
                b2 < 0x100,
                b3 < 0x100,
                v == b0 * 0x100_0000 + b1 * 0x1_0000 + b2 * 0x100 + b3,
        ;
        assert(spec_be_bytes(v) =~= s);
    }
}

/// Appends the big-endian bytes of `x` to `out`.
fn push_be(out: &mut Vec<u8>, x: u32)
    ensures
        final(out)@ == old(out)@ + spec_be_bytes(x),
{
    out.push((x / 0x100_0000) as u8);
    out.push((x / 0x1_0000 % 0x100) as u8);
    out.push((x / 0x100 % 0x100) as u8);
    out.push((x % 0x100) as u8);
    assert(out@ =~= old(out)@ + spec_be_bytes(x));
}

/// Reads the big-endian number that starts at `at`.
fn read_be(data: &[u8], at: usize) -> (x: u32)
    requires
        at + 4 <= data@.len(),
    ensures
        x == spec_be_value(data@.subrange(at as int, at + 4)),
        spec_be_bytes(x) == data@.subrange(at as int, at + 4),
{
    let b0: u32 = data[at] as u32;
    let b1: u32 = data[at + 1] as u32;
    let b2: u32 = data[at + 2] as u32;
    let b3: u32 = data[at + 3] as u32;
    let x: u32 = b0 * 0x100_0000 + b1 * 0x1_0000 + b2 * 0x100 + b3;
    proof {
        lemma_be_round_trip(x, data@.subrange(at as int, at + 4));
    }
    x
}

/// The fixed header of a control packet. All numbers travel big-endian.
#[derive(Copy, Clone, Debug, PartialEq, Eq)]
pub struct PacketHeader {
    /// `TPRT` on packets from the host, `tprt` on packets from the device.
    pub signature: [u8; 4],
    /// Always written as 0; not examined when read.
    pub const00: u32,
    /// Always written as 1; not examined when read.
    pub const01: u32,
    /// Always written as 0x20; not examined when read.
    pub const20: u32,
    pub cmd: u32,
    /// Length of the body that follows the header.
    pub data_size: u32,
    pub ip_addr: u32,
    pub token: u32,
}

impl PacketHeader {
    /// The 32 bytes that stand for this header on the wire.
    pub open spec fn wire_bytes(self) -> Seq<u8> {
        self.signature@ + spec_be_bytes(self.const00) + spec_be_bytes(self.const01)
            + spec_be_bytes(self.const20) + spec_be_bytes(self.cmd) + spec_be_bytes(
            self.data_size,
        ) + spec_be_bytes(self.ip_addr) + spec_be_bytes(self.token)
    }

    /// This header is the one a host sends for `cmd` with a body of `data_size` bytes.
    pub open spec fn is_request(self, cmd: u32, data_size: u32) -> bool {
        &&& self.signature@ == request_magic()
        &&& self.const00 == 0
        &&& self.const01 == 1
        &&& self.const20 == 0x20
        &&& self.cmd == cmd
        &&& self.data_size == data_size
        &&& self.ip_addr == 0
        &&& self.token == 0
    }

    /// The bytes of the request header for `cmd` with a body of `data_size` bytes.
    pub open spec fn request_bytes(cmd: u32, data_size: u32) -> Seq<u8> {
        request_magic() + seq![0u8, 0u8, 0u8, 0u8] + seq![0u8, 0u8, 0u8, 1u8] + seq![
            0u8,
            0u8,
            0u8,
            0x20u8,
        ] + spec_be_bytes(cmd) + spec_be_bytes(data_size) + seq![0u8, 0u8, 0u8, 0u8] + seq![
            0u8,
            0u8,
            0u8,
            0u8,
        ]
    }

    /// Builds the header of a request from the host.
    pub fn new_request(cmd: u32, data_size: u32) -> (h: PacketHeader)
        ensures
            h.is_request(cmd, data_size),
            h.wire_bytes() == PacketHeader::request_bytes(cmd, data_size),
    {
        let h = PacketHeader {
            signature: [0x54, 0x50, 0x52, 0x54],
            const00: 0,
            const01: 1,
            const20: 0x20,
            cmd,
            data_size,
            ip_addr: 0,
            token: 0,
        };
        assert(h.signature@ =~= request_magic());
        assert(h.wire_bytes() =~= PacketHeader::request_bytes(cmd, data_size));
        h
    }

    /// Writes the header out as its 32 wire bytes.
    pub fn encode(&self) -> (out: Vec<u8>)
        ensures
            out@ == self.wire_bytes(),
            out@.len() == HEADER_LEN,
    {
        let mut out: Vec<u8> = Vec::new();
        out.push(self.signature[0]);
        out.push(self.signature[1]);
        out.push(self.signature[2]);
        out.push(self.signature[3]);
        assert(out@ =~= self.signature@);
        push_be(&mut out, self.const00);
        push_be(&mut out, self.const01);
        push_be(&mut out, self.const20);
        push_be(&mut out, self.cmd);
        push_be(&mut out, self.data_size);
        push_be(&mut out, self.ip_addr);
        push_be(&mut out, self.token);
        out
    }
}

/// The 32 header bytes of a request for `cmd` that announces a body of
/// `data_size` bytes.
pub fn encode_header(cmd: u32, data_size: u32) -> (out: Vec<u8>)
    ensures
        out@ == PacketHeader::request_bytes(cmd, data_size),
        out@.len() == HEADER_LEN,
{
    PacketHeader::new_request(cmd, data_size).encode()
}

/// The datagram of a request for `cmd` that carries `body`: the header, which
/// announces the length of the body, then the body and nothing after it.
pub fn encode_request(cmd: u32, body: &[u8]) -> (out: Vec<u8>)
    requires
        body@.len() <= u32::MAX,
    ensures
        out@ == PacketHeader::request_bytes(cmd, body@.len() as u32) + body@,
        out@.len() == HEADER_LEN + body@.len(),
{
    let mut out = encode_header(cmd, body.len() as u32);
    let mut i: usize = 0;
    while i < body.len()
        invariant
            i <= body@.len(),
            out@ == PacketHeader::request_bytes(cmd, body@.len() as u32) + body@.subrange(
                0,
                i as int,
            ),
            out@.len() == HEADER_LEN + i,
        decreases body@.len() - i,
    {
        out.push(body[i]);
        i += 1;
        assert(out@ =~= PacketHeader::request_bytes(cmd, body@.len() as u32) + body@.subrange(
            0,
            i as int,
        ));
    }
    assert(body@.subrange(0, body@.len() as int) =~= body@);
    out
}

/// Reads a header from the first 32 bytes of `data`. Nothing but the length
/// is examined: magic and constants are taken as they come.
pub fn decode_header(data: &[u8]) -> (r: Result<PacketHeader, Error>)
    ensures
        data@.len() < HEADER_LEN ==> r == Err::<PacketHeader, Error>(Error::Truncated),
        data@.len() >= HEADER_LEN ==> r is Ok && r->Ok_0.wire_bytes() == data@.subrange(
            0,
            HEADER_LEN as int,
        ),
{
    if data.len() < HEADER_LEN {
        return Err(Error::Truncated);
    }
    let h = PacketHeader {
        signature: [data[0], data[1], data[2], data[3]],
        const00: read_be(data, 4),
        const01: read_be(data, 8),
        const20: read_be(data, 12),
        cmd: read_be(data, 16),
        data_size: read_be(data, 20),
        ip_addr: read_be(data, 24),
        token: read_be(data, 28),
    };
    assert(h.signature@ =~= data@.subrange(0, 4));
    assert(h.wire_bytes() =~= data@.subrange(0, HEADER_LEN as int));
    Ok(h)
}

/// Two headers with the same wire bytes are the same header.
pub proof fn lemma_wire_bytes_injective(a: PacketHeader, b: PacketHeader)
    requires
        a.wire_bytes() == b.wire_bytes(),
    ensures
        a == b,
{
    let s = a.wire_bytes();
    assert(a.signature@ =~= s.subrange(0, 4));
    assert(b.signature@ =~= s.subrange(0, 4));
    assert(spec_be_bytes(a.const00) =~= s.subrange(4, 8));
    assert(spec_be_bytes(b.const00) =~= s.subrange(4, 8));
    assert(spec_be_bytes(a.const01) =~= s.subrange(8, 12));
    assert(spec_be_bytes(b.const01) =~= s.subrange(8, 12));
    assert(spec_be_bytes(a.const20) =~= s.subrange(12, 16));
    assert(spec_be_bytes(b.const20) =~= s.subrange(12, 16));
    assert(spec_be_bytes(a.cmd) =~= s.subrange(16, 20));
    assert(spec_be_bytes(b.cmd) =~= s.subrange(16, 20));
    assert(spec_be_bytes(a.data_size) =~= s.subrange(20, 24));
    assert(spec_be_bytes(b.data_size) =~= s.subrange(20, 24));
    assert(spec_be_bytes(a.ip_addr) =~= s.subrange(24, 28));
    assert(spec_be_bytes(b.ip_addr) =~= s.subrange(24, 28));
    assert(spec_be_bytes(a.token) =~= s.subrange(28, 32));
    assert(spec_be_bytes(b.token) =~= s.subrange(28, 32));
    lemma_be_round_trip(a.const00, s);
    lemma_be_round_trip(b.const00, s);
    lemma_be_round_trip(a.const01, s);
    lemma_be_round_trip(b.const01, s);
    lemma_be_round_trip(a.const20, s);
    lemma_be_round_trip(b.const20, s);
    lemma_be_round_trip(a.cmd, s);
    lemma_be_round_trip(b.cmd, s);
    lemma_be_round_trip(a.data_size, s);
    lemma_be_round_trip(b.data_size, s);
    lemma_be_round_trip(a.ip_addr, s);
    lemma_be_round_trip(b.ip_addr, s);
    lemma_be_round_trip(a.token, s);
    lemma_be_round_trip(b.token, s);
    assert(a.signature =~= b.signature);
}

/// A value that travels as a fixed number of bytes, written and read field
/// by field.
pub trait Sliceable: Sized + Copy {
    /// The number of bytes a value occupies.
    spec fn wire_len() -> nat;

    /// The bytes that stand for the value.
    spec fn to_wire(&self) -> Seq<u8>;

    /// Writes the value out as bytes.
    fn copy_into_slice(&self) -> (out: Vec<u8>)
        ensures
            out@ == self.to_wire(),
            out@.len() == Self::wire_len(),
    ;

    /// Reads a value from the front of `data`, which may be longer than the
    /// value.
    fn copy_from_slice(data: &[u8]) -> (r: Result<Self, Error>)
        ensures
            data@.len() < Self::wire_len() ==> r == Err::<Self, Error>(Error::Truncated),
            data@.len() >= Self::wire_len() ==> r is Ok && r->Ok_0.to_wire() == data@.subrange(
                0,
                Self::wire_len() as int,
            ),
    ;
}

impl Sliceable for PacketHeader {
    open spec fn wire_len() -> nat {
        HEADER_LEN as nat
    }

    open spec fn to_wire(&self) -> Seq<u8> {
        self.wire_bytes()
    }

    fn copy_into_slice(&self) -> (out: Vec<u8>) {
        self.encode()
    }

    fn copy_from_slice(data: &[u8]) -> (r: Result<Self, Error>) {
        decode_header(data)
    }
}

/// The request that asks the printer for its status.
#[derive(Copy, Clone, Debug, PartialEq, Eq)]
pub struct StatusRequest {
    pub header: PacketHeader,
}

/// The request that opens a print job.
#[derive(Copy, Clone, Debug, PartialEq, Eq)]
pub struct StartPrintRequest {
    pub header: PacketHeader,
}

/// The request that closes a print job.
#[derive(Copy, Clone, Debug, PartialEq, Eq)]
pub struct StopPrintRequest {
    pub header: PacketHeader,
}

impl Sliceable for StatusRequest {
    open spec fn wire_len() -> nat {
        HEADER_LEN as nat
    }

    open spec fn to_wire(&self) -> Seq<u8> {
        self.header.wire_bytes()
    }

    fn copy_into_slice(&self) -> (out: Vec<u8>) {
        self.header.encode()
    }

    fn copy_from_slice(data: &[u8]) -> (r: Result<Self, Error>) {
        match decode_header(data) {
            Ok(header) => Ok(StatusRequest { header }),
            Err(e) => Err(e),
        }
    }
}

impl Sliceable for StartPrintRequest {
    open spec fn wire_len() -> nat {
        HEADER_LEN as nat
    }

    open spec fn to_wire(&self) -> Seq<u8> {
        self.header.wire_bytes()
    }

    fn copy_into_slice(&self) -> (out: Vec<u8>) {
        self.header.encode()
    }

    fn copy_from_slice(data: &[u8]) -> (r: Result<Self, Error>) {
        match decode_header(data) {
            Ok(header) => Ok(StartPrintRequest { header }),
            Err(e) => Err(e),
        }
    }
}

impl Sliceable for StopPrintRequest {
    open spec fn wire_len() -> nat {
        HEADER_LEN as nat
    }

    open spec fn to_wire(&self) -> Seq<u8> {
        self.header.wire_bytes()
    }

    fn copy_into_slice(&self) -> (out: Vec<u8>) {
        self.header.encode()
    }

    fn copy_from_slice(data: &[u8]) -> (r: Result<Self, Error>) {
        match decode_header(data) {
            Ok(header) => Ok(StopPrintRequest { header }),
            Err(e) => Err(e),
        }
    }
}

/// The body of a response datagram: what follows the header.
pub open spec fn response_body(resp: Seq<u8>) -> Seq<u8> {
    resp.subrange(HEADER_LEN as int, resp.len() as int)
}

/// Parts a response datagram into its header and its body.
pub fn split_response(resp: &[u8]) -> (r: Result<(PacketHeader, &[u8]), Error>)
    ensures
        resp@.len() < HEADER_LEN ==> r == Err::<(PacketHeader, &[u8]), Error>(
            Error::ShortResponse,
        ),
        resp@.len() >= HEADER_LEN ==> r is Ok && r->Ok_0.0.wire_bytes() == resp@.subrange(
            0,
            HEADER_LEN as int,
        ) && r->Ok_0.1@ == response_body(resp@),
{
    if resp.len() < HEADER_LEN {
        return Err(Error::ShortResponse);
    }
    match decode_header(resp) {
        Ok(header) => Ok((header, &resp[HEADER_LEN..resp.len()])),
        Err(_) => Err(Error::ShortResponse),
    }
}

/// Whether `body` is exactly the bytes `expected`.
fn body_is(body: &[u8], expected: &[u8]) -> (same: bool)
    ensures
        same == (body@ == expected@),
{
    if body.len() != expected.len() {
        return false;
    }
    let mut i: usize = 0;
    while i < body.len()
        invariant
            i <= body@.len(),
            body@.len() == expected@.len(),
            forall|k: int| 0 <= k < i ==> body@[k] == expected@[k],
        decreases body@.len() - i,
    {
        if body[i] != expected[i] {
            return false;
        }
        i += 1;
    }
    assert(body@ =~= expected@);
    true
}

/// What a response to start-print amounts to: accepted where the body is
/// `02 00 00`.
pub open spec fn spec_start_response(resp: Seq<u8>) -> Result<(), Error> {
    if resp.len() < HEADER_LEN {
        Err(Error::ShortResponse)
    } else if response_body(resp) == seq![2u8, 0u8, 0u8] {
        Ok(())
    } else {
        Err(Error::StartRejected)
    }
}

/// What a response to stop-print amounts to: accepted where the body is
/// `03 00 00`.
pub open spec fn spec_stop_response(resp: Seq<u8>) -> Result<(), Error> {
    if resp.len() < HEADER_LEN {
        Err(Error::ShortResponse)
    } else if response_body(resp) == seq![3u8, 0u8, 0u8] {
        Ok(())
    } else {
        Err(Error::StopRejected)
    }
}

/// What a response to the first data-stream notification amounts to:
/// accepted where it has no body.
pub open spec fn spec_notify_open_response(resp: Seq<u8>) -> Result<(), Error> {
    if resp.len() < HEADER_LEN {
        Err(Error::ShortResponse)
    } else if resp.len() == HEADER_LEN {
        Ok(())
    } else {
        Err(Error::NotifyOpenFailed)
    }
}

/// How the printer acknowledged the second data-stream notification.
#[derive(Copy, Clone, Debug, PartialEq, Eq, Structural)]
pub enum NotifyReady {
    /// The body was `10`, the usual acknowledgement.
    Ready,
    /// The body was `00`: accepted, but worth a warning.
    ReadyUnusual,
}

/// What a response to the second data-stream notification amounts to.
pub open spec fn spec_notify_ready_response(resp: Seq<u8>) -> Result<NotifyReady, Error> {
    if resp.len() < HEADER_LEN {
        Err(Error::ShortResponse)
    } else if response_body(resp) == seq![0x10u8] {
        Ok(NotifyReady::Ready)
    } else if response_body(resp) == seq![0x00u8] {
        Ok(NotifyReady::ReadyUnusual)
    } else {
        Err(Error::NotifyReadyFailed)
    }
}

impl StatusRequest {
    /// The request for the printer status: command 1, no body.
    pub fn new() -> (req: StatusRequest)
        ensures
            req.header.is_request(CMD_STATUS, 0),
            req.to_wire() == PacketHeader::request_bytes(CMD_STATUS, 0),
    {
        StatusRequest { header: PacketHeader::new_request(CMD_STATUS, 0) }
    }

    /// Reads the response to a status request. A datagram shorter than a
    /// header is `ShortResponse`, a body of any length but 20 is
    /// `ShapeMismatch`, and every other response has a status.
    pub fn parse_response(resp: &[u8]) -> (r: Result<PrinterStatus, Error>)
        ensures
            resp@.len() < HEADER_LEN ==> r == Err::<PrinterStatus, Error>(Error::ShortResponse),
            resp@.len() >= HEADER_LEN && resp@.len() != HEADER_LEN + STATUS_BODY_LEN ==> r == Err::<
                PrinterStatus,
                Error,
            >(Error::ShapeMismatch),
            resp@.len() == HEADER_LEN + STATUS_BODY_LEN ==> r is Ok && match crate::status::spec_known_status(
                response_body(resp@),
            ) {
                Some(status) => r->Ok_0 == status,
                None => r->Ok_0 matches PrinterStatus::Unknown(h, b) && h.wire_bytes()
                    == resp@.subrange(0, HEADER_LEN as int) && b@ == response_body(resp@),
            },
    {
        let (header, body) = match split_response(resp) {
            Ok(parts) => parts,
            Err(e) => { return Err(e); },
        };
        if body.len() != STATUS_BODY_LEN {
            return Err(Error::ShapeMismatch);
        }
        let data: [u8; 20] = [
            body[0],
            body[1],
            body[2],
            body[3],
            body[4],
            body[5],
            body[6],
            body[7],
            body[8],
            body[9],
            body[10],
            body[11],
            body[12],
            body[13],
            body[14],
            body[15],
            body[16],
            body[17],
            body[18],
            body[19],
        ];
        assert(data@ =~= body@);
        Ok(classify(header, data))
    }
}

impl StartPrintRequest {
    /// The request that opens a print job: command 2, no body.
    pub fn new() -> (req: StartPrintRequest)
        ensures
            req.header.is_request(CMD_START_PRINT, 0),
            req.to_wire() == PacketHeader::request_bytes(CMD_START_PRINT, 0),
    {
        StartPrintRequest { header: PacketHeader::new_request(CMD_START_PRINT, 0) }
    }

    /// Reads the response to a start-print request.
    pub fn check_response(resp: &[u8]) -> (r: Result<(), Error>)
        ensures
            r == spec_start_response(resp@),
    {
        let (_header, body) = match split_response(resp) {
            Ok(parts) => parts,
            Err(e) => { return Err(e); },
        };
        let expected: [u8; 3] = [2, 0, 0];
        assert(expected@ =~= seq![2u8, 0u8, 0u8]);
        if body_is(body, expected.as_slice()) {
            Ok(())
        } else {
            Err(Error::StartRejected)
        }
    }
}

impl StopPrintRequest {
    /// The request that closes a print job: command 3, no body.
    pub fn new() -> (req: StopPrintRequest)
        ensures
            req.header.is_request(CMD_STOP_PRINT, 0),
            req.to_wire() == PacketHeader::request_bytes(CMD_STOP_PRINT, 0),
    {
        StopPrintRequest { header: PacketHeader::new_request(CMD_STOP_PRINT, 0) }
    }

    /// Reads the response to a stop-print request.
    pub fn check_response(resp: &[u8]) -> (r: Result<(), Error>)
        ensures
            r == spec_stop_response(resp@),
    {
        let (_header, body) = match split_response(resp) {
            Ok(parts) => parts,
            Err(e) => { return Err(e); },
        };
        let expected: [u8; 3] = [3, 0, 0];
        assert(expected@ =~= seq![3u8, 0u8, 0u8]);
        if body_is(body, expected.as_slice()) {
            Ok(())
        } else {
            Err(Error::StopRejected)
        }
    }
}

/// The header that announces the open data stream.
pub fn notify_open_request() -> (h: PacketHeader)
    ensures
        h.is_request(CMD_NOTIFY_OPEN, 0),
        h.wire_bytes() == PacketHeader::request_bytes(CMD_NOTIFY_OPEN, 0),
{
    PacketHeader::new_request(CMD_NOTIFY_OPEN, 0)
}

/// The header that announces that data is about to be written.
pub fn notify_ready_request() -> (h: PacketHeader)
    ensures
        h.is_request(CMD_NOTIFY_READY, 0),
        h.wire_bytes() == PacketHeader::request_bytes(CMD_NOTIFY_READY, 0),
{
    PacketHeader::new_request(CMD_NOTIFY_READY, 0)
}

/// Reads the response to the first data-stream notification.
pub fn check_notify_open(resp: &[u8]) -> (r: Result<(), Error>)
    ensures
        r == spec_notify_open_response(resp@),
{
    let (_header, body) = match split_response(resp) {
        Ok(parts) => parts,
        Err(e) => { return Err(e); },
    };
    if body.len() == 0 {
        Ok(())
    } else {
        Err(Error::NotifyOpenFailed)
    }
}

/// Reads the response to the second data-stream notification.
pub fn check_notify_ready(resp: &[u8]) -> (r: Result<NotifyReady, Error>)
    ensures
        r == spec_notify_ready_response(resp@),
{
    let (_header, body) = match split_response(resp) {
        Ok(parts) => parts,
        Err(e) => { return Err(e); },
    };
    if body.len() == 1 && body[0] == 0x10 {
        assert(body@ =~= seq![0x10u8]);
        Ok(NotifyReady::Ready)
    } else if body.len() == 1 && body[0] == 0x00 {
        assert(body@ =~= seq![0x00u8]);
        Ok(NotifyReady::ReadyUnusual)
    } else {
        assert(body@ != seq![0x10u8] && body@ != seq![0x00u8]) by {
            if body@.len() == 1 {
                assert(seq![0x10u8][0] == 0x10u8);
                assert(seq![0x00u8][0] == 0x00u8);
            }
        }
        Err(Error::NotifyReadyFailed)
    }
}

} // verus!
