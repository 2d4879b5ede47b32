//! Frame codec and typed message set.
//!
//! Two frame kinds travel over a byte stream: `Control` (a JSON-encoded
//! request or response) and `Data` (opaque PTY bytes). The local wire
//! format is `kind: u8 | length: u32 big-endian | payload`, with payloads
//! capped at 16 MiB.

use vstd::prelude::*;

verus! {

/// Maximum frame payload size in bytes (16 MiB).
pub const MAX_PAYLOAD: u32 = 16 * 1024 * 1024;

/// The unit of the wire protocol: a control message or opaque data bytes.
pub enum Frame {
    Control(Vec<u8>),
    Data(Vec<u8>),
}

impl Frame {
    /// The kind tag this frame carries on the wire.
    pub open spec fn kind_byte(&self) -> u8 {
        match self {
            Frame::Control(_) => 0u8,
            Frame::Data(_) => 1u8,
        }
    }

    /// The payload bytes of this frame.
    pub open spec fn payload(&self) -> Seq<u8> {
        match self {
            Frame::Control(p) => p@,
            Frame::Data(p) => p@,
        }
    }
}

/// The four big-endian bytes of a 32-bit length.
pub open spec fn spec_u32_to_be_bytes(x: u32) -> Seq<u8> {
    seq![
        (x / 0x1000000) as u8,
        ((x / 0x10000) % 0x100) as u8,
        ((x / 0x100) % 0x100) as u8,
        (x % 0x100) as u8,
    ]
}

/// The 32-bit value read from four big-endian bytes.
pub open spec fn spec_u32_from_be_bytes(b: Seq<u8>) -> u32
    recommends
        b.len() == 4,
{
    (b[0] * 0x1000000 + b[1] * 0x10000 + b[2] * 0x100 + b[3]) as u32
}

pub proof fn lemma_u32_be_bytes_roundtrip(x: u32)
    ensures
        spec_u32_from_be_bytes(spec_u32_to_be_bytes(x)) == x,
{
    let b = spec_u32_to_be_bytes(x);
    assert(b[0] == (x / 0x1000000) as u8);
    assert(x / 0x1000000 < 0x100) by {
        assert(x < 0x100000000) by {
            assert(x <= u32::MAX);
        }
    }
    assert(b[0] * 0x1000000 + b[1] * 0x10000 + b[2] * 0x100 + b[3] == x) by {
        assert(x == (x / 0x1000000) * 0x1000000 + ((x / 0x10000) % 0x100) * 0x10000 + ((x
            / 0x100) % 0x100) * 0x100 + (x % 0x100)) by (nonlinear_arith);
    }
}

/// The exact byte sequence a frame occupies on the wire.
pub open spec fn spec_encode_frame(f: &Frame) -> Seq<u8> {
    seq![f.kind_byte()] + spec_u32_to_be_bytes(f.payload().len() as u32) + f.payload()
}

/// Serialize one frame: kind byte, payload length as big-endian `u32`,
/// then the payload itself.
pub fn encode_frame(f: &Frame) -> (out: Vec<u8>)
    requires
        f.payload().len() <= MAX_PAYLOAD,
    ensures
        out@ == spec_encode_frame(f),
{
    let payload: &Vec<u8> = match f {
        Frame::Control(p) => p,
        Frame::Data(p) => p,
    };
    let len: u32 = payload.len() as u32;
    let mut out: Vec<u8> = Vec::new();
    let kind: u8 = match f {
        Frame::Control(_) => 0u8,
        Frame::Data(_) => 1u8,
    };
    out.push(kind);
    out.push((len / 0x1000000) as u8);
    out.push(((len / 0x10000) % 0x100) as u8);
    out.push(((len / 0x100) % 0x100) as u8);
    out.push((len % 0x100) as u8);
    let mut i: usize = 0;
    while i < payload.len()
        invariant
            i <= payload.len(),
            payload@ == f.payload(),
            f.payload().len() <= MAX_PAYLOAD,
            out@ == seq![f.kind_byte()] + spec_u32_to_be_bytes(f.payload().len() as u32)
                + f.payload().subrange(0, i as int),
        decreases payload.len() - i,
    {
        out.push(payload[i]);
        i = i + 1;
        proof {
            assert(f.payload().subrange(0, i as int) == f.payload().subrange(0, i - 1).push(
                f.payload()[i - 1],
            ));
        }
    }
    proof {
        assert(f.payload().subrange(0, f.payload().len() as int) == f.payload());
    }
    out
}

/// What one attempt to decode a frame from the front of a buffer yields.
pub enum DecodeOutcome {
    /// The buffer does not yet hold a whole frame; read more bytes.
    Incomplete,
    /// One whole frame, and how many bytes of the buffer it consumed.
    Decoded(Frame, usize),
    /// The declared payload length exceeds the 16 MiB cap: a fatal
    /// protocol error on this connection.
    TooLarge(u32),
    /// The kind byte is neither control nor data: a fatal protocol error.
    UnknownKind(u8),
}

/// The payload length declared in a buffer's frame header.
pub open spec fn spec_header_len(b: Seq<u8>) -> u32
    recommends
        b.len() >= 5,
{
    spec_u32_from_be_bytes(b.subrange(1, 5))
}

/// Whether the front of `b` holds one whole, well-formed frame.
pub open spec fn spec_decodes(b: Seq<u8>) -> bool {
    &&& b.len() >= 5
    &&& spec_header_len(b) <= MAX_PAYLOAD
    &&& b.len() >= 5 + spec_header_len(b)
    &&& (b[0] == 0 || b[0] == 1)
}

/// The payload of the frame at the front of `b`.
pub open spec fn spec_decoded_payload(b: Seq<u8>) -> Seq<u8>
    recommends
        spec_decodes(b),
{
    b.subrange(5, 5 + spec_header_len(b) as int)
}

/// Try to decode one frame from the front of `buf`. Mirrors a resumable
/// read: with too few bytes the outcome is `Incomplete` and the caller
/// reads more; an oversized declared length or an unknown kind byte is a
/// fatal protocol error.
pub fn decode_frame(buf: &Vec<u8>) -> (r: DecodeOutcome)
    ensures
        buf@.len() < 5 ==> r is Incomplete,
        buf@.len() >= 5 && spec_header_len(buf@) > MAX_PAYLOAD ==> (r matches
            DecodeOutcome::TooLarge(l) && l == spec_header_len(buf@)),
        buf@.len() >= 5 && spec_header_len(buf@) <= MAX_PAYLOAD && buf@.len() < 5
            + spec_header_len(buf@) ==> r is Incomplete,
        buf@.len() >= 5 && spec_header_len(buf@) <= MAX_PAYLOAD && buf@.len() >= 5
            + spec_header_len(buf@) && !(buf@[0] == 0 || buf@[0] == 1) ==> (r matches
            DecodeOutcome::UnknownKind(k) && k == buf@[0]),
        spec_decodes(buf@) ==> (r matches DecodeOutcome::Decoded(f, n) && f.kind_byte() == buf@[0]
            && f.payload() == spec_decoded_payload(buf@) && n == 5 + spec_header_len(buf@)),
{
    if buf.len() < 5 {
        return DecodeOutcome::Incomplete;
    }
    let b1: u32 = buf[1] as u32;
    let b2: u32 = buf[2] as u32;
    let b3: u32 = buf[3] as u32;
    let b4: u32 = buf[4] as u32;
    let len: u32 = b1 * 0x1000000 + b2 * 0x10000 + b3 * 0x100 + b4;
    proof {
        assert(buf@.subrange(1, 5)[0] == buf@[1]);
        assert(buf@.subrange(1, 5)[1] == buf@[2]);
        assert(buf@.subrange(1, 5)[2] == buf@[3]);
        assert(buf@.subrange(1, 5)[3] == buf@[4]);
        assert(len == spec_header_len(buf@));
    }
    if len > MAX_PAYLOAD {
        return DecodeOutcome::TooLarge(len);
    }
    let total: usize = 5 + len as usize;
    if buf.len() < total {
        return DecodeOutcome::Incomplete;
    }
    let kind: u8 = buf[0];
    if kind != 0 && kind != 1 {
        return DecodeOutcome::UnknownKind(kind);
    }
    let mut payload: Vec<u8> = Vec::new();
    let mut i: usize = 5;
    while i < total
        invariant
            5 <= i <= total,
            total == 5 + spec_header_len(buf@),
            buf@.len() >= total,
            payload@ == buf@.subrange(5, i as int),
        decreases total - i,
    {
        payload.push(buf[i]);
        i = i + 1;
        proof {
            assert(buf@.subrange(5, i as int) == buf@.subrange(5, i - 1).push(buf@[i - 1]));
        }
    }
    let f = if kind == 0 {
        Frame::Control(payload)
    } else {
        Frame::Data(payload)
    };
    DecodeOutcome::Decoded(f, total)
}

/// Framing round trip: a frame's encoding decodes back to the same kind
/// and the same payload bytes, consuming exactly the encoding.
pub proof fn lemma_frame_round_trip(f: &Frame)
    requires
        f.payload().len() <= MAX_PAYLOAD,
    ensures
        spec_decodes(spec_encode_frame(f)),
        spec_decoded_payload(spec_encode_frame(f)) == f.payload(),
        spec_encode_frame(f)[0] == f.kind_byte(),
        spec_header_len(spec_encode_frame(f)) == f.payload().len(),
{
    let b = spec_encode_frame(f);
    let len = f.payload().len() as u32;
    assert(b.subrange(1, 5) =~= spec_u32_to_be_bytes(len));
    lemma_u32_be_bytes_roundtrip(len);
    assert(spec_header_len(b) == len);
    assert(b.subrange(5, 5 + len as int) =~= f.payload());
}

/// An oversized declared length is rejected: no buffer whose header
/// declares more than the 16 MiB cap decodes to a frame.
pub proof fn lemma_oversized_frame_rejected(b: Seq<u8>)
    requires
        b.len() >= 5,
        spec_header_len(b) > MAX_PAYLOAD,
    ensures
        !spec_decodes(b),
{
}

/// A client request: the closed union carried in a `Control` frame.
#[derive(Debug, Clone)]
pub enum Request {
    ListSessions,
    Launch { command: Vec<String>, working_dir: String },
    Attach { id: u32, include_history: bool, history_lines: Option<usize> },
    Detach,
    Kill { id: u32 },
    KillAll,
    Resize { cols: u16, rows: u16 },
    Logs { id: u32, follow: bool, tail: Option<usize> },
    SendInput { id: u32, data: Vec<u8> },
    GetStatus { id: u32 },
    WatchSession { id: u32, include_history: bool, history_lines: Option<usize> },
}

/// A node response: the closed union carried back in a `Control` frame.
#[derive(Debug, Clone)]
pub enum Response {
    SessionList { sessions: Vec<SessionInfo> },
    Launched { id: u32 },
    Attached { id: u32 },
    Detached,
    Killed { id: u32 },
    KilledAll { count: usize },
    Resized,
    LogData { data: String, done: bool },
    InputSent { id: u32, bytes: usize },
    SessionStatus { info: SessionInfo, output_size: u64 },
    WatchUpdate { id: u32, status: String, output: Option<String>, done: bool },
    Error { message: String },
    Okay,
}

/// The summarized view of a session, as listed to clients.
#[derive(Debug, Clone)]
pub struct SessionInfo {
    pub id: u32,
    pub prompt: String,
    pub working_dir: String,
    pub created_at: String,
    pub status: String,
    pub attached: bool,
    pub pid: Option<u32>,
    pub output_size_bytes: Option<u64>,
    pub last_output_snippet: Option<String>,
}

/// Node metadata advertised on the fleet bus for discovery.
#[derive(Debug, Clone)]
pub struct DaemonInfo {
    pub name: String,
    pub external_url: Option<String>,
    pub sessions: Vec<SessionInfo>,
    pub uptime_secs: u64,
}

/// A request sent to a node over the fleet bus.
#[derive(Debug, Clone)]
pub enum FleetRequest {
    Discover,
    ListSessions,
    Launch { command: Vec<String>, working_dir: String },
    Kill { id: u32 },
    GetStatus { id: u32 },
    SendInput { id: u32, data: Vec<u8> },
}

/// A node's reply on the fleet bus.
#[derive(Debug, Clone)]
pub enum FleetResponse {
    DaemonInfo(DaemonInfo),
    SessionList { daemon: String, sessions: Vec<SessionInfo> },
    Launched { daemon: String, id: u32 },
    Killed { daemon: String, id: u32 },
    SessionStatus { daemon: String, info: SessionInfo, output_size: u64 },
    InputSent { daemon: String, id: u32, bytes: usize },
    Error { daemon: String, message: String },
}

} // verus!
