//! Length-prefixed binary framing for the two closed message sets.
//!
//! A frame is an 8-byte big-endian unsigned length prefix followed by exactly
//! that many payload bytes.  The payload names its variant with a 4-byte
//! little-endian discriminant; a string field is an 8-byte little-endian byte
//! count followed by the UTF-8 bytes of the string.  Decoding works on a
//! buffer of bytes read so far plus a flag saying whether the channel has
//! closed: a whole frame yields a message, an empty buffer on a closed
//! channel is end of stream, and a frame cut short by the close, an unknown
//! discriminant, a wrong field length or ill-formed UTF-8 are framing errors.

use vstd::bytes::*;
use vstd::prelude::*;
use vstd::utf8::*;

use crate::message::{CommandView, EchoCommand, EchoResponse, ResponseView};

verus! {

/// The bytes of `x` in big-endian order, most significant first.
pub open spec fn spec_u64_to_be_bytes(x: u64) -> Seq<u8> {
    seq![
        ((x >> 56) & 0xff) as u8,
        ((x >> 48) & 0xff) as u8,
        ((x >> 40) & 0xff) as u8,
        ((x >> 32) & 0xff) as u8,
        ((x >> 24) & 0xff) as u8,
        ((x >> 16) & 0xff) as u8,
        ((x >> 8) & 0xff) as u8,
        (x & 0xff) as u8,
    ]
}

/// The value whose big-endian bytes are `s`.
pub open spec fn spec_u64_from_be_bytes(s: Seq<u8>) -> u64
    recommends
        s.len() == 8,
{
    ((s[0] as u64) << 56) | ((s[1] as u64) << 48) | ((s[2] as u64) << 40) | ((s[3] as u64) << 32)
        | ((s[4] as u64) << 24) | ((s[5] as u64) << 16) | ((s[6] as u64) << 8) | (s[7] as u64)
}

/// Reading back the big-endian bytes of `x` recovers `x`.
pub proof fn lemma_u64_be_bytes_round_trip(x: u64)
    ensures
        spec_u64_to_be_bytes(x).len() == 8,
        spec_u64_from_be_bytes(spec_u64_to_be_bytes(x)) == x,
{
    assert({
        &&& (x >> 56) & 0xff < 256
        &&& (x >> 48) & 0xff < 256
        &&& (x >> 40) & 0xff < 256
        &&& (x >> 32) & 0xff < 256
        &&& (x >> 24) & 0xff < 256
        &&& (x >> 16) & 0xff < 256
        &&& (x >> 8) & 0xff < 256
        &&& x & 0xff < 256
    }) by (bit_vector);
    assert(x == (((x >> 56) & 0xff) << 56) | (((x >> 48) & 0xff) << 48) | (((x >> 40) & 0xff)
        << 40) | (((x >> 32) & 0xff) << 32) | (((x >> 24) & 0xff) << 24) | (((x >> 16) & 0xff)
        << 16) | (((x >> 8) & 0xff) << 8) | (x & 0xff)) by (bit_vector);
}

/// Write the big-endian bytes of `x`.
pub(crate) fn u64_to_be_byte_vec(x: u64) -> (bytes: Vec<u8>)
    ensures
        bytes@ == spec_u64_to_be_bytes(x),
{
    let mut bytes: Vec<u8> = Vec::new();
    bytes.push(((x >> 56) & 0xff) as u8);
    bytes.push(((x >> 48) & 0xff) as u8);
    bytes.push(((x >> 40) & 0xff) as u8);
    bytes.push(((x >> 32) & 0xff) as u8);
    bytes.push(((x >> 24) & 0xff) as u8);
    bytes.push(((x >> 16) & 0xff) as u8);
    bytes.push(((x >> 8) & 0xff) as u8);
    bytes.push((x & 0xff) as u8);
    proof {
        assert(bytes@ =~= spec_u64_to_be_bytes(x));
    }
    bytes
}

/// Read a big-endian 64-bit value out of `buf` at `start`.
pub(crate) fn u64_from_be_bytes_at(buf: &Vec<u8>, start: usize) -> (x: u64)
    requires
        start + 8 <= buf@.len(),
    ensures
        x == spec_u64_from_be_bytes(buf@.subrange(start as int, start as int + 8)),
{
    let _buf_len = buf.len();
    let x = ((buf[start] as u64) << 56) | ((buf[start + 1] as u64) << 48) | ((buf[start + 2]
        as u64) << 40) | ((buf[start + 3] as u64) << 32) | ((buf[start + 4] as u64) << 24) | ((
    buf[start + 5] as u64) << 16) | ((buf[start + 6] as u64) << 8) | (buf[start + 7] as u64);
    proof {
        let s = buf@.subrange(start as int, start as int + 8);
        assert(s[0] == buf@[start as int]);
        assert(s[1] == buf@[start as int + 1]);
        assert(s[2] == buf@[start as int + 2]);
        assert(s[3] == buf@[start as int + 3]);
        assert(s[4] == buf@[start as int + 4]);
        assert(s[5] == buf@[start as int + 5]);
        assert(s[6] == buf@[start as int + 6]);
        assert(s[7] == buf@[start as int + 7]);
    }
    x
}

/// Read a little-endian 64-bit value out of `buf` at `start`.
pub(crate) fn u64_from_le_bytes_at(buf: &Vec<u8>, start: usize) -> (x: u64)
    requires
        start + 8 <= buf@.len(),
    ensures
        x == spec_u64_from_le_bytes(buf@.subrange(start as int, start as int + 8)),
{
    let _buf_len = buf.len();
    u64_from_le_bytes(vstd::slice::slice_subrange(buf.as_slice(), start, start + 8))
}

/// Read a little-endian 32-bit value out of `buf` at `start`.
pub(crate) fn u32_from_le_bytes_at(buf: &Vec<u8>, start: usize) -> (x: u32)
    requires
        start + 4 <= buf@.len(),
    ensures
        x == spec_u32_from_le_bytes(buf@.subrange(start as int, start as int + 4)),
{
    let _buf_len = buf.len();
    u32_from_le_bytes(vstd::slice::slice_subrange(buf.as_slice(), start, start + 4))
}

/// Append every byte of `src` to `dst`, in order.
pub(crate) fn append_bytes(dst: &mut Vec<u8>, src: &[u8])
    ensures
        final(dst)@ == old(dst)@ + src@,
{
    let mut i: usize = 0;
    while i < src.len()
        invariant
            i <= src@.len(),
            dst@ == old(dst)@ + src@.subrange(0, i as int),
        decreases src@.len() - i,
    {
        dst.push(src[i]);
        proof {
            assert(old(dst)@ + src@.subrange(0, i as int) + seq![src@[i as int]] =~= old(dst)@
                + src@.subrange(0, i as int + 1));
        }
        i = i + 1;
    }
    proof {
        assert(src@.subrange(0, src@.len() as int) =~= src@);
    }
}

/// Copy `len` bytes of `buf` starting at `start` into a fresh vector.
pub(crate) fn copy_range(buf: &Vec<u8>, start: usize, len: usize) -> (out: Vec<u8>)
    requires
        start + len <= buf@.len(),
    ensures
        out@ == buf@.subrange(start as int, start as int + len as int),
{
    let _buf_len = buf.len();
    let mut out: Vec<u8> = Vec::new();
    let mut i: usize = 0;
    while i < len
        invariant
            i <= len,
            start + len <= buf@.len(),
            buf@.len() <= usize::MAX,
            out@ == buf@.subrange(start as int, start as int + i as int),
        decreases len - i,
    {
        out.push(buf[start + i]);
        proof {
            assert(buf@.subrange(start as int, start as int + i as int) + seq![buf@[start as int
                + i as int]] =~= buf@.subrange(start as int, start as int + i as int + 1));
        }
        i = i + 1;
    }
    out
}

/// A string field on the wire: an 8-byte little-endian count of the UTF-8
/// bytes, then those bytes.
pub open spec fn string_field_bytes(s: Seq<char>) -> Seq<u8> {
    spec_u64_to_le_bytes(encode_utf8(s).len() as u64) + encode_utf8(s)
}

/// A string small enough that its payload length fits the length prefix.
pub open spec fn wf_string(s: Seq<char>) -> bool {
    encode_utf8(s).len() + 12 <= u64::MAX
}

/// Every request value whose encoding the framing can carry.
pub open spec fn wf_command(m: CommandView) -> bool {
    match m {
        CommandView::Hello(s) => wf_string(s),
        CommandView::Message(s) => wf_string(s),
        CommandView::Goodbye => true,
    }
}

/// Every response value whose encoding the framing can carry.
pub open spec fn wf_response(m: ResponseView) -> bool {
    match m {
        ResponseView::EchoResponse(s) => wf_string(s),
        ResponseView::Goodbye => true,
        ResponseView::IdAssigned(s) => wf_string(s),
    }
}

/// The payload bytes of a request: discriminant, then fields.
pub open spec fn command_payload_bytes(m: CommandView) -> Seq<u8> {
    match m {
        CommandView::Hello(s) => spec_u32_to_le_bytes(0u32) + string_field_bytes(s),
        CommandView::Message(s) => spec_u32_to_le_bytes(1u32) + string_field_bytes(s),
        CommandView::Goodbye => spec_u32_to_le_bytes(2u32),
    }
}

/// The payload bytes of a response: discriminant, then fields.
pub open spec fn response_payload_bytes(m: ResponseView) -> Seq<u8> {
    match m {
        ResponseView::EchoResponse(s) => spec_u32_to_le_bytes(0u32) + string_field_bytes(s),
        ResponseView::Goodbye => spec_u32_to_le_bytes(1u32),
        ResponseView::IdAssigned(s) => spec_u32_to_le_bytes(2u32) + string_field_bytes(s),
    }
}

/// A full frame: the payload behind its 8-byte big-endian length prefix.
pub open spec fn frame_bytes(payload: Seq<u8>) -> Seq<u8> {
    spec_u64_to_be_bytes(payload.len() as u64) + payload
}

/// The frame that carries a request.
pub open spec fn command_frame_bytes(m: CommandView) -> Seq<u8> {
    frame_bytes(command_payload_bytes(m))
}

/// The frame that carries a response.
pub open spec fn response_frame_bytes(m: ResponseView) -> Seq<u8> {
    frame_bytes(response_payload_bytes(m))
}

/// Parse a string field out of the remainder of a payload.  The byte count
/// must cover the remainder exactly and the bytes must be valid UTF-8.
pub open spec fn parse_string_field(b: Seq<u8>) -> Option<Seq<char>> {
    if b.len() < 8 {
        None
    } else {
        let n = spec_u64_from_le_bytes(b.subrange(0, 8));
        if b.len() - 8 == n {
            let sb = b.subrange(8, b.len() as int);
            if valid_utf8(sb) {
                Some(decode_utf8(sb))
            } else {
                None
            }
        } else {
            None
        }
    }
}

/// Parse a request payload; `None` is a framing error.
pub open spec fn parse_command_payload(b: Seq<u8>) -> Option<CommandView> {
    if b.len() < 4 {
        None
    } else {
        let d = spec_u32_from_le_bytes(b.subrange(0, 4));
        let rest = b.subrange(4, b.len() as int);
        if d == 0 {
            match parse_string_field(rest) {
                Some(s) => Some(CommandView::Hello(s)),
                None => None,
            }
        } else if d == 1 {
            match parse_string_field(rest) {
                Some(s) => Some(CommandView::Message(s)),
                None => None,
            }
        } else if d == 2 {
            if rest.len() == 0 {
                Some(CommandView::Goodbye)
            } else {
                None
            }
        } else {
            None
        }
    }
}

/// Parse a response payload; `None` is a framing error.
pub open spec fn parse_response_payload(b: Seq<u8>) -> Option<ResponseView> {
    if b.len() < 4 {
        None
    } else {
        let d = spec_u32_from_le_bytes(b.subrange(0, 4));
        let rest = b.subrange(4, b.len() as int);
        if d == 0 {
            match parse_string_field(rest) {
                Some(s) => Some(ResponseView::EchoResponse(s)),
                None => None,
            }
        } else if d == 1 {
            if rest.len() == 0 {
                Some(ResponseView::Goodbye)
            } else {
                None
            }
        } else if d == 2 {
            match parse_string_field(rest) {
                Some(s) => Some(ResponseView::IdAssigned(s)),
                None => None,
            }
        } else {
            None
        }
    }
}

/// What the front of a buffer holds, before the payload is interpreted.
pub enum FrameSplit {
    /// A whole frame is present: its payload and how many bytes it spans.
    Payload(Seq<u8>, int),
    /// Not enough bytes yet, and the channel is still open.
    NeedBytes,
    /// Nothing buffered and the channel has closed.
    EndOfStream,
    /// The channel closed in the middle of a frame.
    Truncated,
}

/// Split the next frame off the front of the buffer.
pub open spec fn split_frame(b: Seq<u8>, closed: bool) -> FrameSplit {
    if b.len() >= 8 {
        let n = spec_u64_from_be_bytes(b.subrange(0, 8));
        if n <= b.len() - 8 {
            FrameSplit::Payload(b.subrange(8, 8 + n), 8 + n)
        } else if closed {
            FrameSplit::Truncated
        } else {
            FrameSplit::NeedBytes
        }
    } else if b.len() == 0 {
        if closed {
            FrameSplit::EndOfStream
        } else {
            FrameSplit::NeedBytes
        }
    } else {
        if closed {
            FrameSplit::Truncated
        } else {
            FrameSplit::NeedBytes
        }
    }
}

/// Abstract outcome of one decoding step.
pub enum StepView<V> {
    /// A message and the number of buffer bytes its frame consumed.
    Frame(V, int),
    /// More bytes must be read before anything can be decided.
    NeedBytes,
    /// The channel closed cleanly between frames.
    EndOfStream,
    /// A malformed or truncated frame; fatal to this connection only.
    FramingError,
}

/// One decoding step over a request buffer.
pub open spec fn command_step(b: Seq<u8>, closed: bool) -> StepView<CommandView> {
    match split_frame(b, closed) {
        FrameSplit::Payload(p, c) => match parse_command_payload(p) {
            Some(m) => StepView::Frame(m, c),
            None => StepView::FramingError,
        },
        FrameSplit::NeedBytes => StepView::NeedBytes,
        FrameSplit::EndOfStream => StepView::EndOfStream,
        FrameSplit::Truncated => StepView::FramingError,
    }
}

/// One decoding step over a response buffer.
pub open spec fn response_step(b: Seq<u8>, closed: bool) -> StepView<ResponseView> {
    match split_frame(b, closed) {
        FrameSplit::Payload(p, c) => match parse_response_payload(p) {
            Some(m) => StepView::Frame(m, c),
            None => StepView::FramingError,
        },
        FrameSplit::NeedBytes => StepView::NeedBytes,
        FrameSplit::EndOfStream => StepView::EndOfStream,
        FrameSplit::Truncated => StepView::FramingError,
    }
}

/// Outcome of one call to a decoder.
#[derive(Debug, PartialEq, Eq)]
pub enum DecodeOutcome<M> {
    /// A whole message, and how many buffer bytes its frame consumed.
    Frame(M, usize),
    /// The buffer does not yet hold a whole frame; read more first.
    NeedBytes,
    /// The channel closed cleanly between frames.
    EndOfStream,
    /// A malformed or truncated frame; fatal to this connection only.
    FramingError,
}

impl<M: View> View for DecodeOutcome<M> {
    type V = StepView<M::V>;

    open spec fn view(&self) -> StepView<M::V> {
        match self {
            DecodeOutcome::Frame(m, consumed) => StepView::Frame(m@, *consumed as int),
            DecodeOutcome::NeedBytes => StepView::NeedBytes,
            DecodeOutcome::EndOfStream => StepView::EndOfStream,
            DecodeOutcome::FramingError => StepView::FramingError,
        }
    }
}

/// Relies on `String::from_utf8`: it succeeds exactly when the bytes are
/// valid UTF-8, and the string it returns is the one those bytes spell.
#[verifier::external_body]
pub(crate) fn string_from_utf8(bytes: Vec<u8>) -> (parsed: Option<String>)
    ensures
        parsed is Some <==> valid_utf8(bytes@),
        parsed matches Some(s) ==> encode_utf8(s@) == bytes@,
{
    match String::from_utf8(bytes) {
        Ok(s) => Some(s),
        Err(_) => None,
    }
}

/// Parse the string field that spans the rest of a payload, after the
/// 4-byte discriminant.
fn parse_string_exec(payload: &Vec<u8>) -> (parsed: Option<String>)
    requires
        payload@.len() >= 4,
    ensures
        match parsed {
            Some(s) => parse_string_field(payload@.subrange(4, payload@.len() as int)) == Some(
                s@,
            ),
            None => parse_string_field(payload@.subrange(4, payload@.len() as int)) is None,
        },
{
    let n = payload.len();
    let ghost rest = payload@.subrange(4, n as int);
    if n < 12 {
        return None;
    }
    let count = u64_from_le_bytes_at(payload, 4);
    proof {
        assert(payload@.subrange(4, 12) =~= rest.subrange(0, 8));
    }
    if count != (n - 12) as u64 {
        return None;
    }
    let bytes = copy_range(payload, 12, n - 12);
    proof {
        assert(bytes@ =~= rest.subrange(8, rest.len() as int));
    }
    match string_from_utf8(bytes) {
        Some(s) => {
            proof {
                encode_utf8_decode_utf8(s@);
            }
            Some(s)
        },
        None => None,
    }
}

/// Parse a whole request payload; `None` is a framing error.
fn parse_command(payload: &Vec<u8>) -> (parsed: Option<EchoCommand>)
    ensures
        match parsed {
            Some(m) => parse_command_payload(payload@) == Some(m@),
            None => parse_command_payload(payload@) is None,
        },
{
    let n = payload.len();
    if n < 4 {
        return None;
    }
    let d = u32_from_le_bytes_at(payload, 0);
    let ghost rest = payload@.subrange(4, n as int);
    if d == 0 || d == 1 {
        match parse_string_exec(payload) {
            Some(s) => {
                if d == 0 {
                    Some(EchoCommand::Hello(s))
                } else {
                    Some(EchoCommand::Message(s))
                }
            },
            None => None,
        }
    } else if d == 2 {
        if n == 4 {
            proof {
                assert(rest.len() == 0);
            }
            Some(EchoCommand::Goodbye())
        } else {
            None
        }
    } else {
        None
    }
}

/// Parse a whole response payload; `None` is a framing error.
fn parse_response(payload: &Vec<u8>) -> (parsed: Option<EchoResponse>)
    ensures
        match parsed {
            Some(m) => parse_response_payload(payload@) == Some(m@),
            None => parse_response_payload(payload@) is None,
        },
{
    let n = payload.len();
    if n < 4 {
        return None;
    }
    let d = u32_from_le_bytes_at(payload, 0);
    let ghost rest = payload@.subrange(4, n as int);
    if d == 0 || d == 2 {
        match parse_string_exec(payload) {
            Some(s) => {
                if d == 0 {
                    Some(EchoResponse::EchoResponse(s))
                } else {
                    Some(EchoResponse::IdAssigned(s))
                }
            },
            None => None,
        }
    } else if d == 1 {
        if n == 4 {
            proof {
                assert(rest.len() == 0);
            }
            Some(EchoResponse::Goodbye())
        } else {
            None
        }
    } else {
        None
    }
}

/// Decode one request frame off the front of `buf`.  `closed` says whether
/// the underlying channel has reached its end.
pub fn decode_command(buf: &Vec<u8>, closed: bool) -> (outcome: DecodeOutcome<EchoCommand>)
    ensures
        outcome@ == command_step(buf@, closed),
{
    let n = buf.len();
    if n < 8 {
        if !closed {
            DecodeOutcome::NeedBytes
        } else if n == 0 {
            DecodeOutcome::EndOfStream
        } else {
            DecodeOutcome::FramingError
        }
    } else {
        let frame_len = u64_from_be_bytes_at(buf, 0);
        if frame_len > (n - 8) as u64 {
            if closed {
                DecodeOutcome::FramingError
            } else {
                DecodeOutcome::NeedBytes
            }
        } else {
            let payload_len = frame_len as usize;
            let payload = copy_range(buf, 8, payload_len);
            let consumed = 8 + payload_len;
            match parse_command(&payload) {
                Some(m) => DecodeOutcome::Frame(m, consumed),
                None => DecodeOutcome::FramingError,
            }
        }
    }
}

/// Decode one response frame off the front of `buf`.  `closed` says whether
/// the underlying channel has reached its end.
pub fn decode_response(buf: &Vec<u8>, closed: bool) -> (outcome: DecodeOutcome<EchoResponse>)
    ensures
        outcome@ == response_step(buf@, closed),
{
    let n = buf.len();
    if n < 8 {
        if !closed {
            DecodeOutcome::NeedBytes
        } else if n == 0 {
            DecodeOutcome::EndOfStream
        } else {
            DecodeOutcome::FramingError
        }
    } else {
        let frame_len = u64_from_be_bytes_at(buf, 0);
        if frame_len > (n - 8) as u64 {
            if closed {
                DecodeOutcome::FramingError
            } else {
                DecodeOutcome::NeedBytes
            }
        } else {
            let payload_len = frame_len as usize;
            let payload = copy_range(buf, 8, payload_len);
            let consumed = 8 + payload_len;
            match parse_response(&payload) {
                Some(m) => DecodeOutcome::Frame(m, consumed),
                None => DecodeOutcome::FramingError,
            }
        }
    }
}


/// Append a string field to a payload under construction.
fn push_string_field(dst: &mut Vec<u8>, s: &String)
    ensures
        final(dst)@ == old(dst)@ + string_field_bytes(s@),
{
    let bytes: &[u8] = s.as_str().as_bytes();
    let count = bytes.len();
    let len_bytes = u64_to_le_bytes(count as u64);
    append_bytes(dst, len_bytes.as_slice());
    append_bytes(dst, bytes);
    proof {
        assert(dst@ =~= old(dst)@ + string_field_bytes(s@));
    }
}

impl EchoCommand {
    /// Encode this request as one frame of the wire format.
    pub fn encode(&self) -> (bytes: Vec<u8>)
        ensures
            bytes@ == command_frame_bytes(self@),
            wf_command(self@),
    {
        proof {
            lemma_auto_spec_u32_to_from_le_bytes();
            lemma_auto_spec_u64_to_from_le_bytes();
        }
        let mut payload: Vec<u8> = Vec::new();
        match self {
            EchoCommand::Hello(s) => {
                let d = u32_to_le_bytes(0);
                append_bytes(&mut payload, d.as_slice());
                push_string_field(&mut payload, s);
            },
            EchoCommand::Message(s) => {
                let d = u32_to_le_bytes(1);
                append_bytes(&mut payload, d.as_slice());
                push_string_field(&mut payload, s);
            },
            EchoCommand::Goodbye() => {
                let d = u32_to_le_bytes(2);
                append_bytes(&mut payload, d.as_slice());
            },
        }
        proof {
            assert(payload@ =~= command_payload_bytes(self@));
        }
        let payload_len = payload.len();
        let mut bytes = u64_to_be_byte_vec(payload_len as u64);
        append_bytes(&mut bytes, payload.as_slice());
        proof {
            assert(bytes@ =~= command_frame_bytes(self@));
        }
        bytes
    }
}

impl EchoResponse {
    /// Encode this response as one frame of the wire format.
    pub fn encode(&self) -> (bytes: Vec<u8>)
        ensures
            bytes@ == response_frame_bytes(self@),
            wf_response(self@),
    {
        proof {
            lemma_auto_spec_u32_to_from_le_bytes();
            lemma_auto_spec_u64_to_from_le_bytes();
        }
        let mut payload: Vec<u8> = Vec::new();
        match self {
            EchoResponse::EchoResponse(s) => {
                let d = u32_to_le_bytes(0);
                append_bytes(&mut payload, d.as_slice());
                push_string_field(&mut payload, s);
            },
            EchoResponse::Goodbye() => {
                let d = u32_to_le_bytes(1);
                append_bytes(&mut payload, d.as_slice());
            },
            EchoResponse::IdAssigned(s) => {
                let d = u32_to_le_bytes(2);
                append_bytes(&mut payload, d.as_slice());
                push_string_field(&mut payload, s);
            },
        }
        proof {
            assert(payload@ =~= response_payload_bytes(self@));
        }
        let payload_len = payload.len();
        let mut bytes = u64_to_be_byte_vec(payload_len as u64);
        append_bytes(&mut bytes, payload.as_slice());
        proof {
            assert(bytes@ =~= response_frame_bytes(self@));
        }
        bytes
    }
}


/// The payload bytes of a well-formed request parse back to that request.
pub proof fn lemma_command_payload_round_trip(m: CommandView)
    requires
        wf_command(m),
    ensures
        parse_command_payload(command_payload_bytes(m)) == Some(m),
{
    lemma_auto_spec_u32_to_from_le_bytes();
    lemma_auto_spec_u64_to_from_le_bytes();
    let p = command_payload_bytes(m);
    match m {
        CommandView::Hello(s) => {
            lemma_string_field_round_trip(s, p, 0u32);
        },
        CommandView::Message(s) => {
            lemma_string_field_round_trip(s, p, 1u32);
        },
        CommandView::Goodbye => {
            assert(p.subrange(0, 4) =~= spec_u32_to_le_bytes(2u32));
            assert(p.subrange(4, p.len() as int).len() == 0);
        },
    }
}

/// The payload bytes of a well-formed response parse back to that response.
pub proof fn lemma_response_payload_round_trip(m: ResponseView)
    requires
        wf_response(m),
    ensures
        parse_response_payload(response_payload_bytes(m)) == Some(m),
{
    lemma_auto_spec_u32_to_from_le_bytes();
    lemma_auto_spec_u64_to_from_le_bytes();
    let p = response_payload_bytes(m);
    match m {
        ResponseView::EchoResponse(s) => {
            lemma_string_field_round_trip(s, p, 0u32);
        },
        ResponseView::Goodbye => {
            assert(p.subrange(0, 4) =~= spec_u32_to_le_bytes(1u32));
            assert(p.subrange(4, p.len() as int).len() == 0);
        },
        ResponseView::IdAssigned(s) => {
            lemma_string_field_round_trip(s, p, 2u32);
        },
    }
}

/// A payload of the shape discriminant-then-string-field parses back to the
/// discriminant and the string.
proof fn lemma_string_field_round_trip(s: Seq<char>, p: Seq<u8>, d: u32)
    requires
        wf_string(s),
        p == spec_u32_to_le_bytes(d) + string_field_bytes(s),
    ensures
        spec_u32_from_le_bytes(p.subrange(0, 4)) == d,
        parse_string_field(p.subrange(4, p.len() as int)) == Some(s),
{
    lemma_auto_spec_u32_to_from_le_bytes();
    lemma_auto_spec_u64_to_from_le_bytes();
    let u = encode_utf8(s);
    assert(p.subrange(0, 4) =~= spec_u32_to_le_bytes(d));
    let rest = p.subrange(4, p.len() as int);
    assert(rest =~= string_field_bytes(s));
    assert(rest.subrange(0, 8) =~= spec_u64_to_le_bytes(u.len() as u64));
    assert(rest.subrange(8, rest.len() as int) =~= u);
    encode_utf8_valid_utf8(s);
    encode_utf8_decode_utf8(s);
}

/// Framing round-trip: a frame that carries a well-formed request decodes
/// back to that request, whatever bytes follow it in the buffer and whether
/// or not the channel has closed behind them.
pub proof fn lemma_command_round_trip(m: CommandView, rest: Seq<u8>, closed: bool)
    requires
        wf_command(m),
    ensures
        command_step(command_frame_bytes(m) + rest, closed) == StepView::Frame(
            m,
            command_frame_bytes(m).len() as int,
        ),
{
    let p = command_payload_bytes(m);
    let b = command_frame_bytes(m) + rest;
    lemma_command_payload_length(m);
    lemma_u64_be_bytes_round_trip(p.len() as u64);
    assert(b.subrange(0, 8) =~= spec_u64_to_be_bytes(p.len() as u64));
    assert(b.subrange(8, 8 + p.len() as int) =~= p);
    lemma_command_payload_round_trip(m);
}

/// Framing round-trip for responses, as for requests.
pub proof fn lemma_response_round_trip(m: ResponseView, rest: Seq<u8>, closed: bool)
    requires
        wf_response(m),
    ensures
        response_step(response_frame_bytes(m) + rest, closed) == StepView::Frame(
            m,
            response_frame_bytes(m).len() as int,
        ),
{
    let p = response_payload_bytes(m);
    let b = response_frame_bytes(m) + rest;
    lemma_response_payload_length(m);
    lemma_u64_be_bytes_round_trip(p.len() as u64);
    assert(b.subrange(0, 8) =~= spec_u64_to_be_bytes(p.len() as u64));
    assert(b.subrange(8, 8 + p.len() as int) =~= p);
    lemma_response_payload_round_trip(m);
}

/// The payload of a well-formed request fits the length prefix.
proof fn lemma_command_payload_length(m: CommandView)
    requires
        wf_command(m),
    ensures
        command_payload_bytes(m).len() <= u64::MAX,
{
    lemma_auto_spec_u32_to_from_le_bytes();
    lemma_auto_spec_u64_to_from_le_bytes();
}

/// The payload of a well-formed response fits the length prefix.
proof fn lemma_response_payload_length(m: ResponseView)
    requires
        wf_response(m),
    ensures
        response_payload_bytes(m).len() <= u64::MAX,
{
    lemma_auto_spec_u32_to_from_le_bytes();
    lemma_auto_spec_u64_to_from_le_bytes();
}

/// A buffer whose bytes stop short of the length its prefix announces.
pub open spec fn incomplete_frame(b: Seq<u8>) -> bool {
    if b.len() < 8 {
        true
    } else {
        b.len() - 8 < spec_u64_from_be_bytes(b.subrange(0, 8))
    }
}

/// Truncated frame: when the channel closes in the middle of a frame, the
/// decoders report a framing error, never a silent partial decode.
pub proof fn lemma_truncated_frame(b: Seq<u8>)
    requires
        b.len() > 0,
        incomplete_frame(b),
    ensures
        command_step(b, true) == StepView::<CommandView>::FramingError,
        response_step(b, true) == StepView::<ResponseView>::FramingError,
{
}

} // verus!
