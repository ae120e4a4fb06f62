//! Length-prefixed frames.
//!
//! A frame is a length of four bytes, most significant byte first, followed
//! by exactly that many bytes of payload. `frame_of` and `parse_frame`
//! define the two directions on byte sequences.

use crate::error::{ChatError, FormatError, TransportError};
use vstd::prelude::*;

verus! {

/// The number of bytes of the length prefix.
pub const LENGTH_PREFIX: usize = 4;

/// The longest payload that a length prefix can announce.
pub const MAX_PAYLOAD: usize = 0xFFFF_FFFF;

/// The four bytes of `n`, most significant first.
pub open spec fn be32(n: nat) -> Seq<u8> {
    seq![
        ((n / 0x100_0000) % 0x100) as u8,
        ((n / 0x1_0000) % 0x100) as u8,
        ((n / 0x100) % 0x100) as u8,
        (n % 0x100) as u8,
    ]
}

/// The number that the first four bytes of `b` stand for.
pub open spec fn be32_value(b: Seq<u8>) -> nat {
    (b[0] as nat) * 0x100_0000 + (b[1] as nat) * 0x1_0000 + (b[2] as nat) * 0x100 + (b[3] as nat)
}

/// The frame that carries `payload`.
pub open spec fn frame_of(payload: Seq<u8>) -> Seq<u8> {
    be32(payload.len()) + payload
}

/// The payload of the frame that `bytes` is, or what is wrong with `bytes`:
/// nothing at all is a closed stream, too little a stream closed inside a
/// frame, too much a length prefix that does not match.
pub open spec fn parse_frame(bytes: Seq<u8>) -> Result<Seq<u8>, ChatError> {
    if bytes.len() == 0 {
        Err(ChatError::Transport(TransportError::Closed))
    } else if bytes.len() < LENGTH_PREFIX || bytes.len() < LENGTH_PREFIX + be32_value(bytes) {
        Err(ChatError::Transport(TransportError::ClosedMidFrame))
    } else if bytes.len() > LENGTH_PREFIX + be32_value(bytes) {
        Err(ChatError::Format(FormatError::FrameLength))
    } else {
        Ok(bytes.skip(LENGTH_PREFIX as int))
    }
}

/// How many more bytes a reader needs that has received `bytes` of a frame
/// so far: the rest of the length prefix first, then the rest of the payload.
pub open spec fn missing_bytes(bytes: Seq<u8>) -> int {
    if bytes.len() < LENGTH_PREFIX {
        LENGTH_PREFIX - bytes.len()
    } else {
        LENGTH_PREFIX + be32_value(bytes) - bytes.len()
    }
}

/// The length prefix stands for the length it was made from.
pub proof fn lemma_be32_value(n: nat)
    requires
        n <= u32::MAX,
    ensures
        be32(n).len() == 4,
        be32_value(be32(n)) == n,
{
}

/// Reading a written frame gives the payload back.
pub proof fn lemma_frame_round_trip(payload: Seq<u8>)
    requires
        payload.len() <= u32::MAX,
    ensures
        parse_frame(frame_of(payload)) == Ok::<Seq<u8>, ChatError>(payload),
{
    let frame = frame_of(payload);
    lemma_be32_value(payload.len());
    assert(frame[0] == be32(payload.len())[0]);
    assert(frame[1] == be32(payload.len())[1]);
    assert(frame[2] == be32(payload.len())[2]);
    assert(frame[3] == be32(payload.len())[3]);
    assert(frame.skip(4) =~= payload);
}

/// Four bytes are the length prefix of the number they stand for.
proof fn lemma_be32_of_value(b: Seq<u8>)
    requires
        b.len() >= 4,
    ensures
        be32_value(b) <= u32::MAX,
        be32(be32_value(b)) == b.take(4),
{
    let n = be32_value(b);
    let (b0, b1, b2, b3) = (b[0] as int, b[1] as int, b[2] as int, b[3] as int);
    assert(n == b0 * 0x100_0000 + b1 * 0x1_0000 + b2 * 0x100 + b3);
    assert(n / 0x100 == b0 * 0x1_0000 + b1 * 0x100 + b2);
    assert(n / 0x1_0000 == b0 * 0x100 + b1);
    assert(n / 0x100_0000 == b0);
    assert(be32(n) =~= b.take(4));
}

/// Only the frame of a payload reads as that payload.
pub proof fn lemma_frame_unique(bytes: Seq<u8>, payload: Seq<u8>)
    requires
        parse_frame(bytes) == Ok::<Seq<u8>, ChatError>(payload),
    ensures
        bytes == frame_of(payload),
        payload.len() <= u32::MAX,
{
    lemma_be32_of_value(bytes);
    assert(bytes =~= bytes.take(4) + bytes.skip(4));
}

/// The frame that carries `data`: its length in four bytes, most
/// significant first, then `data`. Data too long for the length prefix is
/// refused.
pub fn write_length_prefixed(data: &[u8]) -> (r: Result<Vec<u8>, ChatError>)
    ensures
        data@.len() <= MAX_PAYLOAD ==> (r matches Ok(frame) && frame@ == frame_of(data@)),
        data@.len() > MAX_PAYLOAD ==> r == Err::<Vec<u8>, ChatError>(
            ChatError::Format(FormatError::FrameLength),
        ),
{
    let n = data.len();
    if n > MAX_PAYLOAD {
        return Err(ChatError::Format(FormatError::FrameLength));
    }
    let mut frame: Vec<u8> = Vec::new();
    frame.push(((n / 0x100_0000) % 0x100) as u8);
    frame.push(((n / 0x1_0000) % 0x100) as u8);
    frame.push(((n / 0x100) % 0x100) as u8);
    frame.push((n % 0x100) as u8);
    let mut i: usize = 0;
    while i < n
        invariant
            i <= n == data@.len(),
            frame@ == be32(n as nat) + data@.take(i as int),
        decreases n - i,
    {
        frame.push(data[i]);
        assert(data@.take(i as int).push(data@[i as int]) =~= data@.take(i as int + 1));
        i += 1;
    }
    proof {
        assert(data@.take(n as int) =~= data@);
    }
    Ok(frame)
}

/// The payload length that the length prefix at the start of `bytes`
/// announces.
fn announced_length(bytes: &[u8]) -> (n: usize)
    requires
        bytes@.len() >= LENGTH_PREFIX,
    ensures
        n == be32_value(bytes@),
        n <= MAX_PAYLOAD,
{
    let b0 = bytes[0] as u32;
    let b1 = bytes[1] as u32;
    let b2 = bytes[2] as u32;
    let b3 = bytes[3] as u32;
    (b0 * 0x100_0000 + b1 * 0x1_0000 + b2 * 0x100 + b3) as usize
}

/// A copy of the bytes of `bytes` from `from` on.
fn copy_from(bytes: &[u8], from: usize) -> (out: Vec<u8>)
    requires
        from <= bytes@.len(),
    ensures
        out@ == bytes@.skip(from as int),
{
    let mut out: Vec<u8> = Vec::new();
    let mut i = from;
    while i < bytes.len()
        invariant
            from <= i <= bytes@.len(),
            out@ == bytes@.subrange(from as int, i as int),
        decreases bytes@.len() - i,
    {
        out.push(bytes[i]);
        assert(bytes@.subrange(from as int, i as int).push(bytes@[i as int]) =~= bytes@.subrange(
            from as int,
            i as int + 1,
        ));
        i += 1;
    }
    out
}

/// The payload of the frame that `bytes` is.
pub fn read_length_prefixed(bytes: &[u8]) -> (r: Result<Vec<u8>, ChatError>)
    ensures
        match parse_frame(bytes@) {
            Ok(payload) => r matches Ok(p) && p@ == payload,
            Err(e) => r matches Err(err) && err == e,
        },
{
    let len = bytes.len();
    if len == 0 {
        return Err(ChatError::Transport(TransportError::Closed));
    }
    if len < LENGTH_PREFIX {
        return Err(ChatError::Transport(TransportError::ClosedMidFrame));
    }
    let announced = announced_length(bytes);
    let carried = len - LENGTH_PREFIX;
    if carried < announced {
        Err(ChatError::Transport(TransportError::ClosedMidFrame))
    } else if carried > announced {
        Err(ChatError::Format(FormatError::FrameLength))
    } else {
        Ok(copy_from(bytes, LENGTH_PREFIX))
    }
}

/// Collects one frame from a stream that hands over its bytes piece by
/// piece. It never holds more than one frame.
pub struct FrameReader {
    buffer: Vec<u8>,
}

impl View for FrameReader {
    type V = Seq<u8>;

    /// The bytes received so far.
    closed spec fn view(&self) -> Seq<u8> {
        self.buffer@
    }
}

impl FrameReader {
    #[verifier::type_invariant]
    spec fn within_frame(self) -> bool {
        missing_bytes(self.buffer@) >= 0
    }

    /// A reader that has received nothing.
    pub fn new() -> (reader: FrameReader)
        ensures
            reader@ == Seq::<u8>::empty(),
    {
        FrameReader { buffer: Vec::new() }
    }

    /// How many bytes the reader still needs: first what is left of the
    /// length prefix, then what is left of the payload. Zero when the frame
    /// is complete.
    pub fn missing(&self) -> (n: usize)
        ensures
            n == missing_bytes(self@),
    {
        proof {
            use_type_invariant(self);
        }
        let len = self.buffer.len();
        if len < LENGTH_PREFIX {
            LENGTH_PREFIX - len
        } else {
            announced_length(self.buffer.as_slice()) - (len - LENGTH_PREFIX)
        }
    }

    /// Takes the next bytes of the stream, as many of `chunk` as are still
    /// missing, and returns how many it took.
    pub fn push(&mut self, chunk: &[u8]) -> (taken: usize)
        ensures
            taken == if chunk@.len() <= missing_bytes(old(self)@) {
                chunk@.len() as int
            } else {
                missing_bytes(old(self)@)
            },
            final(self)@ == old(self)@ + chunk@.take(taken as int),
    {
        let missing = self.missing();
        let taken = if chunk.len() <= missing {
            chunk.len()
        } else {
            missing
        };
        let ghost before = self.buffer@;
        let mut buffer: Vec<u8> = Vec::new();
        std::mem::swap(&mut buffer, &mut self.buffer);
        let mut i: usize = 0;
        while i < taken
            invariant
                i <= taken <= chunk@.len(),
                buffer@ == before + chunk@.take(i as int),
            decreases taken - i,
        {
            buffer.push(chunk[i]);
            assert(chunk@.take(i as int).push(chunk@[i as int]) =~= chunk@.take(i as int + 1));
            i += 1;
        }
        proof {
            let after = before + chunk@.take(taken as int);
            if before.len() >= LENGTH_PREFIX {
                assert(after[0] == before[0] && after[1] == before[1] && after[2] == before[2]
                    && after[3] == before[3]);
            }
        }
        self.buffer = buffer;
        taken
    }

    /// The payload of the frame, once nothing is missing; before that, the
    /// error of a stream that ended where the reader stands.
    pub fn finish(self) -> (r: Result<Vec<u8>, ChatError>)
        ensures
            match parse_frame(self@) {
                Ok(payload) => r matches Ok(p) && p@ == payload,
                Err(e) => r matches Err(err) && err == e,
            },
            r is Ok <==> missing_bytes(self@) == 0,
    {
        proof {
            use_type_invariant(&self);
        }
        read_length_prefixed(self.buffer.as_slice())
    }
}

} // verus!
