//! Framing: how one serialized message is delimited within the stream of
//! bytes. A frame is the length of the message, as four bytes with the most
//! significant first, followed by the message itself.

use crate::error::RpcError;
use vstd::prelude::*;

verus! {

/// The number of bytes that hold the length of a message.
pub const PREFIX_LEN: usize = 4;

/// The longest message that a frame can hold.
pub const MAX_MESSAGE_LEN: u64 = 0xffff_ffff;

/// The four bytes that stand for the length `n`, most significant first.
pub open spec fn length_prefix(n: nat) -> Seq<u8> {
    seq![
        (n / 0x100_0000) as u8,
        (n / 0x1_0000 % 0x100) as u8,
        (n / 0x100 % 0x100) as u8,
        (n % 0x100) as u8,
    ]
}

/// The length that the first four bytes of `bytes` stand for.
pub open spec fn prefixed_length(bytes: Seq<u8>) -> nat
    recommends
        bytes.len() >= 4,
{
    (bytes[0] as nat) * 0x100_0000 + (bytes[1] as nat) * 0x1_0000 + (bytes[2] as nat) * 0x100 + (
    bytes[3] as nat)
}

/// The frame that holds `message`.
pub open spec fn framed(message: Seq<u8>) -> Seq<u8> {
    length_prefix(message.len()) + message
}

/// The first message in `buffer` and the bytes that follow its frame, once
/// the whole frame has arrived.
pub open spec fn first_frame(buffer: Seq<u8>) -> Option<(Seq<u8>, Seq<u8>)> {
    if buffer.len() >= 4 && buffer.len() >= 4 + prefixed_length(buffer) {
        let end = 4 + prefixed_length(buffer) as int;
        Some((buffer.subrange(4, end), buffer.subrange(end, buffer.len() as int)))
    } else {
        None
    }
}

/// A length prefix stands for the length it was made from.
pub proof fn lemma_prefix_round_trip(n: nat)
    requires
        n <= MAX_MESSAGE_LEN,
    ensures
        length_prefix(n).len() == 4,
        prefixed_length(length_prefix(n)) == n,
{
}

/// What was framed is what comes out again: from a buffer that starts with
/// the frame of `message`, the first message is `message`, and what follows
/// the frame is left.
pub proof fn lemma_frame_round_trip(message: Seq<u8>, rest: Seq<u8>)
    requires
        message.len() <= MAX_MESSAGE_LEN,
    ensures
        first_frame(framed(message) + rest) == Some((message, rest)),
{
    lemma_prefix_round_trip(message.len());
    let buffer = framed(message) + rest;
    assert(buffer[0] == length_prefix(message.len())[0]);
    assert(buffer[1] == length_prefix(message.len())[1]);
    assert(buffer[2] == length_prefix(message.len())[2]);
    assert(buffer[3] == length_prefix(message.len())[3]);
    assert(prefixed_length(buffer) == message.len());
    let end = 4 + message.len() as int;
    assert(buffer.subrange(4, end) =~= message);
    assert(buffer.subrange(end, buffer.len() as int) =~= rest);
}

/// No message comes out of a frame of which a part is still missing.
pub proof fn lemma_partial_frame(message: Seq<u8>, arrived: int)
    requires
        message.len() <= MAX_MESSAGE_LEN,
        0 <= arrived < framed(message).len(),
    ensures
        first_frame(framed(message).subrange(0, arrived)) is None,
{
    lemma_prefix_round_trip(message.len());
    let part = framed(message).subrange(0, arrived);
    if arrived >= 4 {
        assert(part[0] == length_prefix(message.len())[0]);
        assert(part[1] == length_prefix(message.len())[1]);
        assert(part[2] == length_prefix(message.len())[2]);
        assert(part[3] == length_prefix(message.len())[3]);
        assert(prefixed_length(part) == message.len());
    }
}

/// Puts `message` into a frame. A message longer than the prefix can say
/// cannot be encoded.
pub fn encode_frame(message: &Vec<u8>) -> (frame: Result<Vec<u8>, RpcError>)
    ensures
        match frame {
            Ok(bytes) => message@.len() <= MAX_MESSAGE_LEN && bytes@ == framed(message@),
            Err(error) => message@.len() > MAX_MESSAGE_LEN && error == RpcError::EncodeError,
        },
{
    let n: usize = message.len();
    if n as u64 > MAX_MESSAGE_LEN {
        return Err(RpcError::EncodeError);
    }
    let mut bytes: Vec<u8> = Vec::new();
    bytes.push((n / 0x100_0000) as u8);
    bytes.push((n / 0x1_0000 % 0x100) as u8);
    bytes.push((n / 0x100 % 0x100) as u8);
    bytes.push((n % 0x100) as u8);
    assert(bytes@ =~= length_prefix(n as nat));
    let mut i: usize = 0;
    while i < n
        invariant
            n == message@.len(),
            i <= n,
            bytes@ =~= length_prefix(n as nat) + message@.subrange(0, i as int),
        decreases n - i,
    {
        bytes.push(message[i]);
        i += 1;
    }
    assert(message@.subrange(0, n as int) =~= message@);
    Ok(bytes)
}

/// The bytes that have arrived and have not yet been taken out as messages.
pub struct FrameBuffer {
    bytes: Vec<u8>,
}

impl View for FrameBuffer {
    type V = Seq<u8>;

    closed spec fn view(&self) -> Seq<u8> {
        self.bytes@
    }
}

impl FrameBuffer {
    /// A buffer into which nothing has arrived.
    pub fn new() -> (buffer: FrameBuffer)
        ensures
            buffer@ == Seq::<u8>::empty(),
    {
        FrameBuffer { bytes: Vec::new() }
    }

    /// The number of bytes waiting in the buffer.
    pub fn len(&self) -> (n: usize)
        ensures
            n == self@.len(),
    {
        self.bytes.len()
    }

    /// Appends the bytes that have just arrived.
    pub fn extend(&mut self, arrived: &Vec<u8>)
        ensures
            final(self)@ == old(self)@ + arrived@,
    {
        let mut i: usize = 0;
        while i < arrived.len()
            invariant
                i <= arrived@.len(),
                self.bytes@ =~= old(self).bytes@ + arrived@.subrange(0, i as int),
            decreases arrived.len() - i,
        {
            self.bytes.push(arrived[i]);
            i += 1;
        }
        assert(arrived@.subrange(0, arrived@.len() as int) =~= arrived@);
    }

    /// Takes the first message out of the buffer, once its whole frame has
    /// arrived; until then the buffer stays as it is.
    pub fn next_message(&mut self) -> (message: Option<Vec<u8>>)
        ensures
            match first_frame(old(self)@) {
                Some((first, rest)) => message matches Some(m) && m@ == first && final(self)@
                    == rest,
                None => message is None && final(self)@ == old(self)@,
            },
    {
        let available: usize = self.bytes.len();
        if available < PREFIX_LEN {
            return None;
        }
        let length: u64 = (self.bytes[0] as u64) * 0x100_0000 + (self.bytes[1] as u64) * 0x1_0000
            + (self.bytes[2] as u64) * 0x100 + (self.bytes[3] as u64);
        if (available as u64) < 4 + length {
            return None;
        }
        let end: usize = (4 + length) as usize;
        let rest = self.bytes.split_off(end);
        let message = self.bytes.split_off(PREFIX_LEN);
        self.bytes = rest;
        Some(message)
    }
}

} // verus!
