//! Frames: a message on a connection is its length in four bytes, the highest
//! first, followed by the message itself.
use vstd::prelude::*;

use crate::agreement::NetError;
use crate::bytes::{be_bytes, be_value, high_bytes, lemma_four_bytes, read_four};

verus! {

/// The bytes that tell the length of a message.
pub const LENGTH_PREFIX_BYTES: usize = 4;

/// The longest message that is read. The length comes from the other side, so
/// it is checked before memory is set aside for it.
pub const MAX_MESSAGE_PAYLOAD_BYTES: usize = 1_048_576;

/// A message with its length in front.
pub open spec fn packed(payload: Seq<u8>) -> Seq<u8> {
    be_bytes(payload.len(), LENGTH_PREFIX_BYTES as nat) + payload
}

/// What becomes of a message that is to be written: its length must fit into
/// its four bytes.
pub open spec fn written(payload: Seq<u8>) -> Result<Seq<u8>, NetError> {
    if payload.len() > u32::MAX {
        Err(NetError::TooLong { length: payload.len() as usize })
    } else {
        Ok(packed(payload))
    }
}

/// The length that the first bytes of a frame tell, if it is not too long.
pub open spec fn told_length(prefix: Seq<u8>) -> Result<usize, NetError> {
    let length = be_value(prefix) as usize;
    if length > MAX_MESSAGE_PAYLOAD_BYTES {
        Err(NetError::TooLong { length })
    } else {
        Ok(length)
    }
}

/// The first message in the bytes, and how many bytes it takes up.
pub open spec fn first_message(bytes: Seq<u8>) -> Result<(Seq<u8>, int), NetError> {
    if bytes.len() < LENGTH_PREFIX_BYTES {
        Err(NetError::Truncated)
    } else {
        match told_length(bytes.take(LENGTH_PREFIX_BYTES as int)) {
            Err(e) => Err(e),
            Ok(length) => if bytes.len() - LENGTH_PREFIX_BYTES < length {
                Err(NetError::Truncated)
            } else {
                Ok(
                    (
                        bytes.subrange(LENGTH_PREFIX_BYTES as int, LENGTH_PREFIX_BYTES + length),
                        LENGTH_PREFIX_BYTES + length,
                    ),
                )
            },
        }
    }
}

/// Puts the length in front of a message.
pub fn write_frame(payload: &Vec<u8>) -> (r: Result<Vec<u8>, NetError>)
    ensures
        match written(payload@) {
            Ok(frame) => r matches Ok(v) && v@ == frame,
            Err(e) => r == Err::<Vec<u8>, NetError>(e),
        },
{
    let n: usize = payload.len();
    if n as u64 > u32::MAX as u64 {
        return Err(NetError::TooLong { length: n });
    }
    let mut frame: Vec<u8> = high_bytes(n as u64, LENGTH_PREFIX_BYTES);
    let ghost head = frame@;
    let mut i: usize = 0;
    while i < n
        invariant
            n == payload@.len(),
            i <= n,
            frame@ =~= head + payload@.take(i as int),
        decreases n - i,
    {
        frame.push(payload[i]);
        i = i + 1;
    }
    assert(payload@.take(n as int) =~= payload@);
    Ok(frame)
}

/// Reads the length of a message out of its first four bytes, and refuses one
/// that is too long.
pub fn payload_length(prefix: [u8; 4]) -> (r: Result<usize, NetError>)
    ensures
        r == told_length(prefix@),
{
    let length: usize = read_four(prefix[0], prefix[1], prefix[2], prefix[3]) as usize;
    assert(prefix@ =~= seq![prefix[0], prefix[1], prefix[2], prefix[3]]);
    if length > MAX_MESSAGE_PAYLOAD_BYTES {
        Err(NetError::TooLong { length })
    } else {
        Ok(length)
    }
}

/// Reads the first message, and tells how many bytes it takes up.
pub fn read_frame(bytes: &[u8]) -> (r: Result<(Vec<u8>, usize), NetError>)
    ensures
        match first_message(bytes@) {
            Ok((payload, used)) => r matches Ok(got) && got.0@ == payload && got.1 == used,
            Err(e) => r == Err::<(Vec<u8>, usize), NetError>(e),
        },
{
    if bytes.len() < LENGTH_PREFIX_BYTES {
        return Err(NetError::Truncated);
    }
    let prefix: [u8; 4] = [bytes[0], bytes[1], bytes[2], bytes[3]];
    assert(prefix@ =~= bytes@.take(4));
    match payload_length(prefix) {
        Err(e) => Err(e),
        Ok(length) => {
            if bytes.len() - LENGTH_PREFIX_BYTES < length {
                return Err(NetError::Truncated);
            }
            let mut payload: Vec<u8> = Vec::new();
            let mut i: usize = 0;
            while i < length
                invariant
                    i <= length,
                    length <= bytes@.len() - LENGTH_PREFIX_BYTES,
                    length <= MAX_MESSAGE_PAYLOAD_BYTES,
                    payload@ =~= bytes@.subrange(4, 4 + i),
                decreases length - i,
            {
                payload.push(bytes[LENGTH_PREFIX_BYTES + i]);
                i = i + 1;
            }
            Ok((payload, LENGTH_PREFIX_BYTES + length))
        },
    }
}

/// What is written is read back, whatever follows it: messages written one
/// after the other are read one after the other.
pub proof fn law_frames_are_read_back(payload: Seq<u8>, rest: Seq<u8>)
    requires
        payload.len() <= MAX_MESSAGE_PAYLOAD_BYTES,
    ensures
        written(payload) == Ok::<Seq<u8>, NetError>(packed(payload)),
        first_message(packed(payload) + rest) == Ok::<(Seq<u8>, int), NetError>(
            (payload, packed(payload).len() as int),
        ),
        (packed(payload) + rest).skip(packed(payload).len() as int) == rest,
{
    lemma_four_bytes(payload.len());
    let bytes = packed(payload) + rest;
    assert(bytes.take(4) =~= be_bytes(payload.len(), 4));
    assert(bytes.subrange(4, 4 + payload.len() as int) =~= payload);
    assert(bytes.skip(packed(payload).len() as int) =~= rest);
}

/// A length over the limit is refused, whether or not anything follows it.
pub proof fn law_long_messages_are_refused(length: u32, rest: Seq<u8>)
    requires
        length > MAX_MESSAGE_PAYLOAD_BYTES,
    ensures
        first_message(be_bytes(length as nat, 4) + rest) == Err::<(Seq<u8>, int), NetError>(
            NetError::TooLong { length: length as usize },
        ),
{
    lemma_four_bytes(length as nat);
    let bytes = be_bytes(length as nat, 4) + rest;
    assert(bytes.take(4) =~= be_bytes(length as nat, 4));
}

/// A message of which the end is missing is not read.
pub proof fn law_cut_messages_are_refused(payload: Seq<u8>, k: int)
    requires
        payload.len() <= MAX_MESSAGE_PAYLOAD_BYTES,
        0 <= k < packed(payload).len(),
    ensures
        first_message(packed(payload).take(k)) == Err::<(Seq<u8>, int), NetError>(NetError::Truncated),
{
    lemma_four_bytes(payload.len());
    let bytes = packed(payload).take(k);
    if k >= 4 {
        assert(bytes.take(4) =~= be_bytes(payload.len(), 4));
    }
}

} // verus!
