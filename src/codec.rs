//! Splits an inbound byte stream into frames and passes outbound frames through.
use vstd::prelude::*;
use vstd::slice::{slice_subrange, slice_to_vec};
use crate::error::{Error, protocol_error};
use crate::message::{BackendMessage, be_u32, parse_message, parse_spec, read_u32};

verus! {

/// The outcome of one decode attempt that did not fail.
pub enum Decoded<T> {
    /// One whole frame was taken from the buffer.
    Item(T),
    /// The buffer does not yet hold a whole frame; nothing was taken.
    Insufficient,
}

/// The length field of the frame at the start of `b`, an unsigned big-endian
/// 32-bit number: it counts itself and the
/// payload, not the tag byte.
pub open spec fn declared_len(b: Seq<u8>) -> int {
    be_u32(b, 1)
}

/// `b` starts with a whole frame whose length field is valid.
pub open spec fn frame_ready(b: Seq<u8>) -> bool {
    b.len() >= 5 && declared_len(b) >= 4 && declared_len(b) + 1 <= b.len()
}

/// A buffer that holds only the first `k` bytes of a whole frame `b` does not
/// hold a frame yet: decoding it reports `Insufficient` and takes nothing. Once
/// the remaining bytes are appended the buffer is `b` again, and decoding takes
/// exactly the declared length plus one bytes, leaving what follows the frame.
pub proof fn lemma_partial_then_whole(b: Seq<u8>, k: int)
    requires
        frame_ready(b),
        0 <= k < declared_len(b) + 1,
    ensures
        !frame_ready(b.subrange(0, k)),
        k >= 5 ==> declared_len(b.subrange(0, k)) == declared_len(b),
        b.subrange(0, k) + b.subrange(k, b.len() as int) == b,
        b.subrange(declared_len(b) + 1, b.len() as int).len() == b.len() - (declared_len(b) + 1),
{
    assert(b.subrange(0, k) + b.subrange(k, b.len() as int) =~= b);
}

/// How many leading bytes of `src` a decode needs to see: the whole first
/// frame when it is there, the header when its length field is invalid, and
/// nothing while the frame is incomplete. Decoding just those bytes gives what
/// decoding all of `src` gives, and takes the same bytes.
pub fn frame_extent(src: &[u8]) -> (r: usize)
    ensures
        r <= src@.len(),
        frame_ready(src@) ==> r == declared_len(src@) + 1 && frame_ready(src@.subrange(0, r as int))
            && declared_len(src@.subrange(0, r as int)) == declared_len(src@),
        src@.len() >= 5 && declared_len(src@) < 4 ==> r == 5 && declared_len(src@.subrange(0, 5)) < 4,
        !frame_ready(src@) && !(src@.len() >= 5 && declared_len(src@) < 4) ==> r == 0,
{
    if src.len() < 5 {
        return 0;
    }
    let len = read_u32(src, 1);
    if len < 4 {
        return 5;
    }
    if (src.len() as u64) < len as u64 + 1 {
        return 0;
    }
    len as usize + 1
}

/// The frame codec. It keeps no state between calls.
pub struct PostgresCodec;

impl PostgresCodec {
    pub fn new() -> (r: PostgresCodec) {
        PostgresCodec
    }

    /// Takes one frame from the front of `src` and parses it. A frame is taken
    /// whole or not at all.
    pub fn decode(&mut self, src: &mut Vec<u8>) -> (r: Result<Decoded<BackendMessage>, Error>)
        ensures
            old(src)@.len() < 5 ==> (r matches Ok(Decoded::Insufficient)) && final(src)@ == old(src)@,
            old(src)@.len() >= 5 && declared_len(old(src)@) < 4 ==> (r matches Err(Error::Protocol(_)))
                && final(src)@ == old(src)@,
            old(src)@.len() >= 5 && declared_len(old(src)@) >= 4 && !frame_ready(old(src)@) ==> (r matches Ok(
                Decoded::Insufficient,
            )) && final(src)@ == old(src)@,
            frame_ready(old(src)@) ==> {
                let b = old(src)@;
                let end = declared_len(b) + 1;
                &&& final(src)@ == b.subrange(end, b.len() as int)
                &&& match parse_spec(b[0], b.subrange(5, end)) {
                    Some(m) => r matches Ok(Decoded::Item(x)) && x@ == m,
                    None => r matches Err(Error::Protocol(_)),
                }
            },
    {
        if src.len() < 5 {
            return Ok(Decoded::Insufficient);
        }
        let len = read_u32(src.as_slice(), 1);
        if len < 4 {
            return Err(protocol_error("invalid message length"));
        }
        if (src.len() as u64) < len as u64 + 1 {
            return Ok(Decoded::Insufficient);
        }
        let end = len as usize + 1;
        let tag = src[0];
        let parsed = parse_message(tag, slice_subrange(src.as_slice(), 5, end));
        let rest = slice_to_vec(slice_subrange(src.as_slice(), end, src.len()));
        *src = rest;
        match parsed {
            Ok(m) => Ok(Decoded::Item(m)),
            Err(e) => Err(e),
        }
    }

    /// Appends an already serialized outbound frame to `dst`, unchanged.
    pub fn encode(&mut self, item: Vec<u8>, dst: &mut Vec<u8>) -> (r: Result<(), Error>)
        ensures
            r is Ok,
            final(dst)@ == old(dst)@ + item@,
    {
        let mut item = item;
        dst.append(&mut item);
        Ok(())
    }
}

} // verus!
