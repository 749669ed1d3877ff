//! The medium that whole messages travel over, and how they are framed on a byte stream.

use crate::bytes::{
    be_bytes, be_value, law_be_round_trip, law_be_unique, lemma_be_bytes_len, lemma_pow256,
    push_be, read_be,
};
use crate::error::AirError;
use vstd::prelude::*;

verus! {

/// One call of a transport and what came of it.
pub enum TransportEvent {
    /// `frame` was handed over, and refused with `error` or taken.
    Send { frame: Seq<u8>, error: Option<std::io::Error> },
    /// The next frame was asked for, of at most `max_len` bytes.
    Recv { max_len: u32, answer: Result<Seq<u8>, std::io::Error> },
}

/// A received frame with its bytes in view.
pub open spec fn frame_view(r: Result<Vec<u8>, std::io::Error>) -> Result<Seq<u8>, std::io::Error> {
    match r {
        Ok(f) => Ok(f@),
        Err(e) => Err(e),
    }
}

/// The error of a call that returns nothing else.
pub open spec fn send_error(r: Result<(), std::io::Error>) -> Option<std::io::Error> {
    match r {
        Ok(_) => None,
        Err(e) => Some(e),
    }
}

/// Anything that can carry whole messages: a TCP connection, a pair of Bluetooth
/// characteristics. `trace` is the record of its calls; what a transport does with a frame is its
/// own affair.
pub trait Transport: Send {
    /// The calls made so far, in order. An implementation outside of proofs need not keep them.
    closed spec fn trace(&self) -> Seq<TransportEvent> {
        arbitrary()
    }

    /// Sends one whole message.
    fn send_frame(&mut self, data: &[u8]) -> (r: std::io::Result<()>)
        ensures
            final(self).trace() == old(self).trace().push(
                TransportEvent::Send { frame: data@, error: send_error(r) },
            ),
    ;

    /// Waits for the next whole message. One longer than `max_len` is refused: nobody can make the
    /// caller take in more.
    fn recv_frame(&mut self, max_len: u32) -> (r: std::io::Result<Vec<u8>>)
        ensures
            final(self).trace() == old(self).trace().push(
                TransportEvent::Recv { max_len, answer: frame_view(r) },
            ),
            r matches Ok(frame) ==> frame@.len() <= max_len,
    ;
}

/// The width of the length field in front of a message.
pub const LENGTH_BYTES: usize = 4;

/// A message as it stands on a byte stream: its length in four bytes, then the message.
pub open spec fn framed(data: Seq<u8>) -> Seq<u8> {
    be_bytes(data.len(), 4) + data
}

/// The first message of a byte stream and what follows it; `None` where the length field is over
/// `max_len`, or where the stream ends before the message does.
pub open spec fn take_frame(stream: Seq<u8>, max_len: nat) -> Option<(Seq<u8>, Seq<u8>)> {
    if stream.len() < 4 {
        None
    } else {
        let len = be_value(stream.take(4));
        if len > max_len || stream.len() < 4 + len {
            None
        } else {
            Some((stream.subrange(4, 4 + len as int), stream.skip(4 + len as int)))
        }
    }
}

/// The length field that goes in front of `data`.
pub fn frame_header(data: &[u8]) -> (header: Vec<u8>)
    ensures
        header@ + data@ == framed(data@),
        header@.len() == LENGTH_BYTES,
{
    let mut header: Vec<u8> = Vec::new();
    push_be(&mut header, data.len() as u128, LENGTH_BYTES);
    proof {
        lemma_be_bytes_len(data@.len(), 4);
        assert(Seq::<u8>::empty() + be_bytes(data@.len(), 4) =~= be_bytes(data@.len(), 4));
    }
    header
}

/// How many bytes the message behind a length field has, unless that is over `max_len`.
pub fn frame_length(header: &[u8], max_len: u32) -> (r: Result<u32, AirError>)
    requires
        header@.len() == LENGTH_BYTES,
    ensures
        be_value(header@) <= max_len ==> r == Ok::<u32, AirError>(be_value(header@) as u32),
        be_value(header@) > max_len ==> r == Err::<u32, AirError>(AirError::FrameTooLarge),
{
    proof {
        lemma_pow256();
    }
    let len: u128 = read_be(header);
    if len > max_len as u128 {
        return Err(AirError::FrameTooLarge);
    }
    Ok(len as u32)
}

/// A message of less than four gigabytes is taken off the stream as it was put there, and what
/// follows it is left.
pub proof fn law_stream_keeps_messages(data: Seq<u8>, rest: Seq<u8>, max_len: nat)
    requires
        data.len() < 0x1_0000_0000,
    ensures
        take_frame(framed(data) + rest, max_len) == if data.len() <= max_len {
            Some((data, rest))
        } else {
            None
        },
{
    lemma_be_bytes_len(data.len(), 4);
    lemma_pow256();
    law_be_round_trip(data.len(), 4);
    let stream = framed(data) + rest;
    assert(stream.take(4) =~= be_bytes(data.len(), 4));
    if data.len() <= max_len {
        assert(stream.subrange(4, 4 + data.len() as int) =~= data);
        assert(stream.skip(4 + data.len() as int) =~= rest);
    }
}

/// What is taken off a stream, put back in front of the rest, is that stream.
pub proof fn law_nothing_is_lost(stream: Seq<u8>, max_len: nat)
    ensures
        take_frame(stream, max_len) matches Some((data, rest)) ==> framed(data) + rest == stream
            && data.len() <= max_len,
{
    if let Some((data, rest)) = take_frame(stream, max_len) {
        law_be_unique(stream.take(4));
        assert(framed(data) + rest =~= stream);
    }
}

} // verus!
