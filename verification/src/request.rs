//! The request that opens a transfer over the network: what the receiver makes of it, and what
//! the sender reads in the answer.

use crate::crypto::{
    channel_outcome, channel_received, channel_sent, code_digits, exchange, exchanged,
    plaintext_view, responder_ran, run_responder, ChannelView, SecureChannel, MAX_FRAME_LEN,
};
use crate::error::AirError;
use crate::paths::sanitized;
use crate::transfer::{
    decode_metadata, encode_metadata, law_metadata_round_trip, metadata_bytes, metadata_fields,
    MAX_FILE_SIZE,
};
use crate::transport::{Transport, TransportEvent};
use vstd::prelude::*;

verus! {

/// The longest answer to a request that is asked for.
pub const MAX_ANSWER_MESSAGE: u32 = 64;

/// What a receiver does with a request, before anybody is asked.
pub enum Screening {
    /// It makes no sense; the connection is dropped without a word.
    Ignore,
    /// The file is over [`MAX_FILE_SIZE`]; the answer is no.
    TooLarge,
    /// The user is to decide.
    Ask { file_name: String, file_size: u64 },
}

/// `s` is what is to be done with the request `meta`.
pub open spec fn screened_as(meta: Seq<u8>, s: Screening) -> bool {
    match metadata_fields(meta) {
        None => s is Ignore,
        Some(fields) => if fields.1 > MAX_FILE_SIZE {
            s is TooLarge
        } else {
            s matches Screening::Ask { file_name, file_size } && sanitized(fields.0, file_name@)
                && file_size == fields.1
        },
    }
}

/// Decides what is to be done with a request.
pub fn screen(meta: &[u8]) -> (s: Screening)
    ensures
        screened_as(meta@, s),
{
    match decode_metadata(meta) {
        Some((file_name, file_size)) => {
            if file_size > MAX_FILE_SIZE {
                Screening::TooLarge
            } else {
                Screening::Ask { file_name, file_size }
            }
        },
        None => Screening::Ignore,
    }
}

/// Yes or no, on the wire.
pub open spec fn answer_bytes(accept: bool) -> Seq<u8> {
    seq![
        if accept {
            1u8
        } else {
            0u8
        },
    ]
}

/// An answer that begins with a one is a yes; anything else is a no.
pub open spec fn is_approval(answer: Seq<u8>) -> bool {
    answer.len() > 0 && answer[0] == 1
}

/// Sends the answer to a request.
pub fn answer_request<T: Transport>(channel: &mut SecureChannel<T>, accept: bool) -> (r: Result<
    (),
    AirError,
>)
    requires
        old(channel)@.wf(),
    ensures
        final(channel)@.wf(),
        channel_sent(old(channel)@, answer_bytes(accept), final(channel)@, r),
{
    let byte: u8 = if accept {
        1
    } else {
        0
    };
    let answer: Vec<u8> = vec![byte];
    proof {
        assert(answer@ =~= answer_bytes(accept));
    }
    channel.send(answer.as_slice())
}

/// What follows from a message, or from there being none. Where the file is too large a no is
/// sent, and it does not matter whether that succeeds.
pub open spec fn message_settled(
    pre: ChannelView,
    message: Result<Seq<u8>, AirError>,
    post: ChannelView,
    r: Option<(Seq<char>, u64)>,
) -> bool {
    match message {
        Err(_) => post == pre && r is None,
        Ok(meta) => match metadata_fields(meta) {
            None => post == pre && r is None,
            Some(fields) => if fields.1 > MAX_FILE_SIZE {
                r is None && {
                    ||| channel_sent(pre, answer_bytes(false), post, Ok(()))
                    ||| exists|e: AirError| #[trigger]
                        channel_sent(pre, answer_bytes(false), post, Err(e))
                }
            } else {
                post == pre && (r matches Some(got) && sanitized(fields.0, got.0) && got.1
                    == fields.1)
            },
        },
    }
}

/// What happens on a channel between its handshake and the moment when the user is asked, if
/// there is such a moment.
pub open spec fn request_handled(
    pre: ChannelView,
    post: ChannelView,
    r: Option<(Seq<char>, u64)>,
) -> bool {
    exists|mid: ChannelView, message: Result<Seq<u8>, AirError>| #[trigger]
        channel_received(pre, MAX_FRAME_LEN, mid, message) && message_settled(
            mid,
            message,
            post,
            r,
        )
}

/// A request with its name in view.
pub open spec fn request_view(r: Option<(String, u64)>) -> Option<(Seq<char>, u64)> {
    match r {
        Some(request) => Some((request.0@, request.1)),
        None => None,
    }
}

/// Waits for a request on a channel, and turns away what the user need not be asked about.
pub fn handle_request<T: Transport>(channel: &mut SecureChannel<T>) -> (r: Option<(String, u64)>)
    requires
        old(channel)@.wf(),
    ensures
        final(channel)@.wf(),
        request_handled(old(channel)@, final(channel)@, request_view(r)),
        final(channel)@.hash == old(channel)@.hash,
        r matches Some(request) ==> request.1 <= MAX_FILE_SIZE,
{
    let received = channel.recv(MAX_FRAME_LEN);
    let ghost message = plaintext_view(received);
    let ghost mid = channel@;
    assert(channel_received(old(channel)@, MAX_FRAME_LEN, mid, message));
    match received {
        Ok(meta) => match screen(meta.as_slice()) {
            Screening::Ignore => None,
            Screening::TooLarge => {
                let _sent = answer_request(channel, false);
                None
            },
            Screening::Ask { file_name, file_size } => Some((file_name, file_size)),
        },
        Err(_) => None,
    }
}

/// A request that waits for the user's decision.
pub struct IncomingRequest<T: Transport> {
    pub file_name: String,
    pub file_size: u64,
    pub verification_code: String,
    pub channel: SecureChannel<T>,
}

/// A connection that ended before the user was asked: its handshake failed, or what came after it
/// was nothing to ask about.
pub open spec fn turned_away(pre: Seq<TransportEvent>, post: Seq<TransportEvent>) -> bool {
    ||| exists|e: AirError| #[trigger] responder_ran(pre, post, Err(e))
    ||| exists|c: ChannelView, left: ChannelView|
        c.wf() && responder_ran(pre, c.trace, channel_outcome(c)) && #[trigger] request_handled(
            c,
            left,
            None,
        ) && left.trace == post
}

/// Serves a new connection up to the point where the user is asked. Where it does not come to that
/// (no handshake, no request, or one that is turned away at once), the transport is handed back,
/// with all that went over it on record.
pub fn receive_request<T: Transport>(transport: T) -> (r: Result<IncomingRequest<T>, T>)
    ensures
        match r {
            Ok(request) => {
                &&& request.channel@.wf()
                &&& request.verification_code@ == code_digits(request.channel@.hash)
                &&& request.file_size <= MAX_FILE_SIZE
                &&& exists|c: ChannelView|
                    c.wf() && responder_ran(transport.trace(), c.trace, channel_outcome(c))
                        && #[trigger] request_handled(
                        c,
                        request.channel@,
                        Some((request.file_name@, request.file_size)),
                    )
            },
            Err(left) => turned_away(transport.trace(), left.trace()),
        },
{
    let ghost pre = transport.trace();
    let mut transport = transport;
    match run_responder(&mut transport) {
        Ok((noise, handshake_hash)) => {
            let mut channel = SecureChannel::over(transport, noise, handshake_hash);
            let ghost c = channel@;
            assert(c.wf() && responder_ran(pre, c.trace, channel_outcome(c)));
            match handle_request(&mut channel) {
                Some((file_name, file_size)) => {
                    let verification_code = channel.verification_code();
                    Ok(IncomingRequest { file_name, file_size, verification_code, channel })
                },
                None => {
                    let ghost left = channel@;
                    assert(request_handled(c, left, None));
                    assert(turned_away(pre, left.trace));
                    Err(channel.into_transport())
                },
            }
        },
        Err(e) => {
            assert(responder_ran(pre, transport.trace(), Err(e)));
            assert(turned_away(pre, transport.trace()));
            Err(transport)
        },
    }
}

/// Asks the receiver to take a file, and tells whether the answer was yes.
pub fn offer_file<T: Transport>(
    channel: &mut SecureChannel<T>,
    file_name: &str,
    file_size: u64,
) -> (r: Result<bool, AirError>)
    requires
        old(channel)@.wf(),
    ensures
        final(channel)@.wf(),
        exists|reply: Result<Seq<u8>, AirError>| #[trigger]
            exchanged(
                old(channel)@,
                metadata_bytes(file_name@, file_size),
                MAX_ANSWER_MESSAGE,
                final(channel)@,
                reply,
            ) && match reply {
                Ok(answer) => r == Ok::<bool, AirError>(is_approval(answer)),
                Err(e) => r == Err::<bool, AirError>(e),
            },
{
    let meta = encode_metadata(file_name, file_size);
    let reply = exchange(channel, meta.as_slice(), MAX_ANSWER_MESSAGE);
    let ghost seen = plaintext_view(reply);
    assert(exchanged(old(channel)@, meta@, MAX_ANSWER_MESSAGE, channel@, seen));
    match reply {
        Ok(answer) => Ok(answer.len() > 0 && answer[0] == 1),
        Err(e) => Err(e),
    }
}

/// A yes is read as a yes, and a no as a no.
pub proof fn law_answer_is_understood(accept: bool)
    ensures
        is_approval(answer_bytes(accept)) == accept,
{
}

/// A file over the limit is turned away whatever it is called, and nobody is asked; one within it
/// is put to the user under its own size.
pub proof fn law_limit_decides(file_name: Seq<char>, file_size: u64, s: Screening)
    requires
        vstd::utf8::encode_utf8(file_name).len() < 0x1_0000_0000,
        screened_as(metadata_bytes(file_name, file_size), s),
    ensures
        s is TooLarge <==> file_size > MAX_FILE_SIZE,
        file_size <= MAX_FILE_SIZE ==> (s matches Screening::Ask { file_name: n, file_size: z }
            && sanitized(file_name, n@) && z == file_size),
{
    law_metadata_round_trip(file_name, file_size, Seq::empty());
    assert(metadata_bytes(file_name, file_size) + Seq::<u8>::empty() =~= metadata_bytes(
        file_name,
        file_size,
    ));
}

} // verus!
