//! The negotiation over Bluetooth: an offer, and the network that the file is to travel over.

use crate::ble_transport::{
    decode_response, encode_response, response_bytes, response_of, HotspotResponse, ResponseView,
};
use crate::crypto::{
    channel_outcome, channel_received, channel_sent, exchange, exchanged, initiator_ran,
    perform_handshake_initiator, perform_handshake_responder, plaintext_view, responder_ran,
    ChannelView, SecureChannel,
};
use crate::error::AirError;
use crate::paths::sanitized;
use crate::request::{screen, Screening};
use crate::transfer::{encode_metadata, metadata_bytes, metadata_fields, MAX_FILE_SIZE};
use crate::transport::{Transport, TransportEvent};
use vstd::prelude::*;

verus! {

/// The longest message of a negotiation that is asked for.
pub const MAX_NEGOTIATION_MESSAGE: u32 = 4096;

/// What a reply to an offer means.
pub open spec fn understood(reply: Result<Seq<u8>, AirError>) -> Result<ResponseView, AirError> {
    match reply {
        Ok(bytes) => match response_of(bytes) {
            Some(response) => Ok(response),
            None => Err(AirError::InvalidResponse),
        },
        Err(e) => Err(e),
    }
}

/// The result of a negotiation with its texts in view.
pub open spec fn negotiation_view(r: Result<HotspotResponse, AirError>) -> Result<
    ResponseView,
    AirError,
> {
    match r {
        Ok(response) => Ok(response@),
        Err(e) => Err(e),
    }
}

/// An offer is made, and the reply to it read.
pub open spec fn negotiated(
    pre: ChannelView,
    file_name: Seq<char>,
    file_size: u64,
    post: ChannelView,
    r: Result<ResponseView, AirError>,
) -> bool {
    exists|reply: Result<Seq<u8>, AirError>| #[trigger]
        exchanged(
            pre,
            metadata_bytes(file_name, file_size),
            MAX_NEGOTIATION_MESSAGE,
            post,
            reply,
        ) && r == understood(reply)
}

/// Offers a file over a channel, and waits for the network to join, or for a no.
pub fn offer_over<T: Transport>(
    channel: &mut SecureChannel<T>,
    file_name: &str,
    file_size: u64,
) -> (r: Result<HotspotResponse, AirError>)
    requires
        old(channel)@.wf(),
    ensures
        final(channel)@.wf(),
        negotiated(old(channel)@, file_name@, file_size, final(channel)@, negotiation_view(r)),
{
    let meta = encode_metadata(file_name, file_size);
    let reply = exchange(channel, meta.as_slice(), MAX_NEGOTIATION_MESSAGE);
    let ghost seen = plaintext_view(reply);
    assert(exchanged(old(channel)@, meta@, MAX_NEGOTIATION_MESSAGE, channel@, seen));
    match reply {
        Ok(bytes) => match decode_response(bytes.as_slice()) {
            Some(response) => Ok(response),
            None => Err(AirError::InvalidResponse),
        },
        Err(e) => Err(e),
    }
}

/// The sender's side: the handshake, then the offer, then the receiver's answer. Each step waits
/// for the one before, and the first failure is the result.
pub fn negotiate<T: Transport>(transport: T, file_name: &str, file_size: u64) -> (r: Result<
    HotspotResponse,
    AirError,
>)
    ensures
        ({
            ||| exists|e: AirError, post: Seq<TransportEvent>| #[trigger]
                initiator_ran(transport.trace(), post, Err(e)) && negotiation_view(r) == Err::<
                    ResponseView,
                    AirError,
                >(e)
            ||| exists|c: ChannelView, post: ChannelView|
                c.wf() && initiator_ran(transport.trace(), c.trace, channel_outcome(c))
                    && #[trigger] negotiated(c, file_name@, file_size, post, negotiation_view(r))
        }),
{
    match perform_handshake_initiator(transport) {
        Ok(channel) => {
            let mut channel = channel;
            offer_over(&mut channel, file_name, file_size)
        },
        Err(e) => Err(e),
    }
}

/// What a received offer means: a name that is safe to save under, and a size. An offer over
/// [`MAX_FILE_SIZE`] is refused.
pub open spec fn offer_read(
    message: Result<Seq<u8>, AirError>,
    r: Result<(Seq<char>, u64), AirError>,
) -> bool {
    match message {
        Ok(meta) => match metadata_fields(meta) {
            Some(fields) => if fields.1 > MAX_FILE_SIZE {
                r == Err::<(Seq<char>, u64), AirError>(AirError::OfferTooLarge)
            } else {
                r matches Ok(got) && sanitized(fields.0, got.0) && got.1 == fields.1
            },
            None => r == Err::<(Seq<char>, u64), AirError>(AirError::InvalidOffer),
        },
        Err(e) => r == Err::<(Seq<char>, u64), AirError>(e),
    }
}

/// A no was sent over a channel, or tried to.
pub open spec fn turned_down(pre: ChannelView, post: ChannelView) -> bool {
    ||| channel_sent(pre, response_bytes(ResponseView::Rejected), post, Ok(()))
    ||| exists|e: AirError| #[trigger]
        channel_sent(pre, response_bytes(ResponseView::Rejected), post, Err(e))
}

/// An offer is waited for, and read. One that is too large is answered with a no at once, and it
/// does not matter whether that succeeds; otherwise nothing is sent.
pub open spec fn offer_received(
    pre: ChannelView,
    max_len: u32,
    post: ChannelView,
    r: Result<(Seq<char>, u64), AirError>,
) -> bool {
    exists|mid: ChannelView, message: Result<Seq<u8>, AirError>| #[trigger]
        channel_received(pre, max_len, mid, message) && offer_read(message, r) && if r == Err::<
            (Seq<char>, u64),
            AirError,
        >(AirError::OfferTooLarge) {
            turned_down(mid, post)
        } else {
            post == mid
        }
}

/// An offer with its name in view.
pub open spec fn offer_view(r: Result<(String, u64), AirError>) -> Result<
    (Seq<char>, u64),
    AirError,
> {
    match r {
        Ok(offer) => Ok((offer.0@, offer.1)),
        Err(e) => Err(e),
    }
}

/// Waits for an offer on a channel.
pub fn receive_offer<T: Transport>(channel: &mut SecureChannel<T>, max_len: u32) -> (r: Result<
    (String, u64),
    AirError,
>)
    requires
        old(channel)@.wf(),
    ensures
        final(channel)@.wf(),
        offer_received(old(channel)@, max_len, final(channel)@, offer_view(r)),
        r matches Ok(offer) ==> offer.1 <= MAX_FILE_SIZE,
{
    let received = channel.recv(max_len);
    let ghost message = plaintext_view(received);
    let ghost mid = channel@;
    assert(channel_received(old(channel)@, max_len, mid, message));
    match received {
        Ok(meta) => match screen(meta.as_slice()) {
            Screening::Ask { file_name, file_size } => Ok((file_name, file_size)),
            Screening::TooLarge => {
                let _sent = respond(channel, HotspotResponse::Rejected);
                Err(AirError::OfferTooLarge)
            },
            Screening::Ignore => Err(AirError::InvalidOffer),
        },
        Err(e) => Err(e),
    }
}

/// The receiver's side: waits for a handshake and then for an offer within the limit. The channel
/// that the offer came over is handed out for the answer.
pub fn accept_offer<T: Transport>(transport: T) -> (r: Result<
    (SecureChannel<T>, String, u64),
    AirError,
>)
    ensures
        match r {
            Ok((channel, name, size)) => {
                &&& channel@.wf()
                &&& size <= MAX_FILE_SIZE
                &&& exists|c: ChannelView|
                    c.wf() && responder_ran(transport.trace(), c.trace, channel_outcome(c))
                        && #[trigger] offer_received(
                        c,
                        MAX_NEGOTIATION_MESSAGE,
                        channel@,
                        Ok((name@, size)),
                    )
            },
            Err(e) => {
                ||| exists|post: Seq<TransportEvent>| #[trigger]
                    responder_ran(transport.trace(), post, Err(e))
                ||| exists|c: ChannelView, post: ChannelView|
                    c.wf() && responder_ran(transport.trace(), c.trace, channel_outcome(c))
                        && #[trigger] offer_received(c, MAX_NEGOTIATION_MESSAGE, post, Err(e))
            },
        },
{
    match perform_handshake_responder(transport) {
        Ok(channel) => {
            let mut channel = channel;
            match receive_offer(&mut channel, MAX_NEGOTIATION_MESSAGE) {
                Ok((name, size)) => Ok((channel, name, size)),
                Err(e) => Err(e),
            }
        },
        Err(e) => Err(e),
    }
}

/// Sends the decision about an offer over the channel that the offer came over.
pub fn respond<T: Transport>(channel: &mut SecureChannel<T>, response: HotspotResponse) -> (r:
    Result<(), AirError>)
    requires
        old(channel)@.wf(),
    ensures
        final(channel)@.wf(),
        channel_sent(old(channel)@, response_bytes(response@), final(channel)@, r),
{
    let bytes = encode_response(&response);
    channel.send(bytes.as_slice())
}

/// What the user decided: the network that was made for the transfer, or nothing.
pub open spec fn decision_view(decision: Option<(String, String)>) -> ResponseView {
    match decision {
        Some((ssid, password)) => ResponseView::Accepted { ssid: ssid@, password: password@ },
        None => ResponseView::Rejected,
    }
}

/// The answer to an offer that a decision stands for.
pub fn decision_response(decision: Option<(String, String)>) -> (response: HotspotResponse)
    ensures
        response@ == decision_view(decision),
{
    match decision {
        Some((ssid, password)) => HotspotResponse::Accepted { ssid, password },
        None => HotspotResponse::Rejected,
    }
}

/// The answer that the receiver gives is the one that the sender reads, if it arrives.
pub proof fn law_decision_is_understood(response: ResponseView)
    requires
        response matches ResponseView::Accepted { ssid, password } ==> vstd::utf8::encode_utf8(
            ssid,
        ).len() < 0x1_0000_0000 && vstd::utf8::encode_utf8(password).len() < 0x1_0000_0000,
    ensures
        understood(Ok(response_bytes(response))) == Ok::<ResponseView, AirError>(response),
{
    crate::ble_transport::law_response_round_trip(response, Seq::empty());
    assert(response_bytes(response) + Seq::<u8>::empty() =~= response_bytes(response));
}

/// The offer that the sender makes is the one that the receiver reads, if it arrives and is within
/// the limit: the size as it is, and the name made safe. One over the limit is refused, whatever
/// the file is called.
pub proof fn law_offer_limit_decides(
    file_name: Seq<char>,
    file_size: u64,
    r: Result<(Seq<char>, u64), AirError>,
)
    requires
        vstd::utf8::encode_utf8(file_name).len() < 0x1_0000_0000,
        offer_read(Ok(metadata_bytes(file_name, file_size)), r),
    ensures
        file_size <= MAX_FILE_SIZE ==> (r matches Ok(got) && sanitized(file_name, got.0) && got.1
            == file_size),
        file_size > MAX_FILE_SIZE ==> r == Err::<(Seq<char>, u64), AirError>(
            AirError::OfferTooLarge,
        ),
{
    crate::transfer::law_metadata_round_trip(file_name, file_size, Seq::empty());
    assert(metadata_bytes(file_name, file_size) + Seq::<u8>::empty() =~= metadata_bytes(
        file_name,
        file_size,
    ));
}

/// Whatever offer comes in, none over the limit goes any further.
pub proof fn law_no_offer_over_the_limit(
    pre: ChannelView,
    max_len: u32,
    post: ChannelView,
    r: Result<(Seq<char>, u64), AirError>,
)
    requires
        offer_received(pre, max_len, post, r),
    ensures
        r matches Ok(offer) ==> offer.1 <= MAX_FILE_SIZE,
{
}

} // verus!
