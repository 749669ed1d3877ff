//! Laws of the negotiation over Bluetooth: the offer, the decision, and how each is read.

use crate::ble_transport::{decode_response, encode_response, HotspotResponse, ResponseView};
use crate::crypto::{
    channel_outcome, channel_received, channel_sent, exchanged, initiator_ran, law_handshake_pairs,
    law_undisturbed_handshake_succeeds, paired, perform_handshake_initiator, responder_ran,
    ChannelView, SecureChannel,
};
use crate::error::AirError;
use crate::gatt::{
    accept_offer, negotiate, negotiated, offer_over, offer_read, offer_received, receive_offer,
    respond, understood, MAX_NEGOTIATION_MESSAGE,
};
use crate::laws::bluetooth::{law_answer_is_read_as_written, same_answer, short_texts};
use crate::laws::channel::{
    brings, failed_with, gave, law_send_reaches_the_transport, one_more, only_received, only_sent,
    took,
};
use crate::laws::files::{arrived, next_event, says_no};
use crate::noise::{noise_open, SessionView};
use crate::paths::{law_safe_name_is_unique, sanitized};
use crate::transfer::{
    decode_metadata, encode_metadata, law_metadata_round_trip, metadata_bytes, metadata_fields,
    sanitize_filename,
};
use crate::transport::{Transport, TransportEvent};
use vstd::prelude::*;
use vstd::utf8::encode_utf8;

verus! {

/// A decision goes out as its bytes, in one message.
pub proof fn law_decision_goes_out<T: Transport>(
    c: &mut SecureChannel<T>,
    response: HotspotResponse,
    bytes: Vec<u8>,
    r: Result<(), AirError>,
)
    requires
        call_ensures(respond::<T>, (c, response), r),
        call_ensures(encode_response, (&response,), bytes),
        bytes@.len() <= 65535 - 16,
        old(c)@.session.send_nonce < 0xffff_ffff_ffff_ffff,
    ensures
        one_more(old(c)@.trace, final(c)@.trace),
        only_sent(old(c)@.session, final(c)@.session),
        final(c)@.trace.last() matches TransportEvent::Send { frame, error } && noise_open(
            old(c)@.session.send_key,
            old(c)@.session.send_nonce,
            frame,
        ) == Some(bytes@) && match r {
            Ok(_) => error is None,
            Err(e) => e matches AirError::Io(io) && error == Some(io),
        },
{
    assert(final(c)@.trace.drop_last() =~= old(c)@.trace);
}

/// An offer goes out as the description of the file, in one message; then one message is waited
/// for, of up to 4096 bytes, and what reading it gives is the result. One that cannot be read is
/// an error of its own, and the transport's error is passed on.
pub proof fn law_offer_over_bluetooth_goes_out_and_is_answered<T: Transport>(
    c: &mut SecureChannel<T>,
    name: &str,
    size: u64,
    meta: Vec<u8>,
    r: Result<HotspotResponse, AirError>,
    answer: &[u8],
    read: Option<HotspotResponse>,
    io: std::io::Error,
)
    requires
        call_ensures(offer_over::<T>, (c, name, size), r),
        call_ensures(encode_metadata, (name, size), meta),
        call_ensures(decode_response, (answer,), read),
        meta@.len() <= 65535 - 16,
        old(c)@.session.send_nonce < 0xffff_ffff_ffff_ffff,
    ensures
        old(c)@.trace.len() < final(c)@.trace.len() <= old(c)@.trace.len() + 2,
        final(c)@.trace.take(old(c)@.trace.len() as int) == old(c)@.trace,
        next_event(old(c)@.trace, final(c)@.trace) matches TransportEvent::Send { frame, error }
            && noise_open(old(c)@.session.send_key, old(c)@.session.send_nonce, frame) == Some(
            meta@,
        ) && (error is None <==> final(c)@.trace.len() == old(c)@.trace.len() + 2),
        final(c)@.trace.len() == old(c)@.trace.len() + 2 ==> (
        final(c)@.trace.last() matches TransportEvent::Recv { max_len, answer: a } && max_len
            == 4096),
        brings(old(c)@.session, final(c)@.trace.last(), answer@) ==> match read {
            Some(response) => r matches Ok(got) && same_answer(response, got),
            None => r matches Err(e) && e is InvalidResponse,
        },
        failed_with(final(c)@.trace.last(), io) ==> r == Err::<HotspotResponse, AirError>(
            AirError::Io(io),
        ),
        r is Ok ==> exists|m: Seq<u8>| brings(old(c)@.session, final(c)@.trace.last(), m),
{
    let (t0, t1) = (old(c)@.trace, final(c)@.trace);
    assert(t1.take(t0.len() as int) =~= t0);
    if t1.len() == t0.len() + 2 {
        assert(t1.drop_last()[t0.len() as int] == t1[t0.len() as int]);
    }
    if let TransportEvent::Recv { max_len, answer: a } = t1.last() {
        if let Ok(frame) = a {
            if let Some(m) = noise_open(
                old(c)@.session.recv_key,
                old(c)@.session.recv_nonce,
                frame,
            ) {
                if frame.len() <= 65535 && old(c)@.session.recv_nonce < 0xffff_ffff_ffff_ffff {
                    assert(brings(old(c)@.session, t1.last(), m));
                }
            }
        }
    }
}

/// What the receiver decides is what the sender of an offer learns.
pub proof fn law_decision_is_learnt<T: Transport, U: Transport>(
    b: &mut SecureChannel<T>,
    response: HotspotResponse,
    bytes: Vec<u8>,
    answered: Result<(), AirError>,
    a: &mut SecureChannel<U>,
    name: &str,
    size: u64,
    meta: Vec<u8>,
    r: Result<HotspotResponse, AirError>,
    answer: &[u8],
    read: Option<HotspotResponse>,
    frame: Seq<u8>,
)
    requires
        call_ensures(respond::<T>, (b, response), answered),
        call_ensures(encode_response, (&response,), bytes),
        call_ensures(offer_over::<U>, (a, name, size), r),
        call_ensures(encode_metadata, (name, size), meta),
        call_ensures(decode_response, (answer,), read),
        answer@ == bytes@,
        bytes@.len() <= 65535 - 16,
        short_texts(response),
        meta@.len() <= 65535 - 16,
        old(a)@.session.send_nonce < 0xffff_ffff_ffff_ffff,
        old(b)@.session.send_nonce < 0xffff_ffff_ffff_ffff,
        old(b)@.session.send_key == old(a)@.session.recv_key,
        old(b)@.session.send_nonce == old(a)@.session.recv_nonce,
        took(final(b)@.trace.last(), frame),
        gave(final(a)@.trace.last(), frame),
    ensures
        r matches Ok(got) && same_answer(response, got),
{
    law_decision_goes_out(b, response, bytes, answered);
    assert(frame.len() == bytes@.len() + 16);
    assert(brings(old(a)@.session, final(a)@.trace.last(), answer@));
    law_offer_over_bluetooth_goes_out_and_is_answered(
        a,
        name,
        size,
        meta,
        r,
        answer,
        read,
        arbitrary(),
    );
    assert(answer@.take(bytes@.len() as int) =~= bytes@);
    law_answer_is_read_as_written(&response, bytes, answer, read);
}

/// An offer that arrives on a channel comes out with exactly its size, and with its name made safe,
/// if it is of up to ten gigabytes, and nothing is answered yet. A larger one is refused, and
/// answered with a no.
pub proof fn law_offer_comes_out_as_made<T: Transport>(
    c: &mut SecureChannel<T>,
    max_len: u32,
    r: Result<(String, u64), AirError>,
    name: &str,
    size: u64,
    meta: Vec<u8>,
    safe: String,
)
    requires
        call_ensures(receive_offer::<T>, (c, max_len), r),
        call_ensures(encode_metadata, (name, size), meta),
        call_ensures(sanitize_filename, (name,), safe),
        encode_utf8(name@).len() < 0x1_0000_0000,
        brings(old(c)@.session, next_event(old(c)@.trace, final(c)@.trace), meta@),
    ensures
        size <= 10_737_418_240 ==> (r matches Ok(offer) && offer.0@ == safe@ && offer.1 == size)
            && one_more(old(c)@.trace, final(c)@.trace) && only_received(
            old(c)@.session,
            final(c)@.session,
        ),
        size > 10_737_418_240 ==> (r matches Err(e) && e is OfferTooLarge),
        size > 10_737_418_240 && old(c)@.session.send_nonce < 0xffff_ffff_ffff_ffff ==> says_no(
            old(c)@.session,
            old(c)@.trace,
            final(c)@.trace,
        ),
        final(c)@.hash == old(c)@.hash,
{
    law_metadata_round_trip(name@, size, Seq::empty());
    assert(meta@ + Seq::<u8>::empty() =~= meta@);
    if let Ok(offer) = r {
        law_safe_name_is_unique(name@, offer.0@, safe@);
    }
}

/// What comes out of an awaited offer is what reading it gives; one that cannot be read is an
/// error of its own, and the transport's error is passed on.
pub proof fn law_only_what_was_offered_comes_out<T: Transport>(
    c: &mut SecureChannel<T>,
    max_len: u32,
    r: Result<(String, u64), AirError>,
    meta: &[u8],
    read: Option<(String, u64)>,
    io: std::io::Error,
)
    requires
        call_ensures(receive_offer::<T>, (c, max_len), r),
        call_ensures(decode_metadata, (meta,), read),
    ensures
        next_event(old(c)@.trace, final(c)@.trace) matches TransportEvent::Recv {
            max_len: asked,
            answer,
        } && asked == max_len,
        final(c)@.trace.take(old(c)@.trace.len() as int) == old(c)@.trace,
        brings(old(c)@.session, next_event(old(c)@.trace, final(c)@.trace), meta@) && read is None
            ==> (r matches Err(e) && e is InvalidOffer) && one_more(
            old(c)@.trace,
            final(c)@.trace,
        ),
        r matches Ok(offer) ==> offer.1 <= 10_737_418_240,
        brings(old(c)@.session, next_event(old(c)@.trace, final(c)@.trace), meta@) ==> (
        read matches Some(got) ==> (r is Ok <==> got.1 <= 10_737_418_240)),
        r is Ok ==> one_more(old(c)@.trace, final(c)@.trace),
        brings(old(c)@.session, next_event(old(c)@.trace, final(c)@.trace), meta@) && (
        read matches Some(got) && got.1 > 10_737_418_240) ==> (r matches Err(e)
            && e is OfferTooLarge) && (old(c)@.session.send_nonce < 0xffff_ffff_ffff_ffff
            ==> says_no(old(c)@.session, old(c)@.trace, final(c)@.trace)),
        brings(old(c)@.session, next_event(old(c)@.trace, final(c)@.trace), meta@) ==> (
        r matches Ok(offer) ==> (read matches Some(got) && got.0@ == offer.0@ && got.1 == offer.1)),
        failed_with(next_event(old(c)@.trace, final(c)@.trace), io) ==> r == Err::<
            (String, u64),
            AirError,
        >(AirError::Io(io)),
        r is Ok ==> exists|m: Seq<u8>|
            brings(old(c)@.session, next_event(old(c)@.trace, final(c)@.trace), m),
{
    let (t0, t1) = (old(c)@.trace, final(c)@.trace);
    assert(t1.take(t0.len() as int) =~= t0);
    if brings(old(c)@.session, next_event(t0, t1), meta@) {
        if let Ok(offer) = r {
            if let Some(got) = read {
                law_safe_name_is_unique(
                    metadata_fields(meta@)->Some_0.0,
                    offer.0@,
                    got.0@,
                );
            }
        }
    }
    if let TransportEvent::Recv { max_len: asked, answer } = next_event(t0, t1) {
        if let Ok(frame) = answer {
            if let Some(m) = noise_open(
                old(c)@.session.recv_key,
                old(c)@.session.recv_nonce,
                frame,
            ) {
                if frame.len() <= 65535 && old(c)@.session.recv_nonce < 0xffff_ffff_ffff_ffff {
                    assert(brings(old(c)@.session, next_event(t0, t1), m));
                }
            }
        }
    }
}

/// An offer that was accepted came over its transport behind the three messages of a handshake:
/// where a sender shook hands and sent the description of a file, and it arrived, the offer has
/// that size, and the name made safe.
pub proof fn law_offer_arrives<T: Transport, U: Transport>(
    t: T,
    opened: SecureChannel<T>,
    a: &mut SecureChannel<T>,
    sent: Result<(), AirError>,
    u: U,
    offer: (SecureChannel<U>, String, u64),
    name: &str,
    size: u64,
    meta: Vec<u8>,
    message: &[u8],
    safe: String,
    m: (Seq<u8>, Seq<u8>, Seq<u8>, Seq<u8>),
)
    requires
        call_ensures(perform_handshake_initiator::<T>, (t,), Ok(opened)),
        *old(a) == opened,
        call_ensures(encode_metadata, (name, size), meta),
        message@ == meta@,
        call_ensures(SecureChannel::<T>::send, (a, message), sent),
        call_ensures(accept_offer::<U>, (u,), Ok(offer)),
        call_ensures(sanitize_filename, (name,), safe),
        meta@.len() <= 65535 - 16,
        arrived(
            final(a)@.trace.skip(t.trace().len() as int),
            offer.0@.trace.skip(u.trace().len() as int),
            m,
        ),
    ensures
        offer.1@ == safe@,
        offer.2 == size,
        size <= 10_737_418_240,
        offer.0@.hash == final(a)@.hash,
        offer.0@.trace.len() == u.trace().len() + 4,
        paired(final(a)@.session, offer.0@.session),
{
    law_metadata_round_trip(name@, size, Seq::empty());
    assert(meta@ + Seq::<u8>::empty() =~= meta@);
    lemma_offer_accepted(t, opened, a, sent, u, offer, message, m);
    law_safe_name_is_unique(name@, offer.1@, safe@);
}

/// Whatever a sender sends behind its handshake, an offer that is accepted is what reading it
/// gives.
pub proof fn law_offer_is_what_was_sent<T: Transport, U: Transport>(
    t: T,
    opened: SecureChannel<T>,
    a: &mut SecureChannel<T>,
    sent: Result<(), AirError>,
    u: U,
    offer: (SecureChannel<U>, String, u64),
    message: &[u8],
    read: Option<(String, u64)>,
    m: (Seq<u8>, Seq<u8>, Seq<u8>, Seq<u8>),
)
    requires
        call_ensures(perform_handshake_initiator::<T>, (t,), Ok(opened)),
        *old(a) == opened,
        call_ensures(SecureChannel::<T>::send, (a, message), sent),
        call_ensures(accept_offer::<U>, (u,), Ok(offer)),
        call_ensures(decode_metadata, (message,), read),
        message@.len() <= 65535 - 16,
        arrived(
            final(a)@.trace.skip(t.trace().len() as int),
            offer.0@.trace.skip(u.trace().len() as int),
            m,
        ),
    ensures
        read matches Some(got) && got.0@ == offer.1@ && got.1 == offer.2,
        offer.2 <= 10_737_418_240,
        paired(final(a)@.session, offer.0@.session),
{
    lemma_offer_accepted(t, opened, a, sent, u, offer, message, m);
    if let Some(got) = read {
        law_safe_name_is_unique(
            metadata_fields(message@)->Some_0.0,
            offer.1@,
            got.0@,
        );
    }
}

proof fn lemma_offer_accepted<T: Transport, U: Transport>(
    t: T,
    opened: SecureChannel<T>,
    a: &mut SecureChannel<T>,
    sent: Result<(), AirError>,
    u: U,
    offer: (SecureChannel<U>, String, u64),
    message: &[u8],
    m: (Seq<u8>, Seq<u8>, Seq<u8>, Seq<u8>),
)
    requires
        call_ensures(perform_handshake_initiator::<T>, (t,), Ok(opened)),
        *old(a) == opened,
        call_ensures(SecureChannel::<T>::send, (a, message), sent),
        call_ensures(accept_offer::<U>, (u,), Ok(offer)),
        message@.len() <= 65535 - 16,
        arrived(
            final(a)@.trace.skip(t.trace().len() as int),
            offer.0@.trace.skip(u.trace().len() as int),
            m,
        ),
    ensures
        metadata_fields(message@) matches Some(fields) && sanitized(
            fields.0,
            offer.1@,
        ) && offer.2 == fields.1 && fields.1 <= 10_737_418_240,
        offer.0@.hash == final(a)@.hash,
        offer.0@.trace.len() == u.trace().len() + 4,
        paired(final(a)@.session, offer.0@.session),
{
    let (a0, a1) = (t.trace(), opened@.trace);
    let (b0, b2) = (u.trace(), offer.0@.trace);
    assert(forall|k: int|
        0 <= k < 4 ==> #[trigger] final(a)@.trace.skip(a0.len() as int)[k]
            == final(a)@.trace[a0.len() + k]);
    assert(forall|k: int|
        0 <= k < 4 ==> #[trigger] b2.skip(b0.len() as int)[k] == b2[b0.len() + k]);
    assert(a1.skip(a0.len() as int)[0] == a1[a0.len() as int]);
    assert(a1.skip(a0.len() as int)[1] == a1[a0.len() + 1int]);
    assert(a1.skip(a0.len() as int)[2] == a1[a0.len() + 2int]);
    assert(a1.len() == a0.len() + 3);
    law_send_reaches_the_transport(a, message, sent);
    assert(a1 == final(a)@.trace.drop_last());
    assert(forall|k: int| 0 <= k < a1.len() ==> #[trigger] a1[k] == final(a)@.trace[k]);
    let c = choose|c: ChannelView|
        c.wf() && responder_ran(u.trace(), c.trace, channel_outcome(c))
            && #[trigger] offer_received(
            c,
            MAX_NEGOTIATION_MESSAGE,
            offer.0@,
            Ok((offer.1@, offer.2)),
        );
    let b1 = c.trace;
    assert(b1.skip(b0.len() as int)[0] == b1[b0.len() as int]);
    assert(b1.skip(b0.len() as int)[1] == b1[b0.len() + 1int]);
    assert(b1.skip(b0.len() as int)[2] == b1[b0.len() + 2int]);
    assert(b2.drop_last() == b1);
    law_undisturbed_handshake_succeeds(
        a0,
        a1,
        Ok((opened@.session, opened@.hash)),
        b0,
        b1,
        Ok((c.session, c.hash)),
        m.0,
        m.1,
        m.2,
    );
    law_handshake_pairs(
        seq![m.0, m.1, m.2],
        opened@.session,
        opened@.hash,
        c.session,
        c.hash,
    );
    assert(brings(c.session, b2.last(), message@));
}

/// Where no offer is accepted, there is a reason: the transport or the cipher failed, or what came
/// cannot be read, or it is of over ten gigabytes.
pub proof fn law_refused_offer_has_its_reason<T: Transport>(t: T, e: AirError)
    requires
        call_ensures(accept_offer::<T>, (t,), Err(e)),
    ensures
        e is Io || e is Noise || e is InvalidOffer || e is OfferTooLarge,
        e is InvalidOffer ==> exists|session: SessionView, event: TransportEvent, meta: Seq<u8>|
            #[trigger] brings(session, event, meta) && forall|m: &[u8], read: Option<(String, u64)>|
                m@ == meta && #[trigger] call_ensures(decode_metadata, (m,), read) ==> read is None,
        e is OfferTooLarge ==> exists|session: SessionView, event: TransportEvent, meta: Seq<u8>|
            #[trigger] brings(session, event, meta) && forall|m: &[u8], read: Option<(String, u64)>|
                m@ == meta && #[trigger] call_ensures(decode_metadata, (m,), read) ==> (
                read matches Some(got) && got.1 > 10_737_418_240),
{
    if exists|post: Seq<TransportEvent>| #[trigger]
        responder_ran(t.trace(), post, Err(e)) {
    } else {
        let (c, post) = choose|c: ChannelView, post: ChannelView|
            c.wf() && responder_ran(
                t.trace(),
                c.trace,
                channel_outcome(c),
            ) && #[trigger] offer_received(
                c,
                MAX_NEGOTIATION_MESSAGE,
                post,
                Err(e),
            );
        let (mid, message) = choose|
            mid: ChannelView,
            message: Result<Seq<u8>, AirError>,
        | #[trigger]
            channel_received(
                c,
                MAX_NEGOTIATION_MESSAGE,
                mid,
                message,
            ) && offer_read(message, Err(e));
        if let Ok(meta) = message {
            assert(brings(c.session, mid.trace.last(), meta));
        }
    }
}

/// An answer that a negotiation came to was read from a message that came in behind the handshake
/// and the offer: the description of this very file, which went out under the same session.
pub proof fn law_negotiation_offers_this_file<T: Transport>(
    t: T,
    name: &str,
    size: u64,
    meta: Vec<u8>,
    response: HotspotResponse,
)
    requires
        call_ensures(negotiate::<T>, (t, name, size), Ok(response)),
        call_ensures(encode_metadata, (name, size), meta),
    ensures
        exists|session: SessionView, trace: Seq<TransportEvent>, answer: Seq<u8>|
            {
                &&& trace.len() == t.trace().len() + 5
                &&& trace.take(t.trace().len() as int) == t.trace()
                &&& trace[t.trace().len() + 3int] matches TransportEvent::Send { frame, error }
                    && error is None && noise_open(session.send_key, 0, frame) == Some(meta@)
                &&& session.send_nonce == 0 && session.recv_nonce == 0
                &&& #[trigger] brings(session, trace.last(), answer)
                &&& forall|a: &[u8], read: Option<HotspotResponse>|
                    a@ == answer && #[trigger] call_ensures(decode_response, (a,), read) ==> (
                    read matches Some(got) && same_answer(got, response))
            },
{
    let (c, post) = choose|c: ChannelView, post: ChannelView|
        c.wf() && initiator_ran(
            t.trace(),
            c.trace,
            channel_outcome(c),
        ) && #[trigger] negotiated(c, name@, size, post, Ok(response@));
    let reply = choose|reply: Result<Seq<u8>, AirError>| #[trigger]
        exchanged(
            c,
            meta@,
            MAX_NEGOTIATION_MESSAGE,
            post,
            reply,
        ) && Ok::<ResponseView, AirError>(response@)
            == understood(reply);
    let answer = reply->Ok_0;
    let mid = choose|mid: ChannelView|
        channel_sent(c, meta@, mid, Ok(()))
            && #[trigger] channel_received(
            mid,
            MAX_NEGOTIATION_MESSAGE,
            post,
            reply,
        );
    let t0 = t.trace();
    assert(c.trace.len() == t0.len() + 3);
    assert(post.trace.drop_last() == mid.trace);
    assert(mid.trace.drop_last() =~= c.trace);
    assert(post.trace[t0.len() + 3int] == mid.trace.last());
    assert(post.trace.take(t0.len() as int) =~= c.trace.take(t0.len() as int));
    assert(brings(c.session, post.trace.last(), answer));
}

/// Where a negotiation comes to no answer, there is a reason: the transport or the cipher failed,
/// or what came cannot be read.
pub proof fn law_failed_negotiation_has_its_reason<T: Transport>(
    t: T,
    name: &str,
    size: u64,
    e: AirError,
)
    requires
        call_ensures(negotiate::<T>, (t, name, size), Err(e)),
    ensures
        e is Io || e is Noise || e is InvalidResponse,
        e is InvalidResponse ==> exists|session: SessionView, event: TransportEvent, answer: Seq<u8>|
            #[trigger] brings(session, event, answer) && forall|
                a: &[u8],
                read: Option<HotspotResponse>,
            |
                a@ == answer && #[trigger] call_ensures(decode_response, (a,), read) ==> read
                    is None,
{
    if exists|error: AirError, post: Seq<TransportEvent>| #[trigger]
        initiator_ran(t.trace(), post, Err(error)) && error == e {
    } else {
        let (c, post) = choose|c: ChannelView, post: ChannelView|
            c.wf() && initiator_ran(
                t.trace(),
                c.trace,
                channel_outcome(c),
            ) && #[trigger] negotiated(c, name@, size, post, Err(e));
        let reply = choose|reply: Result<Seq<u8>, AirError>| #[trigger]
            exchanged(
                c,
                metadata_bytes(name@, size),
                MAX_NEGOTIATION_MESSAGE,
                post,
                reply,
            ) && Err::<ResponseView, AirError>(e) == understood(
                reply,
            );
        if let Ok(answer) = reply {
            let mid = choose|mid: ChannelView|
                channel_sent(
                    c,
                    metadata_bytes(name@, size),
                    mid,
                    Ok(()),
                ) && #[trigger] channel_received(
                    mid,
                    MAX_NEGOTIATION_MESSAGE,
                    post,
                    reply,
                );
            assert(brings(mid.session, post.trace.last(), answer));
        }
    }
}

/// What cannot be encrypted, for its length or because the nonces are used up, is not sent: an
/// offer, and a decision.
pub proof fn law_oversized_negotiation_is_refused<T: Transport>(
    a: &mut SecureChannel<T>,
    name: &str,
    size: u64,
    meta: Vec<u8>,
    offered: Result<HotspotResponse, AirError>,
    b: &mut SecureChannel<T>,
    response: HotspotResponse,
    bytes: Vec<u8>,
    answered: Result<(), AirError>,
)
    requires
        call_ensures(offer_over::<T>, (a, name, size), offered),
        call_ensures(encode_metadata, (name, size), meta),
        call_ensures(respond::<T>, (b, response), answered),
        call_ensures(encode_response, (&response,), bytes),
    ensures
        meta@.len() > 65535 - 16 || old(a)@.session.send_nonce == 0xffff_ffff_ffff_ffff ==> (
        offered matches Err(e) && e is Noise) && final(a)@ == old(a)@,
        bytes@.len() > 65535 - 16 || old(b)@.session.send_nonce == 0xffff_ffff_ffff_ffff ==> (
        answered matches Err(e) && e is Noise) && final(b)@ == old(b)@,
{
}

} // verus!
