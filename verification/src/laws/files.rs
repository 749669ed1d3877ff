//! Laws of a transfer over the network: the request, the answer, the pieces and the digest.

use crate::bytes::{
    be_bytes, be_value, law_be_round_trip, lemma_be_bytes_len, lemma_be_value_bound, lemma_pow256,
    push_be, read_be, same_bytes,
};
use crate::crypto::{
    channel_outcome, channel_received, initiator_ran, law_undisturbed_handshake_succeeds, paired,
    perform_handshake_initiator, responder_ran, ChannelView, SecureChannel, MAX_FRAME_LEN,
};
use crate::error::AirError;
use crate::laws::channel::{
    brings, digits_value, failed_with, gave, law_code_reads_as_the_hash,
    law_send_reaches_the_transport, one_more, only_received, only_sent, took,
};
use crate::noise::{noise_open, SessionView};
use crate::paths::{law_safe_name_is_unique, sanitized};
use crate::request::{
    answer_request, handle_request, message_settled, offer_file, receive_request, request_handled,
    screen, turned_away, IncomingRequest, Screening,
};
use crate::transfer::{
    decode_metadata, encode_metadata, law_metadata_round_trip, metadata_fields, sanitize_filename,
};
use crate::text::lossy_text;
use crate::transport::{Transport, TransportEvent};
use vstd::arithmetic::power::pow;
use vstd::prelude::*;
use vstd::utf8::encode_utf8;

verus! {

/// Big-endian numbers are read byte by byte: nothing reads as zero, and one more byte is one more
/// digit at the low end.
pub proof fn law_bytes_are_digits(s: &[u8], n: u128, longer: &[u8], m: u128)
    requires
        call_ensures(read_be, (s,), n),
        call_ensures(read_be, (longer,), m),
        longer@.len() == s@.len() + 1,
        longer@.drop_last() == s@,
    ensures
        s@.len() == 0 ==> n == 0,
        m == n * 256 + longer@.last(),
{
}

/// A number is written in as many bytes as asked for, behind what was there, and reads as it was;
/// of one that is too large, the low digits are written.
pub proof fn law_number_is_written_to_be_read(
    out: &mut Vec<u8>,
    n: u128,
    width: usize,
    written: &[u8],
    m: u128,
)
    requires
        call_ensures(push_be, (out, n, width), ()),
        call_ensures(read_be, (written,), m),
        final(out)@ == old(out)@ + written@,
    ensures
        written@.len() == width,
        m == n as int % pow(256, width as nat),
        n < pow(256, width as nat) ==> m == n,
{
    lemma_be_bytes_len(n as nat, width as nat);
    law_be_round_trip(n as nat, width as nat);
    lemma_low_digits(n as nat, width as nat);
    assert(written@ =~= final(out)@.skip(old(out)@.len() as int));
    assert(be_bytes(n as nat, width as nat) =~= final(out)@.skip(old(out)@.len() as int));
}

proof fn lemma_low_digits(n: nat, width: nat)
    ensures
        be_value(be_bytes(n, width)) == n as int % pow(256, width),
    decreases width,
{
    if width == 0 {
        vstd::arithmetic::power::lemma_pow0(256);
    } else {
        let w = (width - 1) as nat;
        lemma_low_digits(n / 256, w);
        assert(be_bytes(n, width).drop_last() =~= be_bytes(n / 256, w));
        reveal(pow);
        assert(pow(256, width) == 256 * pow(256, w));
        vstd::arithmetic::power::lemma_pow_positive(256, w);
        vstd::arithmetic::div_mod::lemma_mod_breakdown(n as int, 256, pow(256, w));
    }
}

/// Two byte strings are the same only if they are so at every place.
pub proof fn law_same_bytes_agree_everywhere(a: &[u8], b: &[u8], same: bool)
    requires
        call_ensures(same_bytes, (a, b), same),
    ensures
        same <==> a@.len() == b@.len() && forall|i: int|
            0 <= i < a@.len() ==> #[trigger] a@[i] == b@[i],
{
    if a@.len() == b@.len() && forall|i: int| 0 <= i < a@.len() ==> #[trigger] a@[i] == b@[i] {
        assert(a@ =~= b@);
    }
}

/// The bytes of a description: first the length of the name in four bytes, then the name, then
/// the size in eight bytes, with the most significant byte in front.
pub proof fn law_description_has_its_layout(name: &str, size: u64, meta: Vec<u8>, n: int)
    requires
        call_ensures(encode_metadata, (name, size), meta),
        encode_utf8(name@).len() < 0x1_0000_0000,
        n == encode_utf8(name@).len(),
    ensures
        meta@.len() == 12 + n,
        n == meta@[0] * 0x100_0000 + meta@[1] * 0x1_0000 + meta@[2] * 0x100 + meta@[3],
        forall|i: int| 0 <= i < n ==> #[trigger] meta@[4 + i] == encode_utf8(name@)[i],
        size == meta@[4 + n] * 0x100_0000_0000_0000 + meta@[5 + n] * 0x1_0000_0000_0000 + meta@[6
            + n] * 0x100_0000_0000 + meta@[7 + n] * 0x1_0000_0000 + meta@[8 + n] * 0x100_0000
            + meta@[9 + n] * 0x1_0000 + meta@[10 + n] * 0x100 + meta@[11 + n],
{
    let raw = encode_utf8(name@);
    lemma_pow256();
    lemma_be_bytes_len(n as nat, 4);
    lemma_be_bytes_len(size as nat, 8);
    law_be_round_trip(n as nat, 4);
    law_be_round_trip(size as nat, 8);
    let head = be_bytes(n as nat, 4);
    let tail = be_bytes(size as nat, 8);
    assert(meta@ == head + raw + tail);
    assert(head =~= seq![meta@[0], meta@[1], meta@[2], meta@[3]]);
    assert(tail =~= seq![
        meta@[4 + n],
        meta@[5 + n],
        meta@[6 + n],
        meta@[7 + n],
        meta@[8 + n],
        meta@[9 + n],
        meta@[10 + n],
        meta@[11 + n],
    ]);
    lemma_value_of_four(head);
    lemma_value_of_eight(tail);
    assert forall|i: int| 0 <= i < n implies #[trigger] meta@[4 + i] == raw[i] by {
        assert(meta@[4 + i] == (head + raw)[4 + i]);
    }
}

pub(crate) proof fn lemma_value_of_four(s: Seq<u8>)
    requires
        s.len() == 4,
    ensures
        be_value(s) == s[0] * 0x100_0000 + s[1] * 0x1_0000 + s[2] * 0x100 + s[3],
{
    reveal_with_fuel(be_value, 5);
    let s3 = s.drop_last();
    let s2 = s3.drop_last();
    let s1 = s2.drop_last();
    assert(s1.drop_last().len() == 0);
    assert(be_value(s1) == s[0]);
    assert(be_value(s2) == s[0] * 256 + s[1]);
    assert(be_value(s3) == (s[0] * 256 + s[1]) * 256 + s[2]);
}

pub(crate) proof fn lemma_value_of_eight(s: Seq<u8>)
    requires
        s.len() == 8,
    ensures
        be_value(s) == s[0] * 0x100_0000_0000_0000 + s[1] * 0x1_0000_0000_0000 + s[2]
            * 0x100_0000_0000 + s[3] * 0x1_0000_0000 + s[4] * 0x100_0000 + s[5] * 0x1_0000 + s[6]
            * 0x100 + s[7],
{
    let s7 = s.drop_last();
    let s6 = s7.drop_last();
    let s5 = s6.drop_last();
    let s4 = s5.drop_last();
    lemma_value_of_four(s4);
    assert(be_value(s5) == be_value(s4) * 256 + s[4]);
    assert(be_value(s6) == be_value(s5) * 256 + s[5]);
    assert(be_value(s7) == be_value(s6) * 256 + s[6]);
    assert(be_value(s) == be_value(s7) * 256 + s[7]);
}

/// What one side describes, the other reads: the size as it is, and the name made safe.
pub proof fn law_description_is_read_as_written(
    name: &str,
    size: u64,
    meta: Vec<u8>,
    received: &[u8],
    r: Option<(String, u64)>,
    safe: String,
)
    requires
        call_ensures(encode_metadata, (name, size), meta),
        call_ensures(decode_metadata, (received,), r),
        call_ensures(sanitize_filename, (name,), safe),
        encode_utf8(name@).len() < 0x1_0000_0000,
        meta@.len() <= received@.len(),
        received@.take(meta@.len() as int) == meta@,
    ensures
        r matches Some(got) && got.0@ == safe@ && got.1 == size,
{
    let rest = received@.skip(meta@.len() as int);
    law_metadata_round_trip(name@, size, rest);
    assert(received@ =~= meta@ + rest);
    if let Some(got) = r {
        law_safe_name_is_unique(name@, got.0@, safe@);
    }
}

/// Whatever bytes a description is read from: it is read if it is as long as the length in front
/// says, and then the size is what the eight bytes behind the name say, and the name is what those
/// bytes are as text, made safe.
pub proof fn law_description_is_read_field_by_field(
    meta: &[u8],
    r: Option<(String, u64)>,
    n: int,
    raw: &str,
    safe: String,
)
    requires
        call_ensures(decode_metadata, (meta,), r),
        meta@.len() >= 4 ==> n == meta@[0] * 0x100_0000 + meta@[1] * 0x1_0000 + meta@[2] * 0x100
            + meta@[3],
        call_ensures(sanitize_filename, (raw,), safe),
    ensures
        meta@.len() < 12 ==> r is None,
        meta@.len() >= 12 ==> (r is Some <==> meta@.len() >= 12 + n),
        r matches Some(got) ==> got.1 == meta@[4 + n] * 0x100_0000_0000_0000 + meta@[5 + n]
            * 0x1_0000_0000_0000 + meta@[6 + n] * 0x100_0000_0000 + meta@[7 + n] * 0x1_0000_0000
            + meta@[8 + n] * 0x100_0000 + meta@[9 + n] * 0x1_0000 + meta@[10 + n] * 0x100
            + meta@[11 + n],
        r matches Some(got) ==> (raw@ == lossy_text(meta@.subrange(4, 4 + n)) ==> got.0@ == safe@),
{
    if meta@.len() >= 12 {
        lemma_value_of_four(meta@.take(4));
        if meta@.len() >= 12 + n {
            let tail = meta@.subrange(4 + n, 12 + n);
            lemma_value_of_eight(tail);
            lemma_be_value_bound(tail);
            lemma_pow256();
            if let Some(got) = r {
                if raw@ == lossy_text(meta@.subrange(4, 4 + n)) {
                    law_safe_name_is_unique(raw@, got.0@, safe@);
                }
            }
        }
    }
}

/// A description that was cut off is not read at all.
pub proof fn law_cut_description_is_not_read(
    name: &str,
    size: u64,
    meta: Vec<u8>,
    received: &[u8],
    r: Option<(String, u64)>,
)
    requires
        call_ensures(encode_metadata, (name, size), meta),
        call_ensures(decode_metadata, (received,), r),
        encode_utf8(name@).len() < 0x1_0000_0000,
        received@.len() < meta@.len(),
        received@ == meta@.take(received@.len() as int),
    ensures
        r is None,
{
    let n = encode_utf8(name@).len();
    lemma_pow256();
    lemma_be_bytes_len(n, 4);
    lemma_be_bytes_len(size as nat, 8);
    law_be_round_trip(n, 4);
    if received@.len() >= 12 {
        assert(received@.take(4) =~= be_bytes(n, 4));
    }
}

/// A request is put to the user under its own size and with its safe name if it is of up to ten
/// gigabytes; a larger one is turned away; and one that cannot be read is dropped.
pub proof fn law_screening_follows_the_description(
    meta: &[u8],
    s: Screening,
    r: Option<(String, u64)>,
)
    requires
        call_ensures(screen, (meta,), s),
        call_ensures(decode_metadata, (meta,), r),
    ensures
        r is None <==> s is Ignore,
        r matches Some(got) ==> (s is TooLarge <==> got.1 > 10_737_418_240),
        s matches Screening::Ask { file_name, file_size } ==> (r matches Some(got) && file_name@
            == got.0@ && file_size == got.1),
{
    if let Screening::Ask { file_name, file_size } = s {
        if let Some(got) = r {
            law_safe_name_is_unique(
                metadata_fields(meta@)->Some_0.0,
                file_name@,
                got.0@,
            );
        }
    }
}

/// The first thing that went over a channel after what was on record.
pub open spec fn next_event(pre: Seq<TransportEvent>, post: Seq<TransportEvent>) -> TransportEvent {
    post[pre.len() as int]
}

/// Behind the message that came in, a no went out: a frame that the other end reads as a zero.
pub open spec fn says_no(
    session: SessionView,
    pre: Seq<TransportEvent>,
    post: Seq<TransportEvent>,
) -> bool {
    &&& post.len() == pre.len() + 2
    &&& post.last() matches TransportEvent::Send { frame, error } && noise_open(
        session.send_key,
        session.send_nonce,
        frame,
    ) == Some(seq![0u8])
}

/// A description that arrives on a channel is put to the user with exactly its size, and with its
/// name made safe, if it is of up to ten gigabytes, and nothing is answered yet. A larger one is
/// answered with a no at once, and nobody is asked.
pub proof fn law_request_is_put_to_the_user<T: Transport>(
    c: &mut SecureChannel<T>,
    r: Option<(String, u64)>,
    name: &str,
    size: u64,
    meta: Vec<u8>,
    safe: String,
)
    requires
        call_ensures(handle_request::<T>, (c,), r),
        call_ensures(encode_metadata, (name, size), meta),
        call_ensures(sanitize_filename, (name,), safe),
        encode_utf8(name@).len() < 0x1_0000_0000,
        brings(old(c)@.session, next_event(old(c)@.trace, final(c)@.trace), meta@),
    ensures
        size <= 10_737_418_240 ==> (r matches Some(request) && request.0@ == safe@ && request.1
            == size) && one_more(old(c)@.trace, final(c)@.trace) && only_received(
            old(c)@.session,
            final(c)@.session,
        ),
        size > 10_737_418_240 ==> r is None,
        size > 10_737_418_240 && old(c)@.session.send_nonce < 0xffff_ffff_ffff_ffff ==> says_no(
            old(c)@.session,
            old(c)@.trace,
            final(c)@.trace,
        ),
        final(c)@.hash == old(c)@.hash,
{
    law_metadata_round_trip(name@, size, Seq::empty());
    assert(meta@ + Seq::<u8>::empty() =~= meta@);
    if let Some(request) = r {
        law_safe_name_is_unique(name@, request.0@, safe@);
    }
}

/// Whatever is put to the user was on the channel, and is what reading it gives.
pub proof fn law_only_what_was_asked_is_put_to_the_user<T: Transport>(
    c: &mut SecureChannel<T>,
    r: Option<(String, u64)>,
    meta: &[u8],
    read: Option<(String, u64)>,
)
    requires
        call_ensures(handle_request::<T>, (c,), r),
        call_ensures(decode_metadata, (meta,), read),
    ensures
        next_event(old(c)@.trace, final(c)@.trace) matches TransportEvent::Recv { max_len, answer }
            && max_len == 70_000,
        final(c)@.trace.take(old(c)@.trace.len() as int) == old(c)@.trace,
        brings(old(c)@.session, next_event(old(c)@.trace, final(c)@.trace), meta@) && read is None
            ==> r is None && one_more(old(c)@.trace, final(c)@.trace),
        r matches Some(request) ==> request.1 <= 10_737_418_240,
        brings(old(c)@.session, next_event(old(c)@.trace, final(c)@.trace), meta@) ==> (
        read matches Some(got) ==> (r is Some <==> got.1 <= 10_737_418_240)),
        r is Some ==> one_more(old(c)@.trace, final(c)@.trace),
        brings(old(c)@.session, next_event(old(c)@.trace, final(c)@.trace), meta@) && (
        read matches Some(got) && got.1 > 10_737_418_240) && old(c)@.session.send_nonce
            < 0xffff_ffff_ffff_ffff ==> says_no(old(c)@.session, old(c)@.trace, final(c)@.trace),
        brings(old(c)@.session, next_event(old(c)@.trace, final(c)@.trace), meta@) ==> (
        r matches Some(request) ==> (read matches Some(got) && got.0@ == request.0@ && got.1
            == request.1)),
        !(exists|m: Seq<u8>|
            brings(old(c)@.session, next_event(old(c)@.trace, final(c)@.trace), m)) ==> r is None
            && one_more(old(c)@.trace, final(c)@.trace),
{
    let (t0, t1) = (old(c)@.trace, final(c)@.trace);
    assert(t1.take(t0.len() as int) =~= t0);
    if brings(old(c)@.session, next_event(t0, t1), meta@) {
        if let Some(request) = r {
            if let Some(got) = read {
                law_safe_name_is_unique(
                    metadata_fields(meta@)->Some_0.0,
                    request.0@,
                    got.0@,
                );
            }
        }
    }
    if let TransportEvent::Recv { max_len, answer } = next_event(t0, t1) {
        if let Ok(frame) = answer {
            if let Some(m) = noise_open(
                old(c)@.session.recv_key,
                old(c)@.session.recv_nonce,
                frame,
            ) {
                if frame.len() <= 65535 && old(c)@.session.recv_nonce < 0xffff_ffff_ffff_ffff {
                    assert(brings(old(c)@.session, next_event(t0, t1), m));
                }
            }
        }
    }
}

/// A yes goes out as a one and a no as a zero, in a message of its own.
pub proof fn law_answer_goes_out<T: Transport>(
    c: &mut SecureChannel<T>,
    accept: bool,
    r: Result<(), AirError>,
)
    requires
        call_ensures(answer_request::<T>, (c, accept), r),
        old(c)@.session.send_nonce < 0xffff_ffff_ffff_ffff,
    ensures
        one_more(old(c)@.trace, final(c)@.trace),
        final(c)@.trace.last() matches TransportEvent::Send { frame, error } && noise_open(
            old(c)@.session.send_key,
            old(c)@.session.send_nonce,
            frame,
        ) == Some(
            seq![
                if accept {
                    1u8
                } else {
                    0u8
                },
            ],
        ) && match r {
            Ok(_) => error is None,
            Err(e) => e matches AirError::Io(io) && error == Some(io),
        },
        only_sent(old(c)@.session, final(c)@.session),
{
    assert(final(c)@.trace.drop_last() =~= old(c)@.trace);
}

/// An offer goes out as the description of the file, in one message; then one message is waited
/// for, and it means yes if and only if it begins with a one. If the offer cannot be sent, the
/// transport's error is the result.
pub proof fn law_offer_goes_out_and_is_answered<T: Transport>(
    c: &mut SecureChannel<T>,
    name: &str,
    size: u64,
    meta: Vec<u8>,
    r: Result<bool, AirError>,
    answer: Seq<u8>,
    io: std::io::Error,
)
    requires
        call_ensures(offer_file::<T>, (c, name, size), r),
        call_ensures(encode_metadata, (name, size), meta),
        meta@.len() <= 65535 - 16,
        old(c)@.session.send_nonce < 0xffff_ffff_ffff_ffff,
    ensures
        old(c)@.trace.len() < final(c)@.trace.len() <= old(c)@.trace.len() + 2,
        final(c)@.trace.take(old(c)@.trace.len() as int) == old(c)@.trace,
        next_event(old(c)@.trace, final(c)@.trace) matches TransportEvent::Send { frame, error }
            && noise_open(old(c)@.session.send_key, old(c)@.session.send_nonce, frame) == Some(
            meta@,
        ) && (error is None <==> final(c)@.trace.len() == old(c)@.trace.len() + 2),
        final(c)@.trace.len() == old(c)@.trace.len() + 2 ==> (
        final(c)@.trace.last() matches TransportEvent::Recv { max_len, answer: a } && max_len
            == 64),
        brings(old(c)@.session, final(c)@.trace.last(), answer) ==> r == Ok::<bool, AirError>(
            answer.len() > 0 && answer[0] == 1,
        ),
        failed_with(final(c)@.trace.last(), io) ==> r == Err::<bool, AirError>(AirError::Io(io)),
        r is Ok ==> exists|m: Seq<u8>| brings(old(c)@.session, final(c)@.trace.last(), m),
{
    let (t0, t1) = (old(c)@.trace, final(c)@.trace);
    assert(t1.take(t0.len() as int) =~= t0);
    if t1.len() == t0.len() + 2 {
        assert(t1.drop_last()[t0.len() as int] == t1[t0.len() as int]);
    }
    if let TransportEvent::Recv { max_len, answer: a } = t1.last() {
        if let Ok(frame) = a {
            if let Some(m) = noise_open(
                old(c)@.session.recv_key,
                old(c)@.session.recv_nonce,
                frame,
            ) {
                if frame.len() <= 65535 && old(c)@.session.recv_nonce < 0xffff_ffff_ffff_ffff {
                    assert(brings(old(c)@.session, t1.last(), m));
                }
            }
        }
    }
}

/// What the receiver answers is what the sender of an offer learns.
pub proof fn law_answer_is_learnt<T: Transport, U: Transport>(
    b: &mut SecureChannel<T>,
    accept: bool,
    answered: Result<(), AirError>,
    a: &mut SecureChannel<U>,
    name: &str,
    size: u64,
    meta: Vec<u8>,
    r: Result<bool, AirError>,
    frame: Seq<u8>,
)
    requires
        call_ensures(answer_request::<T>, (b, accept), answered),
        call_ensures(offer_file::<U>, (a, name, size), r),
        call_ensures(encode_metadata, (name, size), meta),
        meta@.len() <= 65535 - 16,
        old(a)@.session.send_nonce < 0xffff_ffff_ffff_ffff,
        old(b)@.session.send_nonce < 0xffff_ffff_ffff_ffff,
        old(b)@.session.send_key == old(a)@.session.recv_key,
        old(b)@.session.send_nonce == old(a)@.session.recv_nonce,
        took(final(b)@.trace.last(), frame),
        gave(final(a)@.trace.last(), frame),
    ensures
        r == Ok::<bool, AirError>(accept),
{
    law_answer_goes_out(b, accept, answered);
    let m = noise_open(old(b)@.session.send_key, old(b)@.session.send_nonce, frame)->Some_0;
    assert(frame.len() == 17);
    assert(brings(old(a)@.session, final(a)@.trace.last(), m));
    law_offer_goes_out_and_is_answered(
        a,
        name,
        size,
        meta,
        r,
        m,
        arbitrary(),
    );
}

/// All that went over a connection that a request was awaited on.
pub open spec fn served<T: Transport>(r: Result<IncomingRequest<T>, T>) -> Seq<TransportEvent> {
    match r {
        Ok(request) => request.channel@.trace,
        Err(left) => left.trace(),
    }
}

/// A sender that shakes hands and then sends the description of a file of up to ten gigabytes is
/// put to the user of the other side, if what is sent arrives: with exactly that size, with the
/// name made safe, and with the code that the sender sees too.
pub proof fn law_request_arrives<T: Transport, U: Transport>(
    t: T,
    opened: SecureChannel<T>,
    code: String,
    a: &mut SecureChannel<T>,
    sent: Result<(), AirError>,
    u: U,
    r: Result<IncomingRequest<U>, U>,
    name: &str,
    size: u64,
    meta: Vec<u8>,
    message: &[u8],
    safe: String,
    m: (Seq<u8>, Seq<u8>, Seq<u8>, Seq<u8>),
)
    requires
        call_ensures(perform_handshake_initiator::<T>, (t,), Ok(opened)),
        call_ensures(SecureChannel::<T>::verification_code, (&opened,), code),
        *old(a) == opened,
        call_ensures(encode_metadata, (name, size), meta),
        message@ == meta@,
        call_ensures(SecureChannel::<T>::send, (a, message), sent),
        call_ensures(receive_request::<U>, (u,), r),
        call_ensures(sanitize_filename, (name,), safe),
        meta@.len() <= 65535 - 16,
        arrived(
            final(a)@.trace.skip(t.trace().len() as int),
            served(r).skip(u.trace().len() as int),
            m,
        ),
    ensures
        size > 10_737_418_240 <==> r is Err,
        r matches Ok(request) ==> request.file_size == size && request.file_name@ == safe@
            && request.verification_code@ == code@ && request.channel@.trace.len()
            == u.trace().len() + 4 && request.channel@.trace.take(u.trace().len() as int)
            == u.trace() && paired(final(a)@.session, request.channel@.session),
{
    law_metadata_round_trip(name@, size, Seq::empty());
    assert(meta@ + Seq::<u8>::empty() =~= meta@);
    lemma_served(t, opened, a, sent, u, r, message, m);
    if let Ok(request) = r {
        law_safe_name_is_unique(name@, request.file_name@, safe@);
    }
}

/// Whatever a sender sends behind its handshake, if it arrives it is put to the user of the other
/// side as reading it gives; and nothing is put to the user that cannot be read, or that is of
/// over ten gigabytes.
pub proof fn law_request_is_what_was_sent<T: Transport, U: Transport>(
    t: T,
    opened: SecureChannel<T>,
    code: String,
    a: &mut SecureChannel<T>,
    sent: Result<(), AirError>,
    u: U,
    r: Result<IncomingRequest<U>, U>,
    message: &[u8],
    read: Option<(String, u64)>,
    m: (Seq<u8>, Seq<u8>, Seq<u8>, Seq<u8>),
)
    requires
        call_ensures(perform_handshake_initiator::<T>, (t,), Ok(opened)),
        call_ensures(SecureChannel::<T>::verification_code, (&opened,), code),
        *old(a) == opened,
        call_ensures(SecureChannel::<T>::send, (a, message), sent),
        call_ensures(receive_request::<U>, (u,), r),
        call_ensures(decode_metadata, (message,), read),
        message@.len() <= 65535 - 16,
        arrived(
            final(a)@.trace.skip(t.trace().len() as int),
            served(r).skip(u.trace().len() as int),
            m,
        ),
    ensures
        r is Ok <==> (read matches Some(got) && got.1 <= 10_737_418_240),
        r matches Ok(request) ==> (read matches Some(got) && request.file_size == got.1
            && request.file_name@ == got.0@) && request.verification_code@ == code@ && paired(
            final(a)@.session,
            request.channel@.session,
        ),
{
    lemma_served(t, opened, a, sent, u, r, message, m);
    if let Ok(request) = r {
        if let Some(got) = read {
            law_safe_name_is_unique(
                metadata_fields(message@)->Some_0.0,
                request.file_name@,
                got.0@,
            );
        }
    }
}

/// A sender whose description is of over ten gigabytes is not put to the user; it is sent a no,
/// behind its handshake and its description, which it reads as a zero.
pub proof fn law_refused_request_is_answered<T: Transport, U: Transport>(
    t: T,
    opened: SecureChannel<T>,
    a: &mut SecureChannel<T>,
    sent: Result<(), AirError>,
    u: U,
    r: Result<IncomingRequest<U>, U>,
    message: &[u8],
    read: Option<(String, u64)>,
    m: (Seq<u8>, Seq<u8>, Seq<u8>, Seq<u8>),
)
    requires
        call_ensures(perform_handshake_initiator::<T>, (t,), Ok(opened)),
        *old(a) == opened,
        call_ensures(SecureChannel::<T>::send, (a, message), sent),
        call_ensures(receive_request::<U>, (u,), r),
        call_ensures(decode_metadata, (message,), read),
        message@.len() <= 65535 - 16,
        arrived(
            final(a)@.trace.skip(t.trace().len() as int),
            served(r).skip(u.trace().len() as int),
            m,
        ),
    ensures
        read matches Some(got) && got.1 > 10_737_418_240 ==> (r matches Err(left)
            && left.trace().len() == u.trace().len() + 5 && (
        left.trace().last() matches TransportEvent::Send { frame, error } && frame.len() == 17
            && noise_open(final(a)@.session.recv_key, final(a)@.session.recv_nonce, frame) == Some(
            seq![0u8],
        ))),
        read is None ==> (r matches Err(left) && left.trace().len() == u.trace().len() + 4),
{
    lemma_served(t, opened, a, sent, u, r, message, m);
    let (a0, a1) = (t.trace(), opened@.trace);
    let b0 = u.trace();
    let left = served(r);
    assert(forall|k: int|
        0 <= k < 4 ==> #[trigger] final(a)@.trace.skip(a0.len() as int)[k]
            == final(a)@.trace[a0.len() + k]);
    assert(forall|k: int|
        0 <= k < 4 ==> #[trigger] left.skip(b0.len() as int)[k] == left[b0.len() + k]);
    assert(a1.skip(a0.len() as int)[0] == a1[a0.len() as int]);
    assert(a1.skip(a0.len() as int)[1] == a1[a0.len() + 1int]);
    assert(a1.skip(a0.len() as int)[2] == a1[a0.len() + 2int]);
    law_send_reaches_the_transport(a, message, sent);
    assert(a1 == final(a)@.trace.drop_last());
    assert(forall|k: int| 0 <= k < a1.len() ==> #[trigger] a1[k] == final(a)@.trace[k]);
    if read is None || read->Some_0.1 > 10_737_418_240 {
        lemma_turned_away_with_reason(opened, a0, b0, left, message@, m);
    }
}

/// Whoever is turned away after a handshake that arrived is answered if the description is of over
/// ten gigabytes.
proof fn lemma_turned_away_with_reason<T: Transport>(
    opened: SecureChannel<T>,
    a0: Seq<TransportEvent>,
    b0: Seq<TransportEvent>,
    left: Seq<TransportEvent>,
    message: Seq<u8>,
    m: (Seq<u8>, Seq<u8>, Seq<u8>, Seq<u8>),
)
    requires
        initiator_ran(a0, opened@.trace, Ok((opened@.session, opened@.hash))),
        turned_away(b0, left),
        noise_open(opened@.session.send_key, opened@.session.send_nonce, m.3) == Some(message),
        m.3.len() <= 65535,
        took(opened@.trace[a0.len() as int], m.0),
        gave(left[b0.len() as int], m.0),
        took(left[b0.len() + 1int], m.1),
        gave(opened@.trace[a0.len() + 1int], m.1),
        took(opened@.trace[a0.len() + 2int], m.2),
        gave(left[b0.len() + 2int], m.2),
        gave(left[b0.len() + 3int], m.3),
    ensures
        metadata_fields(message) matches Some(fields) ==> (fields.1 > 10_737_418_240 ==> left.len()
            == b0.len() + 5 && (left.last() matches TransportEvent::Send { frame, error }
            && frame.len() == 17 && noise_open(
            opened@.session.recv_key,
            opened@.session.recv_nonce,
            frame,
        ) == Some(seq![0u8]))),
        metadata_fields(message) is None ==> left.len() == b0.len() + 4,
{
    let a1 = opened@.trace;
    if exists|e: AirError| #[trigger] responder_ran(b0, left, Err(e)) {
        let e = choose|e: AirError| #[trigger] responder_ran(b0, left, Err(e));
        law_undisturbed_handshake_succeeds(
            a0,
            a1,
            Ok((opened@.session, opened@.hash)),
            b0,
            left,
            Err(e),
            m.0,
            m.1,
            m.2,
        );
    } else {
        let (c, end) = choose|c: ChannelView, end: ChannelView|
            c.wf() && responder_ran(b0, c.trace, channel_outcome(c)) && #[trigger] request_handled(
                c,
                end,
                None,
            ) && end.trace == left;
        let b1 = c.trace;
        assert(b1.skip(b0.len() as int)[0] == b1[b0.len() as int]);
        assert(b1.skip(b0.len() as int)[1] == b1[b0.len() + 1int]);
        assert(b1.skip(b0.len() as int)[2] == b1[b0.len() + 2int]);
        assert(b1.len() == b0.len() + 3);
        let (mid, got) = choose|mid: ChannelView, got: Result<Seq<u8>, AirError>| #[trigger]
            channel_received(c, MAX_FRAME_LEN, mid, got) && message_settled(mid, got, end, None);
        assert(mid.trace.drop_last() == b1);
        assert(forall|i: int| 0 <= i < b1.len() ==> mid.trace[i] == b1[i]);
        assert(forall|i: int| 0 <= i < mid.trace.len() ==> mid.trace[i] == left[i]);
        law_undisturbed_handshake_succeeds(
            a0,
            a1,
            Ok((opened@.session, opened@.hash)),
            b0,
            b1,
            Ok((c.session, c.hash)),
            m.0,
            m.1,
            m.2,
        );
        assert(brings(c.session, mid.trace.last(), message));
        assert(c.session.send_nonce == 0);
    }
}

/// What went out on one side came in on the other: three messages of a handshake, the second of
/// them the other way, and one more.
pub open spec fn arrived(
    a: Seq<TransportEvent>,
    b: Seq<TransportEvent>,
    m: (Seq<u8>, Seq<u8>, Seq<u8>, Seq<u8>),
) -> bool {
    &&& a.len() == 4 && b.len() >= 4
    &&& took(a[0], m.0) && gave(b[0], m.0)
    &&& took(b[1], m.1) && gave(a[1], m.1)
    &&& took(a[2], m.2) && gave(b[2], m.2)
    &&& took(a[3], m.3) && gave(b[3], m.3)
}

proof fn lemma_served<T: Transport, U: Transport>(
    t: T,
    opened: SecureChannel<T>,
    a: &mut SecureChannel<T>,
    sent: Result<(), AirError>,
    u: U,
    r: Result<IncomingRequest<U>, U>,
    message: &[u8],
    m: (Seq<u8>, Seq<u8>, Seq<u8>, Seq<u8>),
)
    requires
        call_ensures(perform_handshake_initiator::<T>, (t,), Ok(opened)),
        *old(a) == opened,
        call_ensures(SecureChannel::<T>::send, (a, message), sent),
        call_ensures(receive_request::<U>, (u,), r),
        message@.len() <= 65535 - 16,
        arrived(
            final(a)@.trace.skip(t.trace().len() as int),
            served(r).skip(u.trace().len() as int),
            m,
        ),
    ensures
        r is Ok <==> (metadata_fields(message@) matches Some(fields) && fields.1
            <= 10_737_418_240),
        r matches Ok(request) ==> (metadata_fields(message@) matches Some(fields)
            && request.file_size == fields.1 && sanitized(
            fields.0,
            request.file_name@,
        )) && request.verification_code@ == crate::crypto::code_digits(opened@.hash)
            && request.channel@.trace.len() == u.trace().len() + 4
            && request.channel@.trace.take(u.trace().len() as int) == u.trace() && paired(
            final(a)@.session,
            request.channel@.session,
        ),
{
    let (a0, a1) = (t.trace(), opened@.trace);
    let b0 = u.trace();
    let left = served(r);
    assert(forall|k: int|
        0 <= k < 4 ==> #[trigger] final(a)@.trace.skip(a0.len() as int)[k]
            == final(a)@.trace[a0.len() + k]);
    assert(forall|k: int|
        0 <= k < 4 ==> #[trigger] left.skip(b0.len() as int)[k] == left[b0.len() + k]);
    assert(a1.skip(a0.len() as int)[0] == a1[a0.len() as int]);
    assert(a1.skip(a0.len() as int)[1] == a1[a0.len() + 1int]);
    assert(a1.skip(a0.len() as int)[2] == a1[a0.len() + 2int]);
    assert(a1.len() == a0.len() + 3);
    law_send_reaches_the_transport(a, message, sent);
    assert(a1 == final(a)@.trace.drop_last());
    assert(forall|k: int| 0 <= k < a1.len() ==> #[trigger] a1[k] == final(a)@.trace[k]);
    match r {
        Ok(request) => {
            let c = choose|c: ChannelView|
                c.wf() && responder_ran(u.trace(), c.trace, channel_outcome(c))
                    && #[trigger] request_handled(
                    c,
                    request.channel@,
                    Some((request.file_name@, request.file_size)),
                );
            let b1 = c.trace;
            assert(b1.skip(b0.len() as int)[0] == b1[b0.len() as int]);
            assert(b1.skip(b0.len() as int)[1] == b1[b0.len() + 1int]);
            assert(b1.skip(b0.len() as int)[2] == b1[b0.len() + 2int]);
            assert(request.channel@.trace.drop_last() == b1);
            law_undisturbed_handshake_succeeds(
                a0,
                a1,
                Ok((opened@.session, opened@.hash)),
                b0,
                b1,
                Ok((c.session, c.hash)),
                m.0,
                m.1,
                m.2,
            );
            assert(brings(c.session, request.channel@.trace.last(), message@));
            assert(request.channel@.trace.take(b0.len() as int) =~= b1.take(b0.len() as int));
        },
        Err(end) => {
            if let Some(fields) = metadata_fields(message@) {
                if fields.1 <= 10_737_418_240 {
                    lemma_turned_away(opened, a0, b0, end.trace(), message@, m);
                }
            }
        },
    }
}

/// Nobody is turned away whose handshake and whose description arrived.
proof fn lemma_turned_away<T: Transport>(
    opened: SecureChannel<T>,
    a0: Seq<TransportEvent>,
    b0: Seq<TransportEvent>,
    left: Seq<TransportEvent>,
    message: Seq<u8>,
    m: (Seq<u8>, Seq<u8>, Seq<u8>, Seq<u8>),
)
    requires
        initiator_ran(a0, opened@.trace, Ok((opened@.session, opened@.hash))),
        metadata_fields(message) matches Some(fields) && fields.1 <= 10_737_418_240,
        noise_open(opened@.session.send_key, opened@.session.send_nonce, m.3) == Some(message),
        m.3.len() <= 65535,
        took(opened@.trace[a0.len() as int], m.0),
        gave(left[b0.len() as int], m.0),
        took(left[b0.len() + 1int], m.1),
        gave(opened@.trace[a0.len() + 1int], m.1),
        took(opened@.trace[a0.len() + 2int], m.2),
        gave(left[b0.len() + 2int], m.2),
        gave(left[b0.len() + 3int], m.3),
    ensures
        !turned_away(b0, left),
{
    let a1 = opened@.trace;
    if exists|e: AirError| #[trigger] responder_ran(b0, left, Err(e)) {
        let e = choose|e: AirError| #[trigger] responder_ran(b0, left, Err(e));
        law_undisturbed_handshake_succeeds(
            a0,
            a1,
            Ok((opened@.session, opened@.hash)),
            b0,
            left,
            Err(e),
            m.0,
            m.1,
            m.2,
        );
    } else if turned_away(b0, left) {
        let (c, end) = choose|c: ChannelView, end: ChannelView|
            c.wf() && responder_ran(b0, c.trace, channel_outcome(c)) && #[trigger] request_handled(
                c,
                end,
                None,
            ) && end.trace == left;
        let b1 = c.trace;
        assert(b1.skip(b0.len() as int)[0] == b1[b0.len() as int]);
        assert(b1.skip(b0.len() as int)[1] == b1[b0.len() + 1int]);
        assert(b1.skip(b0.len() as int)[2] == b1[b0.len() + 2int]);
        assert(b1.len() == b0.len() + 3);
        let (mid, got) = choose|mid: ChannelView, got: Result<Seq<u8>, AirError>| #[trigger]
            channel_received(c, MAX_FRAME_LEN, mid, got) && message_settled(mid, got, end, None);
        assert(mid.trace.drop_last() == b1);
        assert(forall|i: int| 0 <= i < b1.len() ==> mid.trace[i] == b1[i]);
        assert(forall|i: int| 0 <= i < mid.trace.len() ==> mid.trace[i] == left[i]);
        law_undisturbed_handshake_succeeds(
            a0,
            a1,
            Ok((opened@.session, opened@.hash)),
            b0,
            b1,
            Ok((c.session, c.hash)),
            m.0,
            m.1,
            m.2,
        );
        assert(brings(c.session, mid.trace.last(), message));
    }
}

/// Whatever becomes of a connection that a request is awaited on, what was on record stays so, and
/// there are the messages of a handshake, a request and an answer at most behind it.
pub proof fn law_connection_stays_on_record<T: Transport>(t: T, r: Result<IncomingRequest<T>, T>)
    requires
        call_ensures(receive_request::<T>, (t,), r),
    ensures
        served(r).len() > t.trace().len(),
        served(r).take(t.trace().len() as int) == t.trace(),
        r is Ok ==> served(r).len() == t.trace().len() + 4,
        r is Err ==> served(r).len() <= t.trace().len() + 5,
        served(r)[t.trace().len() as int] matches TransportEvent::Recv { max_len, answer }
            && max_len == 70_000,
{
    let t0 = t.trace();
    let t1 = served(r);
    match r {
        Ok(request) => {
            let c = choose|c: ChannelView|
                c.wf() && responder_ran(t0, c.trace, channel_outcome(c))
                    && #[trigger] request_handled(
                    c,
                    request.channel@,
                    Some((request.file_name@, request.file_size)),
                );
            assert(c.trace.skip(t0.len() as int)[0] == c.trace[t0.len() as int]);
            assert(t1.drop_last() == c.trace);
            assert(t1.take(t0.len() as int) =~= c.trace.take(t0.len() as int));
        },
        Err(_) => {
            if exists|e: AirError| #[trigger] responder_ran(t0, t1, Err(e)) {
                assert(t1.skip(t0.len() as int)[0] == t1[t0.len() as int]);
            } else {
                let (c, end) = choose|c: ChannelView, end: ChannelView|
                    c.wf() && responder_ran(t0, c.trace, channel_outcome(c))
                        && #[trigger] request_handled(c, end, None) && end.trace == t1;
                let (mid, got) = choose|mid: ChannelView, got: Result<Seq<u8>, AirError>| #[trigger]
                    channel_received(c, MAX_FRAME_LEN, mid, got) && message_settled(
                        mid,
                        got,
                        end,
                        None,
                    );
                assert(c.trace.skip(t0.len() as int)[0] == c.trace[t0.len() as int]);
                assert(mid.trace.drop_last() == c.trace);
                assert(forall|i: int| 0 <= i < c.trace.len() ==> mid.trace[i] == c.trace[i]);
                assert(forall|i: int| 0 <= i < mid.trace.len() ==> mid.trace[i] == t1[i]);
                assert(t1.take(t0.len() as int) =~= c.trace.take(t0.len() as int));
            }
        },
    }
}

/// A request that waits for the user shows six digits that read as the hash of its channel.
pub proof fn law_request_shows_the_code_of_its_channel<T: Transport>(
    t: T,
    request: IncomingRequest<T>,
    code: String,
)
    requires
        call_ensures(receive_request::<T>, (t,), Ok(request)),
        call_ensures(SecureChannel::<T>::verification_code, (&request.channel,), code),
    ensures
        request.verification_code@ == code@,
        request.verification_code@.len() == 6,
        digits_value(request.verification_code@, 10) == (request.channel@.hash[0] * 65536
            + request.channel@.hash[1] * 256 + request.channel@.hash[2]) % 1_000_000,
        request.file_size <= 10_737_418_240,
{
    law_code_reads_as_the_hash(&request.channel, code);
}

/// What cannot be encrypted, for its length or because the nonces are used up, is not sent: an
/// offer, and an answer.
pub proof fn law_oversized_request_is_refused<T: Transport>(
    a: &mut SecureChannel<T>,
    name: &str,
    size: u64,
    meta: Vec<u8>,
    offered: Result<bool, AirError>,
    b: &mut SecureChannel<T>,
    accept: bool,
    answered: Result<(), AirError>,
)
    requires
        call_ensures(offer_file::<T>, (a, name, size), offered),
        call_ensures(encode_metadata, (name, size), meta),
        call_ensures(answer_request::<T>, (b, accept), answered),
    ensures
        meta@.len() > 65535 - 16 || old(a)@.session.send_nonce == 0xffff_ffff_ffff_ffff ==> (
        offered matches Err(e) && e is Noise) && final(a)@ == old(a)@,
        old(b)@.session.send_nonce == 0xffff_ffff_ffff_ffff ==> (answered matches Err(e)
            && e is Noise) && final(b)@ == old(b)@,
{
}

} // verus!
