//! Laws of the channel: sending, receiving, the code that two people compare, and the handshake.

use crate::crypto::{
    law_undisturbed_handshake_succeeds, outcome_view, perform_handshake_initiator,
    perform_handshake_responder, run_initiator, run_responder, SecureChannel,
};
use crate::error::AirError;
use crate::noise::{noise_handshake_hash, noise_open, session_view, SessionView};
use crate::text::{format_digits, padded_digits};
use crate::transport::{Transport, TransportEvent};
use vstd::prelude::*;

verus! {

/// `event` hands the transport a frame that the other end of `session` reads as `plaintext`, under
/// the nonce that is due; `error` is what the transport made of it.
pub open spec fn carries(
    session: SessionView,
    plaintext: Seq<u8>,
    event: TransportEvent,
    error: Option<std::io::Error>,
) -> bool {
    event matches TransportEvent::Send { frame, error: e } && e == error && frame.len()
        == plaintext.len() + 16 && noise_open(session.send_key, session.send_nonce, frame) == Some(
        plaintext,
    )
}

/// `event` got a frame from the transport that reads as `plaintext` in `session`, under the nonce
/// that is due.
pub open spec fn brings(session: SessionView, event: TransportEvent, plaintext: Seq<u8>) -> bool {
    event matches TransportEvent::Recv { max_len, answer } && (answer matches Ok(frame)
        && frame.len() <= 65535 && noise_open(session.recv_key, session.recv_nonce, frame) == Some(
        plaintext,
    )) && session.recv_nonce < 0xffff_ffff_ffff_ffff
}

/// One more event than before, and nothing else on record changed.
pub open spec fn one_more(pre: Seq<TransportEvent>, post: Seq<TransportEvent>) -> bool {
    post.len() == pre.len() + 1 && post.drop_last() == pre
}

/// Nothing changed in a session but that one more message was encrypted.
pub open spec fn only_sent(pre: SessionView, post: SessionView) -> bool {
    &&& post.protocol == pre.protocol
    &&& post.send_key == pre.send_key
    &&& post.recv_key == pre.recv_key
    &&& post.recv_nonce == pre.recv_nonce
    &&& post.send_nonce == pre.send_nonce + 1
}

/// Nothing changed in a session but that one more message was decrypted.
pub open spec fn only_received(pre: SessionView, post: SessionView) -> bool {
    &&& post.protocol == pre.protocol
    &&& post.send_key == pre.send_key
    &&& post.recv_key == pre.recv_key
    &&& post.send_nonce == pre.send_nonce
    &&& post.recv_nonce == pre.recv_nonce + 1
}

/// Sending succeeds wherever it can: as long as there are nonces left, a plaintext that leaves room
/// for its tag in a Noise message is put on the transport as one frame that the other end reads as
/// that plaintext. What comes of it is the transport's word and nothing else.
pub proof fn law_send_reaches_the_transport<T: Transport>(
    c: &mut SecureChannel<T>,
    plaintext: &[u8],
    r: Result<(), AirError>,
)
    requires
        call_ensures(SecureChannel::<T>::send, (c, plaintext), r),
        plaintext@.len() <= 65535 - 16,
        old(c)@.session.send_nonce < 0xffff_ffff_ffff_ffff,
    ensures
        one_more(old(c)@.trace, final(c)@.trace),
        r is Ok ==> carries(old(c)@.session, plaintext@, final(c)@.trace.last(), None),
        r matches Err(e) ==> (e matches AirError::Io(io) && carries(
            old(c)@.session,
            plaintext@,
            final(c)@.trace.last(),
            Some(io),
        )),
        only_sent(old(c)@.session, final(c)@.session),
        final(c)@.hash == old(c)@.hash,
{
    assert(final(c)@.trace.drop_last() =~= old(c)@.trace);
}

/// Every piece of a file, of 1 to 8192 bytes, is put on the transport; and so is everything else of
/// up to 60,012 bytes, such as the description of a file with a name of 60,000 bytes. It is refused
/// only where the transport refuses it.
pub proof fn law_piece_reaches_the_transport<T: Transport>(
    c: &mut SecureChannel<T>,
    piece: &[u8],
    r: Result<(), AirError>,
)
    requires
        call_ensures(SecureChannel::<T>::send, (c, piece), r),
        1 <= piece@.len() <= 60_012,
        old(c)@.session.send_nonce < 0xffff_ffff_ffff_ffff,
    ensures
        final(c)@.trace.len() == old(c)@.trace.len() + 1,
        r is Ok || (r matches Err(e) && e is Io),
        final(c)@.trace.last() matches TransportEvent::Send { frame, error } && noise_open(
            old(c)@.session.send_key,
            old(c)@.session.send_nonce,
            frame,
        ) == Some(piece@) && (error is None <==> r is Ok),
{
    law_send_reaches_the_transport(c, piece, r);
}

/// What cannot be encrypted is refused, and nothing goes to the transport.
pub proof fn law_oversized_plaintext_is_refused<T: Transport>(
    c: &mut SecureChannel<T>,
    plaintext: &[u8],
    r: Result<(), AirError>,
)
    requires
        call_ensures(SecureChannel::<T>::send, (c, plaintext), r),
        plaintext@.len() > 65535 - 16 || old(c)@.session.send_nonce == 0xffff_ffff_ffff_ffff,
    ensures
        r matches Err(e) && e is Noise,
        final(c)@ == old(c)@,
{
}

/// Receiving asks the transport once, for no more than the caller wants. A frame that is authentic
/// comes out as its plaintext; one that is not is an error and changes nothing; the transport's
/// error is passed on.
pub proof fn law_recv_gives_what_was_brought<T: Transport>(
    c: &mut SecureChannel<T>,
    max_len: u32,
    r: Result<Vec<u8>, AirError>,
    plaintext: Seq<u8>,
)
    requires
        call_ensures(SecureChannel::<T>::recv, (c, max_len), r),
    ensures
        one_more(old(c)@.trace, final(c)@.trace),
        final(c)@.trace.last() matches TransportEvent::Recv { max_len: asked, answer } && asked
            == max_len && (answer matches Ok(frame) ==> frame.len() <= max_len),
        brings(old(c)@.session, final(c)@.trace.last(), plaintext) ==> (r matches Ok(v) && v@
            == plaintext) && only_received(old(c)@.session, final(c)@.session),
        r matches Ok(v) ==> brings(old(c)@.session, final(c)@.trace.last(), v@),
        r is Err ==> final(c)@.session == old(c)@.session,
        final(c)@.trace.last() matches TransportEvent::Recv { max_len: asked, answer } ==> (answer
            matches Err(io) ==> (r matches Err(e) && e == AirError::Io(io))),
        final(c)@.trace.last() matches TransportEvent::Recv { max_len: asked, answer } ==> (answer
            is Ok ==> (r matches Err(e) ==> e is Noise)),
        final(c)@.hash == old(c)@.hash,
{
}

/// What goes into one end of a session comes out at the other.
pub proof fn law_one_end_reads_what_the_other_sent<T: Transport, U: Transport>(
    a: &mut SecureChannel<T>,
    plaintext: &[u8],
    sent: Result<(), AirError>,
    b: &mut SecureChannel<U>,
    max_len: u32,
    got: Result<Vec<u8>, AirError>,
)
    requires
        call_ensures(SecureChannel::<T>::send, (a, plaintext), sent),
        call_ensures(SecureChannel::<U>::recv, (b, max_len), got),
        sent is Ok,
        old(a)@.session.send_key == old(b)@.session.recv_key,
        old(a)@.session.send_nonce == old(b)@.session.recv_nonce,
        final(a)@.trace.last() matches TransportEvent::Send { frame, error } && (
        final(b)@.trace.last() matches TransportEvent::Recv { max_len: asked, answer } && answer
            == Ok::<Seq<u8>, std::io::Error>(frame)),
    ensures
        got matches Ok(v) && v@ == plaintext@,
        final(a)@.session.send_nonce == final(b)@.session.recv_nonce,
{
    if plaintext@.len() > 65535 - 16 || old(a)@.session.send_nonce == 0xffff_ffff_ffff_ffff {
        law_oversized_plaintext_is_refused(a, plaintext, sent);
    } else {
        law_send_reaches_the_transport(a, plaintext, sent);
        law_recv_gives_what_was_brought(b, max_len, got, plaintext@);
    }
}

/// The value of a character as a digit.
pub open spec fn digit_value(c: char) -> int {
    if '0' <= c && c <= '9' {
        c as int - '0' as int
    } else if 'A' <= c && c <= 'F' {
        c as int - 'A' as int + 10
    } else {
        -1
    }
}

/// The number that digits stand for.
pub open spec fn digits_value(s: Seq<char>, base: int) -> int
    decreases s.len(),
{
    if s.len() == 0 {
        0
    } else {
        digits_value(s.drop_last(), base) * base + digit_value(s.last())
    }
}

pub(crate) proof fn lemma_padded_digits_value(n: nat, base: nat, width: nat)
    requires
        2 <= base <= 16,
    ensures
        digits_value(padded_digits(n, base, width), base as int) == n,
        padded_digits(n, base, width).len() >= width,
        forall|i: int|
            0 <= i < padded_digits(n, base, width).len() ==> 0 <= digit_value(
                #[trigger] padded_digits(n, base, width)[i],
            ) < base,
        padded_digits(n, base, width).len() > width ==> padded_digits(n, base, width)[0] != '0',
    decreases n, width,
{
    if n > 0 || width > 0 {
        let w: nat = if width == 0 {
            0
        } else {
            (width - 1) as nat
        };
        assert(n / base <= n && (n > 0 ==> n / base < n)) by (nonlinear_arith)
            requires
                base >= 2,
        ;
        lemma_padded_digits_value(n / base, base, w);
        let front = padded_digits(n / base, base, w);
        let s = padded_digits(n, base, width);
        let c = crate::text::digit_chars()[(n % base) as int];
        assert(s == front.push(c));
        assert(s.drop_last() =~= front);
        assert(digit_value(c) == n % base);
        assert((n / base) as int * base as int + (n % base) as int == n) by (nonlinear_arith)
            requires
                base >= 2,
        ;
        assert forall|i: int| 0 <= i < s.len() implies 0 <= digit_value(#[trigger] s[i]) < base by {
            if i < front.len() {
                assert(s[i] == front[i]);
            }
        }
        if s.len() > width {
            if front.len() > 0 {
                assert(s[0] == front[0]);
            }
        }
    }
}

/// Digits are written so that they read as the number: each is a digit of the base, there are at
/// least as many as asked for, and no zero stands in front beyond those.
pub proof fn law_digits_read_as_the_number(n: u64, base: u64, width: usize, s: String)
    requires
        call_ensures(format_digits, (n, base, width), s),
        2 <= base <= 16,
    ensures
        digits_value(s@, base as int) == n,
        s@.len() >= width,
        forall|i: int| 0 <= i < s@.len() ==> 0 <= digit_value(#[trigger] s@[i]) < base,
        s@.len() > width ==> s@[0] != '0',
{
    lemma_padded_digits_value(n as nat, base as nat, width as nat);
}

/// The code to compare has six decimal digits, and reads as the first three bytes of the handshake
/// hash, as a number, modulo a million.
pub proof fn law_code_reads_as_the_hash<T: Transport>(c: &SecureChannel<T>, code: String)
    requires
        call_ensures(SecureChannel::<T>::verification_code, (c,), code),
        c@.wf(),
    ensures
        code@.len() == 6,
        forall|i: int| 0 <= i < 6 ==> '0' <= (#[trigger] code@[i]) && code@[i] <= '9',
        digits_value(code@, 10) == (c@.hash[0] * 65536 + c@.hash[1] * 256 + c@.hash[2]) % 1_000_000,
{
    let head = c@.hash.take(3);
    reveal_with_fuel(crate::bytes::be_value, 4);
    assert(head.drop_last().drop_last().drop_last() =~= Seq::<u8>::empty());
    assert(crate::bytes::be_value(head) == c@.hash[0] * 65536 + c@.hash[1] * 256 + c@.hash[2]);
    lemma_padded_digits_value(crate::bytes::be_value(head) % 1_000_000, 10, 6);
    assert forall|i: int| 0 <= i < 6 implies '0' <= (#[trigger] code@[i]) && code@[i] <= '9' by {
        assert(0 <= digit_value(code@[i]) < 10);
    }
}

/// A transport took a frame.
pub open spec fn took(event: TransportEvent, frame: Seq<u8>) -> bool {
    event == (TransportEvent::Send { frame, error: None })
}

/// A transport gave a frame.
pub open spec fn gave(event: TransportEvent, frame: Seq<u8>) -> bool {
    event matches TransportEvent::Recv { max_len, answer } && answer == Ok::<
        Seq<u8>,
        std::io::Error,
    >(frame)
}

/// A transport failed.
pub open spec fn failed_with(event: TransportEvent, io: std::io::Error) -> bool {
    match event {
        TransportEvent::Send { frame, error } => error == Some(io),
        TransportEvent::Recv { max_len, answer } => answer == Err::<Seq<u8>, std::io::Error>(io),
    }
}

/// Two sessions that begin as the two ends of one: what either sends, the other can read.
pub open spec fn two_ends(a: SessionView, b: SessionView) -> bool {
    &&& a.send_key == b.recv_key
    &&& b.send_key == a.recv_key
    &&& a.send_nonce == 0 && a.recv_nonce == 0
    &&& b.send_nonce == 0 && b.recv_nonce == 0
}

/// Where the three messages of a handshake arrive as they were sent, it succeeds on both sides,
/// with one hash and with a session of which each side has an end.
pub proof fn law_handshake_succeeds<T: Transport, U: Transport>(
    a: &mut T,
    ra: Result<(snow::TransportState, Vec<u8>), AirError>,
    b: &mut U,
    rb: Result<(snow::TransportState, Vec<u8>), AirError>,
    m1: Seq<u8>,
    m2: Seq<u8>,
    m3: Seq<u8>,
)
    requires
        call_ensures(run_initiator::<T>, (a,), ra),
        call_ensures(run_responder::<U>, (b,), rb),
        took(final(a).trace()[old(a).trace().len() as int], m1),
        gave(final(b).trace()[old(b).trace().len() as int], m1),
        took(final(b).trace()[old(b).trace().len() + 1int], m2),
        gave(final(a).trace()[old(a).trace().len() + 1int], m2),
        final(a).trace().len() > old(a).trace().len() + 2 ==> took(
            final(a).trace()[old(a).trace().len() + 2int],
            m3,
        ) && gave(final(b).trace()[old(b).trace().len() + 2int], m3),
    ensures
        ra matches Ok((sa, ha)) && (rb matches Ok((sb, hb)) && ha@ == hb@ && two_ends(
            session_view(sa),
            session_view(sb),
        )),
{
    let (a0, a1) = (old(a).trace(), final(a).trace());
    let (b0, b1) = (old(b).trace(), final(b).trace());
    law_undisturbed_handshake_succeeds(
        a0,
        a1,
        outcome_view(ra),
        b0,
        b1,
        outcome_view(rb),
        m1,
        m2,
        m3,
    );
    assert(a1.skip(a0.len() as int)[0] == a1[a0.len() as int]);
    assert(a1.skip(a0.len() as int)[1] == a1[a0.len() + 1int]);
    assert(a1.skip(a0.len() as int)[2] == a1[a0.len() + 2int]);
    assert(b1.skip(b0.len() as int)[0] == b1[b0.len() as int]);
    assert(b1.skip(b0.len() as int)[1] == b1[b0.len() + 1int]);
    assert(b1.skip(b0.len() as int)[2] == b1[b0.len() + 2int]);
}

/// The side that speaks first sends 32 bytes, waits for an answer, and sends 64 bytes. It goes no
/// further than the transport does: the transport's failure is the result, and where all three
/// steps go well, the handshake is through and its hash is the one of those three messages.
pub proof fn law_initiator_speaks_first<T: Transport>(
    t: &mut T,
    r: Result<(snow::TransportState, Vec<u8>), AirError>,
    io: std::io::Error,
)
    requires
        call_ensures(run_initiator::<T>, (t,), r),
    ensures
        old(t).trace().len() < final(t).trace().len() <= old(t).trace().len() + 3,
        final(t).trace().take(old(t).trace().len() as int) == old(t).trace(),
        final(t).trace()[old(t).trace().len() as int] matches TransportEvent::Send { frame, error }
            && frame.len() == 32,
        forall|i: int|
            old(t).trace().len() <= i < final(t).trace().len() - 1 ==> !failed_with(
                #[trigger] final(t).trace()[i],
                io,
            ),
        failed_with(final(t).trace().last(), io) ==> r == Err::<
            (snow::TransportState, Vec<u8>),
            AirError,
        >(AirError::Io(io)),
        r == Err::<(snow::TransportState, Vec<u8>), AirError>(AirError::Io(io)) ==> failed_with(
            final(t).trace().last(),
            io,
        ),
        final(t).trace().len() == old(t).trace().len() + 3 ==> (
        final(t).trace().last() matches TransportEvent::Send { frame, error } && frame.len() == 64
            && (error is None ==> r is Ok)),
        r matches Err(e) ==> e is Io || e is Noise,
        r matches Ok((session, hash)) ==> final(t).trace().len() == old(t).trace().len() + 3 && (
        final(t).trace()[old(t).trace().len() as int] matches TransportEvent::Send {
            frame: m1,
            error: e1,
        } && (final(t).trace()[old(t).trace().len() + 1int] matches TransportEvent::Recv {
            max_len,
            answer,
        } && max_len == 70_000 && (answer matches Ok(m2) && (final(t).trace().last() matches TransportEvent::Send {
            frame: m3,
            error: e3,
        } && hash@ == noise_handshake_hash(
            "Noise_XX_25519_ChaChaPoly_BLAKE2s"@,
            seq![m1, m2, m3],
        ))))) && session_view(session).send_nonce == 0 && session_view(session).recv_nonce == 0
            && session_view(session).protocol == "Noise_XX_25519_ChaChaPoly_BLAKE2s"@
            && hash@.len() == 32,
{
    let (t0, t1) = (old(t).trace(), final(t).trace());
    let ev = t1.skip(t0.len() as int);
    assert(ev[0] == t1[t0.len() as int]);
    assert(ev.len() >= 2 ==> ev[1] == t1[t0.len() + 1int]);
    assert(ev.len() >= 3 ==> ev[2] == t1[t0.len() + 2int]);
    assert(ev.last() == t1.last());
    assert forall|i: int| t0.len() <= i < t1.len() - 1 implies !failed_with(#[trigger] t1[i], io) by {
        assert(t1[i] == ev[i - t0.len()]);
    }
}

/// The side that answers waits for a message, sends 96 bytes, and waits for another. It goes no
/// further than the transport does, and a first message of the right size is never refused.
pub proof fn law_responder_answers<T: Transport>(
    t: &mut T,
    r: Result<(snow::TransportState, Vec<u8>), AirError>,
    io: std::io::Error,
)
    requires
        call_ensures(run_responder::<T>, (t,), r),
    ensures
        old(t).trace().len() < final(t).trace().len() <= old(t).trace().len() + 3,
        final(t).trace().take(old(t).trace().len() as int) == old(t).trace(),
        final(t).trace()[old(t).trace().len() as int] matches TransportEvent::Recv {
            max_len,
            answer,
        } && max_len == 70_000 && (answer matches Ok(m1) ==> (final(t).trace().len()
            > old(t).trace().len() + 1 <==> 32 <= m1.len() <= 65535)),
        final(t).trace().len() > old(t).trace().len() + 1 ==> (
        final(t).trace()[old(t).trace().len() + 1int] matches TransportEvent::Send { frame, error }
            && frame.len() == 96 && (error is None ==> final(t).trace().len()
            == old(t).trace().len() + 3)),
        forall|i: int|
            old(t).trace().len() <= i < final(t).trace().len() - 1 ==> !failed_with(
                #[trigger] final(t).trace()[i],
                io,
            ),
        failed_with(final(t).trace().last(), io) ==> r == Err::<
            (snow::TransportState, Vec<u8>),
            AirError,
        >(AirError::Io(io)),
        r == Err::<(snow::TransportState, Vec<u8>), AirError>(AirError::Io(io)) ==> failed_with(
            final(t).trace().last(),
            io,
        ),
        r matches Err(e) ==> e is Io || e is Noise,
        r matches Ok((session, hash)) ==> final(t).trace().len() == old(t).trace().len() + 3 && (
        final(t).trace()[old(t).trace().len() as int] matches TransportEvent::Recv {
            max_len: max_len1,
            answer: answer1,
        } && (answer1 matches Ok(m1) && (
        final(t).trace()[old(t).trace().len() + 1int] matches TransportEvent::Send {
            frame: m2,
            error: e2,
        } && (final(t).trace().last() matches TransportEvent::Recv {
            max_len: max_len3,
            answer: answer3,
        } && max_len3 == 70_000 && (answer3 matches Ok(m3) && hash@ == noise_handshake_hash(
            "Noise_XX_25519_ChaChaPoly_BLAKE2s"@,
            seq![m1, m2, m3],
        )))))) && session_view(session).send_nonce == 0 && session_view(session).recv_nonce == 0
            && session_view(session).protocol == "Noise_XX_25519_ChaChaPoly_BLAKE2s"@
            && hash@.len() == 32,
{
    let (t0, t1) = (old(t).trace(), final(t).trace());
    let ev = t1.skip(t0.len() as int);
    assert(ev[0] == t1[t0.len() as int]);
    assert(ev.len() >= 2 ==> ev[1] == t1[t0.len() + 1int]);
    assert(ev.len() >= 3 ==> ev[2] == t1[t0.len() + 2int]);
    assert(ev.last() == t1.last());
    assert forall|i: int| t0.len() <= i < t1.len() - 1 implies !failed_with(#[trigger] t1[i], io) by {
        assert(t1[i] == ev[i - t0.len()]);
    }
}

/// Two channels that a handshake was performed for, each message of which arrived as it was sent:
/// both show one code, and what either sends, the other can read.
pub proof fn law_channels_of_a_handshake_pair<T: Transport, U: Transport>(
    t: T,
    a: SecureChannel<T>,
    code_a: String,
    u: U,
    b: SecureChannel<U>,
    code_b: String,
    m1: Seq<u8>,
    m2: Seq<u8>,
    m3: Seq<u8>,
)
    requires
        call_ensures(perform_handshake_initiator::<T>, (t,), Ok(a)),
        call_ensures(perform_handshake_responder::<U>, (u,), Ok(b)),
        call_ensures(SecureChannel::<T>::verification_code, (&a,), code_a),
        call_ensures(SecureChannel::<U>::verification_code, (&b,), code_b),
        took(a@.trace[t.trace().len() as int], m1),
        gave(b@.trace[u.trace().len() as int], m1),
        took(b@.trace[u.trace().len() + 1int], m2),
        gave(a@.trace[t.trace().len() + 1int], m2),
        took(a@.trace[t.trace().len() + 2int], m3),
        gave(b@.trace[u.trace().len() + 2int], m3),
    ensures
        code_a@ == code_b@,
        a@.hash == noise_handshake_hash("Noise_XX_25519_ChaChaPoly_BLAKE2s"@, seq![m1, m2, m3]),
        b@.hash == a@.hash,
        a@.trace.len() == t.trace().len() + 3,
        b@.trace.len() == u.trace().len() + 3,
        a@.trace.take(t.trace().len() as int) == t.trace(),
        b@.trace.take(u.trace().len() as int) == u.trace(),
        two_ends(a@.session, b@.session),
        a@.session.protocol == "Noise_XX_25519_ChaChaPoly_BLAKE2s"@,
        b@.session.protocol == a@.session.protocol,
{
    law_undisturbed_handshake_succeeds(
        t.trace(),
        a@.trace,
        Ok((a@.session, a@.hash)),
        u.trace(),
        b@.trace,
        Ok((b@.session, b@.hash)),
        m1,
        m2,
        m3,
    );
    let (a0, a1) = (t.trace(), a@.trace);
    let (b0, b1) = (u.trace(), b@.trace);
    assert(a1.skip(a0.len() as int)[0] == a1[a0.len() as int]);
    assert(a1.skip(a0.len() as int)[1] == a1[a0.len() + 1int]);
    assert(a1.skip(a0.len() as int)[2] == a1[a0.len() + 2int]);
    assert(b1.skip(b0.len() as int)[0] == b1[b0.len() as int]);
    assert(b1.skip(b0.len() as int)[1] == b1[b0.len() + 1int]);
    assert(b1.skip(b0.len() as int)[2] == b1[b0.len() + 2int]);
}

/// What a channel went over comes back with all that went over it.
pub proof fn law_transport_comes_back<T: Transport>(c: SecureChannel<T>, t: T)
    requires
        call_ensures(SecureChannel::<T>::into_transport, (c,), t),
    ensures
        t.trace() == c@.trace,
{
}

/// Where a handshake comes to nothing, the transport or the cipher failed.
pub proof fn law_failed_handshake_has_its_reason<T: Transport, U: Transport>(
    t: T,
    a: AirError,
    u: U,
    b: AirError,
)
    requires
        call_ensures(perform_handshake_initiator::<T>, (t,), Err(a)),
        call_ensures(perform_handshake_responder::<U>, (u,), Err(b)),
    ensures
        a is Io || a is Noise,
        b is Io || b is Noise,
{
}

} // verus!
