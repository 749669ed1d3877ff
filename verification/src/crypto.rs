//! The secure channel: a handshake over any transport, then encrypted messages both ways.

use crate::bytes::{be_value, lemma_pow256, read_be};
use crate::error::AirError;
use crate::noise::{
    build_initiator, build_responder, can_seal, completed_with, fresh_session, generate_private_key,
    handshake_hash, handshake_overhead, handshake_read, handshake_view, handshake_write,
    into_transport_mode, noise_handshake_hash, noise_open, noise_seal, parse_protocol, session_open,
    session_read, session_view, session_write, SessionView,
    MAX_NOISE_MESSAGE, NOISE_KEY, NOISE_PATTERN, NOISE_TAG,
};
use crate::text::{format_digits, lemma_padded_digits_len, padded_digits};
use crate::transport::{frame_view, Transport, TransportEvent};
use vstd::prelude::*;
use vstd::slice::slice_subrange;

verus! {

/// The longest frame that is asked for: a little over the limit of the Noise protocol.
pub const MAX_FRAME_LEN: u32 = 70_000;

/// The room left beyond the plaintext when a message is encrypted.
const SEAL_ROOM: usize = 32;

/// What a channel holds, and what went over its transport.
#[verifier::ext_equal]
pub struct ChannelView {
    pub trace: Seq<TransportEvent>,
    pub session: SessionView,
    pub hash: Seq<u8>,
}

/// The six digits that two people compare: the first three bytes of the handshake hash, modulo a
/// million.
pub open spec fn code_digits(hash: Seq<u8>) -> Seq<char> {
    padded_digits(be_value(hash.take(3)) % 1_000_000, 10, 6)
}

/// What becomes of a plaintext given to a channel. It is encrypted under the next nonce and
/// handed to the transport, whose word is final; where it cannot be encrypted, nothing happens
/// and the error is one of the Noise library.
pub open spec fn channel_sent(
    pre: ChannelView,
    plaintext: Seq<u8>,
    post: ChannelView,
    r: Result<(), AirError>,
) -> bool {
    if can_seal(pre.session, plaintext.len()) {
        let key = pre.session.send_key;
        let nonce = pre.session.send_nonce;
        let frame = noise_seal(key, nonce, plaintext);
        &&& noise_open(key, nonce, frame) == Some(plaintext)
        &&& frame.len() == plaintext.len() + NOISE_TAG
        &&& post.session == (SessionView { send_nonce: (nonce + 1) as u64, ..pre.session })
        &&& post.hash == pre.hash
        &&& match r {
            Ok(_) => post.trace == pre.trace.push(TransportEvent::Send { frame, error: None }),
            Err(e) => e matches AirError::Io(io) && post.trace == pre.trace.push(
                TransportEvent::Send { frame, error: Some(io) },
            ),
        }
    } else {
        post == pre && (r matches Err(e) && e is Noise)
    }
}

/// What comes out of a channel. The next frame is asked of the transport, which hands out none
/// longer than `max_len`; one that is authentic
/// under the next nonce is decrypted, any other is an error of the Noise library and leaves the
/// session as it was.
pub open spec fn channel_received(
    pre: ChannelView,
    max_len: u32,
    post: ChannelView,
    r: Result<Seq<u8>, AirError>,
) -> bool {
    &&& post.trace.len() == pre.trace.len() + 1
    &&& post.trace.drop_last() == pre.trace
    &&& post.hash == pre.hash
    &&& post.trace.last() matches TransportEvent::Recv { max_len: asked, answer } && asked == max_len
        && match answer {
        Err(io) => r == Err::<Seq<u8>, AirError>(AirError::Io(io)) && post.session == pre.session,
        Ok(frame) => frame.len() <= max_len && match session_open(pre.session, frame) {
            Some(plaintext) => r == Ok::<Seq<u8>, AirError>(plaintext) && post.session == (
            SessionView { recv_nonce: (pre.session.recv_nonce + 1) as u64, ..pre.session }),
            None => (r matches Err(e) && e is Noise) && post.session == pre.session,
        },
    }
}

/// A received plaintext with its bytes in view.
pub open spec fn plaintext_view(r: Result<Vec<u8>, AirError>) -> Result<Seq<u8>, AirError> {
    match r {
        Ok(p) => Ok(p@),
        Err(e) => Err(e),
    }
}

/// An encrypted, authenticated channel over a transport.
pub struct SecureChannel<T: Transport> {
    transport: T,
    noise: snow::TransportState,
    handshake_hash: Vec<u8>,
}

impl<T: Transport> View for SecureChannel<T> {
    type V = ChannelView;

    closed spec fn view(&self) -> ChannelView {
        ChannelView {
            trace: self.transport.trace(),
            session: session_view(self.noise),
            hash: self.handshake_hash@,
        }
    }
}

impl ChannelView {
    /// What holds of every channel: it speaks [`NOISE_PATTERN`], and its hash has full length.
    pub open spec fn wf(self) -> bool {
        self.session.protocol == NOISE_PATTERN@ && self.hash.len() == NOISE_KEY
    }
}

impl<T: Transport> SecureChannel<T> {
    /// Six digits, the same on both sides of an undisturbed handshake, that two people can read
    /// to each other.
    pub fn verification_code(&self) -> (code: String)
        requires
            self@.wf(),
        ensures
            code@ == code_digits(self@.hash),
            code@.len() == 6,
    {
        let head: &[u8] = slice_subrange(self.handshake_hash.as_slice(), 0, 3);
        let n: u128 = read_be(head);
        proof {
            assert(head@ =~= self@.hash.take(3));
            lemma_pow256();
            assert(vstd::arithmetic::power::pow(10, 6) == 1_000_000) by {
                reveal_with_fuel(vstd::arithmetic::power::pow, 7);
            }
            lemma_padded_digits_len(be_value(self@.hash.take(3)) % 1_000_000, 10, 6);
        }
        format_digits((n % 1_000_000) as u64, 10, 6)
    }

    /// The channel that a handshake over `transport` came to.
    pub(crate) fn over(
        transport: T,
        noise: snow::TransportState,
        handshake_hash: Vec<u8>,
    ) -> (channel: SecureChannel<T>)
        ensures
            channel@ == (ChannelView {
                trace: transport.trace(),
                session: session_view(noise),
                hash: handshake_hash@,
            }),
    {
        SecureChannel { transport, noise, handshake_hash }
    }

    /// Gives up the channel, and hands back what it went over.
    pub fn into_transport(self) -> (transport: T)
        ensures
            transport.trace() == self@.trace,
    {
        self.transport
    }

    /// Encrypts `plaintext` and sends it.
    pub fn send(&mut self, plaintext: &[u8]) -> (r: Result<(), AirError>)
        requires
            old(self)@.wf(),
        ensures
            final(self)@.wf(),
            channel_sent(old(self)@, plaintext@, final(self)@, r),
    {
        let room: usize = if plaintext.len() <= MAX_NOISE_MESSAGE {
            plaintext.len() + SEAL_ROOM
        } else {
            0
        };
        let mut buf: Vec<u8> = vec![0u8; room];
        match session_write(&mut self.noise, plaintext, &mut buf) {
            Ok(len) => {
                match self.transport.send_frame(slice_subrange(buf.as_slice(), 0, len)) {
                    Ok(_) => Ok(()),
                    Err(e) => Err(AirError::Io(e)),
                }
            },
            Err(e) => Err(AirError::Noise(e)),
        }
    }

    /// Waits for the next message and decrypts it. What was tampered with on the way is an error,
    /// never data.
    pub fn recv(&mut self, max_len: u32) -> (r: Result<Vec<u8>, AirError>)
        requires
            old(self)@.wf(),
        ensures
            final(self)@.wf(),
            channel_received(old(self)@, max_len, final(self)@, plaintext_view(r)),
    {
        let ghost before = self.transport.trace();
        let received = self.transport.recv_frame(max_len);
        proof {
            assert(self.transport.trace().drop_last() =~= before);
        }
        match received {
            Ok(frame) => {
                let mut buf: Vec<u8> = vec![0u8; frame.len()];
                match session_read(&mut self.noise, frame.as_slice(), &mut buf) {
                    Ok(len) => {
                        buf.truncate(len);
                        Ok(buf)
                    },
                    Err(e) => Err(AirError::Noise(e)),
                }
            },
            Err(e) => Err(AirError::Io(e)),
        }
    }
}

/// One message goes out and one comes back. If the first cannot be sent, nothing is waited for.
pub open spec fn exchanged(
    pre: ChannelView,
    question: Seq<u8>,
    max_len: u32,
    post: ChannelView,
    reply: Result<Seq<u8>, AirError>,
) -> bool {
    ||| exists|e: AirError| #[trigger]
        channel_sent(pre, question, post, Err(e)) && reply == Err::<Seq<u8>, AirError>(e)
    ||| exists|mid: ChannelView|
        channel_sent(pre, question, mid, Ok(())) && #[trigger] channel_received(
            mid,
            max_len,
            post,
            reply,
        )
}

/// Sends a message and waits for the answer.
pub(crate) fn exchange<T: Transport>(
    channel: &mut SecureChannel<T>,
    question: &[u8],
    max_len: u32,
) -> (r: Result<Vec<u8>, AirError>)
    requires
        old(channel)@.wf(),
    ensures
        final(channel)@.wf(),
        exchanged(old(channel)@, question@, max_len, final(channel)@, plaintext_view(r)),
{
    match channel.send(question) {
        Ok(_) => channel.recv(max_len),
        Err(e) => Err(e),
    }
}

/// A private key that the Noise library drew: an outcome of that call itself. That no two
/// connections draw the same is left to chance.
pub closed spec fn drawn_key(key: Seq<u8>) -> bool {
    exists|params: snow::params::NoiseParams, drawn: Vec<u8>| #[trigger]
        call_ensures(generate_private_key, (&params,), Ok(drawn)) && drawn@ == key
}

/// `hs` is the end of a handshake with a key drawn for it and the given messages, and `session` has
/// its keys. Whoever is
/// the other side of that handshake has them too.
pub open spec fn keyed_by(
    hs: snow::HandshakeState,
    initiator: bool,
    transcript: Seq<Seq<u8>>,
    session: SessionView,
) -> bool {
    let v = handshake_view(hs);
    &&& v.protocol == NOISE_PATTERN@
    &&& v.initiator == initiator
    &&& v.transcript == transcript
    &&& drawn_key(v.private_key)
    &&& session == fresh_session(NOISE_PATTERN@, initiator, v.keys)
    &&& forall|peer: snow::HandshakeState|
        completed_with(#[trigger] handshake_view(peer), v) ==> session == fresh_session(
            NOISE_PATTERN@,
            initiator,
            handshake_view(peer).keys,
        )
}

/// What a completed handshake leaves: a session with its keys, and its hash.
pub open spec fn established(
    initiator: bool,
    transcript: Seq<Seq<u8>>,
    session: SessionView,
    hash: Seq<u8>,
) -> bool {
    &&& transcript.len() == 3
    &&& hash == noise_handshake_hash(NOISE_PATTERN@, transcript)
    &&& hash.len() == NOISE_KEY
    &&& exists|hs: snow::HandshakeState| keyed_by(hs, initiator, transcript, session)
}

/// Some side of a handshake, the one that speaks first or the other, has these messages behind
/// it.
pub open spec fn took_part(initiator: bool, transcript: Seq<Seq<u8>>) -> bool {
    exists|hs: snow::HandshakeState|
        {
            let v = #[trigger] handshake_view(hs);
            v.protocol == NOISE_PATTERN@ && v.initiator == initiator && v.transcript == transcript
        }
}

/// How a handshake goes for the side that speaks first: send, receive, send. The transport's
/// first failure is the result; a reply that the other side wrote is never refused.
pub open spec fn initiator_ran(
    pre: Seq<TransportEvent>,
    post: Seq<TransportEvent>,
    r: Result<(SessionView, Seq<u8>), AirError>,
) -> bool {
    let ev = post.skip(pre.len() as int);
    &&& pre.len() < post.len()
    &&& post.take(pre.len() as int) == pre
    &&& ev[0] matches TransportEvent::Send { frame: m1, error: e1 } && m1.len()
        == handshake_overhead(0) && took_part(true, seq![m1]) && match e1 {
        Some(io) => ev.len() == 1 && r == Err::<(SessionView, Seq<u8>), AirError>(AirError::Io(io)),
        None => ev.len() >= 2 && (ev[1] matches TransportEvent::Recv { max_len, answer } && max_len
            == MAX_FRAME_LEN && match answer {
            Err(io) => ev.len() == 2 && r == Err::<(SessionView, Seq<u8>), AirError>(
                AirError::Io(io),
            ),
            Ok(m2) => if ev.len() == 2 {
                (r matches Err(e) && e is Noise) && !took_part(false, seq![m1, m2])
            } else {
                ev.len() == 3 && (ev[2] matches TransportEvent::Send { frame: m3, error: e3 }
                    && m3.len() == handshake_overhead(2) && match e3 {
                    Some(io) => r == Err::<(SessionView, Seq<u8>), AirError>(AirError::Io(io)),
                    None => r matches Ok(s) && established(true, seq![m1, m2, m3], s.0, s.1),
                })
            },
        }),
    }
}

/// How a handshake goes for the side that answers: receive, send, receive.
pub open spec fn responder_ran(
    pre: Seq<TransportEvent>,
    post: Seq<TransportEvent>,
    r: Result<(SessionView, Seq<u8>), AirError>,
) -> bool {
    let ev = post.skip(pre.len() as int);
    &&& pre.len() < post.len()
    &&& post.take(pre.len() as int) == pre
    &&& ev[0] matches TransportEvent::Recv { max_len, answer } && max_len == MAX_FRAME_LEN
        && match answer {
        Err(io) => ev.len() == 1 && r == Err::<(SessionView, Seq<u8>), AirError>(AirError::Io(io)),
        Ok(m1) => if m1.len() < handshake_overhead(0) || m1.len() > MAX_NOISE_MESSAGE {
            ev.len() == 1 && (r matches Err(e) && e is Noise)
        } else {
            ev.len() >= 2 && (ev[1] matches TransportEvent::Send { frame: m2, error: e2 }
                && m2.len() == handshake_overhead(1) && took_part(false, seq![m1, m2]) && match e2 {
                Some(io) => ev.len() == 2 && r == Err::<(SessionView, Seq<u8>), AirError>(
                    AirError::Io(io),
                ),
                None => ev.len() == 3 && (ev[2] matches TransportEvent::Recv {
                    max_len: max_len3,
                    answer: answer3,
                } && max_len3 == MAX_FRAME_LEN && match answer3 {
                    Err(io) => r == Err::<(SessionView, Seq<u8>), AirError>(AirError::Io(io)),
                    Ok(m3) => match r {
                        Ok(s) => established(false, seq![m1, m2, m3], s.0, s.1),
                        Err(e) => e is Noise && !took_part(true, seq![m1, m2, m3]),
                    },
                }),
            })
        },
    }
}

/// The outcome of a handshake, with session and hash in view.
pub open spec fn outcome_view(r: Result<(snow::TransportState, Vec<u8>), AirError>) -> Result<
    (SessionView, Seq<u8>),
    AirError,
> {
    match r {
        Ok(s) => Ok((session_view(s.0), s.1@)),
        Err(e) => Err(e),
    }
}

/// A handshake with a new private key, before its first message.
fn begin_handshake(initiator: bool) -> (r: Result<snow::HandshakeState, AirError>)
    ensures
        r is Ok,
        r matches Ok(hs) ==> handshake_view(hs).protocol == NOISE_PATTERN@ && handshake_view(
            hs,
        ).initiator == initiator && handshake_view(hs).transcript == Seq::<Seq<u8>>::empty()
            && drawn_key(handshake_view(hs).private_key),
{
    match parse_protocol(NOISE_PATTERN) {
        Ok(params) => match generate_private_key(&params) {
            Ok(key) => {
                let built = if initiator {
                    build_initiator(&params, key.as_slice())
                } else {
                    build_responder(&params, key.as_slice())
                };
                match built {
                    Ok(hs) => Ok(hs),
                    Err(e) => Err(AirError::Noise(e)),
                }
            },
            Err(e) => Err(AirError::Noise(e)),
        },
        Err(_) => Err(AirError::InvalidNoiseParams),
    }
}

/// The session and the hash of a handshake that is through. The hash is taken first: the session
/// no longer has it.
fn end_handshake(hs: snow::HandshakeState) -> (r: Result<(snow::TransportState, Vec<u8>), AirError>)
    requires
        handshake_view(hs).protocol == NOISE_PATTERN@,
        handshake_view(hs).transcript.len() == 3,
        drawn_key(handshake_view(hs).private_key),
    ensures
        outcome_view(r) matches Ok(s) && established(
            handshake_view(hs).initiator,
            handshake_view(hs).transcript,
            s.0,
            s.1,
        ),
{
    let hash = handshake_hash(&hs);
    let ghost view = hs;
    match into_transport_mode(hs) {
        Ok(ts) => {
            proof {
                let v = handshake_view(view);
                assert(keyed_by(view, v.initiator, v.transcript, session_view(ts)));
            }
            Ok((ts, hash))
        },
        Err(e) => Err(AirError::Noise(e)),
    }
}

/// Runs the handshake of the side that speaks first.
pub fn run_initiator<T: Transport>(transport: &mut T) -> (r: Result<
    (snow::TransportState, Vec<u8>),
    AirError,
>)
    ensures
        initiator_ran(old(transport).trace(), final(transport).trace(), outcome_view(r)),
{
    let ghost pre = transport.trace();
    let mut hs = match begin_handshake(true) {
        Ok(hs) => hs,
        Err(e) => return Err(e),
    };
    let mut buf: Vec<u8> = vec![0u8; MAX_NOISE_MESSAGE];

    let len: usize = match handshake_write(&mut hs, &mut buf) {
        Ok(len) => len,
        Err(e) => return Err(AirError::Noise(e)),
    };
    let ghost m1 = buf@.subrange(0, len as int);
    let sent = transport.send_frame(slice_subrange(buf.as_slice(), 0, len));
    proof {
        assert(transport.trace().skip(pre.len() as int) =~= seq![transport.trace().last()]);
        assert(transport.trace().take(pre.len() as int) =~= pre);
        assert(handshake_view(hs).transcript =~= seq![m1]);
        assert(took_part(true, seq![m1]));
    }
    if let Err(e) = sent {
        return Err(AirError::Io(e));
    }
    let ghost t1 = transport.trace();
    let received = transport.recv_frame(MAX_FRAME_LEN);
    proof {
        assert(transport.trace().skip(pre.len() as int) =~= seq![
            t1.last(),
            transport.trace().last(),
        ]);
        assert(transport.trace().take(pre.len() as int) =~= pre);
        assert(seq![m1].push(frame_view(received)->Ok_0) =~= seq![m1, frame_view(received)->Ok_0]);
    }
    let message = match received {
        Ok(message) => message,
        Err(e) => return Err(AirError::Io(e)),
    };
    if let Err(e) = handshake_read(&mut hs, message.as_slice(), &mut buf) {
        return Err(AirError::Noise(e));
    }
    let ghost t2 = transport.trace();
    proof {
        assert(handshake_view(hs).transcript =~= seq![m1, message@]);
    }
    let len: usize = match handshake_write(&mut hs, &mut buf) {
        Ok(len) => len,
        Err(e) => return Err(AirError::Noise(e)),
    };
    let ghost m3 = buf@.subrange(0, len as int);
    let sent = transport.send_frame(slice_subrange(buf.as_slice(), 0, len));
    proof {
        assert(transport.trace().skip(pre.len() as int) =~= seq![
            t1.last(),
            t2.last(),
            transport.trace().last(),
        ]);
        assert(transport.trace().take(pre.len() as int) =~= pre);
        assert(handshake_view(hs).transcript =~= seq![m1, message@, m3]);
    }
    if let Err(e) = sent {
        return Err(AirError::Io(e));
    }
    end_handshake(hs)
}

/// Runs the handshake of the side that answers.
pub fn run_responder<T: Transport>(transport: &mut T) -> (r: Result<
    (snow::TransportState, Vec<u8>),
    AirError,
>)
    ensures
        responder_ran(old(transport).trace(), final(transport).trace(), outcome_view(r)),
{
    let ghost pre = transport.trace();
    let mut hs = match begin_handshake(false) {
        Ok(hs) => hs,
        Err(e) => return Err(e),
    };
    let mut buf: Vec<u8> = vec![0u8; MAX_NOISE_MESSAGE];

    let received = transport.recv_frame(MAX_FRAME_LEN);
    let ghost t1 = transport.trace();
    proof {
        assert(t1.skip(pre.len() as int) =~= seq![t1.last()]);
        assert(t1.take(pre.len() as int) =~= pre);
    }
    let first = match received {
        Ok(message) => message,
        Err(e) => return Err(AirError::Io(e)),
    };
    if let Err(e) = handshake_read(&mut hs, first.as_slice(), &mut buf) {
        return Err(AirError::Noise(e));
    }
    proof {
        assert(handshake_view(hs).transcript =~= seq![first@]);
    }
    let len: usize = match handshake_write(&mut hs, &mut buf) {
        Ok(len) => len,
        Err(e) => return Err(AirError::Noise(e)),
    };
    let ghost m2 = buf@.subrange(0, len as int);
    let sent = transport.send_frame(slice_subrange(buf.as_slice(), 0, len));
    let ghost t2 = transport.trace();
    proof {
        assert(t2.skip(pre.len() as int) =~= seq![t1.last(), t2.last()]);
        assert(t2.take(pre.len() as int) =~= pre);
        assert(handshake_view(hs).transcript =~= seq![first@, m2]);
        assert(took_part(false, seq![first@, m2]));
    }
    if let Err(e) = sent {
        return Err(AirError::Io(e));
    }
    let received = transport.recv_frame(MAX_FRAME_LEN);
    let ghost t3 = transport.trace();
    proof {
        assert(t3.skip(pre.len() as int) =~= seq![t1.last(), t2.last(), t3.last()]);
        assert(t3.take(pre.len() as int) =~= pre);
    }
    proof {
        assert(seq![first@, m2].push(frame_view(received)->Ok_0) =~= seq![
            first@,
            m2,
            frame_view(received)->Ok_0,
        ]);
    }
    let last = match received {
        Ok(message) => message,
        Err(e) => return Err(AirError::Io(e)),
    };
    if let Err(e) = handshake_read(&mut hs, last.as_slice(), &mut buf) {
        return Err(AirError::Noise(e));
    }
    proof {
        assert(handshake_view(hs).transcript =~= seq![first@, m2, last@]);
    }
    end_handshake(hs)
}

/// The key of each side of a handshake is one that the Noise library drew for it: the session has
/// the keys that come of it and of the three messages, and no others.
pub(crate) proof fn law_each_handshake_draws_its_key<T: Transport>(
    t: &mut T,
    initiator: bool,
    session: snow::TransportState,
    hash: Vec<u8>,
    m: Seq<Seq<u8>>,
)
    requires
        initiator ==> call_ensures(run_initiator::<T>, (t,), Ok((session, hash))),
        !initiator ==> call_ensures(run_responder::<T>, (t,), Ok((session, hash))),
        m.len() == 3,
        forall|i: int|
            0 <= i < 3 ==> match final(t).trace()[old(t).trace().len() + i] {
                TransportEvent::Send { frame, error } => frame == #[trigger] m[i],
                TransportEvent::Recv { max_len, answer } => answer == Ok::<Seq<u8>, std::io::Error>(
                    m[i],
                ),
            },
    ensures
        exists|params: snow::params::NoiseParams, key: Vec<u8>, hs: snow::HandshakeState|
            #[trigger] call_ensures(generate_private_key, (&params,), Ok(key)) && {
                let v = #[trigger] handshake_view(hs);
                &&& v.private_key == key@
                &&& v.initiator == initiator
                &&& v.transcript == m
                &&& session_view(session).send_key == if initiator {
                    v.keys.0
                } else {
                    v.keys.1
                }
                &&& session_view(session).recv_key == if initiator {
                    v.keys.1
                } else {
                    v.keys.0
                }
            },
{
    let (t0, t1) = (old(t).trace(), final(t).trace());
    let ev = t1.skip(t0.len() as int);
    assert(ev[0] == t1[t0.len() + 0int] && ev[1] == t1[t0.len() + 1int] && ev[2] == t1[t0.len()
        + 2int]);
    assert(m[0] == m[0] && m[1] == m[1] && m[2] == m[2]);
    assert(m =~= seq![m[0], m[1], m[2]]);
    assert(established(initiator, m, session_view(session), hash@));
    let hs = choose|hs: snow::HandshakeState|
        keyed_by(hs, initiator, m, session_view(session));
    let key = handshake_view(hs).private_key;
    let (params, drawn) = choose|params: snow::params::NoiseParams, drawn: Vec<u8>| #[trigger]
        call_ensures(generate_private_key, (&params,), Ok(drawn)) && drawn@ == key;
    assert(call_ensures(generate_private_key, (&params,), Ok(drawn)));
}

/// The outcome of a handshake that a channel was made of.
pub open spec fn channel_outcome(c: ChannelView) -> Result<(SessionView, Seq<u8>), AirError> {
    Ok((c.session, c.hash))
}

/// Performs the handshake as the side that speaks first: the sender of a file.
pub fn perform_handshake_initiator<T: Transport>(transport: T) -> (r: Result<
    SecureChannel<T>,
    AirError,
>)
    ensures
        r matches Ok(c) ==> c@.wf() && initiator_ran(
            transport.trace(),
            c@.trace,
            channel_outcome(c@),
        ),
        r matches Err(e) ==> exists|post: Seq<TransportEvent>| #[trigger]
            initiator_ran(transport.trace(), post, Err(e)),
{
    let mut transport = transport;
    match run_initiator(&mut transport) {
        Ok((noise, handshake_hash)) => Ok(SecureChannel::over(transport, noise, handshake_hash)),
        Err(e) => Err(e),
    }
}

/// Performs the handshake as the side that answers: the receiver of a file.
pub fn perform_handshake_responder<T: Transport>(transport: T) -> (r: Result<
    SecureChannel<T>,
    AirError,
>)
    ensures
        r matches Ok(c) ==> c@.wf() && responder_ran(
            transport.trace(),
            c@.trace,
            channel_outcome(c@),
        ),
        r matches Err(e) ==> exists|post: Seq<TransportEvent>| #[trigger]
            responder_ran(transport.trace(), post, Err(e)),
{
    let mut transport = transport;
    match run_responder(&mut transport) {
        Ok((noise, handshake_hash)) => Ok(SecureChannel::over(transport, noise, handshake_hash)),
        Err(e) => Err(e),
    }
}

/// Two sessions are the two ends of one: each sends under the key that the other receives under,
/// and neither is ahead.
pub open spec fn paired(a: SessionView, b: SessionView) -> bool {
    &&& a.protocol == b.protocol
    &&& a.send_key == b.recv_key
    &&& a.recv_key == b.send_key
    &&& a.send_nonce == b.recv_nonce
    &&& a.recv_nonce == b.send_nonce
}

/// If the three messages of a handshake arrive as they were sent, both sides show the same
/// verification code, and their sessions are two ends of one.
pub proof fn law_handshake_pairs(
    transcript: Seq<Seq<u8>>,
    a: SessionView,
    a_hash: Seq<u8>,
    b: SessionView,
    b_hash: Seq<u8>,
)
    requires
        established(true, transcript, a, a_hash),
        established(false, transcript, b, b_hash),
    ensures
        a_hash == b_hash,
        code_digits(a_hash) == code_digits(b_hash),
        paired(a, b),
{
    let ha = choose|hs: snow::HandshakeState| keyed_by(hs, true, transcript, a);
    let hb = choose|hs: snow::HandshakeState| keyed_by(hs, false, transcript, b);
    assert(completed_with(handshake_view(hb), handshake_view(ha)));
}

/// If nothing goes wrong on the way, a handshake succeeds: where each message arrives as it was
/// sent, neither side refuses one, both end with the same verification code, and their sessions
/// are two ends of one.
pub proof fn law_undisturbed_handshake_succeeds(
    a_pre: Seq<TransportEvent>,
    a_post: Seq<TransportEvent>,
    a: Result<(SessionView, Seq<u8>), AirError>,
    b_pre: Seq<TransportEvent>,
    b_post: Seq<TransportEvent>,
    b: Result<(SessionView, Seq<u8>), AirError>,
    m1: Seq<u8>,
    m2: Seq<u8>,
    m3: Seq<u8>,
)
    requires
        initiator_ran(a_pre, a_post, a),
        responder_ran(b_pre, b_post, b),
        a_post[a_pre.len() as int] == (TransportEvent::Send { frame: m1, error: None }),
        b_post[b_pre.len() as int] matches TransportEvent::Recv { max_len, answer } && answer
            == Ok::<Seq<u8>, std::io::Error>(m1),
        b_post[b_pre.len() + 1int] == (TransportEvent::Send { frame: m2, error: None }),
        a_post[a_pre.len() + 1int] matches TransportEvent::Recv { max_len, answer } && answer
            == Ok::<Seq<u8>, std::io::Error>(m2),
        a_post.len() > a_pre.len() + 2 ==> {
            &&& a_post[a_pre.len() + 2int] == (TransportEvent::Send { frame: m3, error: None })
            &&& b_post[b_pre.len() + 2int] matches TransportEvent::Recv { max_len, answer } && answer
                == Ok::<Seq<u8>, std::io::Error>(m3)
        },
    ensures
        a matches Ok((session_a, hash_a)) && (b matches Ok((session_b, hash_b)) && code_digits(
            hash_a,
        ) == code_digits(hash_b) && paired(session_a, session_b)),
{
    let ea = a_post.skip(a_pre.len() as int);
    let eb = b_post.skip(b_pre.len() as int);
    assert(ea[0] == a_post[a_pre.len() as int] && ea[1] == a_post[a_pre.len() + 1int]);
    assert(eb[0] == b_post[b_pre.len() as int] && eb[1] == b_post[b_pre.len() + 1int]);
    assert(took_part(false, seq![m1, m2]));
    assert(ea.len() == 3);
    assert(ea[2] == a_post[a_pre.len() + 2int] && eb[2] == b_post[b_pre.len() + 2int]);
    assert(a is Ok);
    if let Ok((session_a, hash_a)) = a {
        assert(established(true, seq![m1, m2, m3], session_a, hash_a));
        let hs = choose|hs: snow::HandshakeState|
            keyed_by(hs, true, seq![m1, m2, m3], session_a);
        assert(handshake_view(hs).transcript == seq![m1, m2, m3]);
        assert(took_part(true, seq![m1, m2, m3]));
        assert(b is Ok);
        if let Ok((session_b, hash_b)) = b {
            law_handshake_pairs(seq![m1, m2, m3], session_a, hash_a, session_b, hash_b);
        }
    }
}

/// What one end sends, the other receives: the frame that a plaintext was sent as is accepted at
/// the other end and decrypts to that plaintext, and after it the ends are still paired.
pub proof fn law_received_as_sent(
    a: ChannelView,
    plaintext: Seq<u8>,
    a_after: ChannelView,
    b: ChannelView,
    max_len: u32,
    b_after: ChannelView,
    r: Result<Seq<u8>, AirError>,
)
    requires
        paired(a.session, b.session),
        channel_sent(a, plaintext, a_after, Ok(())),
        channel_received(b, max_len, b_after, r),
        a_after.trace.last() matches TransportEvent::Send { frame, error } && (b_after.trace.last()
            matches TransportEvent::Recv { max_len: asked, answer } && answer == Ok::<
            Seq<u8>,
            std::io::Error,
        >(frame)),
    ensures
        r == Ok::<Seq<u8>, AirError>(plaintext),
        paired(a_after.session, b_after.session),
{
    let frame = noise_seal(a.session.send_key, a.session.send_nonce, plaintext);
    assert(a_after.trace.last() == TransportEvent::Send { frame, error: None });
}

/// A frame that is not authentic changes neither the keys nor the place in the conversation.
pub proof fn law_refused_frame_changes_nothing(
    pre: ChannelView,
    max_len: u32,
    post: ChannelView,
    r: Result<Seq<u8>, AirError>,
)
    requires
        channel_received(pre, max_len, post, r),
        r is Err,
    ensures
        post.session == pre.session,
        post.hash == pre.hash,
{
}

/// The messages go out one after the other, and the transport takes each.
pub open spec fn sends(pre: ChannelView, messages: Seq<Seq<u8>>, post: ChannelView) -> bool
    decreases messages.len(),
{
    if messages.len() == 0 {
        post == pre
    } else {
        exists|mid: ChannelView|
            sends(pre, messages.drop_last(), mid) && #[trigger] channel_sent(mid, messages.last(), post, Ok(()))
    }
}

/// As many messages are waited for as there are results, one after the other.
pub open spec fn receives(
    pre: ChannelView,
    max_lens: Seq<u32>,
    results: Seq<Result<Seq<u8>, AirError>>,
    post: ChannelView,
) -> bool
    decreases results.len(),
{
    if results.len() == 0 {
        post == pre
    } else {
        exists|mid: ChannelView|
            receives(pre, max_lens.drop_last(), results.drop_last(), mid) && #[trigger] channel_received(
                mid,
                max_lens.last(),
                post,
                results.last(),
            )
    }
}

/// One end sent a frame and the other got that frame.
pub open spec fn delivered(sent: TransportEvent, got: TransportEvent) -> bool {
    sent matches TransportEvent::Send { frame, error } && (got matches TransportEvent::Recv {
        max_len,
        answer,
    } && answer == Ok::<Seq<u8>, std::io::Error>(frame))
}

proof fn lemma_sends_trace(pre: ChannelView, messages: Seq<Seq<u8>>, post: ChannelView)
    requires
        sends(pre, messages, post),
    ensures
        post.trace.len() == pre.trace.len() + messages.len(),
    decreases messages.len(),
{
    if messages.len() > 0 {
        let mid = choose|mid: ChannelView|
            sends(pre, messages.drop_last(), mid) && #[trigger] channel_sent(
                mid,
                messages.last(),
                post,
                Ok(()),
            );
        lemma_sends_trace(pre, messages.drop_last(), mid);
    }
}

proof fn lemma_receives_trace(
    pre: ChannelView,
    max_lens: Seq<u32>,
    results: Seq<Result<Seq<u8>, AirError>>,
    post: ChannelView,
)
    requires
        receives(pre, max_lens, results, post),
    ensures
        post.trace.len() == pre.trace.len() + results.len(),
    decreases results.len(),
{
    if results.len() > 0 {
        let mid = choose|mid: ChannelView|
            receives(pre, max_lens.drop_last(), results.drop_last(), mid) && #[trigger] channel_received(
                mid,
                max_lens.last(),
                post,
                results.last(),
            );
        lemma_receives_trace(pre, max_lens.drop_last(), results.drop_last(), mid);
    }
}

/// Whatever one end of a session sends, message after message, comes out at the other end in
/// that order, if the frames arrive as they left.
pub proof fn law_conversation_arrives(
    a: ChannelView,
    messages: Seq<Seq<u8>>,
    a_post: ChannelView,
    b: ChannelView,
    max_lens: Seq<u32>,
    results: Seq<Result<Seq<u8>, AirError>>,
    b_post: ChannelView,
)
    requires
        paired(a.session, b.session),
        sends(a, messages, a_post),
        receives(b, max_lens, results, b_post),
        results.len() == messages.len(),
        forall|i: int|
            0 <= i < messages.len() ==> delivered(
                #[trigger] a_post.trace[a.trace.len() + i],
                b_post.trace[b.trace.len() + i],
            ),
    ensures
        forall|i: int|
            0 <= i < messages.len() ==> #[trigger] results[i] == Ok::<Seq<u8>, AirError>(
                messages[i],
            ),
        paired(a_post.session, b_post.session),
    decreases messages.len(),
{
    if messages.len() > 0 {
        let n = messages.len() - 1;
        let am = choose|mid: ChannelView|
            sends(a, messages.drop_last(), mid) && #[trigger] channel_sent(
                mid,
                messages.last(),
                a_post,
                Ok(()),
            );
        let bm = choose|mid: ChannelView|
            receives(b, max_lens.drop_last(), results.drop_last(), mid) && #[trigger] channel_received(
                mid,
                max_lens.last(),
                b_post,
                results.last(),
            );
        lemma_sends_trace(a, messages.drop_last(), am);
        lemma_receives_trace(b, max_lens.drop_last(), results.drop_last(), bm);
        assert(am.trace =~= a_post.trace.drop_last());
        assert forall|i: int| 0 <= i < n implies delivered(
            #[trigger] am.trace[a.trace.len() + i],
            bm.trace[b.trace.len() + i],
        ) by {
            assert(am.trace[a.trace.len() + i] == a_post.trace[a.trace.len() + i]);
            assert(bm.trace[b.trace.len() + i] == b_post.trace[b.trace.len() + i]);
        }
        law_conversation_arrives(
            a,
            messages.drop_last(),
            am,
            b,
            max_lens.drop_last(),
            results.drop_last(),
            bm,
        );
        assert(delivered(a_post.trace[a.trace.len() + n], b_post.trace[b.trace.len() + n]));
        law_received_as_sent(
            am,
            messages.last(),
            a_post,
            bm,
            max_lens.last(),
            b_post,
            results.last(),
        );
        assert forall|i: int| 0 <= i < messages.len() implies #[trigger] results[i] == Ok::<
            Seq<u8>,
            AirError,
        >(messages[i]) by {
            if i < n {
                assert(results.drop_last()[i] == results[i]);
            }
        }
    }
}

} // verus!
