//! The Noise library, as far as this crate relies on it: `snow` with the protocol
//! [`NOISE_PATTERN`].
//!
//! Everything in this file is trusted: the contracts say what `snow` does, and are not proved.

use vstd::prelude::*;

verus! {

/// The Noise protocol that both sides speak. In an `XX` handshake neither side knows the other
/// beforehand: their keys are exchanged, and checked, in the course of three messages.
pub const NOISE_PATTERN: &'static str = "Noise_XX_25519_ChaChaPoly_BLAKE2s";

/// The longest message of the Noise protocol.
pub const MAX_NOISE_MESSAGE: usize = 65535;

/// What encryption adds to the length of a message.
pub const NOISE_TAG: usize = 16;

/// The length of a private key, and that of a handshake hash.
pub const NOISE_KEY: usize = 32;

/// `snow::params::NoiseParams`: a protocol name, taken apart.
#[verifier::external_type_specification]
#[verifier::external_body]
pub struct ExNoiseParams(snow::params::NoiseParams);

/// `snow::HandshakeState`: one side of a handshake under way.
#[verifier::external_type_specification]
#[verifier::external_body]
pub struct ExHandshakeState(snow::HandshakeState);

/// `snow::TransportState`: one side of an encrypted session.
#[verifier::external_type_specification]
#[verifier::external_body]
pub struct ExTransportState(snow::TransportState);

/// What one side of a handshake holds.
#[verifier::ext_equal]
pub struct HandshakeView {
    /// The protocol, with neither a prologue nor pre-shared keys.
    pub protocol: Seq<char>,
    /// Whether this side speaks first.
    pub initiator: bool,
    /// The private key that this side was given.
    pub private_key: Seq<u8>,
    /// The messages written and read so far, in order.
    pub transcript: Seq<Seq<u8>>,
    /// Once the handshake is through: the key of the session from the initiator to the
    /// responder, and that of the other direction.
    pub keys: (Seq<u8>, Seq<u8>),
}

/// What one side of a session holds.
#[verifier::ext_equal]
pub struct SessionView {
    pub protocol: Seq<char>,
    pub send_key: Seq<u8>,
    pub recv_key: Seq<u8>,
    /// How many messages were encrypted.
    pub send_nonce: u64,
    /// How many messages were decrypted.
    pub recv_nonce: u64,
}

/// What a `snow::HandshakeState` holds.
pub uninterp spec fn handshake_view(hs: snow::HandshakeState) -> HandshakeView;

/// What a `snow::TransportState` holds.
pub uninterp spec fn session_view(ts: snow::TransportState) -> SessionView;

/// The protocol name that a `snow::params::NoiseParams` was parsed from.
pub uninterp spec fn params_protocol(p: snow::params::NoiseParams) -> Seq<char>;

/// Whether `snow` knows a protocol of that name.
pub uninterp spec fn known_protocol(name: Seq<char>) -> bool;

/// The hash of a handshake: of the name of its protocol and its messages.
pub uninterp spec fn noise_handshake_hash(protocol: Seq<char>, transcript: Seq<Seq<u8>>) -> Seq<u8>;

/// The message that encrypts `plaintext` under `key` and `nonce`.
pub uninterp spec fn noise_seal(key: Seq<u8>, nonce: u64, plaintext: Seq<u8>) -> Seq<u8>;

/// What `message` decrypts to under `key` and `nonce`, if it is authentic.
pub uninterp spec fn noise_open(key: Seq<u8>, nonce: u64, message: Seq<u8>) -> Option<Seq<u8>>;

/// Whether the next message of an `XX` handshake is this side's to write.
pub open spec fn to_write(v: HandshakeView) -> bool {
    (v.transcript.len() % 2 == 0) == v.initiator
}

/// What an `XX` handshake adds to the payload of its message number `k`.
pub open spec fn handshake_overhead(k: nat) -> nat {
    if k == 0 {
        32
    } else if k == 1 {
        96
    } else {
        64
    }
}

/// `after` is `before` with one more message in its transcript.
pub open spec fn extended(before: HandshakeView, message: Seq<u8>, after: HandshakeView) -> bool {
    &&& after.protocol == before.protocol
    &&& after.initiator == before.initiator
    &&& after.private_key == before.private_key
    &&& after.transcript == before.transcript.push(message)
}

/// `peer` is the other side of the same handshake, and has gone on by `message`, which is its to
/// write.
pub open spec fn wrote_next(peer: HandshakeView, me: HandshakeView, message: Seq<u8>) -> bool {
    &&& peer.protocol == me.protocol
    &&& peer.initiator == !me.initiator
    &&& peer.transcript == me.transcript.push(message)
}

/// `peer` is the other side of the same handshake, and both are through.
pub open spec fn completed_with(peer: HandshakeView, me: HandshakeView) -> bool {
    &&& peer.protocol == me.protocol
    &&& peer.initiator == !me.initiator
    &&& peer.transcript == me.transcript
    &&& me.transcript.len() == 3
}

/// The session that begins with the given keys.
pub open spec fn fresh_session(
    protocol: Seq<char>,
    initiator: bool,
    keys: (Seq<u8>, Seq<u8>),
) -> SessionView {
    SessionView {
        protocol,
        send_key: if initiator {
            keys.0
        } else {
            keys.1
        },
        recv_key: if initiator {
            keys.1
        } else {
            keys.0
        },
        send_nonce: 0,
        recv_nonce: 0,
    }
}

/// Whether a plaintext of `len` bytes can still be encrypted.
pub open spec fn can_seal(v: SessionView, len: nat) -> bool {
    len + NOISE_TAG <= MAX_NOISE_MESSAGE && v.send_nonce < u64::MAX
}

/// What a received message decrypts to in a session, if it is accepted.
pub open spec fn session_open(v: SessionView, message: Seq<u8>) -> Option<Seq<u8>> {
    if message.len() <= MAX_NOISE_MESSAGE && v.recv_nonce < u64::MAX {
        noise_open(v.recv_key, v.recv_nonce, message)
    } else {
        None
    }
}

/// Calls `parse` into `snow::params::NoiseParams`. Whether it succeeds depends on the name alone;
/// for [`NOISE_PATTERN`] it does. The name is kept.
#[verifier::external_body]
pub(crate) fn parse_protocol(name: &str) -> (r: Result<snow::params::NoiseParams, snow::Error>)
    ensures
        r is Ok <==> known_protocol(name@),
        name@ == NOISE_PATTERN@ ==> r is Ok,
        r matches Ok(p) ==> params_protocol(p) == name@,
{
    name.parse()
}

/// Calls `snow::Builder::generate_keypair` and keeps the private key. The key is random; for
/// [`NOISE_PATTERN`] it is always made, and has 32 bytes.
#[verifier::external_body]
pub(crate) fn generate_private_key(params: &snow::params::NoiseParams) -> (r: Result<
    Vec<u8>,
    snow::Error,
>)
    ensures
        params_protocol(*params) == NOISE_PATTERN@ ==> r is Ok,
        params_protocol(*params) == NOISE_PATTERN@ ==> (r matches Ok(key) ==> key@.len()
            == NOISE_KEY),
{
    snow::Builder::new(params.clone()).generate_keypair().map(|pair| pair.private)
}

/// Calls `snow::Builder::build_initiator` with a private key and nothing else. With such a key
/// it succeeds, and no message has been exchanged yet.
#[verifier::external_body]
pub(crate) fn build_initiator(params: &snow::params::NoiseParams, private_key: &[u8]) -> (r: Result<
    snow::HandshakeState,
    snow::Error,
>)
    requires
        params_protocol(*params) == NOISE_PATTERN@,
        private_key@.len() == NOISE_KEY,
    ensures
        r is Ok,
        r matches Ok(hs) ==> {
            let v = handshake_view(hs);
            &&& v.protocol == NOISE_PATTERN@
            &&& v.initiator
            &&& v.private_key == private_key@
            &&& v.transcript == Seq::<Seq<u8>>::empty()
        },
{
    snow::Builder::new(params.clone()).local_private_key(private_key).build_initiator()
}

/// Calls `snow::Builder::build_responder` with a private key and nothing else. With such a key
/// it succeeds, and no message has been exchanged yet.
#[verifier::external_body]
pub(crate) fn build_responder(params: &snow::params::NoiseParams, private_key: &[u8]) -> (r: Result<
    snow::HandshakeState,
    snow::Error,
>)
    requires
        params_protocol(*params) == NOISE_PATTERN@,
        private_key@.len() == NOISE_KEY,
    ensures
        r is Ok,
        r matches Ok(hs) ==> {
            let v = handshake_view(hs);
            &&& v.protocol == NOISE_PATTERN@
            &&& !v.initiator
            &&& v.private_key == private_key@
            &&& v.transcript == Seq::<Seq<u8>>::empty()
        },
{
    snow::Builder::new(params.clone()).local_private_key(private_key).build_responder()
}

/// Calls `snow::HandshakeState::write_message` with an empty payload. When the next message is
/// this side's, the call succeeds, and returns how much of `buf` the message takes. The message
/// holds a fresh random key or an encrypted one, so only its length is claimed; it is recorded
/// in the transcript.
#[verifier::external_body]
pub(crate) fn handshake_write(hs: &mut snow::HandshakeState, buf: &mut Vec<u8>) -> (r: Result<
    usize,
    snow::Error,
>)
    requires
        handshake_view(*old(hs)).protocol == NOISE_PATTERN@,
        to_write(handshake_view(*old(hs))),
        handshake_view(*old(hs)).transcript.len() < 3,
        old(buf)@.len() == MAX_NOISE_MESSAGE,
    ensures
        r is Ok,
        final(buf)@.len() == old(buf)@.len(),
        r matches Ok(n) ==> n == handshake_overhead(handshake_view(*old(hs)).transcript.len()),
        r matches Ok(n) ==> extended(
            handshake_view(*old(hs)),
            final(buf)@.subrange(0, n as int),
            handshake_view(*final(hs)),
        ),
{
    hs.write_message(&[], buf)
}

/// Calls `snow::HandshakeState::read_message`, and returns the length of the payload. A message
/// that is taken is as long as its payload and its keys, not over the limit of the protocol, and
/// recorded in the transcript. The first message of a handshake carries nothing to check, so its
/// length decides. What the other side of the same handshake wrote is always taken; whether
/// anything else is, the cipher decides, and nothing is claimed of it.
#[verifier::external_body]
pub(crate) fn handshake_read(
    hs: &mut snow::HandshakeState,
    message: &[u8],
    buf: &mut Vec<u8>,
) -> (r: Result<usize, snow::Error>)
    requires
        handshake_view(*old(hs)).protocol == NOISE_PATTERN@,
        !to_write(handshake_view(*old(hs))),
        handshake_view(*old(hs)).transcript.len() < 3,
        old(buf)@.len() == MAX_NOISE_MESSAGE,
    ensures
        final(buf)@.len() == old(buf)@.len(),
        r matches Ok(n) ==> message@.len() == n + handshake_overhead(
            handshake_view(*old(hs)).transcript.len(),
        ) && message@.len() <= MAX_NOISE_MESSAGE,
        r matches Ok(n) ==> extended(
            handshake_view(*old(hs)),
            message@,
            handshake_view(*final(hs)),
        ),
        handshake_view(*old(hs)).transcript.len() == 0 ==> (r is Ok <==> handshake_overhead(0)
            <= message@.len() <= MAX_NOISE_MESSAGE),
        forall|peer: snow::HandshakeState|
            wrote_next(#[trigger] handshake_view(peer), handshake_view(*old(hs)), message@)
                ==> r is Ok,
{
    hs.read_message(message, buf)
}

/// Calls `snow::HandshakeState::get_handshake_hash`: a hash of 32 bytes over the name of the
/// protocol and all messages so far.
#[verifier::external_body]
pub(crate) fn handshake_hash(hs: &snow::HandshakeState) -> (hash: Vec<u8>)
    requires
        handshake_view(*hs).protocol == NOISE_PATTERN@,
    ensures
        hash@ == noise_handshake_hash(handshake_view(*hs).protocol, handshake_view(*hs).transcript),
        hash@.len() == NOISE_KEY,
{
    hs.get_handshake_hash().to_vec()
}

/// Calls `snow::HandshakeState::into_transport_mode`. It succeeds after the third message, and
/// the session has the keys of the handshake. The other side of the same handshake, with the
/// same three messages behind it, comes to the same keys: that is what the Diffie-Hellman
/// exchange is for.
#[verifier::external_body]
pub(crate) fn into_transport_mode(hs: snow::HandshakeState) -> (r: Result<
    snow::TransportState,
    snow::Error,
>)
    requires
        handshake_view(hs).protocol == NOISE_PATTERN@,
    ensures
        r is Ok <==> handshake_view(hs).transcript.len() == 3,
        r matches Ok(ts) ==> session_view(ts) == fresh_session(
            handshake_view(hs).protocol,
            handshake_view(hs).initiator,
            handshake_view(hs).keys,
        ),
        r matches Ok(ts) ==> forall|peer: snow::HandshakeState|
            completed_with(#[trigger] handshake_view(peer), handshake_view(hs)) ==> session_view(ts)
                == fresh_session(
                handshake_view(hs).protocol,
                handshake_view(hs).initiator,
                handshake_view(peer).keys,
            ),
{
    hs.into_transport_mode()
}

/// Calls `snow::TransportState::write_message`, and returns how much of `buf` the message takes.
/// The message is a function of the key, the nonce and the plaintext; under the same key and
/// nonce it decrypts to the plaintext. The nonce goes up by one with each message. The call fails
/// where the message would be over the limit of the protocol or longer than `buf`, or where the
/// nonces are used up; then nothing changes in the session.
#[verifier::external_body]
pub(crate) fn session_write(
    ts: &mut snow::TransportState,
    plaintext: &[u8],
    buf: &mut Vec<u8>,
) -> (r: Result<usize, snow::Error>)
    requires
        session_view(*old(ts)).protocol == NOISE_PATTERN@,
    ensures
        final(buf)@.len() == old(buf)@.len(),
        r is Ok <==> can_seal(session_view(*old(ts)), plaintext@.len()) && plaintext@.len()
            + NOISE_TAG <= old(buf)@.len(),
        r matches Ok(n) ==> {
            let v = session_view(*old(ts));
            let message = final(buf)@.subrange(0, n as int);
            &&& n == plaintext@.len() + NOISE_TAG
            &&& message == noise_seal(v.send_key, v.send_nonce, plaintext@)
            &&& noise_open(v.send_key, v.send_nonce, message) == Some(plaintext@)
            &&& session_view(*final(ts)) == (SessionView {
                send_nonce: (v.send_nonce + 1) as u64,
                ..v
            })
        },
        r is Err ==> session_view(*final(ts)) == session_view(*old(ts)),
{
    ts.write_message(plaintext, buf)
}

/// Calls `snow::TransportState::read_message`, and returns how much of `buf` the plaintext takes.
/// Whether a message is taken, and what it decrypts to, is a function of the key, the nonce and
/// the message. The nonce goes up by one with each message that is taken. Where the call fails,
/// nothing changes in the session.
#[verifier::external_body]
pub(crate) fn session_read(
    ts: &mut snow::TransportState,
    message: &[u8],
    buf: &mut Vec<u8>,
) -> (r: Result<usize, snow::Error>)
    requires
        session_view(*old(ts)).protocol == NOISE_PATTERN@,
        message@.len() <= old(buf)@.len(),
    ensures
        final(buf)@.len() == old(buf)@.len(),
        r is Ok <==> session_open(session_view(*old(ts)), message@) is Some,
        r matches Ok(n) ==> {
            let v = session_view(*old(ts));
            &&& message@.len() == n + NOISE_TAG
            &&& noise_open(v.recv_key, v.recv_nonce, message@) == Some(
                final(buf)@.subrange(0, n as int),
            )
            &&& session_view(*final(ts)) == (SessionView {
                recv_nonce: (v.recv_nonce + 1) as u64,
                ..v
            })
        },
        r is Err ==> session_view(*final(ts)) == session_view(*old(ts)),
{
    ts.read_message(message, buf)
}

} // verus!
