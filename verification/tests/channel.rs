use aircore::crypto::MAX_FRAME_LEN;
use aircore::error::AirError;
use aircore::{perform_handshake_initiator, perform_handshake_responder, Transport};
use std::collections::VecDeque;
use std::io;
use std::sync::{Arc, Mutex};

/// Another speaker of the protocol, built on the Noise library itself, at the far end of a
/// transport.
#[derive(Clone)]
struct Peer(Arc<Mutex<PeerState>>);

struct PeerState {
    handshake: Option<snow::HandshakeState>,
    session: Option<snow::TransportState>,
    hash: Vec<u8>,
    heard: VecDeque<Vec<u8>>,
    frames: Vec<Vec<u8>>,
    outbox: VecDeque<Vec<u8>>,
    sends_left: usize,
}

impl PeerState {
    fn speak(&mut self, mut hs: snow::HandshakeState) {
        let mut buf = vec![0u8; 65535];
        if !hs.is_handshake_finished() && hs.is_my_turn() {
            let n = hs.write_message(&[], &mut buf).unwrap();
            self.outbox.push_back(buf[..n].to_vec());
        }
        if hs.is_handshake_finished() {
            self.hash = hs.get_handshake_hash().to_vec();
            self.session = Some(hs.into_transport_mode().unwrap());
        } else {
            self.handshake = Some(hs);
        }
    }
}

impl Peer {
    fn new(initiator: bool) -> Peer {
        let builder = || snow::Builder::new("Noise_XX_25519_ChaChaPoly_BLAKE2s".parse().unwrap());
        let key = builder().generate_keypair().unwrap().private;
        let b = builder().local_private_key(&key);
        let hs = if initiator { b.build_initiator() } else { b.build_responder() }.unwrap();
        let mut state = PeerState {
            handshake: None,
            session: None,
            hash: Vec::new(),
            heard: VecDeque::new(),
            frames: Vec::new(),
            outbox: VecDeque::new(),
            sends_left: usize::MAX,
        };
        state.speak(hs);
        Peer(Arc::new(Mutex::new(state)))
    }

    fn say(&self, plaintext: &[u8]) {
        let mut s = self.0.lock().unwrap();
        let mut buf = vec![0u8; 65535];
        let n = s.session.as_mut().unwrap().write_message(plaintext, &mut buf).unwrap();
        s.outbox.push_back(buf[..n].to_vec());
    }

    fn hear(&self) -> Option<Vec<u8>> {
        self.0.lock().unwrap().heard.pop_front()
    }
}

impl Transport for Peer {
    fn send_frame(&mut self, data: &[u8]) -> io::Result<()> {
        let mut s = self.0.lock().unwrap();
        if s.sends_left == 0 {
            return Err(io::Error::new(io::ErrorKind::TimedOut, "no more"));
        }
        s.sends_left -= 1;
        s.frames.push(data.to_vec());
        let mut buf = vec![0u8; 65535];
        if let Some(mut hs) = s.handshake.take() {
            hs.read_message(data, &mut buf).unwrap();
            s.speak(hs);
        } else {
            let n = s.session.as_mut().unwrap().read_message(data, &mut buf).unwrap();
            s.heard.push_back(buf[..n].to_vec());
        }
        Ok(())
    }

    fn recv_frame(&mut self, max_len: u32) -> io::Result<Vec<u8>> {
        let mut s = self.0.lock().unwrap();
        match s.outbox.pop_front() {
            Some(frame) if frame.len() <= max_len as usize => Ok(frame),
            Some(_) => Err(io::Error::new(io::ErrorKind::InvalidData, "too long")),
            None => Err(io::Error::new(io::ErrorKind::UnexpectedEof, "silence")),
        }
    }
}

/// A transport that answers from a list, and keeps what it was sent.
#[derive(Clone)]
struct Script(Arc<Mutex<(Vec<Vec<u8>>, VecDeque<Vec<u8>>)>>);

impl Script {
    fn new(replies: Vec<Vec<u8>>) -> Script {
        Script(Arc::new(Mutex::new((Vec::new(), replies.into()))))
    }

    fn sent(&self) -> Vec<Vec<u8>> {
        self.0.lock().unwrap().0.clone()
    }
}

impl Transport for Script {
    fn send_frame(&mut self, data: &[u8]) -> io::Result<()> {
        self.0.lock().unwrap().0.push(data.to_vec());
        Ok(())
    }

    fn recv_frame(&mut self, max_len: u32) -> io::Result<Vec<u8>> {
        match self.0.lock().unwrap().1.pop_front() {
            Some(frame) if frame.len() <= max_len as usize => Ok(frame),
            Some(_) => Err(io::Error::new(io::ErrorKind::InvalidData, "too long")),
            None => Err(io::Error::new(io::ErrorKind::UnexpectedEof, "silence")),
        }
    }
}

fn six_digits(hash: &[u8]) -> String {
    let n = (hash[0] as u32) * 65536 + (hash[1] as u32) * 256 + hash[2] as u32;
    format!("{:06}", n % 1_000_000)
}

#[test]
fn an_initiator_speaks_noise_xx() {
    let peer = Peer::new(false);
    let mut channel = perform_handshake_initiator(peer.clone()).ok().unwrap();
    let hash = peer.0.lock().unwrap().hash.clone();
    assert_eq!(hash.len(), 32);
    assert_eq!(channel.verification_code(), six_digits(&hash));
    channel.send(b"ping").ok().unwrap();
    assert_eq!(peer.hear().unwrap(), b"ping");
    peer.say(b"pong");
    assert_eq!(channel.recv(100).ok().unwrap(), b"pong");
}

#[test]
fn a_responder_speaks_noise_xx() {
    let peer = Peer::new(true);
    let mut channel = perform_handshake_responder(peer.clone()).ok().unwrap();
    let hash = peer.0.lock().unwrap().hash.clone();
    assert_eq!(channel.verification_code(), six_digits(&hash));
    peer.say(b"ping");
    assert_eq!(channel.recv(100).ok().unwrap(), b"ping");
    channel.send(b"pong").ok().unwrap();
    assert_eq!(peer.hear().unwrap(), b"pong");
}

#[test]
fn handshake_messages_have_their_lengths() {
    let peer = Peer::new(false);
    perform_handshake_initiator(peer.clone()).ok().unwrap();
    let lens: Vec<usize> = peer.0.lock().unwrap().frames.iter().map(|f| f.len()).collect();
    assert_eq!(lens, vec![32, 64]);
    let peer = Peer::new(true);
    perform_handshake_responder(peer.clone()).ok().unwrap();
    let lens: Vec<usize> = peer.0.lock().unwrap().frames.iter().map(|f| f.len()).collect();
    assert_eq!(lens, vec![96]);
}

#[test]
fn two_handshakes_have_different_keys() {
    let first = Peer::new(false);
    let second = Peer::new(false);
    perform_handshake_initiator(first.clone()).ok().unwrap();
    perform_handshake_initiator(second.clone()).ok().unwrap();
    assert_ne!(first.0.lock().unwrap().frames[0], second.0.lock().unwrap().frames[0]);
    assert_ne!(first.0.lock().unwrap().hash, second.0.lock().unwrap().hash);
}

#[test]
fn messages_arrive_in_order() {
    let peer = Peer::new(false);
    let mut channel = perform_handshake_initiator(peer.clone()).ok().unwrap();
    for i in 0..5u8 {
        peer.say(&[i, 1, 2]);
    }
    peer.say(b"");
    for i in 0..5u8 {
        assert_eq!(channel.recv(MAX_FRAME_LEN).ok().unwrap(), vec![i, 1, 2]);
    }
    assert_eq!(channel.recv(MAX_FRAME_LEN).ok().unwrap(), Vec::<u8>::new());
    for i in 0..5u8 {
        channel.send(&[i, 7]).ok().unwrap();
    }
    for i in 0..5u8 {
        assert_eq!(peer.hear().unwrap(), vec![i, 7]);
    }
}

#[test]
fn a_message_is_sent_encrypted_with_its_tag() {
    let peer = Peer::new(false);
    let mut channel = perform_handshake_initiator(peer.clone()).ok().unwrap();
    channel.send(b"secreto").ok().unwrap();
    let frame = peer.0.lock().unwrap().frames.last().unwrap().clone();
    assert_eq!(frame.len(), 7 + 16);
    assert_ne!(&frame[..7], b"secreto");
}

#[test]
fn a_plaintext_at_the_limit_is_sent_and_one_above_is_not() {
    let peer = Peer::new(false);
    let mut channel = perform_handshake_initiator(peer.clone()).ok().unwrap();
    let largest = vec![5u8; 65535 - 16];
    channel.send(&largest).ok().unwrap();
    assert_eq!(peer.hear().unwrap(), largest);
    assert!(matches!(channel.send(&vec![5u8; 65535 - 15]), Err(AirError::Noise(_))));
    assert!(matches!(channel.send(&vec![5u8; 100_000]), Err(AirError::Noise(_))));
    channel.send(b"again").ok().unwrap();
    assert_eq!(peer.hear().unwrap(), b"again");
}

#[test]
fn a_frame_that_was_tampered_with_is_an_error_and_never_data() {
    let peer = Peer::new(false);
    let mut channel = perform_handshake_initiator(peer.clone()).ok().unwrap();
    peer.say(b"first");
    peer.say(b"second");
    let good = peer.0.lock().unwrap().outbox[1].clone();
    peer.0.lock().unwrap().outbox[1][0] ^= 1;
    peer.0.lock().unwrap().outbox.push_back(good);
    assert_eq!(channel.recv(MAX_FRAME_LEN).ok().unwrap(), b"first");
    assert!(matches!(channel.recv(MAX_FRAME_LEN), Err(AirError::Noise(_))));
    // The refused frame changed nothing: the true one is still the next.
    assert_eq!(channel.recv(MAX_FRAME_LEN).ok().unwrap(), b"second");
}

#[test]
fn a_frame_that_comes_twice_is_accepted_once() {
    let peer = Peer::new(false);
    let mut channel = perform_handshake_initiator(peer.clone()).ok().unwrap();
    peer.say(b"only once");
    let frame = peer.0.lock().unwrap().outbox[0].clone();
    peer.0.lock().unwrap().outbox.push_back(frame);
    assert_eq!(channel.recv(MAX_FRAME_LEN).ok().unwrap(), b"only once");
    assert!(matches!(channel.recv(MAX_FRAME_LEN), Err(AirError::Noise(_))));
}

#[test]
fn a_frame_over_the_protocol_limit_is_refused() {
    let peer = Peer::new(false);
    let mut channel = perform_handshake_initiator(peer.clone()).ok().unwrap();
    peer.0.lock().unwrap().outbox.push_back(vec![0u8; 65536]);
    assert!(matches!(channel.recv(MAX_FRAME_LEN), Err(AirError::Noise(_))));
}

#[test]
fn the_word_of_the_transport_is_final() {
    let peer = Peer::new(false);
    let mut channel = perform_handshake_initiator(peer.clone()).ok().unwrap();
    peer.say(&[0u8; 100]);
    assert!(
        matches!(channel.recv(64), Err(AirError::Io(e)) if e.kind() == io::ErrorKind::InvalidData)
    );
    assert!(
        matches!(channel.recv(64), Err(AirError::Io(e)) if e.kind() == io::ErrorKind::UnexpectedEof)
    );
    peer.0.lock().unwrap().sends_left = 0;
    assert!(
        matches!(channel.send(b"x"), Err(AirError::Io(e)) if e.kind() == io::ErrorKind::TimedOut)
    );
}

#[test]
fn a_transport_that_cannot_send_ends_the_handshake() {
    for sends in [0usize, 1] {
        let peer = Peer::new(false);
        peer.0.lock().unwrap().sends_left = sends;
        let r = perform_handshake_initiator(peer.clone());
        assert!(matches!(r, Err(AirError::Io(e)) if e.kind() == io::ErrorKind::TimedOut));
        assert_eq!(peer.0.lock().unwrap().frames.len(), sends);
    }
    let peer = Peer::new(true);
    peer.0.lock().unwrap().sends_left = 0;
    let r = perform_handshake_responder(peer.clone());
    assert!(matches!(r, Err(AirError::Io(e)) if e.kind() == io::ErrorKind::TimedOut));
}

#[test]
fn silence_ends_the_handshake() {
    let script = Script::new(vec![]);
    let r = perform_handshake_initiator(script.clone());
    assert!(matches!(r, Err(AirError::Io(e)) if e.kind() == io::ErrorKind::UnexpectedEof));
    assert_eq!(script.sent().len(), 1);
    assert_eq!(script.sent()[0].len(), 32);
    let script = Script::new(vec![]);
    let r = perform_handshake_responder(script.clone());
    assert!(matches!(r, Err(AirError::Io(e)) if e.kind() == io::ErrorKind::UnexpectedEof));
    assert_eq!(script.sent().len(), 0);
}

#[test]
fn a_forged_reply_ends_the_handshake() {
    let script = Script::new(vec![vec![7u8; 96]]);
    assert!(matches!(perform_handshake_initiator(script.clone()), Err(AirError::Noise(_))));
    assert_eq!(script.sent().len(), 1);
}

#[test]
fn a_first_message_of_the_wrong_length_is_refused() {
    for len in [0usize, 31, 65536] {
        let script = Script::new(vec![vec![1u8; len]]);
        assert!(matches!(perform_handshake_responder(script.clone()), Err(AirError::Noise(_))));
        assert_eq!(script.sent().len(), 0);
    }
}

#[test]
fn a_first_message_of_32_bytes_or_more_is_answered() {
    for len in [32usize, 33, 65535] {
        let script = Script::new(vec![vec![9u8; len], vec![9u8; 64]]);
        assert!(matches!(perform_handshake_responder(script.clone()), Err(AirError::Noise(_))));
        assert_eq!(script.sent().len(), 1);
        assert_eq!(script.sent()[0].len(), 96);
    }
}
