use aircore::crypto::SecureChannel;
use aircore::error::AirError;
use aircore::paths::{choose_name, file_name, PathRules};
use aircore::transfer::{
    decode_metadata, encode_metadata, offered_name, sanitize_filename, FileReceiver, FileSender,
    MAX_FILE_SIZE, PIECE_SIZE,
};
use aircore::{perform_handshake_initiator, perform_handshake_responder, Transport};
use std::collections::VecDeque;
use std::io;
use std::sync::{Arc, Mutex};

/// Another speaker of the protocol, built on the Noise library itself, at the far end of a
/// transport.
#[derive(Clone)]
struct Peer(Arc<Mutex<PeerState>>);

struct PeerState {
    handshake: Option<snow::HandshakeState>,
    session: Option<snow::TransportState>,
    hash: Vec<u8>,
    heard: VecDeque<Vec<u8>>,
    frames: Vec<Vec<u8>>,
    outbox: VecDeque<Vec<u8>>,
    sends_left: usize,
}

impl PeerState {
    fn speak(&mut self, mut hs: snow::HandshakeState) {
        let mut buf = vec![0u8; 65535];
        if !hs.is_handshake_finished() && hs.is_my_turn() {
            let n = hs.write_message(&[], &mut buf).unwrap();
            self.outbox.push_back(buf[..n].to_vec());
        }
        if hs.is_handshake_finished() {
            self.hash = hs.get_handshake_hash().to_vec();
            self.session = Some(hs.into_transport_mode().unwrap());
        } else {
            self.handshake = Some(hs);
        }
    }
}

impl Peer {
    fn new(initiator: bool) -> Peer {
        let builder = || snow::Builder::new("Noise_XX_25519_ChaChaPoly_BLAKE2s".parse().unwrap());
        let key = builder().generate_keypair().unwrap().private;
        let b = builder().local_private_key(&key);
        let hs = if initiator { b.build_initiator() } else { b.build_responder() }.unwrap();
        let mut state = PeerState {
            handshake: None,
            session: None,
            hash: Vec::new(),
            heard: VecDeque::new(),
            frames: Vec::new(),
            outbox: VecDeque::new(),
            sends_left: usize::MAX,
        };
        state.speak(hs);
        Peer(Arc::new(Mutex::new(state)))
    }

    fn say(&self, plaintext: &[u8]) {
        let mut s = self.0.lock().unwrap();
        let mut buf = vec![0u8; 65535];
        let n = s.session.as_mut().unwrap().write_message(plaintext, &mut buf).unwrap();
        s.outbox.push_back(buf[..n].to_vec());
    }

    fn hear(&self) -> Option<Vec<u8>> {
        self.0.lock().unwrap().heard.pop_front()
    }
}

impl Transport for Peer {
    fn send_frame(&mut self, data: &[u8]) -> io::Result<()> {
        let mut s = self.0.lock().unwrap();
        if s.sends_left == 0 {
            return Err(io::Error::new(io::ErrorKind::TimedOut, "no more"));
        }
        s.sends_left -= 1;
        s.frames.push(data.to_vec());
        let mut buf = vec![0u8; 65535];
        if let Some(mut hs) = s.handshake.take() {
            hs.read_message(data, &mut buf).unwrap();
            s.speak(hs);
        } else {
            let n = s.session.as_mut().unwrap().read_message(data, &mut buf).unwrap();
            s.heard.push_back(buf[..n].to_vec());
        }
        Ok(())
    }

    fn recv_frame(&mut self, max_len: u32) -> io::Result<Vec<u8>> {
        let mut s = self.0.lock().unwrap();
        match s.outbox.pop_front() {
            Some(frame) if frame.len() <= max_len as usize => Ok(frame),
            Some(_) => Err(io::Error::new(io::ErrorKind::InvalidData, "too long")),
            None => Err(io::Error::new(io::ErrorKind::UnexpectedEof, "silence")),
        }
    }
}

const ABC_DIGEST: [u8; 32] = [
    0xba, 0x78, 0x16, 0xbf, 0x8f, 0x01, 0xcf, 0xea, 0x41, 0x41, 0x40, 0xde, 0x5d, 0xae, 0x22, 0x23,
    0xb0, 0x03, 0x61, 0xa3, 0x96, 0x17, 0x7a, 0x9c, 0xb4, 0x10, 0xff, 0x61, 0xf2, 0x00, 0x15, 0xad,
];

const EMPTY_DIGEST: [u8; 32] = [
    0xe3, 0xb0, 0xc4, 0x42, 0x98, 0xfc, 0x1c, 0x14, 0x9a, 0xfb, 0xf4, 0xc8, 0x99, 0x6f, 0xb9, 0x24,
    0x27, 0xae, 0x41, 0xe4, 0x64, 0x9b, 0x93, 0x4c, 0xa4, 0x95, 0x99, 0x1b, 0x78, 0x52, 0xb8, 0x55,
];

#[test]
fn only_the_last_component_of_a_path_counts() {
    assert_eq!(sanitize_filename("informe.pdf"), "informe.pdf");
    assert_eq!(sanitize_filename("../../../datos_importantes.txt"), "datos_importantes.txt");
    assert_eq!(sanitize_filename("/etc/passwd"), "passwd");
    assert_eq!(sanitize_filename("a/b/c/"), "c");
    assert_eq!(sanitize_filename("a//b"), "b");
    assert_eq!(sanitize_filename("a/./b/."), "b");
    assert_eq!(sanitize_filename("carpeta/ñandú.txt"), "ñandú.txt");
    assert_eq!(sanitize_filename("..."), "...");
    assert_eq!(sanitize_filename(".oculto"), ".oculto");
}

#[test]
fn what_is_no_name_gets_the_default_one() {
    for name in ["", ".", "..", "/", "//", "a/..", "./", "./.", "../..", "/."] {
        assert_eq!(sanitize_filename(name), "archivo_recibido");
    }
}

#[test]
fn a_component_is_kept_if_it_can_name_a_file() {
    for rules in [PathRules::Slash, PathRules::Windows] {
        assert_eq!(choose_name(rules, Some("x".to_string())), "x");
        assert_eq!(choose_name(rules, Some("10:30.png".to_string())), "10:30.png");
        for bad in ["", ".", "..", "a/b", "/", "../../x"] {
            assert_eq!(choose_name(rules, Some(bad.to_string())), "archivo_recibido");
        }
        assert_eq!(choose_name(rules, None), "archivo_recibido");
    }
    for drive in ["C:", "C:x", "z:x"] {
        assert_eq!(choose_name(PathRules::Slash, Some(drive.to_string())), drive);
        assert_eq!(choose_name(PathRules::Windows, Some(drive.to_string())), "archivo_recibido");
    }
}

#[test]
fn the_rules_are_those_of_the_system() {
    let windows = std::path::MAIN_SEPARATOR == '\\';
    let (rules, name) = file_name("dir/sub\\foto.png");
    if windows {
        assert!(rules == PathRules::Windows);
        assert_eq!(name.as_deref(), Some("foto.png"));
        assert_eq!(offered_name("C:\\dir\\foto.png"), "foto.png");
        assert_eq!(offered_name("\\\\server\\share\\dir\\foto.png"), "foto.png");
        assert_eq!(sanitize_filename("\\\\?\\C:\\a/b"), "archivo_recibido");
        assert_eq!(sanitize_filename("x/C:y"), "archivo_recibido");
        assert_eq!(sanitize_filename("\\../../x"), "x");
    } else {
        assert!(rules == PathRules::Slash);
        assert_eq!(name.as_deref(), Some("sub\\foto.png"));
        assert_eq!(sanitize_filename("sub\\foto.png"), "sub\\foto.png");
        assert_eq!(sanitize_filename("C:x"), "C:x");
        assert_eq!(sanitize_filename("\\../../x"), "x");
        assert_eq!(sanitize_filename("//a/b"), "b");
    }
}

#[test]
fn a_colon_is_part_of_a_name() {
    assert_eq!(sanitize_filename("10:30.png"), "10:30.png");
    assert_eq!(sanitize_filename("fotos/10:30.png"), "10:30.png");
}

#[test]
fn a_piece_has_eight_kilobytes_and_can_be_sent() {
    assert_eq!(PIECE_SIZE, 8192);
    let (mut channel, peer) = sending();
    let piece = vec![3u8; PIECE_SIZE];
    assert!(FileSender::new().step(&mut channel, &piece).ok().unwrap().is_some());
    assert_eq!(peer.hear().unwrap(), piece);
}

#[test]
fn making_a_name_safe_once_is_enough() {
    for name in ["a/b", "..", "x", "a/b/../c", "", "///", "á/é", "a\\b", "//x", "C:y", "x/C:y"] {
        let once = sanitize_filename(name);
        assert_eq!(sanitize_filename(&once), once);
        assert!(!once.is_empty() && once != "." && once != ".." && !once.contains('/'));
    }
}

#[test]
fn a_file_is_offered_under_its_own_name() {
    assert_eq!(offered_name("/home/yo/foto.png"), "foto.png");
    assert_eq!(offered_name("foto.png"), "foto.png");
    assert_eq!(offered_name("/"), "archivo_recibido");
    assert_eq!(offered_name(".."), "archivo_recibido");
}

#[test]
fn a_description_has_its_layout() {
    let meta = encode_metadata("ab", 0x0102_0304_0506_0708);
    assert_eq!(meta, vec![0, 0, 0, 2, b'a', b'b', 1, 2, 3, 4, 5, 6, 7, 8]);
    assert_eq!(encode_metadata("", 0), vec![0u8; 12]);
}

#[test]
fn a_description_is_read_as_it_was_written() {
    for (name, size) in [("a", 0u64), ("ñandú.txt", 5), ("foto de ayer.png", u64::MAX)] {
        let meta = encode_metadata(name, size);
        assert_eq!(decode_metadata(&meta), Some((name.to_string(), size)));
        assert_eq!(decode_metadata(&meta), Some((sanitize_filename(name), size)));
        let mut longer = meta.clone();
        longer.extend_from_slice(b"lo que sea");
        assert_eq!(decode_metadata(&longer), Some((name.to_string(), size)));
    }
}

#[test]
fn a_description_comes_out_with_a_safe_name() {
    assert_eq!(
        decode_metadata(&encode_metadata("../../x", 3)),
        Some(("x".to_string(), 3))
    );
    for name in ["a\\..\\b", "\\../../x", "//srv/x", "C:\\x", "\\\\?\\a/b"] {
        assert_eq!(
            decode_metadata(&encode_metadata(name, 3)),
            Some((sanitize_filename(name), 3))
        );
    }
    assert_eq!(
        decode_metadata(&encode_metadata("", 3)),
        Some(("archivo_recibido".to_string(), 3))
    );
}

#[test]
fn a_description_that_is_cut_short_is_none() {
    let meta = encode_metadata("abcdef", 77);
    for len in 0..meta.len() {
        assert_eq!(decode_metadata(&meta[..len]), None);
    }
    let mut lies = meta.clone();
    lies[0] = 0xff;
    assert_eq!(decode_metadata(&lies), None);
}

#[test]
fn a_name_that_is_not_utf8_is_mended() {
    let mut meta = vec![0, 0, 0, 3, 0xff, b'a', b'b'];
    meta.extend_from_slice(&9u64.to_be_bytes());
    assert_eq!(decode_metadata(&meta), Some(("\u{FFFD}ab".to_string(), 9)));
}

#[test]
fn the_limit_is_ten_gigabytes() {
    assert_eq!(MAX_FILE_SIZE, 10 * 1024 * 1024 * 1024);
}

fn sending() -> (SecureChannel<Peer>, Peer) {
    let peer = Peer::new(false);
    (perform_handshake_initiator(peer.clone()).ok().unwrap(), peer)
}

fn receiving() -> (SecureChannel<Peer>, Peer) {
    let peer = Peer::new(true);
    (perform_handshake_responder(peer.clone()).ok().unwrap(), peer)
}

#[test]
fn a_sender_sends_the_pieces_and_then_the_digest() {
    let (mut channel, peer) = sending();
    let sender = FileSender::new();
    let sender = sender.step(&mut channel, b"ab").ok().unwrap().unwrap();
    let sender = sender.step(&mut channel, b"c").ok().unwrap().unwrap();
    assert!(sender.step(&mut channel, b"").ok().unwrap().is_none());
    assert_eq!(peer.hear().unwrap(), b"ab");
    assert_eq!(peer.hear().unwrap(), b"c");
    assert_eq!(peer.hear().unwrap(), ABC_DIGEST);
    assert!(peer.hear().is_none());
}

#[test]
fn an_empty_file_is_a_digest_alone() {
    let (mut channel, peer) = sending();
    assert!(FileSender::new().step(&mut channel, b"").ok().unwrap().is_none());
    assert_eq!(peer.hear().unwrap(), EMPTY_DIGEST);
    let (mut channel, peer) = receiving();
    peer.say(&EMPTY_DIGEST);
    let mut receiver = FileReceiver::new(0);
    assert!(receiver.recv_chunk(&mut channel).ok().unwrap().is_none());
    assert!(receiver.recv_digest(&mut channel).ok().unwrap());
}

#[test]
fn a_sender_stops_where_the_transport_does() {
    let (mut channel, peer) = sending();
    peer.0.lock().unwrap().sends_left = 0;
    assert!(matches!(FileSender::new().step(&mut channel, b"ab"), Err(AirError::Io(_))));
    assert!(matches!(FileSender::new().step(&mut channel, b""), Err(AirError::Io(_))));
}

#[test]
fn a_file_arrives_whole_and_verified() {
    let file: Vec<u8> = (0..50_000u32).map(|i| (i % 251) as u8).collect();
    let (mut out, relay_in) = sending();
    let (mut inn, relay_out) = receiving();
    let mut sender = FileSender::new();
    for piece in file.chunks(8192) {
        sender = sender.step(&mut out, piece).ok().unwrap().unwrap();
    }
    assert!(sender.step(&mut out, b"").ok().unwrap().is_none());
    while let Some(message) = relay_in.hear() {
        relay_out.say(&message);
    }
    let mut receiver = FileReceiver::new(file.len() as u64);
    let mut got: Vec<u8> = Vec::new();
    while let Some(piece) = receiver.recv_chunk(&mut inn).ok().unwrap() {
        got.extend_from_slice(&piece);
    }
    assert_eq!(got, file);
    assert!(receiver.recv_digest(&mut inn).ok().unwrap());
}

#[test]
fn a_wrong_digest_is_told() {
    let (mut channel, peer) = receiving();
    peer.say(b"abd");
    peer.say(&ABC_DIGEST);
    let mut receiver = FileReceiver::new(3);
    assert_eq!(receiver.recv_chunk(&mut channel).ok().unwrap(), Some(b"abd".to_vec()));
    assert!(!receiver.recv_digest(&mut channel).ok().unwrap());
}

#[test]
fn a_digest_of_the_wrong_length_is_wrong() {
    let (mut channel, peer) = receiving();
    peer.say(&ABC_DIGEST[..31]);
    let mut receiver = FileReceiver::new(3);
    assert!(receiver.accept(b"abc").is_ok());
    assert!(!receiver.recv_digest(&mut channel).ok().unwrap());
}

#[test]
fn a_digest_message_has_at_most_64_bytes_on_the_wire() {
    let (mut channel, peer) = receiving();
    peer.say(&[0u8; 49]);
    let receiver = FileReceiver::new(0);
    assert!(matches!(receiver.recv_digest(&mut channel), Err(AirError::Io(_))));
}

#[test]
fn a_piece_that_is_empty_or_too_long_is_unexpected() {
    let (mut channel, peer) = receiving();
    peer.say(b"");
    peer.say(b"abcd");
    peer.say(b"abc");
    let mut receiver = FileReceiver::new(3);
    assert!(matches!(receiver.recv_chunk(&mut channel), Err(AirError::UnexpectedChunk)));
    assert!(matches!(receiver.recv_chunk(&mut channel), Err(AirError::UnexpectedChunk)));
    // Neither changed anything.
    assert_eq!(receiver.recv_chunk(&mut channel).ok().unwrap(), Some(b"abc".to_vec()));
    assert!(receiver.recv_chunk(&mut channel).ok().unwrap().is_none());
    peer.say(&ABC_DIGEST);
    assert!(receiver.recv_digest(&mut channel).ok().unwrap());
}

#[test]
fn nothing_is_taken_beyond_the_announced_size() {
    let mut receiver = FileReceiver::new(5);
    assert!(receiver.accept(b"abc").is_ok());
    assert!(matches!(receiver.accept(b"def"), Err(AirError::UnexpectedChunk)));
    assert!(receiver.accept(b"de").is_ok());
    assert!(matches!(receiver.accept(b"f"), Err(AirError::UnexpectedChunk)));
}

#[test]
fn a_receiver_stops_where_the_transport_does() {
    let (mut channel, _peer) = receiving();
    let mut receiver = FileReceiver::new(5);
    assert!(matches!(receiver.recv_chunk(&mut channel), Err(AirError::Io(_))));
}
