use aircore::app::{
    device_label, AirCoreApp, AppEvent, AppMode, BleDevice, BleOffer, PendingRequest, SendAction,
};
use aircore::ble_transport::{decode_response, encode_response, HotspotResponse};
use aircore::error::AirError;
use aircore::gatt::{accept_offer, decision_response, negotiate, offer_over, receive_offer, respond};
use aircore::request::{
    answer_request, handle_request, offer_file, receive_request, screen, Screening,
};
use aircore::transfer::{encode_metadata, MAX_FILE_SIZE};
use aircore::{perform_handshake_initiator, perform_handshake_responder, SecureChannel, Transport};
use std::collections::VecDeque;
use std::io;
use std::sync::{Arc, Mutex};

/// Another speaker of the protocol, built on the Noise library itself, at the far end of a
/// transport.
#[derive(Clone)]
struct Peer(Arc<Mutex<PeerState>>);

struct PeerState {
    handshake: Option<snow::HandshakeState>,
    session: Option<snow::TransportState>,
    hash: Vec<u8>,
    heard: VecDeque<Vec<u8>>,
    frames: Vec<Vec<u8>>,
    outbox: VecDeque<Vec<u8>>,
    sends_left: usize,
}

impl PeerState {
    fn speak(&mut self, mut hs: snow::HandshakeState) {
        let mut buf = vec![0u8; 65535];
        if !hs.is_handshake_finished() && hs.is_my_turn() {
            let n = hs.write_message(&[], &mut buf).unwrap();
            self.outbox.push_back(buf[..n].to_vec());
        }
        if hs.is_handshake_finished() {
            self.hash = hs.get_handshake_hash().to_vec();
            self.session = Some(hs.into_transport_mode().unwrap());
        } else {
            self.handshake = Some(hs);
        }
    }
}

impl Peer {
    fn new(initiator: bool) -> Peer {
        let builder = || snow::Builder::new("Noise_XX_25519_ChaChaPoly_BLAKE2s".parse().unwrap());
        let key = builder().generate_keypair().unwrap().private;
        let b = builder().local_private_key(&key);
        let hs = if initiator { b.build_initiator() } else { b.build_responder() }.unwrap();
        let mut state = PeerState {
            handshake: None,
            session: None,
            hash: Vec::new(),
            heard: VecDeque::new(),
            frames: Vec::new(),
            outbox: VecDeque::new(),
            sends_left: usize::MAX,
        };
        state.speak(hs);
        Peer(Arc::new(Mutex::new(state)))
    }

    fn say(&self, plaintext: &[u8]) {
        let mut s = self.0.lock().unwrap();
        let mut buf = vec![0u8; 65535];
        let n = s.session.as_mut().unwrap().write_message(plaintext, &mut buf).unwrap();
        s.outbox.push_back(buf[..n].to_vec());
    }

    fn hear(&self) -> Option<Vec<u8>> {
        self.0.lock().unwrap().heard.pop_front()
    }
}

impl Transport for Peer {
    fn send_frame(&mut self, data: &[u8]) -> io::Result<()> {
        let mut s = self.0.lock().unwrap();
        if s.sends_left == 0 {
            return Err(io::Error::new(io::ErrorKind::TimedOut, "no more"));
        }
        s.sends_left -= 1;
        s.frames.push(data.to_vec());
        let mut buf = vec![0u8; 65535];
        if let Some(mut hs) = s.handshake.take() {
            hs.read_message(data, &mut buf).unwrap();
            s.speak(hs);
        } else {
            let n = s.session.as_mut().unwrap().read_message(data, &mut buf).unwrap();
            s.heard.push_back(buf[..n].to_vec());
        }
        Ok(())
    }

    fn recv_frame(&mut self, max_len: u32) -> io::Result<Vec<u8>> {
        let mut s = self.0.lock().unwrap();
        match s.outbox.pop_front() {
            Some(frame) if frame.len() <= max_len as usize => Ok(frame),
            Some(_) => Err(io::Error::new(io::ErrorKind::InvalidData, "too long")),
            None => Err(io::Error::new(io::ErrorKind::UnexpectedEof, "silence")),
        }
    }
}

fn sending() -> (SecureChannel<Peer>, Peer) {
    let peer = Peer::new(false);
    (perform_handshake_initiator(peer.clone()).ok().unwrap(), peer)
}

fn receiving() -> (SecureChannel<Peer>, Peer) {
    let peer = Peer::new(true);
    (perform_handshake_responder(peer.clone()).ok().unwrap(), peer)
}

/// A peer that, as soon as the handshake is through, has said what it has to say.
struct Talker {
    peer: Peer,
    lines: Vec<Vec<u8>>,
}

impl Transport for Talker {
    fn send_frame(&mut self, data: &[u8]) -> io::Result<()> {
        self.peer.send_frame(data)
    }

    fn recv_frame(&mut self, max_len: u32) -> io::Result<Vec<u8>> {
        if self.peer.0.lock().unwrap().session.is_some()
            && self.peer.0.lock().unwrap().outbox.is_empty()
            && !self.lines.is_empty()
        {
            let line = self.lines.remove(0);
            self.peer.say(&line);
        }
        self.peer.recv_frame(max_len)
    }
}

fn accepted(ssid: &str, password: &str) -> HotspotResponse {
    HotspotResponse::Accepted { ssid: ssid.to_string(), password: password.to_string() }
}

#[test]
fn an_offer_is_answered_with_a_network() {
    let (mut channel, peer) = sending();
    peer.say(&encode_response(&accepted("AirCore-1", "clave")));
    let r = offer_over(&mut channel, "foto.png", 42).ok().unwrap();
    assert!(matches!(r, HotspotResponse::Accepted { ssid, password }
        if ssid == "AirCore-1" && password == "clave"));
    assert_eq!(peer.hear().unwrap(), encode_metadata("foto.png", 42));
}

#[test]
fn an_offer_is_answered_with_a_no() {
    let (mut channel, peer) = sending();
    peer.say(&encode_response(&HotspotResponse::Rejected));
    assert!(matches!(offer_over(&mut channel, "f", 1), Ok(HotspotResponse::Rejected)));
}

#[test]
fn an_answer_that_makes_no_sense_is_an_error() {
    let (mut channel, peer) = sending();
    peer.say(&[1, 0]);
    assert!(matches!(offer_over(&mut channel, "f", 1), Err(AirError::InvalidResponse)));
    assert!(matches!(offer_over(&mut channel, "f", 1), Err(AirError::Io(_))));
    peer.0.lock().unwrap().sends_left = 0;
    assert!(matches!(offer_over(&mut channel, "f", 1), Err(AirError::Io(_))));
}

#[test]
fn a_whole_negotiation_runs() {
    let peer = Peer::new(false);
    let r = negotiate(
        Talker { peer: peer.clone(), lines: vec![encode_response(&accepted("red", "clave"))] },
        "foto.png",
        7,
    );
    assert!(matches!(r, Ok(HotspotResponse::Accepted { ssid, password })
        if ssid == "red" && password == "clave"));
    assert_eq!(peer.hear().unwrap(), encode_metadata("foto.png", 7));
}

#[test]
fn a_negotiation_without_a_handshake_fails() {
    let peer = Peer::new(false);
    peer.0.lock().unwrap().sends_left = 0;
    assert!(matches!(negotiate(peer, "f", 1), Err(AirError::Io(_))));
}

#[test]
fn an_offer_is_received_and_answered() {
    let peer = Peer::new(true);
    let (mut channel, name, size) = accept_offer(Talker {
        peer: peer.clone(),
        lines: vec![encode_metadata("../foto.png", 99)],
    })
    .ok()
    .unwrap();
    assert_eq!(name, "foto.png");
    assert_eq!(size, 99);
    respond(&mut channel, decision_response(Some(("s".to_string(), "p".to_string())))).ok().unwrap();
    assert!(matches!(decode_response(&peer.hear().unwrap()),
        Some(HotspotResponse::Accepted { ssid, password }) if ssid == "s" && password == "p"));
    respond(&mut channel, decision_response(None)).ok().unwrap();
    assert_eq!(peer.hear().unwrap(), vec![0]);
}

#[test]
fn an_offer_that_does_not_decode_is_invalid() {
    let peer = Peer::new(true);
    let r = accept_offer(Talker { peer: peer.clone(), lines: vec![vec![1, 2, 3]] });
    assert!(matches!(r, Err(AirError::InvalidOffer)));
    let r = accept_offer(Peer::new(true));
    assert!(matches!(r, Err(AirError::Io(_))));
    let peer = Peer::new(true);
    peer.0.lock().unwrap().outbox.clear();
    assert!(matches!(accept_offer(peer), Err(AirError::Io(_))));
}

#[test]
fn an_offer_over_the_limit_is_refused_without_asking() {
    let peer = Peer::new(true);
    let r = accept_offer(Talker {
        peer: peer.clone(),
        lines: vec![encode_metadata("enorme", MAX_FILE_SIZE + 1)],
    });
    assert!(matches!(r, Err(AirError::OfferTooLarge)));
    assert!(matches!(decode_response(&peer.hear().unwrap()), Some(HotspotResponse::Rejected)));
    let (mut channel, peer) = receiving();
    peer.say(&encode_metadata("justo", MAX_FILE_SIZE));
    assert_eq!(
        receive_offer(&mut channel, 4096).ok(),
        Some(("justo".to_string(), MAX_FILE_SIZE))
    );
    assert!(peer.hear().is_none());
    peer.say(&encode_metadata("enorme", u64::MAX));
    peer.0.lock().unwrap().sends_left = 0;
    assert!(matches!(receive_offer(&mut channel, 4096), Err(AirError::OfferTooLarge)));
}

#[test]
fn an_offer_is_read_up_to_the_given_length() {
    let (mut channel, peer) = receiving();
    peer.say(&encode_metadata("abc", 5));
    assert!(matches!(receive_offer(&mut channel, 20), Err(AirError::Io(_))));
    peer.say(&encode_metadata("abc", 5));
    // The frame that was refused is lost, so that the next one is out of turn.
    assert!(matches!(receive_offer(&mut channel, 100), Err(AirError::Noise(_))));
}

#[test]
fn a_request_is_screened() {
    assert!(matches!(screen(&[]), Screening::Ignore));
    assert!(matches!(screen(&encode_metadata("a", MAX_FILE_SIZE + 1)), Screening::TooLarge));
    assert!(matches!(screen(&encode_metadata("a", u64::MAX)), Screening::TooLarge));
    assert!(matches!(screen(&encode_metadata("x/a", MAX_FILE_SIZE)),
        Screening::Ask { file_name, file_size }
            if file_name == "a" && file_size == MAX_FILE_SIZE));
}

#[test]
fn a_request_too_large_is_turned_down_without_asking() {
    let (mut channel, peer) = receiving();
    peer.say(&encode_metadata("enorme", MAX_FILE_SIZE + 1));
    assert!(handle_request(&mut channel).is_none());
    assert_eq!(peer.hear().unwrap(), vec![0]);
}

#[test]
fn a_request_that_makes_no_sense_gets_no_answer() {
    let (mut channel, peer) = receiving();
    peer.say(b"hola");
    assert!(handle_request(&mut channel).is_none());
    assert!(peer.hear().is_none());
    assert!(handle_request(&mut channel).is_none());
}

#[test]
fn a_connection_is_served_up_to_the_question() {
    let peer = Peer::new(true);
    let mut request = receive_request(Talker {
        peer: peer.clone(),
        lines: vec![encode_metadata("foto.png", 1234)],
    })
    .ok()
    .unwrap();
    assert_eq!(request.file_name, "foto.png");
    assert_eq!(request.file_size, 1234);
    assert_eq!(request.verification_code, request.channel.verification_code());
    assert!(peer.hear().is_none());
    answer_request(&mut request.channel, true).ok().unwrap();
    assert_eq!(peer.hear().unwrap(), vec![1]);
    answer_request(&mut request.channel, false).ok().unwrap();
    assert_eq!(peer.hear().unwrap(), vec![0]);
}

#[test]
fn a_connection_that_fails_is_forgotten() {
    let peer = Peer::new(true);
    peer.0.lock().unwrap().outbox.clear();
    assert!(receive_request(peer).is_err());
    // What is handed back has seen the whole handshake.
    let left = receive_request(Peer::new(true)).err().unwrap();
    assert_eq!(left.0.lock().unwrap().frames.len(), 1);
    let peer = Peer::new(true);
    let left = receive_request(Talker {
        peer,
        lines: vec![encode_metadata("enorme", MAX_FILE_SIZE + 1)],
    })
    .err()
    .unwrap();
    assert_eq!(left.peer.hear().unwrap(), vec![0]);
}

#[test]
fn only_a_one_is_a_yes() {
    for (answer, yes) in [
        (vec![1u8], true),
        (vec![1, 0, 0], true),
        (vec![0], false),
        (vec![2], false),
        (vec![], false),
    ] {
        let (mut channel, peer) = sending();
        peer.say(&answer);
        assert_eq!(offer_file(&mut channel, "foto.png", 10).ok(), Some(yes));
        assert_eq!(peer.hear().unwrap(), encode_metadata("foto.png", 10));
    }
    let (mut channel, _peer) = sending();
    assert!(matches!(offer_file(&mut channel, "foto.png", 10), Err(AirError::Io(_))));
}

type App = AirCoreApp<Peer, u32>;

fn pending() -> (PendingRequest<Peer>, Peer) {
    let (channel, peer) = receiving();
    let verification_code = channel.verification_code();
    let request = aircore::request::IncomingRequest {
        file_name: "foto.png".to_string(),
        file_size: 5,
        verification_code,
        channel,
    };
    (PendingRequest { peer_ip: "10.0.0.2".to_string(), request }, peer)
}

fn device(name: &str, address: u64) -> BleDevice {
    BleDevice { name: name.to_string(), address }
}

#[test]
fn a_window_opens_on_the_sending_side() {
    let app = App::new();
    assert!(app.mode == AppMode::Sender);
    assert_eq!(app.sender_status, "Listo para enviar");
    assert_eq!(app.receiver_status, "Apagado");
    assert_eq!(app.target_ip, "");
    assert!(app.selected_file.is_none() && app.sender_verification_code.is_none());
    assert!(!app.searching && !app.receiver_listening);
    assert!(app.incoming_request.is_none() && app.ble_offer.is_none());
    assert!(app.discovered_ble_devices.is_empty() && app.selected_ble_device_index.is_none());
}

#[test]
fn the_servers_start_once() {
    let mut app = App::new();
    assert!(app.enter_receiver_mode());
    assert!(app.mode == AppMode::Receiver);
    assert!(app.receiver_listening);
    assert_eq!(app.receiver_status, "Iniciando servidor y BLE...");
    app.apply_event(AppEvent::ReceiverStatus("Escuchando".to_string()));
    app.enter_sender_mode();
    assert!(app.mode == AppMode::Sender);
    assert!(!app.enter_receiver_mode());
    assert!(!app.start_receiver_server());
    assert_eq!(app.receiver_status, "Escuchando");
}

#[test]
fn a_receiver_that_was_found_becomes_the_target() {
    let mut app = App::new();
    app.start_network_search();
    assert!(app.searching);
    assert_eq!(app.sender_status, "Buscando receptores por red...");
    app.apply_event(AppEvent::SenderStatus("IP_DETECTADA:192.168.1.7".to_string()));
    assert_eq!(app.target_ip, "192.168.1.7");
    assert_eq!(app.sender_status, "¡Encontrado en IP: 192.168.1.7!");
    app.apply_event(AppEvent::SenderStatus("otra cosa".to_string()));
    assert_eq!(app.target_ip, "192.168.1.7");
    assert_eq!(app.sender_status, "otra cosa");
    app.apply_event(AppEvent::SenderVerificationCode("012345".to_string()));
    assert_eq!(app.sender_verification_code.as_deref(), Some("012345"));
}

#[test]
fn a_device_is_listed_once() {
    let mut app = App::new();
    app.apply_event(AppEvent::BleDeviceFound(device("a", 1)));
    app.apply_event(AppEvent::BleDeviceFound(device("b", 2)));
    app.apply_event(AppEvent::BleDeviceFound(device("c", 1)));
    let names: Vec<String> = app.discovered_ble_devices.iter().map(|d| d.name.clone()).collect();
    assert_eq!(names, vec!["a", "b"]);
    app.select_device(Some(1));
    app.start_ble_search();
    assert!(app.discovered_ble_devices.is_empty());
    assert!(app.selected_ble_device_index.is_none());
    assert_eq!(app.sender_status, "Escaneando dispositivos BLE cercanos...");
}

#[test]
fn the_closed_list_says_what_is_selected() {
    let mut app = App::new();
    assert_eq!(app.ble_selection_text(), "Ninguno encontrado");
    app.select_device(Some(0));
    assert_eq!(app.ble_selection_text(), "Seleccionar dispositivo...");
    app.apply_event(AppEvent::BleDeviceFound(device("Laptop", 0x1a2b3c)));
    assert_eq!(app.ble_selection_text(), "Laptop (0x0000001A2B3C)");
    app.select_device(None);
    assert_eq!(app.ble_selection_text(), "Seleccionar dispositivo...");
    app.select_device(Some(7));
    assert_eq!(app.ble_selection_text(), "Seleccionar dispositivo...");
}

#[test]
fn a_device_is_shown_with_its_address() {
    for address in [0u64, 0xABCDEF, 0xFFFF_FFFF_FFFF, 0x1_0000_0000_0000, u64::MAX] {
        assert_eq!(device_label(&device("X", address)), format!("X ({:#014X})", address));
    }
}

#[test]
fn sending_needs_a_file_and_a_target() {
    let mut app = App::new();
    assert!(matches!(app.send_clicked(true), SendAction::Nothing));
    assert_eq!(app.sender_status, "Selecciona un archivo primero.");
    app.select_file("/tmp/foto.png".to_string());
    assert!(matches!(app.send_clicked(true), SendAction::Nothing));
    assert_eq!(
        app.sender_status,
        "Ingresa una IP, búscala por red, o selecciona un dispositivo BLE."
    );
    app.sender_verification_code = Some("111111".to_string());
    app.target_ip = "10.0.0.9".to_string();
    assert!(matches!(app.send_clicked(false), SendAction::ByNetwork { file_path, ip }
        if file_path == "/tmp/foto.png" && ip == "10.0.0.9"));
    assert!(app.sender_verification_code.is_none());
}

#[test]
fn a_selected_device_goes_before_a_typed_address() {
    let mut app = App::new();
    app.select_file("f".to_string());
    app.target_ip = "10.0.0.9".to_string();
    app.apply_event(AppEvent::BleDeviceFound(device("Laptop", 5)));
    app.select_device(Some(0));
    assert!(matches!(app.send_clicked(true), SendAction::ByBluetooth { file_path, device }
        if file_path == "f" && device.name == "Laptop" && device.address == 5));
    assert!(matches!(app.send_clicked(false), SendAction::ByNetwork { .. }));
    app.select_device(Some(3));
    assert!(matches!(app.send_clicked(true), SendAction::ByNetwork { .. }));
}

#[test]
fn a_request_is_shown_on_the_receiving_side_only() {
    let mut app = App::new();
    let (request, _peer) = pending();
    app.apply_event(AppEvent::IncomingRequest(request));
    assert!(app.pending_request().is_none());
    app.enter_receiver_mode();
    let shown = app.pending_request().unwrap();
    assert_eq!(shown.peer_ip, "10.0.0.2");
    assert_eq!(shown.request.file_name, "foto.png");
}

#[test]
fn a_rejected_request_is_told_no() {
    let mut app = App::new();
    let (request, peer) = pending();
    app.apply_event(AppEvent::IncomingRequest(request));
    assert!(app.reject_request().is_some());
    assert_eq!(peer.hear().unwrap(), vec![0]);
    assert_eq!(app.receiver_status, "Transferencia rechazada.");
    assert!(app.incoming_request.is_none());
    assert!(app.reject_request().is_none());
}

#[test]
fn an_accepted_request_is_handed_over() {
    let mut app = App::new();
    let (request, peer) = pending();
    app.apply_event(AppEvent::IncomingRequest(request));
    let taken = app.accept_request();
    assert_eq!(taken.request.file_size, 5);
    assert!(app.incoming_request.is_none());
    assert_eq!(app.receiver_status, "Recibiendo archivo en segundo plano...");
    assert!(peer.hear().is_none());
}

#[test]
fn a_bluetooth_offer_waits_for_the_user() {
    let mut app = App::new();
    assert_eq!(app.accept_ble_offer(), None);
    assert_eq!(app.receiver_status, "Apagado");
    app.apply_event(AppEvent::BleOfferReceived(BleOffer {
        name: "foto".to_string(),
        size: 3,
        decision: 8,
    }));
    assert!(app.pending_ble_offer().is_none());
    app.enter_receiver_mode();
    assert_eq!(app.pending_ble_offer().unwrap().size, 3);
    assert_eq!(app.accept_ble_offer(), Some(8));
    assert_eq!(app.receiver_status, "Creando hotspot temporal...");
    assert!(app.pending_ble_offer().is_none());
    assert_eq!(app.reject_ble_offer(), None);
    assert_eq!(app.receiver_status, "Solicitud Bluetooth rechazada.");
    app.apply_event(AppEvent::BleOfferReceived(BleOffer {
        name: "foto".to_string(),
        size: 3,
        decision: 9,
    }));
    assert_eq!(app.reject_ble_offer(), Some(9));
}
