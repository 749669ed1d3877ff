use aircore::error::{check_status, AirError, FailureKind, StatusCheck, WindowsArea};
use aircore::hotspot::{find_network, generate_hotspot_credentials};
use aircore::lan::{is_receiver_reply, probe_reply, transfer_address, PROBE};
use aircore::status::{reception_stage, scan_stage, search_stage, ReceiverStage, SenderStage};
use aircore::transport::{frame_header, frame_length};

#[test]
fn a_probe_is_answered_and_the_answer_recognised() {
    let reply = probe_reply(PROBE.as_bytes()).unwrap();
    assert_eq!(reply, "ESTOY_AQUI_AIR_RECEIVER");
    assert!(is_receiver_reply(reply.as_bytes()));
    assert_eq!(PROBE, "BUSCANDO_AIR_RECEIVER");
}

#[test]
fn nothing_else_is_answered() {
    for other in [&b""[..], b"BUSCANDO_AIR_RECEIVE", b"BUSCANDO_AIR_RECEIVER ", b"\xff\xfe"] {
        assert!(probe_reply(other).is_none());
        assert!(!is_receiver_reply(other));
    }
    assert!(probe_reply(b"ESTOY_AQUI_AIR_RECEIVER").is_none());
    assert!(!is_receiver_reply(b"BUSCANDO_AIR_RECEIVER"));
    assert_eq!(transfer_address("10.0.0.2"), "10.0.0.2:5000");
}

#[test]
fn a_frame_carries_its_length() {
    assert_eq!(frame_header(b"abc"), vec![0, 0, 0, 3]);
    assert_eq!(frame_header(&vec![0u8; 70_000]), vec![0, 1, 0x11, 0x70]);
    assert_eq!(frame_length(&[0, 1, 0x11, 0x70], 70_000).ok(), Some(70_000));
    assert!(matches!(frame_length(&[0, 1, 0x11, 0x71], 70_000), Err(AirError::FrameTooLarge)));
    assert_eq!(frame_length(&[0, 0, 0, 0], 0).ok(), Some(0));
    assert!(matches!(frame_length(&[0xff; 4], 70_000), Err(AirError::FrameTooLarge)));
    assert_eq!(frame_length(&[0xff; 4], u32::MAX).ok(), Some(u32::MAX));
}

#[test]
fn credentials_come_from_clock_and_process() {
    let (ssid, password) = generate_hotspot_credentials(0x0123_4567_89AB_CDEF, 0);
    assert_eq!(ssid, "AirCore-ABCDEF");
    assert_eq!(password, "0123456789ABCDEF");
    let (ssid, password) = generate_hotspot_credentials(5, 0x10);
    assert_eq!(ssid, "AirCore-000005");
    assert_eq!(password, "0000001000000005");
    let nanos: u128 = 0xDEAD_0000_0000_0000_0000_1234;
    let pid: u32 = 4321;
    let seed = nanos as u64 ^ (pid as u64).rotate_left(32);
    let (ssid, password) = generate_hotspot_credentials(nanos, pid);
    assert_eq!(ssid, format!("AirCore-{:06X}", (seed & 0xFFFFFF) as u32));
    assert_eq!(password, format!("{:016X}", seed));
    assert_eq!(ssid.len(), 14);
    assert_eq!(password.len(), 16);
}

#[test]
fn the_first_network_of_that_name_is_joined() {
    let names = vec![
        Some("casa".to_string()),
        None,
        Some("AirCore-1".to_string()),
        Some("AirCore-1".to_string()),
    ];
    assert_eq!(find_network(&names, "AirCore-1").ok(), Some(2));
    match find_network(&names, "AirCore-2") {
        Err(e) => {
            assert_eq!(e.kind(), FailureKind::NotFound);
            assert_eq!(e.message(), "No se encontró la red 'AirCore-2' en el escaneo");
        }
        Ok(_) => panic!("found"),
    }
    assert!(find_network(&vec![], "").is_err());
}

#[test]
fn errors_are_told_in_words() {
    let io = std::io::Error::new(std::io::ErrorKind::Other, "cable cortado");
    assert_eq!(AirError::Io(io).message(), "cable cortado");
    assert_eq!(AirError::Noise(snow::Error::Decrypt).message(), "Error de cifrado: Decrypt");
    assert_eq!(AirError::InvalidNoiseParams.message(), "parámetros Noise inválidos");
    assert_eq!(AirError::FrameTooLarge.message(), "frame demasiado grande");
    assert_eq!(AirError::UnexpectedChunk.message(), "chunk inesperado");
    assert_eq!(AirError::InvalidOffer.message(), "oferta inválida");
    assert_eq!(AirError::OfferTooLarge.message(), "oferta demasiado grande");
    assert_eq!(AirError::InvalidResponse.message(), "respuesta inválida del Host");
    assert_eq!(
        AirError::ReceiverNotFound.message(),
        "no se encontró al receptor en la red del hotspot"
    );
    assert_eq!(
        AirError::NoBluetoothAdapter.message(),
        "No se encontró ningún adaptador Bluetooth"
    );
    assert_eq!(AirError::BleTimeout.message(), "timeout esperando datos BLE");
    let e = AirError::Windows {
        area: WindowsArea::GattServer,
        context: "provider.Service()".to_string(),
        detail: "E_FAIL".to_string(),
    };
    assert_eq!(e.message(), "Error de Windows GATT en [provider.Service()]: E_FAIL");
}

#[test]
fn errors_have_their_kinds() {
    assert_eq!(AirError::FrameTooLarge.kind(), FailureKind::InvalidData);
    assert_eq!(AirError::UnexpectedChunk.kind(), FailureKind::InvalidData);
    assert_eq!(AirError::InvalidOffer.kind(), FailureKind::InvalidData);
    assert_eq!(AirError::OfferTooLarge.kind(), FailureKind::InvalidData);
    for kind in [std::io::ErrorKind::NotFound, std::io::ErrorKind::ConnectionReset] {
        let io = std::io::Error::new(kind, "x");
        assert_eq!(AirError::Io(io).kind(), FailureKind::OfTransport(kind));
    }
    assert_eq!(AirError::InvalidResponse.kind(), FailureKind::InvalidData);
    assert_eq!(AirError::ReceiverNotFound.kind(), FailureKind::NotFound);
    assert_eq!(AirError::NoBluetoothAdapter.kind(), FailureKind::NotFound);
    assert_eq!(AirError::BleTimeout.kind(), FailureKind::TimedOut);
    assert_eq!(AirError::InvalidNoiseParams.kind(), FailureKind::Other);
    assert_eq!(AirError::Noise(snow::Error::Input).kind(), FailureKind::Other);
}

#[test]
fn a_status_other_than_success_is_an_error() {
    assert!(check_status(StatusCheck::WifiAccess, true, "Allowed").is_ok());
    let e = check_status(StatusCheck::WifiAccess, false, "DeniedByUser").err().unwrap();
    assert_eq!(e.kind(), FailureKind::PermissionDenied);
    assert_eq!(e.message(), "Acceso Wi-Fi no permitido: DeniedByUser");
    let e = check_status(StatusCheck::HotspotPublisher, false, "Aborted").err().unwrap();
    assert_eq!(e.kind(), FailureKind::Other);
    assert_eq!(e.message(), "El publisher no llegó a estado Started: Aborted");
    let e = check_status(StatusCheck::GattService, false, "X").err().unwrap();
    assert_eq!(e.message(), "No se pudo obtener el servicio AirCore: X");
    let e = check_status(StatusCheck::Notifications, false, "X").err().unwrap();
    assert_eq!(e.message(), "No se pudo activar notificaciones: X");
    let e = check_status(StatusCheck::GattProvider, false, "X").err().unwrap();
    assert_eq!(e.message(), "No se pudo crear el GattServiceProvider: X");
}

#[test]
fn a_search_ends_in_words() {
    assert_eq!(search_stage(Some("10.0.0.2".to_string())).text(), "IP_DETECTADA:10.0.0.2");
    assert_eq!(search_stage(None).text(), "No se encontró ningún receptor por red.");
    assert_eq!(scan_stage(true).text(), "Escaneo BLE finalizado.");
    assert_eq!(scan_stage(false).text(), "Error al iniciar el escáner Bluetooth.");
}

#[test]
fn a_reception_ends_in_words() {
    assert_eq!(reception_stage("foto.png", Ok(true)).text(), "¡Recibido y verificado: foto.png!");
    assert_eq!(reception_stage("foto.png", Ok(false)).text(), "¡Error de integridad SHA-256!");
    assert_eq!(
        reception_stage("foto.png", Err(AirError::UnexpectedChunk)).text(),
        "Error en recepción: chunk inesperado"
    );
}

#[test]
fn stages_are_told_in_words() {
    assert_eq!(
        SenderStage::Connecting { address: "10.0.0.2:5000".to_string() }.text(),
        "Conectando a 10.0.0.2:5000..."
    );
    assert_eq!(
        SenderStage::BleConnecting { device: "Laptop".to_string() }.text(),
        "Conectando por Bluetooth a 'Laptop'..."
    );
    assert_eq!(
        SenderStage::JoiningNetwork { ssid: "red".to_string() }.text(),
        "Aceptado. Uniéndose a la red 'red'... (perderás tu conexión actual)"
    );
    assert_eq!(
        SenderStage::BleFailed(AirError::ReceiverNotFound).text(),
        "Error (Bluetooth): no se encontró al receptor en la red del hotspot"
    );
    assert_eq!(SenderStage::Failed(AirError::FrameTooLarge).text(), "Error: frame demasiado grande");
    assert_eq!(
        ReceiverStage::TcpUnavailable(AirError::BleTimeout).text(),
        "Error: no se pudo abrir el puerto TCP 5000 (timeout esperando datos BLE)."
    );
    assert_eq!(
        ReceiverStage::HotspotActive { ssid: "red".to_string() }.text(),
        "Hotspot 'red' activo. Esperando a que el emisor se conecte..."
    );
    assert_eq!(
        ReceiverStage::BleUnavailable(AirError::BleTimeout).text(),
        "Advertencia: no se pudo iniciar el servidor Bluetooth (timeout esperando datos BLE)"
    );
}
