use aircore::ble_flow::{
    network_opened, BleSendEvent, BleSendFlow, BleSendTask, OfferEvent, OfferState, OfferTask,
};
use aircore::ble_transport::HotspotResponse;
use aircore::error::AirError;
use aircore::flow::{Notice, TransferEvent, TransferFlow, TransferTask};
use aircore::status::ReceiverStage;

fn texts(notices: Vec<Notice>) -> Vec<String> {
    notices
        .into_iter()
        .map(|n| match n {
            Notice::Stage(stage) => stage.text(),
            Notice::Code(code) => format!("#{}", code),
        })
        .collect()
}

#[test]
fn a_transfer_goes_its_way() {
    let mut flow = TransferFlow::new("10.0.0.2", "/home/yo/foto.png");
    let (shown, task) = flow.next(TransferEvent::Opened { file_size: 77 });
    assert_eq!(texts(shown), vec!["Conectando a 10.0.0.2:5000..."]);
    assert!(matches!(task, TransferTask::Connect { address } if address == "10.0.0.2:5000"));
    let (shown, task) = flow.next(TransferEvent::Connected);
    assert_eq!(texts(shown), vec!["Estableciendo canal cifrado..."]);
    assert!(matches!(task, TransferTask::Handshake));
    let (shown, task) =
        flow.next(TransferEvent::Secured { verification_code: "012345".to_string() });
    assert_eq!(texts(shown), vec!["#012345", "Esperando aprobación del receptor..."]);
    assert!(matches!(task, TransferTask::Offer { file_name, file_size }
        if file_name == "foto.png" && file_size == 77));
    let (shown, task) = flow.next(TransferEvent::Answered { approved: true });
    assert_eq!(texts(shown), vec!["¡Aceptado! Transmitiendo datos..."]);
    assert!(matches!(task, TransferTask::SendFile));
    let (shown, task) = flow.next(TransferEvent::Sent);
    assert_eq!(texts(shown), vec!["¡Transferencia completada con éxito!"]);
    assert!(matches!(task, TransferTask::Stop));
}

#[test]
fn a_no_ends_the_transfer() {
    let mut flow = TransferFlow::new("10.0.0.2", "f");
    flow.next(TransferEvent::Opened { file_size: 1 });
    flow.next(TransferEvent::Connected);
    flow.next(TransferEvent::Secured { verification_code: "000000".to_string() });
    let (shown, task) = flow.next(TransferEvent::Answered { approved: false });
    assert_eq!(texts(shown), vec!["El receptor rechazó la transferencia."]);
    assert!(matches!(task, TransferTask::Stop));
}

#[test]
fn a_failure_ends_the_transfer_at_every_step() {
    let ok = || {
        vec![
            TransferEvent::Opened { file_size: 1 },
            TransferEvent::Connected,
            TransferEvent::Secured { verification_code: "000000".to_string() },
            TransferEvent::Answered { approved: true },
        ]
    };
    for steps in 0..5usize {
        let mut flow = TransferFlow::new("10.0.0.2", "f");
        for event in ok().into_iter().take(steps) {
            flow.next(event);
        }
        let (shown, task) = flow.next(TransferEvent::Failed(AirError::UnexpectedChunk));
        assert_eq!(texts(shown), vec!["Error: chunk inesperado"]);
        assert!(matches!(task, TransferTask::Stop));
    }
}

fn agreed() -> HotspotResponse {
    HotspotResponse::Accepted { ssid: "red".to_string(), password: "clave".to_string() }
}

#[test]
fn the_way_over_bluetooth_leads_to_a_transfer() {
    let mut flow = BleSendFlow::new("Laptop", 0xAB, "dir/foto.png");
    let (shown, task) = flow.next(BleSendEvent::Measured { file_size: 9 });
    assert_eq!(texts(shown), vec!["Conectando por Bluetooth a 'Laptop'..."]);
    assert!(matches!(task, BleSendTask::Link { address: 0xAB }));
    let (shown, task) = flow.next(BleSendEvent::Linked);
    assert_eq!(texts(shown), vec!["Negociando con el receptor por Bluetooth..."]);
    assert!(matches!(task, BleSendTask::Negotiate { file_name, file_size: 9 }
        if file_name == "foto.png"));
    let (shown, task) = flow.next(BleSendEvent::Negotiated(agreed()));
    assert_eq!(
        texts(shown),
        vec!["Aceptado. Uniéndose a la red 'red'... (perderás tu conexión actual)"]
    );
    assert!(matches!(task, BleSendTask::Join { ssid, password }
        if ssid == "red" && password == "clave"));
    let (shown, task) = flow.next(BleSendEvent::Joined);
    assert_eq!(texts(shown), vec!["Conectado. Buscando al receptor en la red temporal..."]);
    assert!(matches!(task, BleSendTask::FindReceiver));
    let (shown, task) = flow.next(BleSendEvent::Searched { ip: Some("10.0.0.3".to_string()) });
    assert!(shown.is_empty());
    assert!(matches!(task, BleSendTask::Transfer { ip } if ip == "10.0.0.3"));
}

#[test]
fn the_way_over_bluetooth_can_end_early() {
    let mut flow = BleSendFlow::new("Laptop", 1, "f");
    flow.next(BleSendEvent::Measured { file_size: 9 });
    flow.next(BleSendEvent::Linked);
    let (shown, task) = flow.next(BleSendEvent::Negotiated(HotspotResponse::Rejected));
    assert_eq!(texts(shown), vec!["El receptor rechazó la solicitud (Bluetooth)."]);
    assert!(matches!(task, BleSendTask::Stop));

    let mut flow = BleSendFlow::new("Laptop", 1, "f");
    flow.next(BleSendEvent::Measured { file_size: 9 });
    flow.next(BleSendEvent::Linked);
    flow.next(BleSendEvent::Negotiated(agreed()));
    flow.next(BleSendEvent::Joined);
    let (shown, task) = flow.next(BleSendEvent::Searched { ip: None });
    assert_eq!(
        texts(shown),
        vec!["Error (Bluetooth): no se encontró al receptor en la red del hotspot"]
    );
    assert!(matches!(task, BleSendTask::Stop));

    let mut flow = BleSendFlow::new("Laptop", 1, "f");
    let (shown, task) = flow.next(BleSendEvent::Failed(AirError::BleTimeout));
    assert_eq!(texts(shown), vec!["Error (Bluetooth): timeout esperando datos BLE"]);
    assert!(matches!(task, BleSendTask::Stop));
}

#[test]
fn an_offer_is_served() {
    let (state, stage, task) = OfferState::Starting.next(OfferEvent::Started);
    assert!(matches!(stage, Some(ReceiverStage::ListeningWithBle)));
    assert!(matches!(task, OfferTask::AcceptOffer));
    let (state, stage, task) =
        state.next(OfferEvent::Offered { name: "foto".to_string(), size: 4 });
    assert!(stage.is_none());
    assert!(matches!(task, OfferTask::AskUser { name, size: 4 } if name == "foto"));
    let decision = Some(("red".to_string(), "clave".to_string()));
    let (state, stage, task) = state.next(OfferEvent::Decided(decision));
    assert!(stage.is_none());
    assert!(matches!(task, OfferTask::Respond(HotspotResponse::Accepted { ssid, password })
        if ssid == "red" && password == "clave"));
    let (state, stage, task) = state.next(OfferEvent::Answered);
    assert!(stage.is_none());
    assert!(matches!(task, OfferTask::StopServer));
    assert!(state == OfferState::Over);
}

#[test]
fn an_offer_can_fail() {
    let (state, stage, task) =
        OfferState::Starting.next(OfferEvent::Failed(AirError::NoBluetoothAdapter));
    assert!(state == OfferState::Over);
    assert_eq!(
        stage.unwrap().text(),
        "Advertencia: no se pudo iniciar el servidor Bluetooth \
         (No se encontró ningún adaptador Bluetooth)"
    );
    assert!(matches!(task, OfferTask::Nothing));
    let (_, stage, task) = OfferState::Waiting.next(OfferEvent::Failed(AirError::InvalidOffer));
    assert_eq!(
        stage.unwrap().text(),
        "No se completó ninguna negociación Bluetooth: oferta inválida"
    );
    assert!(matches!(task, OfferTask::StopServer));
    let (_, stage, task) = OfferState::Waiting.next(OfferEvent::Failed(AirError::OfferTooLarge));
    assert_eq!(
        stage.unwrap().text(),
        "No se completó ninguna negociación Bluetooth: oferta demasiado grande"
    );
    assert!(matches!(task, OfferTask::StopServer));
    let (_, _, task) = OfferState::Deciding.next(OfferEvent::Decided(None));
    assert!(matches!(task, OfferTask::Respond(HotspotResponse::Rejected)));
}

#[test]
fn a_network_is_passed_on_if_it_opened() {
    let (decision, stage) = network_opened("red".to_string(), "clave".to_string(), Ok(()));
    assert_eq!(decision, Some(("red".to_string(), "clave".to_string())));
    assert_eq!(
        stage.text(),
        "Hotspot 'red' activo. Esperando a que el emisor se conecte..."
    );
    let (decision, stage) =
        network_opened("red".to_string(), "clave".to_string(), Err(AirError::BleTimeout));
    assert_eq!(decision, None);
    assert_eq!(stage.text(), "No se pudo crear el hotspot: timeout esperando datos BLE");
}
