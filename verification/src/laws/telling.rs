//! Laws of what is told: errors, their categories, and the stages of a transfer.

use crate::error::{
    check_status, io_error_kind_of, io_text, noise_error_debug, AirError, FailureKind, StatusCheck,
    WindowsArea,
};
use crate::status::{reception_stage, scan_stage, search_stage, ReceiverStage, SenderStage};
use vstd::prelude::*;

verus! {

/// The category of an error: the transport's own, invalid data for whatever came in wrong, not
/// found for whatever is not there, a refused permission, a timeout, and other.
pub proof fn law_errors_have_their_category(e: &AirError, k: FailureKind)
    requires
        call_ensures(AirError::kind, (e,), k),
    ensures
        *e matches AirError::Io(io) ==> k == FailureKind::OfTransport(io_error_kind_of(io)),
        *e is FrameTooLarge || *e is UnexpectedChunk || *e is InvalidOffer || *e is OfferTooLarge
            || *e is InvalidResponse <==> k is InvalidData,
        *e is ReceiverNotFound || *e is NoBluetoothAdapter || *e is NetworkNotFound <==> k
            is NotFound,
        *e is BleTimeout <==> k is TimedOut,
        (*e matches AirError::Status { check, status } && check == StatusCheck::WifiAccess) <==> k
            is PermissionDenied,
        *e is Io <==> k is OfTransport,
{
}

/// A status other than success is an error that carries what was checked and what was reported.
pub proof fn law_status_decides(
    check: StatusCheck,
    success: bool,
    status: &str,
    r: Result<(), AirError>,
)
    requires
        call_ensures(check_status, (check, success, status), r),
    ensures
        success <==> r is Ok,
        !success ==> (r matches Err(AirError::Status { check: c, status: s }) && c == check && s@
            == status@),
{
}

/// What is told of an error holds all that is known of it.
pub proof fn law_errors_are_told_in_full(e: &AirError, text: String)
    requires
        call_ensures(AirError::message, (e,), text),
    ensures
        *e matches AirError::Io(io) ==> io_text(io, text@),
        *e matches AirError::Noise(n) ==> text@ == "Error de cifrado: "@ + noise_error_debug(n),
        *e matches AirError::NetworkNotFound { ssid } ==> text@ == "No se encontró la red '"@
            + ssid@ + "' en el escaneo"@,
        *e matches AirError::Status { check, status } ==> text@ == match check {
            StatusCheck::GattService => "No se pudo obtener el servicio AirCore: "@,
            StatusCheck::Notifications => "No se pudo activar notificaciones: "@,
            StatusCheck::GattProvider => "No se pudo crear el GattServiceProvider: "@,
            StatusCheck::HotspotPublisher => "El publisher no llegó a estado Started: "@,
            StatusCheck::WifiAccess => "Acceso Wi-Fi no permitido: "@,
        } + status@,
        *e matches AirError::Windows { area, context, detail } ==> text@ == match area {
            WindowsArea::Bluetooth => "Error de Windows Bluetooth en ["@,
            WindowsArea::GattServer => "Error de Windows GATT en ["@,
            WindowsArea::GattClient => "Error de Windows GATT (cliente) en ["@,
            WindowsArea::BleTransport => "Error de Windows BLE-transport en ["@,
            WindowsArea::WifiDirect => "Error de Windows Wi-Fi Direct en ["@,
        } + context@ + "]: "@ + detail@,
        *e is InvalidNoiseParams ==> text@ == "parámetros Noise inválidos"@,
        *e is FrameTooLarge ==> text@ == "frame demasiado grande"@,
        *e is UnexpectedChunk ==> text@ == "chunk inesperado"@,
        *e is InvalidOffer ==> text@ == "oferta inválida"@,
        *e is OfferTooLarge ==> text@ == "oferta demasiado grande"@,
        *e is InvalidResponse ==> text@ == "respuesta inválida del Host"@,
        *e is ReceiverNotFound ==> text@ == "no se encontró al receptor en la red del hotspot"@,
        *e is NoBluetoothAdapter ==> text@ == "No se encontró ningún adaptador Bluetooth"@,
        *e is BleTimeout ==> text@ == "timeout esperando datos BLE"@,
{
}

/// `text` is what is told of an error, with something in front, and perhaps behind. What is told of
/// a transport's error depends on the operating system, and of any other it is `detail`.
pub open spec fn tells(
    text: Seq<char>,
    front: Seq<char>,
    e: AirError,
    detail: String,
    behind: Seq<char>,
) -> bool {
    &&& e matches AirError::Io(io) ==> exists|d: Seq<char>| #[trigger]
        io_text(io, d) && text == front + d + behind
    &&& !(e is Io) && call_ensures(AirError::message, (&e,), detail) ==> text == front + detail@
        + behind
}

proof fn lemma_tells(
    text: Seq<char>,
    front: Seq<char>,
    e: AirError,
    detail: String,
    behind: Seq<char>,
)
    requires
        exists|d: Seq<char>| #[trigger] e.told_as(d) && text == front + d + behind,
    ensures
        tells(text, front, e, detail, behind),
{
    let d = choose|d: Seq<char>| #[trigger] e.told_as(d) && text == front + d + behind;
    if let AirError::Io(io) = e {
        assert(io_text(io, d));
    }
}

proof fn lemma_tells_at_the_end(text: Seq<char>, front: Seq<char>, e: AirError, detail: String)
    requires
        exists|d: Seq<char>| #[trigger] e.told_as(d) && text == front + d,
    ensures
        tells(text, front, e, detail, Seq::empty()),
{
    let d = choose|d: Seq<char>| #[trigger] e.told_as(d) && text == front + d;
    assert(front + d + Seq::<char>::empty() =~= front + d);
    lemma_tells(text, front, e, detail, Seq::empty());
}

/// What a sender is told names the receiver, the device, the network and the error that it is
/// about, whatever they are, and is another text for each stage.
pub proof fn law_sender_is_told_what_happens(stage: &SenderStage, text: String, detail: String)
    requires
        call_ensures(SenderStage::text, (stage,), text),
    ensures
        *stage matches SenderStage::Found { ip } ==> text@ == "IP_DETECTADA:"@ + ip@,
        *stage matches SenderStage::BleConnecting { device } ==> text@
            == "Conectando por Bluetooth a '"@ + device@ + "'..."@,
        *stage matches SenderStage::JoiningNetwork { ssid } ==> text@
            == "Aceptado. Uniéndose a la red '"@ + ssid@ + "'... (perderás tu conexión actual)"@,
        *stage matches SenderStage::Connecting { address } ==> text@ == "Conectando a "@ + address@
            + "..."@,
        *stage matches SenderStage::BleFailed(e) ==> tells(
            text@,
            "Error (Bluetooth): "@,
            e,
            detail,
            Seq::empty(),
        ),
        *stage matches SenderStage::Failed(e) ==> tells(
            text@,
            "Error: "@,
            e,
            detail,
            Seq::empty(),
        ),
        *stage is NobodyFound ==> text@ == "No se encontró ningún receptor por red."@,
        *stage is BleScanDone ==> text@ == "Escaneo BLE finalizado."@,
        *stage is BleScanFailed ==> text@ == "Error al iniciar el escáner Bluetooth."@,
        *stage is BleNegotiating ==> text@ == "Negociando con el receptor por Bluetooth..."@,
        *stage is BleRejected ==> text@ == "El receptor rechazó la solicitud (Bluetooth)."@,
        *stage is SearchingInHotspot ==> text@
            == "Conectado. Buscando al receptor en la red temporal..."@,
        *stage is Handshake ==> text@ == "Estableciendo canal cifrado..."@,
        *stage is AwaitingApproval ==> text@ == "Esperando aprobación del receptor..."@,
        *stage is Rejected ==> text@ == "El receptor rechazó la transferencia."@,
        *stage is Transmitting ==> text@ == "¡Aceptado! Transmitiendo datos..."@,
        *stage is Completed ==> text@ == "¡Transferencia completada con éxito!"@,
{
    if let SenderStage::BleFailed(e) = *stage {
        lemma_tells_at_the_end(text@, "Error (Bluetooth): "@, e, detail);
    }
    if let SenderStage::Failed(e) = *stage {
        lemma_tells_at_the_end(text@, "Error: "@, e, detail);
    }
}

/// What a receiver is told names the file, the network and the error that it is about, whatever
/// they are, and is another text for each stage.
pub proof fn law_receiver_is_told_what_happens(
    stage: &ReceiverStage,
    text: String,
    detail: String,
)
    requires
        call_ensures(ReceiverStage::text, (stage,), text),
    ensures
        *stage is Listening ==> text@ == "Escuchando en puertos 5000 (TCP) y 5001 (UDP)..."@,
        *stage is ListeningWithBle ==> text@
            == "Escuchando (TCP 5000, UDP 5001) + BLE listo para una oferta..."@,
        *stage is Corrupt ==> text@ == "¡Error de integridad SHA-256!"@,
        *stage matches ReceiverStage::HotspotActive { ssid } ==> text@ == "Hotspot '"@ + ssid@
            + "' activo. Esperando a que el emisor se conecte..."@,
        *stage matches ReceiverStage::Received { file_name } ==> text@
            == "¡Recibido y verificado: "@ + file_name@ + "!"@,
        *stage matches ReceiverStage::UdpUnavailable(e) ==> tells(
            text@,
            "Error: no se pudo abrir el puerto UDP 5001 ("@,
            e,
            detail,
            ")."@,
        ),
        *stage matches ReceiverStage::TcpUnavailable(e) ==> tells(
            text@,
            "Error: no se pudo abrir el puerto TCP 5000 ("@,
            e,
            detail,
            ")."@,
        ),
        *stage matches ReceiverStage::BleUnavailable(e) ==> tells(
            text@,
            "Advertencia: no se pudo iniciar el servidor Bluetooth ("@,
            e,
            detail,
            ")"@,
        ),
        *stage matches ReceiverStage::BleNegotiationFailed(e) ==> tells(
            text@,
            "No se completó ninguna negociación Bluetooth: "@,
            e,
            detail,
            Seq::empty(),
        ),
        *stage matches ReceiverStage::HotspotFailed(e) ==> tells(
            text@,
            "No se pudo crear el hotspot: "@,
            e,
            detail,
            Seq::empty(),
        ),
        *stage matches ReceiverStage::Failed(e) ==> tells(
            text@,
            "Error en recepción: "@,
            e,
            detail,
            Seq::empty(),
        ),
{
    if let ReceiverStage::UdpUnavailable(e) = *stage {
        lemma_tells(text@, "Error: no se pudo abrir el puerto UDP 5001 ("@, e, detail, ")."@);
    }
    if let ReceiverStage::TcpUnavailable(e) = *stage {
        lemma_tells(text@, "Error: no se pudo abrir el puerto TCP 5000 ("@, e, detail, ")."@);
    }
    if let ReceiverStage::BleUnavailable(e) = *stage {
        lemma_tells(
            text@,
            "Advertencia: no se pudo iniciar el servidor Bluetooth ("@,
            e,
            detail,
            ")"@,
        );
    }
    if let ReceiverStage::BleNegotiationFailed(e) = *stage {
        lemma_tells_at_the_end(
            text@,
            "No se completó ninguna negociación Bluetooth: "@,
            e,
            detail,
        );
    }
    if let ReceiverStage::HotspotFailed(e) = *stage {
        lemma_tells_at_the_end(text@, "No se pudo crear el hotspot: "@, e, detail);
    }
    if let ReceiverStage::Failed(e) = *stage {
        lemma_tells_at_the_end(text@, "Error en recepción: "@, e, detail);
    }
}

/// A file is told as received, under its name, only where its digest was right; where it was
/// wrong, it is told as corrupt, and a failure with its error.
pub proof fn law_only_a_verified_file_is_received(
    file_name: &str,
    outcome: Result<bool, AirError>,
    stage: ReceiverStage,
)
    requires
        call_ensures(reception_stage, (file_name, outcome), stage),
    ensures
        stage is Received <==> outcome == Ok::<bool, AirError>(true),
        stage matches ReceiverStage::Received { file_name: n } ==> n@ == file_name@,
        stage is Corrupt <==> outcome == Ok::<bool, AirError>(false),
        outcome matches Err(e) ==> stage == ReceiverStage::Failed(e),
{
}

/// How a search ended is told as it was: with the address that was found, or with none.
pub proof fn law_search_is_told_as_it_ended(
    found: Option<String>,
    stage: SenderStage,
    started: bool,
    scan: SenderStage,
)
    requires
        call_ensures(search_stage, (found,), stage),
        call_ensures(scan_stage, (started,), scan),
    ensures
        found matches Some(ip) ==> (stage matches SenderStage::Found { ip: shown } && shown@ == ip@),
        found is None ==> stage is NobodyFound,
        started ==> scan is BleScanDone,
        !started ==> scan is BleScanFailed,
{
}

} // verus!
