//! What the user is told along the way.

use crate::error::AirError;
use crate::text::{join, join3};
use vstd::prelude::*;

verus! {

/// What a status begins with when it carries the address of a receiver that was found.
pub const FOUND_PREFIX: &'static str = "IP_DETECTADA:";

/// A stage of sending.
pub enum SenderStage {
    /// A receiver answered on the network.
    Found { ip: String },
    /// Nobody answered on the network.
    NobodyFound,
    BleScanDone,
    BleScanFailed,
    BleConnecting { device: String },
    BleNegotiating,
    BleRejected,
    JoiningNetwork { ssid: String },
    SearchingInHotspot,
    /// The way over Bluetooth failed.
    BleFailed(AirError),
    Connecting { address: String },
    Handshake,
    AwaitingApproval,
    Rejected,
    Transmitting,
    Completed,
    /// The transfer failed.
    Failed(AirError),
}

/// A [`SenderStage`] with its texts in view.
pub enum SenderStageView {
    Found { ip: Seq<char> },
    NobodyFound,
    BleScanDone,
    BleScanFailed,
    BleConnecting { device: Seq<char> },
    BleNegotiating,
    BleRejected,
    JoiningNetwork { ssid: Seq<char> },
    SearchingInHotspot,
    BleFailed(AirError),
    Connecting { address: Seq<char> },
    Handshake,
    AwaitingApproval,
    Rejected,
    Transmitting,
    Completed,
    Failed(AirError),
}

impl View for SenderStage {
    type V = SenderStageView;

    open spec fn view(&self) -> SenderStageView {
        match *self {
            SenderStage::Found { ip } => SenderStageView::Found { ip: ip@ },
            SenderStage::NobodyFound => SenderStageView::NobodyFound,
            SenderStage::BleScanDone => SenderStageView::BleScanDone,
            SenderStage::BleScanFailed => SenderStageView::BleScanFailed,
            SenderStage::BleConnecting { device } => SenderStageView::BleConnecting {
                device: device@,
            },
            SenderStage::BleNegotiating => SenderStageView::BleNegotiating,
            SenderStage::BleRejected => SenderStageView::BleRejected,
            SenderStage::JoiningNetwork { ssid } => SenderStageView::JoiningNetwork {
                ssid: ssid@,
            },
            SenderStage::SearchingInHotspot => SenderStageView::SearchingInHotspot,
            SenderStage::BleFailed(e) => SenderStageView::BleFailed(e),
            SenderStage::Connecting { address } => SenderStageView::Connecting {
                address: address@,
            },
            SenderStage::Handshake => SenderStageView::Handshake,
            SenderStage::AwaitingApproval => SenderStageView::AwaitingApproval,
            SenderStage::Rejected => SenderStageView::Rejected,
            SenderStage::Transmitting => SenderStageView::Transmitting,
            SenderStage::Completed => SenderStageView::Completed,
            SenderStage::Failed(e) => SenderStageView::Failed(e),
        }
    }
}

impl SenderStage {
    /// Whether `text` is how this stage is told to the user.
    pub open spec fn told_as(self, text: Seq<char>) -> bool {
        match self {
            SenderStage::Found { ip } => text == FOUND_PREFIX@ + ip@,
            SenderStage::NobodyFound => text == "No se encontró ningún receptor por red."@,
            SenderStage::BleScanDone => text == "Escaneo BLE finalizado."@,
            SenderStage::BleScanFailed => text == "Error al iniciar el escáner Bluetooth."@,
            SenderStage::BleConnecting { device } => text == "Conectando por Bluetooth a '"@
                + device@ + "'..."@,
            SenderStage::BleNegotiating => text
                == "Negociando con el receptor por Bluetooth..."@,
            SenderStage::BleRejected => text == "El receptor rechazó la solicitud (Bluetooth)."@,
            SenderStage::JoiningNetwork { ssid } => text == "Aceptado. Uniéndose a la red '"@
                + ssid@ + "'... (perderás tu conexión actual)"@,
            SenderStage::SearchingInHotspot => text
                == "Conectado. Buscando al receptor en la red temporal..."@,
            SenderStage::BleFailed(e) => exists|detail: Seq<char>| #[trigger]
                e.told_as(detail) && text == "Error (Bluetooth): "@ + detail,
            SenderStage::Connecting { address } => text == "Conectando a "@ + address@ + "..."@,
            SenderStage::Handshake => text == "Estableciendo canal cifrado..."@,
            SenderStage::AwaitingApproval => text == "Esperando aprobación del receptor..."@,
            SenderStage::Rejected => text == "El receptor rechazó la transferencia."@,
            SenderStage::Transmitting => text == "¡Aceptado! Transmitiendo datos..."@,
            SenderStage::Completed => text == "¡Transferencia completada con éxito!"@,
            SenderStage::Failed(e) => exists|detail: Seq<char>| #[trigger]
                e.told_as(detail) && text == "Error: "@ + detail,
        }
    }

    /// The text shown to the user.
    pub fn text(&self) -> (text: String)
        ensures
            self.told_as(text@),
    {
        match self {
            SenderStage::Found { ip } => join(FOUND_PREFIX, ip.as_str()),
            SenderStage::NobodyFound => "No se encontró ningún receptor por red.".to_owned(),
            SenderStage::BleScanDone => "Escaneo BLE finalizado.".to_owned(),
            SenderStage::BleScanFailed => "Error al iniciar el escáner Bluetooth.".to_owned(),
            SenderStage::BleConnecting { device } => {
                join3("Conectando por Bluetooth a '", device.as_str(), "'...")
            },
            SenderStage::BleNegotiating => {
                "Negociando con el receptor por Bluetooth...".to_owned()
            },
            SenderStage::BleRejected => {
                "El receptor rechazó la solicitud (Bluetooth).".to_owned()
            },
            SenderStage::JoiningNetwork { ssid } => {
                join3(
                    "Aceptado. Uniéndose a la red '",
                    ssid.as_str(),
                    "'... (perderás tu conexión actual)",
                )
            },
            SenderStage::SearchingInHotspot => {
                "Conectado. Buscando al receptor en la red temporal...".to_owned()
            },
            SenderStage::BleFailed(e) => join("Error (Bluetooth): ", e.message().as_str()),
            SenderStage::Connecting { address } => {
                join3("Conectando a ", address.as_str(), "...")
            },
            SenderStage::Handshake => "Estableciendo canal cifrado...".to_owned(),
            SenderStage::AwaitingApproval => "Esperando aprobación del receptor...".to_owned(),
            SenderStage::Rejected => "El receptor rechazó la transferencia.".to_owned(),
            SenderStage::Transmitting => "¡Aceptado! Transmitiendo datos...".to_owned(),
            SenderStage::Completed => "¡Transferencia completada con éxito!".to_owned(),
            SenderStage::Failed(e) => join("Error: ", e.message().as_str()),
        }
    }
}

/// A stage of receiving.
pub enum ReceiverStage {
    Listening,
    ListeningWithBle,
    UdpUnavailable(AirError),
    TcpUnavailable(AirError),
    BleUnavailable(AirError),
    /// No offer came about over Bluetooth.
    BleNegotiationFailed(AirError),
    HotspotActive { ssid: String },
    HotspotFailed(AirError),
    /// A file arrived, and its digest is right.
    Received { file_name: String },
    /// A file arrived, and its digest is wrong.
    Corrupt,
    Failed(AirError),
}

impl ReceiverStage {
    /// Whether `text` is how this stage is told to the user.
    pub open spec fn told_as(self, text: Seq<char>) -> bool {
        match self {
            ReceiverStage::Listening => text
                == "Escuchando en puertos 5000 (TCP) y 5001 (UDP)..."@,
            ReceiverStage::ListeningWithBle => text
                == "Escuchando (TCP 5000, UDP 5001) + BLE listo para una oferta..."@,
            ReceiverStage::UdpUnavailable(e) => exists|detail: Seq<char>| #[trigger]
                e.told_as(detail) && text == "Error: no se pudo abrir el puerto UDP 5001 ("@
                    + detail + ")."@,
            ReceiverStage::TcpUnavailable(e) => exists|detail: Seq<char>| #[trigger]
                e.told_as(detail) && text == "Error: no se pudo abrir el puerto TCP 5000 ("@
                    + detail + ")."@,
            ReceiverStage::BleUnavailable(e) => exists|detail: Seq<char>| #[trigger]
                e.told_as(detail) && text
                    == "Advertencia: no se pudo iniciar el servidor Bluetooth ("@ + detail + ")"@,
            ReceiverStage::BleNegotiationFailed(e) => exists|detail: Seq<char>| #[trigger]
                e.told_as(detail) && text == "No se completó ninguna negociación Bluetooth: "@
                    + detail,
            ReceiverStage::HotspotActive { ssid } => text == "Hotspot '"@ + ssid@
                + "' activo. Esperando a que el emisor se conecte..."@,
            ReceiverStage::HotspotFailed(e) => exists|detail: Seq<char>| #[trigger]
                e.told_as(detail) && text == "No se pudo crear el hotspot: "@ + detail,
            ReceiverStage::Received { file_name } => text == "¡Recibido y verificado: "@
                + file_name@ + "!"@,
            ReceiverStage::Corrupt => text == "¡Error de integridad SHA-256!"@,
            ReceiverStage::Failed(e) => exists|detail: Seq<char>| #[trigger]
                e.told_as(detail) && text == "Error en recepción: "@ + detail,
        }
    }

    /// The text shown to the user.
    pub fn text(&self) -> (text: String)
        ensures
            self.told_as(text@),
    {
        match self {
            ReceiverStage::Listening => {
                "Escuchando en puertos 5000 (TCP) y 5001 (UDP)...".to_owned()
            },
            ReceiverStage::ListeningWithBle => {
                "Escuchando (TCP 5000, UDP 5001) + BLE listo para una oferta...".to_owned()
            },
            ReceiverStage::UdpUnavailable(e) => {
                join3("Error: no se pudo abrir el puerto UDP 5001 (", e.message().as_str(), ").")
            },
            ReceiverStage::TcpUnavailable(e) => {
                join3("Error: no se pudo abrir el puerto TCP 5000 (", e.message().as_str(), ").")
            },
            ReceiverStage::BleUnavailable(e) => {
                join3(
                    "Advertencia: no se pudo iniciar el servidor Bluetooth (",
                    e.message().as_str(),
                    ")",
                )
            },
            ReceiverStage::BleNegotiationFailed(e) => {
                join("No se completó ninguna negociación Bluetooth: ", e.message().as_str())
            },
            ReceiverStage::HotspotActive { ssid } => {
                join3(
                    "Hotspot '",
                    ssid.as_str(),
                    "' activo. Esperando a que el emisor se conecte...",
                )
            },
            ReceiverStage::HotspotFailed(e) => {
                join("No se pudo crear el hotspot: ", e.message().as_str())
            },
            ReceiverStage::Received { file_name } => {
                join3("¡Recibido y verificado: ", file_name.as_str(), "!")
            },
            ReceiverStage::Corrupt => "¡Error de integridad SHA-256!".to_owned(),
            ReceiverStage::Failed(e) => join("Error en recepción: ", e.message().as_str()),
        }
    }
}

/// `stage` is how the reception of a file ended.
pub open spec fn reception_ended(
    file_name: Seq<char>,
    outcome: Result<bool, AirError>,
    stage: ReceiverStage,
) -> bool {
    match outcome {
        Ok(true) => stage matches ReceiverStage::Received { file_name: n } && n@ == file_name,
        Ok(false) => stage is Corrupt,
        Err(e) => stage == ReceiverStage::Failed(e),
    }
}

/// How the reception of a file ended: whether it came through, and whether its digest is right.
pub fn reception_stage(file_name: &str, outcome: Result<bool, AirError>) -> (stage: ReceiverStage)
    ensures
        reception_ended(file_name@, outcome, stage),
{
    match outcome {
        Ok(verified) => {
            if verified {
                ReceiverStage::Received { file_name: file_name.to_owned() }
            } else {
                ReceiverStage::Corrupt
            }
        },
        Err(e) => ReceiverStage::Failed(e),
    }
}

/// How a search on the network ended.
pub fn search_stage(found: Option<String>) -> (stage: SenderStage)
    ensures
        found matches Some(ip) ==> stage == (SenderStage::Found { ip }),
        found is None ==> stage is NobodyFound,
{
    match found {
        Some(ip) => SenderStage::Found { ip },
        None => SenderStage::NobodyFound,
    }
}

/// How a search over Bluetooth ended: whether it could be started at all.
pub fn scan_stage(started: bool) -> (stage: SenderStage)
    ensures
        started ==> stage is BleScanDone,
        !started ==> stage is BleScanFailed,
{
    if started {
        SenderStage::BleScanDone
    } else {
        SenderStage::BleScanFailed
    }
}

} // verus!
