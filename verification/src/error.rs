//! What can go wrong, and how it is told to the user.

use crate::text::{join, join3};
use vstd::prelude::*;
use vstd::string::StringExecFns;

verus! {

/// `std::io::Error`, carried through from a transport.
#[verifier::external_type_specification]
#[verifier::external_body]
pub struct ExIoError(std::io::Error);

/// `snow::Error`, carried through from the Noise library.
#[verifier::external_type_specification]
#[verifier::external_body]
pub struct ExSnowError(snow::Error);

/// `std::io::ErrorKind`, the category of a transport's error.
#[verifier::external_type_specification]
#[verifier::external_body]
pub struct ExIoErrorKind(std::io::ErrorKind);

/// A report of the operating system that has to say "success" before work goes on.
#[derive(Debug, Clone, Copy, PartialEq, Eq, Structural)]
pub enum StatusCheck {
    /// Looking up the AirCore service on a Bluetooth device.
    GattService,
    /// Turning notifications on.
    Notifications,
    /// Creating the GATT service provider.
    GattProvider,
    /// Starting the Wi-Fi Direct publisher.
    HotspotPublisher,
    /// Permission to use the Wi-Fi adapters.
    WifiAccess,
}

/// The part of the Windows API that an error came from.
#[derive(Debug, Clone, Copy, PartialEq, Eq, Structural)]
pub enum WindowsArea {
    Bluetooth,
    GattServer,
    GattClient,
    BleTransport,
    WifiDirect,
}

/// The category of an error.
#[derive(Debug, Clone, Copy, PartialEq, Eq)]
pub enum FailureKind {
    InvalidData,
    NotFound,
    PermissionDenied,
    TimedOut,
    Other,
    /// Whatever the transport says.
    OfTransport(std::io::ErrorKind),
}

/// Any failure of the library.
#[derive(Debug)]
pub enum AirError {
    /// The transport failed.
    Io(std::io::Error),
    /// The Noise library refused a message.
    Noise(snow::Error),
    /// The name of the Noise protocol was not understood.
    InvalidNoiseParams,
    /// A frame announces more bytes than the reader is willing to take.
    FrameTooLarge,
    /// A piece of a file is empty, or longer than what is still missing.
    UnexpectedChunk,
    /// An offer that does not decode.
    InvalidOffer,
    /// An offer of a file over the limit.
    OfferTooLarge,
    /// An answer to an offer that does not decode.
    InvalidResponse,
    /// Nobody answered on the temporary network.
    ReceiverNotFound,
    /// The machine has no Bluetooth adapter.
    NoBluetoothAdapter,
    /// The temporary network is not among those in range.
    NetworkNotFound { ssid: String },
    /// No Bluetooth data within the time limit.
    BleTimeout,
    /// The operating system reported something other than success.
    Status { check: StatusCheck, status: String },
    /// A call into the Windows API failed.
    Windows { area: WindowsArea, context: String, detail: String },
}

/// The category that a `std::io::Error` has.
pub uninterp spec fn io_error_kind_of(e: std::io::Error) -> std::io::ErrorKind;

/// Calls `std::io::Error::kind`: the category of an error, which depends on the error alone.
#[verifier::external_body]
fn io_error_kind(e: &std::io::Error) -> (kind: std::io::ErrorKind)
    ensures
        kind == io_error_kind_of(*e),
{
    e.kind()
}

/// Calls `to_string` of `std::io::Error`. The text depends on the operating system and its
/// language, so nothing is claimed of it.
#[verifier::external_body]
fn io_error_text(e: &std::io::Error) -> (s: String) {
    e.to_string()
}

/// `text` is what a `std::io::Error` says of itself: an outcome of the call itself, so that nothing
/// else can stand in for it.
pub closed spec fn io_text(e: std::io::Error, text: Seq<char>) -> bool {
    exists|s: String| #[trigger] call_ensures(io_error_text, (&e,), s) && s@ == text
}

/// The text of a `snow::Error` under `{:?}`.
pub uninterp spec fn noise_error_debug(e: snow::Error) -> Seq<char>;

/// Formats a `snow::Error` with `{:?}`, by its `Debug` impl. The text depends on the error alone.
#[verifier::external_body]
fn noise_error_text(e: &snow::Error) -> (s: String)
    ensures
        s@ == noise_error_debug(*e),
{
    format!("{:?}", e)
}

pub open spec fn status_prefix(check: StatusCheck) -> Seq<char> {
    match check {
        StatusCheck::GattService => "No se pudo obtener el servicio AirCore: "@,
        StatusCheck::Notifications => "No se pudo activar notificaciones: "@,
        StatusCheck::GattProvider => "No se pudo crear el GattServiceProvider: "@,
        StatusCheck::HotspotPublisher => "El publisher no llegó a estado Started: "@,
        StatusCheck::WifiAccess => "Acceso Wi-Fi no permitido: "@,
    }
}

pub open spec fn windows_prefix(area: WindowsArea) -> Seq<char> {
    match area {
        WindowsArea::Bluetooth => "Error de Windows Bluetooth en ["@,
        WindowsArea::GattServer => "Error de Windows GATT en ["@,
        WindowsArea::GattClient => "Error de Windows GATT (cliente) en ["@,
        WindowsArea::BleTransport => "Error de Windows BLE-transport en ["@,
        WindowsArea::WifiDirect => "Error de Windows Wi-Fi Direct en ["@,
    }
}

impl AirError {
    /// The category of this error. One of the transport keeps its own.
    pub open spec fn spec_kind(self) -> FailureKind {
        match self {
            AirError::Io(e) => FailureKind::OfTransport(io_error_kind_of(e)),
            AirError::Noise(_) => FailureKind::Other,
            AirError::InvalidNoiseParams => FailureKind::Other,
            AirError::FrameTooLarge => FailureKind::InvalidData,
            AirError::UnexpectedChunk => FailureKind::InvalidData,
            AirError::InvalidOffer => FailureKind::InvalidData,
            AirError::OfferTooLarge => FailureKind::InvalidData,
            AirError::InvalidResponse => FailureKind::InvalidData,
            AirError::ReceiverNotFound => FailureKind::NotFound,
            AirError::NoBluetoothAdapter => FailureKind::NotFound,
            AirError::NetworkNotFound { ssid: _ } => FailureKind::NotFound,
            AirError::BleTimeout => FailureKind::TimedOut,
            AirError::Status { check, status: _ } => if check == StatusCheck::WifiAccess {
                FailureKind::PermissionDenied
            } else {
                FailureKind::Other
            },
            AirError::Windows { area: _, context: _, detail: _ } => FailureKind::Other,
        }
    }

    /// The category of this error.
    pub fn kind(&self) -> (k: FailureKind)
        ensures
            k == self.spec_kind(),
    {
        match self {
            AirError::Io(e) => FailureKind::OfTransport(io_error_kind(e)),
            AirError::Noise(_) => FailureKind::Other,
            AirError::InvalidNoiseParams => FailureKind::Other,
            AirError::FrameTooLarge => FailureKind::InvalidData,
            AirError::UnexpectedChunk => FailureKind::InvalidData,
            AirError::InvalidOffer => FailureKind::InvalidData,
            AirError::OfferTooLarge => FailureKind::InvalidData,
            AirError::InvalidResponse => FailureKind::InvalidData,
            AirError::ReceiverNotFound => FailureKind::NotFound,
            AirError::NoBluetoothAdapter => FailureKind::NotFound,
            AirError::NetworkNotFound { ssid: _ } => FailureKind::NotFound,
            AirError::BleTimeout => FailureKind::TimedOut,
            AirError::Status { check, status: _ } => match check {
                StatusCheck::WifiAccess => FailureKind::PermissionDenied,
                _ => FailureKind::Other,
            },
            AirError::Windows { area: _, context: _, detail: _ } => FailureKind::Other,
        }
    }

    /// Whether `text` is how this error is told to the user.
    pub open spec fn told_as(self, text: Seq<char>) -> bool {
        match self {
            AirError::Io(e) => io_text(e, text),
            AirError::Noise(e) => text == "Error de cifrado: "@ + noise_error_debug(e),
            AirError::InvalidNoiseParams => text == "parámetros Noise inválidos"@,
            AirError::FrameTooLarge => text == "frame demasiado grande"@,
            AirError::UnexpectedChunk => text == "chunk inesperado"@,
            AirError::InvalidOffer => text == "oferta inválida"@,
            AirError::OfferTooLarge => text == "oferta demasiado grande"@,
            AirError::InvalidResponse => text == "respuesta inválida del Host"@,
            AirError::ReceiverNotFound => text
                == "no se encontró al receptor en la red del hotspot"@,
            AirError::NoBluetoothAdapter => text == "No se encontró ningún adaptador Bluetooth"@,
            AirError::NetworkNotFound { ssid } => text == "No se encontró la red '"@ + ssid@
                + "' en el escaneo"@,
            AirError::BleTimeout => text == "timeout esperando datos BLE"@,
            AirError::Status { check, status } => text == status_prefix(check) + status@,
            AirError::Windows { area, context, detail } => text == windows_prefix(area) + context@
                + "]: "@ + detail@,
        }
    }

    /// The text shown to the user.
    pub fn message(&self) -> (text: String)
        ensures
            self.told_as(text@),
    {
        match self {
            AirError::Io(e) => io_error_text(e),
            AirError::Noise(e) => {
                let detail = noise_error_text(e);
                join("Error de cifrado: ", detail.as_str())
            },
            AirError::InvalidNoiseParams => "parámetros Noise inválidos".to_owned(),
            AirError::FrameTooLarge => "frame demasiado grande".to_owned(),
            AirError::UnexpectedChunk => "chunk inesperado".to_owned(),
            AirError::InvalidOffer => "oferta inválida".to_owned(),
            AirError::OfferTooLarge => "oferta demasiado grande".to_owned(),
            AirError::InvalidResponse => "respuesta inválida del Host".to_owned(),
            AirError::ReceiverNotFound => {
                "no se encontró al receptor en la red del hotspot".to_owned()
            },
            AirError::NoBluetoothAdapter => "No se encontró ningún adaptador Bluetooth".to_owned(),
            AirError::NetworkNotFound { ssid } => {
                join3("No se encontró la red '", ssid.as_str(), "' en el escaneo")
            },
            AirError::BleTimeout => "timeout esperando datos BLE".to_owned(),
            AirError::Status { check, status } => {
                let prefix = match check {
                    StatusCheck::GattService => "No se pudo obtener el servicio AirCore: ",
                    StatusCheck::Notifications => "No se pudo activar notificaciones: ",
                    StatusCheck::GattProvider => "No se pudo crear el GattServiceProvider: ",
                    StatusCheck::HotspotPublisher => "El publisher no llegó a estado Started: ",
                    StatusCheck::WifiAccess => "Acceso Wi-Fi no permitido: ",
                };
                join(prefix, status.as_str())
            },
            AirError::Windows { area, context, detail } => {
                let prefix = match area {
                    WindowsArea::Bluetooth => "Error de Windows Bluetooth en [",
                    WindowsArea::GattServer => "Error de Windows GATT en [",
                    WindowsArea::GattClient => "Error de Windows GATT (cliente) en [",
                    WindowsArea::BleTransport => "Error de Windows BLE-transport en [",
                    WindowsArea::WifiDirect => "Error de Windows Wi-Fi Direct en [",
                };
                join3(prefix, context.as_str(), "]: ").concat(detail.as_str())
            },
        }
    }
}

/// What is told of a transport's error is what that error says of itself.
proof fn law_transport_speaks_for_itself(e: &AirError, io: std::io::Error, text: String)
    requires
        call_ensures(AirError::message, (e,), text),
        *e == AirError::Io(io),
    ensures
        exists|s: String| #[trigger] call_ensures(io_error_text, (&io,), s) && s@ == text@,
{
}

/// Turns the report of a status into a result.
pub fn check_status(check: StatusCheck, success: bool, status: &str) -> (r: Result<(), AirError>)
    ensures
        r is Ok <==> success,
        r matches Err(e) ==> (e matches AirError::Status { check: c, status: s } && c == check && s@
            == status@),
{
    if success {
        Ok(())
    } else {
        Err(AirError::Status { check, status: status.to_owned() })
    }
}

} // verus!
