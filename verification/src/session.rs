//! The phases of a transfer.

use vstd::prelude::*;

verus! {

/// How far a transfer has come.
#[derive(Debug, Clone, PartialEq)]
pub enum SessionPhase {
    /// Nothing is going on.
    Idle,
    /// The receiver announces itself over Bluetooth.
    Advertising,
    /// The sender has offered a file.
    Offering { peer_name: String, file_name: String, file_size: u64 },
    /// The receiver is being asked, over Bluetooth.
    AwaitingBleApproval,
    /// Name and password of the temporary network are under way.
    ExchangingCredentials,
    /// The sender joins the temporary network.
    JoiningHotspot,
    /// The handshake, over Bluetooth or over the network.
    EstablishingSecureChannel,
    /// The receiver is being asked, with the code on the screen.
    AwaitingTransferApproval { verification_code: String },
    /// The file is under way.
    Transferring,
    /// All went well.
    Completed,
    /// Something went wrong.
    Failed { reason: String },
}

} // verus!
