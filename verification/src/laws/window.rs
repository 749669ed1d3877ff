//! Laws of the state behind the window.

use crate::app::{
    device_label, AirCoreApp, AppEvent, AppMode, AppView, BleDevice, BleOffer, PendingRequest,
    SendAction,
};
use crate::crypto::SecureChannel;
use crate::laws::channel::{digit_value, digits_value};
use crate::noise::noise_open;
use crate::status::{search_stage, SenderStage};
use crate::transport::{Transport, TransportEvent};
use vstd::prelude::*;

verus! {

/// Nothing changed of what the sending side shows.
pub open spec fn sender_side_kept<D>(pre: AppView<D>, post: AppView<D>) -> bool {
    &&& post.selected_file == pre.selected_file
    &&& post.target_ip == pre.target_ip
    &&& post.sender_status == pre.sender_status
    &&& post.sender_verification_code == pre.sender_verification_code
    &&& post.searching == pre.searching
}

/// Nothing changed of the devices on the list, nor of the one selected.
pub open spec fn devices_kept<D>(pre: AppView<D>, post: AppView<D>) -> bool {
    post.devices == pre.devices && post.selected_device == pre.selected_device
}

/// Nothing changed of what waits for a decision.
pub open spec fn waiting_kept<D>(pre: AppView<D>, post: AppView<D>) -> bool {
    post.incoming_request == pre.incoming_request && post.ble_offer == pre.ble_offer
}

/// Nothing changed of what the receiving side says of itself.
pub open spec fn receiver_kept<D>(pre: AppView<D>, post: AppView<D>) -> bool {
    post.receiver_listening == pre.receiver_listening && post.receiver_status
        == pre.receiver_status
}

/// A window opens on the sending side, with nothing selected, found or waiting.
pub proof fn law_window_opens_empty<T: Transport, D>(app: AirCoreApp<T, D>)
    requires
        call_ensures(AirCoreApp::<T, D>::new, (), app),
    ensures
        app.mode == AppMode::Sender,
        app.selected_file is None,
        app.target_ip@.len() == 0,
        app.sender_status@ == "Listo para enviar"@,
        app.sender_verification_code is None,
        !app.searching,
        !app.receiver_listening,
        app.incoming_request is None,
        app.receiver_status@ == "Apagado"@,
        app.discovered_ble_devices@.len() == 0,
        app.selected_ble_device_index is None,
        app.ble_offer is None,
{
    assert(app@.devices.len() == app.discovered_ble_devices@.len());
}

/// A request that came in waits for the decision, with everything that came with it, and nothing
/// else changes.
pub proof fn law_request_waits<T: Transport, D>(
    app: &mut AirCoreApp<T, D>,
    request: PendingRequest<T>,
)
    requires
        call_ensures(
            AirCoreApp::<T, D>::apply_event,
            (app, AppEvent::IncomingRequest(request)),
            (),
        ),
    ensures
        final(app)@.incoming_request matches Some(r) && r.peer_ip == request.peer_ip@
            && r.file_name == request.request.file_name@ && r.file_size
            == request.request.file_size && r.verification_code
            == request.request.verification_code@ && r.channel == request.request.channel@,
        final(app)@.mode == old(app)@.mode,
        final(app)@.ble_offer == old(app)@.ble_offer,
        sender_side_kept(old(app)@, final(app)@),
        devices_kept(old(app)@, final(app)@),
        receiver_kept(old(app)@, final(app)@),
{
}

/// An offer over Bluetooth that came in waits for the decision, and nothing else changes.
pub proof fn law_offer_waits<T: Transport, D>(app: &mut AirCoreApp<T, D>, offer: BleOffer<D>)
    requires
        call_ensures(
            AirCoreApp::<T, D>::apply_event,
            (app, AppEvent::BleOfferReceived(offer)),
            (),
        ),
    ensures
        final(app)@.ble_offer matches Some(o) && o.name == offer.name@ && o.size == offer.size
            && o.decision == offer.decision,
        final(app)@.mode == old(app)@.mode,
        final(app)@.incoming_request == old(app)@.incoming_request,
        sender_side_kept(old(app)@, final(app)@),
        devices_kept(old(app)@, final(app)@),
        receiver_kept(old(app)@, final(app)@),
{
}

/// A status is shown as it came; one that carries the address of a receiver makes that address the
/// target.
pub proof fn law_status_is_shown<T: Transport, D>(app: &mut AirCoreApp<T, D>, status: String)
    requires
        call_ensures(AirCoreApp::<T, D>::apply_event, (app, AppEvent::SenderStatus(status)), ()),
    ensures
        forall|ip: Seq<char>|
            status@ == #[trigger] ("IP_DETECTADA:"@ + ip) ==> final(app)@.target_ip == ip
                && final(app)@.sender_status == "¡Encontrado en IP: "@ + ip + "!"@,
        !(exists|ip: Seq<char>| status@ == #[trigger] ("IP_DETECTADA:"@ + ip))
            ==> final(app)@.sender_status == status@ && final(app)@.target_ip
            == old(app)@.target_ip,
        final(app)@.mode == old(app)@.mode,
        final(app)@.selected_file == old(app)@.selected_file,
        final(app)@.sender_verification_code == old(app)@.sender_verification_code,
        final(app)@.searching == old(app)@.searching,
        devices_kept(old(app)@, final(app)@),
        waiting_kept(old(app)@, final(app)@),
        receiver_kept(old(app)@, final(app)@),
{
    let prefix = "IP_DETECTADA:"@;
    assert forall|ip: Seq<char>| status@ == #[trigger] (prefix + ip) implies final(app)@.target_ip
        == ip && final(app)@.sender_status == "¡Encontrado en IP: "@ + ip + "!"@ by {
        assert(status@.take(prefix.len() as int) =~= prefix);
        assert(status@.skip(prefix.len() as int) =~= ip);
    }
    if crate::text::has_prefix(status@, prefix) {
        assert(status@ =~= prefix + status@.skip(prefix.len() as int));
    }
}

/// The address that a search found becomes the target, whatever it is, by way of what is told of
/// the search.
pub proof fn law_search_sets_the_target<T: Transport, D>(
    ip: String,
    stage: SenderStage,
    text: String,
    app: &mut AirCoreApp<T, D>,
)
    requires
        call_ensures(search_stage, (Some(ip),), stage),
        call_ensures(SenderStage::text, (&stage,), text),
        call_ensures(AirCoreApp::<T, D>::apply_event, (app, AppEvent::SenderStatus(text)), ()),
    ensures
        final(app)@.target_ip == ip@,
{
    law_status_is_shown(app, text);
    assert(text@ == "IP_DETECTADA:"@ + ip@);
}

/// The code of a transfer is shown as it came, and nothing else changes.
pub proof fn law_code_is_shown<T: Transport, D>(app: &mut AirCoreApp<T, D>, code: String)
    requires
        call_ensures(
            AirCoreApp::<T, D>::apply_event,
            (app, AppEvent::SenderVerificationCode(code)),
            (),
        ),
    ensures
        final(app)@.sender_verification_code == Some(code@),
        final(app)@.mode == old(app)@.mode,
        final(app)@.selected_file == old(app)@.selected_file,
        final(app)@.target_ip == old(app)@.target_ip,
        final(app)@.sender_status == old(app)@.sender_status,
        final(app)@.searching == old(app)@.searching,
        devices_kept(old(app)@, final(app)@),
        waiting_kept(old(app)@, final(app)@),
        receiver_kept(old(app)@, final(app)@),
{
}

/// What the receiving side has to say is shown as it came, and nothing else changes.
pub proof fn law_receiver_status_is_shown<T: Transport, D>(
    app: &mut AirCoreApp<T, D>,
    status: String,
)
    requires
        call_ensures(AirCoreApp::<T, D>::apply_event, (app, AppEvent::ReceiverStatus(status)), ()),
    ensures
        final(app)@.receiver_status == status@,
        final(app)@.receiver_listening == old(app)@.receiver_listening,
        final(app)@.mode == old(app)@.mode,
        sender_side_kept(old(app)@, final(app)@),
        devices_kept(old(app)@, final(app)@),
        waiting_kept(old(app)@, final(app)@),
{
}

/// A device that is not on the list is put at its end, with its name and its address; one that is,
/// by its address, changes nothing.
pub proof fn law_device_is_put_on_the_list<T: Transport, D>(
    app: &mut AirCoreApp<T, D>,
    device: BleDevice,
)
    requires
        call_ensures(AirCoreApp::<T, D>::apply_event, (app, AppEvent::BleDeviceFound(device)), ()),
    ensures
        (exists|i: int|
            0 <= i < old(app)@.devices.len() && (#[trigger] old(app)@.devices[i]).address
                == device.address) ==> final(app)@ == old(app)@,
        (forall|i: int|
            0 <= i < old(app)@.devices.len() ==> (#[trigger] old(app)@.devices[i]).address
                != device.address) ==> {
            &&& final(app)@.devices.len() == old(app)@.devices.len() + 1
            &&& final(app)@.devices.last().name == device.name@
            &&& final(app)@.devices.last().address == device.address
            &&& forall|i: int|
                0 <= i < old(app)@.devices.len() ==> #[trigger] final(app)@.devices[i]
                    == old(app)@.devices[i]
        },
        final(app)@.selected_device == old(app)@.selected_device,
        final(app)@.mode == old(app)@.mode,
        sender_side_kept(old(app)@, final(app)@),
        waiting_kept(old(app)@, final(app)@),
        receiver_kept(old(app)@, final(app)@),
{
}

/// What waits is shown on the receiving side only, and it is what came in.
pub proof fn law_waiting_is_shown_to_the_receiver<T: Transport, D>(
    app: &AirCoreApp<T, D>,
    request: Option<&PendingRequest<T>>,
    offer: Option<&BleOffer<D>>,
)
    requires
        call_ensures(AirCoreApp::<T, D>::pending_request, (app,), request),
        call_ensures(AirCoreApp::<T, D>::pending_ble_offer, (app,), offer),
    ensures
        app.mode == AppMode::Sender ==> request is None && offer is None,
        app.mode == AppMode::Receiver ==> (request is Some <==> app.incoming_request is Some) && (
        offer is Some <==> app.ble_offer is Some),
        request matches Some(shown) ==> (app.incoming_request matches Some(r)
            && shown.request.file_size == r.request.file_size && shown.request.file_name@
            == r.request.file_name@ && shown.request.verification_code@
            == r.request.verification_code@ && shown.peer_ip@ == r.peer_ip@),
        offer matches Some(shown) ==> (app.ble_offer matches Some(o) && shown.name@ == o.name@
            && shown.size == o.size),
{
}

/// The servers of the receiving side are started the first time, and then no more; the side that
/// is shown changes with [`AirCoreApp::enter_receiver_mode`] alone.
pub proof fn law_receiving_side_starts_once<T: Transport, D>(
    app: &mut AirCoreApp<T, D>,
    start: bool,
    shown: &mut AirCoreApp<T, D>,
    start_shown: bool,
)
    requires
        call_ensures(AirCoreApp::<T, D>::start_receiver_server, (app,), start),
        call_ensures(AirCoreApp::<T, D>::enter_receiver_mode, (shown,), start_shown),
    ensures
        start == !old(app)@.receiver_listening,
        final(app)@.receiver_listening,
        final(app)@.mode == old(app)@.mode,
        start ==> final(app)@.receiver_status == "Iniciando servidor y BLE..."@,
        !start ==> final(app)@ == old(app)@,
        sender_side_kept(old(app)@, final(app)@),
        devices_kept(old(app)@, final(app)@),
        waiting_kept(old(app)@, final(app)@),
        start_shown == !old(shown)@.receiver_listening,
        final(shown)@.receiver_listening,
        final(shown)@.mode == AppMode::Receiver,
        start_shown ==> final(shown)@.receiver_status == "Iniciando servidor y BLE..."@,
        !start_shown ==> final(shown)@.receiver_status == old(shown)@.receiver_status,
        sender_side_kept(old(shown)@, final(shown)@),
        devices_kept(old(shown)@, final(shown)@),
        waiting_kept(old(shown)@, final(shown)@),
{
}

/// The sending side is shown, and nothing else changes.
pub proof fn law_sending_side_is_shown<T: Transport, D>(app: &mut AirCoreApp<T, D>)
    requires
        call_ensures(AirCoreApp::<T, D>::enter_sender_mode, (app,), ()),
    ensures
        final(app)@.mode == AppMode::Sender,
        sender_side_kept(old(app)@, final(app)@),
        devices_kept(old(app)@, final(app)@),
        waiting_kept(old(app)@, final(app)@),
        receiver_kept(old(app)@, final(app)@),
{
}

/// A request that is turned down is gone, and its sender reads a no: the channel has one more frame
/// on record, which the other end reads as a zero.
pub proof fn law_turned_down_request_is_answered<T: Transport, D>(
    app: &mut AirCoreApp<T, D>,
    closed: Option<SecureChannel<T>>,
)
    requires
        call_ensures(AirCoreApp::<T, D>::reject_request, (app,), closed),
    ensures
        final(app)@.incoming_request is None,
        final(app)@.receiver_status == "Transferencia rechazada."@,
        final(app)@.receiver_listening == old(app)@.receiver_listening,
        final(app)@.ble_offer == old(app)@.ble_offer,
        final(app)@.mode == old(app)@.mode,
        sender_side_kept(old(app)@, final(app)@),
        devices_kept(old(app)@, final(app)@),
        closed is Some <==> old(app)@.incoming_request is Some,
        old(app)@.incoming_request matches Some(request) ==> (request.channel.session.send_nonce
            < 0xffff_ffff_ffff_ffff ==> (closed matches Some(channel) && channel@.trace.len()
            == request.channel.trace.len() + 1 && channel@.trace.drop_last()
            == request.channel.trace && (channel@.trace.last() matches TransportEvent::Send {
            frame,
            error,
        } && noise_open(
            request.channel.session.send_key,
            request.channel.session.send_nonce,
            frame,
        ) == Some(seq![0u8])))),
        old(app)@.incoming_request matches Some(request) ==> (request.channel.session.send_nonce
            == 0xffff_ffff_ffff_ffff ==> (closed matches Some(channel) && channel@
            == request.channel)),
{
    if let Some(request) = old(app)@.incoming_request {
        if let Some(channel) = closed {
            if request.channel.session.send_nonce < 0xffff_ffff_ffff_ffff {
                assert(channel@.trace.drop_last() =~= request.channel.trace);
                assert(seq![0u8] =~= crate::request::answer_bytes(false));
            }
        }
    }
}

/// A request that is accepted is handed out as it came in, and does not wait any more.
pub proof fn law_accepted_request_is_handed_out<T: Transport, D>(
    app: &mut AirCoreApp<T, D>,
    request: PendingRequest<T>,
)
    requires
        call_ensures(AirCoreApp::<T, D>::accept_request, (app,), request),
    ensures
        old(app)@.incoming_request matches Some(r) && r.peer_ip == request.peer_ip@ && r.file_name
            == request.request.file_name@ && r.file_size == request.request.file_size
            && r.verification_code == request.request.verification_code@ && r.channel
            == request.request.channel@,
        final(app)@.incoming_request is None,
        final(app)@.receiver_status == "Recibiendo archivo en segundo plano..."@,
        final(app)@.receiver_listening == old(app)@.receiver_listening,
        final(app)@.ble_offer == old(app)@.ble_offer,
        final(app)@.mode == old(app)@.mode,
        sender_side_kept(old(app)@, final(app)@),
        devices_kept(old(app)@, final(app)@),
{
}

/// Whatever is decided on an offer over Bluetooth, the way back to its sender is the one that came
/// with it, and the offer does not wait any more.
pub proof fn law_offer_is_decided_once<T: Transport, D>(
    refusing: &mut AirCoreApp<T, D>,
    refused: Option<D>,
    accepting: &mut AirCoreApp<T, D>,
    accepted: Option<D>,
)
    requires
        call_ensures(AirCoreApp::<T, D>::reject_ble_offer, (refusing,), refused),
        call_ensures(AirCoreApp::<T, D>::accept_ble_offer, (accepting,), accepted),
    ensures
        refused is Some <==> old(refusing)@.ble_offer is Some,
        refused matches Some(d) ==> (old(refusing)@.ble_offer matches Some(o) && o.decision == d),
        final(refusing)@.ble_offer is None,
        final(refusing)@.receiver_status == "Solicitud Bluetooth rechazada."@,
        final(refusing)@.receiver_listening == old(refusing)@.receiver_listening,
        final(refusing)@.incoming_request == old(refusing)@.incoming_request,
        final(refusing)@.mode == old(refusing)@.mode,
        sender_side_kept(old(refusing)@, final(refusing)@),
        devices_kept(old(refusing)@, final(refusing)@),
        accepted is Some <==> old(accepting)@.ble_offer is Some,
        accepted matches Some(d) ==> (old(accepting)@.ble_offer matches Some(o) && o.decision == d),
        final(accepting)@.ble_offer is None,
        accepted is Some ==> final(accepting)@.receiver_status == "Creando hotspot temporal..."@,
        accepted is None ==> final(accepting)@.receiver_status == old(accepting)@.receiver_status,
        final(accepting)@.receiver_listening == old(accepting)@.receiver_listening,
        final(accepting)@.incoming_request == old(accepting)@.incoming_request,
        final(accepting)@.mode == old(accepting)@.mode,
        sender_side_kept(old(accepting)@, final(accepting)@),
        devices_kept(old(accepting)@, final(accepting)@),
{
}

/// The file that was picked is selected, and nothing else changes.
pub proof fn law_picked_file_is_selected<T: Transport, D>(
    app: &mut AirCoreApp<T, D>,
    path: String,
)
    requires
        call_ensures(AirCoreApp::<T, D>::select_file, (app, path), ()),
    ensures
        final(app)@.selected_file == Some(path@),
        final(app)@.mode == old(app)@.mode,
        final(app)@.target_ip == old(app)@.target_ip,
        final(app)@.sender_status == old(app)@.sender_status,
        final(app)@.sender_verification_code == old(app)@.sender_verification_code,
        final(app)@.searching == old(app)@.searching,
        devices_kept(old(app)@, final(app)@),
        waiting_kept(old(app)@, final(app)@),
        receiver_kept(old(app)@, final(app)@),
{
}

/// The device at the chosen place is selected, and nothing else changes.
pub proof fn law_chosen_place_is_selected<T: Transport, D>(
    app: &mut AirCoreApp<T, D>,
    index: Option<usize>,
)
    requires
        call_ensures(AirCoreApp::<T, D>::select_device, (app, index), ()),
    ensures
        final(app)@.selected_device == index,
        final(app)@.devices == old(app)@.devices,
        final(app)@.mode == old(app)@.mode,
        sender_side_kept(old(app)@, final(app)@),
        waiting_kept(old(app)@, final(app)@),
        receiver_kept(old(app)@, final(app)@),
{
}

/// A search on the network is told and keeps what was found; a search over Bluetooth begins with
/// an empty list and nothing selected.
pub proof fn law_search_begins<T: Transport, D>(
    by_network: &mut AirCoreApp<T, D>,
    by_bluetooth: &mut AirCoreApp<T, D>,
)
    requires
        call_ensures(AirCoreApp::<T, D>::start_network_search, (by_network,), ()),
        call_ensures(AirCoreApp::<T, D>::start_ble_search, (by_bluetooth,), ()),
    ensures
        final(by_network)@.searching,
        final(by_network)@.sender_status == "Buscando receptores por red..."@,
        final(by_network)@.selected_file == old(by_network)@.selected_file,
        final(by_network)@.target_ip == old(by_network)@.target_ip,
        final(by_network)@.sender_verification_code == old(by_network)@.sender_verification_code,
        final(by_network)@.mode == old(by_network)@.mode,
        devices_kept(old(by_network)@, final(by_network)@),
        waiting_kept(old(by_network)@, final(by_network)@),
        receiver_kept(old(by_network)@, final(by_network)@),
        final(by_bluetooth)@.devices.len() == 0,
        final(by_bluetooth)@.selected_device is None,
        final(by_bluetooth)@.sender_status == "Escaneando dispositivos BLE cercanos..."@,
        final(by_bluetooth)@.searching == old(by_bluetooth)@.searching,
        final(by_bluetooth)@.selected_file == old(by_bluetooth)@.selected_file,
        final(by_bluetooth)@.target_ip == old(by_bluetooth)@.target_ip,
        final(by_bluetooth)@.sender_verification_code
            == old(by_bluetooth)@.sender_verification_code,
        final(by_bluetooth)@.mode == old(by_bluetooth)@.mode,
        waiting_kept(old(by_bluetooth)@, final(by_bluetooth)@),
        receiver_kept(old(by_bluetooth)@, final(by_bluetooth)@),
{
}

/// The place on the list that is selected, if there is such a place.
pub open spec fn place_selected<D>(v: AppView<D>, i: int) -> bool {
    0 <= i < v.devices.len() && v.selected_device == Some(i as usize) && i as usize == i
}

/// A click on "send" sends the selected file: over Bluetooth to the selected device, under its name
/// and address, where there is Bluetooth and a device is selected; else to the typed address;
/// and where there is no file or nobody to send it to, nothing is sent, and the reason is shown.
pub proof fn law_click_sends_the_selected_file<T: Transport, D>(
    app: &mut AirCoreApp<T, D>,
    bluetooth: bool,
    action: SendAction,
    i: int,
)
    requires
        call_ensures(AirCoreApp::<T, D>::send_clicked, (app, bluetooth), action),
    ensures
        old(app)@.selected_file is None ==> action is Nothing && final(app)@.sender_status
            == "Selecciona un archivo primero."@,
        old(app)@.selected_file matches Some(path) ==> (bluetooth && place_selected(old(app)@, i)
            ==> (action matches SendAction::ByBluetooth { file_path, device } && file_path@ == path
            && device.name@ == old(app)@.devices[i].name && device.address
            == old(app)@.devices[i].address)),
        old(app)@.selected_file matches Some(path) ==> (!bluetooth || (forall|k: int|
            !#[trigger] place_selected(old(app)@, k)) ==> if old(app)@.target_ip.len() > 0 {
            action matches SendAction::ByNetwork { file_path, ip } && file_path@ == path && ip@
                == old(app)@.target_ip
        } else {
            action is Nothing && final(app)@.sender_status
                == "Ingresa una IP, búscala por red, o selecciona un dispositivo BLE."@
        }),
        !(action is Nothing) ==> final(app)@.sender_verification_code is None
            && final(app)@.sender_status == old(app)@.sender_status,
        action is Nothing ==> final(app)@.sender_verification_code
            == old(app)@.sender_verification_code,
        final(app)@.selected_file == old(app)@.selected_file,
        final(app)@.target_ip == old(app)@.target_ip,
        final(app)@.searching == old(app)@.searching,
        final(app)@.mode == old(app)@.mode,
        devices_kept(old(app)@, final(app)@),
        waiting_kept(old(app)@, final(app)@),
        receiver_kept(old(app)@, final(app)@),
{
    if let Some(k) = old(app)@.selected_device {
        if k < old(app)@.devices.len() {
            assert(place_selected(old(app)@, k as int));
        }
    }
}

/// A device is shown by its name, followed by its address in hexadecimal digits, at least twelve,
/// in brackets.
pub proof fn law_label_tells_name_and_address(
    device: &BleDevice,
    label: String,
    n: int,
)
    requires
        call_ensures(device_label, (device,), label),
        n == device.name@.len(),
    ensures
        label@.len() >= n + 17,
        label@.take(n) == device.name@,
        label@.subrange(n, n + 4) == seq![' ', '(', '0', 'x'],
        label@.last() == ')',
        digits_value(label@.subrange(n + 4, label@.len() - 1), 16) == device.address,
        forall|i: int| n + 4 <= i < label@.len() - 1 ==> digit_value(#[trigger] label@[i]) >= 0,
{
    let digits = crate::text::padded_digits(device.address as nat, 16, 12);
    crate::laws::channel::lemma_padded_digits_value(device.address as nat, 16, 12);
    reveal_strlit(" (0x");
    reveal_strlit(")");
    assert(label@.take(n) =~= device.name@);
    assert(label@.subrange(n, n + 4) =~= seq![' ', '(', '0', 'x']);
    assert(label@.subrange(n + 4, label@.len() - 1) =~= digits);
    assert forall|i: int| n + 4 <= i < label@.len() - 1 implies digit_value(#[trigger] label@[i])
        >= 0 by {
        assert(label@[i] == digits[i - n - 4]);
    }
}

/// The list of devices, while it is closed, shows the device that is selected, as it is shown on
/// the list; else it says that there is none, or that one is to be chosen.
pub proof fn law_closed_list_shows_the_selection<T: Transport, D>(
    app: &AirCoreApp<T, D>,
    text: String,
    i: int,
    device: &BleDevice,
    label: String,
)
    requires
        call_ensures(AirCoreApp::<T, D>::ble_selection_text, (app,), text),
        call_ensures(device_label, (device,), label),
    ensures
        place_selected(app@, i) && device.name@ == app@.devices[i].name && device.address
            == app@.devices[i].address ==> text@ == label@,
        app@.selected_device is None && app@.devices.len() == 0 ==> text@ == "Ninguno encontrado"@,
        app@.selected_device is None && app@.devices.len() > 0 ==> text@
            == "Seleccionar dispositivo..."@,
        app@.selected_device matches Some(k) ==> (k >= app@.devices.len() ==> text@
            == "Seleccionar dispositivo..."@),
{
    if place_selected(app@, i) && device.name@ == app@.devices[i].name && device.address
        == app@.devices[i].address {
        assert(device@ == app@.devices[i]);
    }
}

} // verus!
