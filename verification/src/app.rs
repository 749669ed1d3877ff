//! The state behind the window: what is selected, what was found, what waits for a decision.

use crate::crypto::{channel_sent, ChannelView, SecureChannel};
use crate::error::AirError;
use crate::request::{answer_bytes, answer_request, IncomingRequest};
use crate::status::FOUND_PREFIX;
use crate::text::{format_digits, has_prefix, join3, padded_digits, strip_prefix, text_view};
use crate::transport::Transport;
use vstd::prelude::*;
use vstd::string::{StrSliceExecFns, StringExecFns};

verus! {

/// Which side of a transfer the window shows.
#[derive(Debug, Clone, Copy, PartialEq, Eq, Structural)]
pub enum AppMode {
    Sender,
    Receiver,
}

/// A receiver that was found over Bluetooth.
pub struct BleDevice {
    pub name: String,
    pub address: u64,
}

/// A [`BleDevice`] with its name in view.
#[verifier::ext_equal]
pub struct DeviceView {
    pub name: Seq<char>,
    pub address: u64,
}

impl View for BleDevice {
    type V = DeviceView;

    open spec fn view(&self) -> DeviceView {
        DeviceView { name: self.name@, address: self.address }
    }
}

impl BleDevice {
    fn copy(&self) -> (d: BleDevice)
        ensures
            d@ == self@,
    {
        BleDevice { name: self.name.as_str().to_owned(), address: self.address }
    }
}

/// A request over the network, and where it came from.
pub struct PendingRequest<T: Transport> {
    pub peer_ip: String,
    pub request: IncomingRequest<T>,
}

/// A [`PendingRequest`] in view.
#[verifier::ext_equal]
pub struct RequestView {
    pub peer_ip: Seq<char>,
    pub file_name: Seq<char>,
    pub file_size: u64,
    pub verification_code: Seq<char>,
    pub channel: ChannelView,
}

impl<T: Transport> View for PendingRequest<T> {
    type V = RequestView;

    open spec fn view(&self) -> RequestView {
        RequestView {
            peer_ip: self.peer_ip@,
            file_name: self.request.file_name@,
            file_size: self.request.file_size,
            verification_code: self.request.verification_code@,
            channel: self.request.channel@,
        }
    }
}

/// An offer over Bluetooth. `decision` is the way back to whoever waits for the answer.
pub struct BleOffer<D> {
    pub name: String,
    pub size: u64,
    pub decision: D,
}

/// A [`BleOffer`] with its name in view.
#[verifier::ext_equal]
#[verifier::reject_recursive_types(D)]
pub struct OfferView<D> {
    pub name: Seq<char>,
    pub size: u64,
    pub decision: D,
}

impl<D> View for BleOffer<D> {
    type V = OfferView<D>;

    open spec fn view(&self) -> OfferView<D> {
        OfferView { name: self.name@, size: self.size, decision: self.decision }
    }
}

/// What the threads in the background have to tell.
pub enum AppEvent<T: Transport, D> {
    IncomingRequest(PendingRequest<T>),
    SenderStatus(String),
    SenderVerificationCode(String),
    ReceiverStatus(String),
    BleDeviceFound(BleDevice),
    BleOfferReceived(BleOffer<D>),
}

/// An [`AppEvent`] with its texts in view.
#[verifier::reject_recursive_types(D)]
pub enum EventView<D> {
    IncomingRequest(RequestView),
    SenderStatus(Seq<char>),
    SenderVerificationCode(Seq<char>),
    ReceiverStatus(Seq<char>),
    BleDeviceFound(DeviceView),
    BleOfferReceived(OfferView<D>),
}

impl<T: Transport, D> View for AppEvent<T, D> {
    type V = EventView<D>;

    open spec fn view(&self) -> EventView<D> {
        match self {
            AppEvent::IncomingRequest(request) => EventView::IncomingRequest(request@),
            AppEvent::SenderStatus(s) => EventView::SenderStatus(s@),
            AppEvent::SenderVerificationCode(s) => EventView::SenderVerificationCode(s@),
            AppEvent::ReceiverStatus(s) => EventView::ReceiverStatus(s@),
            AppEvent::BleDeviceFound(d) => EventView::BleDeviceFound(d@),
            AppEvent::BleOfferReceived(offer) => EventView::BleOfferReceived(offer@),
        }
    }
}

/// What a click on "send" leads to.
pub enum SendAction {
    Nothing,
    /// Over Bluetooth, and then over the network that is made for it.
    ByBluetooth { file_path: String, device: BleDevice },
    /// Straight over the network.
    ByNetwork { file_path: String, ip: String },
}

/// A [`SendAction`] with its texts in view.
pub enum SendActionView {
    Nothing,
    ByBluetooth { file_path: Seq<char>, device: DeviceView },
    ByNetwork { file_path: Seq<char>, ip: Seq<char> },
}

impl View for SendAction {
    type V = SendActionView;

    open spec fn view(&self) -> SendActionView {
        match self {
            SendAction::Nothing => SendActionView::Nothing,
            SendAction::ByBluetooth { file_path, device } => SendActionView::ByBluetooth {
                file_path: file_path@,
                device: device@,
            },
            SendAction::ByNetwork { file_path, ip } => SendActionView::ByNetwork {
                file_path: file_path@,
                ip: ip@,
            },
        }
    }
}

/// All that can change while the window is open.
pub struct AirCoreApp<T: Transport, D> {
    pub mode: AppMode,
    pub selected_file: Option<String>,
    pub target_ip: String,
    pub sender_status: String,
    pub sender_verification_code: Option<String>,
    pub searching: bool,
    pub receiver_listening: bool,
    pub incoming_request: Option<PendingRequest<T>>,
    pub receiver_status: String,
    pub discovered_ble_devices: Vec<BleDevice>,
    pub selected_ble_device_index: Option<usize>,
    pub ble_offer: Option<BleOffer<D>>,
}

/// An [`AirCoreApp`] in view.
#[verifier::ext_equal]
#[verifier::reject_recursive_types(D)]
pub struct AppView<D> {
    pub mode: AppMode,
    pub selected_file: Option<Seq<char>>,
    pub target_ip: Seq<char>,
    pub sender_status: Seq<char>,
    pub sender_verification_code: Option<Seq<char>>,
    pub searching: bool,
    pub receiver_listening: bool,
    pub incoming_request: Option<RequestView>,
    pub receiver_status: Seq<char>,
    pub devices: Seq<DeviceView>,
    pub selected_device: Option<usize>,
    pub ble_offer: Option<OfferView<D>>,
}

/// Devices with their names in view.
pub open spec fn device_views(devices: Seq<BleDevice>) -> Seq<DeviceView> {
    Seq::new(devices.len(), |i: int| devices[i]@)
}

impl<T: Transport, D> View for AirCoreApp<T, D> {
    type V = AppView<D>;

    open spec fn view(&self) -> AppView<D> {
        AppView {
            mode: self.mode,
            selected_file: text_view(self.selected_file),
            target_ip: self.target_ip@,
            sender_status: self.sender_status@,
            sender_verification_code: text_view(self.sender_verification_code),
            searching: self.searching,
            receiver_listening: self.receiver_listening,
            incoming_request: match self.incoming_request {
                Some(request) => Some(request@),
                None => None,
            },
            receiver_status: self.receiver_status@,
            devices: device_views(self.discovered_ble_devices@),
            selected_device: self.selected_ble_device_index,
            ble_offer: match self.ble_offer {
                Some(offer) => Some(offer@),
                None => None,
            },
        }
    }
}

/// Whether a device with that address is on the list.
pub open spec fn knows_device(devices: Seq<DeviceView>, address: u64) -> bool {
    exists|i: int| 0 <= i < devices.len() && (#[trigger] devices[i]).address == address
}

impl<D> AppView<D> {
    /// What always holds: no device is listed twice, and what can be answered goes over a sound
    /// channel.
    pub open spec fn wf(self) -> bool {
        &&& forall|i: int, j: int|
            0 <= i < j < self.devices.len() ==> (#[trigger] self.devices[i]).address != (
            #[trigger] self.devices[j]).address
        &&& self.incoming_request matches Some(request) ==> request.channel.wf()
    }

    /// The state after an event.
    pub open spec fn after(self, event: EventView<D>) -> AppView<D> {
        match event {
            EventView::IncomingRequest(request) => AppView {
                incoming_request: Some(request),
                ..self
            },
            EventView::SenderStatus(status) => if has_prefix(status, FOUND_PREFIX@) {
                let ip = status.skip(FOUND_PREFIX@.len() as int);
                AppView {
                    target_ip: ip,
                    sender_status: "¡Encontrado en IP: "@ + ip + "!"@,
                    ..self
                }
            } else {
                AppView { sender_status: status, ..self }
            },
            EventView::SenderVerificationCode(code) => AppView {
                sender_verification_code: Some(code),
                ..self
            },
            EventView::ReceiverStatus(status) => AppView { receiver_status: status, ..self },
            EventView::BleDeviceFound(device) => if knows_device(self.devices, device.address) {
                self
            } else {
                AppView { devices: self.devices.push(device), ..self }
            },
            EventView::BleOfferReceived(offer) => AppView { ble_offer: Some(offer), ..self },
        }
    }

    /// The state after the receiving side was started, and whether there was anything to start.
    pub open spec fn started(self) -> (AppView<D>, bool) {
        if self.receiver_listening {
            (self, false)
        } else {
            (
                AppView {
                    receiver_listening: true,
                    receiver_status: "Iniciando servidor y BLE..."@,
                    ..self
                },
                true,
            )
        }
    }

    /// The device that is selected, if there is one.
    pub open spec fn chosen_device(self) -> Option<DeviceView> {
        match self.selected_device {
            Some(i) => if i < self.devices.len() {
                Some(self.devices[i as int])
            } else {
                None
            },
            None => None,
        }
    }

    /// The state after a click on "send", and what it leads to. A device that is selected goes
    /// before an address that was typed, where there is Bluetooth.
    pub open spec fn send_pressed(self, bluetooth: bool) -> (AppView<D>, SendActionView) {
        match self.selected_file {
            None => (
                AppView { sender_status: "Selecciona un archivo primero."@, ..self },
                SendActionView::Nothing,
            ),
            Some(file_path) => if bluetooth && self.chosen_device() is Some {
                (
                    AppView { sender_verification_code: None, ..self },
                    SendActionView::ByBluetooth { file_path, device: self.chosen_device()->0 },
                )
            } else if self.target_ip.len() == 0 {
                (
                    AppView {
                        sender_status:
                            "Ingresa una IP, búscala por red, o selecciona un dispositivo BLE."@,
                        ..self
                    },
                    SendActionView::Nothing,
                )
            } else {
                (
                    AppView { sender_verification_code: None, ..self },
                    SendActionView::ByNetwork { file_path, ip: self.target_ip },
                )
            },
        }
    }

    /// What stands on the list of devices while it is closed.
    pub open spec fn selection_text(self) -> Seq<char> {
        match self.chosen_device() {
            Some(device) => label_of(device),
            None => if self.selected_device is None && self.devices.len() == 0 {
                "Ninguno encontrado"@
            } else {
                "Seleccionar dispositivo..."@
            },
        }
    }
}

/// How a device is shown: its name, and its address in at least twelve hexadecimal digits.
pub open spec fn label_of(device: DeviceView) -> Seq<char> {
    device.name + " (0x"@ + padded_digits(device.address as nat, 16, 12) + ")"@
}

/// How a device is shown.
pub fn device_label(device: &BleDevice) -> (label: String)
    ensures
        label@ == label_of(device@),
{
    let digits = format_digits(device.address, 16, 12);
    join3(device.name.as_str(), " (0x", digits.as_str()).concat(")")
}

/// A no was sent over a channel, or tried to.
pub open spec fn refused_over(pre: ChannelView, post: ChannelView) -> bool {
    ||| channel_sent(pre, answer_bytes(false), post, Ok(()))
    ||| exists|e: AirError| #[trigger] channel_sent(pre, answer_bytes(false), post, Err(e))
}

impl<T: Transport, D> AirCoreApp<T, D> {
    /// The state of a window just opened.
    pub fn new() -> (app: AirCoreApp<T, D>)
        ensures
            app@.wf(),
            app@ == (AppView::<D> {
                mode: AppMode::Sender,
                selected_file: None,
                target_ip: Seq::empty(),
                sender_status: "Listo para enviar"@,
                sender_verification_code: None,
                searching: false,
                receiver_listening: false,
                incoming_request: None,
                receiver_status: "Apagado"@,
                devices: Seq::empty(),
                selected_device: None,
                ble_offer: None,
            }),
    {
        let app = AirCoreApp {
            mode: AppMode::Sender,
            selected_file: None,
            target_ip: String::new(),
            sender_status: "Listo para enviar".to_owned(),
            sender_verification_code: None,
            searching: false,
            receiver_listening: false,
            incoming_request: None,
            receiver_status: "Apagado".to_owned(),
            discovered_ble_devices: Vec::new(),
            selected_ble_device_index: None,
            ble_offer: None,
        };
        proof {
            assert(app@.devices =~= Seq::<DeviceView>::empty());
            assert(app@.target_ip =~= Seq::<char>::empty());
        }
        app
    }

    fn has_device(&self, address: u64) -> (known: bool)
        ensures
            known == knows_device(self@.devices, address),
    {
        let mut i: usize = 0;
        while i < self.discovered_ble_devices.len()
            invariant
                i <= self.discovered_ble_devices@.len(),
                forall|j: int|
                    0 <= j < i ==> (#[trigger] self@.devices[j]).address != address,
            decreases self.discovered_ble_devices@.len() - i,
        {
            if self.discovered_ble_devices[i].address == address {
                assert(self@.devices[i as int].address == address);
                return true;
            }
            i += 1;
        }
        false
    }

    /// Takes note of what a thread in the background had to tell.
    pub fn apply_event(&mut self, event: AppEvent<T, D>)
        requires
            old(self)@.wf(),
            event@ matches EventView::IncomingRequest(request) ==> request.channel.wf(),
        ensures
            final(self)@.wf(),
            final(self)@ == old(self)@.after(event@),
    {
        match event {
            AppEvent::IncomingRequest(request) => {
                self.incoming_request = Some(request);
            },
            AppEvent::SenderStatus(status) => {
                match strip_prefix(status.as_str(), FOUND_PREFIX) {
                    Some(ip) => {
                        self.sender_status = join3("¡Encontrado en IP: ", ip.as_str(), "!");
                        self.target_ip = ip;
                    },
                    None => {
                        self.sender_status = status;
                    },
                }
            },
            AppEvent::SenderVerificationCode(code) => {
                self.sender_verification_code = Some(code);
            },
            AppEvent::ReceiverStatus(status) => {
                self.receiver_status = status;
            },
            AppEvent::BleDeviceFound(device) => {
                if !self.has_device(device.address) {
                    self.discovered_ble_devices.push(device);
                    proof {
                        assert(self@.devices =~= old(self)@.devices.push(device@));
                    }
                }
            },
            AppEvent::BleOfferReceived(offer) => {
                self.ble_offer = Some(offer);
            },
        }
    }

    /// Marks the receiving side as started, and tells whether its servers are to be started: only
    /// the first time.
    pub fn start_receiver_server(&mut self) -> (start: bool)
        ensures
            (final(self)@, start) == old(self)@.started(),
    {
        if self.receiver_listening {
            return false;
        }
        self.receiver_listening = true;
        self.receiver_status = "Iniciando servidor y BLE...".to_owned();
        true
    }

    /// Shows the receiving side, and tells whether its servers are to be started.
    pub fn enter_receiver_mode(&mut self) -> (start: bool)
        ensures
            (final(self)@, start) == (AppView { mode: AppMode::Receiver, ..old(self)@ }).started(),
    {
        self.mode = AppMode::Receiver;
        self.start_receiver_server()
    }

    /// Shows the sending side.
    pub fn enter_sender_mode(&mut self)
        ensures
            final(self)@ == (AppView { mode: AppMode::Sender, ..old(self)@ }),
    {
        self.mode = AppMode::Sender;
    }

    /// The request to show to the user: only on the receiving side.
    pub fn pending_request(&self) -> (request: Option<&PendingRequest<T>>)
        ensures
            self.mode == AppMode::Receiver ==> (match request {
                Some(r) => self@.incoming_request == Some(r@),
                None => self@.incoming_request is None,
            }),
            self.mode == AppMode::Sender ==> request is None,
    {
        match self.mode {
            AppMode::Receiver => match &self.incoming_request {
                Some(request) => Some(request),
                None => None,
            },
            AppMode::Sender => None,
        }
    }

    /// Turns the pending request down. The channel that the no went over is handed back.
    pub fn reject_request(&mut self) -> (closed: Option<SecureChannel<T>>)
        requires
            old(self)@.wf(),
        ensures
            final(self)@.wf(),
            final(self)@ == (AppView {
                incoming_request: None,
                receiver_status: "Transferencia rechazada."@,
                ..old(self)@
            }),
            old(self)@.incoming_request is None ==> closed is None,
            old(self)@.incoming_request matches Some(request) ==> (closed matches Some(channel)
                && refused_over(request.channel, channel@)),
    {
        let pending = self.incoming_request.take();
        self.receiver_status = "Transferencia rechazada.".to_owned();
        match pending {
            Some(request) => {
                let mut channel = request.request.channel;
                let _sent = answer_request(&mut channel, false);
                Some(channel)
            },
            None => None,
        }
    }

    /// Takes the pending request, to receive its file in the background.
    pub fn accept_request(&mut self) -> (request: PendingRequest<T>)
        requires
            old(self)@.incoming_request is Some,
        ensures
            old(self)@.incoming_request == Some(request@),
            final(self)@ == (AppView {
                incoming_request: None,
                receiver_status: "Recibiendo archivo en segundo plano..."@,
                ..old(self)@
            }),
    {
        let pending = self.incoming_request.take();
        self.receiver_status = "Recibiendo archivo en segundo plano...".to_owned();
        pending.unwrap()
    }

    /// The Bluetooth offer to show to the user: only on the receiving side.
    pub fn pending_ble_offer(&self) -> (offer: Option<&BleOffer<D>>)
        ensures
            self.mode == AppMode::Receiver ==> (match offer {
                Some(o) => self@.ble_offer == Some(o@),
                None => self@.ble_offer is None,
            }),
            self.mode == AppMode::Sender ==> offer is None,
    {
        match self.mode {
            AppMode::Receiver => match &self.ble_offer {
                Some(offer) => Some(offer),
                None => None,
            },
            AppMode::Sender => None,
        }
    }

    /// Turns the Bluetooth offer down, and gives back the way to say so.
    pub fn reject_ble_offer(&mut self) -> (decision: Option<D>)
        ensures
            old(self)@.ble_offer matches Some(offer) ==> decision == Some(offer.decision),
            old(self)@.ble_offer is None ==> decision is None,
            final(self)@ == (AppView {
                ble_offer: None,
                receiver_status: "Solicitud Bluetooth rechazada."@,
                ..old(self)@
            }),
    {
        let offer = self.ble_offer.take();
        self.receiver_status = "Solicitud Bluetooth rechazada.".to_owned();
        match offer {
            Some(o) => Some(o.decision),
            None => None,
        }
    }

    /// Accepts the Bluetooth offer, if there is one, and gives back the way to say so once there
    /// is a network.
    pub fn accept_ble_offer(&mut self) -> (decision: Option<D>)
        ensures
            old(self)@.ble_offer matches Some(offer) ==> decision == Some(offer.decision)
                && final(self)@ == (AppView {
                ble_offer: None,
                receiver_status: "Creando hotspot temporal..."@,
                ..old(self)@
            }),
            old(self)@.ble_offer is None ==> decision is None && final(self)@ == old(self)@,
    {
        match self.ble_offer.take() {
            Some(offer) => {
                self.receiver_status = "Creando hotspot temporal...".to_owned();
                Some(offer.decision)
            },
            None => None,
        }
    }

    /// Takes note of the file that was picked.
    pub fn select_file(&mut self, path: String)
        ensures
            final(self)@ == (AppView { selected_file: Some(path@), ..old(self)@ }),
    {
        self.selected_file = Some(path);
    }

    /// A search on the network begins.
    pub fn start_network_search(&mut self)
        ensures
            final(self)@ == (AppView {
                searching: true,
                sender_status: "Buscando receptores por red..."@,
                ..old(self)@
            }),
    {
        self.searching = true;
        self.sender_status = "Buscando receptores por red...".to_owned();
    }

    /// A search over Bluetooth begins: what an earlier one found is forgotten.
    pub fn start_ble_search(&mut self)
        ensures
            final(self)@ == (AppView {
                sender_status: "Escaneando dispositivos BLE cercanos..."@,
                devices: Seq::empty(),
                selected_device: None,
                ..old(self)@
            }),
    {
        self.sender_status = "Escaneando dispositivos BLE cercanos...".to_owned();
        self.discovered_ble_devices = Vec::new();
        self.selected_ble_device_index = None;
        proof {
            assert(self@.devices =~= Seq::<DeviceView>::empty());
        }
    }

    /// Selects a device from the list, or none, to go by the typed address.
    pub fn select_device(&mut self, index: Option<usize>)
        ensures
            final(self)@ == (AppView { selected_device: index, ..old(self)@ }),
    {
        self.selected_ble_device_index = index;
    }

    fn selected_device(&self) -> (device: Option<&BleDevice>)
        ensures
            match device {
                Some(d) => self@.chosen_device() == Some(d@),
                None => self@.chosen_device() is None,
            },
    {
        match self.selected_ble_device_index {
            Some(i) => {
                if i < self.discovered_ble_devices.len() {
                    Some(&self.discovered_ble_devices[i])
                } else {
                    None
                }
            },
            None => None,
        }
    }

    /// What stands on the list of devices while it is closed.
    pub fn ble_selection_text(&self) -> (text: String)
        ensures
            text@ == self@.selection_text(),
    {
        match self.selected_device() {
            Some(device) => device_label(device),
            None => {
                if self.selected_ble_device_index.is_none() && self.discovered_ble_devices.len()
                    == 0 {
                    "Ninguno encontrado".to_owned()
                } else {
                    "Seleccionar dispositivo...".to_owned()
                }
            },
        }
    }

    /// Decides which way the selected file goes.
    pub fn send_clicked(&mut self, bluetooth: bool) -> (action: SendAction)
        ensures
            (final(self)@, action@) == old(self)@.send_pressed(bluetooth),
    {
        let file_path = match &self.selected_file {
            Some(path) => path.as_str().to_owned(),
            None => {
                self.sender_status = "Selecciona un archivo primero.".to_owned();
                return SendAction::Nothing;
            },
        };
        if bluetooth {
            if let Some(device) = self.selected_device() {
                let device = device.copy();
                self.sender_verification_code = None;
                return SendAction::ByBluetooth { file_path, device };
            }
        }
        if self.target_ip.as_str().unicode_len() == 0 {
            self.sender_status =
            "Ingresa una IP, búscala por red, o selecciona un dispositivo BLE.".to_owned();
            return SendAction::Nothing;
        }
        let ip = self.target_ip.as_str().to_owned();
        self.sender_verification_code = None;
        SendAction::ByNetwork { file_path, ip }
    }
}

/// The servers of the receiving side are started once, however often its side is shown.
pub proof fn law_servers_start_once<D>(v: AppView<D>)
    ensures
        v.started().0.started() == (v.started().0, false),
{
}

/// The address of a receiver that answered becomes the target.
pub proof fn law_found_receiver_is_the_target<D>(v: AppView<D>, ip: Seq<char>)
    ensures
        v.after(EventView::SenderStatus(FOUND_PREFIX@ + ip)).target_ip == ip,
{
    let status = FOUND_PREFIX@ + ip;
    assert(status.take(FOUND_PREFIX@.len() as int) =~= FOUND_PREFIX@);
    assert(status.skip(FOUND_PREFIX@.len() as int) =~= ip);
}

/// However often a device is heard, it is on the list once, under the name that was heard first.
pub proof fn law_device_is_listed_once<D>(v: AppView<D>, first: DeviceView, again: DeviceView)
    requires
        first.address == again.address,
    ensures
        ({
            let once = v.after(EventView::BleDeviceFound(first));
            &&& knows_device(once.devices, first.address)
            &&& once.after(EventView::BleDeviceFound(again)) == once
        }),
{
    let once = v.after(EventView::BleDeviceFound(first));
    if !knows_device(v.devices, first.address) {
        assert(once.devices[v.devices.len() as int].address == first.address);
    }
}

/// Nothing is sent without a file, and nothing without somebody to send it to.
pub proof fn law_send_needs_file_and_target<D>(v: AppView<D>, bluetooth: bool)
    ensures
        v.send_pressed(bluetooth).1 is Nothing <==> v.selected_file is None || (v.target_ip.len()
            == 0 && !(bluetooth && v.chosen_device() is Some)),
{
}

/// Whatever happens to a sound state, it stays sound: no device is listed twice, and what can be
/// answered goes over a sound channel.
pub proof fn law_state_stays_sound<D>(v: AppView<D>, event: EventView<D>, bluetooth: bool)
    requires
        v.wf(),
        event matches EventView::IncomingRequest(request) ==> request.channel.wf(),
    ensures
        v.after(event).wf(),
        v.started().0.wf(),
        v.send_pressed(bluetooth).0.wf(),
{
}

} // verus!
