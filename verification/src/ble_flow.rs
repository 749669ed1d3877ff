//! The way over Bluetooth, step by step, on both sides: what is to be done next, given how the
//! last step went. The steps themselves are the program's to do.

use crate::ble_transport::{HotspotResponse, ResponseView};
use crate::error::AirError;
use crate::flow::{no_notice, notice_views, one_stage, Notice, NoticeView};
use crate::gatt::{decision_response, decision_view};
use crate::status::{ReceiverStage, SenderStage, SenderStageView};
use crate::paths::offered_as;
use crate::text::text_view;
use crate::transfer::{offered_name, MAX_FILE_SIZE};
use vstd::prelude::*;

verus! {

/// How far a sender has come on the way over Bluetooth.
#[derive(Debug, Clone, Copy, PartialEq, Eq, Structural)]
pub enum BleSendState {
    /// The size of the file is being looked up.
    Measuring,
    /// The device is being called.
    Linking { file_size: u64 },
    /// The file is being offered.
    Negotiating,
    /// The receiver's network is being joined.
    Joining,
    /// The receiver is being looked for on its network.
    Searching,
    Over,
}

/// How a step of the sender went.
pub enum BleSendEvent {
    Measured { file_size: u64 },
    Linked,
    Negotiated(HotspotResponse),
    Joined,
    Searched { ip: Option<String> },
    Failed(AirError),
}

/// A [`BleSendEvent`] with its texts in view.
pub enum BleSendEventView {
    Measured { file_size: u64 },
    Linked,
    Negotiated(ResponseView),
    Joined,
    Searched { ip: Option<Seq<char>> },
    Failed(AirError),
}

impl View for BleSendEvent {
    type V = BleSendEventView;

    open spec fn view(&self) -> BleSendEventView {
        match *self {
            BleSendEvent::Measured { file_size } => BleSendEventView::Measured { file_size },
            BleSendEvent::Linked => BleSendEventView::Linked,
            BleSendEvent::Negotiated(response) => BleSendEventView::Negotiated(response@),
            BleSendEvent::Joined => BleSendEventView::Joined,
            BleSendEvent::Searched { ip } => BleSendEventView::Searched { ip: text_view(ip) },
            BleSendEvent::Failed(e) => BleSendEventView::Failed(e),
        }
    }
}

/// The next step of the sender.
pub enum BleSendTask {
    Link { address: u64 },
    Negotiate { file_name: String, file_size: u64 },
    Join { ssid: String, password: String },
    FindReceiver,
    Transfer { ip: String },
    Stop,
}

/// A [`BleSendTask`] with its texts in view.
pub enum BleSendTaskView {
    Link { address: u64 },
    Negotiate { file_name: Seq<char>, file_size: u64 },
    Join { ssid: Seq<char>, password: Seq<char> },
    FindReceiver,
    Transfer { ip: Seq<char> },
    Stop,
}

impl View for BleSendTask {
    type V = BleSendTaskView;

    open spec fn view(&self) -> BleSendTaskView {
        match *self {
            BleSendTask::Link { address } => BleSendTaskView::Link { address },
            BleSendTask::Negotiate { file_name, file_size } => BleSendTaskView::Negotiate {
                file_name: file_name@,
                file_size,
            },
            BleSendTask::Join { ssid, password } => BleSendTaskView::Join {
                ssid: ssid@,
                password: password@,
            },
            BleSendTask::FindReceiver => BleSendTaskView::FindReceiver,
            BleSendTask::Transfer { ip } => BleSendTaskView::Transfer { ip: ip@ },
            BleSendTask::Stop => BleSendTaskView::Stop,
        }
    }
}

/// The way of one file to one device.
pub struct BleSendFlow {
    device: String,
    address: u64,
    file_name: String,
    state: BleSendState,
}

/// A [`BleSendFlow`] with its texts in view.
#[verifier::ext_equal]
pub struct BleSendView {
    pub device: Seq<char>,
    pub address: u64,
    pub file_name: Seq<char>,
    pub state: BleSendState,
}

impl View for BleSendFlow {
    type V = BleSendView;

    closed spec fn view(&self) -> BleSendView {
        BleSendView {
            device: self.device@,
            address: self.address,
            file_name: self.file_name@,
            state: self.state,
        }
    }
}

impl BleSendView {
    /// Whether an event can be the outcome of the step that was due.
    pub open spec fn expects(self, event: BleSendEventView) -> bool {
        match self.state {
            BleSendState::Measuring => event is Measured || event is Failed,
            BleSendState::Linking { file_size: _ } => event is Linked || event is Failed,
            BleSendState::Negotiating => event is Negotiated || event is Failed,
            BleSendState::Joining => event is Joined || event is Failed,
            BleSendState::Searching => event is Searched,
            BleSendState::Over => false,
        }
    }

    /// The size of the file, once it is known and as long as it is needed.
    pub open spec fn file_size(self) -> u64 {
        match self.state {
            BleSendState::Linking { file_size } => file_size,
            _ => 0,
        }
    }

    /// Where an event leads: the state, what is shown, and the next step.
    pub open spec fn after(self, event: BleSendEventView) -> (
        BleSendView,
        Seq<NoticeView>,
        BleSendTaskView,
    ) {
        let over = BleSendView { state: BleSendState::Over, ..self };
        match event {
            BleSendEventView::Measured { file_size } => (
                BleSendView { state: BleSendState::Linking { file_size }, ..self },
                seq![
                    NoticeView::Stage(SenderStageView::BleConnecting { device: self.device }),
                ],
                BleSendTaskView::Link { address: self.address },
            ),
            BleSendEventView::Linked => (
                BleSendView { state: BleSendState::Negotiating, ..self },
                seq![NoticeView::Stage(SenderStageView::BleNegotiating)],
                BleSendTaskView::Negotiate {
                    file_name: self.file_name,
                    file_size: self.file_size(),
                },
            ),
            BleSendEventView::Negotiated(response) => match response {
                ResponseView::Rejected => (
                    over,
                    seq![NoticeView::Stage(SenderStageView::BleRejected)],
                    BleSendTaskView::Stop,
                ),
                ResponseView::Accepted { ssid, password } => (
                    BleSendView { state: BleSendState::Joining, ..self },
                    seq![NoticeView::Stage(SenderStageView::JoiningNetwork { ssid })],
                    BleSendTaskView::Join { ssid, password },
                ),
            },
            BleSendEventView::Joined => (
                BleSendView { state: BleSendState::Searching, ..self },
                seq![NoticeView::Stage(SenderStageView::SearchingInHotspot)],
                BleSendTaskView::FindReceiver,
            ),
            BleSendEventView::Searched { ip } => match ip {
                Some(ip) => (over, Seq::empty(), BleSendTaskView::Transfer { ip }),
                None => (
                    over,
                    seq![
                        NoticeView::Stage(
                            SenderStageView::BleFailed(AirError::ReceiverNotFound),
                        ),
                    ],
                    BleSendTaskView::Stop,
                ),
            },
            BleSendEventView::Failed(e) => (
                over,
                seq![NoticeView::Stage(SenderStageView::BleFailed(e))],
                BleSendTaskView::Stop,
            ),
        }
    }
}

impl BleSendFlow {
    /// The way of the file at `file_path` to a device. Its first step is to look up the size of
    /// the file.
    pub fn new(device: &str, address: u64, file_path: &str) -> (flow: BleSendFlow)
        ensures
            flow@.device == device@,
            flow@.address == address,
            offered_as(file_path@, flow@.file_name),
            flow@.state == BleSendState::Measuring,
    {
        BleSendFlow {
            device: device.to_owned(),
            address,
            file_name: offered_name(file_path),
            state: BleSendState::Measuring,
        }
    }

    /// Goes on after a step.
    pub fn next(&mut self, event: BleSendEvent) -> (r: (Vec<Notice>, BleSendTask))
        requires
            old(self)@.expects(event@),
        ensures
            (final(self)@, notice_views(r.0@), r.1@) == old(self)@.after(event@),
    {
        let file_size: u64 = match self.state {
            BleSendState::Linking { file_size } => file_size,
            _ => 0,
        };
        match event {
            BleSendEvent::Measured { file_size } => {
                self.state = BleSendState::Linking { file_size };
                let device = self.device.as_str().to_owned();
                (
                    one_stage(SenderStage::BleConnecting { device }),
                    BleSendTask::Link { address: self.address },
                )
            },
            BleSendEvent::Linked => {
                self.state = BleSendState::Negotiating;
                let file_name = self.file_name.as_str().to_owned();
                (
                    one_stage(SenderStage::BleNegotiating),
                    BleSendTask::Negotiate { file_name, file_size },
                )
            },
            BleSendEvent::Negotiated(response) => match response {
                HotspotResponse::Rejected => {
                    self.state = BleSendState::Over;
                    (one_stage(SenderStage::BleRejected), BleSendTask::Stop)
                },
                HotspotResponse::Accepted { ssid, password } => {
                    self.state = BleSendState::Joining;
                    let shown = ssid.as_str().to_owned();
                    (
                        one_stage(SenderStage::JoiningNetwork { ssid: shown }),
                        BleSendTask::Join { ssid, password },
                    )
                },
            },
            BleSendEvent::Joined => {
                self.state = BleSendState::Searching;
                (one_stage(SenderStage::SearchingInHotspot), BleSendTask::FindReceiver)
            },
            BleSendEvent::Searched { ip } => {
                self.state = BleSendState::Over;
                match ip {
                    Some(ip) => (no_notice(), BleSendTask::Transfer { ip }),
                    None => {
                        (
                            one_stage(SenderStage::BleFailed(AirError::ReceiverNotFound)),
                            BleSendTask::Stop,
                        )
                    },
                }
            },
            BleSendEvent::Failed(e) => {
                self.state = BleSendState::Over;
                (one_stage(SenderStage::BleFailed(e)), BleSendTask::Stop)
            },
        }
    }
}

/// The sender after a number of steps, if each of them went as one can.
pub open spec fn ble_send_run(start: BleSendView, events: Seq<BleSendEventView>) -> Option<
    BleSendView,
>
    decreases events.len(),
{
    if events.len() == 0 {
        Some(start)
    } else {
        match ble_send_run(start, events.drop_last()) {
            Some(v) => if v.expects(events.last()) {
                Some(v.after(events.last()).0)
            } else {
                None
            },
            None => None,
        }
    }
}

proof fn lemma_ble_send_run(start: BleSendView, events: Seq<BleSendEventView>)
    requires
        start.state == BleSendState::Measuring,
    ensures
        ble_send_run(start, events) matches Some(v) ==> {
            &&& v.file_name == start.file_name
            &&& v.state == BleSendState::Measuring ==> events.len() == 0
            &&& v.state is Linking ==> events.len() == 1 && events[0]
                == (BleSendEventView::Measured { file_size: v.file_size() })
            &&& v.state == BleSendState::Negotiating ==> events.len() == 2
            &&& v.state == BleSendState::Joining ==> events.len() == 3 && (events[2]
                matches BleSendEventView::Negotiated(r) && r is Accepted)
            &&& v.state == BleSendState::Searching ==> events.len() == 4 && (events[2]
                matches BleSendEventView::Negotiated(r) && r is Accepted)
            &&& v.state == BleSendState::Over ==> events.len() <= 5
        },
    decreases events.len(),
{
    if events.len() > 0 {
        lemma_ble_send_run(start, events.drop_last());
        if let Some(v) = ble_send_run(start, events.drop_last()) {
            assert(events.drop_last().len() == events.len() - 1);
            assert(forall|i: int|
                0 <= i < events.len() - 1 ==> events.drop_last()[i] == #[trigger] events[i]);
        }
    }
}

/// A sender joins a network only once the receiver has agreed, and it is the receiver's.
pub proof fn law_only_the_agreed_network_is_joined(v: BleSendView, event: BleSendEventView)
    ensures
        v.after(event).2 matches BleSendTaskView::Join { ssid, password } ==> event
            == BleSendEventView::Negotiated(ResponseView::Accepted { ssid, password }),
{
}

/// The file goes on over the network only after the receiver has agreed, its network was joined,
/// and it was found there.
pub proof fn law_transfer_needs_agreement(
    start: BleSendView,
    events: Seq<BleSendEventView>,
    last: BleSendEventView,
)
    requires
        start.state == BleSendState::Measuring,
        ble_send_run(start, events) matches Some(v) && v.expects(last) && v.after(last).2
            is Transfer,
    ensures
        events.len() == 4,
        events[2] matches BleSendEventView::Negotiated(r) && r is Accepted,
        last matches BleSendEventView::Searched { ip } && ip is Some,
{
    lemma_ble_send_run(start, events);
}

/// The way over Bluetooth takes at most five steps.
pub proof fn law_bluetooth_way_ends(start: BleSendView, events: Seq<BleSendEventView>)
    requires
        start.state == BleSendState::Measuring,
        ble_send_run(start, events) is Some,
    ensures
        events.len() <= 5,
        events.len() == 5 ==> (ble_send_run(start, events) matches Some(v) && v.state
            == BleSendState::Over),
{
    lemma_ble_send_run(start, events);
}

/// How far a receiver has come with an offer over Bluetooth.
#[derive(Debug, Clone, Copy, PartialEq, Eq, Structural)]
pub enum OfferState {
    /// The service is being started.
    Starting,
    /// An offer is waited for.
    Waiting,
    /// The user is being asked.
    Deciding,
    /// The answer is under way.
    Answering,
    Over,
}

/// How a step of the receiver went.
pub enum OfferEvent {
    Started,
    Offered { name: String, size: u64 },
    /// The network that was made for the transfer, or nothing.
    Decided(Option<(String, String)>),
    /// The answer was sent, or could not be.
    Answered,
    Failed(AirError),
}

/// An [`OfferEvent`] with its texts in view.
pub enum OfferEventView {
    Started,
    Offered { name: Seq<char>, size: u64 },
    Decided(ResponseView),
    Answered,
    Failed(AirError),
}

impl View for OfferEvent {
    type V = OfferEventView;

    open spec fn view(&self) -> OfferEventView {
        match *self {
            OfferEvent::Started => OfferEventView::Started,
            OfferEvent::Offered { name, size } => OfferEventView::Offered { name: name@, size },
            OfferEvent::Decided(decision) => OfferEventView::Decided(decision_view(decision)),
            OfferEvent::Answered => OfferEventView::Answered,
            OfferEvent::Failed(e) => OfferEventView::Failed(e),
        }
    }
}

/// The next step of the receiver.
pub enum OfferTask {
    AcceptOffer,
    AskUser { name: String, size: u64 },
    Respond(HotspotResponse),
    StopServer,
    Nothing,
}

/// An [`OfferTask`] with its texts in view.
pub enum OfferTaskView {
    AcceptOffer,
    AskUser { name: Seq<char>, size: u64 },
    Respond(ResponseView),
    StopServer,
    Nothing,
}

impl View for OfferTask {
    type V = OfferTaskView;

    open spec fn view(&self) -> OfferTaskView {
        match *self {
            OfferTask::AcceptOffer => OfferTaskView::AcceptOffer,
            OfferTask::AskUser { name, size } => OfferTaskView::AskUser { name: name@, size },
            OfferTask::Respond(response) => OfferTaskView::Respond(response@),
            OfferTask::StopServer => OfferTaskView::StopServer,
            OfferTask::Nothing => OfferTaskView::Nothing,
        }
    }
}

impl OfferState {
    /// Whether an event can be the outcome of the step that was due. An offer over the limit is a
    /// failure.
    pub open spec fn expects(self, event: OfferEventView) -> bool {
        match self {
            OfferState::Starting => event is Started || event is Failed,
            OfferState::Waiting => event is Failed || (event matches OfferEventView::Offered {
                name: _,
                size,
            } && size <= MAX_FILE_SIZE),
            OfferState::Deciding => event is Decided,
            OfferState::Answering => event is Answered,
            OfferState::Over => false,
        }
    }

    /// Where an event leads: the state, what is shown, and the next step. A service that was
    /// started is stopped in the end.
    pub open spec fn after(self, event: OfferEventView) -> (
        OfferState,
        Option<ReceiverStage>,
        OfferTaskView,
    ) {
        match event {
            OfferEventView::Started => (
                OfferState::Waiting,
                Some(ReceiverStage::ListeningWithBle),
                OfferTaskView::AcceptOffer,
            ),
            OfferEventView::Offered { name, size } => (
                OfferState::Deciding,
                None,
                OfferTaskView::AskUser { name, size },
            ),
            OfferEventView::Decided(response) => (
                OfferState::Answering,
                None,
                OfferTaskView::Respond(response),
            ),
            OfferEventView::Answered => (OfferState::Over, None, OfferTaskView::StopServer),
            OfferEventView::Failed(e) => if self == OfferState::Starting {
                (OfferState::Over, Some(ReceiverStage::BleUnavailable(e)), OfferTaskView::Nothing)
            } else {
                (
                    OfferState::Over,
                    Some(ReceiverStage::BleNegotiationFailed(e)),
                    OfferTaskView::StopServer,
                )
            },
        }
    }

    /// Goes on after a step.
    pub fn next(self, event: OfferEvent) -> (r: (OfferState, Option<ReceiverStage>, OfferTask))
        requires
            self.expects(event@),
        ensures
            (r.0, r.1, r.2@) == self.after(event@),
    {
        match event {
            OfferEvent::Started => {
                (
                    OfferState::Waiting,
                    Some(ReceiverStage::ListeningWithBle),
                    OfferTask::AcceptOffer,
                )
            },
            OfferEvent::Offered { name, size } => {
                (OfferState::Deciding, None, OfferTask::AskUser { name, size })
            },
            OfferEvent::Decided(decision) => {
                (OfferState::Answering, None, OfferTask::Respond(decision_response(decision)))
            },
            OfferEvent::Answered => (OfferState::Over, None, OfferTask::StopServer),
            OfferEvent::Failed(e) => match self {
                OfferState::Starting => {
                    (OfferState::Over, Some(ReceiverStage::BleUnavailable(e)), OfferTask::Nothing)
                },
                _ => {
                    (
                        OfferState::Over,
                        Some(ReceiverStage::BleNegotiationFailed(e)),
                        OfferTask::StopServer,
                    )
                },
            },
        }
    }
}

/// A service that was started is stopped when the work with it is over, and not before.
pub proof fn law_service_is_stopped(state: OfferState, event: OfferEventView)
    requires
        state.expects(event),
        state != OfferState::Starting,
    ensures
        state.after(event).0 == OfferState::Over <==> state.after(event).2 is StopServer,
{
}

/// The user is never asked about a file over the limit.
pub proof fn law_user_is_asked_within_the_limit(state: OfferState, event: OfferEventView)
    requires
        state.expects(event),
    ensures
        state.after(event).2 matches OfferTaskView::AskUser { name, size } ==> size
            <= MAX_FILE_SIZE,
{
}

/// What became of the attempt to open a network: the decision to pass on, and what is shown.
pub fn network_opened(ssid: String, password: String, outcome: Result<(), AirError>) -> (r: (
    Option<(String, String)>,
    ReceiverStage,
))
    ensures
        match outcome {
            Ok(_) => decision_view(r.0) == (ResponseView::Accepted {
                ssid: ssid@,
                password: password@,
            }) && (r.1 matches ReceiverStage::HotspotActive { ssid: shown } && shown@ == ssid@),
            Err(e) => decision_view(r.0) == ResponseView::Rejected && r.1
                == ReceiverStage::HotspotFailed(e),
        },
{
    match outcome {
        Ok(_) => {
            let shown = ssid.as_str().to_owned();
            (Some((ssid, password)), ReceiverStage::HotspotActive { ssid: shown })
        },
        Err(e) => (None, ReceiverStage::HotspotFailed(e)),
    }
}

} // verus!
