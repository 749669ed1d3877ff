//! The course of a transfer over the network, step by step: what is to be done next, given how the last step went,
//! and what the user is told on the way. The steps themselves are the program's to do.

use crate::error::AirError;
use crate::lan::{transfer_address, TRANSFER_PORT_SUFFIX};
use crate::status::{SenderStage, SenderStageView};
use crate::paths::offered_as;
use crate::transfer::offered_name;
use vstd::prelude::*;

verus! {

/// Something for the sender to see.
pub enum Notice {
    Stage(SenderStage),
    /// The digits to compare with the receiver.
    Code(String),
}

/// A [`Notice`] with its texts in view.
pub enum NoticeView {
    Stage(SenderStageView),
    Code(Seq<char>),
}

impl View for Notice {
    type V = NoticeView;

    open spec fn view(&self) -> NoticeView {
        match *self {
            Notice::Stage(stage) => NoticeView::Stage(stage@),
            Notice::Code(code) => NoticeView::Code(code@),
        }
    }
}

/// Notices with their texts in view.
pub open spec fn notice_views(notices: Seq<Notice>) -> Seq<NoticeView> {
    Seq::new(notices.len(), |i: int| notices[i]@)
}

pub(crate) fn one_stage(stage: SenderStage) -> (notices: Vec<Notice>)
    ensures
        notice_views(notices@) == seq![NoticeView::Stage(stage@)],
{
    let mut notices: Vec<Notice> = Vec::new();
    notices.push(Notice::Stage(stage));
    proof {
        assert(notice_views(notices@) =~= seq![NoticeView::Stage(stage@)]);
    }
    notices
}

pub(crate) fn no_notice() -> (notices: Vec<Notice>)
    ensures
        notice_views(notices@) == Seq::<NoticeView>::empty(),
{
    let notices: Vec<Notice> = Vec::new();
    proof {
        assert(notice_views(notices@) =~= Seq::<NoticeView>::empty());
    }
    notices
}

/// How far a transfer over the network has come.
#[derive(Debug, Clone, Copy, PartialEq, Eq, Structural)]
pub enum TransferState {
    /// The file is being opened.
    Opening,
    /// The receiver is being called.
    Connecting { file_size: u64 },
    /// The handshake is under way.
    Securing { file_size: u64 },
    /// The receiver is being asked.
    Asking,
    /// The file is under way.
    Sending,
    Over,
}

/// How a step of a transfer went.
pub enum TransferEvent {
    Opened { file_size: u64 },
    Connected,
    Secured { verification_code: String },
    Answered { approved: bool },
    Sent,
    Failed(AirError),
}

/// A [`TransferEvent`] with its text in view.
pub enum TransferEventView {
    Opened { file_size: u64 },
    Connected,
    Secured { verification_code: Seq<char> },
    Answered { approved: bool },
    Sent,
    Failed(AirError),
}

impl View for TransferEvent {
    type V = TransferEventView;

    open spec fn view(&self) -> TransferEventView {
        match *self {
            TransferEvent::Opened { file_size } => TransferEventView::Opened { file_size },
            TransferEvent::Connected => TransferEventView::Connected,
            TransferEvent::Secured { verification_code } => TransferEventView::Secured {
                verification_code: verification_code@,
            },
            TransferEvent::Answered { approved } => TransferEventView::Answered { approved },
            TransferEvent::Sent => TransferEventView::Sent,
            TransferEvent::Failed(e) => TransferEventView::Failed(e),
        }
    }
}

/// The next step of a transfer.
pub enum TransferTask {
    Connect { address: String },
    Handshake,
    Offer { file_name: String, file_size: u64 },
    SendFile,
    Stop,
}

/// A [`TransferTask`] with its texts in view.
pub enum TransferTaskView {
    Connect { address: Seq<char> },
    Handshake,
    Offer { file_name: Seq<char>, file_size: u64 },
    SendFile,
    Stop,
}

impl View for TransferTask {
    type V = TransferTaskView;

    open spec fn view(&self) -> TransferTaskView {
        match *self {
            TransferTask::Connect { address } => TransferTaskView::Connect { address: address@ },
            TransferTask::Handshake => TransferTaskView::Handshake,
            TransferTask::Offer { file_name, file_size } => TransferTaskView::Offer {
                file_name: file_name@,
                file_size,
            },
            TransferTask::SendFile => TransferTaskView::SendFile,
            TransferTask::Stop => TransferTaskView::Stop,
        }
    }
}

/// A transfer of one file to one receiver.
pub struct TransferFlow {
    ip: String,
    file_name: String,
    state: TransferState,
}

/// A [`TransferFlow`] with its texts in view.
#[verifier::ext_equal]
pub struct TransferView {
    pub ip: Seq<char>,
    pub file_name: Seq<char>,
    pub state: TransferState,
}

impl View for TransferFlow {
    type V = TransferView;

    closed spec fn view(&self) -> TransferView {
        TransferView { ip: self.ip@, file_name: self.file_name@, state: self.state }
    }
}

impl TransferView {
    /// Whether an event can be the outcome of the step that was due.
    pub open spec fn expects(self, event: TransferEventView) -> bool {
        match self.state {
            TransferState::Opening => event is Opened || event is Failed,
            TransferState::Connecting { file_size: _ } => event is Connected || event is Failed,
            TransferState::Securing { file_size: _ } => event is Secured || event is Failed,
            TransferState::Asking => event is Answered || event is Failed,
            TransferState::Sending => event is Sent || event is Failed,
            TransferState::Over => false,
        }
    }

    /// Where an event leads: the state, what is shown, and the next step.
    pub open spec fn after(self, event: TransferEventView) -> (
        TransferView,
        Seq<NoticeView>,
        TransferTaskView,
    ) {
        match event {
            TransferEventView::Opened { file_size } => {
                let address = self.ip + TRANSFER_PORT_SUFFIX@;
                (
                    TransferView { state: TransferState::Connecting { file_size }, ..self },
                    seq![NoticeView::Stage(SenderStageView::Connecting { address })],
                    TransferTaskView::Connect { address },
                )
            },
            TransferEventView::Connected => (
                TransferView {
                    state: TransferState::Securing { file_size: self.file_size() },
                    ..self
                },
                seq![NoticeView::Stage(SenderStageView::Handshake)],
                TransferTaskView::Handshake,
            ),
            TransferEventView::Secured { verification_code } => (
                TransferView { state: TransferState::Asking, ..self },
                seq![
                    NoticeView::Code(verification_code),
                    NoticeView::Stage(SenderStageView::AwaitingApproval),
                ],
                TransferTaskView::Offer { file_name: self.file_name, file_size: self.file_size() },
            ),
            TransferEventView::Answered { approved } => if approved {
                (
                    TransferView { state: TransferState::Sending, ..self },
                    seq![NoticeView::Stage(SenderStageView::Transmitting)],
                    TransferTaskView::SendFile,
                )
            } else {
                (
                    TransferView { state: TransferState::Over, ..self },
                    seq![NoticeView::Stage(SenderStageView::Rejected)],
                    TransferTaskView::Stop,
                )
            },
            TransferEventView::Sent => (
                TransferView { state: TransferState::Over, ..self },
                seq![NoticeView::Stage(SenderStageView::Completed)],
                TransferTaskView::Stop,
            ),
            TransferEventView::Failed(e) => (
                TransferView { state: TransferState::Over, ..self },
                seq![NoticeView::Stage(SenderStageView::Failed(e))],
                TransferTaskView::Stop,
            ),
        }
    }

    /// The size of the file, once it is known and as long as it is needed.
    pub open spec fn file_size(self) -> u64 {
        match self.state {
            TransferState::Connecting { file_size } => file_size,
            TransferState::Securing { file_size } => file_size,
            _ => 0,
        }
    }
}

impl TransferFlow {
    /// The transfer of the file at `file_path` to the receiver at `ip`. Its first step is to open
    /// the file.
    pub fn new(ip: &str, file_path: &str) -> (flow: TransferFlow)
        ensures
            flow@.ip == ip@,
            offered_as(file_path@, flow@.file_name),
            flow@.state == TransferState::Opening,
    {
        TransferFlow {
            ip: ip.to_owned(),
            file_name: offered_name(file_path),
            state: TransferState::Opening,
        }
    }

    /// Goes on after a step.
    pub fn next(&mut self, event: TransferEvent) -> (r: (Vec<Notice>, TransferTask))
        requires
            old(self)@.expects(event@),
        ensures
            (final(self)@, notice_views(r.0@), r.1@) == old(self)@.after(event@),
    {
        let file_size: u64 = match self.state {
            TransferState::Connecting { file_size } => file_size,
            TransferState::Securing { file_size } => file_size,
            _ => 0,
        };
        match event {
            TransferEvent::Opened { file_size } => {
                self.state = TransferState::Connecting { file_size };
                let address = transfer_address(self.ip.as_str());
                let shown = address.as_str().to_owned();
                (
                    one_stage(SenderStage::Connecting { address: shown }),
                    TransferTask::Connect { address },
                )
            },
            TransferEvent::Connected => {
                self.state = TransferState::Securing { file_size };
                (one_stage(SenderStage::Handshake), TransferTask::Handshake)
            },
            TransferEvent::Secured { verification_code } => {
                self.state = TransferState::Asking;
                let mut notices: Vec<Notice> = Vec::new();
                notices.push(Notice::Code(verification_code));
                notices.push(Notice::Stage(SenderStage::AwaitingApproval));
                proof {
                    assert(notice_views(notices@) =~= old(self)@.after(event@).1);
                }
                let file_name = self.file_name.as_str().to_owned();
                (notices, TransferTask::Offer { file_name, file_size })
            },
            TransferEvent::Answered { approved } => {
                if approved {
                    self.state = TransferState::Sending;
                    (one_stage(SenderStage::Transmitting), TransferTask::SendFile)
                } else {
                    self.state = TransferState::Over;
                    (one_stage(SenderStage::Rejected), TransferTask::Stop)
                }
            },
            TransferEvent::Sent => {
                self.state = TransferState::Over;
                (one_stage(SenderStage::Completed), TransferTask::Stop)
            },
            TransferEvent::Failed(e) => {
                self.state = TransferState::Over;
                (one_stage(SenderStage::Failed(e)), TransferTask::Stop)
            },
        }
    }
}

/// A transfer after a number of steps, if each of them went as one can.
pub open spec fn transfer_run(start: TransferView, events: Seq<TransferEventView>) -> Option<
    TransferView,
>
    decreases events.len(),
{
    if events.len() == 0 {
        Some(start)
    } else {
        match transfer_run(start, events.drop_last()) {
            Some(v) => if v.expects(events.last()) {
                Some(v.after(events.last()).0)
            } else {
                None
            },
            None => None,
        }
    }
}

proof fn lemma_transfer_run(start: TransferView, events: Seq<TransferEventView>)
    requires
        start.state == TransferState::Opening,
    ensures
        transfer_run(start, events) matches Some(v) ==> {
            &&& v.ip == start.ip && v.file_name == start.file_name
            &&& v.state == TransferState::Opening ==> events.len() == 0
            &&& v.state is Connecting ==> events.len() == 1 && events[0]
                == (TransferEventView::Opened { file_size: v.file_size() })
            &&& v.state is Securing ==> events.len() == 2 && events[0]
                == (TransferEventView::Opened { file_size: v.file_size() })
            &&& v.state == TransferState::Asking ==> events.len() == 3 && events[2] is Secured
            &&& v.state == TransferState::Sending ==> events.len() == 4 && events[2] is Secured
                && events[3] == (TransferEventView::Answered { approved: true })
            &&& v.state == TransferState::Over ==> events.len() <= 5
        },
    decreases events.len(),
{
    if events.len() > 0 {
        lemma_transfer_run(start, events.drop_last());
        if let Some(v) = transfer_run(start, events.drop_last()) {
            assert(events.drop_last().len() == events.len() - 1);
            assert(forall|i: int|
                0 <= i < events.len() - 1 ==> events.drop_last()[i] == #[trigger] events[i]);
        }
    }
}

/// The file goes out only when the channel is secure and the receiver has said yes.
pub proof fn law_file_goes_out_only_after_a_yes(
    start: TransferView,
    events: Seq<TransferEventView>,
    last: TransferEventView,
)
    requires
        start.state == TransferState::Opening,
        transfer_run(start, events) matches Some(v) && v.expects(last) && v.after(last).2
            is SendFile,
    ensures
        events.len() == 3,
        events[2] is Secured,
        last == (TransferEventView::Answered { approved: true }),
{
    lemma_transfer_run(start, events);
}

/// What is offered is the file that was opened, under the name it was given at the start.
pub proof fn law_offer_is_of_the_opened_file(
    start: TransferView,
    events: Seq<TransferEventView>,
    last: TransferEventView,
)
    requires
        start.state == TransferState::Opening,
        transfer_run(start, events) matches Some(v) && v.expects(last) && v.after(last).2 is Offer,
    ensures
        events.len() == 2,
        transfer_run(start, events) matches Some(v) && (events[0] matches TransferEventView::Opened {
            file_size,
        } && v.after(last).2 == (TransferTaskView::Offer {
            file_name: start.file_name,
            file_size,
        })),
{
    lemma_transfer_run(start, events);
}

/// A transfer takes at most five steps, and one that failed is over, with the failure shown.
pub proof fn law_transfer_ends(start: TransferView, events: Seq<TransferEventView>)
    requires
        start.state == TransferState::Opening,
        transfer_run(start, events) is Some,
    ensures
        events.len() <= 5,
        events.len() == 5 ==> (transfer_run(start, events) matches Some(v) && v.state
            == TransferState::Over),
        events.len() > 0 ==> (events.last() matches TransferEventView::Failed(e) ==> {
            &&& transfer_run(start, events) matches Some(v) && v.state == TransferState::Over
            &&& transfer_run(start, events.drop_last()) matches Some(before) && before.after(
                events.last(),
            ).1 == seq![NoticeView::Stage(SenderStageView::Failed(e))]
        }),
{
    lemma_transfer_run(start, events);
}

} // verus!
