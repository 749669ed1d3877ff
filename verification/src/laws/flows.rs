//! Laws of the courses of a transfer: what holds of every run, from the start on.

use crate::ble_flow::{
    network_opened, BleSendEvent, BleSendFlow, BleSendState, BleSendTask, OfferEvent, OfferState,
    OfferTask,
};
use crate::ble_transport::HotspotResponse;
use crate::error::AirError;
use crate::flow::{
    notice_views, Notice, TransferEvent, TransferFlow, TransferState, TransferTask,
};
use crate::gatt::decision_response;
use crate::laws::names::lemma_offered_as_is_unique;
use crate::status::{ReceiverStage, SenderStageView};
use crate::transfer::offered_name;
use vstd::prelude::*;

verus! {

/// One code is shown, and it is `code`.
pub open spec fn shows_code(notices: Seq<Notice>, code: Seq<char>) -> bool {
    exists|i: int|
        0 <= i < notices.len() && (#[trigger] notices[i] matches Notice::Code(c) && c@ == code)
            && forall|j: int| 0 <= j < notices.len() && j != i ==> !(#[trigger] notices[j] is Code)
}

/// Nothing is shown but one stage.
pub open spec fn shows_only(notices: Seq<Notice>, stage: SenderStageView) -> bool {
    notices.len() == 1 && (notices[0] matches Notice::Stage(s) && s@ == stage)
}

/// The code that is shown after a handshake is the one that came with it, whatever it is, once; and
/// nothing else that happens shows a code.
pub proof fn law_code_shown_is_the_one_of_the_handshake(
    flow: &mut TransferFlow,
    event: TransferEvent,
    out: (Vec<Notice>, TransferTask),
)
    requires
        call_ensures(TransferFlow::next, (flow, event), out),
    ensures
        event matches TransferEvent::Secured { verification_code } ==> shows_code(
            out.0@,
            verification_code@,
        ) && out.0@.len() == 2 && (out.0@[1] matches Notice::Stage(s) && s is AwaitingApproval),
        !(event is Secured) ==> forall|i: int|
            0 <= i < out.0@.len() ==> !(#[trigger] out.0@[i] is Code),
{
    let views = notice_views(out.0@);
    assert(forall|i: int| 0 <= i < out.0@.len() ==> views[i] == (#[trigger] out.0@[i])@);
    if let TransferEvent::Secured { verification_code } = event {
        assert(views.len() == 2);
        assert(views[0] == out.0@[0]@);
        assert(views[1] == out.0@[1]@);
        assert(out.0@[0] is Code);
    } else {
        assert(views.len() == 1);
        assert(views[0] == out.0@[0]@);
    }
}

/// Each event of a transfer has its own next step, and is told as what it is.
pub proof fn law_transfer_goes_step_by_step(
    flow: &mut TransferFlow,
    event: TransferEvent,
    out: (Vec<Notice>, TransferTask),
)
    requires
        call_ensures(TransferFlow::next, (flow, event), out),
    ensures
        final(flow)@.ip == old(flow)@.ip,
        final(flow)@.file_name == old(flow)@.file_name,
        event matches TransferEvent::Opened { file_size } ==> (
        out.1 matches TransferTask::Connect { address } && address@ == old(flow)@.ip + ":5000"@
            && shows_only(out.0@, SenderStageView::Connecting { address: address@ }))
            && final(flow)@.state == (TransferState::Connecting { file_size }),
        event is Connected ==> out.1 is Handshake && shows_only(out.0@, SenderStageView::Handshake)
            && (old(flow)@.state matches TransferState::Connecting { file_size }
            ==> final(flow)@.state == (TransferState::Securing { file_size })),
        event is Secured ==> (out.1 matches TransferTask::Offer { file_name, file_size }
            && file_name@ == old(flow)@.file_name && (old(flow)@.state matches TransferState::Securing {
            file_size: known,
        } ==> file_size == known)) && final(flow)@.state == TransferState::Asking,
        event matches TransferEvent::Answered { approved } ==> (approved <==> out.1 is SendFile) && (
        !approved <==> out.1 is Stop) && (approved ==> shows_only(
            out.0@,
            SenderStageView::Transmitting,
        ) && final(flow)@.state == TransferState::Sending) && (!approved ==> shows_only(
            out.0@,
            SenderStageView::Rejected,
        ) && final(flow)@.state == TransferState::Over),
        event is Sent ==> out.1 is Stop && shows_only(out.0@, SenderStageView::Completed)
            && final(flow)@.state == TransferState::Over,
        event matches TransferEvent::Failed(e) ==> out.1 is Stop && shows_only(
            out.0@,
            SenderStageView::Failed(e),
        ) && final(flow)@.state == TransferState::Over,
{
    let views = notice_views(out.0@);
    assert(views.len() == out.0@.len());
    assert(views[0] == out.0@[0]@);
}

/// In every course of a transfer, from event to event: the receiver that is called is the one it
/// was made for, on port 5000; what is offered is the file that was opened, under the name it is
/// offered as; the code that is shown is the one that came with the handshake, and no other is;
/// and the file goes out only at a yes.
pub proof fn law_transfer_is_true_to_its_start(
    ip: &str,
    path: &str,
    name: String,
    start: TransferFlow,
    calls: Seq<&mut TransferFlow>,
    events: Seq<TransferEvent>,
    outs: Seq<(Vec<Notice>, TransferTask)>,
    i: int,
)
    requires
        call_ensures(offered_name, (path,), name),
        call_ensures(TransferFlow::new, (ip, path), start),
        calls.len() == events.len() == outs.len(),
        calls.len() > 0 ==> *calls[0] == start,
        forall|k: int|
            0 <= k < calls.len() ==> (*#[trigger] calls[k])@.expects(events[k]@) && call_ensures(
                TransferFlow::next,
                (calls[k], events[k]),
                outs[k],
            ),
        forall|k: int| 0 <= k < calls.len() - 1 ==> *final(#[trigger] calls[k]) == *calls[k + 1],
        0 <= i < calls.len(),
    ensures
        i < 5,
        outs[i].1 matches TransferTask::Connect { address } ==> i == 0 && address@ == ip@
            + ":5000"@,
        outs[i].1 matches TransferTask::Offer { file_name, file_size } ==> i == 2 && file_name@
            == name@ && (events[0] matches TransferEvent::Opened { file_size: opened } && file_size
            == opened),
        events[i] matches TransferEvent::Secured { verification_code } ==> i == 2 && shows_code(
            outs[i].0@,
            verification_code@,
        ),
        forall|j: int|
            0 <= j < outs[i].0@.len() && #[trigger] outs[i].0@[j] is Code ==> events[i] is Secured,
        outs[i].1 is SendFile ==> i == 3 && (events[i] matches TransferEvent::Answered { approved }
            && approved),
        outs[i].1 is Stop ==> i == calls.len() - 1,
{
    lemma_transfer_course(ip, path, name, start, calls, events, outs, i);
    assert(call_ensures(TransferFlow::next, (calls[i], events[i]), outs[i]));
    law_code_shown_is_the_one_of_the_handshake(calls[i], events[i], outs[i]);
    law_transfer_goes_step_by_step(calls[i], events[i], outs[i]);
    if i < calls.len() - 1 {
        assert(call_ensures(TransferFlow::next, (calls[i + 1], events[i + 1]), outs[i + 1]));
    }
}

/// How far a transfer has come after `n` events.
spec fn course_so_far(
    ip: Seq<char>,
    name: Seq<char>,
    flow: TransferFlow,
    events: Seq<TransferEvent>,
    n: int,
) -> bool {
    &&& flow@.ip == ip
    &&& flow@.file_name == name
    &&& flow@.state is Opening ==> n == 0
    &&& flow@.state matches TransferState::Connecting { file_size } ==> n == 1 && events[0]
        == (TransferEvent::Opened { file_size })
    &&& flow@.state matches TransferState::Securing { file_size } ==> n == 2 && events[0]
        == (TransferEvent::Opened { file_size })
    &&& flow@.state is Asking ==> n == 3
    &&& flow@.state is Sending ==> n == 4
    &&& n <= 5
}

proof fn lemma_transfer_course(
    ip: &str,
    path: &str,
    name: String,
    start: TransferFlow,
    calls: Seq<&mut TransferFlow>,
    events: Seq<TransferEvent>,
    outs: Seq<(Vec<Notice>, TransferTask)>,
    i: int,
)
    requires
        call_ensures(offered_name, (path,), name),
        call_ensures(TransferFlow::new, (ip, path), start),
        calls.len() == events.len() == outs.len(),
        calls.len() > 0 ==> *calls[0] == start,
        forall|k: int|
            0 <= k < calls.len() ==> (*#[trigger] calls[k])@.expects(events[k]@) && call_ensures(
                TransferFlow::next,
                (calls[k], events[k]),
                outs[k],
            ),
        forall|k: int| 0 <= k < calls.len() - 1 ==> *final(#[trigger] calls[k]) == *calls[k + 1],
        0 <= i < calls.len(),
    ensures
        course_so_far(ip@, name@, *calls[i], events, i),
    decreases i,
{
    if i == 0 {
        lemma_offered_as_is_unique(path@, start@.file_name, name@);
    } else {
        lemma_transfer_course(ip, path, name, start, calls, events, outs, i - 1);
        assert(call_ensures(TransferFlow::next, (calls[i - 1], events[i - 1]), outs[i - 1]));
        assert(*final(calls[i - 1]) == *calls[i - 1 + 1]);
    }
}

/// Each event on the way over Bluetooth has its own next step, and is told as what it is.
pub proof fn law_bluetooth_way_goes_step_by_step(
    flow: &mut BleSendFlow,
    event: BleSendEvent,
    out: (Vec<Notice>, BleSendTask),
)
    requires
        call_ensures(BleSendFlow::next, (flow, event), out),
    ensures
        final(flow)@.device == old(flow)@.device,
        final(flow)@.address == old(flow)@.address,
        final(flow)@.file_name == old(flow)@.file_name,
        event matches BleSendEvent::Measured { file_size } ==> out.1 == (BleSendTask::Link {
            address: old(flow)@.address,
        }) && shows_only(
            out.0@,
            SenderStageView::BleConnecting { device: old(flow)@.device },
        ) && final(flow)@.state == (BleSendState::Linking { file_size }),
        event is Linked ==> (out.1 matches BleSendTask::Negotiate { file_name, file_size }
            && file_name@ == old(flow)@.file_name && (
        old(flow)@.state matches BleSendState::Linking { file_size: known } ==> file_size == known))
            && shows_only(out.0@, SenderStageView::BleNegotiating) && final(flow)@.state
            == BleSendState::Negotiating,
        event matches BleSendEvent::Negotiated(HotspotResponse::Accepted { ssid, password }) ==> (
        out.1 matches BleSendTask::Join { ssid: s, password: p } && s@ == ssid@ && p@ == password@)
            && shows_only(out.0@, SenderStageView::JoiningNetwork { ssid: ssid@ })
            && final(flow)@.state == BleSendState::Joining,
        event matches BleSendEvent::Negotiated(r) ==> (r is Rejected ==> out.1 is Stop
            && shows_only(out.0@, SenderStageView::BleRejected) && final(flow)@.state
            == BleSendState::Over),
        event is Joined ==> out.1 is FindReceiver && shows_only(
            out.0@,
            SenderStageView::SearchingInHotspot,
        ) && final(flow)@.state == BleSendState::Searching,
        event matches BleSendEvent::Searched { ip } ==> final(flow)@.state == BleSendState::Over && (
        ip matches Some(found) ==> (out.1 matches BleSendTask::Transfer { ip: to } && to@ == found@)
            && out.0@.len() == 0) && (ip is None ==> out.1 is Stop && shows_only(
            out.0@,
            SenderStageView::BleFailed(AirError::ReceiverNotFound),
        )),
        event matches BleSendEvent::Failed(e) ==> out.1 is Stop && shows_only(
            out.0@,
            SenderStageView::BleFailed(e),
        ) && final(flow)@.state == BleSendState::Over,
{
    let views = notice_views(out.0@);
    assert(views.len() == out.0@.len());
    if views.len() > 0 {
        assert(views[0] == out.0@[0]@);
    }
}

/// In every course of the way over Bluetooth, from event to event: the device that is called is
/// the one that the flow was made for, and it is shown under its name; what is offered is the file
/// that was measured, under the name it is offered as; the network that is joined is the one that
/// the receiver agreed to; and the file goes to where the receiver was found, once all that is
/// done.
pub proof fn law_bluetooth_way_is_true_to_its_start(
    device: &str,
    address: u64,
    path: &str,
    name: String,
    start: BleSendFlow,
    calls: Seq<&mut BleSendFlow>,
    events: Seq<BleSendEvent>,
    outs: Seq<(Vec<Notice>, BleSendTask)>,
    i: int,
)
    requires
        call_ensures(offered_name, (path,), name),
        call_ensures(BleSendFlow::new, (device, address, path), start),
        calls.len() == events.len() == outs.len(),
        calls.len() > 0 ==> *calls[0] == start,
        forall|k: int|
            0 <= k < calls.len() ==> (*#[trigger] calls[k])@.expects(events[k]@) && call_ensures(
                BleSendFlow::next,
                (calls[k], events[k]),
                outs[k],
            ),
        forall|k: int| 0 <= k < calls.len() - 1 ==> *final(#[trigger] calls[k]) == *calls[k + 1],
        0 <= i < calls.len(),
    ensures
        i < 5,
        outs[i].1 matches BleSendTask::Link { address: called } ==> i == 0 && called == address
            && shows_only(outs[i].0@, SenderStageView::BleConnecting { device: device@ }),
        i == 0 && events[0] is Measured ==> outs[0].1 is Link,
        outs[i].1 matches BleSendTask::Negotiate { file_name, file_size } ==> i == 1 && file_name@
            == name@ && (events[0] matches BleSendEvent::Measured { file_size: measured }
            && file_size == measured),
        outs[i].1 matches BleSendTask::Join { ssid, password } ==> i == 2 && (
        events[2] matches BleSendEvent::Negotiated(HotspotResponse::Accepted {
            ssid: s,
            password: p,
        }) && ssid@ == s@ && password@ == p@),
        outs[i].1 matches BleSendTask::Transfer { ip } ==> i == 4 && (
        events[4] matches BleSendEvent::Searched { ip: Some(found) } && ip@ == found@) && (
        events[2] matches BleSendEvent::Negotiated(r) && r is Accepted) && events[3] is Joined,
        outs[i].1 is Stop ==> i == calls.len() - 1,
        forall|j: int| 0 <= j < outs[i].0@.len() ==> !(#[trigger] outs[i].0@[j] is Code),
{
    lemma_bluetooth_course(device, address, path, name, start, calls, events, outs, i);
    assert(call_ensures(BleSendFlow::next, (calls[i], events[i]), outs[i]));
    law_bluetooth_way_goes_step_by_step(calls[i], events[i], outs[i]);
    let views = notice_views(outs[i].0@);
    assert(views.len() <= 1);
    if views.len() > 0 {
        assert(views[0] == outs[i].0@[0]@);
    }
    if i < calls.len() - 1 {
        assert(call_ensures(BleSendFlow::next, (calls[i + 1], events[i + 1]), outs[i + 1]));
    }
}

/// How far the way over Bluetooth has come after `n` events.
spec fn bluetooth_so_far(
    device: Seq<char>,
    address: u64,
    name: Seq<char>,
    flow: BleSendFlow,
    events: Seq<BleSendEvent>,
    n: int,
) -> bool {
    &&& flow@.device == device
    &&& flow@.address == address
    &&& flow@.file_name == name
    &&& flow@.state is Measuring ==> n == 0
    &&& flow@.state matches BleSendState::Linking { file_size } ==> n == 1 && events[0]
        == (BleSendEvent::Measured { file_size })
    &&& flow@.state is Negotiating ==> n == 2
    &&& flow@.state is Joining ==> n == 3 && (events[2] matches BleSendEvent::Negotiated(r)
        && r is Accepted)
    &&& flow@.state is Searching ==> n == 4 && (events[2] matches BleSendEvent::Negotiated(r)
        && r is Accepted) && events[3] is Joined
    &&& n <= 5
}

proof fn lemma_bluetooth_course(
    device: &str,
    address: u64,
    path: &str,
    name: String,
    start: BleSendFlow,
    calls: Seq<&mut BleSendFlow>,
    events: Seq<BleSendEvent>,
    outs: Seq<(Vec<Notice>, BleSendTask)>,
    i: int,
)
    requires
        call_ensures(offered_name, (path,), name),
        call_ensures(BleSendFlow::new, (device, address, path), start),
        calls.len() == events.len() == outs.len(),
        calls.len() > 0 ==> *calls[0] == start,
        forall|k: int|
            0 <= k < calls.len() ==> (*#[trigger] calls[k])@.expects(events[k]@) && call_ensures(
                BleSendFlow::next,
                (calls[k], events[k]),
                outs[k],
            ),
        forall|k: int| 0 <= k < calls.len() - 1 ==> *final(#[trigger] calls[k]) == *calls[k + 1],
        0 <= i < calls.len(),
    ensures
        bluetooth_so_far(device@, address, name@, *calls[i], events, i),
    decreases i,
{
    if i == 0 {
        lemma_offered_as_is_unique(path@, start@.file_name, name@);
    } else {
        lemma_bluetooth_course(device, address, path, name, start, calls, events, outs, i - 1);
        assert(call_ensures(BleSendFlow::next, (calls[i - 1], events[i - 1]), outs[i - 1]));
        assert(*final(calls[i - 1]) == *calls[i - 1 + 1]);
    }
}

/// A decision to open a network is answered with that network, and any other with a no.
pub proof fn law_decision_is_answered_as_taken(
    decision: Option<(String, String)>,
    r: HotspotResponse,
)
    requires
        call_ensures(decision_response, (decision,), r),
    ensures
        decision matches Some((ssid, password)) ==> (r matches HotspotResponse::Accepted {
            ssid: s,
            password: p,
        } && s@ == ssid@ && p@ == password@),
        decision is None ==> r is Rejected,
{
}

/// With an offer, each event has its own next step: the user is asked about what was offered, and
/// what was decided is answered. A service that was started is stopped in the end, and a failure
/// is told.
pub proof fn law_offer_goes_step_by_step(
    state: OfferState,
    event: OfferEvent,
    r: (OfferState, Option<ReceiverStage>, OfferTask),
)
    requires
        call_ensures(OfferState::next, (state, event), r),
    ensures
        event is Started ==> r.0 == OfferState::Waiting && (r.1 matches Some(s)
            && s is ListeningWithBle) && r.2 is AcceptOffer,
        event matches OfferEvent::Offered { name, size } ==> r.0 == OfferState::Deciding && r.1
            is None && (r.2 matches OfferTask::AskUser { name: n, size: z } && n@ == name@ && z
            == size),
        event matches OfferEvent::Decided(Some((ssid, password))) ==> r.0 == OfferState::Answering
            && r.1 is None && (r.2 matches OfferTask::Respond(HotspotResponse::Accepted {
            ssid: s,
            password: p,
        }) && s@ == ssid@ && p@ == password@),
        event matches OfferEvent::Decided(d) ==> (d is None ==> r.0 == OfferState::Answering && r.1
            is None && (r.2 matches OfferTask::Respond(answer) && answer is Rejected)),
        event is Answered ==> r.0 == OfferState::Over && r.1 is None && r.2 is StopServer,
        event matches OfferEvent::Failed(e) ==> r.0 == OfferState::Over && if state
            == OfferState::Starting {
            r.1 == Some(ReceiverStage::BleUnavailable(e)) && r.2 is Nothing
        } else {
            r.1 == Some(ReceiverStage::BleNegotiationFailed(e)) && r.2 is StopServer
        },
{
}

/// A network that was opened is what the decision names and what is shown; one that was not is
/// decided against, and the reason is shown.
pub proof fn law_opened_network_is_the_decision(
    ssid: String,
    password: String,
    outcome: Result<(), AirError>,
    r: (Option<(String, String)>, ReceiverStage),
)
    requires
        call_ensures(network_opened, (ssid, password, outcome), r),
    ensures
        outcome is Ok ==> (r.0 matches Some((s, p)) && s@ == ssid@ && p@ == password@) && (
        r.1 matches ReceiverStage::HotspotActive { ssid: shown } && shown@ == ssid@),
        outcome matches Err(e) ==> r.0 is None && r.1 == ReceiverStage::HotspotFailed(e),
{
}

} // verus!
