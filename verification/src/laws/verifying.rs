//! What the client makes of the verification of users and devices.

use vstd::prelude::*;

use crate::api::dto::{FlowStage, FlowView, VerificationFrameView};
use crate::api::live::VerificationFrameKind;
use crate::app::lifecycle::TaskView;
use crate::app::outcome::{discovered, verify_resynced, verify_started};
use crate::app::state::{App, ModeView};
use crate::app::verification::{
    with_flow, with_frame, StageView, VerificationDirection, VerificationFlowView,
};
use crate::app::verify::{flow_of, verification_account, verification_started};
use crate::text::{begins, trim, views};

verus! {

/// Whether a verification is over.
pub open spec fn is_over(stage: StageView) -> bool {
    stage == StageView::Done || stage is Ended
}

/// Each kind of frame brings a flow to its stage: emoji to the comparison, the end to the
/// end, a cancellation to an end that says why.
pub proof fn law_frame_brings_its_stage(flow: VerificationFlowView, told: VerificationFrameView)
    ensures
        with_frame(flow, VerificationFrameKind::Done, told).stage == StageView::Done,
        told.reason is None ==> with_frame(flow, VerificationFrameKind::Cancelled, told).stage
            == StageView::Ended("Verification cancelled"@),
        told.reason is Some ==> with_frame(flow, VerificationFrameKind::Cancelled, told).stage
            == StageView::Ended("Verification cancelled — "@ + told.reason->0),
        flow.stage != StageView::Confirming ==> with_frame(
            flow,
            VerificationFrameKind::Sas,
            told,
        ).stage == StageView::Compare,
        !is_over(flow.stage) ==> with_frame(flow, VerificationFrameKind::Requested, told).stage
            == StageView::Waiting,
{
}

/// The emoji and the numbers to compare are the last that were told, and stay where a frame
/// tells none.
pub proof fn law_what_to_compare(
    flow: VerificationFlowView,
    kind: VerificationFrameKind,
    frame: VerificationFrameView,
    told: FlowView,
)
    ensures
        frame.emoji is Some ==> with_frame(flow, VerificationFrameKind::Sas, frame).emoji
            == frame.emoji,
        frame.emoji is None ==> with_frame(flow, kind, frame).emoji == flow.emoji,
        frame.decimals is Some ==> with_frame(flow, VerificationFrameKind::Sas, frame).decimals
            == frame.decimals,
        frame.decimals is None ==> with_frame(flow, kind, frame).decimals == flow.decimals,
        told.emoji is Some ==> with_flow(flow, told).emoji == told.emoji,
        told.emoji is None ==> with_flow(flow, told).emoji == flow.emoji,
        told.decimals is Some ==> with_flow(flow, told).decimals == told.decimals,
        told.decimals is None ==> with_flow(flow, told).decimals == flow.decimals,
{
}

/// What is not yet known of the peer is learnt from what is told.
pub proof fn law_peer_is_learnt(
    flow: VerificationFlowView,
    kind: VerificationFrameKind,
    frame: VerificationFrameView,
    told: FlowView,
)
    ensures
        flow.user_id.len() == 0 ==> with_frame(flow, kind, frame).user_id =~= frame.user_id
            && with_flow(flow, told).user_id =~= told.user_id,
        flow.device_id.len() == 0 && frame.device_id is Some ==> with_frame(
            flow,
            kind,
            frame,
        ).device_id == frame.device_id->0,
        flow.device_id.len() == 0 && told.device_id is Some ==> with_flow(flow, told).device_id
            == told.device_id->0,
        flow.flow_id is None ==> with_frame(flow, kind, frame).flow_id == Some(frame.flow_id),
        with_flow(flow, told).flow_id == flow.flow_id,
        with_frame(flow, kind, frame).account_id == flow.account_id,
        with_frame(flow, kind, frame).direction == flow.direction,
{
}

/// What the server tells of a flow brings it to the stage that the server is at. There is
/// nothing to compare before there are emoji.
pub proof fn law_server_stage_is_taken(flow: VerificationFlowView, told: FlowView)
    ensures
        ({
            let stage = with_flow(flow, told).stage;
            let emoji = told.emoji is Some || flow.emoji is Some;
            &&& told.stage == FlowStage::Requested ==> stage == StageView::Waiting
            &&& told.stage == FlowStage::Ready ==> stage == StageView::Waiting
            &&& told.stage == FlowStage::KeysExchanged && !emoji ==> stage == StageView::Waiting
            &&& told.stage == FlowStage::KeysExchanged && emoji && flow.stage
                != StageView::Confirming ==> stage == StageView::Compare
            &&& told.stage == FlowStage::Confirmed ==> stage == StageView::Confirming
            &&& told.stage == FlowStage::Done ==> stage == StageView::Done
            &&& told.stage == FlowStage::Cancelled ==> stage is Ended
        }),
{
}

/// A verification that the user starts is one of a user, where the target begins with an at
/// sign, and else one of an own device. The request says the same as the window.
pub proof fn law_started_verification(
    before: App,
    after: App,
    target: Seq<char>,
    task: TaskView,
    account_id: u128,
)
    requires
        verification_started(before, after, Some(target), task),
        trim(target).len() > 0,
        before.session.wired,
        verification_account(before.account_shown(), views(before.accounts.accounts@)) == Ok::<
            u128,
            Seq<char>,
        >(account_id),
    ensures
        after.mode@ == ModeView::Verification,
        flow_of(after) matches Some(flow) && flow.account_id == account_id && flow.flow_id is None
            && flow.stage == StageView::Starting && flow.direction
            == VerificationDirection::Outgoing && (begins(trim(target), "@"@) ==> flow.user_id
            == trim(target) && flow.device_id.len() == 0) && (!begins(trim(target), "@"@)
            ==> flow.device_id == trim(target) && flow.user_id.len() == 0),
        begins(trim(target), "@"@) ==> task == (TaskView::StartVerification {
            account_id,
            user_id: Some(trim(target)),
            device_id: None,
        }),
        !begins(trim(target), "@"@) ==> task == (TaskView::StartVerification {
            account_id,
            user_id: None,
            device_id: Some(trim(target)),
        }),
{
}

/// The account to verify is the one that is shown, else the only active one.
pub proof fn law_account_to_verify(app: App, i: int)
    requires
        0 <= i < app.accounts.accounts@.len(),
        app.accounts.accounts@[i]@.state == crate::api::dto::AccountState::Active,
        forall|k: int|
            0 <= k < app.accounts.accounts@.len() && k != i ==> (
            #[trigger] app.accounts.accounts@[k])@.state != crate::api::dto::AccountState::Active,
    ensures
        verification_account(None, views(app.accounts.accounts@)) == Ok::<u128, Seq<char>>(
            app.accounts.accounts@[i].account_id,
        ),
        forall|id: u128|
            #[trigger] verification_account(Some(id), views(app.accounts.accounts@)) == Ok::<
                u128,
                Seq<char>,
            >(id),
{
    let accounts = views(app.accounts.accounts@);
    assert forall|k: int| 0 <= k < accounts.len() && k != i implies (#[trigger] accounts[k]).state
        != crate::api::dto::AccountState::Active by {
        assert(accounts[k] == app.accounts.accounts@[k]@);
    }
    lemma_only_active(accounts, i);
}

proof fn lemma_only_active(accounts: Seq<crate::api::dto::AccountView>, i: int)
    requires
        0 <= i < accounts.len(),
        accounts[i].state == crate::api::dto::AccountState::Active,
        forall|k: int|
            0 <= k < accounts.len() && k != i ==> (#[trigger] accounts[k]).state
                != crate::api::dto::AccountState::Active,
    ensures
        crate::app::lifecycle::active_ids(accounts) == seq![accounts[i].account_id],
    decreases accounts.len(),
{
    let rest = accounts.drop_last();
    assert forall|k: int| 0 <= k < rest.len() && k != i implies (#[trigger] rest[k]).state
        != crate::api::dto::AccountState::Active by {
        assert(rest[k] == accounts[k]);
    }
    assert(accounts.last() == accounts[accounts.len() - 1]);
    if i == accounts.len() - 1 {
        lemma_none_active(rest);
        assert(crate::app::lifecycle::active_ids(accounts) =~= seq![accounts[i].account_id]);
    } else {
        lemma_only_active(rest, i);
    }
}

proof fn lemma_none_active(accounts: Seq<crate::api::dto::AccountView>)
    requires
        forall|k: int|
            0 <= k < accounts.len() ==> (#[trigger] accounts[k]).state
                != crate::api::dto::AccountState::Active,
    ensures
        crate::app::lifecycle::active_ids(accounts) == Seq::<u128>::empty(),
    decreases accounts.len(),
{
    if accounts.len() > 0 {
        let rest = accounts.drop_last();
        assert forall|k: int| 0 <= k < rest.len() implies (#[trigger] rest[k]).state
            != crate::api::dto::AccountState::Active by {
            assert(rest[k] == accounts[k]);
        }
        assert(accounts.last() == accounts[accounts.len() - 1]);
        lemma_none_active(rest);
    }
}

/// Requests of the user's own devices are always shown. Those of others are shown only
/// where the user accepts them.
pub proof fn law_whose_requests_are_shown(app: App, account_id: u128, user_id: Seq<char>, i: int)
    requires
        0 <= i < app.accounts.accounts@.len(),
        app.accounts.accounts@[i].account_id == account_id,
        forall|k: int| 0 <= k < i ==> (#[trigger] app.accounts.accounts@[k]).account_id != account_id,
    ensures
        user_id == app.accounts.accounts@[i].user_id@ ==> !app.suppresses(account_id, user_id),
        app.display.accept_incoming_verification ==> !app.suppresses(account_id, user_id),
        user_id.len() > 0 && user_id != app.accounts.accounts@[i].user_id@
            && !app.display.accept_incoming_verification ==> app.suppresses(account_id, user_id),
{
    let accounts = views(app.accounts.accounts@);
    assert forall|k: int| 0 <= k < i implies (#[trigger] accounts[k]).account_id != account_id by {
        assert(accounts[k] == app.accounts.accounts@[k]@);
    }
    crate::laws::accounts::lemma_account_at(accounts, account_id, i);
}

/// Of the flows that the server knows, the first that is still open and may be shown is the
/// one that is shown. Each open one before it is declined.
pub proof fn law_first_open_flow_is_shown(app: App, account_id: u128, flows: Seq<FlowView>, i: int)
    requires
        0 <= i < flows.len(),
        flows[i].stage != FlowStage::Done,
        flows[i].stage != FlowStage::Cancelled,
        !app.suppresses(account_id, flows[i].user_id),
        forall|k: int|
            0 <= k < i ==> (#[trigger] flows[k]).stage == FlowStage::Done || flows[k].stage
                == FlowStage::Cancelled || app.suppresses(account_id, flows[k].user_id),
    ensures
        discovered(app, account_id, flows).1 == Some(flows[i]),
        forall|k: int|
            0 <= k < i && (#[trigger] flows[k]).stage != FlowStage::Done && flows[k].stage
                != FlowStage::Cancelled ==> discovered(app, account_id, flows).0.contains(
                TaskView::DeclineVerification { account_id, flow_id: flows[k].flow_id },
            ),
    decreases flows.len(),
{
    if i > 0 {
        let rest = flows.drop_first();
        assert forall|k: int| 0 <= k < i - 1 implies (#[trigger] rest[k]).stage == FlowStage::Done
            || rest[k].stage == FlowStage::Cancelled || app.suppresses(account_id, rest[k].user_id) by {
            assert(rest[k] == flows[k + 1]);
        }
        law_first_open_flow_is_shown(app, account_id, rest, i - 1);
        let tasks = discovered(app, account_id, flows).0;
        let later = discovered(app, account_id, rest).0;
        assert(flows[0].stage == FlowStage::Done || flows[0].stage == FlowStage::Cancelled
            || app.suppresses(account_id, flows[0].user_id));
        assert forall|k: int|
            0 <= k < i && (#[trigger] flows[k]).stage != FlowStage::Done && flows[k].stage
                != FlowStage::Cancelled implies tasks.contains(
            TaskView::DeclineVerification { account_id, flow_id: flows[k].flow_id },
        ) by {
            let task = TaskView::DeclineVerification { account_id, flow_id: flows[k].flow_id };
            if k == 0 {
                assert(tasks[0] == task);
            } else {
                assert(rest[k - 1] == flows[k]);
                assert(later.contains(task));
                let p = choose|p: int| 0 <= p < later.len() && later[p] == task;
                if flows[0].stage == FlowStage::Done || flows[0].stage == FlowStage::Cancelled {
                    assert(tasks[p] == task);
                } else {
                    assert(tasks[p + 1] == task);
                }
            }
        }
    }
}

/// The id that the server gives a flow is taken over by the window that waits for it, and
/// by no other.
pub proof fn law_flow_id_is_taken_once(before: App, after: App, account_id: u128, flow_id: Seq<char>)
    requires
        verify_started(before, after, account_id, flow_id),
        flow_of(before) is Some,
    ensures
        flow_of(before)->0.account_id == account_id && flow_of(before)->0.flow_id is None
            ==> flow_of(after) is Some && flow_of(after)->0.flow_id == Some(flow_id) && flow_of(
            after,
        )->0.user_id == flow_of(before)->0.user_id && flow_of(after)->0.device_id == flow_of(
            before,
        )->0.device_id,
        flow_of(before)->0.account_id != account_id || flow_of(before)->0.flow_id is Some ==> after
            == before,
{
}

/// What the server tells of another flow, or of one that is over, changes nothing.
pub proof fn law_other_flows_change_nothing(
    before: App,
    after: App,
    account_id: u128,
    flow_id: Seq<char>,
    told: FlowView,
)
    requires
        verify_resynced(before, after, account_id, flow_id, told),
        flow_of(before) is Some,
    ensures
        flow_of(before)->0.account_id != account_id || flow_of(before)->0.flow_id != Some(flow_id)
            || is_over(flow_of(before)->0.stage) ==> after == before,
{
}

} // verus!
