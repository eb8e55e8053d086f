//! The verification of a device or user by comparing emoji.

use vstd::prelude::*;

use crate::api::dto::{
    decimals_view, emoji_option_view, EmojiDto, EmojiView, FlowDto, FlowStage, FlowView,
    VerificationFrameDto, VerificationFrameView,
};
use crate::api::live::VerificationFrameKind;
use crate::text::{cat2, option_str_view, option_view, same_text, views};

verus! {

/// Which side started the flow.
#[derive(Debug, Clone, Copy, PartialEq, Eq, Structural)]
pub enum VerificationDirection {
    Incoming,
    Outgoing,
}

/// What the verification window shows.
#[derive(Debug, PartialEq, Eq)]
pub enum VerificationStage {
    /// The request is on its way and has no flow id yet.
    Starting,
    /// The flow is open and there are no emoji yet.
    Waiting,
    /// The user compares the emoji.
    Compare,
    /// The user confirmed and waits for the peer.
    Confirming,
    /// It succeeded.
    Done,
    /// It was cancelled or failed, for this reason.
    Ended(String),
}

pub enum StageView {
    Starting,
    Waiting,
    Compare,
    Confirming,
    Done,
    Ended(Seq<char>),
}

impl View for VerificationStage {
    type V = StageView;

    open spec fn view(&self) -> StageView {
        match self {
            VerificationStage::Starting => StageView::Starting,
            VerificationStage::Waiting => StageView::Waiting,
            VerificationStage::Compare => StageView::Compare,
            VerificationStage::Confirming => StageView::Confirming,
            VerificationStage::Done => StageView::Done,
            VerificationStage::Ended(m) => StageView::Ended(m@),
        }
    }
}

/// Whether the user has only to dismiss the window.
pub open spec fn terminal(stage: StageView) -> bool {
    stage is Done || stage is Ended
}

impl VerificationStage {
    pub fn is_terminal(&self) -> (r: bool)
        ensures
            r == terminal(self@),
    {
        match self {
            VerificationStage::Done => true,
            VerificationStage::Ended(_) => true,
            _ => false,
        }
    }

    pub fn is_confirming(&self) -> (r: bool)
        ensures
            r == (self@ is Confirming),
    {
        match self {
            VerificationStage::Confirming => true,
            _ => false,
        }
    }

    pub fn is_compare(&self) -> (r: bool)
        ensures
            r == (self@ is Compare),
    {
        match self {
            VerificationStage::Compare => true,
            _ => false,
        }
    }

    pub fn copy(&self) -> (out: VerificationStage)
        ensures
            out@ == self@,
    {
        match self {
            VerificationStage::Starting => VerificationStage::Starting,
            VerificationStage::Waiting => VerificationStage::Waiting,
            VerificationStage::Compare => VerificationStage::Compare,
            VerificationStage::Confirming => VerificationStage::Confirming,
            VerificationStage::Done => VerificationStage::Done,
            VerificationStage::Ended(m) => VerificationStage::Ended(m.clone()),
        }
    }
}

/// The state of the verification window. There is one flow at a time.
#[derive(Debug, PartialEq, Eq)]
pub struct VerificationFlow {
    pub account_id: u128,
    /// The user being verified, empty where the server did not say.
    pub user_id: String,
    pub device_id: String,
    /// Absent between a request and the reply to it.
    pub flow_id: Option<String>,
    pub direction: VerificationDirection,
    pub stage: VerificationStage,
    pub emoji: Option<Vec<EmojiDto>>,
    pub decimals: Option<[u16; 3]>,
}

#[verifier::ext_equal]
pub struct VerificationFlowView {
    pub account_id: u128,
    pub user_id: Seq<char>,
    pub device_id: Seq<char>,
    pub flow_id: Option<Seq<char>>,
    pub direction: VerificationDirection,
    pub stage: StageView,
    pub emoji: Option<Seq<EmojiView>>,
    pub decimals: Option<(u16, u16, u16)>,
}

impl View for VerificationFlow {
    type V = VerificationFlowView;

    open spec fn view(&self) -> VerificationFlowView {
        VerificationFlowView {
            account_id: self.account_id,
            user_id: self.user_id@,
            device_id: self.device_id@,
            flow_id: option_view(self.flow_id),
            direction: self.direction,
            stage: self.stage@,
            emoji: emoji_option_view(self.emoji),
            decimals: decimals_view(self.decimals),
        }
    }
}

pub fn copy_emoji(emoji: &Option<Vec<EmojiDto>>) -> (out: Option<Vec<EmojiDto>>)
    ensures
        emoji_option_view(out) == emoji_option_view(*emoji),
{
    match emoji {
        None => None,
        Some(list) => {
            let mut out: Vec<EmojiDto> = Vec::new();
            let mut i: usize = 0;
            while i < list.len()
                invariant
                    i <= list.len(),
                    out.len() == i,
                    forall|k: int| 0 <= k < i ==> (#[trigger] out@[k])@ == list@[k]@,
                decreases list.len() - i,
            {
                out.push(
                    EmojiDto {
                        symbol: list[i].symbol.clone(),
                        description: list[i].description.clone(),
                    },
                );
                i = i + 1;
            }
            assert(views(out@) =~= views(list@));
            Some(out)
        },
    }
}

/// The message of a cancelled verification.
pub open spec fn cancelled_text(reason: Option<Seq<char>>) -> Seq<char> {
    match reason {
        Some(r) => "Verification cancelled — "@ + r,
        None => "Verification cancelled"@,
    }
}

pub fn describe_cancelled(reason: Option<&str>) -> (out: String)
    ensures
        out@ == cancelled_text(option_str_view(reason)),
{
    match reason {
        Some(r) => cat2("Verification cancelled — ", r),
        None => "Verification cancelled".to_owned(),
    }
}

/// What the window shows for a flow at a stage of the server.
pub open spec fn stage_of(stage: FlowStage, has_emoji: bool, reason: Option<Seq<char>>) -> StageView {
    match stage {
        FlowStage::Requested => StageView::Waiting,
        FlowStage::Ready => StageView::Waiting,
        FlowStage::KeysExchanged => if has_emoji {
            StageView::Compare
        } else {
            StageView::Waiting
        },
        FlowStage::Confirmed => StageView::Confirming,
        FlowStage::Done => StageView::Done,
        FlowStage::Cancelled => StageView::Ended(cancelled_text(reason)),
    }
}

pub open spec fn or_else_known(have: Seq<char>, told: Seq<char>) -> Seq<char> {
    if have.len() == 0 && told.len() > 0 {
        told
    } else {
        have
    }
}

pub open spec fn or_else_device(have: Seq<char>, told: Option<Seq<char>>) -> Seq<char> {
    if have.len() == 0 && told is Some {
        told->0
    } else {
        have
    }
}

/// The flow after the server told its whole state. What the user already
/// confirmed is not taken back because the server has not seen it yet.
pub open spec fn with_flow(flow: VerificationFlowView, told: FlowView) -> VerificationFlowView {
    let emoji = if told.emoji is Some {
        told.emoji
    } else {
        flow.emoji
    };
    let next = stage_of(told.stage, emoji is Some, told.cancel_reason);
    VerificationFlowView {
        user_id: or_else_known(flow.user_id, told.user_id),
        device_id: or_else_device(flow.device_id, told.device_id),
        emoji,
        decimals: if told.decimals is Some {
            told.decimals
        } else {
            flow.decimals
        },
        stage: if flow.stage is Confirming && next is Compare {
            flow.stage
        } else {
            next
        },
        ..flow
    }
}

/// The flow after a live frame.
pub open spec fn with_frame(
    flow: VerificationFlowView,
    kind: VerificationFrameKind,
    told: VerificationFrameView,
) -> VerificationFlowView {
    let known = VerificationFlowView {
        flow_id: if flow.flow_id is None {
            Some(told.flow_id)
        } else {
            flow.flow_id
        },
        user_id: or_else_known(flow.user_id, told.user_id),
        device_id: or_else_device(flow.device_id, told.device_id),
        ..flow
    };
    match kind {
        VerificationFrameKind::Requested => if terminal(flow.stage) {
            known
        } else {
            VerificationFlowView { stage: StageView::Waiting, ..known }
        },
        VerificationFrameKind::Sas => VerificationFlowView {
            emoji: if told.emoji is Some {
                told.emoji
            } else {
                flow.emoji
            },
            decimals: if told.decimals is Some {
                told.decimals
            } else {
                flow.decimals
            },
            stage: if flow.stage is Confirming {
                flow.stage
            } else {
                StageView::Compare
            },
            ..known
        },
        VerificationFrameKind::Done => VerificationFlowView { stage: StageView::Done, ..known },
        VerificationFrameKind::Cancelled => VerificationFlowView {
            stage: StageView::Ended(cancelled_text(told.reason)),
            ..known
        },
    }
}

/// Whether a flow is the one that a frame or reply speaks of.
pub open spec fn flow_matches(flow: VerificationFlowView, account_id: u128, flow_id: Seq<char>) -> bool {
    flow.account_id == account_id && flow.flow_id == Some(flow_id)
}

/// Whether a flow waits for the reply to its own request on the account.
pub open spec fn pending_outgoing(flow: VerificationFlowView, account_id: u128) -> bool {
    flow.account_id == account_id && flow.flow_id is None && flow.direction
        == VerificationDirection::Outgoing
}

pub open spec fn names_device(flow: VerificationFlowView, device_id: Option<Seq<char>>) -> bool {
    device_id is Some && device_id->0.len() > 0 && flow.device_id == device_id->0
}

impl VerificationFlow {
    pub fn matches(&self, account_id: u128, flow_id: &str) -> (r: bool)
        ensures
            r == flow_matches(self@, account_id, flow_id@),
    {
        if self.account_id != account_id {
            return false;
        }
        match &self.flow_id {
            Some(id) => same_text(id.as_str(), flow_id),
            None => false,
        }
    }

    fn awaits_reply(&self, account_id: u128) -> (r: bool)
        ensures
            r == pending_outgoing(self@, account_id),
    {
        self.account_id == account_id && self.flow_id.is_none() && self.direction
            == VerificationDirection::Outgoing
    }

    fn is_for_device(&self, device_id: Option<&str>) -> (r: bool)
        ensures
            r == names_device(self@, option_str_view(device_id)),
    {
        match device_id {
            Some(d) => !d.is_empty() && same_text(self.device_id.as_str(), d),
            None => false,
        }
    }

    /// Whether a frame may be the echo of the client's own request whose reply
    /// has not come yet.
    pub fn is_pending_outgoing_target(
        &self,
        account_id: u128,
        user_id: &str,
        device_id: Option<&str>,
    ) -> (r: bool)
        ensures
            r == (pending_outgoing(self@, account_id) && (names_device(
                self@,
                option_str_view(device_id),
            ) || (user_id@.len() > 0 && self@.user_id == user_id@))),
    {
        if !self.awaits_reply(account_id) {
            return false;
        }
        self.is_for_device(device_id) || (!user_id.is_empty() && same_text(
            self.user_id.as_str(),
            user_id,
        ))
    }

    /// Whether a frame names the device of the client's own request. A user id
    /// is no proof, for a user may have more flows than one.
    pub fn is_pending_outgoing_device(&self, account_id: u128, device_id: Option<&str>) -> (r: bool)
        ensures
            r == (pending_outgoing(self@, account_id) && names_device(
                self@,
                option_str_view(device_id),
            )),
    {
        self.awaits_reply(account_id) && self.is_for_device(device_id)
    }

    pub fn stage_from(stage: FlowStage, has_emoji: bool, cancel_reason: Option<&str>) -> (out:
        VerificationStage)
        ensures
            out@ == stage_of(stage, has_emoji, option_str_view(cancel_reason)),
    {
        match stage {
            FlowStage::Requested => VerificationStage::Waiting,
            FlowStage::Ready => VerificationStage::Waiting,
            FlowStage::KeysExchanged => if has_emoji {
                VerificationStage::Compare
            } else {
                VerificationStage::Waiting
            },
            FlowStage::Confirmed => VerificationStage::Confirming,
            FlowStage::Done => VerificationStage::Done,
            FlowStage::Cancelled => VerificationStage::Ended(describe_cancelled(cancel_reason)),
        }
    }

    fn learn_identity(&mut self, user_id: &String, device_id: &Option<String>)
        ensures
            final(self)@ == (VerificationFlowView {
                user_id: or_else_known(old(self)@.user_id, user_id@),
                device_id: or_else_device(old(self)@.device_id, option_view(*device_id)),
                ..old(self)@
            }),
    {
        if self.user_id.as_str().is_empty() && !user_id.as_str().is_empty() {
            self.user_id = user_id.clone();
        }
        if let Some(d) = device_id {
            if self.device_id.as_str().is_empty() {
                self.device_id = d.clone();
            }
        }
    }

    pub fn apply_flow(&mut self, flow: &FlowDto)
        ensures
            final(self)@ == with_flow(old(self)@, flow@),
    {
        self.learn_identity(&flow.user_id, &flow.device_id);
        if flow.emoji.is_some() {
            self.emoji = copy_emoji(&flow.emoji);
        }
        if flow.decimals.is_some() {
            self.decimals = flow.decimals;
        }
        let reason = match &flow.cancel_reason {
            Some(r) => Some(r.as_str()),
            None => None,
        };
        let next = VerificationFlow::stage_from(flow.stage, self.emoji.is_some(), reason);
        if !(self.stage.is_confirming() && next.is_compare()) {
            self.stage = next;
        }
    }

    pub fn apply_frame(&mut self, kind: VerificationFrameKind, payload: &VerificationFrameDto)
        ensures
            final(self)@ == with_frame(old(self)@, kind, payload@),
    {
        if self.flow_id.is_none() {
            self.flow_id = Some(payload.flow_id.clone());
        }
        self.learn_identity(&payload.user_id, &payload.device_id);
        match kind {
            VerificationFrameKind::Requested => {
                if !self.stage.is_terminal() {
                    self.stage = VerificationStage::Waiting;
                }
            },
            VerificationFrameKind::Sas => {
                if payload.emoji.is_some() {
                    self.emoji = copy_emoji(&payload.emoji);
                }
                if payload.decimals.is_some() {
                    self.decimals = payload.decimals;
                }
                if !self.stage.is_confirming() {
                    self.stage = VerificationStage::Compare;
                }
            },
            VerificationFrameKind::Done => {
                self.stage = VerificationStage::Done;
            },
            VerificationFrameKind::Cancelled => {
                let reason = match &payload.reason {
                    Some(r) => Some(r.as_str()),
                    None => None,
                };
                self.stage = VerificationStage::Ended(describe_cancelled(reason));
            },
        }
    }
}

/// Neither a frame nor the state of the server takes the user back from
/// confirming to comparing.
pub proof fn law_confirming_is_kept(
    flow: VerificationFlowView,
    told: FlowView,
    kind: VerificationFrameKind,
    frame: VerificationFrameView,
)
    requires
        flow.stage is Confirming,
    ensures
        with_flow(flow, told).stage !is Compare,
        with_frame(flow, kind, frame).stage !is Compare,
{
}

/// A repeated request does not bring a flow that is over back to life.
pub proof fn law_request_keeps_terminal(flow: VerificationFlowView, frame: VerificationFrameView)
    requires
        terminal(flow.stage),
    ensures
        with_frame(flow, VerificationFrameKind::Requested, frame).stage == flow.stage,
{
}

/// What is known of the peer is never replaced, and a flow keeps its id.
pub proof fn law_identity_is_kept(
    flow: VerificationFlowView,
    told: FlowView,
    kind: VerificationFrameKind,
    frame: VerificationFrameView,
)
    ensures
        flow.user_id.len() > 0 ==> with_flow(flow, told).user_id == flow.user_id && with_frame(
            flow,
            kind,
            frame,
        ).user_id == flow.user_id,
        flow.device_id.len() > 0 ==> with_flow(flow, told).device_id == flow.device_id
            && with_frame(flow, kind, frame).device_id == flow.device_id,
        flow.flow_id is Some ==> with_frame(flow, kind, frame).flow_id == flow.flow_id,
        with_flow(flow, told).flow_id == flow.flow_id,
        with_flow(flow, told).account_id == flow.account_id,
        with_frame(flow, kind, frame).account_id == flow.account_id,
{
}

/// The same state of the server told twice changes nothing more.
pub proof fn law_flow_is_idempotent(flow: VerificationFlowView, told: FlowView)
    ensures
        with_flow(with_flow(flow, told), told) == with_flow(flow, told),
{
}

} // verus!
