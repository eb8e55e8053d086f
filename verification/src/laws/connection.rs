//! What comes over the live connection, and how it is kept.

use vstd::prelude::*;

use crate::api::dto::{
    DeviceStateChangedDto, EphemeralPassthroughDto, EventDto, SenderTrustViolationDto,
    VerificationFrameDto, Wire,
};
use crate::api::live::{
    link_step, routed, LinkAction, LinkEvent, LinkPhase, LiveFrameView, LiveLink,
    VerificationFrameKind, WsEnvelopeView,
};
use crate::json::JsonView;

verus! {

proof fn lemma_kinds_differ()
    ensures
        "verification.requested"@.len() == 22,
        "verification.sas"@.len() == 16,
        "verification.done"@.len() == 17,
        "verification.cancelled"@.len() == 22,
        "verification.requested"@[13] == 'r',
        "verification.cancelled"@[13] == 'c',
        "timeline.event"@.len() == 14,
        "sender_trust.violation"@.len() == 22,
        "sender_trust.violation"@[13] == 'v',
        "device_state.changed"@.len() == 20,
        "ephemeral.passthrough"@.len() == 21,
{
    reveal_strlit("verification.requested");
    reveal_strlit("verification.sas");
    reveal_strlit("verification.done");
    reveal_strlit("verification.cancelled");
    reveal_strlit("timeline.event");
    reveal_strlit("sender_trust.violation");
    reveal_strlit("device_state.changed");
    reveal_strlit("ephemeral.passthrough");
}

/// An event that the server sends for its own account is an event of the timeline. One for
/// another account is a fault.
pub proof fn law_timeline_frame(envelope: WsEnvelopeView<JsonView>)
    requires
        envelope.kind == "timeline.event"@,
        EventDto::wire(envelope.payload) is Ok,
    ensures
        EventDto::wire(envelope.payload)->Ok_0.account_id == envelope.account_id ==> routed(envelope)
            == Some(LiveFrameView::Timeline(EventDto::wire(envelope.payload)->Ok_0)),
        EventDto::wire(envelope.payload)->Ok_0.account_id != envelope.account_id ==> routed(envelope)
            matches Some(LiveFrameView::ProtocolError(_)),
{
    lemma_kinds_differ();
}

/// A frame of a verification says which step it is, by its type.
pub proof fn law_verification_frames(envelope: WsEnvelopeView<JsonView>, kind: VerificationFrameKind)
    requires
        envelope.kind == match kind {
            VerificationFrameKind::Requested => "verification.requested"@,
            VerificationFrameKind::Sas => "verification.sas"@,
            VerificationFrameKind::Done => "verification.done"@,
            VerificationFrameKind::Cancelled => "verification.cancelled"@,
        },
        VerificationFrameDto::wire(envelope.payload) is Ok,
    ensures
        routed(envelope) == Some(
            LiveFrameView::Verification(
                envelope.account_id,
                kind,
                VerificationFrameDto::wire(envelope.payload)->Ok_0,
            ),
        ),
{
    lemma_kinds_differ();
}

/// Each other type of frame carries its own payload for the account that it names.
pub proof fn law_other_frames(envelope: WsEnvelopeView<JsonView>)
    ensures
        envelope.kind == "sender_trust.violation"@ && SenderTrustViolationDto::wire(
            envelope.payload,
        ) is Ok ==> routed(envelope) == Some(
            LiveFrameView::SenderTrustViolation(
                envelope.account_id,
                SenderTrustViolationDto::wire(envelope.payload)->Ok_0,
            ),
        ),
        envelope.kind == "device_state.changed"@ && DeviceStateChangedDto::wire(envelope.payload)
            is Ok ==> routed(envelope) == Some(
            LiveFrameView::DeviceState(
                envelope.account_id,
                DeviceStateChangedDto::wire(envelope.payload)->Ok_0,
            ),
        ),
        envelope.kind == "ephemeral.passthrough"@ && EphemeralPassthroughDto::wire(envelope.payload)
            is Ok ==> routed(envelope) == Some(
            LiveFrameView::Ephemeral(
                envelope.account_id,
                EphemeralPassthroughDto::wire(envelope.payload)->Ok_0,
            ),
        ),
{
    lemma_kinds_differ();
}

/// Where a connection breaks, the client says so, waits, and connects again. While it fails,
/// each wait is twice as long as the one before it, up to half a minute. A connection that
/// stands begins anew.
pub proof fn law_broken_connection_is_renewed(link: LiveLink, reason: String)
    requires
        0 < link.backoff_ms <= 30_000,
    ensures
        ({
            let (after, frame, action) = link_step(link, LinkEvent::Refused(reason));
            &&& after.phase == LinkPhase::Waiting
            &&& action == LinkAction::Sleep(link.backoff_ms)
            &&& frame == Some(
                LiveFrameView::Reconnecting { reason: reason@, delay_ms: link.backoff_ms },
            )
            &&& link_step(link, LinkEvent::Failed(reason)) == (after, frame, action)
            &&& link_step(link, LinkEvent::Closed).2 == action
            &&& link_step(link, LinkEvent::Closed).0 == after
            &&& link_step(after, LinkEvent::Waited).2 == LinkAction::Connect
            &&& link_step(after, LinkEvent::Waited).1 is None
            &&& 2 * link.backoff_ms <= 30_000 ==> link_step(after, LinkEvent::Waited).0.backoff_ms
                == 2 * link.backoff_ms
            &&& 2 * link.backoff_ms > 30_000 ==> link_step(after, LinkEvent::Waited).0.backoff_ms
                == 30_000
            &&& link_step(after, LinkEvent::Opened) == (
                LiveLink { phase: LinkPhase::Reading, backoff_ms: 1_000 },
                Some(LiveFrameView::Connected),
                LinkAction::Read,
            )
        }),
{
}

/// What cannot be read does not break the connection: it is told, and the client reads on.
pub proof fn law_unreadable_frame_is_told(link: LiveLink, text: String, refused: Option<String>)
    ensures
        ({
            let (after, frame, action) = link_step(link, LinkEvent::Text { text, refused });
            &&& after == link
            &&& action == LinkAction::Read
            &&& refused is Some ==> frame matches Some(LiveFrameView::ProtocolError(_))
        }),
        link_step(link, LinkEvent::Other) == (link, None::<LiveFrameView>, LinkAction::Read),
{
}

} // verus!
