//! The live socket: its frames, and when it is connected again.

use vstd::prelude::*;

use crate::api::client::{error_text, live_url, AxonClient};
use crate::api::dto::{
    by_name, name_items, no_words, read_wire, take_json, taken, wire_field, DeviceStateChangedDto,
    DeviceStateChangedView, EphemeralPassthroughDto, EphemeralPassthroughView, EventDto, EventView,
    SenderTrustViolationDto, SenderTrustViolationView, VerificationFrameDto, VerificationFrameView,
    Wire,
};
use crate::api::field::{id_field, read_id, read_text, text_field};
use crate::json::{Json, JsonView};
use crate::text::{option_str, option_str_view, option_view, same_text, views};

verus! {

/// Milliseconds before the first attempt to connect again.
pub const LIVE_RECONNECT_INITIAL_BACKOFF: u64 = 1_000;

/// The longest wait between two attempts, in milliseconds.
pub const LIVE_RECONNECT_MAX_BACKOFF: u64 = 30_000;

// ---------------------------------------------------------------------------
// Frames
// ---------------------------------------------------------------------------

/// Which `verification.*` frame it is.
#[derive(Debug, Clone, Copy, PartialEq, Eq, Structural)]
pub enum VerificationFrameKind {
    Requested,
    Sas,
    Done,
    Cancelled,
}

/// The kind of verification frame that a type names.
pub open spec fn verification_kind(kind: Seq<char>) -> Option<VerificationFrameKind> {
    if kind == "verification.requested"@ {
        Some(VerificationFrameKind::Requested)
    } else if kind == "verification.sas"@ {
        Some(VerificationFrameKind::Sas)
    } else if kind == "verification.done"@ {
        Some(VerificationFrameKind::Done)
    } else if kind == "verification.cancelled"@ {
        Some(VerificationFrameKind::Cancelled)
    } else {
        None
    }
}

impl VerificationFrameKind {
    pub fn from_type(kind: &str) -> (out: Option<VerificationFrameKind>)
        ensures
            out == verification_kind(kind@),
    {
        if same_text(kind, "verification.requested") {
            Some(VerificationFrameKind::Requested)
        } else if same_text(kind, "verification.sas") {
            Some(VerificationFrameKind::Sas)
        } else if same_text(kind, "verification.done") {
            Some(VerificationFrameKind::Done)
        } else if same_text(kind, "verification.cancelled") {
            Some(VerificationFrameKind::Cancelled)
        } else {
            None
        }
    }
}

/// What the payload of a frame is read as.
#[derive(Debug, Clone, Copy, PartialEq, Eq, Structural)]
pub enum PayloadKind {
    Verification(VerificationFrameKind),
    Timeline,
    SenderTrust,
    DeviceState,
    Ephemeral,
}

/// What the payload of a frame is read as, by the type of the frame.
pub open spec fn payload_kind_of(kind: Seq<char>) -> Option<PayloadKind> {
    match verification_kind(kind) {
        Some(k) => Some(PayloadKind::Verification(k)),
        None => if kind == "timeline.event"@ {
            Some(PayloadKind::Timeline)
        } else if kind == "sender_trust.violation"@ {
            Some(PayloadKind::SenderTrust)
        } else if kind == "device_state.changed"@ {
            Some(PayloadKind::DeviceState)
        } else if kind == "ephemeral.passthrough"@ {
            Some(PayloadKind::Ephemeral)
        } else {
            None
        },
    }
}

pub fn payload_kind(kind: &str) -> (out: Option<PayloadKind>)
    ensures
        out == payload_kind_of(kind@),
{
    match VerificationFrameKind::from_type(kind) {
        Some(k) => Some(PayloadKind::Verification(k)),
        None => if same_text(kind, "timeline.event") {
            Some(PayloadKind::Timeline)
        } else if same_text(kind, "sender_trust.violation") {
            Some(PayloadKind::SenderTrust)
        } else if same_text(kind, "device_state.changed") {
            Some(PayloadKind::DeviceState)
        } else if same_text(kind, "ephemeral.passthrough") {
            Some(PayloadKind::Ephemeral)
        } else {
            None
        },
    }
}

/// A `verification.*` frame: its kind and its payload.
#[derive(Debug)]
pub struct VerificationFrame {
    pub account_id: u128,
    pub kind: VerificationFrameKind,
    pub payload: VerificationFrameDto,
}

/// What the live socket tells the client.
#[allow(inconsistent_fields)]
#[derive(Debug)]
pub enum LiveFrame {
    Connected,
    Reconnecting { reason: String, delay_ms: u64 },
    Disconnected(String),
    ProtocolError(String),
    Timeline(Box<EventDto>),
    /// The bus may drop frames, so these are hints: the flow is read again after
    /// a reconnect.
    Verification(VerificationFrame),
    SenderTrustViolation { account_id: u128, payload: SenderTrustViolationDto },
    /// Another device wrote its state. A frame with this client's own device id
    /// is its own write come back.
    DeviceState { account_id: u128, payload: DeviceStateChangedDto },
    Ephemeral { account_id: u128, payload: EphemeralPassthroughDto },
}

pub enum LiveFrameView {
    Connected,
    Reconnecting { reason: Seq<char>, delay_ms: u64 },
    Disconnected(Seq<char>),
    ProtocolError(Seq<char>),
    Timeline(EventView),
    Verification(u128, VerificationFrameKind, VerificationFrameView),
    SenderTrustViolation(u128, SenderTrustViolationView),
    DeviceState(u128, DeviceStateChangedView),
    Ephemeral(u128, EphemeralPassthroughView),
}

impl View for LiveFrame {
    type V = LiveFrameView;

    open spec fn view(&self) -> LiveFrameView {
        match self {
            LiveFrame::Connected => LiveFrameView::Connected,
            LiveFrame::Reconnecting { reason, delay_ms } => LiveFrameView::Reconnecting {
                reason: reason@,
                delay_ms: *delay_ms,
            },
            LiveFrame::Disconnected(m) => LiveFrameView::Disconnected(m@),
            LiveFrame::ProtocolError(m) => LiveFrameView::ProtocolError(m@),
            LiveFrame::Timeline(e) => LiveFrameView::Timeline((**e)@),
            LiveFrame::Verification(f) => LiveFrameView::Verification(
                f.account_id,
                f.kind,
                f.payload@,
            ),
            LiveFrame::SenderTrustViolation { account_id, payload } =>
                LiveFrameView::SenderTrustViolation(*account_id, payload@),
            LiveFrame::DeviceState { account_id, payload } => LiveFrameView::DeviceState(
                *account_id,
                payload@,
            ),
            LiveFrame::Ephemeral { account_id, payload } => LiveFrameView::Ephemeral(
                *account_id,
                payload@,
            ),
        }
    }
}

/// The envelope of a frame: its type, the account and the payload.
#[derive(Debug)]
pub struct WsEnvelope<T> {
    pub kind: String,
    pub account_id: u128,
    pub payload: T,
}

#[verifier::ext_equal]
pub struct WsEnvelopeView<T> {
    pub kind: Seq<char>,
    pub account_id: u128,
    pub payload: T,
}

impl<T: View> View for WsEnvelope<T> {
    type V = WsEnvelopeView<T::V>;

    open spec fn view(&self) -> WsEnvelopeView<T::V> {
        WsEnvelopeView {
            kind: self.kind@,
            account_id: self.account_id,
            payload: self.payload@,
        }
    }
}

impl<T: Wire> Wire for WsEnvelope<T> {
    open spec fn wire(j: JsonView) -> Result<WsEnvelopeView<T::V>, Seq<char>> {
        let j = by_name(j, seq!["type"@, "account_id"@, "payload"@], 3);
        let kind = text_field(j, "type"@);
        let account_id = id_field(j, "account_id"@);
        let payload = wire_field::<T>(j, "payload"@);
        if kind is Err {
            Err(kind->Err_0)
        } else if account_id is Err {
            Err(account_id->Err_0)
        } else if payload is Err {
            Err(payload->Err_0)
        } else {
            Ok(
                WsEnvelopeView {
                    kind: kind->Ok_0,
                    account_id: account_id->Ok_0,
                    payload: payload->Ok_0,
                },
            )
        }
    }

    fn from_json(j: &Json) -> (out: Result<WsEnvelope<T>, String>) {
        let names: Vec<&str> = vec!["type", "account_id", "payload"];
        assert(views(names@) =~= seq!["type"@, "account_id"@, "payload"@]);
        let named = name_items(j, &names, 3);
        let j = match &named {
            Some(n) => n,
            None => j,
        };
        let kind = match read_text(j, "type") {
            Ok(v) => v,
            Err(e) => return Err(e),
        };
        let account_id = match read_id(j, "account_id") {
            Ok(v) => v,
            Err(e) => return Err(e),
        };
        let payload = match read_wire::<T>(j, "payload") {
            Ok(v) => v,
            Err(e) => return Err(e),
        };
        Ok(WsEnvelope { kind, account_id, payload })
    }
}

/// The frame that an envelope carries. A type that the client does not know is
/// passed over; a payload that does not fit its type is a protocol error, and so
/// is an event of another account than the envelope names.
pub open spec fn routed(envelope: WsEnvelopeView<JsonView>) -> Option<LiveFrameView> {
    let account = envelope.account_id;
    match payload_kind_of(envelope.kind) {
        Some(PayloadKind::Verification(kind)) => match VerificationFrameDto::wire(
            envelope.payload,
        ) {
            Ok(payload) => Some(LiveFrameView::Verification(account, kind, payload)),
            Err(_) => Some(LiveFrameView::ProtocolError(Seq::empty())),
        },
        Some(PayloadKind::Timeline) => match EventDto::wire(envelope.payload) {
            Ok(event) => if account != event.account_id {
                Some(LiveFrameView::ProtocolError("live frame account_id did not match payload"@))
            } else {
                Some(LiveFrameView::Timeline(event))
            },
            Err(_) => Some(LiveFrameView::ProtocolError(Seq::empty())),
        },
        Some(PayloadKind::SenderTrust) => match SenderTrustViolationDto::wire(envelope.payload) {
            Ok(payload) => Some(LiveFrameView::SenderTrustViolation(account, payload)),
            Err(_) => Some(LiveFrameView::ProtocolError(Seq::empty())),
        },
        Some(PayloadKind::DeviceState) => match DeviceStateChangedDto::wire(envelope.payload) {
            Ok(payload) => Some(LiveFrameView::DeviceState(account, payload)),
            Err(_) => Some(LiveFrameView::ProtocolError(Seq::empty())),
        },
        Some(PayloadKind::Ephemeral) => match EphemeralPassthroughDto::wire(envelope.payload) {
            Ok(payload) => Some(LiveFrameView::Ephemeral(account, payload)),
            Err(_) => Some(LiveFrameView::ProtocolError(Seq::empty())),
        },
        None => None,
    }
}

pub open spec fn maybe_frame_view(f: Option<LiveFrame>) -> Option<LiveFrameView> {
    match f {
        Some(f) => Some(f@),
        None => None,
    }
}

/// The frame that an envelope carries.
pub fn route_frame(envelope: &WsEnvelope<Json>) -> (out: Option<LiveFrame>)
    ensures
        maybe_frame_view(out) == routed(envelope@),
{
    let account_id: u128 = envelope.account_id;
    match payload_kind(envelope.kind.as_str()) {
        Some(PayloadKind::Verification(kind)) => match VerificationFrameDto::from_json(
            &envelope.payload,
        ) {
            Ok(payload) => Some(
                LiveFrame::Verification(VerificationFrame { account_id, kind, payload }),
            ),
            Err(_) => Some(LiveFrame::ProtocolError(no_words())),
        },
        Some(PayloadKind::Timeline) => match EventDto::from_json(&envelope.payload) {
            Ok(event) => if account_id != event.account_id {
                Some(
                    LiveFrame::ProtocolError(
                        "live frame account_id did not match payload".to_owned(),
                    ),
                )
            } else {
                Some(LiveFrame::Timeline(Box::new(event)))
            },
            Err(_) => Some(LiveFrame::ProtocolError(no_words())),
        },
        Some(PayloadKind::SenderTrust) => match SenderTrustViolationDto::from_json(
            &envelope.payload,
        ) {
            Ok(payload) => Some(LiveFrame::SenderTrustViolation { account_id, payload }),
            Err(_) => Some(LiveFrame::ProtocolError(no_words())),
        },
        Some(PayloadKind::DeviceState) => match DeviceStateChangedDto::from_json(
            &envelope.payload,
        ) {
            Ok(payload) => Some(LiveFrame::DeviceState { account_id, payload }),
            Err(_) => Some(LiveFrame::ProtocolError(no_words())),
        },
        Some(PayloadKind::Ephemeral) => match EphemeralPassthroughDto::from_json(
            &envelope.payload,
        ) {
            Ok(payload) => Some(LiveFrame::Ephemeral { account_id, payload }),
            Err(_) => Some(LiveFrame::ProtocolError(no_words())),
        },
        None => None,
    }
}

/// The frame in a text that came over the socket, or nothing for a type that
/// the client does not know. What is no frame at all is a protocol error, so
/// that the failure is seen. `refused` holds what `serde_json` says of the text where
/// it refuses the envelope, or the payload as what the type of the frame names. Of a
/// frame that it takes nothing is said.
pub open spec fn frame_of(text: Seq<char>, refused: Option<Seq<char>>) -> Option<LiveFrameView> {
    match taken(text, refused) {
        Err(said) => Some(LiveFrameView::ProtocolError(said)),
        Ok(j) => match WsEnvelope::<Json>::wire(j) {
            Ok(envelope) => routed(envelope),
            Err(_) => Some(LiveFrameView::ProtocolError(Seq::empty())),
        },
    }
}

pub fn decode_ws_frame(text: &str, refused: Option<&str>) -> (out: Option<LiveFrame>)
    ensures
        maybe_frame_view(out) == frame_of(text@, option_str_view(refused)),
{
    match take_json(text, refused) {
        Err(said) => Some(LiveFrame::ProtocolError(said)),
        Ok(j) => match WsEnvelope::<Json>::from_json(&j) {
            Ok(envelope) => route_frame(&envelope),
            Err(_) => Some(LiveFrame::ProtocolError(no_words())),
        },
    }
}

/// A type that the client does not know is never an error.
pub proof fn law_unknown_frame_is_ignored(envelope: WsEnvelopeView<JsonView>)
    requires
        payload_kind_of(envelope.kind) is None,
    ensures
        routed(envelope) is None,
{
}

/// An event reaches the client only under the account that it belongs to.
pub proof fn law_timeline_frame_account(envelope: WsEnvelopeView<JsonView>, event: EventView)
    requires
        routed(envelope) == Some(LiveFrameView::Timeline(event)),
    ensures
        event.account_id == envelope.account_id,
{
}

// ---------------------------------------------------------------------------
// Connecting
// ---------------------------------------------------------------------------

/// The wait after one of `current` milliseconds: twice as long, up to the
/// longest.
pub open spec fn next_backoff(current: int) -> int {
    if 2 * current <= LIVE_RECONNECT_MAX_BACKOFF {
        2 * current
    } else {
        LIVE_RECONNECT_MAX_BACKOFF as int
    }
}

pub fn next_live_reconnect_backoff(current_ms: u64) -> (out: u64)
    ensures
        out == next_backoff(current_ms as int),
{
    if current_ms <= LIVE_RECONNECT_MAX_BACKOFF / 2 {
        2 * current_ms
    } else {
        LIVE_RECONNECT_MAX_BACKOFF
    }
}

/// What the socket is doing.
#[derive(Debug, Clone, Copy, PartialEq, Eq, Structural)]
pub enum LinkPhase {
    Connecting,
    Reading,
    Waiting,
}

/// What happened to the socket.
#[derive(Debug)]
pub enum LinkEvent {
    /// The connection stands.
    Opened,
    /// No connection came about, for this reason.
    Refused(String),
    /// A text came, and what `serde_json` says of it where it refuses it as a frame.
    Text { text: String, refused: Option<String> },
    /// Something else than a text came.
    Other,
    /// The socket was closed or came to its end.
    Closed,
    /// Reading failed, for this reason.
    Failed(String),
    /// The wait is over.
    Waited,
}

/// What is to be done next.
#[derive(Debug, Clone, Copy, PartialEq, Eq, Structural)]
pub enum LinkAction {
    Connect,
    Read,
    Sleep(u64),
}

/// The state of the link: what it does, and the wait before the next attempt.
#[derive(Debug, Clone, Copy, PartialEq, Eq, Structural)]
pub struct LiveLink {
    pub phase: LinkPhase,
    pub backoff_ms: u64,
}

/// The link, the frame for the client and the next action after an event. A
/// connection that stood takes the wait back to the shortest; the wait grows
/// only once it was waited out.
pub open spec fn link_step(link: LiveLink, event: LinkEvent) -> (
    LiveLink,
    Option<LiveFrameView>,
    LinkAction,
) {
    match event {
        LinkEvent::Opened => (
            LiveLink { phase: LinkPhase::Reading, backoff_ms: LIVE_RECONNECT_INITIAL_BACKOFF },
            Some(LiveFrameView::Connected),
            LinkAction::Read,
        ),
        LinkEvent::Refused(reason) => broken(link, reason@),
        LinkEvent::Text { text, refused } => (
            link,
            frame_of(text@, option_view(refused)),
            LinkAction::Read,
        ),
        LinkEvent::Other => (link, None, LinkAction::Read),
        LinkEvent::Closed => broken(link, "websocket closed"@),
        LinkEvent::Failed(reason) => broken(link, reason@),
        LinkEvent::Waited => (
            LiveLink {
                phase: LinkPhase::Connecting,
                backoff_ms: next_backoff(link.backoff_ms as int) as u64,
            },
            None,
            LinkAction::Connect,
        ),
    }
}

/// The link after it broke.
pub open spec fn broken(link: LiveLink, reason: Seq<char>) -> (
    LiveLink,
    Option<LiveFrameView>,
    LinkAction,
) {
    (
        LiveLink { phase: LinkPhase::Waiting, ..link },
        Some(LiveFrameView::Reconnecting { reason, delay_ms: link.backoff_ms }),
        LinkAction::Sleep(link.backoff_ms),
    )
}

impl LiveLink {
    /// Starts the link: the address to connect to, or the frame that says why
    /// there will be none.
    pub fn start(client: &AxonClient) -> (out: Result<(String, LiveLink), LiveFrame>)
        ensures
            match (out, live_url(client.base())) {
                (Ok((url, link)), Ok(expected)) => url@ == expected && link == (LiveLink {
                    phase: LinkPhase::Connecting,
                    backoff_ms: LIVE_RECONNECT_INITIAL_BACKOFF,
                }),
                (Err(frame), Err(e)) => frame@ == LiveFrameView::Disconnected(error_text(e)),
                _ => false,
            },
    {
        match client.ws_url() {
            Ok(url) => Ok(
                (
                    url,
                    LiveLink {
                        phase: LinkPhase::Connecting,
                        backoff_ms: LIVE_RECONNECT_INITIAL_BACKOFF,
                    },
                ),
            ),
            Err(e) => Err(LiveFrame::Disconnected(e.text())),
        }
    }

    pub fn step(&mut self, event: LinkEvent) -> (out: (Option<LiveFrame>, LinkAction))
        ensures
            (*final(self), maybe_frame_view(out.0), out.1) == link_step(*old(self), event),
    {
        match event {
            LinkEvent::Opened => {
                self.phase = LinkPhase::Reading;
                self.backoff_ms = LIVE_RECONNECT_INITIAL_BACKOFF;
                (Some(LiveFrame::Connected), LinkAction::Read)
            },
            LinkEvent::Refused(reason) => self.wait(reason),
            LinkEvent::Text { text, refused } => (
                decode_ws_frame(text.as_str(), option_str(&refused)),
                LinkAction::Read,
            ),
            LinkEvent::Other => (None, LinkAction::Read),
            LinkEvent::Closed => self.wait("websocket closed".to_owned()),
            LinkEvent::Failed(reason) => self.wait(reason),
            LinkEvent::Waited => {
                self.phase = LinkPhase::Connecting;
                self.backoff_ms = next_live_reconnect_backoff(self.backoff_ms);
                (None, LinkAction::Connect)
            },
        }
    }

    fn wait(&mut self, reason: String) -> (out: (Option<LiveFrame>, LinkAction))
        ensures
            (*final(self), maybe_frame_view(out.0), out.1) == broken(*old(self), reason@),
    {
        self.phase = LinkPhase::Waiting;
        (
            Some(LiveFrame::Reconnecting { reason, delay_ms: self.backoff_ms }),
            LinkAction::Sleep(self.backoff_ms),
        )
    }
}

/// The wait of a link that the client can be in.
pub open spec fn link_ok(link: LiveLink) -> bool {
    0 < link.backoff_ms <= LIVE_RECONNECT_MAX_BACKOFF
}

/// The wait never exceeds the longest, and no event makes it zero.
pub proof fn law_backoff_is_bounded(link: LiveLink, event: LinkEvent)
    requires
        link_ok(link),
    ensures
        link_ok(link_step(link, event).0),
{
}

/// The waits before the attempts of one outage.
pub open spec fn nth_backoff(n: nat) -> int
    decreases n,
{
    if n == 0 {
        LIVE_RECONNECT_INITIAL_BACKOFF as int
    } else {
        next_backoff(nth_backoff((n - 1) as nat))
    }
}

/// The wait doubles until it is the longest, and stays there.
pub proof fn law_backoff_doubles_until_cap(n: nat)
    ensures
        nth_backoff(n + 1) == 2 * nth_backoff(n) || nth_backoff(n + 1)
            == LIVE_RECONNECT_MAX_BACKOFF,
        nth_backoff(n) <= nth_backoff(n + 1) <= LIVE_RECONNECT_MAX_BACKOFF,
        n >= 5 ==> nth_backoff(n) == LIVE_RECONNECT_MAX_BACKOFF,
    decreases n,
{
    reveal_with_fuel(nth_backoff, 7);
    if n > 0 {
        law_backoff_doubles_until_cap((n - 1) as nat);
    }
}

} // verus!
