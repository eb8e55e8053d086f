//! The verification window: which flows it opens for, and what the user does in it.

use vstd::prelude::*;

use crate::api::dto::{AccountView, VerificationFrameDto, VerificationFrameView};
use crate::app::accounts::{account_position, find_account};
use crate::app::lifecycle::{active_ids, if_wired, said, LifecycleTask, TaskView};
use crate::app::state::{App, Mode, ModeView};
use crate::app::status::{Status, StatusView};
use crate::app::verification::{
    names_device, pending_outgoing, terminal, StageView, VerificationDirection, VerificationFlow,
    VerificationFlowView, VerificationStage,
};
use crate::text::{
    begins, cat3, option_str, option_str_view, option_view, same_option, same_text, text_begins,
    trim, trim_text, views,
};

verus! {

/// The account that a verification runs on: the one shown, or the only active one.
pub open spec fn verification_account(
    shown: Option<u128>,
    accounts: Seq<AccountView>,
) -> Result<u128, Seq<char>> {
    let active = active_ids(accounts);
    match shown {
        Some(id) => Ok(id),
        None => if active.len() == 0 {
            Err("no active account to verify"@)
        } else if active.len() == 1 {
            Ok(active[0])
        } else {
            Err(
                "select an account first: the filter is \"all\" and several accounts are active"@,
            )
        },
    }
}

/// Whether a flow is on the screen that has not ended.
pub open spec fn flow_open(flow: Option<VerificationFlowView>) -> bool {
    flow is Some && !terminal(flow->0.stage)
}

/// The flow that the client keeps.
pub open spec fn flow_of(app: App) -> Option<VerificationFlowView> {
    match app.verification {
        Some(f) => Some(f@),
        None => None,
    }
}

/// Whether only the window, the mode and the status changed.
pub open spec fn window_frame(before: App, after: App) -> bool {
    after == (App {
        verification: after.verification,
        mode: after.mode,
        status: after.status,
        ..before
    })
}

/// A flow that the user asks for.
pub open spec fn outgoing_flow(account_id: u128, target: Seq<char>) -> VerificationFlowView {
    let is_user = begins(target, "@"@);
    VerificationFlowView {
        account_id,
        user_id: if is_user {
            target
        } else {
            Seq::empty()
        },
        device_id: if is_user {
            Seq::empty()
        } else {
            target
        },
        flow_id: None,
        direction: VerificationDirection::Outgoing,
        stage: StageView::Starting,
        emoji: None,
        decimals: None,
    }
}

/// A flow that another device asks for.
pub open spec fn incoming_flow(
    account_id: u128,
    flow_id: Seq<char>,
    user_id: Seq<char>,
    device_id: Seq<char>,
) -> VerificationFlowView {
    VerificationFlowView {
        account_id,
        user_id,
        device_id,
        flow_id: Some(flow_id),
        direction: VerificationDirection::Incoming,
        stage: StageView::Waiting,
        emoji: None,
        decimals: None,
    }
}

/// Whether a verification was started.
pub open spec fn verification_started(before: App, after: App, target: Option<Seq<char>>, task: TaskView) -> bool {
    let (before, after) = (before, after);
    let given = match target {
        Some(t) => trim(t),
        None => Seq::empty(),
    };
    let account = verification_account(
        before.account_shown(),
        views(before.accounts.accounts@),
    );
    if given.len() == 0 {
        task == TaskView::Nothing && said(
            before,
            after,
            "usage: /verify <device_id|@user:server> (incoming requests open automatically)"@,
        )
    } else {
        match account {
            Err(e) => task == TaskView::Nothing && said(before, after, e),
            Ok(account_id) => if !before.session.wired {
                task == TaskView::Nothing && after == before
            } else {
                &&& window_frame(before, after)
                &&& flow_of(after) == Some(outgoing_flow(account_id, given))
                &&& after.mode@ == ModeView::Verification
                &&& after.status@ == StatusView::Info(
                    "starting verification of "@ + given + "…"@,
                )
                &&& task == (TaskView::StartVerification {
                    account_id,
                    user_id: if begins(given, "@"@) {
                        Some(given)
                    } else {
                        None
                    },
                    device_id: if begins(given, "@"@) {
                        None
                    } else {
                        Some(given)
                    },
                })
            },
        }
    }

}

/// Whether the flow on the screen is confirmed.
pub open spec fn emojis_confirmed(before: App, after: App, task: LifecycleTask) -> bool {
    match flow_of(before) {
        Some(flow) => match flow.flow_id {
            Some(flow_id) => {
                &&& window_frame(before, after)
                &&& after.mode == before.mode
                &&& flow_of(after) == Some(
                    VerificationFlowView { stage: StageView::Confirming, ..flow },
                )
                &&& after.status@ == StatusView::Info("confirming verification…"@)
                &&& task@ == if_wired(
                    before,
                    TaskView::ConfirmVerification {
                        account_id: flow.account_id,
                        flow_id,
                    },
                )
            },
            None => task@ == TaskView::Nothing && after == before,
        },
        None => task@ == TaskView::Nothing && after == before,
    }
}

/// Whether the flow on the screen is cancelled.
pub open spec fn flow_cancelled(before: App, after: App, task: LifecycleTask) -> bool {
    match flow_of(before) {
        Some(flow) => {
            &&& window_frame(before, after)
            &&& after.mode == before.mode
            &&& flow_of(after) == Some(
                VerificationFlowView {
                    stage: StageView::Ended("Verification cancelled"@),
                    ..flow
                },
            )
            &&& after.status@ == StatusView::Info("verification cancelled"@)
            &&& task@ == match flow.flow_id {
                Some(flow_id) => if_wired(
                    before,
                    TaskView::CancelVerification {
                        account_id: flow.account_id,
                        flow_id,
                    },
                ),
                None => TaskView::Nothing,
            }
        },
        None => task@ == TaskView::Nothing && after == before,
    }
}

impl App {
    pub fn resolve_verification_account(&self) -> (out: Result<u128, String>)
        ensures
            match out {
                Ok(id) => verification_account(
                    self.account_shown(),
                    views(self.accounts.accounts@),
                ) == Ok::<u128, Seq<char>>(id),
                Err(e) => verification_account(
                    self.account_shown(),
                    views(self.accounts.accounts@),
                ) == Err::<u128, Seq<char>>(e@),
            },
    {
        if let Some(id) = self.active_account_filter() {
            return Ok(id);
        }
        let active = self.active_account_ids();
        if active.len() == 0 {
            Err("no active account to verify".to_owned())
        } else if active.len() == 1 {
            Ok(active[0])
        } else {
            Err(
                "select an account first: the filter is \"all\" and several accounts are active".to_owned(),
            )
        }
    }

    /// What `/verify` does: a target that begins with an at sign is another user,
    /// any other an own device.
    pub fn start_verification(&mut self, target: Option<String>) -> (task: LifecycleTask)
        ensures
            verification_started(*old(self), *final(self), option_view(target), task@),
    {
        let given = match &target {
            Some(t) => trim_text(t.as_str()).to_owned(),
            None => String::new(),
        };
        if given.as_str().is_empty() {
            self.say(
                "usage: /verify <device_id|@user:server> (incoming requests open automatically)",
            );
            return LifecycleTask::Nothing;
        }
        let account_id = match self.resolve_verification_account() {
            Ok(id) => id,
            Err(message) => {
                self.status = Status::Info(message);
                return LifecycleTask::Nothing;
            },
        };
        if !self.session.wired {
            return LifecycleTask::Nothing;
        }
        let is_user = text_begins(given.as_str(), "@");
        let empty = String::new();
        assert(empty@ =~= Seq::<char>::empty());
        let (user_id, device_id) = if is_user {
            (given.clone(), empty)
        } else {
            (empty, given.clone())
        };
        self.verification = Some(
            VerificationFlow {
                account_id,
                user_id,
                device_id,
                flow_id: None,
                direction: VerificationDirection::Outgoing,
                stage: VerificationStage::Starting,
                emoji: None,
                decimals: None,
            },
        );
        self.mode = Mode::Verification;
        let text = cat3("starting verification of ", given.as_str(), "…");
        self.status = Status::Info(text);
        if is_user {
            LifecycleTask::StartVerification { account_id, user_id: Some(given), device_id: None }
        } else {
            LifecycleTask::StartVerification { account_id, user_id: None, device_id: Some(given) }
        }
    }

    fn has_open_flow(&self) -> (r: bool)
        ensures
            r == flow_open(flow_of(*self)),
    {
        match &self.verification {
            Some(f) => !f.stage.is_terminal(),
            None => false,
        }
    }

    /// Whether a request opened the window. It does not while a flow is on the
    /// screen that has not ended.
    pub open spec fn incoming_opened(
        self,
        after: App,
        account_id: u128,
        flow_id: Seq<char>,
        user_id: Seq<char>,
        device_id: Seq<char>,
    ) -> bool {
        if flow_open(flow_of(self)) {
            after == self
        } else {
            &&& window_frame(self, after)
            &&& flow_of(after) == Some(incoming_flow(account_id, flow_id, user_id, device_id))
            &&& after.mode@ == ModeView::Verification
            &&& after.status@ == StatusView::Info("verification requested — compare the emoji"@)
        }
    }

    pub fn open_incoming_verification(
        &mut self,
        account_id: u128,
        flow_id: String,
        user_id: String,
        device_id: String,
    )
        ensures
            old(self).incoming_opened(*final(self), account_id, flow_id@, user_id@, device_id@),
    {
        if self.has_open_flow() {
            return ;
        }
        self.verification = Some(
            VerificationFlow {
                account_id,
                user_id,
                device_id,
                flow_id: Some(flow_id),
                direction: VerificationDirection::Incoming,
                stage: VerificationStage::Waiting,
                emoji: None,
                decimals: None,
            },
        );
        self.mode = Mode::Verification;
        self.say("verification requested — compare the emoji");
    }

    /// Whether a request is of another user and is not to be shown. Requests of the
    /// account's own devices always are.
    pub open spec fn suppresses(self, account_id: u128, user_id: Seq<char>) -> bool {
        let accounts = views(self.accounts.accounts@);
        let at = account_position(accounts, account_id);
        &&& user_id.len() > 0
        &&& at < accounts.len()
        &&& accounts[at].user_id != user_id
        &&& !self.display.accept_incoming_verification
    }

    /// Whether a request is shown. One that is not is to be declined.
    pub fn should_open_incoming_verification_target(&self, account_id: u128, user_id: &str) -> (r:
        bool)
        ensures
            r == !self.suppresses(account_id, user_id@),
    {
        let at: usize = find_account(&self.accounts.accounts, account_id);
        let cross_user = !user_id.is_empty() && at < self.accounts.accounts.len() && !same_text(
            self.accounts.accounts[at].user_id.as_str(),
            user_id,
        );
        !(cross_user && !self.display.accept_incoming_verification)
    }

    /// Whether a frame is the echo of the client's own request.
    pub open spec fn echoes_own_request(self, account_id: u128, frame: VerificationFrameView) -> bool {
        match flow_of(self) {
            Some(flow) => pending_outgoing(flow, account_id) && (names_device(
                flow,
                frame.device_id,
            ) || (frame.user_id.len() > 0 && flow.user_id == frame.user_id)),
            None => false,
        }
    }

    /// Whether a frame opens the window, and what is asked of the server where it
    /// does not. The echo of the client's own request does neither.
    pub fn should_open_incoming_verification(
        &self,
        account_id: u128,
        payload: &VerificationFrameDto,
    ) -> (out: (bool, LifecycleTask))
        ensures
            out.0 == (!self.echoes_own_request(account_id, payload@) && !self.suppresses(
                account_id,
                payload@.user_id,
            )),
            out.1@ == (if !self.echoes_own_request(account_id, payload@) && self.suppresses(
                account_id,
                payload@.user_id,
            ) {
                TaskView::DeclineVerification { account_id, flow_id: payload@.flow_id }
            } else {
                TaskView::Nothing
            }),
    {
        let echo = match &self.verification {
            Some(flow) => flow.is_pending_outgoing_target(
                account_id,
                payload.user_id.as_str(),
                option_str(&payload.device_id),
            ),
            None => false,
        };
        if echo {
            return (false, LifecycleTask::Nothing);
        }
        if self.should_open_incoming_verification_target(account_id, payload.user_id.as_str()) {
            (true, LifecycleTask::Nothing)
        } else {
            (
                false,
                LifecycleTask::DeclineVerification {
                    account_id,
                    flow_id: payload.flow_id.clone(),
                },
            )
        }
    }

    /// The user says that the emoji match.
    pub fn confirm_active_verification(&mut self) -> (task: LifecycleTask)
        ensures
            emojis_confirmed(*old(self), *final(self), task),
    {
        let wired = self.session.wired;
        let (account_id, flow_id) = match &self.verification {
            Some(f) => match &f.flow_id {
                Some(id) => (f.account_id, id.clone()),
                None => return LifecycleTask::Nothing,
            },
            None => return LifecycleTask::Nothing,
        };
        self.set_flow_stage(VerificationStage::Confirming);
        self.say("confirming verification…");
        if wired {
            LifecycleTask::ConfirmVerification { account_id, flow_id }
        } else {
            LifecycleTask::Nothing
        }
    }

    fn set_flow_stage(&mut self, stage: VerificationStage)
        ensures
            *final(self) == (App { verification: final(self).verification, ..*old(self) }),
            flow_of(*final(self)) == match flow_of(*old(self)) {
                Some(f) => Some(VerificationFlowView { stage: stage@, ..f }),
                None => None,
            },
    {
        let mut flow: Option<VerificationFlow> = None;
        core::mem::swap(&mut flow, &mut self.verification);
        if let Some(f) = flow {
            let mut changed = f;
            changed.stage = stage;
            self.verification = Some(changed);
        }
    }

    /// The user cancels the flow. It ends at once, whatever the server says.
    pub fn cancel_active_verification(&mut self) -> (task: LifecycleTask)
        ensures
            flow_cancelled(*old(self), *final(self), task),
    {
        let wired = self.session.wired;
        let (account_id, flow_id) = match &self.verification {
            Some(f) => (f.account_id, match &f.flow_id {
                Some(id) => Some(id.clone()),
                None => None,
            }),
            None => return LifecycleTask::Nothing,
        };
        self.set_flow_stage(VerificationStage::Ended("Verification cancelled".to_owned()));
        self.say("verification cancelled");
        match flow_id {
            Some(flow_id) => if wired {
                LifecycleTask::CancelVerification { account_id, flow_id }
            } else {
                LifecycleTask::Nothing
            },
            None => LifecycleTask::Nothing,
        }
    }

    /// After the connection was lost: asks for requests that came meanwhile, unless
    /// a flow is on the screen or the account is not clear.
    pub fn discover_incoming_verification(&self) -> (task: LifecycleTask)
        ensures
            task@ == (if flow_open(flow_of(*self)) {
                TaskView::Nothing
            } else {
                match verification_account(
                    self.account_shown(),
                    views(self.accounts.accounts@),
                ) {
                    Ok(account_id) => if_wired(*self, TaskView::ListFlows { account_id }),
                    Err(_) => TaskView::Nothing,
                }
            }),
    {
        if self.has_open_flow() {
            return LifecycleTask::Nothing;
        }
        match self.resolve_verification_account() {
            Ok(account_id) => if self.session.wired {
                LifecycleTask::ListFlows { account_id }
            } else {
                LifecycleTask::Nothing
            },
            Err(_) => LifecycleTask::Nothing,
        }
    }

    /// After the connection was lost: asks how far the flow on the screen has come.
    pub fn resync_active_verification(&self) -> (task: LifecycleTask)
        ensures
            task@ == match flow_of(*self) {
                Some(flow) => match flow.flow_id {
                    Some(flow_id) => if terminal(flow.stage) {
                        TaskView::Nothing
                    } else {
                        if_wired(*self, TaskView::GetFlow { account_id: flow.account_id, flow_id })
                    },
                    None => TaskView::Nothing,
                },
                None => TaskView::Nothing,
            },
    {
        match &self.verification {
            Some(f) => match &f.flow_id {
                Some(id) => if f.stage.is_terminal() || !self.session.wired {
                    LifecycleTask::Nothing
                } else {
                    LifecycleTask::GetFlow { account_id: f.account_id, flow_id: id.clone() }
                },
                None => LifecycleTask::Nothing,
            },
            None => LifecycleTask::Nothing,
        }
    }

    /// Whether the flow on the screen is the one that failed, and has not ended.
    pub open spec fn fails_here(self, account_id: u128, flow_id: Option<Seq<char>>) -> bool {
        match flow_of(self) {
            Some(flow) => flow.account_id == account_id && (flow_id is None || flow.flow_id
                == flow_id) && !terminal(flow.stage),
            None => false,
        }
    }

    /// Whether a failure was told and ended the flow that it is about. Where another
    /// flow is on the screen, or none, nothing is told of it.
    pub open spec fn flow_failed(
        self,
        after: App,
        account_id: u128,
        flow_id: Option<Seq<char>>,
        message: Seq<char>,
    ) -> bool {
        &&& window_frame(self, after)
        &&& after.mode == self.mode
        &&& flow_of(after) == (if self.fails_here(account_id, flow_id) {
            Some(VerificationFlowView { stage: StageView::Ended(message), ..flow_of(self)->0 })
        } else {
            flow_of(self)
        })
        &&& after.status@ == (if self.fails_here(account_id, flow_id) {
            StatusView::Info(message)
        } else {
            self.status@
        })
    }

    pub fn end_active_verification(
        &mut self,
        account_id: u128,
        flow_id: Option<&str>,
        message: String,
    )
        ensures
            old(self).flow_failed(*final(self), account_id, option_str_view(flow_id), message@),
    {
        let here = match &self.verification {
            Some(f) => f.account_id == account_id && (match flow_id {
                Some(id) => same_option(option_str(&f.flow_id), Some(id)),
                None => true,
            }) && !f.stage.is_terminal(),
            None => false,
        };
        if here {
            self.set_flow_stage(VerificationStage::Ended(message.clone()));
            self.status = Status::Info(message);
        }
    }
}

/// A flow that has ended stays as it is, and so does the status line, whatever
/// fails later.
pub proof fn law_failure_leaves_ended_flows(
    before: App,
    after: App,
    account_id: u128,
    flow_id: Option<Seq<char>>,
    message: Seq<char>,
)
    requires
        before.flow_failed(after, account_id, flow_id, message),
        !flow_open(flow_of(before)),
    ensures
        flow_of(after) == flow_of(before),
        after.status@ == before.status@,
{
}

/// A request never takes the window from a flow that has not ended.
pub proof fn law_open_flow_is_kept(
    before: App,
    after: App,
    account_id: u128,
    flow_id: Seq<char>,
    user_id: Seq<char>,
    device_id: Seq<char>,
)
    requires
        before.incoming_opened(after, account_id, flow_id, user_id, device_id),
        flow_open(flow_of(before)),
    ensures
        flow_of(after) == flow_of(before),
        after.mode == before.mode,
{
}

} // verus!
