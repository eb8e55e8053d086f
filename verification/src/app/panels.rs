//! The panels: which are shown, how large they are, and what opens over them.

use vstd::prelude::*;

use crate::app::choice::{room_key, RoomKey};
use crate::app::drafts::held;
use crate::app::lifecycle::said;
use crate::app::state::{
    App, DisplayOptions, MessagePane, Mode, ModeView, Panels, PopupKind, SearchKind, Session,
    SIXEL_REFRESH_INTERVAL,
};
use crate::app::status::{Status, StatusView};
use crate::text::{cat2, cat4, is_blank, text_is_blank};

verus! {

// ---------------------------------------------------------------------------
// Sizes
// ---------------------------------------------------------------------------

/// A number within bounds.
pub open spec fn within(n: int, low: int, high: int) -> int {
    if n < low {
        low
    } else if n > high {
        high
    } else {
        n
    }
}

/// A width as a number with a sign, of sixteen bits as it is.
pub open spec fn signed(n: u16) -> int {
    if n > i16::MAX {
        n - 65536
    } else {
        n as int
    }
}

fn clamped(n: u16, delta: i16, low: u16, high: u16) -> (out: u16)
    requires
        low <= high <= i16::MAX,
    ensures
        out == within(signed(n) + delta, low as int, high as int),
{
    let start: i32 = if n > 32_767 {
        n as i32 - 65_536
    } else {
        n as i32
    };
    let sum: i32 = start + delta as i32;
    if sum < low as i32 {
        low
    } else if sum > high as i32 {
        high
    } else {
        sum as u16
    }
}

impl App {
    /// The accounts are listed where there are at least two.
    pub fn accounts_panel_visible(&self) -> (r: bool)
        ensures
            r == (!self.panels.accounts_hidden && self.accounts.accounts@.len() >= 2),
    {
        !self.panels.accounts_hidden && self.accounts.accounts.len() >= 2
    }

    pub fn rooms_panel_visible(&self) -> (r: bool)
        ensures
            r == !self.panels.rooms_hidden,
    {
        !self.panels.rooms_hidden
    }

    pub fn adjust_accounts_width(&mut self, delta: i16)
        requires
            i16::MIN <= signed(old(self).display.accounts_panel_width) + delta <= i16::MAX,
        ensures
            *final(self) == (App {
                display: DisplayOptions {
                    accounts_panel_width: within(
                        signed(old(self).display.accounts_panel_width) + delta,
                        10,
                        60,
                    ) as u16,
                    ..old(self).display
                },
                ..*old(self)
            }),
    {
        let width: u16 = clamped(self.display.accounts_panel_width, delta, 10, 60);
        self.display.accounts_panel_width = width;
    }

    pub fn adjust_rooms_width(&mut self, delta: i16)
        ensures
            *final(self) == (App {
                display: DisplayOptions {
                    rooms_panel_width_adj: within(
                        old(self).display.rooms_panel_width_adj + delta,
                        -50,
                        50,
                    ) as i16,
                    ..old(self).display
                },
                ..*old(self)
            }),
    {
        let sum: i32 = self.display.rooms_panel_width_adj as i32 + delta as i32;
        self.display.rooms_panel_width_adj = if sum < -50 {
            -50
        } else if sum > 50 {
            50
        } else {
            sum as i16
        };
    }

    pub fn adjust_input_lines(&mut self, delta: i16)
        requires
            i16::MIN <= signed(old(self).display.input_lines) + delta <= i16::MAX,
        ensures
            *final(self) == (App {
                display: DisplayOptions {
                    input_lines: within(
                        signed(old(self).display.input_lines) + delta,
                        1,
                        10,
                    ) as u16,
                    ..old(self).display
                },
                ..*old(self)
            }),
    {
        let lines: u16 = clamped(self.display.input_lines, delta, 1, 10);
        self.display.input_lines = lines;
    }

    /// Takes over the size of the message pane, which is never empty.
    pub fn set_message_viewport(&mut self, page_size: usize, width: usize)
        ensures
            *final(self) == (App {
                messages: MessagePane {
                    page_size: if page_size < 1 {
                        1
                    } else {
                        page_size
                    },
                    width: if width < 1 {
                        1
                    } else {
                        width
                    },
                    ..old(self).messages
                },
                ..*old(self)
            }),
    {
        self.messages.page_size = if page_size < 1 {
            1
        } else {
            page_size
        };
        self.messages.width = if width < 1 {
            1
        } else {
            width
        };
    }
}

// ---------------------------------------------------------------------------
// Showing and hiding
// ---------------------------------------------------------------------------

/// Whether keys go to the accounts.
pub open spec fn in_accounts(mode: ModeView) -> bool {
    mode is AccountList || (mode matches ModeView::Search(kind, _) && kind == SearchKind::Accounts)
}

/// Whether keys go to the rooms.
pub open spec fn in_rooms(mode: ModeView) -> bool {
    mode is RoomList || (mode matches ModeView::Search(kind, _) && kind == SearchKind::Rooms)
}

impl App {
    /// Shows or hides the accounts. Keys leave a panel that is hidden.
    pub fn toggle_accounts_panel(&mut self)
        ensures
            *final(self) == (App {
                panels: Panels {
                    accounts_hidden: !old(self).panels.accounts_hidden,
                    ..old(self).panels
                },
                mode: final(self).mode,
                ..*old(self)
            }),
            if !old(self).panels.accounts_hidden && in_accounts(old(self).mode@) {
                final(self).mode@ == ModeView::Compose
            } else {
                final(self).mode == old(self).mode
            },
    {
        self.panels.accounts_hidden = !self.panels.accounts_hidden;
        let leave = match &self.mode {
            Mode::AccountList => true,
            Mode::Search(kind, _) => *kind == SearchKind::Accounts,
            _ => false,
        };
        if self.panels.accounts_hidden && leave {
            self.mode = Mode::Compose;
        }
    }

    /// Shows or hides the rooms.
    pub fn toggle_rooms_panel(&mut self)
        ensures
            *final(self) == (App {
                panels: Panels { rooms_hidden: !old(self).panels.rooms_hidden, ..old(self).panels },
                mode: final(self).mode,
                ..*old(self)
            }),
            if !old(self).panels.rooms_hidden && in_rooms(old(self).mode@) {
                final(self).mode@ == ModeView::Compose
            } else {
                final(self).mode == old(self).mode
            },
    {
        self.panels.rooms_hidden = !self.panels.rooms_hidden;
        let leave = match &self.mode {
            Mode::RoomList => true,
            Mode::Search(kind, _) => *kind == SearchKind::Rooms,
            _ => false,
        };
        if self.panels.rooms_hidden && leave {
            self.mode = Mode::Compose;
        }
    }

    pub fn dismiss_input_help(&mut self)
        ensures
            *final(self) == (App {
                panels: Panels { show_input_help: false, ..old(self).panels },
                ..*old(self)
            }),
    {
        self.panels.show_input_help = false;
    }
}

/// Whether what is typed goes into the line.
pub open spec fn takes_text(mode: ModeView) -> bool {
    match mode {
        ModeView::Compose => true,
        ModeView::LoginUsername => true,
        ModeView::LoginPassword { .. } => true,
        ModeView::RecoveryKey { .. } => true,
        ModeView::ConfirmDelete { .. } => true,
        ModeView::Editing { .. } => true,
        ModeView::Reacting { .. } => true,
        ModeView::DateJump => true,
        _ => false,
    }
}

impl App {
    /// Puts a pasted text into the line at once, where what is typed goes there.
    pub fn handle_paste(&mut self, text: &str)
        requires
            old(self).input.ok(),
        ensures
            if text@.len() == 0 || !takes_text(old(self).mode@) {
                *final(self) == *old(self)
            } else {
                &&& *final(self) == (App {
                    panels: Panels { show_input_help: false, ..old(self).panels },
                    input: final(self).input,
                    ..*old(self)
                })
                &&& final(self).input.ok()
                &&& final(self).input.before() == old(self).input.before() + text@
                &&& final(self).input.after() == old(self).input.after()
                &&& final(self).input.no_completion()
            },
    {
        if text.is_empty() {
            return ;
        }
        let takes = match &self.mode {
            Mode::Compose => true,
            Mode::LoginUsername => true,
            Mode::LoginPassword { .. } => true,
            Mode::RecoveryKey { .. } => true,
            Mode::ConfirmDelete { .. } => true,
            Mode::Editing { .. } => true,
            Mode::Reacting { .. } => true,
            Mode::DateJump => true,
            _ => false,
        };
        if !takes {
            return ;
        }
        self.dismiss_input_help();
        self.input.insert_str(text);
    }
}

// ---------------------------------------------------------------------------
// Popups
// ---------------------------------------------------------------------------

/// The panels once something opens over them. A preview starts anew.
pub open spec fn opened(panels: Panels, kind: PopupKind, now: int) -> Panels {
    Panels {
        popup_scroll: 0,
        help_selection: if kind == PopupKind::Help {
            0
        } else {
            panels.help_selection
        },
        preview_generation: if kind == PopupKind::MediaPreview {
            0
        } else {
            panels.preview_generation
        },
        preview_refresh_after: if kind == PopupKind::MediaPreview {
            (now + SIXEL_REFRESH_INTERVAL) as u64
        } else {
            panels.preview_refresh_after
        },
        ..panels
    }
}

/// Whether something opened over the panels, and nothing else changed.
pub open spec fn popped_up(before: App, after: App, kind: PopupKind, now: int) -> bool {
    &&& after == (App { panels: opened(before.panels, kind, now), mode: after.mode, ..before })
    &&& after.mode@ == ModeView::Popup(kind)
}

/// Whether it is shown where the user is.
pub open spec fn whereami_shown(before: App, after: App, now: int) -> bool {
    if before.room() is None {
        said(before, after, "select a room before using /whereami"@)
    } else {
        popped_up(before, after, PopupKind::RoomInfo, now)
    }
}

/// Whether it was said who the user is.
pub open spec fn whoami_shown(before: App, after: App) -> bool {
    match before.room() {
        None => said(before, after, "select a room before using /whoami"@),
        Some(room) => match room.account_user_id {
            None => said(
                before,
                after,
                "current user is unavailable for this room"@,
            ),
            Some(user) => said(
                before,
                after,
                "Matrix ID: "@ + user@ + "; Display Name: "@ + before.own_name(
                    room,
                    user@,
                ),
            ),
        },
    }
}

impl App {
    pub fn open_popup(&mut self, kind: PopupKind, now: u64)
        requires
            now + SIXEL_REFRESH_INTERVAL <= u64::MAX,
        ensures
            popped_up(*old(self), *final(self), kind, now as int),
    {
        self.panels.popup_scroll = 0;
        if kind == PopupKind::Help {
            self.panels.help_selection = 0;
        }
        if kind == PopupKind::MediaPreview {
            self.panels.preview_generation = 0;
            self.panels.preview_refresh_after = now + SIXEL_REFRESH_INTERVAL;
        }
        self.mode = Mode::Popup(kind);
    }

    pub fn show_whereami(&mut self, now: u64)
        requires
            now + SIXEL_REFRESH_INTERVAL <= u64::MAX,
        ensures
            whereami_shown(*old(self), *final(self), now as int),
    {
        if self.selected_room().is_none() {
            self.say("select a room before using /whereami");
            return ;
        }
        self.open_popup(PopupKind::RoomInfo, now);
    }

    /// What the account's user is called in the selected room.
    pub open spec fn own_name(self, room: crate::api::dto::RoomDto, user: Seq<char>) -> Seq<char> {
        match held(self.rooms.display_names@, room_key(room@)) {
            Some(names) => match held(names@, user) {
                Some(name) => if is_blank(name@) {
                    "unknown"@
                } else {
                    name@
                },
                None => "unknown"@,
            },
            None => "unknown"@,
        }
    }

    /// Says who the user is in the selected room.
    pub fn show_whoami(&mut self)
        ensures
            whoami_shown(*old(self), *final(self)),
    {
        let text = match self.selected_room() {
            None => "select a room before using /whoami".to_owned(),
            Some(room) => match &room.account_user_id {
                None => "current user is unavailable for this room".to_owned(),
                Some(user) => {
                    let known = match self.rooms.display_names.get(&RoomKey::of(room)) {
                        Some(names) => names.get(user),
                        None => None,
                    };
                    let name = match known {
                        Some(name) => if text_is_blank(name.as_str()) {
                            "unknown"
                        } else {
                            name.as_str()
                        },
                        None => "unknown",
                    };
                    cat4("Matrix ID: ", user.as_str(), "; Display Name: ", name)
                },
            },
        };
        self.status = Status::Info(text);
    }
}

// ---------------------------------------------------------------------------
// The configuration
// ---------------------------------------------------------------------------

impl App {
    /// Whether the configuration is to be edited. It is asked once.
    pub fn take_edit_config_request(&mut self) -> (r: bool)
        ensures
            r == old(self).session.edit_config_requested,
            *final(self) == (App {
                session: Session { edit_config_requested: false, ..old(self).session },
                ..*old(self)
            }),
    {
        let r = self.session.edit_config_requested;
        self.session.edit_config_requested = false;
        r
    }

    pub fn editor_failed(&mut self, error: &str)
        ensures
            said(*old(self), *final(self), "editor launch failed: "@ + error@),
    {
        self.status = Status::Info(cat2("editor launch failed: ", error));
    }

    /// Takes over a configuration that was read again. What is laid out by it is laid
    /// out anew.
    pub fn config_reloaded(&mut self, result: Result<DisplayOptions, String>)
        ensures
            match result {
                Ok(display) => {
                    &&& *final(self) == (App {
                        display,
                        session: Session {
                            config_generation: final(self).session.config_generation,
                            ..old(self).session
                        },
                        status: final(self).status,
                        ..*old(self)
                    })
                    &&& final(self).session.config_generation == (
                    if old(self).session.config_generation == u64::MAX {
                        0
                    } else {
                        old(self).session.config_generation + 1
                    })
                    &&& final(self).status@ == StatusView::Info("config reloaded"@)
                },
                Err(e) => said(*old(self), *final(self), "config reload failed: "@ + e@),
            },
    {
        match result {
            Ok(display) => {
                self.display = display;
                self.session.config_generation = if self.session.config_generation == u64::MAX {
                    0
                } else {
                    self.session.config_generation + 1
                };
                self.say("config reloaded");
            },
            Err(e) => {
                self.status = Status::Info(cat2("config reload failed: ", e.as_str()));
            },
        }
    }

    /// Says whether the configuration was written.
    pub fn config_saved(&mut self, failure: Option<String>)
        ensures
            match failure {
                None => said(
                    *old(self),
                    *final(self),
                    "config saved to "@ + old(self).session.config_path@,
                ),
                Some(e) => said(*old(self), *final(self), "save failed: "@ + e@),
            },
    {
        self.status = match failure {
            None => Status::Info(cat2("config saved to ", self.session.config_path.as_str())),
            Some(e) => Status::Info(cat2("save failed: ", e.as_str())),
        };
    }
}

} // verus!
