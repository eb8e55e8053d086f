//! The accounts of the client.

use vstd::prelude::*;

use crate::api::dto::{AccountDto, AccountState, AccountView, BackupSnapshot};
use crate::app::choice::AccountSelection;
use crate::app::state::App;
use crate::text::{copy_option, views};

verus! {

pub fn copy_account(account: &AccountDto) -> (out: AccountDto)
    ensures
        out@ == account@,
{
    AccountDto {
        account_id: account.account_id,
        user_id: account.user_id.clone(),
        state: account.state,
        device_id: copy_option(&account.device_id),
        verified: account.verified,
        backup: BackupSnapshot {
            exists_on_server: account.backup.exists_on_server,
            this_device_uploading: account.backup.this_device_uploading,
            backup_state: account.backup.backup_state,
            recovery_state: account.backup.recovery_state,
        },
    }
}

/// Whether the client shows an account: an active one, and the one that it was
/// started for where it was started for one.
pub open spec fn account_kept(account: AccountView, only: Option<u128>) -> bool {
    account.state == AccountState::Active && (only is None || only->0 == account.account_id)
}

pub open spec fn accounts_kept(accounts: Seq<AccountView>, only: Option<u128>) -> Seq<AccountView>
    decreases accounts.len(),
{
    if accounts.len() == 0 {
        Seq::empty()
    } else {
        let before = accounts_kept(accounts.drop_last(), only);
        if account_kept(accounts.last(), only) {
            before.push(accounts.last())
        } else {
            before
        }
    }
}

/// The ids of the accounts that are not active.
pub open spec fn inactive_of(accounts: Seq<AccountView>) -> Seq<u128>
    decreases accounts.len(),
{
    if accounts.len() == 0 {
        Seq::empty()
    } else {
        let before = inactive_of(accounts.drop_last());
        if accounts.last().state != AccountState::Active {
            before.push(accounts.last().account_id)
        } else {
            before
        }
    }
}

/// The position of an account in a list, or the length of the list.
pub open spec fn account_position(accounts: Seq<AccountView>, id: u128) -> int
    decreases accounts.len(),
{
    if accounts.len() == 0 {
        0
    } else if accounts[0].account_id == id {
        0
    } else {
        1 + account_position(accounts.drop_first(), id)
    }
}

proof fn lemma_account_position(accounts: Seq<AccountView>, id: u128, at: int)
    requires
        0 <= at <= accounts.len(),
        forall|k: int| 0 <= k < at ==> (#[trigger] accounts[k]).account_id != id,
        at < accounts.len() ==> accounts[at].account_id == id,
    ensures
        account_position(accounts, id) == at,
    decreases accounts.len(),
{
    if accounts.len() > 0 && at > 0 {
        assert(accounts[0].account_id != id);
        let rest = accounts.drop_first();
        assert forall|k: int| 0 <= k < at - 1 implies (#[trigger] rest[k]).account_id != id by {
            assert(rest[k] == accounts[k + 1]);
        }
        lemma_account_position(rest, id, at - 1);
    }
}

pub fn find_account(accounts: &Vec<AccountDto>, id: u128) -> (at: usize)
    ensures
        at <= accounts.len(),
        at as int == account_position(views(accounts@), id),
        at < accounts.len() ==> accounts@[at as int].account_id == id,
{
    let ghost all = views(accounts@);
    let mut i: usize = 0;
    while i < accounts.len()
        invariant
            i <= accounts.len(),
            all == views(accounts@),
            forall|k: int| 0 <= k < i ==> (#[trigger] all[k]).account_id != id,
        decreases accounts.len() - i,
    {
        assert(all[i as int] == accounts@[i as int]@);
        if accounts[i].account_id == id {
            proof {
                lemma_account_position(all, id, i as int);
            }
            return i;
        }
        i = i + 1;
    }
    proof {
        lemma_account_position(all, id, i as int);
    }
    i
}

/// The selection that keeps an account selected in a list.
pub open spec fn kept_selection(selected: Option<u128>, accounts: Seq<AccountView>) -> AccountSelection {
    match selected {
        Some(id) => if account_position(accounts, id) < accounts.len() {
            AccountSelection::Account(account_position(accounts, id) as usize)
        } else {
            AccountSelection::All
        },
        None => AccountSelection::All,
    }
}

impl App {
    /// Replaces the accounts. Only active ones are shown; the account that was
    /// selected stays so where it is still there.
    pub fn set_accounts(&mut self, accounts: Vec<AccountDto>)
        ensures
            *final(self) == (App { accounts: final(self).accounts, ..*old(self) }),
            final(self).accounts.client_visible == accounts,
            final(self).accounts.inactive_ids@ == inactive_of(views(accounts@)),
            views(final(self).accounts.accounts@) == accounts_kept(
                views(accounts@),
                old(self).account_filter,
            ),
            final(self).accounts.selected == kept_selection(
                old(self).account_shown(),
                views(final(self).accounts.accounts@),
            ),
            final(self).accounts.scroll == old(self).accounts.scroll,
            final(self).accounts.page_size == old(self).accounts.page_size,
    {
        let chosen = self.active_account_filter();
        let ghost all = views(accounts@);
        let mut inactive: Vec<u128> = Vec::new();
        let mut active: Vec<AccountDto> = Vec::new();
        let mut i: usize = 0;
        assert(views(active@) =~= Seq::<AccountView>::empty());
        while i < accounts.len()
            invariant
                i <= accounts.len(),
                all == views(accounts@),
                inactive@ == inactive_of(all.take(i as int)),
                views(active@) == accounts_kept(all.take(i as int), self.account_filter),
            decreases accounts.len() - i,
        {
            let ghost before = views(active@);
            assert(all.take(i + 1).drop_last() =~= all.take(i as int));
            assert(all.take(i + 1).last() == accounts@[i as int]@);
            let wanted = match self.account_filter {
                Some(id) => id == accounts[i].account_id,
                None => true,
            };
            if accounts[i].state != AccountState::Active {
                inactive.push(accounts[i].account_id);
            } else if wanted {
                active.push(copy_account(&accounts[i]));
                assert(views(active@) =~= before.push(all[i as int]));
            }
            i = i + 1;
        }
        assert(all.take(i as int) =~= all);
        let selected = match chosen {
            Some(id) => {
                let at: usize = find_account(&active, id);
                if at < active.len() {
                    AccountSelection::Account(at)
                } else {
                    AccountSelection::All
                }
            },
            None => AccountSelection::All,
        };
        self.accounts.inactive_ids = inactive;
        self.accounts.client_visible = accounts;
        self.accounts.accounts = active;
        self.accounts.selected = selected;
    }

    /// Whether an account is known not to be active. An account that was never
    /// listed is not.
    pub fn is_known_inactive_account(&self, account_id: u128) -> (r: bool)
        ensures
            r == self.accounts.inactive_ids@.contains(account_id),
    {
        let mut i: usize = 0;
        while i < self.accounts.inactive_ids.len()
            invariant
                i <= self.accounts.inactive_ids.len(),
                forall|k: int|
                    0 <= k < i ==> self.accounts.inactive_ids@[k] != account_id,
            decreases self.accounts.inactive_ids.len() - i,
        {
            if self.accounts.inactive_ids[i] == account_id {
                return true;
            }
            i = i + 1;
        }
        false
    }
}

proof fn lemma_kept_active(accounts: Seq<AccountView>, only: Option<u128>)
    ensures
        forall|i: int|
            0 <= i < accounts_kept(accounts, only).len() ==> account_kept(
                #[trigger] accounts_kept(accounts, only)[i],
                only,
            ),
    decreases accounts.len(),
{
    if accounts.len() > 0 {
        lemma_kept_active(accounts.drop_last(), only);
        let before = accounts_kept(accounts.drop_last(), only);
        let all = accounts_kept(accounts, only);
        assert forall|i: int| 0 <= i < all.len() implies account_kept(#[trigger] all[i], only) by {
            if i < before.len() {
                assert(all[i] == before[i]);
            }
        }
    }
}

/// Every account that is shown is active, and is the one that the client was
/// started for where it was started for one.
pub proof fn law_shown_accounts_are_active(accounts: Seq<AccountView>, only: Option<u128>, i: int)
    requires
        0 <= i < accounts_kept(accounts, only).len(),
    ensures
        accounts_kept(accounts, only)[i].state == AccountState::Active,
        only is Some ==> accounts_kept(accounts, only)[i].account_id == only->0,
{
    lemma_kept_active(accounts, only);
}

} // verus!
