//! Which account a command means, and what the commands on accounts come to.

use vstd::prelude::*;

use crate::api::dto::{AccountDto, AccountState, AccountView};
use crate::app::accounts::{account_position, accounts_kept, inactive_of, kept_selection};
use crate::app::lifecycle::{
    login_started, said, AccountPurpose, TaskView,
};
use crate::app::outcome::{
    listing_applied, outcome_applied, FinishView, LifecycleOutcome, StepView,
};
use crate::app::choice::AccountSelection;
use crate::app::state::{App, ModeView, RecoveryOrigin};
use crate::app::status::StatusView;
use crate::app::targets::{
    homeserver_url, normal_user_id, resolved, targeted, targets_of, user_id_form,
    valid_user_id, AccountResolutionView, Eligible,
};
use crate::app::rooms::localpart;
use crate::ids::parsed_id;
use crate::text::{begins, lemma_find_char, option_view, trim, views};

verus! {

/// Whether an account may be logged out, recovered or backed up.
pub open spec fn may_be_used(account: AccountView, which: Eligible) -> bool {
    match which {
        Eligible::Active => account.state == AccountState::Active,
        Eligible::NotDeleting => account.state != AccountState::Deleting,
    }
}

proof fn lemma_target_listed(accounts: Seq<AccountView>, which: Eligible, target: Seq<char>)
    ensures
        forall|a: AccountView|
            targets_of(accounts, which, target).contains(a) <==> #[trigger] accounts.contains(a)
                && may_be_used(a, which) && targeted(a, target),
        targets_of(accounts, which, target).len() <= accounts.len(),
    decreases accounts.len(),
{
    let all = targets_of(accounts, which, target);
    if accounts.len() > 0 {
        let rest = accounts.drop_last();
        let last = accounts.last();
        let before = targets_of(rest, which, target);
        lemma_target_listed(rest, which, target);
        assert forall|a: AccountView|
            all.contains(a) <==> #[trigger] accounts.contains(a) && may_be_used(a, which)
                && targeted(a, target) by {
            if all.contains(a) {
                let k = choose|k: int| 0 <= k < all.len() && all[k] == a;
                if k < before.len() {
                    assert(before[k] == a);
                    assert(before.contains(a));
                    assert(rest.contains(a));
                    let m = choose|m: int| 0 <= m < rest.len() && rest[m] == a;
                    assert(accounts[m] == a);
                } else {
                    assert(accounts[accounts.len() - 1] == a);
                }
            }
            if accounts.contains(a) && may_be_used(a, which) && targeted(a, target) {
                let m = choose|m: int| 0 <= m < accounts.len() && accounts[m] == a;
                if m < rest.len() {
                    assert(rest[m] == a);
                    assert(rest.contains(a));
                    assert(before.contains(a));
                    let k = choose|k: int| 0 <= k < before.len() && before[k] == a;
                    assert(all[k] == a);
                } else {
                    assert(all[all.len() - 1] == a);
                }
            }
        }
    }
}

proof fn lemma_one_target(accounts: Seq<AccountView>, which: Eligible, target: Seq<char>, i: int)
    requires
        0 <= i < accounts.len(),
        may_be_used(accounts[i], which),
        targeted(accounts[i], target),
        forall|k: int|
            0 <= k < accounts.len() && k != i && may_be_used(#[trigger] accounts[k], which)
                ==> !targeted(accounts[k], target),
    ensures
        targets_of(accounts, which, target) == seq![accounts[i]],
    decreases accounts.len(),
{
    let rest = accounts.drop_last();
    let last = accounts.len() - 1;
    if i == last {
        lemma_target_listed(rest, which, target);
        let before = targets_of(rest, which, target);
        if before.len() > 0 {
            assert(before.contains(before[0]));
            assert(rest.contains(before[0]));
            let k = choose|k: int| 0 <= k < rest.len() && rest[k] == before[0];
            assert(accounts[k] == before[0]);
        }
        assert(targets_of(accounts, which, target) =~= seq![accounts[i]]);
    } else {
        assert forall|k: int|
            0 <= k < rest.len() && k != i && may_be_used(#[trigger] rest[k], which) implies !targeted(
            rest[k],
            target,
        ) by {
            assert(rest[k] == accounts[k]);
        }
        lemma_one_target(rest, which, target, i);
        assert(accounts[last] == accounts.last());
    }
}

/// The account with an id is the one that a command with that id is about.
pub proof fn law_account_named_by_its_id(
    accounts: Seq<AccountView>,
    which: Eligible,
    target: Seq<char>,
    i: int,
)
    requires
        0 <= i < accounts.len(),
        may_be_used(accounts[i], which),
        trim(target).len() > 0,
        parsed_id(trim(target)) == Some(accounts[i].account_id),
        forall|k: int|
            0 <= k < accounts.len() && k != i ==> (#[trigger] accounts[k]).account_id
                != accounts[i].account_id,
    ensures
        resolved(accounts, which, Some(target)) == AccountResolutionView::Match(accounts[i]),
{
    lemma_one_target(accounts, which, trim(target), i);
}

/// The one account with a user name is the one that a command with that name is about,
/// with the at sign or without it.
pub proof fn law_account_named_by_its_user(
    accounts: Seq<AccountView>,
    which: Eligible,
    target: Seq<char>,
    i: int,
)
    requires
        0 <= i < accounts.len(),
        may_be_used(accounts[i], which),
        trim(target).len() > 0,
        parsed_id(trim(target)) is None,
        !trim(target).contains(':'),
        !trim(target).contains('@'),
        localpart(accounts[i].user_id) == Some(trim(target)),
        forall|k: int|
            0 <= k < accounts.len() && k != i ==> localpart((#[trigger] accounts[k]).user_id)
                != Some(trim(target)),
    ensures
        resolved(accounts, which, Some(target)) == AccountResolutionView::Match(accounts[i]),
{
    let t = trim(target);
    assert(t[0] != '@') by {
        assert(t.contains(t[0]));
    }
    assert(crate::text::trim_start_char(t, '@') == t);
    crate::laws::resolving::lemma_trimmed_twice(target);
    lemma_one_target(accounts, which, t, i);
}

/// Without a target the only account that may be used is taken, and where there are
/// several, none is.
pub proof fn law_only_account_needs_no_name(accounts: Seq<AccountView>, which: Eligible, i: int)
    requires
        0 <= i < accounts.len(),
        may_be_used(accounts[i], which),
    ensures
        (forall|k: int|
            0 <= k < accounts.len() && k != i ==> !may_be_used(#[trigger] accounts[k], which))
            ==> resolved(accounts, which, None) == AccountResolutionView::Match(accounts[i]),
        (exists|k: int|
            0 <= k < accounts.len() && k != i && may_be_used(#[trigger] accounts[k], which))
            ==> resolved(accounts, which, None) is Ambiguous,
{
    if forall|k: int|
        0 <= k < accounts.len() && k != i ==> !may_be_used(#[trigger] accounts[k], which) {
        lemma_one_target(accounts, which, Seq::empty(), i);
    } else {
        let k = choose|k: int|
            0 <= k < accounts.len() && k != i && may_be_used(#[trigger] accounts[k], which);
        lemma_two_targets(accounts, which, i, k);
    }
}

proof fn lemma_two_targets(accounts: Seq<AccountView>, which: Eligible, i: int, k: int)
    requires
        0 <= i < accounts.len(),
        0 <= k < accounts.len(),
        i != k,
        may_be_used(accounts[i], which),
        may_be_used(accounts[k], which),
    ensures
        targets_of(accounts, which, Seq::empty()).len() >= 2,
    decreases accounts.len(),
{
    let rest = accounts.drop_last();
    let last = accounts.len() - 1;
    if i < last && k < last {
        lemma_two_targets(rest, which, i, k);
    } else {
        let other = if i == last {
            k
        } else {
            i
        };
        lemma_target_listed(rest, which, Seq::empty());
        assert(rest[other] == accounts[other]);
        assert(rest.contains(accounts[other]));
        assert(targets_of(rest, which, Seq::empty()).contains(accounts[other]));
    }
}

/// Where no account that may be used is meant, none is taken.
pub proof fn law_no_account_meant(accounts: Seq<AccountView>, which: Eligible, target: Option<Seq<char>>)
    requires
        forall|k: int| 0 <= k < accounts.len() ==> !may_be_used(#[trigger] accounts[k], which),
    ensures
        resolved(accounts, which, target) is Missing,
{
    let t = crate::app::targets::target_or_empty(target);
    lemma_target_listed(accounts, which, t);
    let found = targets_of(accounts, which, t);
    if found.len() > 0 {
        assert(found.contains(found[0]));
        assert(accounts.contains(found[0]));
    }
}

/// A user may be written as `@name:domain`, `name:domain` or `name@domain`: all mean the
/// same one.
pub proof fn law_ways_to_write_a_user(name: Seq<char>, domain: Seq<char>)
    requires
        name.len() > 0,
        domain.len() > 0,
        !name.contains('@'),
        !name.contains(':'),
        !domain.contains('@'),
        !domain.contains(':'),
    ensures
        user_id_form("@"@ + name + ":"@ + domain) == Some("@"@ + name + ":"@ + domain),
        user_id_form(name + ":"@ + domain) == Some("@"@ + (name + ":"@ + domain)),
        user_id_form(name + "@"@ + domain) == Some("@"@ + name + ":"@ + domain),
        user_id_form(name) is None,
{
    reveal_strlit("@");
    reveal_strlit(":");
    assert(!(name[0] == '@')) by {
        assert(name.contains(name[0]));
    }
    let whole = "@"@ + name + ":"@ + domain;
    assert(whole.subrange(0, 1) =~= "@"@);
    let plain = name + ":"@ + domain;
    assert(plain[name.len() as int] == ':');
    assert(plain.contains(':'));
    assert(!begins(plain, "@"@)) by {
        if begins(plain, "@"@) {
            assert(plain.subrange(0, 1)[0] == plain[0]);
        }
    }
    let mail = name + "@"@ + domain;
    assert(!begins(mail, "@"@)) by {
        if begins(mail, "@"@) {
            assert(mail.subrange(0, 1)[0] == mail[0]);
        }
    }
    assert(!mail.contains(':')) by {
        if mail.contains(':') {
            let k = choose|k: int| 0 <= k < mail.len() && mail[k] == ':';
            if k < name.len() {
                assert(name[k] == ':');
            } else if k > name.len() {
                assert(domain[k - name.len() - 1] == ':');
            }
        }
    }
    lemma_split_at(mail, '@', name.len() as int);
    assert(mail.take(name.len() as int) =~= name);
    assert(mail.skip(name.len() as int + 1) =~= domain);
    assert(!begins(name, "@"@)) by {
        if begins(name, "@"@) {
            assert(name.subrange(0, 1)[0] == name[0]);
        }
    }
    lemma_no_split(name, '@');
}

pub proof fn lemma_split_at(s: Seq<char>, c: char, at: int)
    requires
        0 <= at < s.len(),
        s[at] == c,
        forall|k: int| 0 <= k < at ==> s[k] != c,
    ensures
        crate::text::split_once(s, c) == Some((s.take(at), s.skip(at + 1))),
{
    lemma_find_char(s, c, at);
}

pub proof fn lemma_no_split(s: Seq<char>, c: char)
    requires
        !s.contains(c),
    ensures
        crate::text::split_once(s, c) is None,
{
    assert forall|k: int| 0 <= k < s.len() implies s[k] != c by {
        assert(s.contains(s[k]));
    }
    lemma_find_char(s, c, s.len() as int);
}

/// The name of a user is what stands between the at sign and the colon.
pub proof fn law_name_of_a_user(name: Seq<char>, domain: Seq<char>)
    requires
        !name.contains(':'),
    ensures
        localpart("@"@ + name + ":"@ + domain) == Some(name),
{
    reveal_strlit("@");
    reveal_strlit(":");
    let whole = "@"@ + name + ":"@ + domain;
    let rest = name + ":"@ + domain;
    assert(whole.subrange(0, 1) =~= seq!['@']);
    assert(whole.skip(1) =~= rest);
    assert forall|k: int| 0 <= k < name.len() implies rest[k] != ':' by {
        assert(name.contains(name[k]));
    }
    lemma_split_at(rest, ':', name.len() as int);
    assert(rest.take(name.len() as int) =~= name);
}

/// A homeserver that is written without a scheme is reached over `https`.
pub proof fn law_homeserver_has_a_scheme(value: Seq<char>)
    requires
        trim(value) == value,
    ensures
        begins(value, "http://"@) || begins(value, "https://"@) ==> homeserver_url(value) == value,
        !value.contains(':') ==> homeserver_url(value) == "https://"@ + value,
{
    reveal_strlit("http://");
    reveal_strlit("https://");
    if begins(value, "http://"@) {
        assert(value.subrange(0, 7) == "http://"@);
        assert forall|i: int| 0 <= i < 7 implies value[i] == "http://"@[i] by {
            assert(value.subrange(0, 7)[i] == value[i]);
        }
        assert(crate::text::same_ignoring_case(value.take(7), "http://"@));
    }
    if begins(value, "https://"@) {
        assert(value.subrange(0, 8) == "https://"@);
        assert forall|i: int| 0 <= i < 8 implies value[i] == "https://"@[i] by {
            assert(value.subrange(0, 8)[i] == value[i]);
        }
        assert(crate::text::same_ignoring_case(value.take(8), "https://"@));
    }
    if !value.contains(':') {
        if crate::text::begins_ignoring_case(value, "http://"@) {
            assert(crate::text::ascii_lowercase(value.take(7))[4]
                == crate::text::ascii_lowercase("http://"@)[4]);
            assert(crate::text::ascii_lower(value[4]) == ':');
            assert(value.contains(value[4]));
        }
        if crate::text::begins_ignoring_case(value, "https://"@) {
            assert(crate::text::ascii_lowercase(value.take(8))[5]
                == crate::text::ascii_lowercase("https://"@)[5]);
            assert(crate::text::ascii_lower(value[5]) == ':');
            assert(value.contains(value[5]));
        }
    }
}

/// The list shows the active accounts in the order of the server, all of them or the one
/// that the client was started for.
pub proof fn law_active_accounts_are_shown(accounts: Seq<AccountView>, only: Option<u128>)
    ensures
        accounts_kept(accounts, only) == accounts.filter(
            |a: AccountView|
                a.state == AccountState::Active && (only is None || a.account_id == only->0),
        ),
        inactive_of(accounts) == accounts.filter(
            |a: AccountView| a.state != AccountState::Active,
        ).map_values(|a: AccountView| a.account_id),
    decreases accounts.len(),
{
    reveal(Seq::filter);
    if accounts.len() > 0 {
        law_active_accounts_are_shown(accounts.drop_last(), only);
        let shut = |a: AccountView| a.state != AccountState::Active;
        let id = |a: AccountView| a.account_id;
        let before = accounts.drop_last().filter(shut);
        if shut(accounts.last()) {
            assert(before.push(accounts.last()).map_values(id) =~= before.map_values(id).push(
                accounts.last().account_id,
            ));
        }
    } else {
        assert(inactive_of(accounts) =~= accounts.filter(
            |a: AccountView| a.state != AccountState::Active,
        ).map_values(|a: AccountView| a.account_id));
    }
}

/// An account that was selected stays selected wherever it now stands. One that is gone
/// leaves all accounts selected.
pub proof fn law_selected_account_stays(accounts: Seq<AccountView>, id: u128, i: int)
    requires
        0 <= i < accounts.len(),
        accounts.len() <= usize::MAX,
        accounts[i].account_id == id,
        forall|k: int| 0 <= k < i ==> (#[trigger] accounts[k]).account_id != id,
    ensures
        kept_selection(Some(id), accounts) == AccountSelection::Account(i as usize),
{
    lemma_account_at(accounts, id, i);
}

pub proof fn lemma_account_at(accounts: Seq<AccountView>, id: u128, i: int)
    requires
        0 <= i <= accounts.len(),
        i < accounts.len() ==> accounts[i].account_id == id,
        forall|k: int| 0 <= k < i ==> (#[trigger] accounts[k]).account_id != id,
    ensures
        account_position(accounts, id) == i,
    decreases accounts.len(),
{
    if i > 0 {
        let rest = accounts.drop_first();
        assert forall|k: int| 0 <= k < i - 1 implies (#[trigger] rest[k]).account_id != id by {
            assert(rest[k] == accounts[k + 1]);
        }
        assert(accounts[0].account_id != id);
        lemma_account_at(rest, id, i - 1);
    }
}

/// An account that is no longer listed leaves all accounts selected.
pub proof fn law_lost_account_selects_all(accounts: Seq<AccountView>, id: u128)
    requires
        forall|k: int| 0 <= k < accounts.len() ==> (#[trigger] accounts[k]).account_id != id,
    ensures
        kept_selection(Some(id), accounts) == AccountSelection::All,
        kept_selection(None, accounts) == AccountSelection::All,
{
    lemma_account_at(accounts, id, accounts.len() as int);
}

/// A login goes out only for a user that is a Matrix ID, with the password that was given.
/// While another operation runs, none does.
pub proof fn law_login_goes_out_complete(
    before: App,
    after: App,
    username: Option<Seq<char>>,
    password: Option<Seq<char>>,
    homeserver: Option<Seq<char>>,
    task: TaskView,
)
    requires
        login_started(before, after, username, password, homeserver, task),
    ensures
        before.busy.lifecycle ==> task == TaskView::Nothing && after == (App {
            status: after.status,
            ..before
        }),
        !before.busy.lifecycle && username is None ==> task == TaskView::Nothing && after.mode@
            == ModeView::LoginUsername,
        !before.busy.lifecycle && username is Some && normal_user_id(username->0) is Some
            && password is None ==> task == TaskView::Nothing && (after.mode@ matches
            ModeView::LoginPassword { username: name, .. } && name == normal_user_id(username->0)->0),
        !before.busy.lifecycle && before.session.wired && username is Some && normal_user_id(
            username->0,
        ) is Some && password is Some ==> after.busy.lifecycle && (task matches TaskView::Login {
            username: name,
            password: secret,
            homeserver: server,
            ..
        } && name == normal_user_id(username->0)->0 && secret == password->0 && (server is Some)
            == (homeserver is Some)),
        task is Login ==> username is Some && valid_user_id(task->username) && begins(
            task->username,
            "@"@,
        ),
{
    if task is Login {
        let form = user_id_form(trim(username->0));
        reveal_strlit("@");
        reveal_strlit(":");
        assert(form is Some);
        let id = form->0;
        if !begins(trim(username->0), "@"@) {
            assert(id.subrange(0, 1) =~= "@"@);
        }
    }
}

/// Nothing is deleted, recovered or backed up before the user was asked, and nobody is
/// logged out unasked where the user wants to be asked.
pub proof fn law_user_is_asked_first(
    before: App,
    after: App,
    purpose: AccountPurpose,
    target: Option<String>,
    result: Result<Vec<AccountDto>, String>,
    step: StepView,
)
    requires
        listing_applied(before, after, purpose, target, result, step),
    ensures
        step is Done,
        step->Done_0.len() == 1,
        ({
            let task = step->Done_0[0];
            &&& task is Nothing || task is Logout
            &&& task is Logout ==> purpose == AccountPurpose::Logout
                && !before.display.confirm_logout && before.session.wired && result is Ok
        }),
{
}

/// An account that is to be deleted, and none but one that is not being deleted already,
/// is asked about by name.
pub proof fn law_deletion_names_the_account(
    before: App,
    after: App,
    target: Option<String>,
    accounts: Vec<AccountDto>,
    step: StepView,
    i: int,
)
    requires
        listing_applied(before, after, AccountPurpose::Delete, target, Ok(accounts), step),
        0 <= i < accounts@.len(),
        resolved(views(accounts@), Eligible::NotDeleting, option_view(target))
            == AccountResolutionView::Match(accounts@[i]@),
    ensures
        after.mode@ == (ModeView::ConfirmDelete { account: accounts@[i]@ }),
        after.status@ == StatusView::Info(
            "Permanently delete "@ + accounts@[i]@.user_id
                + "? Type YES to confirm, or Esc to cancel"@,
        ),
        after.input.buffer@.len() == 0,
{
}

/// A command on accounts that failed, or that meant no single account, gives the user the
/// command back to correct.
pub proof fn law_failed_command_comes_back(
    before: App,
    after: App,
    purpose: AccountPurpose,
    target: Option<String>,
    error: String,
    step: StepView,
)
    requires
        listing_applied(before, after, purpose, target, Err(error), step),
    ensures
        step == StepView::Done(seq![TaskView::Nothing]),
        after.mode@ == ModeView::Compose,
        ({
            let command = match purpose {
                AccountPurpose::Logout => "/logout"@,
                AccountPurpose::Recover => "/recover"@,
                AccountPurpose::BackupEnable => "/backup enable"@,
                AccountPurpose::Delete => "/delete"@,
            };
            after.input.buffer@ == (if target is Some && target->0@.len() > 0 {
                command + " "@ + target->0@
            } else {
                command
            })
        }),
{
}

/// The recovery key is asked for after a login that made a new device, unless the device
/// is verified already.
pub proof fn law_when_recovery_is_offered(
    before: App,
    after: App,
    account: AccountView,
    already_active: bool,
    warning: Option<Seq<char>>,
)
    requires
        before.finished(after, FinishView::Login { account, already_active }, warning),
    ensures
        !already_active && account.verified != Some(true) ==> after.mode@
            == (ModeView::RecoveryKey { account, origin: RecoveryOrigin::PostLogin }),
        already_active || account.verified == Some(true) ==> after.mode == before.mode
            && after.input == before.input,
{
}

/// Whether a login made a new device is told by the accounts that were active before.
pub proof fn law_login_outcome(
    before: App,
    after: App,
    username: String,
    prior: Vec<u128>,
    result: Result<AccountDto, String>,
    step: StepView,
)
    requires
        outcome_applied(
            before,
            after,
            LifecycleOutcome::Login { username, prior_account_ids: prior, result },
            step,
        ),
    ensures
        result matches Ok(account) ==> step is Refresh && after == before && (step->Refresh_0
            matches FinishView::Login { account: a, already_active: known } && a == account@ && known
            == (exists|k: int| 0 <= k < prior@.len() && prior@[k] == account.account_id)),
        result matches Err(e) ==> step == StepView::Done(Seq::empty()) && said(
            before,
            after,
            "login failed for "@ + username@ + ": "@ + e@,
        ),
{
}

} // verus!
