//! Which account a command means.

use vstd::prelude::*;

use crate::api::dto::{AccountDto, AccountState, AccountView};
use crate::app::accounts::copy_account;
use crate::app::rooms::{account_localpart, localpart};
use crate::ids::{format_id, id_text, parse_id, parsed_id};
use crate::text::{
    begins, begins_ignoring_case, cat2, cat4, chars_of, find_char_in, option_str_view,
    option_view, same_text, split_once, split_text_once, text_begins, text_begins_ignoring_case,
    trim, trim_start_char, trim_text, trim_text_start_char, views,
};

verus! {

// ---------------------------------------------------------------------------
// User ids and homeservers
// ---------------------------------------------------------------------------

/// Whether `ruma` takes a text for a user id.
pub uninterp spec fn valid_user_id(s: Seq<char>) -> bool;

/// Whether a text is a user id of the common form: an at sign, a name, a colon and a
/// host of letters, digits, hyphens and dots, not longer than a user id may be.
pub open spec fn common_user_id(s: Seq<char>) -> bool {
    &&& 0 < s.len() <= 255
    &&& s[0] == '@'
    &&& forall|i: int| 0 <= i < s.len() ==> '\0' < #[trigger] s[i] <= '~'
    &&& match split_once(s, ':') {
        Some((_, host)) => host.len() > 0 && forall|i: int|
            0 <= i < host.len() ==> host_char(#[trigger] host[i]),
        None => false,
    }
}

pub open spec fn host_char(c: char) -> bool {
    'a' <= c <= 'z' || 'A' <= c <= 'Z' || '0' <= c <= '9' || c == '-' || c == '.'
}

/// Whether a text is a user id: `ruma::OwnedUserId::try_from`. What makes a
/// server name valid takes long to say, so the answer is named; every user id
/// begins with an at sign and holds a colon, and a text of the common form is one.
#[verifier::external_body]
fn is_user_id(s: &str) -> (r: bool)
    ensures
        r == valid_user_id(s@),
        r ==> s@.len() > 0 && s@[0] == '@' && s@.contains(':'),
        common_user_id(s@) ==> r,
{
    ruma::OwnedUserId::try_from(s).is_ok()
}

pub open spec fn has_char(s: Seq<char>, c: char) -> bool {
    s.contains(c)
}

pub fn text_has_char(s: &str, c: char) -> (r: bool)
    ensures
        r == has_char(s@, c),
{
    let x = chars_of(s);
    let at: usize = find_char_in(x.as_slice(), c);
    if at < x.len() {
        assert(s@[at as int] == c);
        true
    } else {
        false
    }
}

/// The text of a user id in one of the forms that a user may write: with the at
/// sign, without it, or like a mail address.
pub open spec fn user_id_form(value: Seq<char>) -> Option<Seq<char>> {
    if begins(value, "@"@) {
        Some(value)
    } else if has_char(value, ':') {
        Some("@"@ + value)
    } else {
        match split_once(value, '@') {
            Some((local, server)) => if local.len() == 0 || server.len() == 0 || has_char(
                server,
                '@',
            ) {
                None
            } else {
                Some("@"@ + local + ":"@ + server)
            },
            None => None,
        }
    }
}

pub open spec fn user_id_error() -> Seq<char> {
    "enter a Matrix ID as @name:domain, name:domain, or name@domain"@
}

/// The user id that a user wrote, or nothing.
pub open spec fn normal_user_id(value: Seq<char>) -> Option<Seq<char>> {
    match user_id_form(trim(value)) {
        Some(candidate) => if valid_user_id(candidate) {
            Some(candidate)
        } else {
            None
        },
        None => None,
    }
}

pub fn matrix_user_id_error() -> (out: String)
    ensures
        out@ == user_id_error(),
{
    "enter a Matrix ID as @name:domain, name:domain, or name@domain".to_owned()
}

/// The text of a user id in one of the forms that a user may write.
pub fn write_user_id(value: &str) -> (out: Option<String>)
    ensures
        option_view(out) == user_id_form(value@),
{
    if text_begins(value, "@") {
        return Some(value.to_owned());
    }
    if text_has_char(value, ':') {
        return Some(cat2("@", value));
    }
    match split_text_once(value, '@') {
        Some((local, server)) => if local.is_empty() || server.is_empty() || text_has_char(
            server,
            '@',
        ) {
            None
        } else {
            Some(cat4("@", local, ":", server))
        },
        None => None,
    }
}

pub fn normalize_matrix_user_id(value: &str) -> (out: Result<String, String>)
    ensures
        match out {
            Ok(id) => normal_user_id(value@) == Some(id@),
            Err(e) => normal_user_id(value@) is None && e@ == user_id_error(),
        },
        out matches Ok(id) ==> id@.len() > 0 && id@[0] == '@' && id@.contains(':'),
        match user_id_form(trim(value@)) {
            Some(candidate) => common_user_id(candidate) ==> out is Ok,
            None => out is Err,
        },
{
    let candidate = match write_user_id(trim_text(value)) {
        Some(c) => c,
        None => return Err(matrix_user_id_error()),
    };
    if is_user_id(candidate.as_str()) {
        Ok(candidate)
    } else {
        Err(matrix_user_id_error())
    }
}

/// The user id that a target with a server in it names.
pub open spec fn canonical_target(value: Seq<char>) -> Option<Seq<char>> {
    let v = trim(value);
    if has_char(v, ':') || (!begins(v, "@"@) && has_char(v, '@')) {
        normal_user_id(v)
    } else {
        None
    }
}

pub fn canonical_logout_target(value: &str) -> (out: Option<String>)
    ensures
        option_view(out) == canonical_target(value@),
{
    let v = trim_text(value);
    if text_has_char(v, ':') || (!text_begins(v, "@") && text_has_char(v, '@')) {
        match normalize_matrix_user_id(v) {
            Ok(id) => Some(id),
            Err(_) => None,
        }
    } else {
        None
    }
}

pub fn matrix_user_localpart(user_id: &str) -> (out: Option<&str>)
    ensures
        option_str_view(out) == localpart(user_id@),
{
    account_localpart(user_id)
}

/// The address of a homeserver. One without a scheme is taken to be secure; a scheme is
/// told in any case of its letters and left as it is.
pub open spec fn homeserver_url(value: Seq<char>) -> Seq<char> {
    let v = trim(value);
    if begins_ignoring_case(v, "http://"@) || begins_ignoring_case(v, "https://"@) {
        v
    } else {
        "https://"@ + v
    }
}

pub fn normalize_homeserver_url(value: &str) -> (out: String)
    ensures
        out@ == homeserver_url(value@),
{
    let v = trim_text(value);
    if text_begins_ignoring_case(v, "http://") || text_begins_ignoring_case(v, "https://") {
        v.to_owned()
    } else {
        cat2("https://", v)
    }
}

// ---------------------------------------------------------------------------
// Accounts
// ---------------------------------------------------------------------------

/// Which accounts a command is for.
#[derive(Debug, Clone, Copy, PartialEq, Eq, Structural)]
pub enum Eligible {
    Active,
    NotDeleting,
}

pub open spec fn eligible(which: Eligible, state: AccountState) -> bool {
    match which {
        Eligible::Active => state == AccountState::Active,
        Eligible::NotDeleting => state != AccountState::Deleting,
    }
}

fn is_eligible(which: Eligible, state: AccountState) -> (r: bool)
    ensures
        r == eligible(which, state),
{
    match which {
        Eligible::Active => state == AccountState::Active,
        Eligible::NotDeleting => state != AccountState::Deleting,
    }
}

/// Whether a target means an account: the empty target every one; else by its
/// id, by its user id, or by the local part of its user id.
pub open spec fn targeted(account: AccountView, target: Seq<char>) -> bool {
    if target.len() == 0 {
        true
    } else {
        match parsed_id(target) {
            Some(id) => account.account_id == id,
            None => match canonical_target(target) {
                Some(user_id) => account.user_id == user_id,
                None => localpart(account.user_id) == Some(trim_start_char(target, '@')),
            },
        }
    }
}

pub open spec fn targets_of(
    accounts: Seq<AccountView>,
    which: Eligible,
    target: Seq<char>,
) -> Seq<AccountView>
    decreases accounts.len(),
{
    if accounts.len() == 0 {
        Seq::empty()
    } else {
        let before = targets_of(accounts.drop_last(), which, target);
        if eligible(which, accounts.last().state) && targeted(accounts.last(), target) {
            before.push(accounts.last())
        } else {
            before
        }
    }
}

/// The user ids of accounts.
pub open spec fn user_ids(accounts: Seq<AccountView>) -> Seq<Seq<char>> {
    Seq::new(accounts.len(), |i: int| accounts[i].user_id)
}

/// What a target means.
#[derive(Debug)]
pub enum AccountResolution {
    Match(AccountDto),
    Ambiguous(Vec<String>),
    Missing,
}

pub enum AccountResolutionView {
    Match(AccountView),
    Ambiguous(Seq<Seq<char>>),
    Missing,
}

impl View for AccountResolution {
    type V = AccountResolutionView;

    open spec fn view(&self) -> AccountResolutionView {
        match self {
            AccountResolution::Match(a) => AccountResolutionView::Match(a@),
            AccountResolution::Ambiguous(options) => AccountResolutionView::Ambiguous(
                views(options@),
            ),
            AccountResolution::Missing => AccountResolutionView::Missing,
        }
    }
}

/// What the accounts that a target means come to.
pub open spec fn classified(matches: Seq<AccountView>) -> AccountResolutionView {
    if matches.len() == 0 {
        AccountResolutionView::Missing
    } else if matches.len() == 1 {
        AccountResolutionView::Match(matches[0])
    } else {
        AccountResolutionView::Ambiguous(user_ids(matches))
    }
}

pub open spec fn target_or_empty(target: Option<Seq<char>>) -> Seq<char> {
    match target {
        Some(t) => trim(t),
        None => Seq::empty(),
    }
}

/// What a target means among the accounts.
pub open spec fn resolved(
    accounts: Seq<AccountView>,
    which: Eligible,
    target: Option<Seq<char>>,
) -> AccountResolutionView {
    classified(targets_of(accounts, which, target_or_empty(target)))
}

/// A target, read once for all accounts.
struct ReadTarget<'a> {
    empty: bool,
    id: Option<u128>,
    user_id: Option<String>,
    local: &'a str,
}

impl<'a> ReadTarget<'a> {
    spec fn of(self, target: Seq<char>) -> bool {
        &&& self.empty == (target.len() == 0)
        &&& self.id == parsed_id(target)
        &&& option_view(self.user_id) == canonical_target(target)
        &&& self.local@ == trim_start_char(target, '@')
    }

    fn read(target: &'a str) -> (out: ReadTarget<'a>)
        ensures
            out.of(target@),
    {
        ReadTarget {
            empty: target.is_empty(),
            id: parse_id(target),
            user_id: canonical_logout_target(target),
            local: trim_text_start_char(target, '@'),
        }
    }

    fn means(&self, account: &AccountDto, Ghost(target): Ghost<Seq<char>>) -> (r: bool)
        requires
            self.of(target),
        ensures
            r == targeted(account@, target),
    {
        if self.empty {
            return true;
        }
        if let Some(id) = self.id {
            return account.account_id == id;
        }
        match &self.user_id {
            Some(u) => same_text(account.user_id.as_str(), u.as_str()),
            None => match matrix_user_localpart(account.user_id.as_str()) {
                Some(local) => same_text(local, self.local),
                None => false,
            },
        }
    }

    fn begins(&self, account: &AccountDto, Ghost(target): Ghost<Seq<char>>) -> (r: bool)
        requires
            self.of(target),
        ensures
            r == begun(account@, target),
    {
        if self.empty {
            return true;
        }
        match &self.user_id {
            Some(u) => text_begins(account.user_id.as_str(), u.as_str()),
            None => match matrix_user_localpart(account.user_id.as_str()) {
                Some(local) => text_begins(local, self.local),
                None => false,
            },
        }
    }
}

pub fn resolve_account_target(
    accounts: &Vec<AccountDto>,
    which: Eligible,
    target: Option<&str>,
) -> (out: AccountResolution)
    ensures
        out@ == resolved(views(accounts@), which, option_str_view(target)),
{
    let t = match target {
        Some(t) => trim_text(t),
        None => "",
    };
    proof {
        reveal_strlit("");
        if target is None {
            assert(t@ =~= Seq::<char>::empty());
        }
    }
    let read = ReadTarget::read(t);
    let ghost all = views(accounts@);
    let mut found: Vec<usize> = Vec::new();
    let mut i: usize = 0;
    assert(Seq::new(found@.len(), |k: int| all[found@[k] as int]) =~= Seq::<AccountView>::empty());
    while i < accounts.len()
        invariant
            i <= accounts.len(),
            all == views(accounts@),
            read.of(t@),
            forall|k: int| 0 <= k < found@.len() ==> #[trigger] found@[k] < i,
            Seq::new(found@.len(), |k: int| all[found@[k] as int]) == targets_of(
                all.take(i as int),
                which,
                t@,
            ),
        decreases accounts.len() - i,
    {
        let ghost before = Seq::new(found@.len(), |k: int| all[found@[k] as int]);
        assert(all.take(i + 1).drop_last() =~= all.take(i as int));
        assert(all.take(i + 1).last() == accounts@[i as int]@);
        if is_eligible(which, accounts[i].state) && read.means(&accounts[i], Ghost(t@)) {
            found.push(i);
            assert(Seq::new(found@.len(), |k: int| all[found@[k] as int]) =~= before.push(
                all[i as int],
            ));
        }
        i = i + 1;
    }
    assert(all.take(i as int) =~= all);
    let ghost matches = Seq::new(found@.len(), |k: int| all[found@[k] as int]);
    if found.len() == 0 {
        AccountResolution::Missing
    } else if found.len() == 1 {
        AccountResolution::Match(copy_account(&accounts[found[0]]))
    } else {
        let mut options: Vec<String> = Vec::new();
        let mut k: usize = 0;
        while k < found.len()
            invariant
                k <= found.len(),
                i == accounts.len(),
                all == views(accounts@),
                forall|k: int| 0 <= k < found@.len() ==> #[trigger] found@[k] < i,
                options.len() == k,
                matches == Seq::new(found@.len(), |k: int| all[found@[k] as int]),
                forall|j: int| 0 <= j < k ==> (#[trigger] options@[j])@ == matches[j].user_id,
            decreases found.len() - k,
        {
            options.push(accounts[found[k]].user_id.clone());
            k = k + 1;
        }
        assert(views(options@) =~= user_ids(matches));
        AccountResolution::Ambiguous(options)
    }
}

/// Whether a target is the beginning of what an account goes by.
pub open spec fn begun(account: AccountView, target: Seq<char>) -> bool {
    if target.len() == 0 {
        true
    } else {
        match canonical_target(target) {
            Some(user_id) => begins(account.user_id, user_id),
            None => match localpart(account.user_id) {
                Some(local) => begins(local, trim_start_char(target, '@')),
                None => false,
            },
        }
    }
}

pub open spec fn begun_of(
    accounts: Seq<AccountView>,
    which: Eligible,
    target: Seq<char>,
) -> Seq<AccountView>
    decreases accounts.len(),
{
    if accounts.len() == 0 {
        Seq::empty()
    } else {
        let before = begun_of(accounts.drop_last(), which, target);
        if eligible(which, accounts.last().state) && begun(accounts.last(), target) {
            before.push(accounts.last())
        } else {
            before
        }
    }
}

/// How often a user id stands in a list.
pub open spec fn times(accounts: Seq<AccountView>, user_id: Seq<char>) -> int
    decreases accounts.len(),
{
    if accounts.len() == 0 {
        0
    } else {
        times(accounts.drop_last(), user_id) + if accounts.last().user_id == user_id {
            1int
        } else {
            0int
        }
    }
}

/// What each account of a list is completed to: its user id, or its own id where
/// the user id is there more than once.
pub open spec fn completion_values(accounts: Seq<AccountView>) -> Seq<Seq<char>> {
    Seq::new(
        accounts.len(),
        |i: int|
            if times(accounts, accounts[i].user_id) > 1 {
                id_text(accounts[i].account_id)
            } else {
                accounts[i].user_id
            },
    )
}

/// The completions of a target.
pub open spec fn account_candidates(
    accounts: Seq<AccountView>,
    which: Eligible,
    target: Seq<char>,
) -> Seq<Seq<char>> {
    completion_values(begun_of(accounts, which, trim(target)))
}

/// What each account of a list is completed to.
pub fn account_completion_values(accounts: &Vec<&AccountDto>) -> (out: Vec<String>)
    ensures
        views(out@) == completion_values(views(accounts@)),
{
    let ghost all = views(accounts@);
    let mut out: Vec<String> = Vec::new();
    let mut i: usize = 0;
    while i < accounts.len()
        invariant
            i <= accounts.len(),
            all == views(accounts@),
            out.len() == i,
            forall|k: int| 0 <= k < i ==> (#[trigger] out@[k])@ == completion_values(all)[k],
        decreases accounts.len() - i,
    {
        let mut count: usize = 0;
        let mut j: usize = 0;
        while j < accounts.len()
            invariant
                j <= accounts.len(),
                i < accounts.len(),
                all == views(accounts@),
                count == times(all.take(j as int), all[i as int].user_id),
                count <= j,
            decreases accounts.len() - j,
        {
            assert(all.take(j + 1).drop_last() =~= all.take(j as int));
            assert(all.take(j + 1).last() == accounts@[j as int]@);
            if same_text(accounts[j].user_id.as_str(), accounts[i].user_id.as_str()) {
                count = count + 1;
            }
            j = j + 1;
        }
        assert(all.take(j as int) =~= all);
        let value = if count > 1 {
            format_id(accounts[i].account_id)
        } else {
            accounts[i].user_id.clone()
        };
        out.push(value);
        i = i + 1;
    }
    assert(views(out@) =~= completion_values(all));
    out
}

pub fn complete_account_target(accounts: &Vec<AccountDto>, which: Eligible, target: &str) -> (out:
    Vec<String>)
    ensures
        views(out@) == account_candidates(views(accounts@), which, target@),
{
    let t = trim_text(target);
    let read = ReadTarget::read(t);
    let ghost all = views(accounts@);
    let mut found: Vec<&AccountDto> = Vec::new();
    let mut i: usize = 0;
    assert(views(found@) =~= Seq::<AccountView>::empty());
    while i < accounts.len()
        invariant
            i <= accounts.len(),
            all == views(accounts@),
            read.of(t@),
            views(found@) == begun_of(all.take(i as int), which, t@),
        decreases accounts.len() - i,
    {
        let ghost before = views(found@);
        assert(all.take(i + 1).drop_last() =~= all.take(i as int));
        assert(all.take(i + 1).last() == accounts@[i as int]@);
        if is_eligible(which, accounts[i].state) && read.begins(&accounts[i], Ghost(t@)) {
            found.push(&accounts[i]);
            assert(views(found@) =~= before.push(all[i as int]));
        }
        i = i + 1;
    }
    assert(all.take(i as int) =~= all);
    account_completion_values(&found)
}

proof fn lemma_targets_eligible(accounts: Seq<AccountView>, which: Eligible, target: Seq<char>)
    ensures
        forall|i: int|
            0 <= i < targets_of(accounts, which, target).len() ==> eligible(
                which,
                (#[trigger] targets_of(accounts, which, target)[i]).state,
            ),
    decreases accounts.len(),
{
    if accounts.len() > 0 {
        lemma_targets_eligible(accounts.drop_last(), which, target);
        let before = targets_of(accounts.drop_last(), which, target);
        let all = targets_of(accounts, which, target);
        assert forall|i: int| 0 <= i < all.len() implies eligible(
            which,
            (#[trigger] all[i]).state,
        ) by {
            if i < before.len() {
                assert(all[i] == before[i]);
            }
        }
    }
}

/// A command never resolves to an account that it is not for: logging out and
/// recovering only to an active one, deleting never to one that is being deleted.
pub proof fn law_resolved_is_eligible(
    accounts: Seq<AccountView>,
    which: Eligible,
    target: Option<Seq<char>>,
)
    ensures
        resolved(accounts, which, target) matches AccountResolutionView::Match(a) ==> eligible(
            which,
            a.state,
        ),
{
    lemma_targets_eligible(accounts, which, target_or_empty(target));
}

} // verus!
