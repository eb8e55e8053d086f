//! What the user is typing: the beginnings of commands, paths and room names.

use vstd::prelude::*;

use crate::order::{sort_texts, text_sorted};
use crate::text::{
    begins, begins_ignoring_case, cat2, cat3, char_is_white, chars_of, find_char_in, has_white,
    is_white, lowercase, option_str_view, option_view, split_once, split_text_once,
    strip_char_prefix, strip_text_prefix, text_begins, text_begins_ignoring_case, text_has_white,
    text_of, to_lowercase, trim, trim_start, trim_text, trim_text_start, views, without_prefix,
};

verus! {

// ---------------------------------------------------------------------------
// Commands
// ---------------------------------------------------------------------------

/// A command, and whether something follows it.
#[derive(Debug, Clone, Copy)]
pub struct SlashCommand {
    pub name: &'static str,
    pub takes_argument: bool,
}

/// The name of the command being typed, without its slash.
pub open spec fn command_prefix(input: Seq<char>) -> Option<Seq<char>> {
    match without_prefix(trim_start(input), "/"@) {
        Some(rest) => if has_white(rest) {
            None
        } else {
            Some(rest)
        },
        None => None,
    }
}

pub fn slash_command_prefix(input: &str) -> (out: Option<&str>)
    ensures
        option_str_view(out) == command_prefix(input@),
{
    match strip_text_prefix(trim_text_start(input), "/") {
        Some(rest) => if text_has_white(rest) {
            None
        } else {
            Some(rest)
        },
        None => None,
    }
}

/// The name of the emoji being typed.
pub open spec fn emoji_prefix(input: Seq<char>) -> Option<Seq<char>> {
    match without_prefix(trim_start(input), "/react "@) {
        Some(rest) => if trim(rest).len() == 0 || has_white(trim(rest)) {
            None
        } else {
            Some(trim(rest))
        },
        None => None,
    }
}

pub fn react_command_emoji_prefix(input: &str) -> (out: Option<&str>)
    ensures
        option_str_view(out) == emoji_prefix(input@),
{
    match strip_text_prefix(trim_text_start(input), "/react ") {
        Some(rest) => {
            let query = trim_text(rest);
            if query.is_empty() || text_has_white(query) {
                None
            } else {
                Some(query)
            }
        },
        None => None,
    }
}

/// What follows the name of a command: nothing, or the target with white space before
/// it and perhaps after it.
pub open spec fn target_of_rest(rest: Seq<char>) -> Option<Seq<char>> {
    if rest.len() == 0 {
        Some(rest)
    } else if is_white(rest[0]) {
        Some(trim(rest))
    } else {
        None
    }
}

pub fn target_after_command_name(rest: &str) -> (out: Option<&str>)
    ensures
        option_str_view(out) == target_of_rest(rest@),
{
    if rest.is_empty() {
        return Some(rest);
    }
    if char_is_white(rest.get_char(0)) {
        Some(trim_text(rest))
    } else {
        None
    }
}

/// The target of a command.
pub open spec fn command_target(input: Seq<char>, command: Seq<char>) -> Option<Seq<char>> {
    match without_prefix(input, command) {
        Some(rest) => target_of_rest(rest),
        None => None,
    }
}

pub fn command_target_prefix<'a>(input: &'a str, command: &str) -> (out: Option<&'a str>)
    ensures
        option_str_view(out) == command_target(input@, command@),
{
    match strip_text_prefix(input, command) {
        Some(rest) => target_after_command_name(rest),
        None => None,
    }
}

/// The filter being typed.
pub open spec fn filter_target(input: Seq<char>) -> Option<Seq<char>> {
    match command_target(input, "/filter"@) {
        Some(target) => if has_white(target) {
            None
        } else {
            Some(target)
        },
        None => None,
    }
}

pub fn filter_target_prefix(input: &str) -> (out: Option<&str>)
    ensures
        option_str_view(out) == filter_target(input@),
{
    match command_target_prefix(input, "/filter") {
        Some(target) => if text_has_white(target) {
            None
        } else {
            Some(target)
        },
        None => None,
    }
}

/// The words that name a filter.
pub open spec fn filter_words() -> Seq<Seq<char>> {
    seq![
        "all"@,
        "dms"@,
        "dm"@,
        "people"@,
        "groups"@,
        "group"@,
        "rooms"@,
        "unread"@,
        "fav"@,
        "favs"@,
        "favorites"@,
    ]
}

/// The texts of a list that begin with a prefix.
pub open spec fn beginning_with(texts: Seq<Seq<char>>, prefix: Seq<char>) -> Seq<Seq<char>>
    decreases texts.len(),
{
    if texts.len() == 0 {
        Seq::empty()
    } else if begins(texts.last(), prefix) {
        beginning_with(texts.drop_last(), prefix).push(texts.last())
    } else {
        beginning_with(texts.drop_last(), prefix)
    }
}

pub fn filter_argument_candidates(target: &str) -> (out: Vec<&'static str>)
    ensures
        views(out@) == beginning_with(filter_words(), lowercase(target@)),
{
    let prefix = to_lowercase(target);
    let words: [&'static str; 11] = [
        "all",
        "dms",
        "dm",
        "people",
        "groups",
        "group",
        "rooms",
        "unread",
        "fav",
        "favs",
        "favorites",
    ];
    let ghost all = filter_words();
    let mut out: Vec<&'static str> = Vec::new();
    let mut i: usize = 0;
    assert(views(out@) =~= Seq::<Seq<char>>::empty());
    while i < 11
        invariant
            i <= 11,
            all == filter_words(),
            forall|k: int| 0 <= k < 11 ==> (#[trigger] words@[k])@ == all[k],
            views(out@) == beginning_with(all.take(i as int), prefix@),
        decreases 11 - i,
    {
        let ghost before = views(out@);
        assert(all.take(i + 1).drop_last() =~= all.take(i as int));
        assert(all.take(i + 1).last() == words@[i as int]@);
        if text_begins(words[i], prefix.as_str()) {
            out.push(words[i]);
            assert(views(out@) =~= before.push(words@[i as int]@));
        }
        i = i + 1;
    }
    assert(all.take(11) =~= all);
    out
}

/// The commands of a list whose names begin with a slash and a prefix.
pub open spec fn commands_beginning(commands: Seq<SlashCommand>, prefix: Seq<char>) -> Seq<
    SlashCommand,
>
    decreases commands.len(),
{
    if commands.len() == 0 {
        Seq::empty()
    } else if begins(commands.last().name@, "/"@ + prefix) {
        commands_beginning(commands.drop_last(), prefix).push(commands.last())
    } else {
        commands_beginning(commands.drop_last(), prefix)
    }
}

pub fn slash_command_candidates(commands: &[SlashCommand], prefix: &str) -> (out: Vec<SlashCommand>)
    ensures
        out@ == commands_beginning(commands@, prefix@),
{
    let wanted = cat2("/", prefix);
    let mut out: Vec<SlashCommand> = Vec::new();
    let mut i: usize = 0;
    while i < commands.len()
        invariant
            i <= commands.len(),
            wanted@ == "/"@ + prefix@,
            out@ == commands_beginning(commands@.take(i as int), prefix@),
        decreases commands.len() - i,
    {
        assert(commands@.take(i + 1).drop_last() =~= commands@.take(i as int));
        if text_begins(commands[i].name, wanted.as_str()) {
            out.push(commands[i]);
        }
        i = i + 1;
    }
    assert(commands@.take(i as int) =~= commands@);
    out
}

pub fn send_target_prefix(input: &str) -> (out: Option<&str>)
    ensures
        option_str_view(out) == command_target(input@, "/send"@),
{
    command_target_prefix(input, "/send")
}

/// The command on a member of the room that is being typed, and its target.
pub open spec fn user_action(input: Seq<char>) -> Option<(Seq<char>, Seq<char>)> {
    if command_target(input, "/invite"@) is Some {
        Some(("/invite"@, command_target(input, "/invite"@)->0))
    } else if command_target(input, "/kick"@) is Some {
        Some(("/kick"@, command_target(input, "/kick"@)->0))
    } else if command_target(input, "/ban"@) is Some {
        Some(("/ban"@, command_target(input, "/ban"@)->0))
    } else if command_target(input, "/unban"@) is Some {
        Some(("/unban"@, command_target(input, "/unban"@)->0))
    } else {
        None
    }
}

pub fn room_action_user_target_prefix(input: &str) -> (out: Option<(&'static str, &str)>)
    ensures
        match out {
            Some((command, target)) => user_action(input@) == Some((command@, target@)),
            None => user_action(input@) is None,
        },
{
    if let Some(target) = command_target_prefix(input, "/invite") {
        return Some(("/invite", target));
    }
    if let Some(target) = command_target_prefix(input, "/kick") {
        return Some(("/kick", target));
    }
    if let Some(target) = command_target_prefix(input, "/ban") {
        return Some(("/ban", target));
    }
    if let Some(target) = command_target_prefix(input, "/unban") {
        return Some(("/unban", target));
    }
    None
}

/// The room being typed.
pub open spec fn room_target(input: Seq<char>) -> Option<Seq<char>> {
    match without_prefix(input, "/room"@) {
        Some(rest) => target_of_rest(rest),
        None => match without_prefix(input, "/switch"@) {
            Some(rest) => target_of_rest(rest),
            None => None,
        },
    }
}

pub fn room_target_prefix(input: &str) -> (out: Option<&str>)
    ensures
        option_str_view(out) == room_target(input@),
{
    match strip_text_prefix(input, "/room") {
        Some(rest) => target_after_command_name(rest),
        None => match strip_text_prefix(input, "/switch") {
            Some(rest) => target_after_command_name(rest),
            None => None,
        },
    }
}

// ---------------------------------------------------------------------------
// Paths
// ---------------------------------------------------------------------------

/// The characters that a backslash takes the meaning from.
pub open spec fn escapable(c: char) -> bool {
    c == ' ' || c == '\\' || c == '\'' || c == '"'
}

fn is_escapable(c: char) -> (r: bool)
    ensures
        r == escapable(c),
{
    c == ' ' || c == '\\' || c == '\'' || c == '"'
}

pub open spec fn at_escape(s: Seq<char>) -> bool {
    s.len() > 1 && s[0] == '\\' && escapable(s[1])
}

/// The path at the start of a text, and what follows it, if the path is complete.
/// It ends at white space that no backslash stands before.
pub open spec fn plain_token(s: Seq<char>) -> (Seq<char>, Option<Seq<char>>)
    decreases s.len(),
{
    if s.len() == 0 {
        (Seq::empty(), None)
    } else if at_escape(s) {
        let (token, rest) = plain_token(s.skip(2));
        (seq![s[1]] + token, rest)
    } else if is_white(s[0]) {
        (Seq::empty(), Some(s))
    } else {
        let (token, rest) = plain_token(s.skip(1));
        (seq![s[0]] + token, rest)
    }
}

/// The path at the start of a text up to a closing quote, and what follows it.
pub open spec fn quoted_token(s: Seq<char>, quote: char) -> (Seq<char>, Option<Seq<char>>)
    decreases s.len(),
{
    if s.len() == 0 {
        (Seq::empty(), None)
    } else if at_escape(s) {
        let (token, rest) = quoted_token(s.skip(2), quote);
        (seq![s[1]] + token, rest)
    } else if s[0] == quote {
        (Seq::empty(), if s.len() == 1 {
            None
        } else {
            Some(s.skip(1))
        })
    } else {
        let (token, rest) = quoted_token(s.skip(1), quote);
        (seq![s[0]] + token, rest)
    }
}

/// The path at the start of an argument, in quotes or not, and what follows it.
pub open spec fn path_token(s: Seq<char>) -> (Seq<char>, Option<Seq<char>>) {
    if s.len() > 0 && (s[0] == '\'' || s[0] == '"') {
        quoted_token(s.skip(1), s[0])
    } else {
        plain_token(s)
    }
}

/// What follows a path as a caption.
pub open spec fn caption_of(rest: Option<Seq<char>>) -> Option<Seq<char>> {
    match rest {
        Some(r) => if trim(r).len() == 0 {
            None
        } else {
            Some(trim(r))
        },
        None => None,
    }
}

/// Reads a path from the start of an argument. The second result is the number of
/// characters up to what follows, if the path is complete.
fn read_token(x: &Vec<char>) -> (out: (Vec<char>, Option<usize>))
    ensures
        match out.1 {
            Some(at) => at < x.len() && path_token(x@) == (out.0@, Some(x@.skip(at as int))),
            None => path_token(x@) == (out.0@, None::<Seq<char>>),
        },
{
    let quote: Option<char> = if x.len() > 0 && (x[0] == '\'' || x[0] == '"') {
        Some(x[0])
    } else {
        None
    };
    let mut token: Vec<char> = Vec::new();
    let mut i: usize = if quote.is_some() {
        1
    } else {
        0
    };
    assert(x@.skip(0) =~= x@);
    let ghost target = path_token(x@);
    proof {
        let (t, r) = remaining(x@.skip(i as int), quote);
        assert(token@ + t =~= t);
        assert(target == (t, r));
    }
    while i < x.len()
        invariant
            i <= x.len(),
            target.0 == token@ + remaining(x@.skip(i as int), quote).0,
            target.1 == remaining(x@.skip(i as int), quote).1,
            target == path_token(x@),
        decreases x.len() - i,
    {
        let ghost s = x@.skip(i as int);
        let ghost before = token@;
        assert(s[0] == x@[i as int]);
        assert(s.skip(1) =~= x@.skip(i + 1));
        if x[i] == '\\' && x.len() - i > 1 && is_escapable(x[i + 1]) {
            assert(s[1] == x@[i + 1]);
            assert(s.skip(2) =~= x@.skip(i + 2));
            token.push(x[i + 1]);
            assert(before + (seq![s[1]] + remaining(s.skip(2), quote).0) =~= token@ + remaining(
                s.skip(2),
                quote,
            ).0);
            i = i + 2;
            continue ;
        }
        assert(!at_escape(s));
        let ended = match quote {
            Some(q) => x[i] == q,
            None => char_is_white(x[i]),
        };
        if ended {
            assert(target.0 =~= token@);
            return match quote {
                Some(_) => if i + 1 == x.len() {
                    (token, None)
                } else {
                    (token, Some(i + 1))
                },
                None => (token, Some(i)),
            };
        }
        token.push(x[i]);
        assert(before + (seq![s[0]] + remaining(s.skip(1), quote).0) =~= token@ + remaining(
            s.skip(1),
            quote,
        ).0);
        i = i + 1;
    }
    assert(x@.skip(i as int).len() == 0);
    assert(target.0 =~= token@);
    (token, None)
}

spec fn remaining(s: Seq<char>, quote: Option<char>) -> (Seq<char>, Option<Seq<char>>) {
    match quote {
        Some(q) => quoted_token(s, q),
        None => plain_token(s),
    }
}

/// The path and the caption of an argument.
pub fn parse_leading_path_token(argument: &str) -> (out: (String, Option<String>))
    ensures
        out.0@ == path_token(argument@).0,
        option_view(out.1) == caption_of(path_token(argument@).1),
{
    let x = chars_of(argument);
    let (token, rest) = read_token(&x);
    let path = text_of(token.as_slice());
    match rest {
        Some(at) => {
            let n: usize = argument.unicode_len();
            let follows = argument.substring_char(at, n);
            assert(follows@ =~= x@.skip(at as int));
            let caption = trim_text(follows);
            if caption.is_empty() {
                (path, None)
            } else {
                (path, Some(caption.to_owned()))
            }
        },
        None => (path, None),
    }
}

/// The argument while its path is being typed.
pub open spec fn completion_token(target: Seq<char>) -> Option<Seq<char>> {
    if path_token(target).1 is None {
        Some(target)
    } else {
        None
    }
}

pub fn send_path_completion_token(target: &str) -> (out: Option<&str>)
    ensures
        option_str_view(out) == completion_token(target@),
{
    let x = chars_of(target);
    let (_, rest) = read_token(&x);
    match rest {
        Some(_) => None,
        None => Some(target),
    }
}

/// A path with a backslash before every character that needs one.
pub open spec fn escaped_path(path: Seq<char>) -> Seq<char>
    decreases path.len(),
{
    if path.len() == 0 {
        Seq::empty()
    } else {
        escaped_path(path.drop_last()) + (if escapable(path.last()) {
            seq!['\\', path.last()]
        } else {
            seq![path.last()]
        })
    }
}

pub fn quote_path_for_send(path: &str) -> (out: String)
    ensures
        out@ == escaped_path(path@),
{
    let x = chars_of(path);
    let mut out: Vec<char> = Vec::new();
    let mut i: usize = 0;
    assert(out@ =~= escaped_path(path@.take(0)));
    while i < x.len()
        invariant
            i <= x.len(),
            x@ == path@,
            out@ == escaped_path(path@.take(i as int)),
        decreases x.len() - i,
    {
        let ghost before = out@;
        assert(path@.take(i + 1).drop_last() =~= path@.take(i as int));
        assert(path@.take(i + 1).last() == x@[i as int]);
        if is_escapable(x[i]) {
            out.push('\\');
        }
        out.push(x[i]);
        assert(out@ =~= escaped_path(path@.take(i + 1)));
        i = i + 1;
    }
    assert(path@.take(i as int) =~= path@);
    text_of(out.as_slice())
}

proof fn lemma_escaped_first(path: Seq<char>)
    requires
        path.len() > 0,
    ensures
        escaped_path(path) == (if escapable(path[0]) {
            seq!['\\', path[0]]
        } else {
            seq![path[0]]
        }) + escaped_path(path.drop_first()),
    decreases path.len(),
{
    reveal_with_fuel(escaped_path, 2);
    if path.len() == 1 {
        assert(path.drop_last() =~= Seq::<char>::empty());
        assert(path.drop_first() =~= Seq::<char>::empty());
        assert(escaped_path(path) =~= (if escapable(path[0]) {
            seq!['\\', path[0]]
        } else {
            seq![path[0]]
        }) + escaped_path(path.drop_first()));
    } else {
        lemma_escaped_first(path.drop_last());
        assert(path.drop_last().drop_first() =~= path.drop_first().drop_last());
        assert(escaped_path(path) =~= (if escapable(path[0]) {
            seq!['\\', path[0]]
        } else {
            seq![path[0]]
        }) + escaped_path(path.drop_first()));
    }
}

/// A path that was quoted is read back as it was, with nothing after it. A path
/// with white space other than a space is not: no backslash is put before that.
pub proof fn law_quoted_path_reads_back(path: Seq<char>)
    requires
        forall|i: int| 0 <= i < path.len() && is_white(#[trigger] path[i]) ==> path[i] == ' ',
    ensures
        path_token(escaped_path(path)) == (path, None::<Seq<char>>),
{
    lemma_plain_reads_back(path);
    if path.len() > 0 {
        lemma_escaped_first(path);
    }
}

proof fn lemma_plain_reads_back(path: Seq<char>)
    requires
        forall|i: int| 0 <= i < path.len() && is_white(#[trigger] path[i]) ==> path[i] == ' ',
    ensures
        plain_token(escaped_path(path)) == (path, None::<Seq<char>>),
    decreases path.len(),
{
    if path.len() == 0 {
        assert(escaped_path(path) =~= Seq::<char>::empty());
        assert(path =~= Seq::<char>::empty());
    } else {
        let rest = path.drop_first();
        assert forall|i: int| 0 <= i < rest.len() && is_white(#[trigger] rest[i]) implies rest[i]
            == ' ' by {
            assert(rest[i] == path[i + 1]);
        }
        lemma_plain_reads_back(rest);
        lemma_escaped_first(path);
        let s = escaped_path(path);
        assert(seq![path[0]] + rest =~= path);
        if escapable(path[0]) {
            assert(s.skip(2) =~= escaped_path(rest));
            assert(at_escape(s));
            assert(s[1] == path[0]);
        } else {
            assert(s[0] == path[0]);
            assert(s.skip(1) =~= escaped_path(rest));
            assert(!at_escape(s));
            assert(path[0] != ' ');
            assert(!is_white(s[0]));
        }
    }
}

/// The directory that a path names.
#[derive(Debug, PartialEq, Eq)]
pub struct SendDir {
    /// Whether it stands under the home directory.
    pub under_home: bool,
    pub path: String,
}

/// The number of characters up to and with the last slash.
pub open spec fn dir_len(path: Seq<char>) -> int
    decreases path.len(),
{
    if path.len() == 0 {
        0
    } else if path.last() == '/' {
        path.len() as int
    } else {
        dir_len(path.drop_last())
    }
}

/// The directory of a path as it was typed.
pub open spec fn typed_dir(partial: Seq<char>) -> Seq<char> {
    partial.take(dir_len(partial))
}

/// The name within the directory that a path begins.
pub open spec fn typed_name(partial: Seq<char>) -> Seq<char> {
    partial.skip(dir_len(partial))
}

/// The directory to look in: the one at hand where none was typed, and the home
/// directory in place of a tilde.
pub open spec fn looked_in(dir: Seq<char>) -> (bool, Seq<char>) {
    if dir.len() == 0 {
        (false, "."@)
    } else {
        match without_prefix(dir, "~/"@) {
            Some(rest) => (true, rest),
            None => (false, dir),
        }
    }
}

/// The directory of a path as it was typed, the directory to look in, and the
/// beginning of the name to look for.
pub fn send_path_dir_and_partial(partial: &str) -> (out: (String, SendDir, String))
    ensures
        out.0@ == typed_dir(partial@),
        (out.1.under_home, out.1.path@) == looked_in(typed_dir(partial@)),
        out.2@ == typed_name(partial@),
{
    let x = chars_of(partial);
    let mut n: usize = x.len();
    assert(partial@.take(n as int) =~= partial@);
    while n > 0 && x[n - 1] != '/'
        invariant
            n <= x.len(),
            x@ == partial@,
            dir_len(partial@.take(n as int)) == dir_len(partial@),
        decreases n,
    {
        assert(partial@.take(n as int).drop_last() =~= partial@.take(n - 1));
        n = n - 1;
    }
    assert(dir_len(partial@) == n);
    let len: usize = partial.unicode_len();
    let dir = partial.substring_char(0, n);
    let name = partial.substring_char(n, len);
    assert(dir@ =~= typed_dir(partial@));
    assert(name@ =~= typed_name(partial@));
    let looked = if dir.is_empty() {
        SendDir { under_home: false, path: ".".to_owned() }
    } else {
        match strip_text_prefix(dir, "~/") {
            Some(rest) => SendDir { under_home: true, path: rest.to_owned() },
            None => SendDir { under_home: false, path: dir.to_owned() },
        }
    };
    (dir.to_owned(), looked, name.to_owned())
}

/// The entry of a directory, and whether it is a directory itself.
#[derive(Debug)]
pub struct DirEntry {
    pub name: String,
    pub is_dir: bool,
}

pub struct DirEntryView {
    pub name: Seq<char>,
    pub is_dir: bool,
}

impl View for DirEntry {
    type V = DirEntryView;

    open spec fn view(&self) -> DirEntryView {
        DirEntryView { name: self.name@, is_dir: self.is_dir }
    }
}

/// The entry as it completes a path: a slash marks a directory.
pub open spec fn completed_path(dir: Seq<char>, entry: DirEntryView) -> Seq<char> {
    dir + entry.name + if entry.is_dir {
        "/"@
    } else {
        Seq::empty()
    }
}

/// The entries that complete a path, in the order of the directory.
pub open spec fn completing_entries(
    dir: Seq<char>,
    name: Seq<char>,
    entries: Seq<DirEntryView>,
) -> Seq<Seq<char>>
    decreases entries.len(),
{
    if entries.len() == 0 {
        Seq::empty()
    } else {
        let before = completing_entries(dir, name, entries.drop_last());
        if begins(entries.last().name, name) {
            before.push(completed_path(dir, entries.last()))
        } else {
            before
        }
    }
}

/// The completions of a path, given what its directory holds.
pub open spec fn path_candidates(partial: Seq<char>, entries: Seq<DirEntryView>) -> Seq<Seq<char>> {
    text_sorted(completing_entries(typed_dir(partial), typed_name(partial), entries))
}

pub fn send_path_candidates(partial: &str, entries: &Vec<DirEntry>) -> (out: Vec<String>)
    ensures
        views(out@) == path_candidates(partial@, views(entries@)),
{
    let (dir, _, name) = send_path_dir_and_partial(partial);
    let ghost all = views(entries@);
    let mut found: Vec<String> = Vec::new();
    let mut i: usize = 0;
    assert(views(found@) =~= Seq::<Seq<char>>::empty());
    while i < entries.len()
        invariant
            i <= entries.len(),
            all == views(entries@),
            views(found@) == completing_entries(dir@, name@, all.take(i as int)),
        decreases entries.len() - i,
    {
        let ghost before = views(found@);
        assert(all.take(i + 1).drop_last() =~= all.take(i as int));
        assert(all.take(i + 1).last() == entries@[i as int]@);
        if text_begins(entries[i].name.as_str(), name.as_str()) {
            let path = if entries[i].is_dir {
                cat3(dir.as_str(), entries[i].name.as_str(), "/")
            } else {
                cat2(dir.as_str(), entries[i].name.as_str())
            };
            assert(path@ =~= completed_path(dir@, entries@[i as int]@));
            found.push(path);
            assert(views(found@) =~= before.push(completed_path(dir@, entries@[i as int]@)));
        }
        i = i + 1;
    }
    assert(all.take(i as int) =~= all);
    sort_texts(found)
}

// ---------------------------------------------------------------------------
// Common beginnings
// ---------------------------------------------------------------------------

/// Whether all texts begin as the first does for `k` characters, the case of
/// ASCII letters aside.
pub open spec fn common_for(texts: Seq<Seq<char>>, k: int) -> bool {
    forall|i: int|
        0 <= i < texts.len() ==> begins_ignoring_case(#[trigger] texts[i], texts[0].take(k))
}

/// The most characters, up to a bound, for which all texts begin as the first.
pub open spec fn common_len(texts: Seq<Seq<char>>, bound: int) -> int
    decreases bound,
{
    if bound <= 0 {
        0
    } else if common_for(texts, bound) {
        bound
    } else {
        common_len(texts, bound - 1)
    }
}

/// The longest beginning that all texts share.
pub open spec fn common_prefix(texts: Seq<Seq<char>>) -> Option<Seq<char>> {
    if texts.len() == 0 {
        None
    } else {
        Some(texts[0].take(common_len(texts, texts[0].len() as int)))
    }
}

proof fn lemma_begins_shorter(s: Seq<char>, t: Seq<char>, j: int, k: int)
    requires
        0 <= j <= k <= t.len(),
        begins_ignoring_case(s, t.take(k)),
    ensures
        begins_ignoring_case(s, t.take(j)),
{
    let (a, b) = (s.take(k), t.take(k));
    assert(s.take(j) =~= a.take(j));
    assert(t.take(j) =~= b.take(j));
    assert forall|i: int| 0 <= i < j implies crate::text::ascii_lower(#[trigger] s.take(j)[i])
        == crate::text::ascii_lower(t.take(j)[i]) by {
        assert(crate::text::ascii_lowercase(a)[i] == crate::text::ascii_lowercase(b)[i]);
    }
    assert(crate::text::ascii_lowercase(s.take(j)) =~= crate::text::ascii_lowercase(t.take(j)));
}

proof fn lemma_common_len(texts: Seq<Seq<char>>, k: int, bound: int)
    requires
        texts.len() > 0,
        0 <= k <= bound <= texts[0].len(),
        common_for(texts, k),
        k < bound ==> !common_for(texts, k + 1),
    ensures
        common_len(texts, bound) == k,
    decreases bound,
{
    if bound > k {
        if common_for(texts, bound) {
            assert forall|i: int| 0 <= i < texts.len() implies begins_ignoring_case(
                #[trigger] texts[i],
                texts[0].take(k + 1),
            ) by {
                lemma_begins_shorter(texts[i], texts[0], k + 1, bound);
            }
        }
        lemma_common_len(texts, k, bound - 1);
    }
}

/// The longest beginning that all candidates share, as the first writes it.
pub fn longest_common_prefix(candidates: &Vec<String>) -> (out: Option<String>)
    ensures
        option_view(out) == common_prefix(views(candidates@)),
{
    if candidates.len() == 0 {
        return None;
    }
    let ghost all = views(candidates@);
    let first = candidates[0].as_str();
    let mut k: usize = first.unicode_len();
    let ghost full = k;
    let mut i: usize = 0;
    while i < candidates.len()
        invariant
            i <= candidates.len(),
            all == views(candidates@),
            all.len() > 0,
            all[0] == first@,
            k <= full == first@.len(),
            forall|j: int|
                0 <= j < i ==> begins_ignoring_case((#[trigger] all[j]), first@.take(k as int)),
            k < full ==> exists|j: int|
                0 <= j < all.len() && !begins_ignoring_case(#[trigger] all[j], first@.take(k + 1)),
        decreases candidates.len() - i,
    {
        let candidate = candidates[i].as_str();
        let ghost start = k;
        while !text_begins_ignoring_case(candidate, first.substring_char(0, k))
            invariant
                i < candidates.len(),
                all == views(candidates@),
                all.len() > 0,
                all[0] == first@,
                candidate@ == all[i as int],
                k <= start <= full == first@.len(),
                start < full ==> exists|j: int|
                    0 <= j < all.len() && !begins_ignoring_case(
                        #[trigger] all[j],
                        first@.take(start + 1),
                    ),
                k < start ==> !begins_ignoring_case(candidate@, first@.take(k + 1)),
            decreases k,
        {
            assert(first@.subrange(0, k as int) =~= first@.take(k as int));
            if k == 0 {
                assert(first@.take(0) =~= candidate@.take(0));
                assert(crate::text::ascii_lowercase(candidate@.take(0))
                    =~= crate::text::ascii_lowercase(first@.take(0)));
            }
            k = k - 1;
        }
        assert(first@.subrange(0, k as int) =~= first@.take(k as int));
        proof {
            assert(candidate@ == all[i as int]);
            assert forall|j: int| 0 <= j < i + 1 implies begins_ignoring_case(
                #[trigger] all[j],
                first@.take(k as int),
            ) by {
                if j < i {
                    lemma_begins_shorter(all[j], first@, k as int, start as int);
                }
            }
        }
        i = i + 1;
    }
    proof {
        assert(common_for(all, k as int));
        lemma_common_len(all, k as int, first@.len() as int);
    }
    let prefix = first.substring_char(0, k);
    assert(prefix@ =~= first@.take(k as int));
    Some(prefix.to_owned())
}

/// The longest shared beginning is one, and no longer one is.
pub proof fn law_common_prefix(texts: Seq<Seq<char>>, k: int)
    requires
        texts.len() > 0,
        0 <= k <= texts[0].len(),
    ensures
        common_prefix(texts) is Some,
        common_for(texts, common_prefix(texts)->0.len() as int),
        common_for(texts, k) ==> k <= common_prefix(texts)->0.len(),
{
    lemma_common_len_is(texts, texts[0].len() as int, k);
}

proof fn lemma_common_len_is(texts: Seq<Seq<char>>, bound: int, k: int)
    requires
        texts.len() > 0,
        0 <= bound <= texts[0].len(),
    ensures
        0 <= common_len(texts, bound) <= bound,
        common_for(texts, common_len(texts, bound)),
        0 <= k <= bound && common_for(texts, k) ==> k <= common_len(texts, bound),
    decreases bound,
{
    if bound <= 0 {
        assert forall|i: int| 0 <= i < texts.len() implies begins_ignoring_case(
            #[trigger] texts[i],
            texts[0].take(0),
        ) by {
            assert(crate::text::ascii_lowercase(texts[i].take(0))
                =~= crate::text::ascii_lowercase(texts[0].take(0)));
        }
    } else if !common_for(texts, bound) {
        lemma_common_len_is(texts, bound - 1, k);
    }
}

/// What follows a beginning, the case of ASCII letters aside.
pub open spec fn suffix_after(candidate: Seq<char>, prefix: Seq<char>) -> Option<Seq<char>> {
    if begins_ignoring_case(candidate, prefix) {
        Some(candidate.skip(prefix.len() as int))
    } else {
        None
    }
}

pub fn case_insensitive_suffix<'a>(candidate: &'a str, prefix: &str) -> (out: Option<&'a str>)
    ensures
        option_str_view(out) == suffix_after(candidate@, prefix@),
{
    if text_begins_ignoring_case(candidate, prefix) {
        let n: usize = prefix.unicode_len();
        let len: usize = candidate.unicode_len();
        let suffix = candidate.substring_char(n, len);
        assert(suffix@ =~= candidate@.skip(n as int));
        Some(suffix)
    } else {
        None
    }
}

// ---------------------------------------------------------------------------
// Names of rooms
// ---------------------------------------------------------------------------

pub open spec fn is_sigil(c: char) -> bool {
    c == '#' || c == '!'
}

pub open spec fn without_sigils(s: Seq<char>) -> Seq<char>
    decreases s.len(),
{
    if s.len() > 0 && is_sigil(s[0]) {
        without_sigils(s.skip(1))
    } else {
        s
    }
}

/// The name of a room that was typed without its server.
pub open spec fn incomplete_name(target: Seq<char>) -> Option<Seq<char>> {
    let t = trim(target);
    if t.len() == 0 || t.contains(':') || without_sigils(t).len() == 0 {
        None
    } else {
        Some(without_sigils(t))
    }
}

pub fn incomplete_matrix_room_name(target: &str) -> (out: Option<&str>)
    ensures
        option_str_view(out) == incomplete_name(target@),
{
    let t = trim_text(target);
    let x = chars_of(t);
    let at: usize = find_char_in(x.as_slice(), ':');
    if t.is_empty() || at < x.len() {
        proof {
            if at < x.len() {
                assert(t@[at as int] == ':');
            }
        }
        return None;
    }
    let mut i: usize = 0;
    assert(t@.skip(0) =~= t@);
    while i < x.len() && (x[i] == '#' || x[i] == '!')
        invariant
            i <= x.len(),
            x@ == t@,
            without_sigils(t@) == without_sigils(t@.skip(i as int)),
        decreases x.len() - i,
    {
        assert(t@.skip(i as int).skip(1) =~= t@.skip(i + 1));
        i = i + 1;
    }
    assert(without_sigils(t@) == t@.skip(i as int));
    if i == x.len() {
        None
    } else {
        let n: usize = t.unicode_len();
        let rest = t.substring_char(i, n);
        assert(rest@ =~= t@.skip(i as int));
        Some(rest)
    }
}

/// An alias that was typed without its number sign.
pub open spec fn alias_with_hash(target: Seq<char>) -> Option<Seq<char>> {
    let t = trim(target);
    if t.len() == 0 || is_sigil(t[0]) || !t.contains(':') {
        None
    } else {
        Some("#"@ + t)
    }
}

pub fn room_alias_with_hash(target: &str) -> (out: Option<String>)
    ensures
        option_view(out) == alias_with_hash(target@),
{
    let t = trim_text(target);
    let x = chars_of(t);
    let at: usize = find_char_in(x.as_slice(), ':');
    if x.len() == 0 || x[0] == '#' || x[0] == '!' || at >= x.len() {
        return None;
    }
    assert(t@[at as int] == ':');
    Some(cat2("#", t))
}

/// The part of a room's address before its server.
pub open spec fn local_name(value: Seq<char>) -> Option<Seq<char>> {
    if value.len() > 0 && is_sigil(value[0]) {
        match split_once(value.skip(1), ':') {
            Some((local, _)) => Some(local),
            None => None,
        }
    } else {
        None
    }
}

pub fn matrix_room_local_name(value: &str) -> (out: Option<&str>)
    ensures
        option_str_view(out) == local_name(value@),
{
    assert(value@.len() > 0 ==> value@.subrange(0, 1) =~= seq![value@[0]]);
    assert(seq!['#'][0] == '#' && seq!['!'][0] == '!');
    let rest = match strip_char_prefix(value, '#') {
        Some(rest) => rest,
        None => match strip_char_prefix(value, '!') {
            Some(rest) => rest,
            None => return None,
        },
    };
    match split_text_once(rest, ':') {
        Some((local, _)) => Some(local),
        None => None,
    }
}

} // verus!
