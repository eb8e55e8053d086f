//! When the messages are laid out anew.
//!
//! A layout is kept together with a fingerprint of all that it was made of, and made
//! again once the fingerprint is another. Which message is selected is no part of it:
//! that changes how a line is painted, not where it stands.

use vstd::prelude::*;

use crate::api::dto::{EventDto, EventView};
use crate::api::event::{
    formatted_body_of, image_of, membership_of, reply_target_of, text_of_event,
};
use crate::app::render::{
    badge_of, badge_style_of, body_indent, body_shown, body_widths, context_of, header_of,
    header_row, html_of, image_key, is_root, reaction_style, reaction_texts, reactions_of,
    relation_style, rows_below, rows_of, rows_view, side_rows, text_rows, ImageKey, LayoutInput,
    RelationContext, ReplyPreview, ThreadBadge, WrappedMessage,
};
use crate::app::state::{App, MessageDensity, MessagePane};
use crate::keyed::{keys_once, Key, KeyedMap};
use crate::order::{
    each_once, goes_first, lemma_each_once_holds, lemma_text_less_total,
    lemma_text_less_transitive, sorted_positions, text_comes_before, text_less, SortKey,
};
use crate::text::{option_str, option_str_view, option_view, same_text, views};

verus! {

// ---------------------------------------------------------------------------
// Fingerprints
// ---------------------------------------------------------------------------

/// A part of a fingerprint.
#[derive(Debug)]
pub enum Token {
    Id(u128),
    Number(i64),
    Count(usize),
    Generation(u64),
    Flag(bool),
    Text(String),
    Absent,
}

pub enum TokenView {
    Id(u128),
    Number(i64),
    Count(usize),
    Generation(u64),
    Flag(bool),
    Text(Seq<char>),
    Absent,
}

impl View for Token {
    type V = TokenView;

    open spec fn view(&self) -> TokenView {
        match self {
            Token::Id(n) => TokenView::Id(*n),
            Token::Number(n) => TokenView::Number(*n),
            Token::Count(n) => TokenView::Count(*n),
            Token::Generation(n) => TokenView::Generation(*n),
            Token::Flag(b) => TokenView::Flag(*b),
            Token::Text(t) => TokenView::Text(t@),
            Token::Absent => TokenView::Absent,
        }
    }
}

impl Token {
    fn same_as(&self, other: &Token) -> (r: bool)
        ensures
            r == (self@ == other@),
    {
        match (self, other) {
            (Token::Id(a), Token::Id(b)) => *a == *b,
            (Token::Number(a), Token::Number(b)) => *a == *b,
            (Token::Count(a), Token::Count(b)) => *a == *b,
            (Token::Generation(a), Token::Generation(b)) => *a == *b,
            (Token::Flag(a), Token::Flag(b)) => *a == *b,
            (Token::Text(a), Token::Text(b)) => same_text(a.as_str(), b.as_str()),
            (Token::Absent, Token::Absent) => true,
            _ => false,
        }
    }
}

fn same_tokens(a: &Vec<Token>, b: &Vec<Token>) -> (r: bool)
    ensures
        r == (views(a@) == views(b@)),
{
    assert(views(a@).len() == a@.len() && views(b@).len() == b@.len());
    if a.len() != b.len() {
        return false;
    }
    let mut i: usize = 0;
    while i < a.len()
        invariant
            i <= a.len(),
            a@.len() == b@.len(),
            forall|k: int| 0 <= k < i ==> views(a@)[k] == views(b@)[k],
        decreases a.len() - i,
    {
        assert(views(a@)[i as int] == a@[i as int]@ && views(b@)[i as int] == b@[i as int]@);
        if !a[i].same_as(&b[i]) {
            return false;
        }
        i = i + 1;
    }
    assert(views(a@) =~= views(b@));
    true
}

fn add(out: &mut Vec<Token>, token: Token)
    ensures
        views(final(out)@) == views(old(out)@).push(token@),
{
    let ghost before = views(out@);
    out.push(token);
    assert(views(out@) =~= before.push(token@));
}

pub open spec fn text_token(text: Option<Seq<char>>) -> TokenView {
    match text {
        Some(t) => TokenView::Text(t),
        None => TokenView::Absent,
    }
}

fn text_or_absent(text: Option<&str>) -> (out: Token)
    ensures
        out@ == text_token(option_str_view(text)),
{
    match text {
        Some(t) => Token::Text(t.to_owned()),
        None => Token::Absent,
    }
}

proof fn lemma_text_token(a: Option<Seq<char>>, b: Option<Seq<char>>)
    requires
        text_token(a) == text_token(b),
    ensures
        a == b,
{
}

/// What follows beginnings of one length in equal lists is equal, and so are they.
proof fn lemma_rest(
    start: Seq<TokenView>,
    rest: Seq<TokenView>,
    other: Seq<TokenView>,
    other_rest: Seq<TokenView>,
)
    requires
        start.len() == other.len(),
        start + rest == other + other_rest,
    ensures
        start == other,
        rest == other_rest,
{
    let n = start.len() as int;
    assert((start + rest).take(n) =~= start);
    assert((other + other_rest).take(n) =~= other);
    assert((start + rest).skip(n) =~= rest);
    assert((other + other_rest).skip(n) =~= other_rest);
}

/// What is told apart by its tokens.
pub trait Fingerprinted: Sized {
    spec fn tokens(&self) -> Seq<TokenView>;

    /// Whether two values hold the same.
    spec fn alike(&self, other: &Self) -> bool;

    /// Values that begin equal lists of tokens hold the same, and equal lists follow.
    proof fn told(&self, other: &Self, rest: Seq<TokenView>, other_rest: Seq<TokenView>)
        requires
            self.tokens() + rest == other.tokens() + other_rest,
        ensures
            self.alike(other),
            rest == other_rest,
    ;

    fn add_tokens(&self, out: &mut Vec<Token>)
        ensures
            views(final(out)@) == views(old(out)@) + self.tokens(),
    ;
}

impl Fingerprinted for String {
    open spec fn tokens(&self) -> Seq<TokenView> {
        seq![TokenView::Text(self@)]
    }

    open spec fn alike(&self, other: &String) -> bool {
        self@ == other@
    }

    proof fn told(&self, other: &String, rest: Seq<TokenView>, other_rest: Seq<TokenView>) {
        let (x, y) = (self.tokens() + rest, other.tokens() + other_rest);
        assert(x == y);
        assert(x[0] == self.tokens()[0] && y[0] == other.tokens()[0]);
        lemma_rest(self.tokens(), rest, other.tokens(), other_rest);
    }

    fn add_tokens(&self, out: &mut Vec<Token>) {
        let ghost before = views(out@);
        self::add(out, Token::Text(self.clone()));
        assert(views(out@) =~= before + self.tokens());
    }
}

impl Fingerprinted for usize {
    open spec fn tokens(&self) -> Seq<TokenView> {
        seq![TokenView::Count(*self)]
    }

    open spec fn alike(&self, other: &usize) -> bool {
        *self == *other
    }

    proof fn told(&self, other: &usize, rest: Seq<TokenView>, other_rest: Seq<TokenView>) {
        let (x, y) = (self.tokens() + rest, other.tokens() + other_rest);
        assert(x == y);
        assert(x[0] == self.tokens()[0] && y[0] == other.tokens()[0]);
        lemma_rest(self.tokens(), rest, other.tokens(), other_rest);
    }

    fn add_tokens(&self, out: &mut Vec<Token>) {
        let ghost before = views(out@);
        self::add(out, Token::Count(*self));
        assert(views(out@) =~= before + self.tokens());
    }
}

/// The tokens of badges.
pub open spec fn badge_tokens(pairs: Seq<(String, usize)>) -> Seq<TokenView>
    decreases pairs.len(),
{
    if pairs.len() == 0 {
        Seq::empty()
    } else {
        badge_tokens(pairs.drop_last()) + seq![
            TokenView::Text(pairs.last().0@),
            TokenView::Count(pairs.last().1),
        ]
    }
}

/// Badges by their texts and counts.
pub open spec fn badges(pairs: Seq<(String, usize)>) -> Seq<(Seq<char>, usize)> {
    Seq::new(pairs.len(), |i: int| (pairs[i].0@, pairs[i].1))
}

proof fn lemma_badge_tokens(pairs: Seq<(String, usize)>)
    ensures
        badge_tokens(pairs).len() == 2 * pairs.len(),
    decreases pairs.len(),
{
    if pairs.len() > 0 {
        lemma_badge_tokens(pairs.drop_last());
    }
}

proof fn lemma_same_badges(a: Seq<(String, usize)>, b: Seq<(String, usize)>)
    requires
        a.len() == b.len(),
        badge_tokens(a) == badge_tokens(b),
    ensures
        badges(a) == badges(b),
    decreases a.len(),
{
    if a.len() > 0 {
        let (x, y) = (a.drop_last(), b.drop_last());
        let n = badge_tokens(x).len() as int;
        lemma_badge_tokens(x);
        lemma_badge_tokens(y);
        assert(badge_tokens(a).take(n) =~= badge_tokens(x));
        assert(badge_tokens(b).take(n) =~= badge_tokens(y));
        assert(badge_tokens(a)[n] == TokenView::Text(a.last().0@));
        assert(badge_tokens(b)[n] == TokenView::Text(b.last().0@));
        assert(badge_tokens(a)[n + 1] == TokenView::Count(a.last().1));
        assert(badge_tokens(b)[n + 1] == TokenView::Count(b.last().1));
        lemma_same_badges(x, y);
        assert(badges(a) =~= badges(x).push((a.last().0@, a.last().1)));
        assert(badges(b) =~= badges(y).push((b.last().0@, b.last().1)));
    } else {
        assert(badges(a) =~= badges(b));
    }
}

impl Fingerprinted for Vec<(String, usize)> {
    open spec fn tokens(&self) -> Seq<TokenView> {
        seq![TokenView::Count(self@.len() as usize)] + badge_tokens(self@)
    }

    open spec fn alike(&self, other: &Vec<(String, usize)>) -> bool {
        badges(self@) == badges(other@)
    }

    proof fn told(&self, other: &Vec<(String, usize)>, rest: Seq<TokenView>, other_rest: Seq<TokenView>) {
        let (x, y) = (self.tokens() + rest, other.tokens() + other_rest);
        assert(x == y);
        assert(self@.len() == self.len() && other@.len() == other.len());
        assert(x[0] == self.tokens()[0] && y[0] == other.tokens()[0]);
        assert(self@.len() == other@.len());
        lemma_badge_tokens(self@);
        lemma_badge_tokens(other@);
        lemma_rest(self.tokens(), rest, other.tokens(), other_rest);
        assert(self.tokens().skip(1) =~= badge_tokens(self@));
        assert(other.tokens().skip(1) =~= badge_tokens(other@));
        lemma_same_badges(self@, other@);
    }

    fn add_tokens(&self, out: &mut Vec<Token>) {
        let ghost before = views(out@);
        self::add(out, Token::Count(self.len()));
        let ghost start = views(out@);
        let mut i: usize = 0;
        assert(self@.take(0) =~= Seq::<(String, usize)>::empty());
        assert(start + badge_tokens(self@.take(0)) =~= start);
        while i < self.len()
            invariant
                i <= self.len(),
                views(out@) == start + badge_tokens(self@.take(i as int)),
            decreases self.len() - i,
        {
            let ghost so_far = views(out@);
            assert(self@.take(i + 1).drop_last() =~= self@.take(i as int));
            self::add(out, Token::Text(self[i].0.clone()));
            self::add(out, Token::Count(self[i].1));
            assert(views(out@) =~= start + badge_tokens(self@.take(i + 1)));
            i = i + 1;
        }
        assert(self@.take(i as int) =~= self@);
        assert(views(out@) =~= before + self.tokens());
    }
}

impl Fingerprinted for ReplyPreview {
    open spec fn tokens(&self) -> Seq<TokenView> {
        seq![TokenView::Text(self.sender@), TokenView::Text(self.snippet@)]
    }

    open spec fn alike(&self, other: &ReplyPreview) -> bool {
        self@ == other@
    }

    proof fn told(&self, other: &ReplyPreview, rest: Seq<TokenView>, other_rest: Seq<TokenView>) {
        let (x, y) = (self.tokens() + rest, other.tokens() + other_rest);
        assert(x == y);
        assert(x[0] == self.tokens()[0] && y[0] == other.tokens()[0]);
        assert(x[1] == self.tokens()[1] && y[1] == other.tokens()[1]);
        lemma_rest(self.tokens(), rest, other.tokens(), other_rest);
    }

    fn add_tokens(&self, out: &mut Vec<Token>) {
        let ghost before = views(out@);
        self::add(out, Token::Text(self.sender.clone()));
        self::add(out, Token::Text(self.snippet.clone()));
        assert(views(out@) =~= before + self.tokens());
    }
}

impl Fingerprinted for Option<ReplyPreview> {
    open spec fn tokens(&self) -> Seq<TokenView> {
        match self {
            Some(p) => seq![TokenView::Flag(true)] + p.tokens(),
            None => seq![TokenView::Absent],
        }
    }

    open spec fn alike(&self, other: &Option<ReplyPreview>) -> bool {
        match (self, other) {
            (Some(p), Some(q)) => p@ == q@,
            (None, None) => true,
            _ => false,
        }
    }

    proof fn told(&self, other: &Option<ReplyPreview>, rest: Seq<TokenView>, other_rest: Seq<TokenView>) {
        let (x, y) = (self.tokens() + rest, other.tokens() + other_rest);
        assert(x == y);
        assert(x[0] == self.tokens()[0] && y[0] == other.tokens()[0]);
        match (self, other) {
            (Some(p), Some(q)) => {
                let flag = seq![TokenView::Flag(true)];
                assert(x =~= flag + (p.tokens() + rest));
                assert(y =~= flag + (q.tokens() + other_rest));
                lemma_rest(flag, p.tokens() + rest, flag, q.tokens() + other_rest);
                p.told(q, rest, other_rest);
            },
            (None, None) => {
                lemma_rest(self.tokens(), rest, other.tokens(), other_rest);
            },
            _ => {},
        }
    }

    fn add_tokens(&self, out: &mut Vec<Token>) {
        let ghost before = views(out@);
        match self {
            Some(p) => {
                self::add(out, Token::Flag(true));
                p.add_tokens(out);
            },
            None => {
                self::add(out, Token::Absent);
            },
        }
        assert(views(out@) =~= before + self.tokens());
    }
}

impl Fingerprinted for ThreadBadge {
    open spec fn tokens(&self) -> Seq<TokenView> {
        seq![
            TokenView::Number(self.count),
            TokenView::Count(self.unread_count),
            text_token(option_view(self.latest_sender)),
            text_token(option_view(self.latest_snippet)),
        ]
    }

    open spec fn alike(&self, other: &ThreadBadge) -> bool {
        self@ == other@
    }

    proof fn told(&self, other: &ThreadBadge, rest: Seq<TokenView>, other_rest: Seq<TokenView>) {
        let (x, y) = (self.tokens() + rest, other.tokens() + other_rest);
        assert(x == y);
        assert(x[0] == self.tokens()[0] && y[0] == other.tokens()[0]);
        assert(x[1] == self.tokens()[1] && y[1] == other.tokens()[1]);
        assert(x[2] == self.tokens()[2] && y[2] == other.tokens()[2]);
        assert(x[3] == self.tokens()[3] && y[3] == other.tokens()[3]);
        lemma_text_token(option_view(self.latest_sender), option_view(other.latest_sender));
        lemma_text_token(option_view(self.latest_snippet), option_view(other.latest_snippet));
        lemma_rest(self.tokens(), rest, other.tokens(), other_rest);
    }

    fn add_tokens(&self, out: &mut Vec<Token>) {
        let ghost before = views(out@);
        self::add(out, Token::Number(self.count));
        self::add(out, Token::Count(self.unread_count));
        self::add(out, text_or_absent(option_str(&self.latest_sender)));
        self::add(out, text_or_absent(option_str(&self.latest_snippet)));
        assert(views(out@) =~= before + self.tokens());
    }
}

// ---------------------------------------------------------------------------
// Maps in the order of their keys
// ---------------------------------------------------------------------------

/// A key that stands before or behind every other.
pub trait OrderedKey: Key {
    spec fn less(a: Self::V, b: Self::V) -> bool;

    spec fn key_tokens(v: Self::V) -> Seq<TokenView>;

    /// Keys that begin equal lists of tokens are equal, and equal lists follow.
    proof fn key_told(a: Self::V, b: Self::V, rest: Seq<TokenView>, other_rest: Seq<TokenView>)
        requires
            Self::key_tokens(a) + rest == Self::key_tokens(b) + other_rest,
        ensures
            a == b,
            rest == other_rest,
    ;

    fn is_less(&self, other: &Self) -> (r: bool)
        ensures
            r == Self::less(self@, other@),
    ;

    fn add_key_tokens(&self, out: &mut Vec<Token>)
        ensures
            views(final(out)@) == views(old(out)@) + Self::key_tokens(self@),
    ;

    proof fn total(a: Self::V, b: Self::V)
        ensures
            Self::less(a, b) || Self::less(b, a) || a == b,
            !(Self::less(a, b) && Self::less(b, a)),
    ;

    proof fn transitive(a: Self::V, b: Self::V, c: Self::V)
        requires
            Self::less(a, b),
            Self::less(b, c),
        ensures
            Self::less(a, c),
    ;
}

impl OrderedKey for String {
    open spec fn less(a: Seq<char>, b: Seq<char>) -> bool {
        text_less(a, b)
    }

    open spec fn key_tokens(v: Seq<char>) -> Seq<TokenView> {
        seq![TokenView::Text(v)]
    }

    proof fn key_told(
        a: Seq<char>,
        b: Seq<char>,
        rest: Seq<TokenView>,
        other_rest: Seq<TokenView>,
    ) {
        let (p, q) = (Self::key_tokens(a), Self::key_tokens(b));
        lemma_rest(p, rest, q, other_rest);
        assert(p[0] == q[0]);
    }

    fn is_less(&self, other: &String) -> (r: bool) {
        text_comes_before(self.as_str(), other.as_str())
    }

    fn add_key_tokens(&self, out: &mut Vec<Token>) {
        let ghost before = views(out@);
        self::add(out, Token::Text(self.clone()));
        assert(views(out@) =~= before + Self::key_tokens(self@));
    }

    proof fn total(a: Seq<char>, b: Seq<char>) {
        lemma_text_less_total(a, b);
    }

    proof fn transitive(a: Seq<char>, b: Seq<char>, c: Seq<char>) {
        lemma_text_less_transitive(a, b, c);
    }
}

impl OrderedKey for u128 {
    open spec fn less(a: u128, b: u128) -> bool {
        a < b
    }

    open spec fn key_tokens(v: u128) -> Seq<TokenView> {
        seq![TokenView::Id(v)]
    }

    proof fn key_told(
        a: u128,
        b: u128,
        rest: Seq<TokenView>,
        other_rest: Seq<TokenView>,
    ) {
        let (p, q) = (Self::key_tokens(a), Self::key_tokens(b));
        lemma_rest(p, rest, q, other_rest);
        assert(p[0] == q[0]);
    }

    fn is_less(&self, other: &u128) -> (r: bool) {
        *self < *other
    }

    fn add_key_tokens(&self, out: &mut Vec<Token>) {
        let ghost before = views(out@);
        self::add(out, Token::Id(*self));
        assert(views(out@) =~= before + Self::key_tokens(self@));
    }

    proof fn total(a: u128, b: u128) {
    }

    proof fn transitive(a: u128, b: u128, c: u128) {
    }
}

impl OrderedKey for ImageKey {
    open spec fn less(a: (u128, Seq<char>), b: (u128, Seq<char>)) -> bool {
        a.0 < b.0 || (a.0 == b.0 && text_less(a.1, b.1))
    }

    open spec fn key_tokens(v: (u128, Seq<char>)) -> Seq<TokenView> {
        seq![TokenView::Id(v.0), TokenView::Text(v.1)]
    }

    proof fn key_told(
        a: (u128, Seq<char>),
        b: (u128, Seq<char>),
        rest: Seq<TokenView>,
        other_rest: Seq<TokenView>,
    ) {
        let (p, q) = (Self::key_tokens(a), Self::key_tokens(b));
        lemma_rest(p, rest, q, other_rest);
        assert(p[0] == q[0]);
        assert(p[1] == q[1]);
    }

    fn is_less(&self, other: &ImageKey) -> (r: bool) {
        self.account_id < other.account_id || (self.account_id == other.account_id
            && text_comes_before(self.url.as_str(), other.url.as_str()))
    }

    fn add_key_tokens(&self, out: &mut Vec<Token>) {
        let ghost before = views(out@);
        self::add(out, Token::Id(self.account_id));
        self::add(out, Token::Text(self.url.clone()));
        assert(views(out@) =~= before + Self::key_tokens(self@));
    }

    proof fn total(a: (u128, Seq<char>), b: (u128, Seq<char>)) {
        lemma_text_less_total(a.1, b.1);
    }

    proof fn transitive(a: (u128, Seq<char>), b: (u128, Seq<char>), c: (u128, Seq<char>)) {
        if a.0 == b.0 && b.0 == c.0 {
            lemma_text_less_transitive(a.1, b.1, c.1);
        }
    }
}

/// Whether keys are those of a set, each once, in their order.
pub open spec fn sorted_keys<K: OrderedKey>(keys: Seq<K::V>, set: Set<K::V>) -> bool {
    &&& forall|i: int, j: int|
        #![trigger keys[i], keys[j]]
        0 <= i < j < keys.len() ==> K::less(keys[i], keys[j])
    &&& forall|k: K::V| set.contains(k) == #[trigger] keys.contains(k)
}

/// The tokens of a map whose keys are listed.
pub open spec fn listed_tokens<K: OrderedKey, V: Fingerprinted>(keys: Seq<K::V>, map: Map<K::V, V>) -> Seq<
    TokenView,
>
    decreases keys.len(),
{
    if keys.len() == 0 {
        Seq::empty()
    } else {
        listed_tokens::<K, V>(keys.drop_last(), map) + K::key_tokens(keys.last())
            + map[keys.last()].tokens()
    }
}

/// The tokens of a map: how many entries it has, and each entry in the order of the
/// keys.
pub open spec fn map_tokens<K: OrderedKey, V: Fingerprinted>(map: Map<K::V, V>) -> Seq<TokenView> {
    let keys = choose|keys: Seq<K::V>| sorted_keys::<K>(keys, map.dom());
    seq![TokenView::Count(map.dom().len() as usize)] + listed_tokens::<K, V>(keys, map)
}

proof fn lemma_sorted_keys_unique<K: OrderedKey>(a: Seq<K::V>, b: Seq<K::V>, set: Set<K::V>)
    requires
        sorted_keys::<K>(a, set),
        sorted_keys::<K>(b, set),
    ensures
        a == b,
    decreases a.len(),
{
    if a.len() == 0 {
        if b.len() > 0 {
            assert(b.contains(b[0]));
            assert(a.contains(b[0]));
        }
        assert(a =~= b);
    } else {
        let x = a.last();
        assert(a[a.len() - 1] == x);
        assert(a.contains(x));
        assert(b.contains(x));
        let y = b.last();
        assert(b[b.len() - 1] == y);
        assert(b.contains(y));
        assert(a.contains(y));
        let i = choose|i: int| 0 <= i < b.len() && b[i] == x;
        let j = choose|j: int| 0 <= j < a.len() && a[j] == y;
        K::total(x, y);
        if i < b.len() - 1 {
            assert(K::less(b[i], b[b.len() - 1]));
        }
        if j < a.len() - 1 {
            assert(K::less(a[j], a[a.len() - 1]));
        }
        assert(x == y);
        lemma_sorted_rest::<K>(a, set);
        lemma_sorted_rest::<K>(b, set);
        lemma_sorted_keys_unique::<K>(a.drop_last(), b.drop_last(), set.remove(x));
        assert(a.drop_last().push(x) =~= a);
        assert(b.drop_last().push(x) =~= b);
    }
}

proof fn lemma_sorted_rest<K: OrderedKey>(a: Seq<K::V>, set: Set<K::V>)
    requires
        a.len() > 0,
        sorted_keys::<K>(a, set),
    ensures
        sorted_keys::<K>(a.drop_last(), set.remove(a.last())),
{
    let rest = a.drop_last();
    let x = a.last();
    assert forall|i: int, j: int|
        #![trigger rest[i], rest[j]]
        0 <= i < j < rest.len() implies K::less(rest[i], rest[j]) by {
        assert(a[i] == rest[i] && a[j] == rest[j]);
    }
    assert forall|k: K::V| set.remove(x).contains(k) == #[trigger] rest.contains(k) by {
        assert(set.contains(k) == a.contains(k));
        if rest.contains(k) {
            let i = choose|i: int| 0 <= i < rest.len() && rest[i] == k;
            assert(a[i] == k);
            assert(K::less(a[i], a[a.len() - 1]));
            K::total(k, x);
            if k == x {
                assert(K::less(x, x));
            }
        }
        if a.contains(k) && k != x {
            let i = choose|i: int| 0 <= i < a.len() && a[i] == k;
            assert(rest[i] == k);
        }
    }
}

/// A key as it is sorted.
pub struct KeySlot<K: OrderedKey> {
    pub key: K,
}

impl<K: OrderedKey> SortKey for KeySlot<K> {
    open spec fn before(&self, other: &KeySlot<K>) -> bool {
        K::less(self.key@, other.key@)
    }

    fn comes_before(&self, other: &KeySlot<K>) -> (r: bool) {
        self.key.is_less(&other.key)
    }

    proof fn asymmetric(&self, other: &KeySlot<K>) {
        K::total(self.key@, other.key@);
    }

    proof fn transitive(&self, other: &KeySlot<K>, third: &KeySlot<K>) {
        let (a, b, c) = (self.key@, other.key@, third.key@);
        K::total(a, b);
        K::total(b, c);
        K::total(a, c);
        if K::less(a, b) && K::less(b, c) {
            K::transitive(a, b, c);
        }
        if K::less(b, a) && K::less(c, b) {
            K::transitive(c, b, a);
        }
    }
}

/// Adds the tokens of a map in the order of its keys. They are those of what the map
/// holds, in whatever order it came.
pub fn hash_sorted_map<K: OrderedKey, V: Fingerprinted>(map: &KeyedMap<K, V>, state: &mut Vec<Token>)
    ensures
        views(final(state)@) == views(old(state)@) + map_tokens::<K, V>(map@),
{
    let n: usize = map.count();
    let ghost listed = map.listed();
    let ghost before = views(state@);
    let mut slots: Vec<KeySlot<K>> = Vec::new();
    let mut i: usize = 0;
    while i < n
        invariant
            i <= n,
            n == listed.len(),
            listed == map.listed(),
            slots.len() == i,
            forall|k: int| 0 <= k < i ==> (#[trigger] slots@[k]).key@ == listed[k].0@,
        decreases n - i,
    {
        let (key, _) = map.entry(i);
        slots.push(KeySlot { key: key.duplicate() });
        i = i + 1;
    }
    let order = sorted_positions(&slots);
    let ghost keys = Seq::new(n as nat, |i: int| listed[order@[i] as int].0@);
    proof {
        map.lemma_listed();
        assert(sorted_keys::<K>(keys, map@.dom())) by {
            assert forall|i: int, j: int|
                #![trigger keys[i], keys[j]]
                0 <= i < j < keys.len() implies K::less(keys[i], keys[j]) by {
                let (a, b) = (order@[i] as int, order@[j] as int);
                assert(goes_first(slots@, a, b));
                K::total(listed[a].0@, listed[b].0@);
                assert(listed[a].0@ != listed[b].0@);
            }
            assert forall|k: K::V| map@.dom().contains(k) == #[trigger] keys.contains(k) by {
                map.lemma_listed_key(k);
                if map@.dom().contains(k) {
                    let p = choose|p: int| 0 <= p < listed.len() && (#[trigger] listed[p]).0@ == k;
                    lemma_each_once_holds(order@, n as int, p);
                    let q = choose|q: int| 0 <= q < n && #[trigger] order@[q] == p;
                    assert(keys[q] == k);
                }
                if keys.contains(k) {
                    let q = choose|q: int| 0 <= q < keys.len() && keys[q] == k;
                    assert(listed[order@[q] as int].0@ == k);
                }
            }
        }
        let chosen = choose|keys: Seq<K::V>| sorted_keys::<K>(keys, map@.dom());
        lemma_sorted_keys_unique::<K>(keys, chosen, map@.dom());
    }
    self::add(state, Token::Count(n));
    let ghost start = views(state@);
    let mut j: usize = 0;
    assert(keys.take(0) =~= Seq::<K::V>::empty());
    assert(start + listed_tokens::<K, V>(keys.take(0), map@) =~= start);
    while j < n
        invariant
            j <= n,
            n == listed.len(),
            listed == map.listed(),
            order@.len() == n,
            each_once(order@, n as int),
            keys == Seq::new(n as nat, |i: int| listed[order@[i] as int].0@),
            views(state@) == start + listed_tokens::<K, V>(keys.take(j as int), map@),
        decreases n - j,
    {
        let ghost so_far = views(state@);
        assert(keys.take(j + 1).drop_last() =~= keys.take(j as int));
        assert(keys.take(j + 1).last() == keys[j as int]);
        let at: usize = order[j];
        let (key, value) = map.entry(at);
        assert(key@ == keys[j as int]);
        key.add_key_tokens(state);
        value.add_tokens(state);
        assert(views(state@) =~= start + listed_tokens::<K, V>(keys.take(j + 1), map@));
        j = j + 1;
    }
    assert(keys.take(j as int) =~= keys);
    assert(views(state@) =~= before + map_tokens::<K, V>(map@));
}

proof fn lemma_listed_tokens_same<K: OrderedKey, V: Fingerprinted>(
    keys: Seq<K::V>,
    a: Map<K::V, V>,
    b: Map<K::V, V>,
)
    requires
        forall|i: int| 0 <= i < keys.len() ==> a[#[trigger] keys[i]].tokens() == b[keys[i]].tokens(),
    ensures
        listed_tokens::<K, V>(keys, a) == listed_tokens::<K, V>(keys, b),
    decreases keys.len(),
{
    if keys.len() > 0 {
        let rest = keys.drop_last();
        assert forall|i: int| 0 <= i < rest.len() implies a[#[trigger] rest[i]].tokens()
            == b[rest[i]].tokens() by {
            assert(rest[i] == keys[i]);
        }
        lemma_listed_tokens_same::<K, V>(rest, a, b);
        assert(keys[keys.len() - 1] == keys.last());
    }
}

/// A list of keys in their order with one more put in its place.
spec fn with_key<K: OrderedKey>(keys: Seq<K::V>, key: K::V) -> Seq<K::V>
    decreases keys.len(),
{
    if keys.len() == 0 {
        seq![key]
    } else if K::less(keys.last(), key) {
        keys.push(key)
    } else {
        with_key::<K>(keys.drop_last(), key).push(keys.last())
    }
}

proof fn lemma_with_key<K: OrderedKey>(keys: Seq<K::V>, key: K::V, set: Set<K::V>)
    requires
        sorted_keys::<K>(keys, set),
        !set.contains(key),
    ensures
        sorted_keys::<K>(with_key::<K>(keys, key), set.insert(key)),
    decreases keys.len(),
{
    let out = with_key::<K>(keys, key);
    if keys.len() == 0 {
        assert(out[0] == key);
        assert forall|k: K::V| set.insert(key).contains(k) == #[trigger] out.contains(k) by {
            assert(set.contains(k) == keys.contains(k));
        }
    } else {
        let last = keys.last();
        assert(keys[keys.len() - 1] == last);
        assert(keys.contains(last));
        K::total(last, key);
        if K::less(last, key) {
            assert forall|i: int, j: int|
                #![trigger out[i], out[j]]
                0 <= i < j < out.len() implies K::less(out[i], out[j]) by {
                if j == keys.len() {
                    if i < keys.len() - 1 {
                        assert(K::less(keys[i], keys[keys.len() - 1]));
                        K::transitive(keys[i], last, key);
                    }
                } else {
                    assert(K::less(keys[i], keys[j]));
                }
            }
            assert forall|k: K::V| set.insert(key).contains(k) == #[trigger] out.contains(k) by {
                assert(set.contains(k) == keys.contains(k));
                if keys.contains(k) {
                    let i = choose|i: int| 0 <= i < keys.len() && keys[i] == k;
                    assert(out[i] == k);
                }
                assert(out[keys.len() as int] == key);
                if out.contains(k) && k != key {
                    let i = choose|i: int| 0 <= i < out.len() && out[i] == k;
                    assert(keys[i] == k);
                }
            }
        } else {
            let rest = keys.drop_last();
            let less = set.remove(last);
            lemma_sorted_rest::<K>(keys, set);
            lemma_with_key::<K>(rest, key, less);
            let inner = with_key::<K>(rest, key);
            assert forall|i: int| 0 <= i < inner.len() implies K::less(#[trigger] inner[i], last) by {
                let x = inner[i];
                assert(inner.contains(x));
                assert(less.insert(key).contains(x));
                if x != key {
                    assert(rest.contains(x));
                    let p = choose|p: int| 0 <= p < rest.len() && rest[p] == x;
                    assert(keys[p] == x);
                    assert(K::less(keys[p], keys[keys.len() - 1]));
                }
            }
            assert forall|i: int, j: int|
                #![trigger out[i], out[j]]
                0 <= i < j < out.len() implies K::less(out[i], out[j]) by {
                assert(out[i] == inner[i]);
                if j < inner.len() {
                    assert(out[j] == inner[j]);
                }
            }
            assert forall|k: K::V| set.insert(key).contains(k) == #[trigger] out.contains(k) by {
                assert(less.insert(key).contains(k) == inner.contains(k));
                assert(out[inner.len() as int] == last);
                if inner.contains(k) {
                    let i = choose|i: int| 0 <= i < inner.len() && inner[i] == k;
                    assert(out[i] == k);
                }
                if out.contains(k) && k != last {
                    let i = choose|i: int| 0 <= i < out.len() && out[i] == k;
                    assert(inner[i] == k);
                }
            }
        }
    }
}

proof fn lemma_sorted_keys_exist<K: OrderedKey>(set: Set<K::V>)
    requires
        set.finite(),
    ensures
        exists|keys: Seq<K::V>| sorted_keys::<K>(keys, set),
    decreases set.len(),
{
    if set.len() == 0 {
        let keys = Seq::<K::V>::empty();
        assert forall|k: K::V| set.contains(k) == #[trigger] keys.contains(k) by {
            assert(set =~= Set::empty());
        }
        assert(sorted_keys::<K>(keys, set));
    } else {
        let x = set.choose();
        let rest = set.remove(x);
        lemma_sorted_keys_exist::<K>(rest);
        let keys = choose|keys: Seq<K::V>| sorted_keys::<K>(keys, rest);
        lemma_with_key::<K>(keys, x, rest);
        assert(rest.insert(x) =~= set);
        assert(sorted_keys::<K>(with_key::<K>(keys, x), set));
    }
}

proof fn lemma_sorted_keys_len<K: OrderedKey>(keys: Seq<K::V>, set: Set<K::V>)
    requires
        sorted_keys::<K>(keys, set),
    ensures
        keys.len() == set.len(),
{
    assert forall|i: int, j: int| 0 <= i < keys.len() && 0 <= j < keys.len() && i != j implies keys[i]
        != keys[j] by {
        if i < j {
            assert(K::less(keys[i], keys[j]));
        } else {
            assert(K::less(keys[j], keys[i]));
        }
        K::total(keys[i], keys[j]);
    }
    assert(keys.no_duplicates());
    keys.unique_seq_to_set();
    assert(keys.to_set() =~= set) by {
        assert forall|k: K::V| keys.to_set().contains(k) == set.contains(k) by {
            assert(set.contains(k) == keys.contains(k));
        }
    }
}

/// Whether two maps hold the same.
pub open spec fn maps_alike<K: OrderedKey, V: Fingerprinted>(a: Map<K::V, V>, b: Map<K::V, V>) -> bool {
    &&& a.dom() == b.dom()
    &&& forall|k: K::V| #[trigger] a.dom().contains(k) ==> a[k].alike(&b[k])
}

proof fn lemma_listed_told<K: OrderedKey, V: Fingerprinted>(
    keys: Seq<K::V>,
    a: Map<K::V, V>,
    rest: Seq<TokenView>,
    others: Seq<K::V>,
    b: Map<K::V, V>,
    other_rest: Seq<TokenView>,
)
    requires
        keys.len() == others.len(),
        listed_tokens::<K, V>(keys, a) + rest == listed_tokens::<K, V>(others, b) + other_rest,
    ensures
        keys == others,
        forall|i: int| 0 <= i < keys.len() ==> a[#[trigger] keys[i]].alike(&b[keys[i]]),
        rest == other_rest,
    decreases keys.len(),
{
    if keys.len() == 0 {
        assert(listed_tokens::<K, V>(keys, a) + rest =~= rest);
        assert(listed_tokens::<K, V>(others, b) + other_rest =~= other_rest);
        assert(keys =~= others);
    } else {
        let (x, y) = (keys.last(), others.last());
        let (p, q) = (a[x].tokens() + rest, b[y].tokens() + other_rest);
        assert(listed_tokens::<K, V>(keys, a) + rest =~= listed_tokens::<K, V>(keys.drop_last(), a)
            + (K::key_tokens(x) + p));
        assert(listed_tokens::<K, V>(others, b) + other_rest =~= listed_tokens::<K, V>(
            others.drop_last(),
            b,
        ) + (K::key_tokens(y) + q));
        lemma_listed_told::<K, V>(
            keys.drop_last(),
            a,
            K::key_tokens(x) + p,
            others.drop_last(),
            b,
            K::key_tokens(y) + q,
        );
        K::key_told(x, y, p, q);
        a[x].told(&b[y], rest, other_rest);
        assert(keys =~= keys.drop_last().push(x));
        assert(others =~= others.drop_last().push(y));
        assert forall|i: int| 0 <= i < keys.len() implies a[#[trigger] keys[i]].alike(&b[keys[i]]) by {
            if i < keys.len() - 1 {
                assert(keys.drop_last()[i] == keys[i]);
            }
        }
    }
}

/// Maps that begin equal lists of tokens hold the same, and equal lists follow.
pub proof fn law_tokens_tell_maps_apart<K: OrderedKey, V: Fingerprinted>(
    a: Map<K::V, V>,
    rest: Seq<TokenView>,
    b: Map<K::V, V>,
    other_rest: Seq<TokenView>,
)
    requires
        a.dom().finite() && a.dom().len() <= usize::MAX,
        b.dom().finite() && b.dom().len() <= usize::MAX,
        map_tokens::<K, V>(a) + rest == map_tokens::<K, V>(b) + other_rest,
    ensures
        maps_alike::<K, V>(a, b),
        rest == other_rest,
{
    lemma_sorted_keys_exist::<K>(a.dom());
    lemma_sorted_keys_exist::<K>(b.dom());
    let keys = choose|keys: Seq<K::V>| sorted_keys::<K>(keys, a.dom());
    let others = choose|keys: Seq<K::V>| sorted_keys::<K>(keys, b.dom());
    lemma_sorted_keys_len::<K>(keys, a.dom());
    lemma_sorted_keys_len::<K>(others, b.dom());
    let (n, m) = (
        seq![TokenView::Count(a.dom().len() as usize)],
        seq![TokenView::Count(b.dom().len() as usize)],
    );
    let (p, q) = (
        listed_tokens::<K, V>(keys, a) + rest,
        listed_tokens::<K, V>(others, b) + other_rest,
    );
    assert(map_tokens::<K, V>(a) + rest =~= n + p);
    assert(map_tokens::<K, V>(b) + other_rest =~= m + q);
    lemma_rest(n, p, m, q);
    assert(n[0] == m[0]);
    lemma_listed_told::<K, V>(keys, a, rest, others, b, other_rest);
    assert forall|k: K::V| a.dom().contains(k) == b.dom().contains(k) by {
        assert(a.dom().contains(k) == keys.contains(k));
        assert(b.dom().contains(k) == others.contains(k));
    }
    assert(a.dom() =~= b.dom());
    assert forall|k: K::V| #[trigger] a.dom().contains(k) implies a[k].alike(&b[k]) by {
        assert(keys.contains(k));
        let i = choose|i: int| 0 <= i < keys.len() && keys[i] == k;
        assert(a[keys[i]].alike(&b[keys[i]]));
    }
}

/// Two maps that hold the same have the same tokens.
pub proof fn law_tokens_tell_content<K: OrderedKey, V: Fingerprinted>(
    a: Map<K::V, V>,
    b: Map<K::V, V>,
)
    requires
        a.dom().finite(),
        a.dom() == b.dom(),
        forall|k: K::V| #[trigger] a.dom().contains(k) ==> a[k].tokens() == b[k].tokens(),
    ensures
        map_tokens::<K, V>(a) == map_tokens::<K, V>(b),
{
    lemma_sorted_keys_exist::<K>(a.dom());
    let chosen = choose|keys: Seq<K::V>| sorted_keys::<K>(keys, a.dom());
    assert forall|i: int| 0 <= i < chosen.len() implies a[#[trigger] chosen[i]].tokens()
        == b[chosen[i]].tokens() by {
        assert(chosen.contains(chosen[i]));
        assert(a.dom().contains(chosen[i]));
    }
    lemma_listed_tokens_same::<K, V>(chosen, a, b);
}

// ---------------------------------------------------------------------------
// What a layout is made of
// ---------------------------------------------------------------------------

/// All that a layout is made of, apart from what the configuration sets.
pub struct LayoutInputs<'a> {
    pub events: &'a Vec<&'a EventDto>,
    pub sender_labels: &'a Vec<String>,
    pub width: usize,
    pub reactions: &'a KeyedMap<String, Vec<(String, usize)>>,
    pub own_senders: &'a KeyedMap<u128, String>,
    pub image_thumb_rows: &'a KeyedMap<ImageKey, usize>,
    pub relations: &'a RelationContext,
    pub config_generation: u64,
}

/// The address of the image that an event shows.
pub open spec fn image_address(event: EventView) -> Option<Seq<char>> {
    match image_of(event) {
        Some(media) => media.url,
        None => None,
    }
}

/// What a layout shows of an event.
pub open spec fn event_tokens(event: EventView) -> Seq<TokenView> {
    seq![
        TokenView::Text(event.event_id),
        TokenView::Id(event.account_id),
        TokenView::Text(event.sender),
        TokenView::Number(event.origin_ts),
        TokenView::Flag(event.redacted),
        text_token(event.sender_trust),
        TokenView::Text(text_of_event(event, event.sender)),
        text_token(formatted_body_of(event)),
        text_token(image_address(event)),
        text_token(membership_of(event)),
        text_token(reply_target_of(event)),
    ]
}

pub open spec fn events_tokens(events: Seq<EventView>) -> Seq<TokenView>
    decreases events.len(),
{
    if events.len() == 0 {
        Seq::empty()
    } else {
        events_tokens(events.drop_last()) + event_tokens(events.last())
    }
}

pub open spec fn texts_tokens(texts: Seq<Seq<char>>) -> Seq<TokenView> {
    Seq::new(texts.len(), |i: int| TokenView::Text(texts[i]))
}

fn add_event(out: &mut Vec<Token>, event: &EventDto)
    ensures
        views(final(out)@) == views(old(out)@) + event_tokens(event@),
{
    let ghost before = views(out@);
    self::add(out, Token::Text(event.event_id.clone()));
    self::add(out, Token::Id(event.account_id));
    self::add(out, Token::Text(event.sender.clone()));
    self::add(out, Token::Number(event.origin_ts));
    self::add(out, Token::Flag(event.redacted));
    self::add(out, text_or_absent(option_str(&event.sender_trust)));
    self::add(out, Token::Text(event.display_body()));
    self::add(out, text_or_absent(event.formatted_body()));
    let address = match event.image_mxc() {
        Some((_, url)) => Some(url),
        None => None,
    };
    self::add(out, text_or_absent(option_str(&address)));
    let change = event.membership_change();
    self::add(out, text_or_absent(option_str(&change)));
    self::add(out, text_or_absent(event.reply_relation()));
    assert(views(out@) =~= before + event_tokens(event@));
}

/// The fingerprint of a layout.
pub open spec fn fingerprint(inputs: LayoutInputs) -> Seq<TokenView> {
    seq![TokenView::Count(inputs.events@.len() as usize)] + events_tokens(views(inputs.events@))
        + seq![TokenView::Count(inputs.sender_labels@.len() as usize)] + texts_tokens(
        views(inputs.sender_labels@),
    ) + seq![TokenView::Count(inputs.width)] + map_tokens::<String, Vec<(String, usize)>>(
        inputs.reactions@,
    ) + map_tokens::<u128, String>(inputs.own_senders@) + map_tokens::<ImageKey, usize>(
        inputs.image_thumb_rows@,
    ) + map_tokens::<String, ReplyPreview>(inputs.relations.replies@) + map_tokens::<
        String,
        ThreadBadge,
    >(inputs.relations.thread_badges@) + map_tokens::<String, Option<ReplyPreview>>(
        inputs.relations.thread_contexts@,
    ) + seq![text_token(option_view(inputs.relations.thread_root))] + seq![
        TokenView::Generation(inputs.config_generation),
    ]
}

fn add_events(out: &mut Vec<Token>, events: &Vec<&EventDto>)
    ensures
        views(final(out)@) == views(old(out)@) + seq![
            TokenView::Count(events@.len() as usize),
        ] + events_tokens(views(events@)),
{
    let ghost before = views(out@);
    let ghost all = views(events@);
    self::add(out, Token::Count(events.len()));
    let ghost start = before + seq![TokenView::Count(events@.len() as usize)];
    assert(views(out@) =~= start);
    let mut i: usize = 0;
    assert(start + events_tokens(all.take(0)) =~= start);
    while i < events.len()
        invariant
            i <= events.len(),
            all == views(events@),
            views(out@) == start + events_tokens(all.take(i as int)),
        decreases events.len() - i,
    {
        assert(all.take(i + 1).drop_last() =~= all.take(i as int));
        assert(all.take(i + 1).last() == events@[i as int]@);
        add_event(out, events[i]);
        assert(views(out@) =~= start + events_tokens(all.take(i + 1)));
        i = i + 1;
    }
    assert(all.take(i as int) =~= all);
}

fn add_texts(out: &mut Vec<Token>, texts: &Vec<String>)
    ensures
        views(final(out)@) == views(old(out)@) + seq![
            TokenView::Count(texts@.len() as usize),
        ] + texts_tokens(views(texts@)),
{
    let ghost before = views(out@);
    let ghost all = texts_tokens(views(texts@));
    self::add(out, Token::Count(texts.len()));
    let ghost start = before + seq![TokenView::Count(texts@.len() as usize)];
    assert(views(out@) =~= start);
    let mut i: usize = 0;
    assert(start + all.take(0) =~= start);
    while i < texts.len()
        invariant
            i <= texts.len(),
            all == texts_tokens(views(texts@)),
            all.len() == texts@.len(),
            views(out@) == start + all.take(i as int),
        decreases texts.len() - i,
    {
        self::add(out, Token::Text(texts[i].clone()));
        assert(views(out@) =~= start + all.take(i + 1));
        i = i + 1;
    }
    assert(all.take(i as int) =~= all);
}

/// The fingerprint of a layout. It holds more rather than less: a layout that is made
/// in vain costs little, one that is out of date misleads.
pub fn layout_digest(inputs: &LayoutInputs<'_>) -> (out: Vec<Token>)
    ensures
        views(out@) == fingerprint(*inputs),
{
    let mut out: Vec<Token> = Vec::new();
    assert(views(out@) =~= Seq::<TokenView>::empty());
    add_events(&mut out, inputs.events);
    add_texts(&mut out, inputs.sender_labels);
    self::add(&mut out, Token::Count(inputs.width));
    hash_sorted_map(inputs.reactions, &mut out);
    hash_sorted_map(inputs.own_senders, &mut out);
    hash_sorted_map(inputs.image_thumb_rows, &mut out);
    hash_sorted_map(&inputs.relations.replies, &mut out);
    hash_sorted_map(&inputs.relations.thread_badges, &mut out);
    hash_sorted_map(&inputs.relations.thread_contexts, &mut out);
    self::add(&mut out, text_or_absent(option_str(&inputs.relations.thread_root)));
    self::add(&mut out, Token::Generation(inputs.config_generation));
    assert(views(out@) =~= fingerprint(*inputs));
    out
}

// ---------------------------------------------------------------------------
// The kept layout
// ---------------------------------------------------------------------------

/// One more, as far as numbers go.
pub open spec fn one_more(n: u64) -> u64 {
    if n == u64::MAX {
        n
    } else {
        (n + 1) as u64
    }
}

/// The first line that is shown: the bottom where that is asked for, else no further
/// down than the last page.
pub open spec fn settled_scroll(scroll: usize, lines: int, page_size: int) -> usize {
    let most = if lines > page_size {
        lines - page_size
    } else {
        0
    };
    if scroll == usize::MAX || scroll > most {
        most as usize
    } else {
        scroll
    }
}

/// The number of lines of the messages.
pub open spec fn line_count(ranges: Seq<(usize, usize)>) -> int {
    if ranges.len() > 0 {
        ranges.last().1 as int
    } else {
        0
    }
}

impl MessagePane {
    /// Whether the kept layout was made of what a fingerprint tells.
    pub open spec fn is_current(self, key: Seq<TokenView>) -> bool {
        match self.layout_key {
            Some(k) => views(k@) == key,
            None => false,
        }
    }
}

impl App {
    /// Whether the kept layout was made of what a fingerprint tells.
    pub fn layout_is_current(&self, key: &Vec<Token>) -> (r: bool)
        ensures
            r == self.messages.is_current(views(key@)),
    {
        match &self.messages.layout_key {
            Some(k) => same_tokens(k, key),
            None => false,
        }
    }

    /// Takes over where the messages stand, with the fingerprint of what they were laid
    /// out of, where the kept layout is not current. Which line is shown first is
    /// settled either way. It is counted how often that is done.
    pub fn ensure_message_layout(&mut self, key: Vec<Token>, made: Vec<(usize, usize)>)
        ensures
            ({
                let pane = old(self).messages;
                let current = pane.is_current(views(key@));
                let ranges = if current {
                    pane.ranges
                } else {
                    made
                };
                *final(self) == (App {
                    messages: MessagePane {
                        layout_checks: one_more(pane.layout_checks),
                        layout_recomputes: if current {
                            pane.layout_recomputes
                        } else {
                            one_more(pane.layout_recomputes)
                        },
                        layout_key: if current {
                            pane.layout_key
                        } else {
                            Some(key)
                        },
                        ranges,
                        scroll: settled_scroll(
                            pane.scroll,
                            line_count(ranges@),
                            pane.page_size as int,
                        ),
                        ..pane
                    },
                    ..*old(self)
                })
            }),
            final(self).messages.is_current(views(key@)),
    {
        let checks: u64 = self.messages.layout_checks;
        if checks != u64::MAX {
            self.messages.layout_checks = checks + 1;
        }
        if !self.layout_is_current(&key) {
            let recomputes: u64 = self.messages.layout_recomputes;
            if recomputes != u64::MAX {
                self.messages.layout_recomputes = recomputes + 1;
            }
            self.messages.layout_key = Some(key);
            self.messages.ranges = made;
        }
        self.resolve_message_scroll();
    }

    /// Settles which line is shown first. That is done whether the layout is new or
    /// not.
    pub fn resolve_message_scroll(&mut self)
        ensures
            *final(self) == (App {
                messages: MessagePane {
                    scroll: settled_scroll(
                        old(self).messages.scroll,
                        line_count(old(self).messages.ranges@),
                        old(self).messages.page_size as int,
                    ),
                    ..old(self).messages
                },
                ..*old(self)
            }),
    {
        let n: usize = self.messages.ranges.len();
        let lines: usize = if n > 0 {
            self.messages.ranges[n - 1].1
        } else {
            0
        };
        let most: usize = if lines > self.messages.page_size {
            lines - self.messages.page_size
        } else {
            0
        };
        if self.messages.scroll == usize::MAX || self.messages.scroll > most {
            self.messages.scroll = most;
        }
    }

    /// Where the messages stand, as they were last laid out.
    pub fn cached_message_ranges(&self) -> (out: &Vec<(usize, usize)>)
        ensures
            *out == self.messages.ranges,
    {
        &self.messages.ranges
    }
}

proof fn lemma_events_tokens(events: Seq<EventView>)
    ensures
        events_tokens(events).len() == 11 * events.len(),
    decreases events.len(),
{
    if events.len() > 0 {
        lemma_events_tokens(events.drop_last());
    }
}

proof fn lemma_same_events(a: Seq<EventView>, b: Seq<EventView>)
    requires
        a.len() == b.len(),
        events_tokens(a) == events_tokens(b),
    ensures
        forall|i: int| 0 <= i < a.len() ==> #[trigger] event_tokens(a[i]) == event_tokens(b[i]),
    decreases a.len(),
{
    if a.len() > 0 {
        let (x, y) = (a.drop_last(), b.drop_last());
        let (p, q) = (event_tokens(a.last()), event_tokens(b.last()));
        lemma_events_tokens(x);
        lemma_events_tokens(y);
        let n = events_tokens(x).len() as int;
        assert((events_tokens(x) + p).take(n) =~= events_tokens(x));
        assert((events_tokens(y) + q).take(n) =~= events_tokens(y));
        assert((events_tokens(x) + p).skip(n) =~= p);
        assert((events_tokens(y) + q).skip(n) =~= q);
        lemma_same_events(x, y);
        assert forall|i: int| 0 <= i < a.len() implies #[trigger] event_tokens(a[i]) == event_tokens(
            b[i],
        ) by {
            if i < a.len() - 1 {
                assert(x[i] == a[i] && y[i] == b[i]);
                assert(event_tokens(x[i]) == event_tokens(y[i]));
            }
        }
    }
}

/// What stands behind the events, the labels and the width in a fingerprint.
spec fn fingerprint_tail(inputs: LayoutInputs) -> Seq<TokenView> {
    map_tokens::<String, Vec<(String, usize)>>(inputs.reactions@) + map_tokens::<u128, String>(
        inputs.own_senders@,
    ) + map_tokens::<ImageKey, usize>(inputs.image_thumb_rows@) + map_tokens::<
        String,
        ReplyPreview,
    >(inputs.relations.replies@) + map_tokens::<String, ThreadBadge>(
        inputs.relations.thread_badges@,
    ) + map_tokens::<String, Option<ReplyPreview>>(inputs.relations.thread_contexts@) + seq![
        text_token(option_view(inputs.relations.thread_root)),
    ] + seq![TokenView::Generation(inputs.config_generation)]
}

proof fn lemma_fingerprint_parts(inputs: LayoutInputs)
    ensures
        ({
            let f = fingerprint(inputs);
            let (n, m) = (inputs.events@.len() as int, inputs.sender_labels@.len() as int);
            &&& f.len() >= 11 * n + m + 4
            &&& f[0] == TokenView::Count(n as usize)
            &&& f.subrange(1, 1 + 11 * n) == events_tokens(views(inputs.events@))
            &&& f[1 + 11 * n] == TokenView::Count(m as usize)
            &&& f.subrange(2 + 11 * n, 2 + 11 * n + m) == texts_tokens(
                views(inputs.sender_labels@),
            )
            &&& f[2 + 11 * n + m] == TokenView::Count(inputs.width)
            &&& f.skip(3 + 11 * n + m) == fingerprint_tail(inputs)
        }),
{
    let f = fingerprint(inputs);
    let (n, m) = (inputs.events@.len() as int, inputs.sender_labels@.len() as int);
    let head = seq![TokenView::Count(n as usize)] + events_tokens(views(inputs.events@)) + seq![
        TokenView::Count(m as usize),
    ] + texts_tokens(views(inputs.sender_labels@)) + seq![TokenView::Count(inputs.width)];
    lemma_events_tokens(views(inputs.events@));
    let tail = fingerprint_tail(inputs);
    assert(f =~= head + tail);
    assert(head.len() == 3 + 11 * n + m);
    assert(f.skip(3 + 11 * n + m) =~= tail);
    assert(f.subrange(1, 1 + 11 * n) =~= events_tokens(views(inputs.events@)));
    assert(f.subrange(2 + 11 * n, 2 + 11 * n + m) =~= texts_tokens(views(inputs.sender_labels@)));
}

/// Whether the maps that a layout is made of have each key once.
pub open spec fn maps_valid(inputs: LayoutInputs) -> bool {
    &&& keys_once(inputs.reactions.listed())
    &&& keys_once(inputs.own_senders.listed())
    &&& keys_once(inputs.image_thumb_rows.listed())
    &&& keys_once(inputs.relations.replies.listed())
    &&& keys_once(inputs.relations.thread_badges.listed())
    &&& keys_once(inputs.relations.thread_contexts.listed())
}

/// Whether layouts are made of the same: of events that are the same as far as they are
/// shown, of equal labels, of one width, of maps that hold the same and of one state of
/// the configuration.
pub open spec fn inputs_alike(a: LayoutInputs, b: LayoutInputs) -> bool {
    &&& a.events@.len() == b.events@.len()
    &&& forall|i: int|
        0 <= i < a.events@.len() ==> #[trigger] event_tokens(views(a.events@)[i]) == event_tokens(
            views(b.events@)[i],
        )
    &&& views(a.sender_labels@) == views(b.sender_labels@)
    &&& a.width == b.width
    &&& maps_alike::<String, Vec<(String, usize)>>(a.reactions@, b.reactions@)
    &&& maps_alike::<u128, String>(a.own_senders@, b.own_senders@)
    &&& maps_alike::<ImageKey, usize>(a.image_thumb_rows@, b.image_thumb_rows@)
    &&& maps_alike::<String, ReplyPreview>(a.relations.replies@, b.relations.replies@)
    &&& maps_alike::<String, ThreadBadge>(a.relations.thread_badges@, b.relations.thread_badges@)
    &&& maps_alike::<String, Option<ReplyPreview>>(
        a.relations.thread_contexts@,
        b.relations.thread_contexts@,
    )
    &&& option_view(a.relations.thread_root) == option_view(b.relations.thread_root)
    &&& a.config_generation == b.config_generation
}

proof fn lemma_same_tail(a: LayoutInputs, b: LayoutInputs)
    requires
        maps_valid(a),
        maps_valid(b),
        fingerprint_tail(a) == fingerprint_tail(b),
    ensures
        maps_alike::<String, Vec<(String, usize)>>(a.reactions@, b.reactions@),
        maps_alike::<u128, String>(a.own_senders@, b.own_senders@),
        maps_alike::<ImageKey, usize>(a.image_thumb_rows@, b.image_thumb_rows@),
        maps_alike::<String, ReplyPreview>(a.relations.replies@, b.relations.replies@),
        maps_alike::<String, ThreadBadge>(a.relations.thread_badges@, b.relations.thread_badges@),
        maps_alike::<String, Option<ReplyPreview>>(
            a.relations.thread_contexts@,
            b.relations.thread_contexts@,
        ),
        option_view(a.relations.thread_root) == option_view(b.relations.thread_root),
        a.config_generation == b.config_generation,
{
    a.reactions.lemma_listed_size();
    b.reactions.lemma_listed_size();
    a.own_senders.lemma_listed_size();
    b.own_senders.lemma_listed_size();
    a.image_thumb_rows.lemma_listed_size();
    b.image_thumb_rows.lemma_listed_size();
    a.relations.replies.lemma_listed_size();
    b.relations.replies.lemma_listed_size();
    a.relations.thread_badges.lemma_listed_size();
    b.relations.thread_badges.lemma_listed_size();
    a.relations.thread_contexts.lemma_listed_size();
    b.relations.thread_contexts.lemma_listed_size();
    let (x1, y1) = (tail_after_reactions(a), tail_after_reactions(b));
    let (x2, y2) = (tail_after_senders(a), tail_after_senders(b));
    let (x3, y3) = (tail_after_thumbs(a), tail_after_thumbs(b));
    let (x4, y4) = (tail_after_replies(a), tail_after_replies(b));
    let (x5, y5) = (tail_after_badges(a), tail_after_badges(b));
    let (x6, y6) = (tail_after_contexts(a), tail_after_contexts(b));
    lemma_tail_parts(a);
    lemma_tail_parts(b);
    law_tokens_tell_maps_apart::<String, Vec<(String, usize)>>(a.reactions@, x1, b.reactions@, y1);
    law_tokens_tell_maps_apart::<u128, String>(a.own_senders@, x2, b.own_senders@, y2);
    law_tokens_tell_maps_apart::<ImageKey, usize>(
        a.image_thumb_rows@,
        x3,
        b.image_thumb_rows@,
        y3,
    );
    law_tokens_tell_maps_apart::<String, ReplyPreview>(
        a.relations.replies@,
        x4,
        b.relations.replies@,
        y4,
    );
    law_tokens_tell_maps_apart::<String, ThreadBadge>(
        a.relations.thread_badges@,
        x5,
        b.relations.thread_badges@,
        y5,
    );
    law_tokens_tell_maps_apart::<String, Option<ReplyPreview>>(
        a.relations.thread_contexts@,
        x6,
        b.relations.thread_contexts@,
        y6,
    );
    assert(x6[0] == y6[0] && x6[1] == y6[1]);
    lemma_text_token(option_view(a.relations.thread_root), option_view(b.relations.thread_root));
}

spec fn tail_after_contexts(inputs: LayoutInputs) -> Seq<TokenView> {
    seq![
        text_token(option_view(inputs.relations.thread_root)),
        TokenView::Generation(inputs.config_generation),
    ]
}

spec fn tail_after_badges(inputs: LayoutInputs) -> Seq<TokenView> {
    map_tokens::<String, Option<ReplyPreview>>(inputs.relations.thread_contexts@)
        + tail_after_contexts(inputs)
}

spec fn tail_after_replies(inputs: LayoutInputs) -> Seq<TokenView> {
    map_tokens::<String, ThreadBadge>(inputs.relations.thread_badges@) + tail_after_badges(inputs)
}

spec fn tail_after_thumbs(inputs: LayoutInputs) -> Seq<TokenView> {
    map_tokens::<String, ReplyPreview>(inputs.relations.replies@) + tail_after_replies(inputs)
}

spec fn tail_after_senders(inputs: LayoutInputs) -> Seq<TokenView> {
    map_tokens::<ImageKey, usize>(inputs.image_thumb_rows@) + tail_after_thumbs(inputs)
}

spec fn tail_after_reactions(inputs: LayoutInputs) -> Seq<TokenView> {
    map_tokens::<u128, String>(inputs.own_senders@) + tail_after_senders(inputs)
}

proof fn lemma_tail_parts(inputs: LayoutInputs)
    ensures
        fingerprint_tail(inputs) == map_tokens::<String, Vec<(String, usize)>>(inputs.reactions@)
            + tail_after_reactions(inputs),
{
    assert(fingerprint_tail(inputs) =~= map_tokens::<String, Vec<(String, usize)>>(
        inputs.reactions@,
    ) + tail_after_reactions(inputs));
}

/// Equal fingerprints come of the same.
pub proof fn law_fingerprint_tells(a: LayoutInputs, b: LayoutInputs)
    requires
        maps_valid(a),
        maps_valid(b),
        fingerprint(a) == fingerprint(b),
    ensures
        inputs_alike(a, b),
{
    assert(a.events@.len() == a.events.len() && b.events@.len() == b.events.len());
    assert(a.sender_labels@.len() == a.sender_labels.len());
    assert(b.sender_labels@.len() == b.sender_labels.len());
    lemma_fingerprint_parts(a);
    lemma_fingerprint_parts(b);
    lemma_same_events(views(a.events@), views(b.events@));
    let (x, y) = (views(a.sender_labels@), views(b.sender_labels@));
    assert(x.len() == y.len());
    assert forall|i: int| 0 <= i < x.len() implies x[i] == y[i] by {
        assert(texts_tokens(x)[i] == TokenView::Text(x[i]));
        assert(texts_tokens(y)[i] == TokenView::Text(y[i]));
    }
    assert(x =~= y);
    lemma_same_tail(a, b);
}

// ---------------------------------------------------------------------------
// Equal fingerprints and layouts
// ---------------------------------------------------------------------------

/// Whether a layout is made of what a fingerprint is taken of.
pub open spec fn made_of(input: LayoutInput, inputs: LayoutInputs) -> bool {
    &&& input.events@ == inputs.events@
    &&& input.sender_labels@ == inputs.sender_labels@
    &&& input.width == inputs.width
    &&& input.reactions@ == inputs.reactions@
    &&& input.own_senders@ == inputs.own_senders@
    &&& input.image_thumb_rows@ == inputs.image_thumb_rows@
    &&& input.relations == inputs.relations
}

/// Whether messages were wrapped to the same rows.
pub open spec fn rows_alike(a: WrappedMessage, b: WrappedMessage) -> bool {
    &&& match (a.formatted, b.formatted) {
        (Some(v), Some(w)) => rows_view(v@) == rows_view(w@),
        (None, None) => true,
        _ => false,
    }
    &&& text_rows(a.plain@) == text_rows(b.plain@)
    &&& text_rows(a.context@) == text_rows(b.context@)
    &&& text_rows(a.badge@) == text_rows(b.badge@)
    &&& text_rows(a.reactions@) == text_rows(b.reactions@)
}

/// What events show that have equal tokens.
proof fn lemma_shown_alike(e: EventView, f: EventView)
    requires
        event_tokens(e) == event_tokens(f),
    ensures
        e.event_id == f.event_id,
        e.account_id == f.account_id,
        e.sender == f.sender,
        e.redacted == f.redacted,
        e.sender_trust == f.sender_trust,
        membership_of(e) == membership_of(f),
        reply_target_of(e) == reply_target_of(f),
        formatted_body_of(e) == formatted_body_of(f),
        image_key(e) == image_key(f),
        forall|who: Seq<char>| #[trigger] text_of_event(e, who) == text_of_event(f, who),
{
    let (x, y) = (event_tokens(e), event_tokens(f));
    assert(x[0] == y[0] && x[1] == y[1] && x[2] == y[2] && x[4] == y[4] && x[5] == y[5]);
    assert(x[6] == y[6] && x[7] == y[7] && x[8] == y[8] && x[9] == y[9] && x[10] == y[10]);
    lemma_text_token(e.sender_trust, f.sender_trust);
    lemma_text_token(formatted_body_of(e), formatted_body_of(f));
    lemma_text_token(image_address(e), image_address(f));
    lemma_text_token(membership_of(e), membership_of(f));
    lemma_text_token(reply_target_of(e), reply_target_of(f));
    assert forall|who: Seq<char>| #[trigger] text_of_event(e, who) == text_of_event(f, who) by {
        assert(text_of_event(e, e.sender) == text_of_event(f, f.sender));
    }
}

/// What is said around a message where the events and the relations are alike.
proof fn lemma_sides_alike(a: LayoutInputs, b: LayoutInputs, i: int)
    requires
        inputs_alike(a, b),
        0 <= i < a.events@.len(),
    ensures
        ({
            let (e, f) = (views(a.events@)[i], views(b.events@)[i]);
            &&& context_of(e, *a.relations) == context_of(f, *b.relations)
            &&& badge_of(e, *a.relations) == badge_of(f, *b.relations)
            &&& badge_style_of(e, *a.relations) == badge_style_of(f, *b.relations)
            &&& is_root(e, *a.relations) == is_root(f, *b.relations)
            &&& reactions_of(a.reactions@, e.event_id) == reactions_of(b.reactions@, f.event_id)
        }),
{
    let (e, f) = (views(a.events@)[i], views(b.events@)[i]);
    assert(event_tokens(e) == event_tokens(f));
    lemma_shown_alike(e, f);
    let id = e.event_id;
    let (r, t) = (a.relations, b.relations);
    if r.replies@.dom().contains(id) {
        assert(r.replies@[id].alike(&t.replies@[id]));
    }
    if r.thread_contexts@.dom().contains(id) {
        assert(r.thread_contexts@[id].alike(&t.thread_contexts@[id]));
    }
    if r.thread_badges@.dom().contains(id) {
        assert(r.thread_badges@[id].alike(&t.thread_badges@[id]));
    }
    if a.reactions@.dom().contains(id) {
        assert(a.reactions@[id].alike(&b.reactions@[id]));
        let (p, q) = (a.reactions@[id]@, b.reactions@[id]@);
        assert(badges(p).len() == badges(q).len());
        assert forall|k: int| 0 <= k < p.len() implies reaction_texts(p)[k] == reaction_texts(q)[k] by {
            assert(badges(p)[k] == badges(q)[k]);
        }
        assert(reaction_texts(p) =~= reaction_texts(q));
    }
}

/// Equal fingerprints give equal texts to wrap, at equal widths: with equal times of day,
/// the rows of messages need not be made again.
pub proof fn law_equal_fingerprints_wrap_alike(
    a: LayoutInputs,
    b: LayoutInputs,
    i: int,
    time: Seq<char>,
    density: MessageDensity,
)
    requires
        maps_valid(a),
        maps_valid(b),
        fingerprint(a) == fingerprint(b),
        0 <= i < a.events@.len(),
        i < a.sender_labels@.len(),
    ensures
        ({
            let (e, f) = (views(a.events@)[i], views(b.events@)[i]);
            let (l, m) = (a.sender_labels@[i]@, b.sender_labels@[i]@);
            &&& l == m
            &&& html_of(e) == html_of(f)
            &&& text_of_event(e, l) == text_of_event(f, m)
            &&& body_widths(e, l, time, a.width as int, *a.relations, density) == body_widths(
                f,
                m,
                time,
                b.width as int,
                *b.relations,
                density,
            )
            &&& context_of(e, *a.relations) == context_of(f, *b.relations)
            &&& badge_of(e, *a.relations) == badge_of(f, *b.relations)
            &&& reactions_of(a.reactions@, e.event_id) == reactions_of(b.reactions@, f.event_id)
        }),
{
    law_fingerprint_tells(a, b);
    let (e, f) = (views(a.events@)[i], views(b.events@)[i]);
    assert(event_tokens(e) == event_tokens(f));
    lemma_shown_alike(e, f);
    lemma_sides_alike(a, b, i);
    assert(views(a.sender_labels@)[i] == views(b.sender_labels@)[i]);
}

proof fn lemma_message_alike(a: LayoutInputs, b: LayoutInputs, x: LayoutInput, y: LayoutInput, i: int)
    requires
        inputs_alike(a, b),
        made_of(x, a),
        made_of(y, b),
        x.complete(),
        y.complete(),
        0 <= i < x.count(),
        x.stamps@[i]@ == y.stamps@[i]@,
        rows_alike(x.wrapped@[i], y.wrapped@[i]),
        x.density == y.density,
    ensures
        x.message(i) == y.message(i),
        image_key(x.events@[i]@) == image_key(y.events@[i]@),
        context_of(x.events@[i]@, *x.relations) == context_of(y.events@[i]@, *y.relations),
        body_shown(x.events@[i]@, x.wrapped@[i]) == body_shown(y.events@[i]@, y.wrapped@[i]),
        x.wrapped@[i].context@.len() == y.wrapped@[i].context@.len(),
{
    let (e, f) = (views(a.events@)[i], views(b.events@)[i]);
    assert(e == x.events@[i]@ && f == y.events@[i]@);
    assert(event_tokens(e) == event_tokens(f));
    lemma_shown_alike(e, f);
    lemma_sides_alike(a, b, i);
    assert(views(a.sender_labels@)[i] == views(b.sender_labels@)[i]);
    let id = e.account_id;
    if a.own_senders@.dom().contains(id) {
        assert(a.own_senders@[id].alike(&b.own_senders@[id]));
    }
    assert(x.own(i) == y.own(i));
    let (v, w) = (x.wrapped@[i], y.wrapped@[i]);
    assert(html_of(e) == html_of(f));
    assert(body_shown(e, v) == body_shown(f, w));
    assert(text_rows(v.context@).len() == v.context@.len());
    assert(text_rows(w.context@).len() == w.context@.len());
    if let Some(key) = image_key(e) {
        if a.image_thumb_rows@.dom().contains(key) {
            assert(a.image_thumb_rows@[key].alike(&b.image_thumb_rows@[key]));
        }
    }
    let rows = rows_of(e, x.image_thumb_rows@, v);
    assert(rows == rows_of(f, y.image_thumb_rows@, w));
    let (l, t, d) = (x.sender_labels@[i]@, x.stamps@[i]@.time, x.density);
    assert(views(a.sender_labels@).len() == views(b.sender_labels@).len());
    assert(views(b.sender_labels@)[i] == b.sender_labels@[i]@);
    assert(l == y.sender_labels@[i]@);
    assert(header_of(e, l, t, x.own(i), is_root(e, *x.relations), d) == header_of(
        f,
        l,
        t,
        y.own(i),
        is_root(f, *y.relations),
        d,
    ));
    assert(header_row(e, l, t, x.own(i), *x.relations, d, rows) == header_row(
        f,
        l,
        t,
        y.own(i),
        *y.relations,
        d,
        rows,
    ));
    assert(rows_below(e, *x.relations, d, rows) == rows_below(f, *y.relations, d, rows));
    assert(body_indent(e, l, t, d) == body_indent(f, l, t, d));
    let (c, g) = (context_of(e, *x.relations), badge_of(e, *x.relations));
    assert(side_rows(c, v.context@, relation_style()) == side_rows(
        c,
        w.context@,
        relation_style(),
    ));
    let ink = badge_style_of(e, *x.relations);
    assert(ink == badge_style_of(f, *y.relations));
    assert(side_rows(g, v.badge@, ink) == side_rows(g, w.badge@, ink));
    let r = reactions_of(x.reactions@, e.event_id);
    assert(side_rows(r, v.reactions@, reaction_style()) == side_rows(
        r,
        w.reactions@,
        reaction_style(),
    ));
    assert(x.message(i) == y.message(i));
}

/// A layout that is kept is the one that would be made again: equal fingerprints, with
/// equal times, rows and density, give equal lines, and each message takes the same of
/// them.
pub proof fn law_equal_fingerprints_lay_out_alike(
    a: LayoutInputs,
    b: LayoutInputs,
    x: LayoutInput,
    y: LayoutInput,
    n: int,
)
    requires
        maps_valid(a),
        maps_valid(b),
        fingerprint(a) == fingerprint(b),
        made_of(x, a),
        made_of(y, b),
        x.density == y.density,
        x.complete(),
        y.complete(),
        0 <= n <= x.count(),
        forall|i: int| 0 <= i < x.count() ==> (#[trigger] x.stamps@[i])@ == y.stamps@[i]@,
        forall|i: int|
            0 <= i < x.count() ==> rows_alike(#[trigger] x.wrapped@[i], y.wrapped@[i]),
    ensures
        x.count() == y.count(),
        x.lines(n) == y.lines(n),
        x.thumbs_above(n) == y.thumbs_above(n),
        n < x.count() ==> x.range(n) == y.range(n),
{
    law_fingerprint_tells(a, b);
    assert(views(a.sender_labels@).len() == views(b.sender_labels@).len());
    lemma_lines_alike(a, b, x, y, n);
    if n < x.count() {
        lemma_lines_alike(a, b, x, y, n + 1);
    }
}

proof fn lemma_lines_alike(a: LayoutInputs, b: LayoutInputs, x: LayoutInput, y: LayoutInput, n: int)
    requires
        inputs_alike(a, b),
        made_of(x, a),
        made_of(y, b),
        x.density == y.density,
        x.complete(),
        y.complete(),
        0 <= n <= x.count(),
        forall|i: int| 0 <= i < x.count() ==> (#[trigger] x.stamps@[i])@ == y.stamps@[i]@,
        forall|i: int|
            0 <= i < x.count() ==> rows_alike(#[trigger] x.wrapped@[i], y.wrapped@[i]),
    ensures
        x.lines(n) == y.lines(n),
        x.thumbs_above(n) == y.thumbs_above(n),
        n < x.count() ==> x.separators(n) == y.separators(n),
    decreases n,
{
    if n < x.count() {
        assert(x.stamps@[n]@ == y.stamps@[n]@);
        if n > 0 {
            assert(x.stamps@[n - 1]@ == y.stamps@[n - 1]@);
        }
    }
    if n > 0 {
        lemma_lines_alike(a, b, x, y, n - 1);
        assert(x.stamps@[n - 1]@ == y.stamps@[n - 1]@);
        assert(rows_alike(x.wrapped@[n - 1], y.wrapped@[n - 1]));
        lemma_message_alike(a, b, x, y, n - 1);
    }
}

/// The first line that is shown is one of the messages, and settling it again changes
/// nothing.
pub proof fn law_scroll_is_settled(scroll: usize, lines: usize, page_size: usize)
    ensures
        ({
            let once = settled_scroll(scroll, lines as int, page_size as int);
            &&& lines > page_size ==> once + page_size <= lines
            &&& lines <= page_size ==> once == 0
            &&& once == usize::MAX || settled_scroll(once, lines as int, page_size as int) == once
        }),
{
}

} // verus!
