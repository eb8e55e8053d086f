//! What the handling of texts comes to.

use vstd::prelude::*;

use crate::app::choice::entry_key;
use crate::app::input::{from_second_word, up_to_last_word, without_first_word, without_last_word};
use crate::app::lifecycle::words_of;
use crate::text::{
    all_ascii, all_digits, ascii_lower, begins, decimal, decimal_int, digits_value, has_part,
    holds_at, is_white, joined, lowercase, number_of, same_ignoring_case, split_once, trim,
    trim_end, trim_end_char, trim_start, without_prefix, zero_padded,
};

verus! {

/// Blanks, tabs and line breaks are white space. Letters, digits and signs are not.
pub proof fn law_white_space(c: char)
    ensures
        is_white(' '),
        is_white('\t'),
        is_white('\n'),
        is_white('\r'),
        '!' <= c <= '~' ==> !is_white(c),
{
}

/// Whether a text is nothing but white space.
pub open spec fn all_white(s: Seq<char>) -> bool {
    forall|i: int| 0 <= i < s.len() ==> is_white(#[trigger] s[i])
}

proof fn lemma_start(s: Seq<char>)
    ensures
        ({
            let t = trim_start(s);
            &&& t.len() <= s.len()
            &&& s.skip(s.len() - t.len()) == t
            &&& all_white(s.take(s.len() - t.len()))
            &&& t.len() == 0 || !is_white(t[0])
        }),
    decreases s.len(),
{
    if s.len() > 0 && is_white(s[0]) {
        let rest = s.drop_first();
        lemma_start(rest);
        let t = trim_start(s);
        assert(s.skip(s.len() - t.len()) =~= rest.skip(rest.len() - t.len()));
        let n = s.len() - t.len();
        assert forall|i: int| 0 <= i < n implies is_white(#[trigger] s.take(n)[i]) by {
            if i > 0 {
                assert(rest.take(n - 1)[i - 1] == s[i]);
            }
        }
    } else {
        assert(s.skip(0) =~= s);
    }
}

proof fn lemma_end(s: Seq<char>)
    ensures
        ({
            let t = trim_end(s);
            &&& t.len() <= s.len()
            &&& s.take(t.len() as int) == t
            &&& all_white(s.skip(t.len() as int))
            &&& t.len() == 0 || !is_white(t.last())
        }),
    decreases s.len(),
{
    if s.len() > 0 && is_white(s.last()) {
        let rest = s.drop_last();
        lemma_end(rest);
        let t = trim_end(s);
        assert(s.take(t.len() as int) =~= rest.take(t.len() as int));
        let tail = s.skip(t.len() as int);
        assert forall|i: int| 0 <= i < tail.len() implies is_white(#[trigger] tail[i]) by {
            if i < tail.len() - 1 {
                assert(rest.skip(t.len() as int)[i] == tail[i]);
            }
        }
    } else {
        assert(s.take(s.len() as int) =~= s);
    }
}

/// A trimmed text is the text without the white space at its ends.
pub proof fn law_trimmed_text(s: Seq<char>)
    ensures
        ({
            let t = trim(s);
            &&& exists|from: int|
                0 <= from && from + t.len() <= s.len() && #[trigger] s.skip(from).take(
                    t.len() as int,
                ) == t && all_white(s.take(from)) && all_white(s.skip(from + t.len()))
            &&& t.len() > 0 ==> !is_white(t[0]) && !is_white(t.last())
        }),
{
    lemma_start(s);
    let u = trim_start(s);
    lemma_end(u);
    let t = trim(s);
    let from = s.len() - u.len();
    assert(s.skip(from).take(t.len() as int) == t);
    assert(s.skip(from + t.len()) =~= u.skip(t.len() as int));
    if t.len() > 0 {
        assert(t[0] == u[0]);
    }
}

/// The text without the slashes at its end.
pub proof fn law_address_without_slashes(s: Seq<char>)
    ensures
        trim_end_char(s, '/').len() <= s.len(),
        trim_end_char(s, '/').len() == 0 || trim_end_char(s, '/').last() != '/',
        trim_end_char(s, '/') == s.take(trim_end_char(s, '/').len() as int),
        forall|i: int| trim_end_char(s, '/').len() <= i < s.len() ==> #[trigger] s[i] == '/',
    decreases s.len(),
{
    if s.len() > 0 && s.last() == '/' {
        let rest = s.drop_last();
        law_address_without_slashes(rest);
        let t = trim_end_char(s, '/');
        assert(s.take(t.len() as int) =~= rest.take(t.len() as int));
        assert forall|i: int| t.len() <= i < s.len() implies #[trigger] s[i] == '/' by {
            if i < rest.len() {
                assert(rest[i] == s[i]);
            }
        }
    } else {
        assert(s.take(s.len() as int) =~= s);
    }
}

/// Small letters stand for capitals, and all other signs for themselves.
pub proof fn law_small_letters(s: Seq<char>, i: int)
    requires
        all_ascii(s),
        0 <= i < s.len(),
    ensures
        lowercase(s).len() == s.len(),
        'A' <= s[i] <= 'Z' ==> lowercase(s)[i] as u32 == s[i] as u32 + 32,
        !('A' <= s[i] <= 'Z') ==> lowercase(s)[i] == s[i],
{
}

/// Two texts are the same with the case aside where they differ in the case of letters alone.
pub proof fn law_case_aside(a: Seq<char>, b: Seq<char>)
    ensures
        same_ignoring_case(a, b) <==> a.len() == b.len() && forall|i: int|
            0 <= i < a.len() ==> ascii_lower(#[trigger] a[i]) == ascii_lower(b[i]),
{
    if a.len() == b.len() && forall|i: int|
        0 <= i < a.len() ==> ascii_lower(#[trigger] a[i]) == ascii_lower(b[i]) {
        assert(crate::text::ascii_lowercase(a) =~= crate::text::ascii_lowercase(b));
    }
    if same_ignoring_case(a, b) {
        assert(crate::text::ascii_lowercase(a).len() == crate::text::ascii_lowercase(b).len());
        assert forall|i: int| 0 <= i < a.len() implies ascii_lower(#[trigger] a[i]) == ascii_lower(
            b[i],
        ) by {
            assert(crate::text::ascii_lowercase(a)[i] == crate::text::ascii_lowercase(b)[i]);
        }
    }
}

/// A number reads back from its digits.
pub proof fn law_number_reads_back(n: nat)
    ensures
        number_of(decimal(n)) == Some(n),
        decimal(n).len() > 0,
{
    lemma_digits(n);
    assert(decimal(n)[0] != '+');
}

proof fn lemma_digits(n: nat)
    ensures
        decimal(n).len() > 0,
        all_digits(decimal(n)),
        digits_value(decimal(n)) == n,
    decreases n,
{
    if n >= 10 {
        let d = crate::text::digit((n % 10) as int);
        lemma_digits(n / 10);
        let head = decimal(n / 10);
        let all = head.push(d);
        assert(all.drop_last() =~= head);
        assert forall|i: int| 0 <= i < all.len() implies '0' <= #[trigger] all[i] <= '9' by {
            if i < head.len() {
                assert(head[i] == all[i]);
            }
        }
        assert(digits_value(all) == digits_value(head) * 10 + (n % 10));
    } else {
        let one = seq![crate::text::digit(n as int)];
        assert(one.drop_last() =~= Seq::<char>::empty());
        reveal_with_fuel(digits_value, 2);
    }
}

/// A number below zero is written with its sign.
pub proof fn law_negative_numbers(n: int)
    ensures
        n < 0 ==> decimal_int(n) == seq!['-'] + decimal((-n) as nat),
        n >= 0 ==> decimal_int(n) == decimal(n as nat),
{
}

/// A short number is filled up with zeros in front, and a long one stays.
pub proof fn law_filled_number(s: Seq<char>, width: nat, i: int)
    ensures
        s.len() <= width ==> zero_padded(s, width).len() == width,
        s.len() > width ==> zero_padded(s, width) == s,
        s.len() < width && 0 <= i < width - s.len() ==> zero_padded(s, width)[i] == '0',
        s.len() <= width ==> zero_padded(s, width).skip(width - s.len()) == s,
{
    if s.len() <= width {
        assert(zero_padded(s, width).skip(width - s.len()) =~= s);
    }
}

/// A text is parted at the first place of a sign, and the parts make it up again.
pub proof fn law_parts_of_a_text(a: Seq<char>, c: char, b: Seq<char>)
    requires
        !a.contains(c),
    ensures
        split_once(a + seq![c] + b, c) == Some((a, b)),
        split_once(a, c) is None,
{
    let whole = a + seq![c] + b;
    assert forall|k: int| 0 <= k < a.len() implies whole[k] != c by {
        assert(a.contains(a[k]));
    }
    crate::laws::accounts::lemma_split_at(whole, c, a.len() as int);
    assert(whole.take(a.len() as int) =~= a);
    assert(whole.skip(a.len() as int + 1) =~= b);
    crate::laws::accounts::lemma_no_split(a, c);
}

/// What follows a beginning.
pub proof fn law_after_a_beginning(prefix: Seq<char>, rest: Seq<char>, other: Seq<char>)
    ensures
        begins(prefix + rest, prefix),
        without_prefix(prefix + rest, prefix) == Some(rest),
        other.len() < prefix.len() ==> without_prefix(other, prefix) is None,
{
    let whole = prefix + rest;
    assert(whole.subrange(0, prefix.len() as int) =~= prefix);
    assert(whole.skip(prefix.len() as int) =~= rest);
}

/// A text holds a part wherever it stands in it.
pub proof fn law_part_of_a_text(a: Seq<char>, part: Seq<char>, b: Seq<char>)
    ensures
        has_part(a + part + b, part),
        part.len() > a.len() ==> !has_part(a, part),
{
    let whole = a + part + b;
    assert(whole.subrange(a.len() as int, (a.len() + part.len()) as int) =~= part);
    assert(holds_at(whole, part, a.len() as int));
}

/// Texts are joined in their order, with the separator between them.
pub proof fn law_joined_texts(parts: Seq<Seq<char>>, sep: Seq<char>, last: Seq<char>)
    ensures
        parts.len() > 0 ==> joined(parts.push(last), sep) == joined(parts, sep) + sep + last,
        joined(seq![last], sep) == last,
        joined(Seq::empty(), sep) == Seq::<char>::empty(),
{
    assert(parts.push(last).drop_last() =~= parts);
}

/// The words of a text are parted by white space: none is empty and none holds any.
pub proof fn law_words_hold_no_white(s: Seq<char>, i: int)
    requires
        0 <= i < words_of(s).len(),
    ensures
        words_of(s)[i].len() > 0,
        forall|k: int| 0 <= k < words_of(s)[i].len() ==> !is_white(#[trigger] words_of(s)[i][k]),
    decreases s.len(),
{
    let rest = s.drop_last();
    let before = words_of(rest);
    if is_white(s.last()) {
        law_words_hold_no_white(rest, i);
    } else {
        if i < before.len() {
            law_words_hold_no_white(rest, i);
        }
        if s.len() > 1 && !is_white(s[s.len() - 2]) && before.len() > 0 {
            if i == before.len() - 1 {
                let word = words_of(s)[i];
                assert forall|k: int| 0 <= k < word.len() implies !is_white(#[trigger] word[k]) by {
                    if k < word.len() - 1 {
                        assert(word[k] == before[i][k]);
                    }
                }
            }
        }
    }
}

/// A text without white space is one word.
pub proof fn law_one_word(s: Seq<char>)
    requires
        s.len() > 0,
        forall|k: int| 0 <= k < s.len() ==> !is_white(#[trigger] s[k]),
    ensures
        words_of(s) == seq![s],
    decreases s.len(),
{
    let rest = s.drop_last();
    if s.len() > 1 {
        assert forall|k: int| 0 <= k < rest.len() implies !is_white(#[trigger] rest[k]) by {
            assert(rest[k] == s[k]);
        }
        law_one_word(rest);
        assert(rest.push(s.last()) =~= s);
        assert(words_of(s) =~= seq![s]);
    } else {
        assert(words_of(rest) =~= Seq::<Seq<char>>::empty());
        assert(seq![s.last()] =~= s);
        assert(words_of(s) =~= seq![s]);
    }
}

/// Behind a blank a new word begins.
pub proof fn law_two_words(a: Seq<char>, b: Seq<char>)
    requires
        b.len() > 0,
        forall|k: int| 0 <= k < b.len() ==> !is_white(#[trigger] b[k]),
    ensures
        words_of(a + seq![' '] + b) == words_of(a).push(b),
    decreases b.len(),
{
    let whole = a + seq![' '] + b;
    let rest = b.drop_last();
    assert(whole.last() == b.last());
    assert(b.last() == b[b.len() - 1]);
    if b.len() == 1 {
        assert(whole.drop_last() =~= a.push(' '));
        assert(a.push(' ').drop_last() =~= a);
        assert(a.push(' ').last() == ' ');
        assert(words_of(a.push(' ')) == words_of(a));
        assert(whole[whole.len() - 2] == ' ');
        assert(seq![b.last()] =~= b);
        assert(words_of(whole) =~= words_of(a).push(b));
    } else {
        assert forall|k: int| 0 <= k < rest.len() implies !is_white(#[trigger] rest[k]) by {
            assert(rest[k] == b[k]);
        }
        law_two_words(a, rest);
        assert(whole.drop_last() =~= a + seq![' '] + rest);
        assert(whole[whole.len() - 2] == b[b.len() - 2]);
        assert(rest.push(b.last()) =~= b);
        assert(words_of(whole) =~= words_of(a).push(b));
    }
}

/// What is deleted back to the beginning of a word is that word and the white space behind it.
pub proof fn law_word_is_deleted(a: Seq<char>, word: Seq<char>, white: Seq<char>)
    requires
        a.len() == 0 || is_white(a.last()),
        word.len() > 0,
        forall|k: int| 0 <= k < word.len() ==> !is_white(#[trigger] word[k]),
        all_white(white),
    ensures
        up_to_last_word(a + word + white) == a,
{
    lemma_trim_tail(a + word, white);
    assert((a + word).last() == word.last());
    assert(!is_white(word[word.len() - 1]));
    lemma_drop_word(a, word);
}

proof fn lemma_trim_tail(a: Seq<char>, white: Seq<char>)
    requires
        all_white(white),
    ensures
        trim_end(a + white) == trim_end(a),
    decreases white.len(),
{
    if white.len() > 0 {
        let rest = white.drop_last();
        assert forall|i: int| 0 <= i < rest.len() implies is_white(#[trigger] rest[i]) by {
            assert(rest[i] == white[i]);
        }
        lemma_trim_tail(a, rest);
        assert((a + white).drop_last() =~= a + rest);
        assert((a + white).last() == white[white.len() - 1]);
    } else {
        assert(a + white =~= a);
    }
}

proof fn lemma_drop_word(a: Seq<char>, word: Seq<char>)
    requires
        a.len() == 0 || is_white(a.last()),
        forall|k: int| 0 <= k < word.len() ==> !is_white(#[trigger] word[k]),
    ensures
        without_last_word(a + word) == a,
    decreases word.len(),
{
    if word.len() > 0 {
        let rest = word.drop_last();
        assert forall|k: int| 0 <= k < rest.len() implies !is_white(#[trigger] rest[k]) by {
            assert(rest[k] == word[k]);
        }
        lemma_drop_word(a, rest);
        assert((a + word).drop_last() =~= a + rest);
        assert((a + word).last() == word[word.len() - 1]);
    } else {
        assert(a + word =~= a);
    }
}

/// The way to the next word leads over the rest of this one and the white space behind it.
pub proof fn law_way_to_the_next_word(word: Seq<char>, white: Seq<char>, b: Seq<char>)
    requires
        forall|k: int| 0 <= k < word.len() ==> !is_white(#[trigger] word[k]),
        all_white(white),
        white.len() > 0,
        b.len() == 0 || !is_white(b[0]),
    ensures
        from_second_word(word + white + b) == b,
{
    lemma_over_word(word, white + b);
    assert(word + white + b =~= word + (white + b));
    lemma_over_white(white, b);
}

proof fn lemma_over_word(word: Seq<char>, b: Seq<char>)
    requires
        forall|k: int| 0 <= k < word.len() ==> !is_white(#[trigger] word[k]),
        b.len() > 0,
        is_white(b[0]),
    ensures
        without_first_word(word + b) == b,
    decreases word.len(),
{
    if word.len() > 0 {
        let rest = word.drop_first();
        assert forall|k: int| 0 <= k < rest.len() implies !is_white(#[trigger] rest[k]) by {
            assert(rest[k] == word[k + 1]);
        }
        lemma_over_word(rest, b);
        assert((word + b).drop_first() =~= rest + b);
        assert((word + b)[0] == word[0]);
    } else {
        assert(word + b =~= b);
    }
}

proof fn lemma_over_white(white: Seq<char>, b: Seq<char>)
    requires
        all_white(white),
        b.len() == 0 || !is_white(b[0]),
    ensures
        trim_start(white + b) == b,
    decreases white.len(),
{
    if white.len() > 0 {
        let rest = white.drop_first();
        assert forall|k: int| 0 <= k < rest.len() implies is_white(#[trigger] rest[k]) by {
            assert(rest[k] == white[k + 1]);
        }
        lemma_over_white(rest, b);
        assert((white + b).drop_first() =~= rest + b);
        assert((white + b)[0] == white[0]);
    } else {
        assert(white + b =~= b);
    }
}

/// Rooms of different accounts are different rooms, and are written down differently.
pub proof fn law_rooms_are_told_apart(a: crate::api::dto::RoomView, b: crate::api::dto::RoomView)
    ensures
        crate::app::choice::room_key(a) == crate::app::choice::room_key(b) <==> a.account_id
            == b.account_id && a.room_id == b.room_id,
{
}

/// A room that is written down without an account, or without an id, is none.
pub proof fn law_incomplete_entries(entry: Seq<char>)
    ensures
        !entry.contains(':') ==> entry_key(entry) is None,
        entry.len() > 0 && entry.last() == ':' && (forall|k: int|
            0 <= k < entry.len() - 1 ==> #[trigger] entry[k] != ':') ==> entry_key(entry) is None,
{
    if !entry.contains(':') {
        crate::laws::accounts::lemma_no_split(entry, ':');
    }
    if entry.len() > 0 && entry.last() == ':' && (forall|k: int|
        0 <= k < entry.len() - 1 ==> #[trigger] entry[k] != ':') {
        crate::laws::accounts::lemma_split_at(entry, ':', entry.len() - 1);
        assert(entry.skip(entry.len() as int).len() == 0);
    }
}

} // verus!
