//! The line that the user types in.

use vstd::prelude::*;
use vstd::utf8::*;

use crate::text::{
    cat2, char_is_white, chars_of, is_white, text_of, trim_end, trim_start,
};

verus! {

/// The line, the cursor in it as a number of bytes, and the completions under
/// way.
#[derive(Debug)]
pub struct InputState {
    pub buffer: String,
    pub cursor: usize,
    pub react_tab: Option<usize>,
    pub react_command_completion: Option<(String, usize)>,
    pub partial_room_completions: Option<Vec<String>>,
    pub room_command_completion: Option<(String, usize)>,
    pub logout_command_completion: Option<(String, usize)>,
    pub recover_command_completion: Option<(String, usize)>,
    pub backup_command_completion: Option<(String, usize)>,
    pub delete_command_completion: Option<(String, usize)>,
    pub account_command_completion: Option<(String, usize)>,
    pub verify_command_completion: Option<(String, usize)>,
    pub filter_command_completion: Option<(String, usize)>,
    pub send_command_completion: Option<(String, usize)>,
}

// ---------------------------------------------------------------------------
// Bytes and characters
// ---------------------------------------------------------------------------

/// The bytes that a character takes in UTF-8.
pub open spec fn width(c: char) -> int {
    if (c as u32) <= 0x7f {
        1
    } else if (c as u32) <= 0x7ff {
        2
    } else if (c as u32) <= 0xffff {
        3
    } else {
        4
    }
}

/// The bytes that a text takes in UTF-8.
pub open spec fn byte_len(s: Seq<char>) -> int {
    encode_utf8(s).len() as int
}

fn char_width(c: char) -> (n: usize)
    ensures
        n == width(c),
{
    let v: u32 = c as u32;
    if v <= 0x7f {
        1
    } else if v <= 0x7ff {
        2
    } else if v <= 0xffff {
        3
    } else {
        4
    }
}

pub proof fn lemma_byte_len_concat(a: Seq<char>, b: Seq<char>)
    ensures
        byte_len(a + b) == byte_len(a) + byte_len(b),
    decreases a.len(),
{
    if a.len() == 0 {
        assert(a + b =~= b);
    } else {
        assert((a + b).drop_first() =~= a.drop_first() + b);
        lemma_byte_len_concat(a.drop_first(), b);
    }
}

pub proof fn lemma_byte_len_one(c: char)
    ensures
        byte_len(seq![c]) == width(c),
{
    reveal_with_fuel(encode_utf8, 2);
    char_is_scalar(c);
    assert(seq![c].drop_first() =~= Seq::<char>::empty());
}

/// The bytes of a longer part of a text are more.
proof fn lemma_take_grows(s: Seq<char>, i: int, j: int)
    requires
        0 <= i < j <= s.len(),
    ensures
        byte_len(s.take(i)) < byte_len(s.take(j)),
        byte_len(s.take(i + 1)) == byte_len(s.take(i)) + width(s[i]),
    decreases j - i,
{
    assert(s.take(i + 1) =~= s.take(i) + seq![s[i]]);
    lemma_byte_len_concat(s.take(i), seq![s[i]]);
    lemma_byte_len_one(s[i]);
    if i + 1 < j {
        lemma_take_grows(s, i + 1, j);
    }
}

proof fn lemma_take_bound(s: Seq<char>, i: int)
    requires
        0 <= i <= s.len(),
    ensures
        byte_len(s.take(i)) <= byte_len(s),
{
    assert(s.take(s.len() as int) =~= s);
    if i < s.len() {
        lemma_take_grows(s, i, s.len() as int);
    }
}

// ---------------------------------------------------------------------------
// The line as two parts
// ---------------------------------------------------------------------------

/// Whether the cursor stands after the first `k` characters.
pub open spec fn cursor_after(buffer: Seq<char>, cursor: int, k: int) -> bool {
    0 <= k <= buffer.len() && byte_len(buffer.take(k)) == cursor
}

/// Whether the cursor stands between two characters or at an end.
pub open spec fn cursor_ok(buffer: Seq<char>, cursor: int) -> bool {
    exists|k: int| #[trigger] cursor_after(buffer, cursor, k)
}

/// The number of characters before the cursor.
pub open spec fn cursor_index(buffer: Seq<char>, cursor: int) -> int {
    choose|k: int| #[trigger] cursor_after(buffer, cursor, k)
}

proof fn lemma_cursor_index(buffer: Seq<char>, cursor: int, k: int)
    requires
        cursor_after(buffer, cursor, k),
    ensures
        cursor_index(buffer, cursor) == k,
        cursor_ok(buffer, cursor),
{
    let j = cursor_index(buffer, cursor);
    assert(cursor_after(buffer, cursor, j));
    if j < k {
        lemma_take_grows(buffer, j, k);
    } else if k < j {
        lemma_take_grows(buffer, k, j);
    }
}

impl InputState {
    pub open spec fn ok(self) -> bool {
        cursor_ok(self.buffer@, self.cursor as int)
    }

    /// The text before the cursor.
    pub open spec fn before(self) -> Seq<char> {
        self.buffer@.take(cursor_index(self.buffer@, self.cursor as int))
    }

    /// The text after the cursor.
    pub open spec fn after(self) -> Seq<char> {
        self.buffer@.skip(cursor_index(self.buffer@, self.cursor as int))
    }

    /// Whether no completion is under way.
    pub open spec fn no_completion(self) -> bool {
        &&& self.react_command_completion is None
        &&& self.partial_room_completions is None
        &&& self.room_command_completion is None
        &&& self.logout_command_completion is None
        &&& self.recover_command_completion is None
        &&& self.backup_command_completion is None
        &&& self.delete_command_completion is None
        &&& self.account_command_completion is None
        &&& self.verify_command_completion is None
        &&& self.filter_command_completion is None
        &&& self.send_command_completion is None
    }

    /// The line is the text before the cursor and the text after it.
    pub proof fn lemma_parts(self)
        requires
            self.ok(),
        ensures
            self.buffer@ == self.before() + self.after(),
            self.cursor == byte_len(self.before()),
            0 <= cursor_index(self.buffer@, self.cursor as int) <= self.buffer@.len(),
    {
        let k = choose|k: int| #[trigger] cursor_after(self.buffer@, self.cursor as int, k);
        assert(cursor_after(self.buffer@, self.cursor as int, k));
        assert(self.buffer@ =~= self.before() + self.after());
    }
}

proof fn lemma_set_parts(buffer: Seq<char>, cursor: int, before: Seq<char>, after: Seq<char>)
    requires
        buffer == before + after,
        cursor == byte_len(before),
    ensures
        cursor_ok(buffer, cursor),
        buffer.take(cursor_index(buffer, cursor)) == before,
        buffer.skip(cursor_index(buffer, cursor)) == after,
{
    let k = before.len() as int;
    assert(buffer.take(k) =~= before);
    assert(buffer.skip(k) =~= after);
    assert(cursor_after(buffer, cursor, k));
    lemma_cursor_index(buffer, cursor, k);
}

/// `s` without the characters at its end that are no white space.
pub open spec fn without_last_word(s: Seq<char>) -> Seq<char>
    decreases s.len(),
{
    if s.len() > 0 && !is_white(s.last()) {
        without_last_word(s.drop_last())
    } else {
        s
    }
}

/// `s` up to the start of its last word.
pub open spec fn up_to_last_word(s: Seq<char>) -> Seq<char> {
    without_last_word(trim_end(s))
}

/// `s` without the characters at its start that are no white space.
pub open spec fn without_first_word(s: Seq<char>) -> Seq<char>
    decreases s.len(),
{
    if s.len() > 0 && !is_white(s[0]) {
        without_first_word(s.drop_first())
    } else {
        s
    }
}

/// `s` from the start of its second word on.
pub open spec fn from_second_word(s: Seq<char>) -> Seq<char> {
    trim_start(without_first_word(s))
}

/// The length of the part of `x` before `n` up to its last word.
fn last_word_start(x: &Vec<char>, n: usize) -> (i: usize)
    requires
        n <= x.len(),
    ensures
        i <= n,
        x@.take(i as int) == up_to_last_word(x@.take(n as int)),
{
    let mut i: usize = n;
    while i > 0 && char_is_white(x[i - 1])
        invariant
            i <= n <= x.len(),
            trim_end(x@.take(n as int)) == trim_end(x@.take(i as int)),
        decreases i,
    {
        assert(x@.take(i as int).last() == x@[i - 1]);
        assert(x@.take(i as int).drop_last() =~= x@.take(i - 1));
        i = i - 1;
    }
    assert(i > 0 ==> x@.take(i as int).last() == x@[i - 1]);
    assert(trim_end(x@.take(n as int)) == x@.take(i as int));
    let ghost trimmed = x@.take(i as int);
    while i > 0 && !char_is_white(x[i - 1])
        invariant
            i <= n <= x.len(),
            without_last_word(trimmed) == without_last_word(x@.take(i as int)),
        decreases i,
    {
        assert(x@.take(i as int).last() == x@[i - 1]);
        assert(x@.take(i as int).drop_last() =~= x@.take(i - 1));
        i = i - 1;
    }
    assert(i > 0 ==> x@.take(i as int).last() == x@[i - 1]);
    i
}

/// The position in `x` from `n` on where the second word starts.
fn second_word_start(x: &Vec<char>, n: usize) -> (i: usize)
    requires
        n <= x.len(),
    ensures
        n <= i <= x.len(),
        x@.skip(i as int) == from_second_word(x@.skip(n as int)),
{
    let mut i: usize = n;
    while i < x.len() && !char_is_white(x[i])
        invariant
            n <= i <= x.len(),
            without_first_word(x@.skip(n as int)) == without_first_word(x@.skip(i as int)),
        decreases x.len() - i,
    {
        assert(x@.skip(i as int)[0] == x@[i as int]);
        assert(x@.skip(i as int).drop_first() =~= x@.skip(i + 1));
        i = i + 1;
    }
    assert(i < x.len() ==> x@.skip(i as int)[0] == x@[i as int]);
    let ghost rest = x@.skip(i as int);
    assert(without_first_word(x@.skip(n as int)) == rest);
    while i < x.len() && char_is_white(x[i])
        invariant
            n <= i <= x.len(),
            trim_start(rest) == trim_start(x@.skip(i as int)),
        decreases x.len() - i,
    {
        assert(x@.skip(i as int)[0] == x@[i as int]);
        assert(x@.skip(i as int).drop_first() =~= x@.skip(i + 1));
        i = i + 1;
    }
    assert(i < x.len() ==> x@.skip(i as int)[0] == x@[i as int]);
    i
}

impl InputState {
    pub fn new() -> (out: InputState)
        ensures
            out.buffer@.len() == 0,
            out.cursor == 0,
            out.react_tab is None,
            out.no_completion(),
            out.ok(),
    {
        let out = InputState {
            buffer: String::new(),
            cursor: 0,
            react_tab: None,
            react_command_completion: None,
            partial_room_completions: None,
            room_command_completion: None,
            logout_command_completion: None,
            recover_command_completion: None,
            backup_command_completion: None,
            delete_command_completion: None,
            account_command_completion: None,
            verify_command_completion: None,
            filter_command_completion: None,
            send_command_completion: None,
        };
        proof {
            assert(out.buffer@ =~= Seq::<char>::empty() + Seq::<char>::empty());
            lemma_set_parts(out.buffer@, 0, Seq::empty(), Seq::empty());
        }
        out
    }

    /// The number of characters before the cursor.
    fn index(&self, x: &Vec<char>) -> (k: usize)
        requires
            self.ok(),
            x@ == self.buffer@,
        ensures
            k <= x.len(),
            self.before() == x@.take(k as int),
            self.after() == x@.skip(k as int),
            self.cursor == byte_len(x@.take(k as int)),
            k == cursor_index(self.buffer@, self.cursor as int),
    {
        let ghost at = cursor_index(self.buffer@, self.cursor as int);
        proof {
            self.lemma_parts();
            assert(cursor_after(self.buffer@, self.cursor as int, at)) by {
                let k = choose|k: int| #[trigger]
                    cursor_after(self.buffer@, self.cursor as int, k);
                lemma_cursor_index(self.buffer@, self.cursor as int, k);
            }
        }
        let mut done: usize = 0;
        let mut i: usize = 0;
        assert(x@.take(0) =~= Seq::<char>::empty());
        while done < self.cursor
            invariant
                0 <= i <= at <= x.len(),
                x@ == self.buffer@,
                cursor_after(self.buffer@, self.cursor as int, at),
                done == byte_len(x@.take(i as int)),
                done <= self.cursor,
            decreases self.cursor - done,
        {
            proof {
                if i < at {
                    lemma_take_grows(x@, i as int, at);
                    if i + 1 < at {
                        lemma_take_grows(x@, i + 1, at);
                    }
                }
            }
            done = done + char_width(x[i]);
            i = i + 1;
        }
        proof {
            assert(cursor_after(self.buffer@, self.cursor as int, i as int));
            lemma_cursor_index(self.buffer@, self.cursor as int, i as int);
        }
        i
    }

    /// Puts the cursor after the first `k` characters of the line.
    fn place(&mut self, x: &Vec<char>, k: usize)
        requires
            x@ == old(self).buffer@,
            k <= x.len(),
        ensures
            *final(self) == (InputState { cursor: final(self).cursor, ..*old(self) }),
            final(self).ok(),
            final(self).before() == x@.take(k as int),
            final(self).after() == x@.skip(k as int),
    {
        let total: usize = self.buffer.as_str().as_bytes().len();
        assert(total == byte_len(x@));
        let mut done: usize = 0;
        let mut i: usize = 0;
        assert(x@.take(0) =~= Seq::<char>::empty());
        while i < k
            invariant
                i <= k <= x.len(),
                done == byte_len(x@.take(i as int)),
                byte_len(x@) == total,
            decreases k - i,
        {
            proof {
                lemma_take_grows(x@, i as int, i + 1);
                lemma_take_bound(x@, i + 1);
            }
            done = done + char_width(x[i]);
            i = i + 1;
        }
        self.cursor = done;
        proof {
            assert(x@ =~= x@.take(k as int) + x@.skip(k as int));
            lemma_set_parts(x@, done as int, x@.take(k as int), x@.skip(k as int));
        }
    }

    /// Makes the line of the first `k` characters of `x` and those from `m` on,
    /// the cursor between them.
    fn cut(&mut self, x: &Vec<char>, k: usize, m: usize)
        requires
            x@ == old(self).buffer@,
            k <= m <= x.len(),
        ensures
            *final(self) == (InputState {
                buffer: final(self).buffer,
                cursor: final(self).cursor,
                ..*old(self)
            }),
            final(self).ok(),
            final(self).before() == x@.take(k as int),
            final(self).after() == x@.skip(m as int),
            final(self).buffer@ == x@.take(k as int) + x@.skip(m as int),
    {
        let mut kept: Vec<char> = Vec::new();
        let mut i: usize = 0;
        while i < k
            invariant
                i <= k <= m <= x.len(),
                kept@ == x@.take(i as int),
            decreases k - i,
        {
            kept.push(x[i]);
            assert(x@.take(i + 1) =~= x@.take(i as int).push(x@[i as int]));
            i = i + 1;
        }
        let mut j: usize = m;
        assert(x@.subrange(m as int, m as int) =~= Seq::<char>::empty());
        assert(kept@ =~= x@.take(k as int) + x@.subrange(m as int, m as int));
        while j < x.len()
            invariant
                k <= m <= j <= x.len(),
                kept@ == x@.take(k as int) + x@.subrange(m as int, j as int),
            decreases x.len() - j,
        {
            kept.push(x[j]);
            assert(x@.subrange(m as int, j + 1) =~= x@.subrange(m as int, j as int).push(
                x@[j as int],
            ));
            assert(kept@ =~= x@.take(k as int) + x@.subrange(m as int, j + 1));
            j = j + 1;
        }
        assert(x@.subrange(m as int, j as int) =~= x@.skip(m as int));
        self.buffer = text_of(kept.as_slice());
        proof {
            lemma_byte_len_concat(x@.take(k as int), x@.skip(k as int));
            assert(x@ =~= x@.take(k as int) + x@.skip(k as int));
            assert(x@.skip(k as int) =~= x@.subrange(k as int, m as int) + x@.skip(m as int));
            lemma_byte_len_concat(x@.subrange(k as int, m as int), x@.skip(m as int));
            lemma_byte_len_concat(x@.take(k as int), x@.skip(m as int));
            assert(kept@.take(k as int) =~= x@.take(k as int));
            assert(kept@.skip(k as int) =~= x@.skip(m as int));
        }
        self.place(&kept, k);
    }

    /// Ends every completion. Each edit of the line does so.
    pub fn reset_completion_state(&mut self)
        ensures
            final(self).no_completion(),
            final(self).buffer == old(self).buffer,
            final(self).cursor == old(self).cursor,
            final(self).react_tab == old(self).react_tab,
    {
        self.react_command_completion = None;
        self.partial_room_completions = None;
        self.room_command_completion = None;
        self.logout_command_completion = None;
        self.recover_command_completion = None;
        self.backup_command_completion = None;
        self.delete_command_completion = None;
        self.account_command_completion = None;
        self.verify_command_completion = None;
        self.filter_command_completion = None;
        self.send_command_completion = None;
    }

    /// Puts `text` at the cursor, and the cursor behind it.
    pub fn insert_str(&mut self, text: &str)
        requires
            old(self).ok(),
        ensures
            final(self).ok(),
            final(self).before() == old(self).before() + text@,
            final(self).after() == old(self).after(),
            final(self).no_completion(),
            final(self).react_tab == old(self).react_tab,
    {
        let x = chars_of(self.buffer.as_str());
        let k: usize = self.index(&x);
        self.reset_completion_state();
        let head = self.buffer.as_str().substring_char(0, k);
        let tail = self.buffer.as_str().substring_char(k, x.len());
        let start = cat2(head, text);
        let line = cat2(start.as_str(), tail);
        let ghost before = old(self).before();
        let ghost after = old(self).after();
        proof {
            old(self).lemma_parts();
            assert(head@ =~= before);
            assert(tail@ =~= after);
            lemma_byte_len_concat(before, after);
            lemma_byte_len_concat(before, text@);
            lemma_byte_len_concat(before + text@, after);
        }
        let y = chars_of(line.as_str());
        self.buffer = line;
        let n: usize = start.as_str().unicode_len();
        proof {
            assert(y@.take(n as int) =~= before + text@);
            assert(y@.skip(n as int) =~= after);
        }
        self.place(&y, n);
    }

    pub fn insert_char(&mut self, ch: char)
        requires
            old(self).ok(),
        ensures
            final(self).ok(),
            final(self).before() == old(self).before().push(ch),
            final(self).after() == old(self).after(),
            final(self).no_completion(),
            final(self).react_tab == old(self).react_tab,
    {
        let mut text = String::new();
        text.push(ch);
        proof {
            assert(text@ =~= seq![ch]);
            lemma_byte_len_one(ch);
            assert(old(self).before() + text@ =~= old(self).before().push(ch));
        }
        self.insert_str(text.as_str());
    }

    /// Takes the character before the cursor away.
    pub fn backspace(&mut self)
        requires
            old(self).ok(),
        ensures
            final(self).ok(),
            final(self).before() == (if old(self).before().len() > 0 {
                old(self).before().drop_last()
            } else {
                old(self).before()
            }),
            final(self).after() == old(self).after(),
            final(self).no_completion(),
            final(self).react_tab == old(self).react_tab,
    {
        let x = chars_of(self.buffer.as_str());
        let k: usize = self.index(&x);
        self.reset_completion_state();
        if k == 0 {
            return;
        }
        self.cut(&x, k - 1, k);
        assert(x@.take(k - 1) =~= x@.take(k as int).drop_last());
    }

    /// Takes the character after the cursor away.
    pub fn delete_forward(&mut self)
        requires
            old(self).ok(),
        ensures
            final(self).ok(),
            final(self).before() == old(self).before(),
            final(self).after() == (if old(self).after().len() > 0 {
                old(self).after().drop_first()
            } else {
                old(self).after()
            }),
            final(self).no_completion(),
            final(self).react_tab == old(self).react_tab,
    {
        let x = chars_of(self.buffer.as_str());
        let k: usize = self.index(&x);
        self.reset_completion_state();
        if k == x.len() {
            return;
        }
        self.cut(&x, k, k + 1);
        assert(x@.skip(k + 1) =~= x@.skip(k as int).drop_first());
    }

    pub fn move_cursor_to_start(&mut self)
        ensures
            *final(self) == (InputState { cursor: 0, ..*old(self) }),
            final(self).ok(),
            final(self).before().len() == 0,
            final(self).after() == old(self).buffer@,
    {
        self.cursor = 0;
        proof {
            assert(self.buffer@ =~= Seq::<char>::empty() + self.buffer@);
            lemma_set_parts(self.buffer@, 0, Seq::empty(), self.buffer@);
        }
    }

    pub fn move_cursor_to_end(&mut self)
        ensures
            *final(self) == (InputState { cursor: final(self).cursor, ..*old(self) }),
            final(self).ok(),
            final(self).before() == old(self).buffer@,
            final(self).after().len() == 0,
    {
        let x = chars_of(self.buffer.as_str());
        self.place(&x, x.len());
        assert(x@.take(x@.len() as int) =~= x@);
    }

    pub fn move_cursor_left(&mut self)
        requires
            old(self).ok(),
        ensures
            *final(self) == (InputState { cursor: final(self).cursor, ..*old(self) }),
            final(self).ok(),
            final(self).before() == (if old(self).before().len() > 0 {
                old(self).before().drop_last()
            } else {
                old(self).before()
            }),
    {
        let x = chars_of(self.buffer.as_str());
        let k: usize = self.index(&x);
        if k == 0 {
            return;
        }
        self.place(&x, k - 1);
        assert(x@.take(k - 1) =~= x@.take(k as int).drop_last());
    }

    pub fn move_cursor_right(&mut self)
        requires
            old(self).ok(),
        ensures
            *final(self) == (InputState { cursor: final(self).cursor, ..*old(self) }),
            final(self).ok(),
            final(self).after() == (if old(self).after().len() > 0 {
                old(self).after().drop_first()
            } else {
                old(self).after()
            }),
    {
        let x = chars_of(self.buffer.as_str());
        let k: usize = self.index(&x);
        if k == x.len() {
            return;
        }
        self.place(&x, k + 1);
        assert(x@.skip(k + 1) =~= x@.skip(k as int).drop_first());
    }

    /// Takes the word before the cursor away, and the white space behind it.
    pub fn delete_word_back(&mut self)
        requires
            old(self).ok(),
        ensures
            final(self).ok(),
            final(self).before() == up_to_last_word(old(self).before()),
            final(self).after() == old(self).after(),
            final(self).no_completion(),
            final(self).react_tab == old(self).react_tab,
    {
        let x = chars_of(self.buffer.as_str());
        let k: usize = self.index(&x);
        self.reset_completion_state();
        let i: usize = last_word_start(&x, k);
        self.cut(&x, i, k);
    }

    pub fn move_cursor_word_left(&mut self)
        requires
            old(self).ok(),
        ensures
            *final(self) == (InputState { cursor: final(self).cursor, ..*old(self) }),
            final(self).ok(),
            final(self).before() == up_to_last_word(old(self).before()),
    {
        let x = chars_of(self.buffer.as_str());
        let k: usize = self.index(&x);
        let i: usize = last_word_start(&x, k);
        self.place(&x, i);
    }

    pub fn move_cursor_word_right(&mut self)
        requires
            old(self).ok(),
        ensures
            *final(self) == (InputState { cursor: final(self).cursor, ..*old(self) }),
            final(self).ok(),
            final(self).after() == from_second_word(old(self).after()),
    {
        let x = chars_of(self.buffer.as_str());
        let k: usize = self.index(&x);
        let i: usize = second_word_start(&x, k);
        self.place(&x, i);
    }

    /// Empties the line.
    pub fn clear(&mut self)
        ensures
            final(self).buffer@.len() == 0,
            final(self).cursor == 0,
            final(self).ok(),
            *final(self) == (InputState {
                buffer: final(self).buffer,
                cursor: 0,
                ..*old(self)
            }),
    {
        self.buffer = String::new();
        self.move_cursor_to_start();
    }

    /// Replaces the line and puts the cursor at its end.
    pub fn set(&mut self, text: String)
        ensures
            final(self).buffer == text,
            final(self).ok(),
            final(self).before() == text@,
            *final(self) == (InputState {
                buffer: text,
                cursor: final(self).cursor,
                ..*old(self)
            }),
    {
        self.buffer = text;
        self.move_cursor_to_end();
    }
}

/// A character typed and taken back leaves the line as it was.
pub proof fn law_typed_and_taken_back(before: Seq<char>, after: Seq<char>, ch: char)
    ensures
        before.push(ch).drop_last() + after == before + after,
{
    assert(before.push(ch).drop_last() =~= before);
}

/// A step by words never leaves the line, and going left it ends at its start or
/// behind white space.
pub proof fn law_word_start(s: Seq<char>)
    ensures
        up_to_last_word(s).is_prefix_of(s),
        up_to_last_word(s).len() > 0 ==> is_white(up_to_last_word(s).last()),
{
    lemma_trim_end_prefix(s);
    lemma_without_last_word(trim_end(s));
}

proof fn lemma_trim_end_prefix(s: Seq<char>)
    ensures
        trim_end(s).is_prefix_of(s),
    decreases s.len(),
{
    if s.len() > 0 && is_white(s.last()) {
        lemma_trim_end_prefix(s.drop_last());
    }
}

proof fn lemma_without_last_word(s: Seq<char>)
    ensures
        without_last_word(s).is_prefix_of(s),
        without_last_word(s).len() > 0 ==> is_white(without_last_word(s).last()),
    decreases s.len(),
{
    if s.len() > 0 && !is_white(s.last()) {
        lemma_without_last_word(s.drop_last());
    }
}

} // verus!
