//! Text operations with exact contracts over sequences of characters.

use vstd::prelude::*;

verus! {

/// Appends one character: `String::push`.
pub assume_specification[ String::push ](s: &mut String, c: char)
    ensures
        final(s)@ == old(s)@.push(c),
;

/// What `str::to_lowercase` makes of a text: the Unicode mapping, which does
/// not depend on the locale.
pub uninterp spec fn unicode_lowercase(s: Seq<char>) -> Seq<char>;

pub open spec fn all_ascii(s: Seq<char>) -> bool {
    forall|i: int| 0 <= i < s.len() ==> (#[trigger] s[i]) as u32 <= 127
}

/// The text in lower case. Of an ASCII text it is the text with its capitals turned into
/// small letters.
pub open spec fn lowercase(s: Seq<char>) -> Seq<char> {
    if all_ascii(s) {
        ascii_lowercase(s)
    } else {
        unicode_lowercase(s)
    }
}

/// The text in lower case: `str::to_lowercase`. What it makes of an ASCII text is stated,
/// what it makes of any other is named.
#[verifier::external_body]
pub(crate) fn to_lowercase(s: &str) -> (out: String)
    ensures
        out@ == unicode_lowercase(s@),
        out@ == lowercase(s@),
{
    s.to_lowercase()
}

// ---------------------------------------------------------------------------
// Characters
// ---------------------------------------------------------------------------

/// Whether `c` has the Unicode property White_Space.
pub open spec fn is_white(c: char) -> bool {
    ||| 0x09 <= c as u32 <= 0x0d
    ||| c as u32 == 0x20
    ||| c as u32 == 0x85
    ||| c as u32 == 0xa0
    ||| c as u32 == 0x1680
    ||| 0x2000 <= c as u32 <= 0x200a
    ||| c as u32 == 0x2028
    ||| c as u32 == 0x2029
    ||| c as u32 == 0x202f
    ||| c as u32 == 0x205f
    ||| c as u32 == 0x3000
}

pub fn char_is_white(c: char) -> (r: bool)
    ensures
        r == is_white(c),
{
    let n: u32 = c as u32;
    (0x09 <= n && n <= 0x0d) || n == 0x20 || n == 0x85 || n == 0xa0 || n == 0x1680 || (0x2000 <= n
        && n <= 0x200a) || n == 0x2028 || n == 0x2029 || n == 0x202f || n == 0x205f || n == 0x3000
}

/// `c` with an ASCII capital turned into its small letter.
pub open spec fn ascii_lower(c: char) -> char {
    if 'A' <= c <= 'Z' {
        ((c as u32) + 32) as char
    } else {
        c
    }
}

pub fn char_to_ascii_lower(c: char) -> (r: char)
    ensures
        r == ascii_lower(c),
{
    if 'A' <= c && c <= 'Z' {
        ((c as u8) + 32) as char
    } else {
        c
    }
}

// ---------------------------------------------------------------------------
// Building
// ---------------------------------------------------------------------------

/// The characters of `s`, in order.
pub fn chars_of(s: &str) -> (out: Vec<char>)
    ensures
        out@ == s@,
{
    let mut out: Vec<char> = Vec::new();
    for c in it: s.chars()
        invariant
            it.seq() == s@,
            out@ == s@.take(it.index() as int),
    {
        out.push(c);
    }
    out
}

/// The text made of `chars`.
pub fn text_of(chars: &[char]) -> (out: String)
    ensures
        out@ == chars@,
{
    let mut out = String::new();
    let mut i: usize = 0;
    while i < chars.len()
        invariant
            i <= chars.len(),
            out@ == chars@.take(i as int),
        decreases chars.len() - i,
    {
        out.push(chars[i]);
        i = i + 1;
    }
    out
}

pub fn cat2(a: &str, b: &str) -> (out: String)
    ensures
        out@ == a@ + b@,
{
    let mut out = a.to_owned();
    out.append(b);
    out
}

pub fn cat3(a: &str, b: &str, c: &str) -> (out: String)
    ensures
        out@ == a@ + b@ + c@,
{
    let mut out = a.to_owned();
    out.append(b);
    out.append(c);
    out
}

pub fn cat4(a: &str, b: &str, c: &str, d: &str) -> (out: String)
    ensures
        out@ == a@ + b@ + c@ + d@,
{
    let mut out = a.to_owned();
    out.append(b);
    out.append(c);
    out.append(d);
    out
}

pub fn cat5(a: &str, b: &str, c: &str, d: &str, e: &str) -> (out: String)
    ensures
        out@ == a@ + b@ + c@ + d@ + e@,
{
    let mut out = a.to_owned();
    out.append(b);
    out.append(c);
    out.append(d);
    out.append(e);
    out
}

/// The views of the items of a list.
pub open spec fn views<T: View>(items: Seq<T>) -> Seq<T::V> {
    Seq::new(items.len(), |i: int| items[i]@)
}

/// The texts of `parts` one after the other, `sep` between two.
pub open spec fn joined(parts: Seq<Seq<char>>, sep: Seq<char>) -> Seq<char>
    decreases parts.len(),
{
    if parts.len() == 0 {
        Seq::empty()
    } else if parts.len() == 1 {
        parts[0]
    } else {
        joined(parts.drop_last(), sep) + sep + parts.last()
    }
}

pub fn join(parts: &[String], sep: &str) -> (out: String)
    ensures
        out@ == joined(views(parts@), sep@),
{
    let mut out = String::new();
    let mut i: usize = 0;
    while i < parts.len()
        invariant
            i <= parts.len(),
            out@ == joined(views(parts@).take(i as int), sep@),
        decreases parts.len() - i,
    {
        let ghost seen = views(parts@).take(i + 1);
        assert(seen.drop_last() =~= views(parts@).take(i as int));
        assert(seen.last() == parts@[i as int]@);
        if i > 0 {
            out.append(sep);
        } else {
            assert(out@ =~= Seq::<char>::empty());
            assert(Seq::<char>::empty() + parts@[0]@ =~= parts@[0]@);
        }
        out.append(parts[i].as_str());
        i = i + 1;
    }
    assert(views(parts@).take(i as int) =~= views(parts@));
    out
}

/// `n` copies of `c`.
pub fn repeat_char(c: char, n: usize) -> (out: String)
    ensures
        out@ == Seq::new(n as nat, |i: int| c),
{
    let mut out = String::new();
    let mut i: usize = 0;
    while i < n
        invariant
            i <= n,
            out@ == Seq::new(i as nat, |k: int| c),
        decreases n - i,
    {
        out.push(c);
        i = i + 1;
    }
    out
}

pub fn copy_option(s: &Option<String>) -> (out: Option<String>)
    ensures
        out is Some == s is Some,
        out is Some ==> out->0@ == s->0@,
{
    match s {
        Some(t) => Some(t.clone()),
        None => None,
    }
}

pub open spec fn option_view(s: Option<String>) -> Option<Seq<char>> {
    match s {
        Some(t) => Some(t@),
        None => None,
    }
}

pub open spec fn option_str_view(s: Option<&str>) -> Option<Seq<char>> {
    match s {
        Some(t) => Some(t@),
        None => None,
    }
}

pub fn option_str(s: &Option<String>) -> (out: Option<&str>)
    ensures
        option_str_view(out) == option_view(*s),
{
    match s {
        Some(t) => Some(t.as_str()),
        None => None,
    }
}

// ---------------------------------------------------------------------------
// Comparing and searching
// ---------------------------------------------------------------------------

/// Whether two texts hold the same characters.
pub fn same_text(a: &str, b: &str) -> (r: bool)
    ensures
        r == (a@ == b@),
{
    let x = chars_of(a);
    let y = chars_of(b);
    same_chars(x.as_slice(), y.as_slice())
}

/// Whether a text is in a list.
pub fn is_listed(list: &[String], text: &str) -> (r: bool)
    ensures
        r == views(list@).contains(text@),
{
    let mut i: usize = 0;
    while i < list.len()
        invariant
            i <= list.len(),
            forall|k: int| 0 <= k < i ==> (#[trigger] views(list@)[k]) != text@,
        decreases list.len() - i,
    {
        if same_text(list[i].as_str(), text) {
            assert(views(list@)[i as int] == text@);
            return true;
        }
        i = i + 1;
    }
    false
}

pub fn same_chars(x: &[char], y: &[char]) -> (r: bool)
    ensures
        r == (x@ == y@),
{
    if x.len() != y.len() {
        return false;
    }
    let mut i: usize = 0;
    while i < x.len()
        invariant
            i <= x.len(),
            x.len() == y.len(),
            forall|k: int| 0 <= k < i ==> x@[k] == y@[k],
        decreases x.len() - i,
    {
        if x[i] != y[i] {
            return false;
        }
        i = i + 1;
    }
    assert(x@ =~= y@);
    true
}

pub fn same_option(a: Option<&str>, b: Option<&str>) -> (r: bool)
    ensures
        r == (option_str_view(a) == option_str_view(b)),
{
    match (a, b) {
        (Some(x), Some(y)) => same_text(x, y),
        (None, None) => true,
        _ => false,
    }
}

/// Whether `s` holds `part` at position `at`.
pub open spec fn holds_at(s: Seq<char>, part: Seq<char>, at: int) -> bool {
    0 <= at && at + part.len() <= s.len() && s.subrange(at, at + part.len()) == part
}

pub fn chars_hold_at(s: &[char], part: &[char], at: usize) -> (r: bool)
    requires
        at <= s.len(),
    ensures
        r == holds_at(s@, part@, at as int),
{
    if part.len() > s.len() - at {
        return false;
    }
    let mut i: usize = 0;
    while i < part.len()
        invariant
            i <= part.len(),
            at + part.len() <= s.len(),
            forall|k: int| 0 <= k < i ==> s@[at + k] == part@[k],
        decreases part.len() - i,
    {
        if s[at + i] != part[i] {
            assert(s@.subrange(at as int, at + part.len())[i as int] != part@[i as int]);
            return false;
        }
        i = i + 1;
    }
    assert(s@.subrange(at as int, at + part.len()) =~= part@);
    true
}

/// Whether `s` begins with `prefix`.
pub open spec fn begins(s: Seq<char>, prefix: Seq<char>) -> bool {
    holds_at(s, prefix, 0)
}

pub fn text_begins(s: &str, prefix: &str) -> (r: bool)
    ensures
        r == begins(s@, prefix@),
{
    let x = chars_of(s);
    let y = chars_of(prefix);
    chars_hold_at(x.as_slice(), y.as_slice(), 0)
}

/// Whether `part` stands somewhere in `s`.
pub open spec fn has_part(s: Seq<char>, part: Seq<char>) -> bool {
    exists|at: int| #[trigger] holds_at(s, part, at)
}

pub fn text_has_part(s: &str, part: &str) -> (r: bool)
    ensures
        r == has_part(s@, part@),
{
    let x = chars_of(s);
    let y = chars_of(part);
    let mut at: usize = 0;
    while at < x.len()
        invariant
            at <= x.len(),
            x@ == s@,
            y@ == part@,
            forall|k: int| 0 <= k < at ==> !#[trigger] holds_at(s@, part@, k),
        decreases x.len() - at,
    {
        if chars_hold_at(x.as_slice(), y.as_slice(), at) {
            return true;
        }
        at = at + 1;
    }
    chars_hold_at(x.as_slice(), y.as_slice(), at)
}

/// The first position of `c` in `s`, or the length of `s`.
pub open spec fn find_char(s: Seq<char>, c: char) -> int
    decreases s.len(),
{
    if s.len() == 0 {
        0
    } else if s[0] == c {
        0
    } else {
        1 + find_char(s.drop_first(), c)
    }
}

pub proof fn lemma_find_char(s: Seq<char>, c: char, at: int)
    requires
        0 <= at <= s.len(),
        forall|k: int| 0 <= k < at ==> s[k] != c,
        at < s.len() ==> s[at] == c,
    ensures
        find_char(s, c) == at,
    decreases s.len(),
{
    if s.len() > 0 && at > 0 {
        assert(s[0] != c);
        lemma_find_char(s.drop_first(), c, at - 1);
    }
}

pub fn find_char_in(s: &[char], c: char) -> (at: usize)
    ensures
        at <= s.len(),
        at as int == find_char(s@, c),
        at < s.len() ==> s@[at as int] == c,
        forall|k: int| 0 <= k < at ==> s@[k] != c,
{
    let mut i: usize = 0;
    while i < s.len()
        invariant
            i <= s.len(),
            forall|k: int| 0 <= k < i ==> s@[k] != c,
        decreases s.len() - i,
    {
        if s[i] == c {
            proof {
                lemma_find_char(s@, c, i as int);
            }
            return i;
        }
        i = i + 1;
    }
    proof {
        lemma_find_char(s@, c, i as int);
    }
    i
}

/// The text before the first `c` and the text after it.
pub open spec fn split_once(s: Seq<char>, c: char) -> Option<(Seq<char>, Seq<char>)> {
    let at = find_char(s, c);
    if at < s.len() {
        Some((s.take(at), s.skip(at + 1)))
    } else {
        None
    }
}

pub fn split_text_once<'a>(s: &'a str, c: char) -> (out: Option<(&'a str, &'a str)>)
    ensures
        match out {
            Some((a, b)) => split_once(s@, c) == Some((a@, b@)),
            None => split_once(s@, c) is None,
        },
{
    let x = chars_of(s);
    let at: usize = find_char_in(x.as_slice(), c);
    if at < x.len() {
        let a = s.substring_char(0, at);
        let b = s.substring_char(at + 1, x.len());
        assert(a@ =~= s@.take(at as int));
        assert(b@ =~= s@.skip(at + 1));
        Some((a, b))
    } else {
        None
    }
}

/// `s` without `prefix` at its start.
pub open spec fn without_prefix(s: Seq<char>, prefix: Seq<char>) -> Option<Seq<char>> {
    if begins(s, prefix) {
        Some(s.skip(prefix.len() as int))
    } else {
        None
    }
}

pub fn strip_text_prefix<'a>(s: &'a str, prefix: &str) -> (out: Option<&'a str>)
    ensures
        option_str_view(out) == without_prefix(s@, prefix@),
{
    let x = chars_of(s);
    let y = chars_of(prefix);
    if chars_hold_at(x.as_slice(), y.as_slice(), 0) {
        let r = s.substring_char(y.len(), x.len());
        assert(r@ =~= s@.skip(prefix@.len() as int));
        Some(r)
    } else {
        None
    }
}

pub fn strip_char_prefix<'a>(s: &'a str, c: char) -> (out: Option<&'a str>)
    ensures
        option_str_view(out) == without_prefix(s@, seq![c]),
{
    let x = chars_of(s);
    if x.len() > 0 && x[0] == c {
        let r = s.substring_char(1, x.len());
        assert(r@ =~= s@.skip(1));
        assert(s@.subrange(0, 1) =~= seq![c]);
        Some(r)
    } else {
        assert(s@.len() > 0 ==> s@.subrange(0, 1)[0] == s@[0]);
        None
    }
}

// ---------------------------------------------------------------------------
// Trimming
// ---------------------------------------------------------------------------

pub open spec fn trim_start(s: Seq<char>) -> Seq<char>
    decreases s.len(),
{
    if s.len() > 0 && is_white(s[0]) {
        trim_start(s.drop_first())
    } else {
        s
    }
}

pub open spec fn trim_end(s: Seq<char>) -> Seq<char>
    decreases s.len(),
{
    if s.len() > 0 && is_white(s.last()) {
        trim_end(s.drop_last())
    } else {
        s
    }
}

/// `s` without white space at its two ends.
pub open spec fn trim(s: Seq<char>) -> Seq<char> {
    trim_end(trim_start(s))
}

/// Whether `s` is empty or holds white space alone.
pub open spec fn is_blank(s: Seq<char>) -> bool {
    trim(s).len() == 0
}

fn start_of(x: &[char]) -> (from: usize)
    ensures
        from <= x.len(),
        trim_start(x@) == x@.skip(from as int),
{
    let mut from: usize = 0;
    assert(x@.skip(0) =~= x@);
    while from < x.len() && char_is_white(x[from])
        invariant
            from <= x.len(),
            trim_start(x@) == trim_start(x@.skip(from as int)),
        decreases x.len() - from,
    {
        assert(x@.skip(from as int)[0] == x@[from as int]);
        assert(x@.skip(from as int).drop_first() =~= x@.skip(from + 1));
        from = from + 1;
    }
    assert(from < x.len() ==> x@.skip(from as int)[0] == x@[from as int]);
    from
}

fn end_of(x: &[char], from: usize) -> (to: usize)
    requires
        from <= x.len(),
    ensures
        from <= to <= x.len(),
        trim_end(x@.skip(from as int)) == x@.subrange(from as int, to as int),
{
    let mut to: usize = x.len();
    assert(x@.subrange(from as int, to as int) =~= x@.skip(from as int));
    while from < to && char_is_white(x[to - 1])
        invariant
            from <= to <= x.len(),
            trim_end(x@.skip(from as int)) == trim_end(x@.subrange(from as int, to as int)),
        decreases to,
    {
        assert(x@.subrange(from as int, to as int).last() == x@[to - 1]);
        assert(x@.subrange(from as int, to as int).drop_last() =~= x@.subrange(
            from as int,
            to - 1,
        ));
        to = to - 1;
    }
    assert(from < to ==> x@.subrange(from as int, to as int).last() == x@[to - 1]);
    to
}

pub fn trim_text(s: &str) -> (out: &str)
    ensures
        out@ == trim(s@),
{
    let x = chars_of(s);
    let from: usize = start_of(x.as_slice());
    let to: usize = end_of(x.as_slice(), from);
    s.substring_char(from, to)
}

pub fn trim_text_start(s: &str) -> (out: &str)
    ensures
        out@ == trim_start(s@),
{
    let x = chars_of(s);
    let from: usize = start_of(x.as_slice());
    assert(x@.skip(from as int) =~= x@.subrange(from as int, x@.len() as int));
    s.substring_char(from, x.len())
}

pub fn trim_text_end(s: &str) -> (out: &str)
    ensures
        out@ == trim_end(s@),
{
    let x = chars_of(s);
    let to: usize = end_of(x.as_slice(), 0);
    assert(x@.skip(0) =~= x@);
    s.substring_char(0, to)
}

pub fn text_is_blank(s: &str) -> (r: bool)
    ensures
        r == is_blank(s@),
{
    trim_text(s).is_empty()
}

/// `s` without the characters `c` at its end.
pub open spec fn trim_end_char(s: Seq<char>, c: char) -> Seq<char>
    decreases s.len(),
{
    if s.len() > 0 && s.last() == c {
        trim_end_char(s.drop_last(), c)
    } else {
        s
    }
}

pub fn trim_text_end_char(s: &str, c: char) -> (out: &str)
    ensures
        out@ == trim_end_char(s@, c),
{
    let x = chars_of(s);
    let mut to: usize = x.len();
    assert(x@.take(to as int) =~= x@);
    while to > 0 && x[to - 1] == c
        invariant
            to <= x.len(),
            trim_end_char(x@, c) == trim_end_char(x@.take(to as int), c),
        decreases to,
    {
        assert(x@.take(to as int).drop_last() =~= x@.take(to - 1));
        to = to - 1;
    }
    assert(to > 0 ==> x@.take(to as int).last() == x@[to - 1]);
    s.substring_char(0, to)
}

/// `s` without the characters `c` at its start.
pub open spec fn trim_start_char(s: Seq<char>, c: char) -> Seq<char>
    decreases s.len(),
{
    if s.len() > 0 && s[0] == c {
        trim_start_char(s.drop_first(), c)
    } else {
        s
    }
}

pub fn trim_text_start_char(s: &str, c: char) -> (out: &str)
    ensures
        out@ == trim_start_char(s@, c),
{
    let x = chars_of(s);
    let mut from: usize = 0;
    assert(x@.skip(0) =~= x@);
    while from < x.len() && x[from] == c
        invariant
            from <= x.len(),
            trim_start_char(x@, c) == trim_start_char(x@.skip(from as int), c),
        decreases x.len() - from,
    {
        assert(x@.skip(from as int).drop_first() =~= x@.skip(from + 1));
        from = from + 1;
    }
    assert(from < x.len() ==> x@.skip(from as int)[0] == x@[from as int]);
    assert(x@.skip(from as int) =~= x@.subrange(from as int, x@.len() as int));
    s.substring_char(from, x.len())
}

// ---------------------------------------------------------------------------
// Case
// ---------------------------------------------------------------------------

/// `s` with its ASCII capitals turned into small letters.
pub open spec fn ascii_lowercase(s: Seq<char>) -> Seq<char> {
    Seq::new(s.len(), |i: int| ascii_lower(s[i]))
}

pub fn to_ascii_lowercase(s: &str) -> (out: String)
    ensures
        out@ == ascii_lowercase(s@),
{
    let x = chars_of(s);
    let mut out = String::new();
    let mut i: usize = 0;
    while i < x.len()
        invariant
            i <= x.len(),
            x@ == s@,
            out@ == ascii_lowercase(s@).take(i as int),
        decreases x.len() - i,
    {
        out.push(char_to_ascii_lower(x[i]));
        i = i + 1;
    }
    assert(ascii_lowercase(s@).take(i as int) =~= ascii_lowercase(s@));
    out
}

/// Whether two texts are equal but for the case of ASCII letters.
pub open spec fn same_ignoring_case(a: Seq<char>, b: Seq<char>) -> bool {
    ascii_lowercase(a) == ascii_lowercase(b)
}

pub fn same_text_ignoring_case(a: &str, b: &str) -> (r: bool)
    ensures
        r == same_ignoring_case(a@, b@),
{
    let x = to_ascii_lowercase(a);
    let y = to_ascii_lowercase(b);
    x == y
}

// ---------------------------------------------------------------------------
// Numbers
// ---------------------------------------------------------------------------

pub open spec fn digit(d: int) -> char {
    (48 + d) as char
}

/// `n` in decimal.
pub open spec fn decimal(n: nat) -> Seq<char>
    decreases n,
{
    if n < 10 {
        seq![digit(n as int)]
    } else {
        decimal(n / 10).push(digit((n % 10) as int))
    }
}

pub open spec fn decimal_int(n: int) -> Seq<char> {
    if n < 0 {
        seq!['-'] + decimal((-n) as nat)
    } else {
        decimal(n as nat)
    }
}

pub fn decimal_u64(n: u64) -> (out: String)
    ensures
        out@ == decimal(n as nat),
    decreases n,
{
    let d: u8 = (n % 10) as u8;
    let c = (48 + d) as char;
    if n < 10 {
        let mut out = String::new();
        out.push(c);
        out
    } else {
        let mut out = decimal_u64(n / 10);
        out.push(c);
        out
    }
}

pub fn decimal_usize(n: usize) -> (out: String)
    ensures
        out@ == decimal(n as nat),
{
    decimal_u64(n as u64)
}

pub fn decimal_i64(n: i64) -> (out: String)
    ensures
        out@ == decimal_int(n as int),
{
    if n >= 0 {
        decimal_u64(n as u64)
    } else {
        let magnitude: u64 = if n == i64::MIN {
            0x8000_0000_0000_0000
        } else {
            (-n) as u64
        };
        let digits = decimal_u64(magnitude);
        let mut out = String::new();
        out.push('-');
        out.append(digits.as_str());
        out
    }
}

/// `s` filled up with zeros on the left to `width` characters.
pub open spec fn zero_padded(s: Seq<char>, width: nat) -> Seq<char> {
    if s.len() < width {
        Seq::new((width - s.len()) as nat, |i: int| '0') + s
    } else {
        s
    }
}

pub fn zero_pad(s: &str, width: usize) -> (out: String)
    ensures
        out@ == zero_padded(s@, width as nat),
{
    let have: usize = s.unicode_len();
    if have < width {
        let mut out = repeat_char('0', width - have);
        out.append(s);
        out
    } else {
        s.to_owned()
    }
}

/// Whether a text begins with another, the case of ASCII letters aside.
pub open spec fn begins_ignoring_case(s: Seq<char>, prefix: Seq<char>) -> bool {
    s.len() >= prefix.len() && same_ignoring_case(s.take(prefix.len() as int), prefix)
}

pub fn text_begins_ignoring_case(s: &str, prefix: &str) -> (r: bool)
    ensures
        r == begins_ignoring_case(s@, prefix@),
{
    let n: usize = prefix.unicode_len();
    if s.unicode_len() < n {
        return false;
    }
    let start = s.substring_char(0, n);
    assert(start@ =~= s@.take(n as int));
    same_text_ignoring_case(start, prefix)
}

/// Whether a text holds white space.
pub open spec fn has_white(s: Seq<char>) -> bool {
    exists|i: int| 0 <= i < s.len() && is_white(#[trigger] s[i])
}

pub fn text_has_white(s: &str) -> (r: bool)
    ensures
        r == has_white(s@),
{
    let x = chars_of(s);
    let mut i: usize = 0;
    while i < x.len()
        invariant
            i <= x.len(),
            x@ == s@,
            forall|k: int| 0 <= k < i ==> !is_white(#[trigger] s@[k]),
        decreases x.len() - i,
    {
        if char_is_white(x[i]) {
            assert(is_white(s@[i as int]));
            return true;
        }
        i = i + 1;
    }
    false
}

/// The number that decimal digits write.
pub open spec fn digits_value(s: Seq<char>) -> nat
    decreases s.len(),
{
    if s.len() == 0 {
        0
    } else {
        digits_value(s.drop_last()) * 10 + (s.last() as int - '0' as int) as nat
    }
}

pub open spec fn all_digits(s: Seq<char>) -> bool {
    forall|i: int| 0 <= i < s.len() ==> '0' <= #[trigger] s[i] <= '9'
}

/// The number that a text writes: decimal digits, with a plus sign before them or
/// without.
pub open spec fn number_of(s: Seq<char>) -> Option<nat> {
    let digits = if s.len() > 0 && s[0] == '+' {
        s.skip(1)
    } else {
        s
    };
    if digits.len() > 0 && all_digits(digits) {
        Some(digits_value(digits))
    } else {
        None
    }
}

proof fn lemma_digits_grow(s: Seq<char>, i: int)
    requires
        0 <= i <= s.len(),
    ensures
        digits_value(s.take(i)) <= digits_value(s),
    decreases s.len(),
{
    if i == s.len() {
        assert(s.take(i) =~= s);
    } else {
        assert(s.drop_last().take(i) =~= s.take(i));
        lemma_digits_grow(s.drop_last(), i);
    }
}

/// The number that a text writes, where a machine word holds it.
pub fn parse_usize(s: &str) -> (out: Option<usize>)
    ensures
        match out {
            Some(n) => number_of(s@) == Some(n as nat),
            None => number_of(s@) is None || number_of(s@)->0 > usize::MAX,
        },
{
    let x = chars_of(s);
    let start: usize = if x.len() > 0 && x[0] == '+' {
        1
    } else {
        0
    };
    let ghost digits = s@.skip(start as int);
    assert(start == 0 ==> digits =~= s@);
    if start == x.len() {
        return None;
    }
    let mut n: usize = 0;
    let mut i: usize = start;
    assert(digits.take(0) =~= Seq::<char>::empty());
    while i < x.len()
        invariant
            start <= i <= x.len(),
            x@ == s@,
            digits == s@.skip(start as int),
            digits.len() > 0,
            number_of(s@) == (if all_digits(digits) {
                Some(digits_value(digits))
            } else {
                None
            }),
            forall|k: int| 0 <= k < i - start ==> '0' <= #[trigger] digits[k] <= '9',
            n == digits_value(digits.take(i - start)),
        decreases x.len() - i,
    {
        let c = x[i];
        assert(digits[i - start] == c);
        if !('0' <= c && c <= '9') {
            return None;
        }
        let d: usize = (c as u32 - '0' as u32) as usize;
        proof {
            let t = digits.take(i - start + 1);
            assert(t.drop_last() =~= digits.take(i - start));
            assert(digits_value(t) == n * 10 + d);
            lemma_digits_grow(digits, i - start + 1);
        }
        n = match n.checked_mul(10) {
            Some(m) => match m.checked_add(d) {
                Some(v) => v,
                None => return None,
            },
            None => return None,
        };
        i = i + 1;
    }
    assert(digits.take(i - start) =~= digits);
    Some(n)
}

} // verus!
