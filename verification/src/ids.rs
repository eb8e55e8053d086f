//! Account, device and upload ids. An id is the 128-bit number of a UUID.

use vstd::prelude::*;

verus! {

/// The hexadecimal digit of a number below sixteen.
pub open spec fn hex_digit(n: int) -> char {
    if n < 10 {
        (48 + n) as char
    } else {
        (87 + n) as char
    }
}

/// The `k`-th of the thirty-two hexadecimal digits of an id, from the left.
pub open spec fn id_digit(id: u128, k: int) -> char {
    hex_digit(((id >> ((4 * (31 - k)) as u128)) & 0xf) as int)
}

/// The hyphenated form of an id: groups of 8, 4, 4, 4 and 12 digits.
pub open spec fn id_text(id: u128) -> Seq<char> {
    Seq::new(
        36,
        |i: int|
            if i == 8 || i == 13 || i == 18 || i == 23 {
                '-'
            } else if i < 8 {
                id_digit(id, i)
            } else if i < 13 {
                id_digit(id, i - 1)
            } else if i < 18 {
                id_digit(id, i - 2)
            } else if i < 23 {
                id_digit(id, i - 3)
            } else {
                id_digit(id, i - 4)
            },
    )
}

/// What `Uuid::parse_str` reads from a text.
pub uninterp spec fn parsed_id(text: Seq<char>) -> Option<u128>;

/// The text of an id: `Display` of `uuid::Uuid`, which writes the hyphenated
/// form with small letters.
#[verifier::external_body]
pub(crate) fn format_id(id: u128) -> (out: String)
    ensures
        out@ == id_text(id),
{
    uuid::Uuid::from_u128(id).to_string()
}

/// The id that a text holds: `uuid::Uuid::parse_str`. It accepts more than one
/// form, so its result is named; the hyphenated form of an id reads back as
/// that id.
#[verifier::external_body]
pub(crate) fn parse_id(text: &str) -> (out: Option<u128>)
    ensures
        out == parsed_id(text@),
        forall|id: u128| text@ == #[trigger] id_text(id) ==> out == Some(id),
{
    uuid::Uuid::parse_str(text).ok().map(|id| id.as_u128())
}

/// The text of an id has thirty-six characters, hexadecimal digits and hyphens.
pub proof fn lemma_id_text(id: u128)
    ensures
        id_text(id).len() == 36,
        forall|i: int|
            0 <= i < 36 ==> {
                let c = #[trigger] id_text(id)[i];
                c == '-' || '0' <= c <= '9' || 'a' <= c <= 'f'
            },
{
    assert forall|i: int| 0 <= i < 36 implies {
        let c = #[trigger] id_text(id)[i];
        c == '-' || '0' <= c <= '9' || 'a' <= c <= 'f'
    } by {
        assert forall|k: int| 0 <= k < 32 implies {
            let c = #[trigger] id_digit(id, k);
            '0' <= c <= '9' || 'a' <= c <= 'f'
        } by {
            let shifted = id >> ((4 * (31 - k)) as u128);
            assert(shifted & 0xf < 16) by (bit_vector);
        }
    }
}

} // verus!
