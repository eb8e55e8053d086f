//! How what the server sends is read.

use vstd::prelude::*;

use crate::api::client::{
    address_read, address_with_path, address_with_query, address_with_scheme, error_message_of,
    is_success, live_url, scheme_at, ApiErrorView,
};
use crate::api::dto::{by_name, list_of, map_of, taken, variant, EventView, Wire};
use crate::api::event::{is_message, media_label, membership_text, plain_text_of};
use crate::api::field::{
    bool_or_false_field, count_field, id_field, int_field, maybe_bool_field, maybe_text_field,
    text_field, text_or_empty_field, texts_of, texts_or_empty_field,
};
use crate::api::live::{frame_of, verification_kind, LiveFrameView, VerificationFrameKind};
use crate::app::ephemeral::texts_once;
use crate::ids::parsed_id;
use crate::json::{member_of, JsonNumberView, JsonView};

verus! {

/// An object whose only member has a key and a value.
pub open spec fn single(key: Seq<char>, value: JsonView) -> JsonView {
    JsonView::Object(seq![(key, value)])
}

proof fn lemma_single(key: Seq<char>, value: JsonView)
    ensures
        single(key, value).get(key) == Some(value),
        JsonView::Object(Seq::empty()).get(key) is None,
{
    reveal_with_fuel(member_of, 3);
    assert(seq![(key, value)].drop_last() =~= Seq::empty());
}

/// A text is read as it stands. A text that must be there is missed, and no number is taken
/// for one.
pub proof fn law_texts_are_read(key: Seq<char>, t: Seq<char>, b: bool)
    ensures
        text_field(single(key, JsonView::Text(t)), key) == Ok::<Seq<char>, Seq<char>>(t),
        text_field(JsonView::Object(Seq::empty()), key) == Err::<Seq<char>, Seq<char>>(key),
        text_field(single(key, JsonView::Null), key) is Err,
        text_field(single(key, JsonView::Bool(b)), key) is Err,
        text_or_empty_field(single(key, JsonView::Text(t)), key) == Ok::<Seq<char>, Seq<char>>(t),
        text_or_empty_field(JsonView::Object(Seq::empty()), key) == Ok::<Seq<char>, Seq<char>>(
            Seq::empty(),
        ),
        text_or_empty_field(single(key, JsonView::Null), key) is Err,
        maybe_text_field(single(key, JsonView::Text(t)), key) == Ok::<
            Option<Seq<char>>,
            Seq<char>,
        >(Some(t)),
        maybe_text_field(single(key, JsonView::Null), key) == Ok::<Option<Seq<char>>, Seq<char>>(
            None,
        ),
        maybe_text_field(JsonView::Object(Seq::empty()), key) == Ok::<
            Option<Seq<char>>,
            Seq<char>,
        >(None),
        maybe_text_field(single(key, JsonView::Bool(b)), key) is Err,
{
    lemma_single(key, JsonView::Text(t));
    lemma_single(key, JsonView::Null);
    lemma_single(key, JsonView::Bool(b));
}

/// A truth value is read as it stands, and is false or absent where it is left out.
pub proof fn law_truth_values_are_read(key: Seq<char>, b: bool, t: Seq<char>)
    ensures
        bool_or_false_field(single(key, JsonView::Bool(b)), key) == Ok::<bool, Seq<char>>(b),
        bool_or_false_field(JsonView::Object(Seq::empty()), key) == Ok::<bool, Seq<char>>(false),
        bool_or_false_field(single(key, JsonView::Text(t)), key) is Err,
        maybe_bool_field(single(key, JsonView::Bool(b)), key) == Ok::<Option<bool>, Seq<char>>(
            Some(b),
        ),
        maybe_bool_field(single(key, JsonView::Null), key) == Ok::<Option<bool>, Seq<char>>(None),
        maybe_bool_field(JsonView::Object(Seq::empty()), key) == Ok::<Option<bool>, Seq<char>>(
            None,
        ),
        maybe_bool_field(single(key, JsonView::Text(t)), key) is Err,
{
    lemma_single(key, JsonView::Text(t));
    lemma_single(key, JsonView::Null);
    lemma_single(key, JsonView::Bool(b));
}

/// A count is a number that is not negative.
pub proof fn law_counts_are_read(key: Seq<char>, n: i64, u: u64, t: Seq<char>)
    ensures
        0 <= n <= usize::MAX ==> count_field(
            single(key, JsonView::Number(JsonNumberView::Signed(n))),
            key,
        ) == Ok::<usize, Seq<char>>(n as usize),
        n < 0 ==> count_field(single(key, JsonView::Number(JsonNumberView::Signed(n))), key) is Err,
        u <= usize::MAX ==> count_field(
            single(key, JsonView::Number(JsonNumberView::Unsigned(u))),
            key,
        ) == Ok::<usize, Seq<char>>(u as usize),
        count_field(JsonView::Object(Seq::empty()), key) is Err,
        count_field(single(key, JsonView::Text(t)), key) is Err,
        int_field(single(key, JsonView::Number(JsonNumberView::Signed(n))), key) == Ok::<
            i64,
            Seq<char>,
        >(n),
        int_field(JsonView::Object(Seq::empty()), key) == Err::<i64, Seq<char>>(key),
        int_field(single(key, JsonView::Text(t)), key) is Err,
{
    lemma_single(key, JsonView::Text(t));
    lemma_single(key, JsonView::Number(JsonNumberView::Signed(n)));
    lemma_single(key, JsonView::Number(JsonNumberView::Unsigned(u)));
}

/// An id is read back from how it is written.
pub proof fn law_ids_are_read(key: Seq<char>, t: Seq<char>)
    ensures
        parsed_id(t) is Some ==> id_field(single(key, JsonView::Text(t)), key) == Ok::<
            u128,
            Seq<char>,
        >(parsed_id(t)->0),
        parsed_id(t) is None ==> id_field(single(key, JsonView::Text(t)), key) == Err::<
            u128,
            Seq<char>,
        >(key),
        id_field(JsonView::Object(Seq::empty()), key) is Err,
{
    lemma_single(key, JsonView::Text(t));
}

/// A list of texts is read item by item, in order.
pub proof fn law_lists_of_texts_are_read(texts: Seq<Seq<char>>)
    ensures
        texts_of(texts.map_values(|t: Seq<char>| JsonView::Text(t))) == Some(texts),
    decreases texts.len(),
{
    let item = |t: Seq<char>| JsonView::Text(t);
    if texts.len() > 0 {
        law_lists_of_texts_are_read(texts.drop_last());
        assert(texts.map_values(item).drop_last() =~= texts.drop_last().map_values(item));
        assert(texts.drop_last().push(texts.last()) =~= texts);
    } else {
        assert(texts =~= Seq::empty());
    }
}

/// One item that is no text spoils a list of texts.
pub proof fn law_other_items_are_refused(items: Seq<JsonView>, i: int)
    requires
        0 <= i < items.len(),
        !(items[i] is Text),
    ensures
        texts_of(items) is None,
        texts_once(items) is None,
    decreases items.len(),
{
    if i < items.len() - 1 {
        law_other_items_are_refused(items.drop_last(), i);
    }
}

/// A list that is left out is empty.
pub proof fn law_missing_list_is_empty(key: Seq<char>, t: Seq<char>)
    ensures
        texts_or_empty_field(JsonView::Object(Seq::empty()), key) == Ok::<
            Seq<Seq<char>>,
            Seq<char>,
        >(Seq::empty()),
        texts_or_empty_field(single(key, JsonView::Text(t)), key) is Err,
        texts_or_empty_field(single(key, JsonView::Array(seq![JsonView::Text(t)])), key) == Ok::<
            Seq<Seq<char>>,
            Seq<char>,
        >(seq![t]),
{
    lemma_single(key, JsonView::Text(t));
    lemma_single(key, JsonView::Array(seq![JsonView::Text(t)]));
    law_lists_of_texts_are_read(seq![t]);
    assert(seq![t].map_values(|x: Seq<char>| JsonView::Text(x)) =~= seq![JsonView::Text(t)]);
}

/// A list is read item by item: it has as many values as items, each the value of its item.
/// It is refused where an item is.
pub proof fn law_lists_are_read<T: Wire>(items: Seq<JsonView>, i: int)
    requires
        0 <= i < items.len(),
    ensures
        list_of::<T>(items) is Ok ==> list_of::<T>(items)->Ok_0.len() == items.len() && T::wire(
            items[i],
        ) == Ok::<T::V, Seq<char>>(list_of::<T>(items)->Ok_0[i]),
        T::wire(items[i]) is Err ==> list_of::<T>(items) is Err,
    decreases items.len(),
{
    lemma_list_len::<T>(items.drop_last());
    if i < items.len() - 1 {
        law_lists_are_read::<T>(items.drop_last(), i);
        assert(items.drop_last()[i] == items[i]);
    }
}

proof fn lemma_list_len<T: Wire>(items: Seq<JsonView>)
    ensures
        list_of::<T>(items) is Ok ==> list_of::<T>(items)->Ok_0.len() == items.len(),
    decreases items.len(),
{
    if items.len() > 0 {
        lemma_list_len::<T>(items.drop_last());
    }
}

/// Of the members of an object each key has a value, and of a key that stands twice the last
/// counts.
pub proof fn law_last_member_counts<T: Wire>(members: Seq<(Seq<char>, JsonView)>, i: int)
    requires
        0 <= i < members.len(),
        forall|k: int| i < k < members.len() ==> (#[trigger] members[k]).0 != members[i].0,
        map_of::<T>(members) is Ok,
    ensures
        map_of::<T>(members)->Ok_0.dom().contains(members[i].0),
        T::wire(members[i].1) == Ok::<T::V, Seq<char>>(map_of::<T>(members)->Ok_0[members[i].0]),
    decreases members.len(),
{
    if i < members.len() - 1 {
        let rest = members.drop_last();
        assert forall|k: int| i < k < rest.len() implies (#[trigger] rest[k]).0 != rest[i].0 by {
            assert(members[k].0 != members[i].0);
        }
        law_last_member_counts::<T>(rest, i);
        assert(members[members.len() - 1].0 != members[i].0);
    }
}

/// A record that is written as a list has its fields in their order.
pub proof fn law_record_as_a_list(names: Seq<Seq<char>>, items: Seq<JsonView>, least: int, i: int)
    requires
        least <= items.len() <= names.len(),
        0 <= i < items.len(),
    ensures
        by_name(JsonView::Array(items), names, least) is Object,
        ({
            let members = by_name(JsonView::Array(items), names, least)->Object_0;
            members.len() == items.len() && members[i] == (names[i], items[i])
        }),
{
}

/// Too few or too many items are no record, and an object stays as it is.
pub proof fn law_no_record(
    names: Seq<Seq<char>>,
    items: Seq<JsonView>,
    members: Seq<(Seq<char>, JsonView)>,
    least: int,
)
    ensures
        items.len() < least || items.len() > names.len() ==> by_name(
            JsonView::Array(items),
            names,
            least,
        ) == JsonView::Array(items),
        by_name(JsonView::Object(members), names, least) == JsonView::Object(members),
{
}

/// A variant is its text, or an object with it alone and nothing under it.
pub proof fn law_variants(t: Seq<char>, b: bool)
    ensures
        variant(JsonView::Text(t)) == Some(t),
        variant(single(t, JsonView::Null)) == Some(t),
        variant(single(t, JsonView::Bool(b))) is None,
        variant(JsonView::Null) is None,
{
}

/// A reply is good where its status is of the two hundreds.
pub proof fn law_good_replies(status: u16)
    ensures
        is_success(status) <==> status / 100 == 2,
{
}

/// An error is told by its code and its message. A body that holds none is told as it stands.
pub proof fn law_told_errors(
    text: Seq<char>,
    refused: Option<Seq<char>>,
    code: Seq<char>,
    message: Seq<char>,
)
    ensures
        taken(text, refused) is Err ==> error_message_of(text, refused) == text,
        taken(text, refused) == Ok::<JsonView, Seq<char>>(
            single(
                "error"@,
                JsonView::Object(
                    seq![
                        ("code"@, JsonView::Text(code)),
                        ("message"@, JsonView::Text(message)),
                    ],
                ),
            ),
        ) ==> error_message_of(text, refused) == code + ": "@ + message,
        taken(text, refused) == Ok::<JsonView, Seq<char>>(JsonView::Object(Seq::empty()))
            ==> error_message_of(text, refused) == text,
{
    let members = seq![("code"@, JsonView::Text(code)), ("message"@, JsonView::Text(message))];
    lemma_single("error"@, JsonView::Object(members));
    reveal_strlit("code");
    reveal_strlit("message");
    assert("code"@.len() == 4);
    assert("message"@.len() == 7);
    reveal_with_fuel(member_of, 4);
    assert(members.drop_last() =~= seq![("code"@, JsonView::Text(code))]);
    assert(members.drop_last().drop_last() =~= Seq::empty());
}

/// The live socket of a server stands under the same address with the scheme of sockets and
/// its own path.
pub proof fn law_live_address(base: Seq<char>, address: Seq<char>, moved: Seq<char>, e: Seq<char>)
    ensures
        address_read(base) == Err::<Seq<char>, Seq<char>>(e) ==> live_url(base) == Err::<
            Seq<char>,
            ApiErrorView,
        >(ApiErrorView::Url(e)),
        address_read(base) == Ok::<Seq<char>, Seq<char>>(address) && scheme_at(address) == Some(
            "http"@,
        ) && address_with_scheme(address, "ws"@) == Some(moved) ==> live_url(base) == Ok::<
            Seq<char>,
            ApiErrorView,
        >(address_with_query(address_with_path(moved, "/v1/ws"@), None)),
        address_read(base) == Ok::<Seq<char>, Seq<char>>(address) && scheme_at(address) == Some(
            "https"@,
        ) && address_with_scheme(address, "wss"@) == Some(moved) ==> live_url(base) == Ok::<
            Seq<char>,
            ApiErrorView,
        >(address_with_query(address_with_path(moved, "/v1/ws"@), None)),
        address_read(base) == Ok::<Seq<char>, Seq<char>>(address) && scheme_at(address) == Some(
            "ftp"@,
        ) ==> live_url(base) == Err::<Seq<char>, ApiErrorView>(
            ApiErrorView::UnsupportedScheme("ftp"@),
        ),
{
    reveal_strlit("http");
    reveal_strlit("https");
    reveal_strlit("ftp");
    assert("http"@.len() == 4);
    assert("https"@.len() == 5);
    assert("ftp"@.len() == 3);
}

/// The kinds of frames of a verification.
pub proof fn law_kinds_of_verification_frames(kind: Seq<char>)
    ensures
        verification_kind("verification.requested"@) == Some(VerificationFrameKind::Requested),
        verification_kind("verification.sas"@) == Some(VerificationFrameKind::Sas),
        verification_kind("verification.done"@) == Some(VerificationFrameKind::Done),
        verification_kind("verification.cancelled"@) == Some(VerificationFrameKind::Cancelled),
        verification_kind(kind) is Some ==> kind == "verification.requested"@ || kind
            == "verification.sas"@ || kind == "verification.done"@ || kind
            == "verification.cancelled"@,
{
    reveal_strlit("verification.requested");
    reveal_strlit("verification.sas");
    reveal_strlit("verification.done");
    reveal_strlit("verification.cancelled");
    assert("verification.requested"@.len() == 22);
    assert("verification.sas"@.len() == 16);
    assert("verification.done"@.len() == 17);
    assert("verification.cancelled"@.len() == 22);
    assert("verification.requested"@[13] == 'r');
    assert("verification.cancelled"@[13] == 'c');
}

/// A text that is no frame is told as an error.
pub proof fn law_no_frame(text: Seq<char>, refused: Seq<char>)
    ensures
        taken(text, Some(refused)) is Err ==> frame_of(text, Some(refused)) == Some(
            LiveFrameView::ProtocolError(taken(text, Some(refused))->Err_0),
        ),
{
}

/// A membership is told in words.
pub proof fn law_told_membership(who: Seq<char>)
    ensures
        membership_text(who, "join"@) == who + " joined the room"@,
        membership_text(who, "leave"@) == who + " left the room"@,
        membership_text(who, "ban"@) == who + " was banned from the room"@,
        membership_text(who, "invite"@) == who + " was invited to the room"@,
        membership_text(who, "knock"@) == who + " membership changed: "@ + "knock"@,
{
    reveal_strlit("join");
    reveal_strlit("leave");
    reveal_strlit("ban");
    reveal_strlit("invite");
    reveal_strlit("knock");
    assert("join"@.len() == 4);
    assert("leave"@.len() == 5);
    assert("ban"@.len() == 3);
    assert("invite"@.len() == 6);
    assert("knock"@.len() == 5);
    assert("knock"@[0] == 'k');
    assert("leave"@[0] == 'l');
}

/// Messages are of three types: plain, encrypted, and stickers.
pub proof fn law_what_a_message_is(event: EventView)
    ensures
        is_message(event) <==> event.event_type == "m.room.message"@ || event.event_type
            == "m.room.encrypted"@ || event.event_type == "m.sticker"@,
        media_label(event) is None && event.body is Some ==> plain_text_of(event)
            == event.body->0,
        media_label(event) is Some ==> plain_text_of(event)
            == media_label(event)->0,
        media_label(event) is None && event.body is None && event.content is None
            ==> plain_text_of(event) == "[unable to decrypt]"@,
        media_label(event) is None && event.body is None && event.content is Some
            ==> plain_text_of(event) == "["@ + event.event_type + "]"@,
{
}

} // verus!
