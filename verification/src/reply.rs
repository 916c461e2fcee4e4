//! Replies of the broker to stream reads: where the entry stands in them, and
//! which of its fields carries the payload.
use vstd::prelude::*;
#[allow(unused_imports)]
use vstd::utf8::{decode_utf8, encode_utf8, encode_utf8_decode_utf8, valid_utf8};

use crate::text::decode_strict;

verus! {

/// A reply of the broker, as far as stream entries are read from it.
#[derive(Debug, PartialEq, Eq)]
pub enum Reply {
    Array(Vec<Reply>),
    BulkString(Vec<u8>),
    Other,
}

/// What a reply says.
pub enum ReplyView {
    Array(Seq<ReplyView>),
    BulkString(Seq<u8>),
    Other,
}

/// What each of some replies says.
pub open spec fn replies_said(items: Seq<Reply>) -> Seq<ReplyView>
    decreases items,
{
    Seq::new(
        items.len(),
        |i: int|
            if 0 <= i < items.len() {
                reply_said(items[i])
            } else {
                ReplyView::Other
            },
    )
}

/// What a reply says.
pub open spec fn reply_said(reply: Reply) -> ReplyView
    decreases reply,
{
    match reply {
        Reply::Array(items) => ReplyView::Array(replies_said(items@)),
        Reply::BulkString(bytes) => ReplyView::BulkString(bytes@),
        Reply::Other => ReplyView::Other,
    }
}

impl View for Reply {
    type V = ReplyView;

    open spec fn view(&self) -> ReplyView {
        reply_said(*self)
    }
}

/// Why a stream entry cannot be taken.
#[derive(Debug, Clone, Copy, PartialEq, Eq, Structural)]
pub enum ReplyError {
    NoPayload,
    NotUtf8,
}

impl ReplyError {
    /// The error in words.
    pub fn message(&self) -> (text: &'static str)
        ensures
            text@ == match *self {
                ReplyError::NoPayload => "Stream entry has no protobuf payload field"@,
                ReplyError::NotUtf8 => "Stream entry is not valid UTF-8"@,
            },
    {
        match self {
            ReplyError::NoPayload => "Stream entry has no protobuf payload field",
            ReplyError::NotUtf8 => "Stream entry is not valid UTF-8",
        }
    }
}

/// What a part of a reply says, where there is one.
pub open spec fn part_said(part: Option<&Reply>) -> Option<ReplyView> {
    match part {
        Some(reply) => Some(reply@),
        None => None,
    }
}

/// The parts of an array.
pub open spec fn parts(reply: Option<ReplyView>) -> Option<Seq<ReplyView>> {
    match reply {
        Some(ReplyView::Array(items)) => Some(items),
        _ => None,
    }
}

/// One part of an array.
pub open spec fn part(reply: Option<ReplyView>, i: int) -> Option<ReplyView> {
    match parts(reply) {
        Some(items) if i < items.len() => Some(items[i]),
        _ => None,
    }
}

/// The bytes of a bulk string.
pub open spec fn bulk(reply: Option<ReplyView>) -> Option<Seq<u8>> {
    match reply {
        Some(ReplyView::BulkString(bytes)) => Some(bytes),
        _ => None,
    }
}

/// One part of an array.
fn part_of<'a>(reply: Option<&'a Reply>, i: usize) -> (found: Option<&'a Reply>)
    ensures
        part_said(found) == part(part_said(reply), i as int),
{
    match reply {
        Some(Reply::Array(items)) => if i < items.len() {
            Some(&items[i])
        } else {
            None
        },
        _ => None,
    }
}

/// The value that stands under a key at the front of a list of fields.
pub open spec fn front_value(fields: Seq<ReplyView>, key: Seq<u8>) -> Option<Seq<u8>> {
    if fields.len() >= 2 && fields[0] == ReplyView::BulkString(key) {
        bulk(Some(fields[1]))
    } else {
        None
    }
}

/// The first value that stands under a key in a list of keys and values.
pub open spec fn first_value(fields: Seq<ReplyView>, key: Seq<u8>) -> Option<Seq<u8>>
    decreases fields.len(),
{
    if fields.len() < 2 {
        None
    } else if front_value(fields, key) is Some {
        front_value(fields, key)
    } else {
        first_value(fields.skip(2), key)
    }
}

/// The values that stand under a key in a list of keys and values, in order.
pub open spec fn all_values(fields: Seq<ReplyView>, key: Seq<u8>) -> Seq<Seq<u8>>
    decreases fields.len(),
{
    if fields.len() < 2 {
        Seq::empty()
    } else {
        let later = all_values(fields.skip(2), key);
        match front_value(fields, key) {
            Some(value) => seq![value] + later,
            None => later,
        }
    }
}

/// Tests whether bytes are the same.
fn same_bytes(a: &Vec<u8>, b: &[u8]) -> (r: bool)
    ensures
        r == (a@ == b@),
{
    if a.len() != b.len() {
        return false;
    }
    let mut i: usize = 0;
    while i < a.len()
        invariant
            i <= a@.len(),
            a@.len() == b@.len(),
            forall|k: int| 0 <= k < i ==> a@[k] == b@[k],
        decreases a@.len() - i,
    {
        if a[i] != b[i] {
            return false;
        }
        i += 1;
    }
    assert(a@ =~= b@);
    true
}

/// The bytes themselves.
fn copy_bytes(bytes: &Vec<u8>) -> (copy: Vec<u8>)
    ensures
        copy@ == bytes@,
{
    let mut copy: Vec<u8> = Vec::new();
    let mut i: usize = 0;
    while i < bytes.len()
        invariant
            i <= bytes@.len(),
            copy@ == bytes@.take(i as int),
        decreases bytes@.len() - i,
    {
        copy.push(bytes[i]);
        i += 1;
        assert(copy@ =~= bytes@.take(i as int));
    }
    assert(bytes@.take(i as int) =~= bytes@);
    copy
}

/// The value under a key, where a key and a value are that.
fn value_under<'a>(key: &'a Reply, value: &'a Reply, wanted: &str) -> (found: Option<&'a Vec<u8>>)
    ensures
        match found {
            Some(bytes) => key@ == ReplyView::BulkString(encode_utf8(wanted@)) && value@
                == ReplyView::BulkString(bytes@),
            None => key@ != ReplyView::BulkString(encode_utf8(wanted@)) || bulk(
                Some(value@),
            ) is None,
        },
{
    match (key, value) {
        (Reply::BulkString(name), Reply::BulkString(bytes)) => if same_bytes(
            name,
            wanted.as_bytes(),
        ) {
            Some(bytes)
        } else {
            None
        },
        _ => None,
    }
}

/// The identifier of an entry.
pub open spec fn entry_id(entry: Option<ReplyView>) -> Option<Seq<u8>> {
    bulk(part(entry, 0))
}

/// The fields of an entry: keys and values in turn.
pub open spec fn entry_fields(entry: Option<ReplyView>) -> Option<Seq<ReplyView>> {
    parts(part(entry, 1))
}

/// The identifier and the payload of an entry: nothing where there is no
/// entry, and an error where it has no payload or its identifier is no text.
pub open spec fn entry_payload(entry: Option<ReplyView>) -> Result<
    Option<(Seq<char>, Seq<u8>)>,
    ReplyError,
> {
    match (entry_id(entry), entry_fields(entry)) {
        (Some(id), Some(fields)) => match first_value(fields, encode_utf8("payload"@)) {
            Some(payload) => if valid_utf8(id) {
                Ok(Some((decode_utf8(id), payload)))
            } else {
                Err(ReplyError::NotUtf8)
            },
            None => Err(ReplyError::NoPayload),
        },
        _ => Ok(None),
    }
}

/// What is known of an entry that was taken.
pub open spec fn taken(r: Result<Option<(String, Vec<u8>)>, ReplyError>) -> Result<
    Option<(Seq<char>, Seq<u8>)>,
    ReplyError,
> {
    match r {
        Ok(Some(pair)) => Ok(Some((pair.0@, pair.1@))),
        Ok(None) => Ok(None),
        Err(error) => Err(error),
    }
}

/// The identifier and the payload of an entry.
pub fn parse_entry(entry: Option<&Reply>) -> (r: Result<Option<(String, Vec<u8>)>, ReplyError>)
    ensures
        taken(r) == entry_payload(part_said(entry)),
{
    let (id, fields) = match (part_of(entry, 0), part_of(entry, 1)) {
        (Some(Reply::BulkString(id)), Some(Reply::Array(fields))) => (id, fields),
        _ => {
            return Ok(None);
        },
    };
    let ghost all = replies_said(fields@);
    let ghost key = encode_utf8("payload"@);
    let total: usize = fields.len();
    let mut i: usize = 0;
    assert(all.skip(0) =~= all);
    while i < total && total - i >= 2
        invariant
            i <= total,
            total == fields@.len(),
            all == replies_said(fields@),
            key == encode_utf8("payload"@),
            entry_id(part_said(entry)) == Some(id@),
            entry_fields(part_said(entry)) == Some(all),
            first_value(all, key) == first_value(all.skip(i as int), key),
        decreases total - i,
    {
        let ghost rest = all.skip(i as int);
        assert(rest[0] == all[i as int] && rest[1] == all[i + 1]);
        assert(rest.skip(2) =~= all.skip(i + 2));
        if let Some(payload) = value_under(&fields[i], &fields[i + 1], "payload") {
            let copy = copy_bytes(payload);
            return match decode_strict(copy_bytes(id)) {
                Some(text) => {
                    proof {
                        encode_utf8_decode_utf8(text@);
                    }
                    Ok(Some((text, copy)))
                },
                None => Err(ReplyError::NotUtf8),
            };
        }
        i += 2;
    }
    Err(ReplyError::NoPayload)
}

/// Where a stream read puts its entry: the first entry of the first stream.
pub open spec fn xread_entry(reply: ReplyView) -> Option<ReplyView> {
    part(part(part(Some(reply), 0), 1), 0)
}

/// Where a claim of stale entries puts the first that it claimed.
pub open spec fn autoclaim_entry(reply: ReplyView) -> Option<ReplyView> {
    part(part(Some(reply), 1), 0)
}

/// The identifier and the payload of the entry that a stream read gave.
pub fn parse_xread_payload(reply: &Reply) -> (r: Result<Option<(String, Vec<u8>)>, ReplyError>)
    ensures
        taken(r) == entry_payload(xread_entry(reply@)),
{
    parse_entry(part_of(part_of(part_of(Some(reply), 0), 1), 0))
}

/// The identifier and the payload of the entry that a claim gave.
pub fn parse_autoclaim_payload(reply: &Reply) -> (r: Result<
    Option<(String, Vec<u8>)>,
    ReplyError,
>)
    ensures
        taken(r) == entry_payload(autoclaim_entry(reply@)),
{
    parse_entry(part_of(part_of(Some(reply), 1), 0))
}

/// The identifier of an entry and the last value under a key, as text: nothing
/// where there is no entry or no such value, and an error where the identifier
/// or any value under the key is no text.
pub open spec fn entry_text(entry: Option<ReplyView>, key: Seq<char>) -> Result<
    Option<(Seq<char>, Seq<char>)>,
    ReplyError,
> {
    match (entry_id(entry), entry_fields(entry)) {
        (Some(id), Some(fields)) => {
            let values = all_values(fields, encode_utf8(key));
            if exists|i: int| 0 <= i < values.len() && !valid_utf8(#[trigger] values[i]) {
                Err(ReplyError::NotUtf8)
            } else if values.len() == 0 {
                Ok(None)
            } else if valid_utf8(id) {
                Ok(Some((decode_utf8(id), decode_utf8(values.last()))))
            } else {
                Err(ReplyError::NotUtf8)
            }
        },
        _ => Ok(None),
    }
}

/// What is known of a text that was taken.
pub open spec fn text_taken(r: Result<Option<(String, String)>, ReplyError>) -> Result<
    Option<(Seq<char>, Seq<char>)>,
    ReplyError,
> {
    match r {
        Ok(Some(pair)) => Ok(Some((pair.0@, pair.1@))),
        Ok(None) => Ok(None),
        Err(error) => Err(error),
    }
}

/// The values before an index of the fields, and those behind it.
proof fn lemma_values_split(fields: Seq<ReplyView>, key: Seq<u8>, i: int)
    requires
        0 <= i,
        i + 2 <= fields.len(),
        i % 2 == 0,
    ensures
        all_values(fields.take(i + 2), key) == match front_value(fields.skip(i), key) {
            Some(value) => all_values(fields.take(i), key).push(value),
            None => all_values(fields.take(i), key),
        },
    decreases i,
{
    let now = fields.take(i + 2);
    let before = fields.take(i);
    if i == 0 {
        assert(all_values(now.skip(2), key) =~= Seq::<Seq<u8>>::empty());
        assert(all_values(before, key) =~= Seq::<Seq<u8>>::empty());
        assert(front_value(now, key) == front_value(fields.skip(0), key));
        match front_value(now, key) {
            Some(value) => {
                assert(seq![value] + Seq::<Seq<u8>>::empty() =~= Seq::<Seq<u8>>::empty().push(
                    value,
                ));
            },
            None => {},
        }
    } else {
        let later = fields.skip(2);
        lemma_values_split(later, key, i - 2);
        assert(now.skip(2) =~= later.take(i));
        assert(before.skip(2) =~= later.take(i - 2));
        assert(later.skip(i - 2) =~= fields.skip(i));
        assert(front_value(now, key) == front_value(fields, key));
        assert(front_value(before, key) == front_value(fields, key));
        match (front_value(now, key), front_value(fields.skip(i), key)) {
            (Some(first), Some(value)) => {
                assert(seq![first] + all_values(later.take(i - 2), key).push(value) =~= (
                seq![first] + all_values(later.take(i - 2), key)).push(value));
            },
            _ => {},
        }
    }
}

/// The identifier of the entry that a stream read gave, and the last value
/// under a key, both as text.
pub fn parse_text_field(reply: &Reply, key: &str) -> (r: Result<
    Option<(String, String)>,
    ReplyError,
>)
    ensures
        text_taken(r) == entry_text(xread_entry(reply@), key@),
{
    let entry = part_of(part_of(part_of(Some(reply), 0), 1), 0);
    let (id, fields) = match (part_of(entry, 0), part_of(entry, 1)) {
        (Some(Reply::BulkString(id)), Some(Reply::Array(fields))) => (id, fields),
        _ => {
            return Ok(None);
        },
    };
    let ghost all = replies_said(fields@);
    let ghost wanted = encode_utf8(key@);
    let ghost values = all_values(all, wanted);
    let total: usize = fields.len();
    let mut payload: Option<String> = None;
    let mut i: usize = 0;
    assert(all.take(0).len() == 0);
    while i < total && total - i >= 2
        invariant
            i <= total,
            i % 2 == 0,
            total == fields@.len(),
            all == replies_said(fields@),
            wanted == encode_utf8(key@),
            values == all_values(all, wanted),
            entry_id(xread_entry(reply@)) == Some(id@),
            entry_fields(xread_entry(reply@)) == Some(all),
            forall|k: int|
                0 <= k < all_values(all.take(i as int), wanted).len() ==> valid_utf8(
                    #[trigger] all_values(all.take(i as int), wanted)[k],
                ),
            match payload {
                Some(text) => all_values(all.take(i as int), wanted).len() > 0 && text@
                    == decode_utf8(all_values(all.take(i as int), wanted).last()),
                None => all_values(all.take(i as int), wanted).len() == 0,
            },
        decreases total - i,
    {
        let ghost rest = all.skip(i as int);
        let ghost seen = all_values(all.take(i as int), wanted);
        proof {
            lemma_values_split(all, wanted, i as int);
        }
        assert(rest[0] == all[i as int] && rest[1] == all[i + 1]);
        if let Some(value) = value_under(&fields[i], &fields[i + 1], key) {
            match decode_strict(copy_bytes(value)) {
                Some(text) => {
                    proof {
                        encode_utf8_decode_utf8(text@);
                    }
                    payload = Some(text);
                },
                None => {
                    proof {
                        lemma_values_prefix(all, wanted, i + 2);
                        let prefix = all_values(all.take(i + 2), wanted);
                        assert(prefix == seen.push(value@));
                        assert(values[seen.len() as int] == prefix[seen.len() as int]);
                    }
                    return Err(ReplyError::NotUtf8);
                },
            }
        }
        i += 2;
    }
    proof {
        lemma_values_prefix(all, wanted, i as int);
        lemma_values_short(all, wanted, i as int);
    }
    match payload {
        Some(text) => match decode_strict(copy_bytes(id)) {
            Some(id) => {
                proof {
                    encode_utf8_decode_utf8(id@);
                }
                Ok(Some((id, text)))
            },
            None => Err(ReplyError::NotUtf8),
        },
        None => Ok(None),
    }
}

/// The values of the first fields are the first of all values.
proof fn lemma_values_prefix(fields: Seq<ReplyView>, key: Seq<u8>, i: int)
    requires
        0 <= i <= fields.len(),
        i % 2 == 0,
    ensures
        all_values(fields.take(i), key).is_prefix_of(all_values(fields, key)),
    decreases i,
{
    if i > 0 {
        let later = fields.skip(2);
        lemma_values_prefix(later, key, i - 2);
        assert(fields.take(i).skip(2) =~= later.take(i - 2));
        assert(front_value(fields.take(i), key) == front_value(fields, key));
    }
}

/// A key without a value holds none.
proof fn lemma_values_short(fields: Seq<ReplyView>, key: Seq<u8>, i: int)
    requires
        0 <= i <= fields.len(),
        i % 2 == 0,
        fields.len() - i < 2,
    ensures
        all_values(fields.take(i), key) == all_values(fields, key),
    decreases i,
{
    if i > 0 {
        let later = fields.skip(2);
        lemma_values_short(later, key, i - 2);
        assert(fields.take(i).skip(2) =~= later.take(i - 2));
        assert(front_value(fields.take(i), key) == front_value(fields, key));
    } else {
        assert(all_values(fields.take(0), key) =~= all_values(fields, key));
    }
}

/// Whether a list of keys and values has a value under a key at an index.
pub open spec fn value_stands_at(fields: Seq<ReplyView>, key: Seq<u8>, i: int) -> bool {
    &&& 0 <= i
    &&& i % 2 == 0
    &&& i + 1 < fields.len()
    &&& fields[i] == ReplyView::BulkString(key)
    &&& fields[i + 1] is BulkString
}

proof fn lemma_first_value(fields: Seq<ReplyView>, key: Seq<u8>, i: int)
    requires
        forall|k: int| 0 <= k < i ==> !#[trigger] value_stands_at(fields, key, k),
        value_stands_at(fields, key, i),
    ensures
        first_value(fields, key) == Some(fields[i + 1]->BulkString_0),
    decreases i,
{
    if i > 0 {
        assert(!value_stands_at(fields, key, 0));
        let later = fields.skip(2);
        assert forall|k: int| 0 <= k < i - 2 implies !#[trigger] value_stands_at(later, key, k) by {
            assert(!value_stands_at(fields, key, k + 2));
            if k + 1 < later.len() {
                assert(later[k] == fields[k + 2] && later[k + 1] == fields[k + 3]);
            }
        }
        assert(later[i - 2] == fields[i] && later[i - 1] == fields[i + 1]);
        assert(value_stands_at(later, key, i - 2));
        lemma_first_value(later, key, i - 2);
    }
}

proof fn lemma_no_value(fields: Seq<ReplyView>, key: Seq<u8>)
    requires
        forall|k: int| !#[trigger] value_stands_at(fields, key, k),
    ensures
        first_value(fields, key) is None,
        all_values(fields, key) == Seq::<Seq<u8>>::empty(),
    decreases fields.len(),
{
    if fields.len() >= 2 {
        assert(!value_stands_at(fields, key, 0));
        let later = fields.skip(2);
        assert forall|k: int| !#[trigger] value_stands_at(later, key, k) by {
            assert(!value_stands_at(fields, key, k + 2));
            if 0 <= k && k + 1 < later.len() {
                assert(later[k] == fields[k + 2] && later[k + 1] == fields[k + 3]);
            }
        }
        lemma_no_value(later, key);
    }
}

/// An entry gives its identifier, and as its payload the first value that stands
/// under that name, whatever other fields it has. One without such a value is
/// an error, and what is no entry gives nothing.
pub proof fn law_entries_give_their_first_payload(
    id: Seq<u8>,
    fields: Seq<ReplyView>,
    i: int,
    reply: ReplyView,
)
    ensures
        ({
            let key = encode_utf8("payload"@);
            let entry = ReplyView::Array(
                seq![ReplyView::BulkString(id), ReplyView::Array(fields)],
            );
            &&& value_stands_at(fields, key, i) && (forall|k: int|
                0 <= k < i ==> !#[trigger] value_stands_at(fields, key, k)) ==> entry_payload(
                Some(entry),
            ) == if valid_utf8(id) {
                Ok::<Option<(Seq<char>, Seq<u8>)>, ReplyError>(
                    Some((decode_utf8(id), fields[i + 1]->BulkString_0)),
                )
            } else {
                Err::<Option<(Seq<char>, Seq<u8>)>, ReplyError>(ReplyError::NotUtf8)
            }
            &&& (forall|k: int| !#[trigger] value_stands_at(fields, key, k)) ==> entry_payload(
                Some(entry),
            ) == Err::<Option<(Seq<char>, Seq<u8>)>, ReplyError>(ReplyError::NoPayload)
        }),
        entry_payload(None) == Ok::<Option<(Seq<char>, Seq<u8>)>, ReplyError>(None),
        !(reply is Array) ==> entry_payload(Some(reply)) == Ok::<
            Option<(Seq<char>, Seq<u8>)>,
            ReplyError,
        >(None),
{
    let key = encode_utf8("payload"@);
    let parts_of = seq![ReplyView::BulkString(id), ReplyView::Array(fields)];
    assert(parts_of[0] == ReplyView::BulkString(id) && parts_of[1] == ReplyView::Array(fields));
    if value_stands_at(fields, key, i) && (forall|k: int|
        0 <= k < i ==> !#[trigger] value_stands_at(fields, key, k)) {
        lemma_first_value(fields, key, i);
    }
    if forall|k: int| !#[trigger] value_stands_at(fields, key, k) {
        lemma_no_value(fields, key);
    }
}

/// A stream read gives the first entry of its first stream, and a claim the
/// first entry that it claimed, whatever stands behind them.
pub proof fn law_first_entries_are_read(
    entries: Seq<ReplyView>,
    name: ReplyView,
    more: Seq<ReplyView>,
    other: ReplyView,
)
    ensures
        ({
            let list = ReplyView::Array(entries);
            let read = ReplyView::Array(seq![ReplyView::Array(seq![name, list])] + more);
            let claim = ReplyView::Array(seq![name, list] + more);
            &&& entries.len() > 0 ==> xread_entry(read) == Some(entries[0]) && autoclaim_entry(
                claim,
            ) == Some(entries[0])
            &&& entries.len() == 0 ==> xread_entry(read) is None && autoclaim_entry(claim) is None
        }),
        !(other is Array) ==> xread_entry(other) is None && autoclaim_entry(other) is None,
{
    let list = ReplyView::Array(entries);
    let stream = ReplyView::Array(seq![name, list]);
    assert((seq![stream] + more)[0] == stream);
    assert(seq![name, list][1] == list);
    assert((seq![name, list] + more)[1] == list);
}

/// A text field is the last value that stands under its name, where all values
/// under it are text.
pub proof fn law_last_texts_are_read(
    id: Seq<u8>,
    fields: Seq<ReplyView>,
    key: Seq<char>,
    value: Seq<u8>,
)
    requires
        fields.len() % 2 == 0,
        valid_utf8(id),
        valid_utf8(value),
        forall|k: int| 0 <= k < all_values(fields, encode_utf8(key)).len() ==> valid_utf8(
            #[trigger] all_values(fields, encode_utf8(key))[k],
        ),
    ensures
        ({
            let last = fields.push(ReplyView::BulkString(encode_utf8(key))).push(
                ReplyView::BulkString(value),
            );
            let entry = ReplyView::Array(seq![ReplyView::BulkString(id), ReplyView::Array(last)]);
            entry_text(Some(entry), key) == Ok::<Option<(Seq<char>, Seq<char>)>, ReplyError>(
                Some((decode_utf8(id), decode_utf8(value))),
            )
        }),
        (forall|k: int| !#[trigger] value_stands_at(fields, encode_utf8(key), k)) ==> entry_text(
            Some(
                ReplyView::Array(seq![ReplyView::BulkString(id), ReplyView::Array(fields)]),
            ),
            key,
        ) == Ok::<Option<(Seq<char>, Seq<char>)>, ReplyError>(None),
{
    let wanted = encode_utf8(key);
    let last = fields.push(ReplyView::BulkString(wanted)).push(ReplyView::BulkString(value));
    let n = fields.len() as int;
    let parts_of = seq![ReplyView::BulkString(id), ReplyView::Array(last)];
    assert(parts_of[0] == ReplyView::BulkString(id) && parts_of[1] == ReplyView::Array(last));
    let plain = seq![ReplyView::BulkString(id), ReplyView::Array(fields)];
    assert(plain[0] == ReplyView::BulkString(id) && plain[1] == ReplyView::Array(fields));
    lemma_values_split(last, wanted, n);
    assert(last.take(n + 2) =~= last);
    assert(last.take(n) =~= fields);
    let rest = last.skip(n);
    assert(rest[0] == ReplyView::BulkString(wanted) && rest[1] == ReplyView::BulkString(value));
    let before = all_values(fields, wanted);
    let values = all_values(last, wanted);
    assert(values == before.push(value));
    assert(!(exists|i: int| 0 <= i < values.len() && !valid_utf8(#[trigger] values[i]))) by {
        if exists|i: int| 0 <= i < values.len() && !valid_utf8(#[trigger] values[i]) {
            let i = choose|i: int| 0 <= i < values.len() && !valid_utf8(#[trigger] values[i]);
            if i < before.len() {
                assert(values[i] == before[i]);
            }
        }
    }
    assert(values.last() == value);
    if forall|k: int| !#[trigger] value_stands_at(fields, wanted, k) {
        lemma_no_value(fields, wanted);
    }
}

/// A reply says what its parts say, one for one and in order.
pub proof fn law_replies_say_their_parts(items: Vec<Reply>, bytes: Vec<u8>, i: int)
    ensures
        Reply::Array(items)@ matches ReplyView::Array(all) && all.len() == items@.len() && (0 <= i
            < items@.len() ==> all[i] == items@[i]@),
        Reply::BulkString(bytes)@ == ReplyView::BulkString(bytes@),
        Reply::Other@ is Other,
{
}

/// A value under the key that is no text is an error, wherever it stands; so is
/// an identifier that is none, where there is a value.
pub proof fn law_faulty_texts_are_told(
    id: Seq<u8>,
    fields: Seq<ReplyView>,
    key: Seq<char>,
    i: int,
)
    requires
        value_stands_at(fields, encode_utf8(key), i),
        !valid_utf8(fields[i + 1]->BulkString_0) || !valid_utf8(id),
    ensures
        entry_text(
            Some(
                ReplyView::Array(seq![ReplyView::BulkString(id), ReplyView::Array(fields)]),
            ),
            key,
        ) == Err::<Option<(Seq<char>, Seq<char>)>, ReplyError>(ReplyError::NotUtf8),
{
    let wanted = encode_utf8(key);
    let value = fields[i + 1]->BulkString_0;
    let parts_of = seq![ReplyView::BulkString(id), ReplyView::Array(fields)];
    assert(parts_of[0] == ReplyView::BulkString(id) && parts_of[1] == ReplyView::Array(fields));
    lemma_values_split(fields, wanted, i);
    lemma_values_prefix(fields, wanted, i + 2);
    assert(fields.skip(i)[0] == fields[i] && fields.skip(i)[1] == fields[i + 1]);
    let k = all_values(fields.take(i), wanted).len() as int;
    let some = all_values(fields.take(i + 2), wanted);
    assert(some[k] == value);
    assert(all_values(fields, wanted)[k] == some[k]);
}

} // verus!
