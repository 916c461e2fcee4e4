//! Who may ask: API keys and bearer tokens.
use vstd::hash_set::StringHashSet;
use vstd::prelude::*;

use crate::text::{split_char, strip_prefix, trim};
#[allow(unused_imports)]
use crate::text::{law_prefixes_are_stripped, split_on, stripped, texts, trimmed};

verus! {

/// A refusal: an HTTP status and what is said with it.
#[derive(Debug, PartialEq, Eq)]
pub struct ErrorReply {
    pub status: u16,
    pub message: String,
}

impl View for ErrorReply {
    type V = (u16, Seq<char>);

    open spec fn view(&self) -> (u16, Seq<char>) {
        (self.status, self.message@)
    }
}

/// A refusal with a status and a message.
pub fn refuse(status: u16, message: &str) -> (reply: ErrorReply)
    ensures
        reply@ == (status, message@),
{
    ErrorReply { status, message: message.to_string() }
}

/// The keys that a list gives: its entries without the white space around
/// them, those that are empty left out.
pub open spec fn keys_in(entries: Seq<Seq<char>>) -> Set<Seq<char>> {
    Set::new(|key: Seq<char>| key.len() > 0 && exists|i: int|
        0 <= i < entries.len() && trimmed(#[trigger] entries[i]) == key)
}

/// The API keys that are let in.
pub struct ApiKeys {
    keys: StringHashSet,
}

impl View for ApiKeys {
    type V = Set<Seq<char>>;

    closed spec fn view(&self) -> Set<Seq<char>> {
        self.keys@
    }
}

/// The API keys that a list gives.
pub fn api_keys_from_list(entries: &Vec<String>) -> (keys: ApiKeys)
    ensures
        keys@ == keys_in(texts(entries@)),
{
    let mut keys = StringHashSet::new();
    let ghost all = texts(entries@);
    let mut i: usize = 0;
    assert(keys@ =~= keys_in(all.take(0)));
    while i < entries.len()
        invariant
            i <= entries@.len(),
            all == texts(entries@),
            keys@ == keys_in(all.take(i as int)),
        decreases entries@.len() - i,
    {
        let ghost before = all.take(i as int);
        let ghost now = all.take(i + 1);
        let key = trim(entries[i].as_str());
        assert forall|k: Seq<char>| keys_in(now).contains(k) == (keys_in(before).contains(k) || (
        k == key@ && k.len() > 0)) by {
            if keys_in(before).contains(k) {
                let j = choose|j: int| 0 <= j < before.len() && trimmed(#[trigger] before[j]) == k;
                assert(now[j] == before[j]);
            }
            if k == key@ && k.len() > 0 {
                assert(now[i as int] == all[i as int]);
            }
            if keys_in(now).contains(k) {
                let j = choose|j: int| 0 <= j < now.len() && trimmed(#[trigger] now[j]) == k;
                if j < i {
                    assert(before[j] == now[j]);
                }
            }
        }
        if !key.as_str().is_empty() {
            keys.insert(key);
        }
        i += 1;
        assert(keys@ =~= keys_in(now));
    }
    assert(all.take(i as int) =~= all);
    ApiKeys { keys }
}

/// The API keys that a text gives, with commas between them.
pub fn api_keys_from_text(raw: &str) -> (keys: ApiKeys)
    ensures
        keys@ == keys_in(split_on(raw@, ',')),
{
    let entries = split_char(raw, ',');
    api_keys_from_list(&entries)
}

/// The token of an authorization header that is a bearer token's.
pub open spec fn token_of(authorization: Option<Seq<char>>) -> Option<Seq<char>> {
    match authorization {
        Some(value) => stripped(value, "Bearer "@),
        None => None,
    }
}

/// The text of an optional header.
pub open spec fn header_text(value: Option<&str>) -> Option<Seq<char>> {
    match value {
        Some(text) => Some(text@),
        None => None,
    }
}

/// The token of an authorization header that is a bearer token's.
pub fn bearer_token(authorization: Option<&str>) -> (token: Option<String>)
    ensures
        token_of(header_text(authorization)) == match token {
            Some(token) => Some(token@),
            None => None,
        },
{
    match authorization {
        Some(value) => strip_prefix(value, "Bearer "),
        None => None,
    }
}

/// The API key that a request comes with, or why it is turned away.
pub open spec fn authenticated(
    keys: Set<Seq<char>>,
    authorization: Option<Seq<char>>,
) -> Result<Seq<char>, (u16, Seq<char>)> {
    match token_of(authorization) {
        None => Err((401, "missing bearer token"@)),
        Some(token) => if keys.contains(token) {
            Ok(token)
        } else {
            Err((403, "invalid API key"@))
        },
    }
}

/// The API key that a request comes with, or why it is turned away.
pub fn authenticate(keys: &ApiKeys, authorization: Option<&str>) -> (r: Result<
    String,
    ErrorReply,
>)
    ensures
        authenticated(keys@, header_text(authorization)) == match r {
            Ok(key) => Ok::<Seq<char>, (u16, Seq<char>)>(key@),
            Err(reply) => Err::<Seq<char>, (u16, Seq<char>)>(reply@),
        },
{
    match bearer_token(authorization) {
        None => Err(refuse(401, "missing bearer token")),
        Some(token) => if keys.keys.contains(token.as_str()) {
            Ok(token)
        } else {
            Err(refuse(403, "invalid API key"))
        },
    }
}

/// Only a key of the list gets in, and every key of the list does when it is
/// sent as a bearer token: as it stands in the list without the white space
/// around it.
pub proof fn law_listed_keys_get_in(entries: Seq<Seq<char>>, token: Seq<char>)
    ensures
        authenticated(keys_in(entries), Some("Bearer "@ + token)) is Ok <==> token.len() > 0
            && exists|i: int| 0 <= i < entries.len() && trimmed(#[trigger] entries[i]) == token,
        authenticated(keys_in(entries), None) == Err::<Seq<char>, (u16, Seq<char>)>(
            (401, "missing bearer token"@),
        ),
{
    let head = "Bearer "@;
    assert(head.is_prefix_of(head + token)) by {
        assert((head + token).subrange(0, head.len() as int) =~= head);
    }
    assert((head + token).skip(head.len() as int) =~= token);
}

/// A bearer token gets in as what stands behind `Bearer `, whole and unchanged,
/// exactly if it is one of the keys; another token is turned away as invalid,
/// and any other header, or none, as missing.
pub proof fn law_tokens_get_in_as_they_are(
    keys: Set<Seq<char>>,
    token: Seq<char>,
    header: Seq<char>,
)
    ensures
        keys.contains(token) ==> authenticated(keys, Some("Bearer "@ + token)) == Ok::<
            Seq<char>,
            (u16, Seq<char>),
        >(token),
        !keys.contains(token) ==> authenticated(keys, Some("Bearer "@ + token)) == Err::<
            Seq<char>,
            (u16, Seq<char>),
        >((403, "invalid API key"@)),
        !"Bearer "@.is_prefix_of(header) ==> authenticated(keys, Some(header)) == Err::<
            Seq<char>,
            (u16, Seq<char>),
        >((401, "missing bearer token"@)),
        authenticated(keys, None) == Err::<Seq<char>, (u16, Seq<char>)>(
            (401, "missing bearer token"@),
        ),
        token_of(Some("Bearer "@ + token)) == Some(token),
{
    let head = "Bearer "@;
    law_prefixes_are_stripped(head, token, header);
}

/// The keys that a list gives are its entries without the white space around
/// them, but for empty ones.
pub proof fn law_lists_give_their_keys(entries: Seq<Seq<char>>, entry: Seq<char>, key: Seq<char>)
    ensures
        keys_in(Seq::empty()) == Set::<Seq<char>>::empty(),
        keys_in(entries.push(entry)).contains(key) <==> keys_in(entries).contains(key) || (
        key.len() > 0 && key == trimmed(entry)),
{
    assert(keys_in(Seq::empty()) =~= Set::<Seq<char>>::empty());
    let all = entries.push(entry);
    if keys_in(entries).contains(key) {
        let j = choose|j: int| 0 <= j < entries.len() && trimmed(#[trigger] entries[j]) == key;
        assert(all[j] == entries[j]);
    }
    if key.len() > 0 && key == trimmed(entry) {
        assert(all[entries.len() as int] == entry);
    }
    if keys_in(all).contains(key) {
        let j = choose|j: int| 0 <= j < all.len() && trimmed(#[trigger] all[j]) == key;
        if j < entries.len() {
            assert(entries[j] == all[j]);
        }
    }
}

} // verus!
