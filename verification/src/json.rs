//! The JSON texts of Nostr events: the NIP-01 commitment that is hashed into
//! the event id and the event object in compact form; and what `serde_json`
//! reads from and writes for a JSON text.

use crate::text::{decimal, json_string, push_decimal, push_json_string};
use vstd::prelude::*;

verus! {

/// `parts` joined with `sep` between consecutive parts.
pub open spec fn join_with(parts: Seq<Seq<char>>, sep: Seq<char>) -> Seq<char>
    decreases parts.len(),
{
    if parts.len() == 0 {
        Seq::empty()
    } else if parts.len() == 1 {
        parts[0]
    } else {
        join_with(parts.drop_last(), sep) + sep + parts.last()
    }
}

/// Joining one more part adds the separator and the part.
pub proof fn lemma_join_push(parts: Seq<Seq<char>>, part: Seq<char>, sep: Seq<char>)
    ensures
        join_with(parts.push(part), sep) == if parts.len() == 0 {
            part
        } else {
            join_with(parts, sep) + sep + part
        },
{
    assert(parts.push(part).drop_last() =~= parts);
}

/// Compact JSON array of strings: `["a","b"]`.
pub open spec fn compact_string_array(items: Seq<Seq<char>>) -> Seq<char> {
    "["@ + join_with(items.map_values(|s: Seq<char>| json_string(s)), ","@) + "]"@
}

/// Compact JSON array of string arrays: `[["a","b"],["c"]]`.
pub open spec fn compact_tags(tags: Seq<Seq<Seq<char>>>) -> Seq<char> {
    "["@ + join_with(tags.map_values(|t: Seq<Seq<char>>| compact_string_array(t)), ","@) + "]"@
}

/// The NIP-01 commitment `[0,<pubkey>,<created_at>,<kind>,<tags>,<content>]`
/// in compact JSON; its SHA-256 is the event id.
pub open spec fn commitment_text(
    pubkey: Seq<char>,
    created_at: u64,
    kind: u64,
    tags: Seq<Seq<Seq<char>>>,
    content: Seq<char>,
) -> Seq<char> {
    "[0,"@ + json_string(pubkey) + ","@ + decimal(created_at as nat) + ","@ + decimal(kind as nat)
        + ","@ + compact_tags(tags) + ","@ + json_string(content) + "]"@
}

/// The event object in compact JSON, keys in sorted order.
pub open spec fn compact_event_text(
    id: Seq<char>,
    pubkey: Seq<char>,
    created_at: u64,
    kind: u64,
    tags: Seq<Seq<Seq<char>>>,
    content: Seq<char>,
    sig: Seq<char>,
) -> Seq<char> {
    "{\"content\":"@ + json_string(content) + ",\"created_at\":"@ + decimal(created_at as nat)
        + ",\"id\":"@ + json_string(id) + ",\"kind\":"@ + decimal(kind as nat) + ",\"pubkey\":"@
        + json_string(pubkey) + ",\"sig\":"@ + json_string(sig) + ",\"tags\":"@ + compact_tags(
        tags,
    ) + "}"@
}

/// Append a compact JSON array of strings.
pub fn push_compact_string_array(out: &mut String, items: &Vec<String>)
    ensures
        final(out)@ == old(out)@ + compact_string_array(items.deep_view()),
{
    let ghost start = out@;
    let ghost f = |s: Seq<char>| json_string(s);
    out.append("[");
    let n = items.len();
    for i in 0..n
        invariant
            n == items.len(),
            f == (|s: Seq<char>| json_string(s)),
            out@ == start + "["@ + join_with(items.deep_view().take(i as int).map_values(f), ","@),
    {
        let ghost before = items.deep_view().take(i as int).map_values(f);
        if i > 0 {
            out.append(",");
        }
        push_json_string(out, items[i].as_str());
        proof {
            assert(items.deep_view().take(i + 1).map_values(f) =~= before.push(
                json_string(items.deep_view()[i as int]),
            ));
            lemma_join_push(before, json_string(items.deep_view()[i as int]), ","@);
        }
    }
    assert(items.deep_view().take(n as int) =~= items.deep_view());
    out.append("]");
}

/// Append a compact JSON array of string arrays.
pub fn push_compact_tags(out: &mut String, tags: &Vec<Vec<String>>)
    ensures
        final(out)@ == old(out)@ + compact_tags(tags.deep_view()),
{
    let ghost start = out@;
    let ghost f = |t: Seq<Seq<char>>| compact_string_array(t);
    out.append("[");
    let n = tags.len();
    for i in 0..n
        invariant
            n == tags.len(),
            f == (|t: Seq<Seq<char>>| compact_string_array(t)),
            out@ == start + "["@ + join_with(tags.deep_view().take(i as int).map_values(f), ","@),
    {
        let ghost before = tags.deep_view().take(i as int).map_values(f);
        if i > 0 {
            out.append(",");
        }
        push_compact_string_array(out, &tags[i]);
        proof {
            assert(tags.deep_view().take(i + 1).map_values(f) =~= before.push(
                compact_string_array(tags.deep_view()[i as int]),
            ));
            lemma_join_push(before, compact_string_array(tags.deep_view()[i as int]), ","@);
        }
    }
    assert(tags.deep_view().take(n as int) =~= tags.deep_view());
    out.append("]");
}

/// The NIP-01 commitment text of an event, whose SHA-256 is its id.
pub fn commitment_json(
    pubkey: &str,
    created_at: u64,
    kind: u64,
    tags: &Vec<Vec<String>>,
    content: &str,
) -> (text: String)
    ensures
        text@ == commitment_text(pubkey@, created_at, kind, tags.deep_view(), content@),
{
    let mut out = String::new();
    out.append("[0,");
    push_json_string(&mut out, pubkey);
    out.append(",");
    push_decimal(&mut out, created_at);
    out.append(",");
    push_decimal(&mut out, kind);
    out.append(",");
    push_compact_tags(&mut out, tags);
    out.append(",");
    push_json_string(&mut out, content);
    out.append("]");
    assert(out@ =~= commitment_text(pubkey@, created_at, kind, tags.deep_view(), content@));
    out
}

/// The kind-0 profile object in compact JSON, keys in sorted order.
pub open spec fn metadata_text(
    name: Seq<char>,
    display_name: Seq<char>,
    about: Seq<char>,
    picture: Seq<char>,
) -> Seq<char> {
    "{\"about\":"@ + json_string(about) + ",\"display_name\":"@ + json_string(display_name)
        + ",\"name\":"@ + json_string(name) + ",\"picture\":"@ + json_string(picture) + "}"@
}

/// The JSON object of a kind-0 profile: name, display name, about, picture.
pub fn metadata_json(name: &str, display_name: &str, about: &str, picture: &str) -> (text: String)
    ensures
        text@ == metadata_text(name@, display_name@, about@, picture@),
{
    let mut out = String::new();
    out.append("{\"about\":");
    push_json_string(&mut out, about);
    out.append(",\"display_name\":");
    push_json_string(&mut out, display_name);
    out.append(",\"name\":");
    push_json_string(&mut out, name);
    out.append(",\"picture\":");
    push_json_string(&mut out, picture);
    out.append("}");
    assert(out@ =~= metadata_text(name@, display_name@, about@, picture@));
    out
}

/// The event object in compact JSON with keys in sorted order.
pub fn compact_event_json(
    id: &str,
    pubkey: &str,
    created_at: u64,
    kind: u64,
    tags: &Vec<Vec<String>>,
    content: &str,
    sig: &str,
) -> (text: String)
    ensures
        text@ == compact_event_text(id@, pubkey@, created_at, kind, tags.deep_view(), content@, sig@),
{
    let mut out = String::new();
    out.append("{\"content\":");
    push_json_string(&mut out, content);
    out.append(",\"created_at\":");
    push_decimal(&mut out, created_at);
    out.append(",\"id\":");
    push_json_string(&mut out, id);
    out.append(",\"kind\":");
    push_decimal(&mut out, kind);
    out.append(",\"pubkey\":");
    push_json_string(&mut out, pubkey);
    out.append(",\"sig\":");
    push_json_string(&mut out, sig);
    out.append(",\"tags\":");
    push_compact_tags(&mut out, tags);
    out.append("}");
    assert(out@ =~= compact_event_text(
        id@,
        pubkey@,
        created_at,
        kind,
        tags.deep_view(),
        content@,
        sig@,
    ));
    out
}

/// What `serde_json` writes for a JSON text that it reads as a `Value`
/// (`from_str`, then `to_string`), or `None` where it cannot read it.
pub uninterp spec fn json_value_compact(text: Seq<char>) -> Option<Seq<char>>;

/// What `serde_json` writes pretty-printed for a JSON text that it reads as
/// a `Value` (`from_str`, then `to_string_pretty`), or `None` where it cannot
/// read it.
pub uninterp spec fn json_value_pretty(text: Seq<char>) -> Option<Seq<char>>;

/// `serde_json::from_str` of a text as a `Value`, then `serde_json::to_string`
/// of that value.
#[verifier::external_body]
pub(crate) fn json_compact(text: &str) -> (compact: Option<String>)
    ensures
        compact.deep_view() == json_value_compact(text@),
{
    match serde_json::from_str::<serde_json::Value>(text) {
        Ok(value) => serde_json::to_string(&value).ok(),
        Err(_) => None,
    }
}

/// `serde_json::from_str` of a text as a `Value`, then
/// `serde_json::to_string_pretty` of that value.
#[verifier::external_body]
pub(crate) fn json_pretty(text: &str) -> (pretty: Option<String>)
    ensures
        pretty.deep_view() == json_value_pretty(text@),
{
    match serde_json::from_str::<serde_json::Value>(text) {
        Ok(value) => serde_json::to_string_pretty(&value).ok(),
        Err(_) => None,
    }
}

/// What `serde_json` reads from a JSON text at an object key: `None` when
/// the text is not JSON; otherwise the string at `key` when the text is an
/// object holding a string there, and `Some(None)` when it does not.
pub uninterp spec fn json_field_str_of(text: Seq<char>, key: Seq<char>) -> Option<
    Option<Seq<char>>,
>;

/// What `serde_json` reads from a JSON text at a position of an array:
/// `None` when the text is not a JSON array; otherwise the string at
/// `index` when there is one there, and `Some(None)` when there is not.
pub uninterp spec fn json_array_str_of(text: Seq<char>, index: usize) -> Option<
    Option<Seq<char>>,
>;

/// What `serde_json` reads from a JSON text at a position of an array:
/// `None` when the text is not a JSON array; otherwise the boolean at
/// `index` when there is one there, and `Some(None)` when there is not.
pub uninterp spec fn json_array_bool_of(text: Seq<char>, index: usize) -> Option<Option<bool>>;

/// `serde_json::from_str` of a text as a `Value`, then `as_str` of the value
/// indexed by `key`.
#[verifier::external_body]
pub(crate) fn json_field_str(text: &str, key: &str) -> (field: Option<Option<String>>)
    ensures
        field.deep_view() == json_field_str_of(text@, key@),
{
    match serde_json::from_str::<serde_json::Value>(text) {
        Ok(value) => Some(value[key].as_str().map(|v| v.to_string())),
        Err(_) => None,
    }
}

/// `serde_json::from_str` of a text as a `Value`; for an array, `as_str` of
/// its element at `index`.
#[verifier::external_body]
pub(crate) fn json_array_str_at(text: &str, index: usize) -> (item: Option<Option<String>>)
    ensures
        item.deep_view() == json_array_str_of(text@, index),
{
    match serde_json::from_str::<serde_json::Value>(text) {
        Ok(serde_json::Value::Array(items)) => Some(
            items.get(index).and_then(|v| v.as_str()).map(|v| v.to_string()),
        ),
        _ => None,
    }
}

/// `serde_json::from_str` of a text as a `Value`; for an array, `as_bool` of
/// its element at `index`.
#[verifier::external_body]
pub(crate) fn json_array_bool_at(text: &str, index: usize) -> (item: Option<Option<bool>>)
    ensures
        item == json_array_bool_of(text@, index),
{
    match serde_json::from_str::<serde_json::Value>(text) {
        Ok(serde_json::Value::Array(items)) => Some(items.get(index).and_then(|v| v.as_bool())),
        _ => None,
    }
}

/// What `serde_json` reads from a JSON text at an object key as a list of
/// lists of strings: `None` when the text is not JSON; `Some(None)` when the
/// value at `key` is not such a list.
pub uninterp spec fn json_field_string_lists_of(text: Seq<char>, key: Seq<char>) -> Option<
    Option<Seq<Seq<Seq<char>>>>,
>;

/// `serde_json::from_str` of a text as a `Value`, then `serde_json::from_value`
/// of the value indexed by `key` as a `Vec<Vec<String>>`.
#[verifier::external_body]
pub(crate) fn json_field_string_lists(text: &str, key: &str) -> (lists: Option<
    Option<Vec<Vec<String>>>,
>)
    ensures
        lists.deep_view() == json_field_string_lists_of(text@, key@),
{
    match serde_json::from_str::<serde_json::Value>(text) {
        Ok(value) => Some(serde_json::from_value::<Vec<Vec<String>>>(value[key].clone()).ok()),
        Err(_) => None,
    }
}

} // verus!
