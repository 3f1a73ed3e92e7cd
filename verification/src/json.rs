//! Reading a following list out of a JSON value.

use vstd::prelude::*;
use crate::record::{record_models, BuildError, RecordModel, UserRecord};

verus! {

/// `serde_json::Value`, carried through as an opaque value.
#[verifier::external_type_specification]
#[verifier::external_body]
pub struct ExJsonValue(serde_json::Value);

/// Whether a JSON value is an array.
pub uninterp spec fn json_is_array(value: serde_json::Value) -> bool;

/// What the elements of a JSON array hold, as far as a following list is
/// concerned: for each element, in order, its members whose value is a
/// string, by key. An element that is no object has none. A value that is no
/// array has no elements.
pub uninterp spec fn json_items(value: serde_json::Value) -> Seq<Map<Seq<char>, Seq<char>>>;

/// The string member `key` of element `i`, if there is one.
pub open spec fn json_member(value: serde_json::Value, i: int, key: Seq<char>) -> Option<
    Seq<char>,
> {
    if 0 <= i < json_items(value).len() && json_items(value)[i].contains_key(key) {
        Some(json_items(value)[i][key])
    } else {
        None
    }
}

/// The number of elements, from `serde_json::Value::as_array` and the
/// length of the vector it gives.
/// Assumed: the result is `Some` exactly for an array, and then counts its
/// elements.
#[verifier::external_body]
fn array_len(value: &serde_json::Value) -> (len: Option<usize>)
    ensures
        len is Some <==> json_is_array(*value),
        len is Some ==> len.unwrap() == json_items(*value).len(),
{
    value.as_array().map(Vec::len)
}

/// The string under `key` in element `i`, from indexing the value twice
/// (`serde_json::Value`'s `Index`, which gives `Null` where there is nothing)
/// and `serde_json::Value::as_str`.
/// Assumed: the result is the member's string where element `i` exists, is
/// an object and has a string under `key`, and `None` otherwise.
#[verifier::external_body]
fn string_member(value: &serde_json::Value, i: usize, key: &str) -> (member: Option<String>)
    ensures
        crate::record::field_model(member) == json_member(*value, i as int, key@),
{
    value[i][key].as_str().map(str::to_owned)
}

/// The record that an element's members stand for.
pub open spec fn record_of_item(item: Map<Seq<char>, Seq<char>>) -> RecordModel {
    RecordModel {
        name: if item.contains_key("name"@) {
            Some(item["name"@])
        } else {
            None
        },
        username: if item.contains_key("username"@) {
            Some(item["username"@])
        } else {
            None
        },
    }
}

/// The records that the elements stand for, in order.
pub open spec fn records_of_items(items: Seq<Map<Seq<char>, Seq<char>>>) -> Seq<RecordModel> {
    items.map_values(|item: Map<Seq<char>, Seq<char>>| record_of_item(item))
}

/// Reads the records of a following list.
///
/// Succeeds exactly when the value is an array; each element then gives one
/// record, in order, with the fields `name` and `username` present where the
/// element has a string under that key.
pub fn records_from_json(following_list: &serde_json::Value) -> (read: Result<
    Vec<UserRecord>,
    BuildError,
>)
    ensures
        match read {
            Ok(records) => {
                &&& json_is_array(*following_list)
                &&& record_models(records@) == records_of_items(json_items(*following_list))
            },
            Err(BuildError::NotASequence) => !json_is_array(*following_list),
            Err(BuildError::MalformedRecord { .. }) => false,
        },
{
    let len = match array_len(following_list) {
        Some(len) => len,
        None => {
            return Err(BuildError::NotASequence);
        },
    };
    let ghost items = json_items(*following_list);
    let mut records: Vec<UserRecord> = Vec::new();
    let mut i: usize = 0;
    while i < len
        invariant
            i <= len,
            len == items.len(),
            items == json_items(*following_list),
            record_models(records@) == records_of_items(items.take(i as int)),
        decreases len - i,
    {
        let name = string_member(following_list, i, "name");
        let username = string_member(following_list, i, "username");
        let record = UserRecord { name, username };
        let ghost before = records@;
        records.push(record);
        proof {
            assert(record@ == record_of_item(items[i as int]));
            assert(items.take(i + 1) =~= items.take(i as int).push(items[i as int]));
            assert(record_models(records@) =~= record_models(before).push(record@));
            assert(records_of_items(items.take(i + 1)) =~= records_of_items(
                items.take(i as int),
            ).push(record_of_item(items[i as int])));
        }
        i += 1;
    }
    assert(items.take(i as int) =~= items);
    Ok(records)
}

} // verus!
