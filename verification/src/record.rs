//! The records a following list is made of, and what makes one usable.

use vstd::prelude::*;

verus! {

/// One followed account, as received: either field may be absent.
#[derive(Clone, Debug, PartialEq, Eq)]
pub struct UserRecord {
    /// The display name.
    pub name: Option<String>,
    /// The account name, from which the feed address is derived.
    pub username: Option<String>,
}

/// The mathematical value of a [`UserRecord`].
pub struct RecordModel {
    pub name: Option<Seq<char>>,
    pub username: Option<Seq<char>>,
}

/// The characters of an optional string.
pub open spec fn field_model(field: Option<String>) -> Option<Seq<char>> {
    match field {
        Some(text) => Some(text@),
        None => None,
    }
}

/// A field is supplied when it is present and holds at least one character.
pub open spec fn supplied(field: Option<Seq<char>>) -> bool {
    field matches Some(text) && text.len() > 0
}

impl RecordModel {
    /// A record is complete when both of its fields are supplied.
    pub open spec fn is_complete(self) -> bool {
        supplied(self.name) && supplied(self.username)
    }
}

impl View for UserRecord {
    type V = RecordModel;

    open spec fn view(&self) -> RecordModel {
        RecordModel { name: field_model(self.name), username: field_model(self.username) }
    }
}

/// The values of a list of records, in order.
pub open spec fn record_models(records: Seq<UserRecord>) -> Seq<RecordModel> {
    records.map_values(|record: UserRecord| record@)
}

/// Every record of the list is complete.
pub open spec fn all_complete(records: Seq<RecordModel>) -> bool {
    forall|i: int| 0 <= i < records.len() ==> (#[trigger] records[i]).is_complete()
}

/// `index` is the position of the first record that is not complete.
pub open spec fn is_first_malformed(records: Seq<RecordModel>, index: int) -> bool {
    &&& 0 <= index < records.len()
    &&& !records[index].is_complete()
    &&& all_complete(records.take(index))
}

/// Why no document was built.
#[derive(Clone, Copy, Debug, PartialEq, Eq, Structural)]
pub enum BuildError {
    /// The input is not a sequence of records at all.
    NotASequence,
    /// The record at `index` lacks its name or its username; every record
    /// before it is complete.
    MalformedRecord { index: usize },
}

/// Whether an optional string is present and not empty.
fn is_supplied(field: &Option<String>) -> (yes: bool)
    ensures
        yes == supplied(field_model(*field)),
{
    match field {
        Some(text) => !text.as_str().is_empty(),
        None => false,
    }
}

impl UserRecord {
    /// A record with both fields present.
    pub fn new(name: &str, username: &str) -> (record: UserRecord)
        ensures
            record@.name == Some(name@),
            record@.username == Some(username@),
    {
        UserRecord {
            name: Some(String::from_str(name)),
            username: Some(String::from_str(username)),
        }
    }

    /// Whether both fields are supplied.
    pub fn is_complete(&self) -> (complete: bool)
        ensures
            complete == self@.is_complete(),
    {
        is_supplied(&self.name) && is_supplied(&self.username)
    }
}

/// Finds the first record that is not complete, if there is one.
pub fn first_malformed(records: &Vec<UserRecord>) -> (found: Option<usize>)
    ensures
        match found {
            Some(index) => is_first_malformed(record_models(records@), index as int),
            None => all_complete(record_models(records@)),
        },
{
    let mut i: usize = 0;
    while i < records.len()
        invariant
            i <= records.len(),
            all_complete(record_models(records@).take(i as int)),
        decreases records.len() - i,
    {
        if !records[i].is_complete() {
            return Some(i);
        }
        proof {
            let models = record_models(records@);
            assert forall|k: int| 0 <= k < i + 1 implies (#[trigger] models.take(i + 1)[k]).is_complete() by {
                if k < i {
                    assert(models.take(i as int)[k].is_complete());
                }
            }
        }
        i += 1;
    }
    proof {
        let models = record_models(records@);
        assert(models.take(i as int) =~= models);
    }
    None
}

/// A list with a record that is not complete has a first such record, at
/// that position or before it.
pub proof fn lemma_incomplete_has_first(records: Seq<RecordModel>, i: int)
    requires
        0 <= i < records.len(),
        !records[i].is_complete(),
    ensures
        exists|k: int| 0 <= k <= i && is_first_malformed(records, k),
    decreases i,
{
    if all_complete(records.take(i)) {
        assert(is_first_malformed(records, i));
    } else {
        let earlier = records.take(i);
        let j = choose|j: int| 0 <= j < earlier.len() && !(#[trigger] earlier[j]).is_complete();
        assert(earlier[j] == records[j]);
        lemma_incomplete_has_first(records, j);
    }
}

/// Only one position can be that of the first malformed record, and a list
/// that has one is not complete throughout.
pub proof fn lemma_first_malformed_unique(records: Seq<RecordModel>, first: int, second: int)
    requires
        is_first_malformed(records, first),
        is_first_malformed(records, second),
    ensures
        first == second,
        !all_complete(records),
{
    if first < second {
        assert(records.take(second)[first].is_complete());
    }
    if second < first {
        assert(records.take(first)[second].is_complete());
    }
}

} // verus!
