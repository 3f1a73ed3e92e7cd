//! The document: one outline per followed account, in the order received.

use vstd::prelude::*;
use crate::format::{feed_url, feed_url_of, OutlineFormat};
use crate::record::{
    all_complete, first_malformed, is_first_malformed, record_models, BuildError, RecordModel,
    UserRecord,
};

verus! {

/// One entry of the document body: a subscribable feed.
#[derive(Clone, Debug, PartialEq, Eq)]
pub struct Outline {
    /// The display name, used as the entry's text and as its title.
    pub name: String,
    /// The feed address; empty when the format was not recognized.
    pub xml_url: String,
}

/// The mathematical value of an [`Outline`].
pub struct OutlineModel {
    pub name: Seq<char>,
    pub xml_url: Seq<char>,
}

impl View for Outline {
    type V = OutlineModel;

    open spec fn view(&self) -> OutlineModel {
        OutlineModel { name: self.name@, xml_url: self.xml_url@ }
    }
}

/// The document tree: a root with an empty head and a body that holds the
/// outlines. Only the body varies, so only the body is stored.
#[derive(Clone, Debug, PartialEq, Eq)]
pub struct OutlineDocument {
    /// The entries of the body, first to last.
    pub outlines: Vec<Outline>,
}

impl View for OutlineDocument {
    type V = Seq<OutlineModel>;

    open spec fn view(&self) -> Seq<OutlineModel> {
        self.outlines@.map_values(|outline: Outline| outline@)
    }
}

/// The outline that a complete record gives rise to.
pub open spec fn outline_of(record: RecordModel, format: OutlineFormat) -> OutlineModel
    recommends
        record.is_complete(),
{
    OutlineModel {
        name: record.name.unwrap(),
        xml_url: feed_url_of(record.username.unwrap(), format),
    }
}

/// The body of the document for a list of complete records: the outline of
/// each record, at the record's own position.
pub open spec fn outlines_of(records: Seq<RecordModel>, format: OutlineFormat) -> Seq<
    OutlineModel,
> {
    records.map_values(|record: RecordModel| outline_of(record, format))
}

/// Builds the outline of one complete record.
fn make_outline(record: &UserRecord, format: OutlineFormat) -> (outline: Outline)
    requires
        record@.is_complete(),
    ensures
        outline@ == outline_of(record@, format),
{
    match (&record.name, &record.username) {
        (Some(name), Some(username)) => Outline {
            name: name.clone(),
            xml_url: feed_url(username.as_str(), format),
        },
        _ => unreached(),
    }
}

/// Builds the document tree for a following list.
///
/// Succeeds exactly when every record is complete; the body then holds one
/// outline per record, in the same order. Otherwise the first record that is
/// not complete is reported and nothing is built.
pub fn build_document(users: &Vec<UserRecord>, format: OutlineFormat) -> (built: Result<
    OutlineDocument,
    BuildError,
>)
    ensures
        match built {
            Ok(document) => {
                &&& all_complete(record_models(users@))
                &&& document@ == outlines_of(record_models(users@), format)
            },
            Err(BuildError::MalformedRecord { index }) => is_first_malformed(
                record_models(users@),
                index as int,
            ),
            Err(BuildError::NotASequence) => false,
        },
{
    if let Some(index) = first_malformed(users) {
        return Err(BuildError::MalformedRecord { index });
    }
    let ghost records = record_models(users@);
    let mut outlines: Vec<Outline> = Vec::new();
    let mut i: usize = 0;
    while i < users.len()
        invariant
            i <= users.len(),
            records == record_models(users@),
            all_complete(records),
            outlines@.map_values(|outline: Outline| outline@) == outlines_of(
                records.take(i as int),
                format,
            ),
        decreases users.len() - i,
    {
        assert(records[i as int].is_complete());
        let outline = make_outline(&users[i], format);
        let ghost before = outlines@;
        outlines.push(outline);
        proof {
            assert(records.take(i + 1) =~= records.take(i as int).push(records[i as int]));
            assert(outlines@.map_values(|outline: Outline| outline@) =~= before.map_values(
                |outline: Outline| outline@,
            ).push(outline@));
            assert(outlines_of(records.take(i + 1), format) =~= outlines_of(
                records.take(i as int),
                format,
            ).push(outline_of(records[i as int], format)));
        }
        i += 1;
    }
    proof {
        assert(records.take(i as int) =~= records);
    }
    Ok(OutlineDocument { outlines })
}

/// Order is kept: the document of a list of records has as many outlines as
/// there are records, and the outline at each position is the one of the
/// record at that position.
pub proof fn lemma_outlines_follow_records(records: Seq<RecordModel>, format: OutlineFormat)
    ensures
        outlines_of(records, format).len() == records.len(),
        forall|i: int|
            0 <= i < records.len() ==> (#[trigger] outlines_of(records, format)[i]) == outline_of(
                records[i],
                format,
            ),
{
}

/// No records, no outlines, whatever the format.
pub proof fn lemma_no_records_no_outlines(format: OutlineFormat)
    ensures
        outlines_of(Seq::<RecordModel>::empty(), format) == Seq::<OutlineModel>::empty(),
{
    assert(outlines_of(Seq::<RecordModel>::empty(), format) =~= Seq::<OutlineModel>::empty());
}

} // verus!
