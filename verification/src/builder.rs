//! The builder: from a following list to the text of an OPML document.

use vstd::prelude::*;
use crate::emit::{render_tokens, written_text, Formatting, RenderError};
use crate::format::{format_of_selector, OutlineFormat};
use crate::json::{json_is_array, json_items, records_from_json, records_of_items};
use crate::outline::{
    build_document, lemma_no_records_no_outlines, lemma_outlines_follow_records, outline_of,
    outlines_of, OutlineDocument, OutlineModel,
};
use crate::record::{
    all_complete, is_first_malformed, lemma_incomplete_has_first, record_models, BuildError,
    RecordModel, UserRecord,
};
use crate::token::{lemma_unmatched_end_breaks_nesting, token_models, TokenModel};
use crate::tokenize::{
    block_start, document_tokens, element, lemma_document_well_nested, lemma_empty_document,
    lemma_outline_block, outline_tokens, tokenize_document, OutlineStyle,
};

verus! {

/// The formatting of every document: indented, with empty elements closed
/// by `/>` directly.
pub open spec fn document_formatting() -> Formatting {
    Formatting { indent: true, pad_self_closing: false }
}

/// The text of a document with the given outlines.
pub open spec fn document_text(outlines: Seq<OutlineModel>, style: OutlineStyle) -> Seq<char> {
    written_text(document_formatting(), document_tokens(outlines, style))
}

/// The text of the document for a list of complete records.
pub open spec fn opml_text(records: Seq<RecordModel>, format: OutlineFormat, style: OutlineStyle)
    -> Seq<char> {
    document_text(outlines_of(records, format), style)
}

/// Writes a document tree out as text, in the given outline style.
pub fn serialize(document: &OutlineDocument, style: OutlineStyle) -> (text: String)
    ensures
        text@ == document_text(document@, style),
{
    let tokens = tokenize_document(document, style);
    let formatting = Formatting { indent: true, pad_self_closing: false };
    match render_tokens(&tokens, formatting) {
        Ok(text) => text,
        Err(RenderError::UnmatchedEnd { index }) => {
            proof {
                lemma_document_well_nested(document@, style);
                lemma_unmatched_end_breaks_nesting(token_models(tokens@), index as int);
            }
            unreached()
        },
    }
}

/// Builds the OPML document for a following list.
///
/// Succeeds exactly when every record supplies a name and a username, and
/// the result is then the text of the document with one outline per record,
/// in the order of the records; an empty list gives a document with an empty
/// body, and an unrecognized format gives outlines with an empty feed
/// address. Otherwise the first record that is not complete is reported and
/// no text is returned.
pub fn build(users: &Vec<UserRecord>, format: OutlineFormat, style: OutlineStyle) -> (built:
    Result<String, BuildError>)
    ensures
        match built {
            Ok(text) => {
                &&& all_complete(record_models(users@))
                &&& text@ == opml_text(record_models(users@), format, style)
            },
            Err(BuildError::MalformedRecord { index }) => is_first_malformed(
                record_models(users@),
                index as int,
            ),
            Err(BuildError::NotASequence) => false,
        },
{
    match build_document(users, format) {
        Ok(document) => Ok(serialize(&document, style)),
        Err(error) => Err(error),
    }
}

/// Builds the OPML document for a following list given as JSON, with the
/// format given by its selector string.
///
/// Fails with `NotASequence` exactly when the value is not an array, and
/// with `MalformedRecord` exactly when it is an array and some element lacks
/// a string `name` or `username` that is not empty. Otherwise the result is
/// the text of the document for the records that the elements stand for.
pub fn generate_opml(following_list: &serde_json::Value, format: &str, style: OutlineStyle) -> (built:
    Result<String, BuildError>)
    ensures
        match built {
            Ok(text) => {
                &&& json_is_array(*following_list)
                &&& all_complete(records_of_items(json_items(*following_list)))
                &&& text@ == opml_text(
                    records_of_items(json_items(*following_list)),
                    format_of_selector(format@),
                    style,
                )
            },
            Err(BuildError::NotASequence) => !json_is_array(*following_list),
            Err(BuildError::MalformedRecord { index }) => {
                &&& json_is_array(*following_list)
                &&& is_first_malformed(
                    records_of_items(json_items(*following_list)),
                    index as int,
                )
            },
        },
{
    let users = match records_from_json(following_list) {
        Ok(users) => users,
        Err(error) => {
            return Err(error);
        },
    };
    build(&users, OutlineFormat::from_selector(format), style)
}

/// Order is kept from the records to what is written. The document of a
/// list of records holds, between the four tokens that open it and the two
/// that close it, one block of tokens per record and nothing else; the block
/// at position `i` is the outline of record number `i`.
pub proof fn lemma_order_preserved(
    records: Seq<RecordModel>,
    format: OutlineFormat,
    style: OutlineStyle,
    i: int,
)
    requires
        0 <= i < records.len(),
    ensures
        outlines_of(records, format).len() == records.len(),
        document_tokens(outlines_of(records, format), style).len() == block_start(
            style,
            records.len() as int,
        ) + 2,
        document_tokens(outlines_of(records, format), style).subrange(
            block_start(style, i),
            block_start(style, i + 1),
        ) == outline_tokens(outline_of(records[i], format), style),
{
    lemma_outlines_follow_records(records, format);
    lemma_document_well_nested(outlines_of(records, format), style);
    lemma_outline_block(outlines_of(records, format), style, i);
}

/// An empty list gives, in every format and style, the text of the document
/// that is the root with an empty head and an empty body.
pub proof fn lemma_empty_input(format: OutlineFormat, style: OutlineStyle)
    ensures
        opml_text(Seq::<RecordModel>::empty(), format, style) == written_text(
            document_formatting(),
            seq![
                element("opml"@),
                element("head"@),
                TokenModel::End,
                element("body"@),
                TokenModel::End,
                TokenModel::End,
            ],
        ),
{
    lemma_no_records_no_outlines(format);
    lemma_empty_document(style);
}

/// A list in which some record lacks its name or its username is not
/// complete throughout, and has a first malformed record at that position
/// or before it: a build of such a list fails and returns no text.
pub proof fn lemma_missing_field_is_malformed(records: Seq<RecordModel>, i: int)
    requires
        0 <= i < records.len(),
        records[i].name is None || records[i].username is None,
    ensures
        !all_complete(records),
        exists|k: int| 0 <= k <= i && is_first_malformed(records, k),
{
    assert(!records[i].is_complete());
    lemma_incomplete_has_first(records, i);
}

} // verus!
