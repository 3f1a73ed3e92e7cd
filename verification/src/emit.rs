//! Writing tokens out as text. The text itself is produced by the `xml`
//! crate's event writer; what is proved here is which tokens reach it, in
//! which order, and when it accepts them.

use vstd::prelude::*;
use crate::token::{
    is_first_unmatched_end, lemma_stays_open_push, lemma_well_nested_empty, open_depth,
    stays_open, token_models, TokenModel, XmlToken,
};

verus! {

/// The formatting choices handed to the writer.
#[derive(Clone, Copy, Debug, PartialEq, Eq, Structural)]
pub struct Formatting {
    /// Start each element on a line of its own, indented by its depth.
    pub indent: bool,
    /// Put a space before the `/>` that closes an empty element.
    pub pad_self_closing: bool,
}

/// Why a sequence of tokens could not be written.
#[derive(Clone, Copy, Debug, PartialEq, Eq, Structural)]
pub enum RenderError {
    /// The token at `index` is an `End` with no element open; every token
    /// before it was accepted.
    UnmatchedEnd { index: usize },
}

/// `xml::writer::EventWriter`, carried through as an opaque value.
#[verifier::external_type_specification]
#[verifier::external_body]
#[verifier::reject_recursive_types(W)]
pub struct ExEventWriter<W>(xml::writer::EventWriter<W>);

/// `xml::writer::Error`, carried through as an opaque value.
#[verifier::external_type_specification]
#[verifier::external_body]
pub struct ExWriterError(xml::writer::Error);

/// The tokens that a writer has accepted since it was made, oldest first.
pub uninterp spec fn accepted(writer: xml::writer::EventWriter<Vec<u8>>) -> Seq<TokenModel>;

/// The formatting that a writer was made with.
pub uninterp spec fn formatting_of(writer: xml::writer::EventWriter<Vec<u8>>) -> Formatting;

/// The text that a writer made with `formatting` holds once it has accepted
/// exactly `tokens`, in this order.
pub uninterp spec fn written_text(formatting: Formatting, tokens: Seq<TokenModel>) -> Seq<char>;

/// Makes a writer into a fresh buffer, with `xml::writer::EmitterConfig::new`,
/// its setters `perform_indent` and `pad_self_closing`, and `create_writer`.
/// Assumed: the new writer has accepted nothing and keeps the formatting it
/// was given.
#[verifier::external_body]
fn open_writer(formatting: Formatting) -> (writer: xml::writer::EventWriter<Vec<u8>>)
    ensures
        accepted(writer) == Seq::<TokenModel>::empty(),
        formatting_of(writer) == formatting,
{
    xml::writer::EmitterConfig::new()
        .perform_indent(formatting.indent)
        .pad_self_closing(formatting.pad_self_closing)
        .create_writer(Vec::new())
}

/// Hands one token to `xml::writer::EventWriter::write`, as the event built
/// by `XmlEvent::start_element` (with `attr` for each attribute),
/// `XmlEvent::characters` or `XmlEvent::end_element`.
/// Assumed: writing into a buffer in memory, the writer refuses a token only
/// when it is an `End` and no element is open, which is when it has no name
/// to close; a token that it accepts is added to those accepted; the
/// formatting stays.
#[verifier::external_body]
fn write_token(writer: &mut xml::writer::EventWriter<Vec<u8>>, token: &XmlToken) -> (outcome:
    Result<(), xml::writer::Error>)
    ensures
        outcome is Err <==> token@ is End && open_depth(accepted(*old(writer))) <= 0,
        outcome is Ok ==> accepted(*final(writer)) == accepted(*old(writer)).push(token@),
        formatting_of(*final(writer)) == formatting_of(*old(writer)),
{
    match token {
        XmlToken::Start { name, attributes } => {
            let mut start = xml::writer::XmlEvent::start_element(name.as_str());
            for attribute in attributes.iter() {
                start = start.attr(attribute.name.as_str(), attribute.value.as_str());
            }
            writer.write(start)
        },
        XmlToken::Text { content } => writer.write(
            xml::writer::XmlEvent::characters(content.as_str()),
        ),
        XmlToken::End => writer.write(xml::writer::XmlEvent::end_element()),
    }
}

/// Takes the buffer out of the writer with
/// `xml::writer::EventWriter::into_inner` and reads it as text.
/// Assumed: the text is determined by the writer's formatting and by the
/// tokens it accepted.
#[verifier::external_body]
fn into_text(writer: xml::writer::EventWriter<Vec<u8>>) -> (text: String)
    ensures
        text@ == written_text(formatting_of(writer), accepted(writer)),
{
    String::from_utf8_lossy(&writer.into_inner()).into_owned()
}

/// Writes `tokens` out, in order, with the given formatting.
///
/// Succeeds exactly when no `End` comes with nothing open, and the text is
/// then what the writer holds after all of the tokens. Otherwise the first
/// such `End` is reported.
pub fn render_tokens(tokens: &Vec<XmlToken>, formatting: Formatting) -> (rendered: Result<
    String,
    RenderError,
>)
    ensures
        match rendered {
            Ok(text) => {
                &&& stays_open(token_models(tokens@), 0)
                &&& text@ == written_text(formatting, token_models(tokens@))
            },
            Err(RenderError::UnmatchedEnd { index }) => is_first_unmatched_end(
                token_models(tokens@),
                index as int,
            ),
        },
{
    let ghost models = token_models(tokens@);
    let mut writer = open_writer(formatting);
    proof {
        lemma_well_nested_empty();
        assert(models.take(0) =~= Seq::<TokenModel>::empty());
    }
    let mut i: usize = 0;
    while i < tokens.len()
        invariant
            i <= tokens.len(),
            models == token_models(tokens@),
            accepted(writer) == models.take(i as int),
            formatting_of(writer) == formatting,
            stays_open(models.take(i as int), 0),
        decreases tokens.len() - i,
    {
        let ghost so_far = models.take(i as int);
        assert(so_far.take(i as int) =~= so_far);
        assert(open_depth(so_far) >= 0);
        match write_token(&mut writer, &tokens[i]) {
            Ok(_) => {
                proof {
                    assert(models.take(i + 1) =~= so_far.push(models[i as int]));
                    lemma_stays_open_push(so_far, models[i as int], 0);
                }
            },
            Err(_) => {
                return Err(RenderError::UnmatchedEnd { index: i });
            },
        }
        i += 1;
    }
    assert(models.take(i as int) =~= models);
    Ok(into_text(writer))
}

} // verus!
