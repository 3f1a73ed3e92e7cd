//! From the document tree to the tokens that are written: the root, the empty
//! head, and the body with one block of tokens per outline, in either of the
//! two outline styles.

use vstd::prelude::*;
use crate::outline::{Outline, OutlineDocument, OutlineModel};
use crate::token::{
    enclose, lemma_well_nested_empty, lemma_well_nested_enclose, lemma_well_nested_join,
    lemma_well_nested_text, token_models, well_nested, Attribute, AttributeModel, TokenModel,
    XmlToken,
};

verus! {

/// How an outline is written.
#[derive(Clone, Copy, Debug, PartialEq, Eq, Structural)]
pub enum OutlineStyle {
    /// The display name as text of the `outline` element, followed by the
    /// child elements `type`, `title` and `xmlUrl`.
    ElementBodied,
    /// One empty `outline` element with the attributes `text`, `type`,
    /// `title` and `xmlUrl`.
    AttributeBodied,
}

/// The opening of an element without attributes.
pub open spec fn element(name: Seq<char>) -> TokenModel {
    TokenModel::Start { name, attributes: Seq::<AttributeModel>::empty() }
}

/// An element that holds text only.
pub open spec fn text_element(name: Seq<char>, content: Seq<char>) -> Seq<TokenModel> {
    enclose(element(name), seq![TokenModel::Text { content }])
}

/// The four attributes of an attribute-bodied outline, in writing order.
pub open spec fn outline_attributes(outline: OutlineModel) -> Seq<AttributeModel> {
    seq![
        AttributeModel { name: "text"@, value: outline.name },
        AttributeModel { name: "type"@, value: "rss"@ },
        AttributeModel { name: "title"@, value: outline.name },
        AttributeModel { name: "xmlUrl"@, value: outline.xml_url },
    ]
}

/// What an element-bodied outline holds: the display name as text, then the
/// three child elements.
pub open spec fn outline_children(outline: OutlineModel) -> Seq<TokenModel> {
    seq![TokenModel::Text { content: outline.name }] + text_element("type"@, "rss"@)
        + text_element("title"@, outline.name) + text_element("xmlUrl"@, outline.xml_url)
}

/// The tokens of one outline.
pub open spec fn outline_tokens(outline: OutlineModel, style: OutlineStyle) -> Seq<TokenModel> {
    match style {
        OutlineStyle::ElementBodied => enclose(element("outline"@), outline_children(outline)),
        OutlineStyle::AttributeBodied => enclose(
            TokenModel::Start { name: "outline"@, attributes: outline_attributes(outline) },
            Seq::<TokenModel>::empty(),
        ),
    }
}

/// What the body holds: the blocks of the outlines, one after the other.
pub open spec fn body_tokens(outlines: Seq<OutlineModel>, style: OutlineStyle) -> Seq<TokenModel>
    decreases outlines.len(),
{
    if outlines.len() == 0 {
        Seq::<TokenModel>::empty()
    } else {
        body_tokens(outlines.drop_last(), style) + outline_tokens(outlines.last(), style)
    }
}

/// The tokens of a whole document: the root `opml`, which holds an empty
/// `head` and the `body` with the outlines.
pub open spec fn document_tokens(outlines: Seq<OutlineModel>, style: OutlineStyle) -> Seq<
    TokenModel,
> {
    enclose(
        element("opml"@),
        enclose(element("head"@), Seq::<TokenModel>::empty()) + enclose(
            element("body"@),
            body_tokens(outlines, style),
        ),
    )
}

/// The number of tokens that one outline takes.
pub open spec fn outline_width(style: OutlineStyle) -> int {
    match style {
        OutlineStyle::ElementBodied => 12,
        OutlineStyle::AttributeBodied => 2,
    }
}

/// Where in the document's tokens the block of outline number `i` begins:
/// after the four tokens that open the root, the head and the body, and
/// after the blocks of the outlines before it.
pub open spec fn block_start(style: OutlineStyle, i: int) -> int {
    match style {
        OutlineStyle::ElementBodied => 4 + 12 * i,
        OutlineStyle::AttributeBodied => 4 + 2 * i,
    }
}

/// Appends one token.
fn push_token(tokens: &mut Vec<XmlToken>, token: XmlToken)
    ensures
        token_models(final(tokens)@) == token_models(old(tokens)@).push(token@),
{
    tokens.push(token);
    assert(token_models(tokens@) =~= token_models(old(tokens)@).push(token@));
}

/// Appends the opening of an element without attributes.
fn push_start(tokens: &mut Vec<XmlToken>, name: &str)
    ensures
        token_models(final(tokens)@) == token_models(old(tokens)@).push(element(name@)),
{
    let attributes: Vec<Attribute> = Vec::new();
    assert(attributes@.map_values(|attribute: Attribute| attribute@) =~= Seq::<
        AttributeModel,
    >::empty());
    push_token(tokens, XmlToken::Start { name: String::from_str(name), attributes });
}

/// Appends an element that holds text only.
fn push_text_element(tokens: &mut Vec<XmlToken>, name: &str, content: &str)
    ensures
        token_models(final(tokens)@) == token_models(old(tokens)@) + text_element(
            name@,
            content@,
        ),
{
    push_start(tokens, name);
    push_token(tokens, XmlToken::Text { content: String::from_str(content) });
    push_token(tokens, XmlToken::End);
    assert(token_models(tokens@) =~= token_models(old(tokens)@) + text_element(name@, content@));
}

/// Makes one attribute.
fn attribute(name: &str, value: &str) -> (made: Attribute)
    ensures
        made@ == (AttributeModel { name: name@, value: value@ }),
{
    Attribute { name: String::from_str(name), value: String::from_str(value) }
}

/// Appends the tokens of one outline.
fn push_outline(tokens: &mut Vec<XmlToken>, outline: &Outline, style: OutlineStyle)
    ensures
        token_models(final(tokens)@) == token_models(old(tokens)@) + outline_tokens(
            outline@,
            style,
        ),
{
    match style {
        OutlineStyle::ElementBodied => {
            push_start(tokens, "outline");
            push_token(tokens, XmlToken::Text { content: outline.name.clone() });
            push_text_element(tokens, "type", "rss");
            push_text_element(tokens, "title", outline.name.as_str());
            push_text_element(tokens, "xmlUrl", outline.xml_url.as_str());
            push_token(tokens, XmlToken::End);
        },
        OutlineStyle::AttributeBodied => {
            let mut attributes: Vec<Attribute> = Vec::new();
            attributes.push(attribute("text", outline.name.as_str()));
            attributes.push(attribute("type", "rss"));
            attributes.push(attribute("title", outline.name.as_str()));
            attributes.push(attribute("xmlUrl", outline.xml_url.as_str()));
            assert(attributes@.map_values(|attribute: Attribute| attribute@)
                =~= outline_attributes(outline@));
            push_token(
                tokens,
                XmlToken::Start { name: String::from_str("outline"), attributes },
            );
            push_token(tokens, XmlToken::End);
        },
    }
    assert(token_models(tokens@) =~= token_models(old(tokens)@) + outline_tokens(
        outline@,
        style,
    ));
}

/// The tokens before the first outline.
spec fn prologue() -> Seq<TokenModel> {
    seq![element("opml"@), element("head"@), TokenModel::End, element("body"@)]
}

/// A document's tokens, read flat: four tokens, the blocks, two `End`s.
proof fn lemma_document_flat(outlines: Seq<OutlineModel>, style: OutlineStyle)
    ensures
        document_tokens(outlines, style) == prologue() + body_tokens(outlines, style) + seq![
            TokenModel::End,
            TokenModel::End,
        ],
{
    assert(document_tokens(outlines, style) =~= prologue() + body_tokens(outlines, style) + seq![
        TokenModel::End,
        TokenModel::End,
    ]);
}

/// Lays a document out as tokens.
pub fn tokenize_document(document: &OutlineDocument, style: OutlineStyle) -> (tokens: Vec<
    XmlToken,
>)
    ensures
        token_models(tokens@) == document_tokens(document@, style),
{
    let mut tokens: Vec<XmlToken> = Vec::new();
    assert(token_models(tokens@) =~= Seq::<TokenModel>::empty());
    push_start(&mut tokens, "opml");
    push_start(&mut tokens, "head");
    push_token(&mut tokens, XmlToken::End);
    push_start(&mut tokens, "body");
    assert(token_models(tokens@) =~= prologue());
    let mut i: usize = 0;
    while i < document.outlines.len()
        invariant
            i <= document.outlines.len(),
            token_models(tokens@) == prologue() + body_tokens(document@.take(i as int), style),
        decreases document.outlines.len() - i,
    {
        push_outline(&mut tokens, &document.outlines[i], style);
        proof {
            let done = document@.take(i as int);
            let more = document@.take(i + 1);
            assert(more.drop_last() =~= done);
            assert(more.last() == document.outlines[i as int]@);
            assert(token_models(tokens@) =~= prologue() + body_tokens(more, style));
        }
        i += 1;
    }
    assert(document@.take(i as int) =~= document@);
    push_token(&mut tokens, XmlToken::End);
    push_token(&mut tokens, XmlToken::End);
    proof {
        lemma_document_flat(document@, style);
        assert(token_models(tokens@) =~= prologue() + body_tokens(document@, style) + seq![
            TokenModel::End,
            TokenModel::End,
        ]);
    }
    tokens
}

/// An element with text only is well nested.
pub proof fn lemma_text_element_well_nested(name: Seq<char>, content: Seq<char>)
    ensures
        well_nested(text_element(name, content)),
{
    lemma_well_nested_text(content);
    lemma_well_nested_enclose(element(name), seq![TokenModel::Text { content }]);
}

/// One outline's tokens are well nested, and there are twelve of them in
/// the element-bodied style and two in the attribute-bodied style.
pub proof fn lemma_outline_well_nested(outline: OutlineModel, style: OutlineStyle)
    ensures
        well_nested(outline_tokens(outline, style)),
        outline_tokens(outline, style).len() == outline_width(style),
{
    match style {
        OutlineStyle::ElementBodied => {
            let name = seq![TokenModel::Text { content: outline.name }];
            let kind = text_element("type"@, "rss"@);
            let title = text_element("title"@, outline.name);
            let url = text_element("xmlUrl"@, outline.xml_url);
            lemma_well_nested_text(outline.name);
            lemma_text_element_well_nested("type"@, "rss"@);
            lemma_text_element_well_nested("title"@, outline.name);
            lemma_text_element_well_nested("xmlUrl"@, outline.xml_url);
            lemma_well_nested_join(name, kind);
            lemma_well_nested_join(name + kind, title);
            lemma_well_nested_join(name + kind + title, url);
            lemma_well_nested_enclose(element("outline"@), outline_children(outline));
        },
        OutlineStyle::AttributeBodied => {
            lemma_well_nested_empty();
            lemma_well_nested_enclose(
                TokenModel::Start { name: "outline"@, attributes: outline_attributes(outline) },
                Seq::<TokenModel>::empty(),
            );
        },
    }
}

/// What the body holds is well nested, and as long as its outlines together.
pub proof fn lemma_body_well_nested(outlines: Seq<OutlineModel>, style: OutlineStyle)
    ensures
        well_nested(body_tokens(outlines, style)),
        body_tokens(outlines, style).len() == block_start(style, outlines.len() as int) - 4,
    decreases outlines.len(),
{
    if outlines.len() == 0 {
        lemma_well_nested_empty();
    } else {
        lemma_body_well_nested(outlines.drop_last(), style);
        lemma_outline_well_nested(outlines.last(), style);
        lemma_well_nested_join(
            body_tokens(outlines.drop_last(), style),
            outline_tokens(outlines.last(), style),
        );
    }
}

/// Every document is well nested: each `End` closes an open element and the
/// last one closes the root. Besides the outlines' blocks it holds six
/// tokens.
pub proof fn lemma_document_well_nested(outlines: Seq<OutlineModel>, style: OutlineStyle)
    ensures
        well_nested(document_tokens(outlines, style)),
        document_tokens(outlines, style).len() == block_start(style, outlines.len() as int) + 2,
{
    let head = enclose(element("head"@), Seq::<TokenModel>::empty());
    let body = enclose(element("body"@), body_tokens(outlines, style));
    lemma_well_nested_empty();
    lemma_body_well_nested(outlines, style);
    lemma_well_nested_enclose(element("head"@), Seq::<TokenModel>::empty());
    lemma_well_nested_enclose(element("body"@), body_tokens(outlines, style));
    lemma_well_nested_join(head, body);
    lemma_well_nested_enclose(element("opml"@), head + body);
}

/// Order is kept down to the tokens: the block of tokens at position `i` of
/// the body is the block of outline number `i`, and nothing stands between
/// the blocks.
pub proof fn lemma_outline_block(outlines: Seq<OutlineModel>, style: OutlineStyle, i: int)
    requires
        0 <= i < outlines.len(),
    ensures
        block_start(style, i + 1) == block_start(style, i) + outline_width(style),
        block_start(style, i + 1) <= document_tokens(outlines, style).len() - 2,
        document_tokens(outlines, style).subrange(
            block_start(style, i),
            block_start(style, i + 1),
        ) == outline_tokens(outlines[i], style),
    decreases outlines.len(),
{
    let block = outline_tokens(outlines.last(), style);
    let whole = document_tokens(outlines, style);
    lemma_document_flat(outlines, style);
    lemma_document_flat(outlines.drop_last(), style);
    lemma_body_well_nested(outlines.drop_last(), style);
    lemma_body_well_nested(outlines, style);
    lemma_outline_well_nested(outlines.last(), style);
    lemma_outline_well_nested(outlines[i], style);
    if i == outlines.len() - 1 {
        assert(whole.subrange(block_start(style, i), block_start(style, i + 1)) =~= block);
    } else {
        let shorter = document_tokens(outlines.drop_last(), style);
        lemma_outline_block(outlines.drop_last(), style, i);
        assert(outlines.drop_last()[i] == outlines[i]);
        assert(whole.subrange(block_start(style, i), block_start(style, i + 1))
            =~= shorter.subrange(block_start(style, i), block_start(style, i + 1)));
    }
}

/// With no outlines the document is the root with an empty head and an empty
/// body, in either style.
pub proof fn lemma_empty_document(style: OutlineStyle)
    ensures
        document_tokens(Seq::<OutlineModel>::empty(), style) == seq![
            element("opml"@),
            element("head"@),
            TokenModel::End,
            element("body"@),
            TokenModel::End,
            TokenModel::End,
        ],
{
    assert(document_tokens(Seq::<OutlineModel>::empty(), style) =~= seq![
        element("opml"@),
        element("head"@),
        TokenModel::End,
        element("body"@),
        TokenModel::End,
        TokenModel::End,
    ]);
}

} // verus!
