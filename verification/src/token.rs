//! XML tokens: what is handed to the writer, one piece at a time, and what it
//! means for a sequence of them to be well nested.

use vstd::prelude::*;

verus! {

/// One attribute of an element.
#[derive(Clone, Debug, PartialEq, Eq)]
pub struct Attribute {
    pub name: String,
    pub value: String,
}

/// The mathematical value of an [`Attribute`].
pub struct AttributeModel {
    pub name: Seq<char>,
    pub value: Seq<char>,
}

impl View for Attribute {
    type V = AttributeModel;

    open spec fn view(&self) -> AttributeModel {
        AttributeModel { name: self.name@, value: self.value@ }
    }
}

/// One piece of a document in writing order.
#[derive(Clone, Debug, PartialEq, Eq)]
pub enum XmlToken {
    /// An element opens, with its attributes in order.
    Start { name: String, attributes: Vec<Attribute> },
    /// Character data; the writer escapes it.
    Text { content: String },
    /// The element opened last, and still open, closes.
    End,
}

/// The mathematical value of an [`XmlToken`].
pub enum TokenModel {
    Start { name: Seq<char>, attributes: Seq<AttributeModel> },
    Text { content: Seq<char> },
    End,
}

impl View for XmlToken {
    type V = TokenModel;

    open spec fn view(&self) -> TokenModel {
        match *self {
            XmlToken::Start { name, attributes } => TokenModel::Start {
                name: name@,
                attributes: attributes@.map_values(|attribute: Attribute| attribute@),
            },
            XmlToken::Text { content } => TokenModel::Text { content: content@ },
            XmlToken::End => TokenModel::End,
        }
    }
}

/// The values of a list of tokens, in order.
pub open spec fn token_models(tokens: Seq<XmlToken>) -> Seq<TokenModel> {
    tokens.map_values(|token: XmlToken| token@)
}

/// By how much a token changes the number of open elements.
pub open spec fn depth_change(token: TokenModel) -> int {
    match token {
        TokenModel::Start { .. } => 1,
        TokenModel::Text { .. } => 0,
        TokenModel::End => -1,
    }
}

/// The number of elements opened by `tokens` minus the number closed.
pub open spec fn open_depth(tokens: Seq<TokenModel>) -> int
    decreases tokens.len(),
{
    if tokens.len() == 0 {
        0
    } else {
        open_depth(tokens.drop_last()) + depth_change(tokens.last())
    }
}

/// Starting with `base` elements open, no prefix of `tokens` closes more
/// elements than are open.
pub open spec fn stays_open(tokens: Seq<TokenModel>, base: int) -> bool {
    forall|k: int| 0 <= k <= tokens.len() ==> base + open_depth(#[trigger] tokens.take(k)) >= 0
}

/// Every `End` closes an element that is open, and nothing is left open.
pub open spec fn well_nested(tokens: Seq<TokenModel>) -> bool {
    stays_open(tokens, 0) && open_depth(tokens) == 0
}

/// An element: its opening token, what it holds, and the `End` that closes
/// it.
pub open spec fn enclose(start: TokenModel, inner: Seq<TokenModel>) -> Seq<TokenModel> {
    seq![start] + inner + seq![TokenModel::End]
}

/// `index` is the position of the first `End` that has nothing to close.
pub open spec fn is_first_unmatched_end(tokens: Seq<TokenModel>, index: int) -> bool {
    &&& 0 <= index < tokens.len()
    &&& tokens[index] is End
    &&& open_depth(tokens.take(index)) == 0
    &&& stays_open(tokens.take(index), 0)
}

/// Appending one token adds its change to the depth.
pub proof fn lemma_depth_push(tokens: Seq<TokenModel>, token: TokenModel)
    ensures
        open_depth(tokens.push(token)) == open_depth(tokens) + depth_change(token),
{
    assert(tokens.push(token).drop_last() =~= tokens);
}

/// A sequence that stays open still does after one more token, unless that
/// token closes what is not open.
pub proof fn lemma_stays_open_push(tokens: Seq<TokenModel>, token: TokenModel, base: int)
    requires
        stays_open(tokens, base),
        base + open_depth(tokens) + depth_change(token) >= 0,
    ensures
        stays_open(tokens.push(token), base),
{
    let longer = tokens.push(token);
    assert forall|k: int| 0 <= k <= longer.len() implies base + open_depth(
        #[trigger] longer.take(k),
    ) >= 0 by {
        if k <= tokens.len() {
            assert(longer.take(k) =~= tokens.take(k));
        } else {
            assert(longer.take(k) =~= longer);
            lemma_depth_push(tokens, token);
        }
    }
}

/// Depth is additive over concatenation.
pub proof fn lemma_depth_concat(left: Seq<TokenModel>, right: Seq<TokenModel>)
    ensures
        open_depth(left + right) == open_depth(left) + open_depth(right),
    decreases right.len(),
{
    if right.len() == 0 {
        assert(left + right =~= left);
    } else {
        lemma_depth_concat(left, right.drop_last());
        assert((left + right).drop_last() =~= left + right.drop_last());
    }
}

/// Two sequences that stay open, the second from where the first ends, stay
/// open when joined.
pub proof fn lemma_stays_open_concat(left: Seq<TokenModel>, right: Seq<TokenModel>, base: int)
    requires
        stays_open(left, base),
        stays_open(right, base + open_depth(left)),
    ensures
        stays_open(left + right, base),
{
    let joined = left + right;
    assert forall|k: int| 0 <= k <= joined.len() implies base + open_depth(
        #[trigger] joined.take(k),
    ) >= 0 by {
        if k <= left.len() {
            assert(joined.take(k) =~= left.take(k));
        } else {
            assert(joined.take(k) =~= left + right.take(k - left.len()));
            lemma_depth_concat(left, right.take(k - left.len()));
        }
    }
}

/// No tokens are well nested.
pub proof fn lemma_well_nested_empty()
    ensures
        well_nested(Seq::<TokenModel>::empty()),
{
    let empty = Seq::<TokenModel>::empty();
    assert forall|k: int| 0 <= k <= empty.len() implies open_depth(#[trigger] empty.take(k))
        >= 0 by {
        assert(empty.take(k) =~= empty);
    }
}

/// Text alone is well nested.
pub proof fn lemma_well_nested_text(content: Seq<char>)
    ensures
        well_nested(seq![TokenModel::Text { content }]),
{
    let empty = Seq::<TokenModel>::empty();
    let text = TokenModel::Text { content };
    lemma_well_nested_empty();
    lemma_depth_push(empty, text);
    lemma_stays_open_push(empty, text, 0);
}

/// Two well nested sequences, one after the other, are well nested.
pub proof fn lemma_well_nested_join(left: Seq<TokenModel>, right: Seq<TokenModel>)
    requires
        well_nested(left),
        well_nested(right),
    ensures
        well_nested(left + right),
{
    lemma_depth_concat(left, right);
    lemma_stays_open_concat(left, right, 0);
}

/// An element around well nested content is well nested.
pub proof fn lemma_well_nested_enclose(start: TokenModel, inner: Seq<TokenModel>)
    requires
        start is Start,
        well_nested(inner),
    ensures
        well_nested(enclose(start, inner)),
{
    let empty = Seq::<TokenModel>::empty();
    let opened = seq![start];
    lemma_well_nested_empty();
    lemma_depth_push(empty, start);
    lemma_stays_open_push(empty, start, 0);
    assert(stays_open(inner, 1)) by {
        assert forall|k: int| 0 <= k <= inner.len() implies 1 + open_depth(
            #[trigger] inner.take(k),
        ) >= 0 by {
            assert(0 + open_depth(inner.take(k)) >= 0);
        }
    }
    lemma_depth_concat(opened, inner);
    lemma_stays_open_concat(opened, inner, 0);
    lemma_depth_push(opened + inner, TokenModel::End);
    lemma_stays_open_push(opened + inner, TokenModel::End, 0);
    assert(enclose(start, inner) =~= (opened + inner).push(TokenModel::End));
}

/// A sequence of tokens cannot both be free of unmatched ends and have a
/// first unmatched end.
pub proof fn lemma_unmatched_end_breaks_nesting(tokens: Seq<TokenModel>, index: int)
    requires
        is_first_unmatched_end(tokens, index),
    ensures
        !stays_open(tokens, 0),
{
    assert(tokens.take(index + 1) =~= tokens.take(index).push(tokens[index]));
    lemma_depth_push(tokens.take(index), tokens[index]);
    assert(open_depth(tokens.take(index + 1)) == -1);
}

} // verus!
