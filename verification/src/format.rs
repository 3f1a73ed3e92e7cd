//! The feed flavour selector and the feed address derived from it.

use vstd::prelude::*;

verus! {

/// Which feed of an account an outline points at.
#[derive(Clone, Copy, Debug, PartialEq, Eq, Structural)]
pub enum OutlineFormat {
    /// The account's XML feed.
    Xml,
    /// The account's JSON feed.
    Json,
    /// Any selector other than the two known ones; outlines then carry an
    /// empty feed address.
    Unrecognized,
}

/// The format that a selector string stands for: exactly `xml` and `json`
/// are known, every other string is unrecognized.
pub open spec fn format_of_selector(selector: Seq<char>) -> OutlineFormat {
    if selector == "xml"@ {
        OutlineFormat::Xml
    } else if selector == "json"@ {
        OutlineFormat::Json
    } else {
        OutlineFormat::Unrecognized
    }
}

/// The feed address of `username` in the given format.
pub open spec fn feed_url_of(username: Seq<char>, format: OutlineFormat) -> Seq<char> {
    match format {
        OutlineFormat::Xml => "https://"@ + username + ".micro.blog/feed.xml"@,
        OutlineFormat::Json => "https://"@ + username + ".micro.blog/feed.json"@,
        OutlineFormat::Unrecognized => Seq::<char>::empty(),
    }
}

/// Whether two strings hold the same characters.
fn same_text(left: &str, right: &str) -> (same: bool)
    ensures
        same == (left@ == right@),
{
    String::from_str(left) == String::from_str(right)
}

impl OutlineFormat {
    /// Reads a selector string.
    pub fn from_selector(selector: &str) -> (format: OutlineFormat)
        ensures
            format == format_of_selector(selector@),
    {
        if same_text(selector, "xml") {
            OutlineFormat::Xml
        } else if same_text(selector, "json") {
            OutlineFormat::Json
        } else {
            OutlineFormat::Unrecognized
        }
    }
}

/// Derives the feed address of `username`.
pub fn feed_url(username: &str, format: OutlineFormat) -> (url: String)
    ensures
        url@ == feed_url_of(username@, format),
{
    match format {
        OutlineFormat::Xml => String::from_str("https://").concat(username).concat(
            ".micro.blog/feed.xml",
        ),
        OutlineFormat::Json => String::from_str("https://").concat(username).concat(
            ".micro.blog/feed.json",
        ),
        OutlineFormat::Unrecognized => String::new(),
    }
}

/// The three cases of the feed address, by selector string: `xml` and `json`
/// give the account's feed of that flavour, and every other selector gives
/// the empty address.
pub proof fn lemma_feed_url_by_selector(username: Seq<char>, selector: Seq<char>)
    ensures
        selector == "xml"@ ==> feed_url_of(username, format_of_selector(selector)) == "https://"@
            + username + ".micro.blog/feed.xml"@,
        selector == "json"@ ==> feed_url_of(username, format_of_selector(selector)) == "https://"@
            + username + ".micro.blog/feed.json"@,
        selector != "xml"@ && selector != "json"@ ==> feed_url_of(
            username,
            format_of_selector(selector),
        ) == Seq::<char>::empty(),
{
    reveal_strlit("xml");
    reveal_strlit("json");
    if selector == "json"@ {
        assert(selector.len() == 4);
        assert("xml"@.len() == 3);
    }
}

} // verus!
