use mbopml::{
    build_document, first_malformed, render_tokens, serialize, tokenize_document, Attribute,
    BuildError, Formatting, Outline, OutlineDocument, OutlineFormat, OutlineStyle, RenderError,
    UserRecord, XmlToken,
};

fn start(name: &str) -> XmlToken {
    XmlToken::Start { name: name.to_string(), attributes: Vec::new() }
}

fn text(content: &str) -> XmlToken {
    XmlToken::Text { content: content.to_string() }
}

fn attribute(name: &str, value: &str) -> Attribute {
    Attribute { name: name.to_string(), value: value.to_string() }
}

fn indented() -> Formatting {
    Formatting { indent: true, pad_self_closing: false }
}

fn jane_document() -> OutlineDocument {
    OutlineDocument {
        outlines: vec![Outline {
            name: "Jane Doe".to_string(),
            xml_url: "https://jane.micro.blog/feed.json".to_string(),
        }],
    }
}

#[test]
fn document_of_records_keeps_number_and_order() {
    let users = vec![
        UserRecord::new("Cy", "cy"),
        UserRecord::new("Ann", "ann"),
        UserRecord::new("Bob", "bob"),
    ];
    let document = build_document(&users, OutlineFormat::Xml).unwrap();
    assert_eq!(
        document,
        OutlineDocument {
            outlines: vec![
                Outline { name: "Cy".to_string(), xml_url: "https://cy.micro.blog/feed.xml".to_string() },
                Outline { name: "Ann".to_string(), xml_url: "https://ann.micro.blog/feed.xml".to_string() },
                Outline { name: "Bob".to_string(), xml_url: "https://bob.micro.blog/feed.xml".to_string() },
            ],
        }
    );
}

#[test]
fn document_of_no_records_has_no_outlines() {
    assert_eq!(
        build_document(&Vec::new(), OutlineFormat::Json),
        Ok(OutlineDocument { outlines: Vec::new() })
    );
}

#[test]
fn document_is_not_built_from_a_malformed_record() {
    let users = vec![UserRecord::new("Ann", "ann"), UserRecord { name: None, username: Some("x".to_string()) }];
    assert_eq!(
        build_document(&users, OutlineFormat::Json),
        Err(BuildError::MalformedRecord { index: 1 })
    );
}

#[test]
fn first_malformed_finds_the_first_gap() {
    let complete = vec![UserRecord::new("Ann", "ann"), UserRecord::new("Bob", "bob")];
    assert_eq!(first_malformed(&complete), None);
    assert_eq!(first_malformed(&Vec::new()), None);
    let gaps = vec![
        UserRecord::new("Ann", "ann"),
        UserRecord::new("Bob", ""),
        UserRecord { name: None, username: None },
    ];
    assert_eq!(first_malformed(&gaps), Some(1));
    assert!(UserRecord::new("Ann", "ann").is_complete());
    assert!(!UserRecord::new("", "ann").is_complete());
    assert!(!UserRecord { name: Some("Ann".to_string()), username: None }.is_complete());
}

#[test]
fn tokens_of_an_empty_document() {
    let document = OutlineDocument { outlines: Vec::new() };
    for style in [OutlineStyle::ElementBodied, OutlineStyle::AttributeBodied] {
        assert_eq!(
            tokenize_document(&document, style),
            vec![start("opml"), start("head"), XmlToken::End, start("body"), XmlToken::End, XmlToken::End]
        );
    }
}

#[test]
fn tokens_of_an_element_bodied_outline() {
    assert_eq!(
        tokenize_document(&jane_document(), OutlineStyle::ElementBodied),
        vec![
            start("opml"),
            start("head"),
            XmlToken::End,
            start("body"),
            start("outline"),
            text("Jane Doe"),
            start("type"),
            text("rss"),
            XmlToken::End,
            start("title"),
            text("Jane Doe"),
            XmlToken::End,
            start("xmlUrl"),
            text("https://jane.micro.blog/feed.json"),
            XmlToken::End,
            XmlToken::End,
            XmlToken::End,
            XmlToken::End,
        ]
    );
}

#[test]
fn tokens_of_an_attribute_bodied_outline() {
    assert_eq!(
        tokenize_document(&jane_document(), OutlineStyle::AttributeBodied),
        vec![
            start("opml"),
            start("head"),
            XmlToken::End,
            start("body"),
            XmlToken::Start {
                name: "outline".to_string(),
                attributes: vec![
                    attribute("text", "Jane Doe"),
                    attribute("type", "rss"),
                    attribute("title", "Jane Doe"),
                    attribute("xmlUrl", "https://jane.micro.blog/feed.json"),
                ],
            },
            XmlToken::End,
            XmlToken::End,
            XmlToken::End,
        ]
    );
}

#[test]
fn serialize_writes_the_tree() {
    assert_eq!(
        serialize(&jane_document(), OutlineStyle::AttributeBodied),
        "<?xml version=\"1.0\" encoding=\"UTF-8\"?>\n<opml>\n  <head/>\n  <body>\n    <outline text=\"Jane Doe\" type=\"rss\" title=\"Jane Doe\" xmlUrl=\"https://jane.micro.blog/feed.json\"/>\n  </body>\n</opml>"
    );
}

#[test]
fn render_reports_the_first_unmatched_end() {
    let tokens = vec![start("a"), XmlToken::End, text("x"), XmlToken::End, XmlToken::End];
    assert_eq!(render_tokens(&tokens, indented()), Err(RenderError::UnmatchedEnd { index: 3 }));
    assert_eq!(
        render_tokens(&vec![XmlToken::End], indented()),
        Err(RenderError::UnmatchedEnd { index: 0 })
    );
}

#[test]
fn render_writes_tokens_in_order() {
    let tokens = vec![
        XmlToken::Start { name: "a".to_string(), attributes: vec![attribute("k", "v"), attribute("l", "w")] },
        start("b"),
        text("one"),
        XmlToken::End,
        start("c"),
        XmlToken::End,
        XmlToken::End,
    ];
    assert_eq!(
        render_tokens(&tokens, Formatting { indent: false, pad_self_closing: false }),
        Ok("<?xml version=\"1.0\" encoding=\"UTF-8\"?><a k=\"v\" l=\"w\"><b>one</b><c/></a>".to_string())
    );
    assert_eq!(
        render_tokens(&tokens, Formatting { indent: true, pad_self_closing: true }),
        Ok("<?xml version=\"1.0\" encoding=\"UTF-8\"?>\n<a k=\"v\" l=\"w\">\n  <b>one</b>\n  <c />\n</a>".to_string())
    );
}

#[test]
fn render_of_no_tokens_is_empty() {
    assert_eq!(render_tokens(&Vec::new(), indented()), Ok(String::new()));
}
