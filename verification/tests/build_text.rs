use mbopml::{build, BuildError, OutlineFormat, OutlineStyle, UserRecord};

fn jane() -> Vec<UserRecord> {
    vec![UserRecord::new("Jane Doe", "jane")]
}

#[test]
fn empty_list_gives_empty_body_in_every_format_and_style() {
    let expected = "<?xml version=\"1.0\" encoding=\"UTF-8\"?>\n<opml>\n  <head/>\n  <body/>\n</opml>";
    for format in [OutlineFormat::Xml, OutlineFormat::Json, OutlineFormat::Unrecognized] {
        for style in [OutlineStyle::ElementBodied, OutlineStyle::AttributeBodied] {
            assert_eq!(build(&Vec::new(), format, style), Ok(expected.to_string()));
        }
    }
}

#[test]
fn attribute_bodied_scenario_jane_json() {
    let text = build(&jane(), OutlineFormat::Json, OutlineStyle::AttributeBodied).unwrap();
    let outline = "<outline text=\"Jane Doe\" type=\"rss\" title=\"Jane Doe\" xmlUrl=\"https://jane.micro.blog/feed.json\"/>";
    assert_eq!(text.matches(outline).count(), 1);
    assert_eq!(text.matches("<outline").count(), 1);
    let opml = text.find("<opml>").unwrap();
    let body = text.find("<body>").unwrap();
    let at = text.find(outline).unwrap();
    let body_end = text.find("</body>").unwrap();
    let opml_end = text.find("</opml>").unwrap();
    assert!(opml < body && body < at && at < body_end && body_end < opml_end);
    assert_eq!(
        text,
        format!(
            "<?xml version=\"1.0\" encoding=\"UTF-8\"?>\n<opml>\n  <head/>\n  <body>\n    {}\n  </body>\n</opml>",
            outline
        )
    );
}

#[test]
fn element_bodied_jane_xml_exact_text() {
    let text = build(&jane(), OutlineFormat::Xml, OutlineStyle::ElementBodied).unwrap();
    assert_eq!(
        text,
        "<?xml version=\"1.0\" encoding=\"UTF-8\"?>\n<opml>\n  <head/>\n  <body>\n    <outline>Jane Doe<type>rss</type>\n      <title>Jane Doe</title>\n      <xmlUrl>https://jane.micro.blog/feed.xml</xmlUrl>\n    </outline>\n  </body>\n</opml>"
    );
}

#[test]
fn unrecognized_format_gives_empty_feed_address() {
    let attribute = build(&jane(), OutlineFormat::Unrecognized, OutlineStyle::AttributeBodied).unwrap();
    assert!(attribute.contains("<outline text=\"Jane Doe\" type=\"rss\" title=\"Jane Doe\" xmlUrl=\"\"/>"));
    let element = build(&jane(), OutlineFormat::Unrecognized, OutlineStyle::ElementBodied).unwrap();
    assert_eq!(
        element,
        "<?xml version=\"1.0\" encoding=\"UTF-8\"?>\n<opml>\n  <head/>\n  <body>\n    <outline>Jane Doe<type>rss</type>\n      <title>Jane Doe</title>\n      <xmlUrl></xmlUrl>\n    </outline>\n  </body>\n</opml>"
    );
}

#[test]
fn record_without_username_fails_the_build() {
    let users = vec![UserRecord { name: Some("Jane Doe".to_string()), username: None }];
    for style in [OutlineStyle::ElementBodied, OutlineStyle::AttributeBodied] {
        assert_eq!(
            build(&users, OutlineFormat::Xml, style),
            Err(BuildError::MalformedRecord { index: 0 })
        );
    }
}

#[test]
fn record_without_name_fails_the_build() {
    let users = vec![UserRecord { name: None, username: Some("jane".to_string()) }];
    assert_eq!(
        build(&users, OutlineFormat::Json, OutlineStyle::AttributeBodied),
        Err(BuildError::MalformedRecord { index: 0 })
    );
}

#[test]
fn empty_field_counts_as_not_supplied() {
    let no_name = vec![UserRecord::new("", "jane")];
    assert_eq!(
        build(&no_name, OutlineFormat::Xml, OutlineStyle::ElementBodied),
        Err(BuildError::MalformedRecord { index: 0 })
    );
    let no_username = vec![UserRecord::new("Jane Doe", "")];
    assert_eq!(
        build(&no_username, OutlineFormat::Xml, OutlineStyle::ElementBodied),
        Err(BuildError::MalformedRecord { index: 0 })
    );
}

#[test]
fn first_malformed_record_is_the_one_reported() {
    let users = vec![
        UserRecord::new("Ann", "ann"),
        UserRecord::new("Bob", "bob"),
        UserRecord { name: Some("Cy".to_string()), username: None },
        UserRecord { name: None, username: None },
    ];
    assert_eq!(
        build(&users, OutlineFormat::Xml, OutlineStyle::AttributeBodied),
        Err(BuildError::MalformedRecord { index: 2 })
    );
}
