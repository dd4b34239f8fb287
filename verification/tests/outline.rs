use podchiver::outline::{
    feed_requests, parse_outlines, process_outline, FeedOutline, OutlineParseError,
};

const LIST: &str = r#"<?xml version="1.0" encoding="UTF-8"?>
<opml version="2.0">
  <head><title>Feeds</title></head>
  <body>
    <outline text="One" type="rss" xmlUrl="https://example.com/one.xml"/>
    <outline text="Folder">
      <outline text="Nested" type="rss" xmlUrl="https://example.com/nested.xml"/>
    </outline>
    <outline text="Two" xmlUrl="https://example.com/two.xml"/>
  </body>
</opml>"#;

const FEED: &str = "<rss version=\"2.0\"><channel><title>T</title>\
<item><title>a</title><enclosure url=\"https://e.com/a.mp3\" length=\"1\" type=\"a/b\"/></item>\
</channel></rss>";

fn outline(text: &str, url: Option<&str>) -> FeedOutline {
    FeedOutline { text: text.to_string(), xml_url: url.map(|u| u.to_string()) }
}

#[test]
fn outlines_are_read_in_order() {
    let outlines = parse_outlines(LIST).unwrap();
    let seen: Vec<(&str, Option<&str>)> =
        outlines.iter().map(|o| (o.text.as_str(), o.xml_url.as_deref())).collect();
    assert_eq!(
        seen,
        vec![
            ("One", Some("https://example.com/one.xml")),
            ("Folder", None),
            ("Two", Some("https://example.com/two.xml")),
        ]
    );
}

#[test]
fn outline_document_errors() {
    assert_eq!(
        parse_outlines("<opml version=\"2.0\"><head/><body/></opml>").err(),
        Some(OutlineParseError::BodyHasNoOutlines)
    );
    assert_eq!(
        parse_outlines("<opml version=\"3.0\"><head/><body><outline text=\"a\"/></body></opml>")
            .err(),
        Some(OutlineParseError::UnsupportedVersion)
    );
    assert_eq!(parse_outlines("this is no outline").err(), Some(OutlineParseError::Xml));
    assert_eq!(parse_outlines("").err(), Some(OutlineParseError::Xml));
}

#[test]
fn feed_requests_pass_over_entries_without_address() {
    let outlines = parse_outlines(LIST).unwrap();
    let requests = feed_requests(&outlines);
    let seen: Vec<(&str, &str)> =
        requests.iter().map(|r| (r.title.as_str(), r.url.as_str())).collect();
    assert_eq!(
        seen,
        vec![("One", "https://example.com/one.xml"), ("Two", "https://example.com/two.xml")]
    );
    assert_eq!(feed_requests(&Vec::new()).len(), 0);
    assert_eq!(feed_requests(&vec![outline("x", None)]).len(), 0);
}

#[test]
fn process_outline_gives_the_podcast_of_a_fetched_feed() {
    let podcasts = process_outline(&outline("One", Some("https://example.com/one.xml")), Some(FEED));
    assert_eq!(podcasts.len(), 1);
    assert_eq!(podcasts[0].title, "T");
    assert_eq!(podcasts[0].episodes.len(), 1);
}

#[test]
fn process_outline_gives_nothing_on_failure() {
    let with_url = outline("One", Some("https://example.com/one.xml"));
    assert_eq!(process_outline(&with_url, None).len(), 0);
    assert_eq!(process_outline(&with_url, Some("<html/>")).len(), 0);
    assert_eq!(process_outline(&outline("None", None), Some(FEED)).len(), 0);
    assert_eq!(process_outline(&outline("None", None), None).len(), 0);
}
