use trs::error::ParseError;
use trs::parser::parse;
use trs::parser::XmlEvent;
use trs::parser::XmlField;
use trs::parser::XmlTagField;
use trs::roundtrip::channel_to_events;

fn start(name: &str) -> XmlEvent {
    XmlEvent::ElementStart(name.to_string())
}

fn end(name: &str) -> XmlEvent {
    XmlEvent::ElementEnd(name.to_string())
}

fn text(data: &str) -> XmlEvent {
    XmlEvent::Text(data.to_string())
}

fn field(name: &str, value: &str) -> Vec<XmlEvent> {
    vec![start(name), text(value), end(name)]
}

fn sample_events() -> Vec<XmlEvent> {
    let mut events = vec![start("rss"), start("channel")];
    events.extend(field("title", "A feed"));
    events.extend(field("link", "https://feed.example/"));
    events.extend(field("description", "About things"));
    events.push(start("item"));
    events.extend(field("title", "First"));
    events.extend(field("link", "https://feed.example/1"));
    events.extend(field("description", "one"));
    events.extend(field("pubDate", "Mon, 02 Jan 2006 15:04:05 -0700"));
    events.push(end("item"));
    events.push(start("item"));
    events.extend(field("title", "Second"));
    events.extend(field("link", "https://feed.example/2"));
    events.extend(field("description", "two"));
    events.push(end("item"));
    events.push(end("channel"));
    events.push(end("rss"));
    events
}

#[test]
fn parse_extracts_channel_and_articles() {
    let channel = parse(&sample_events()).unwrap();
    assert_eq!(channel.title, "A feed");
    assert_eq!(channel.link, "https://feed.example/");
    assert_eq!(channel.description, "About things");
    assert_eq!(channel.articles.len(), 2);
    assert_eq!(channel.articles[0].title, "First");
    assert_eq!(channel.articles[0].link, "https://feed.example/1");
    assert_eq!(channel.articles[0].date, Some(1136239445));
    assert_eq!(
        channel.articles[0].date_text.as_deref(),
        Some("Mon, 02 Jan 2006 15:04:05 -0700")
    );
    assert_eq!(channel.articles[1].title, "Second");
    assert_eq!(channel.articles[1].date, None);
}

#[test]
fn parse_ignores_unknown_tags() {
    let mut events = vec![start("rss"), start("channel"), start("language")];
    events.push(text("en"));
    events.push(end("language"));
    events.extend(field("title", "t"));
    events.extend(field("link", "l"));
    events.extend(field("description", "d"));
    events.push(end("channel"));
    events.push(end("rss"));
    let channel = parse(&events).unwrap();
    assert_eq!(channel.title, "t");
    assert_eq!(channel.articles.len(), 0);
}

#[test]
fn parse_later_characters_overwrite_field() {
    let mut events = vec![start("title"), text("first"), text("second"), end("title")];
    events.extend(field("link", "l"));
    events.extend(field("description", "d"));
    let channel = parse(&events).unwrap();
    assert_eq!(channel.title, "second");
}

#[test]
fn parse_missing_title_is_invalid_feed() {
    let mut events = Vec::new();
    events.extend(field("link", "l"));
    events.extend(field("description", "d"));
    assert_eq!(parse(&events), Err(ParseError::MissingChannelFields));
}

#[test]
fn parse_missing_link_is_invalid_feed() {
    let mut events = Vec::new();
    events.extend(field("title", "t"));
    events.extend(field("description", "d"));
    assert_eq!(parse(&events), Err(ParseError::MissingChannelFields));
}

#[test]
fn parse_missing_description_is_invalid_feed() {
    let mut events = Vec::new();
    events.extend(field("title", "t"));
    events.extend(field("link", "l"));
    assert_eq!(parse(&events), Err(ParseError::MissingChannelFields));
}

#[test]
fn parse_second_title_before_close_is_structural_error() {
    let mut events = Vec::new();
    events.extend(field("title", "t"));
    events.extend(field("link", "l"));
    events.extend(field("description", "d"));
    events.push(start("item"));
    events.push(start("title"));
    events.push(start("title"));
    let err = parse(&events).unwrap_err();
    assert_eq!(
        err,
        ParseError::UnexpectedStartTag {
            tag: "title".to_string(),
            open_field: "item > title".to_string(),
        }
    );
}

#[test]
fn parse_unclosed_field_at_item_end_is_error() {
    let events = vec![start("item"), start("title"), end("item")];
    let err = parse(&events).unwrap_err();
    assert_eq!(
        err,
        ParseError::UnclosedFieldInItem { open_field: "item > title".to_string() }
    );
}

#[test]
fn parse_mismatched_end_tag_is_error() {
    let events = vec![start("title"), text("t"), end("link")];
    let err = parse(&events).unwrap_err();
    assert_eq!(
        err,
        ParseError::MismatchedEndTag { tag: "link".to_string(), expected: "title".to_string() }
    );
}

#[test]
fn parse_reader_error_aborts() {
    let events = vec![start("title"), XmlEvent::ReadError("boom".to_string())];
    let err = parse(&events).unwrap_err();
    assert_eq!(err, ParseError::Reader { message: "boom".to_string() });
}

#[test]
fn parse_bad_date_is_error() {
    let mut events = vec![start("item")];
    events.extend(field("pubDate", "garbage"));
    let err = parse(&events).unwrap_err();
    assert_eq!(err, ParseError::InvalidDate { text: "garbage".to_string() });
}

#[test]
fn parse_item_close_resets_prefix() {
    // After an item closes, `title` resolves at channel level again, so the
    // only failure left is the empty-field validation.
    let events = vec![start("item"), end("item"), start("title"), text("x"), end("title")];
    let channel = parse(&events);
    assert!(matches!(channel, Err(ParseError::MissingChannelFields)));
}

#[test]
fn resolver_maps_all_known_tag_paths() {
    let cases = [
        ("title", XmlField::ChannelTitle, "title"),
        ("link", XmlField::ChannelLink, "link"),
        ("description", XmlField::ChannelDescription, "description"),
        ("item > title", XmlField::ArticleTitle, "title"),
        ("item > link", XmlField::ArticleLink, "link"),
        ("item > description", XmlField::ArticleDescription, "description"),
        ("item > pubDate", XmlField::ArticlePubDate, "pubDate"),
    ];
    for (hier, expected_field, expected_tag) in cases {
        let row = XmlTagField::corresponding_field(hier).unwrap();
        assert_eq!(row.field, expected_field);
        assert_eq!(row.hierarchical_tag, hier);
        assert_eq!(row.tag, expected_tag);
    }
    assert!(XmlTagField::corresponding_field("guid").is_none());
    assert!(XmlTagField::corresponding_field("item > guid").is_none());
}

#[test]
fn mapping_builds_a_row() {
    let row = XmlTagField::mapping("item > pubDate", "pubDate", XmlField::ArticlePubDate);
    assert_eq!(row.hierarchical_tag, "item > pubDate");
    assert_eq!(row.tag, "pubDate");
    assert_eq!(row.field, XmlField::ArticlePubDate);
}

#[test]
fn round_trip_preserves_content() {
    let channel = parse(&sample_events()).unwrap();
    let reemitted = channel_to_events(&channel);
    let reparsed = parse(&reemitted).unwrap();
    assert_eq!(reparsed, channel);
}
