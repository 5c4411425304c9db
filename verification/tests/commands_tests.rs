use trs::args::GetArticlesArgs;
use trs::args::ListChannelArgs;
use trs::args::MarkReadArgs;
use trs::args::RemoveChannelArgs;
use trs::commands::add_channel;
use trs::commands::get_articles_by_channel;
use trs::commands::list_channels;
use trs::commands::mark_read;
use trs::commands::remove_channel;
use trs::commands::TrsEnv;
use trs::error::TrsError;
use trs::valid_url;

fn feed_bytes(title: &str, link: &str, items: &[(&str, &str)]) -> Vec<u8> {
    let mut xml = String::new();
    xml.push_str("<?xml version=\"1.0\" encoding=\"UTF-8\"?>\n<rss version=\"2.0\"><channel>");
    xml.push_str(&format!("<title>{}</title>", title));
    xml.push_str(&format!("<link>{}</link>", link));
    xml.push_str("<description>test feed</description>");
    for (item_title, item_link) in items {
        xml.push_str("<item>");
        xml.push_str(&format!("<title>{}</title>", item_title));
        xml.push_str(&format!("<link>{}</link>", item_link));
        xml.push_str(&format!("<description>{} body</description>", item_title));
        xml.push_str("<pubDate>Mon, 02 Jan 2006 15:04:05 +0000</pubDate>");
        xml.push_str("</item>");
    }
    xml.push_str("</channel></rss>");
    xml.into_bytes()
}

#[test]
fn valid_url_accepts_http_and_https() {
    assert_eq!(valid_url("http://a.example/"), Ok("http://a.example/".to_string()));
    assert_eq!(valid_url("https://a.example/x?q=1"), Ok("https://a.example/x?q=1".to_string()));
}

#[test]
fn valid_url_rejects_other_schemes() {
    assert_eq!(valid_url("ftp://a.example/"), Err("Invalid URL: ftp://a.example/".to_string()));
    assert_eq!(valid_url("a.example"), Err("Invalid URL: a.example".to_string()));
    assert!(valid_url("").is_err());
}

#[test]
fn add_channel_ingests_fetched_document() {
    let mut ctx = TrsEnv::new("test");
    let bytes = feed_bytes("Feed", "https://feed.example/", &[
        ("one", "https://feed.example/1"),
        ("two", "https://feed.example/2"),
    ]);
    let stored = add_channel(&mut ctx, &bytes, 100).unwrap();
    assert_eq!(stored.title, "Feed");
    assert_eq!(stored.articles.len(), 2);
    assert_eq!(stored.articles[0].pub_date, Some(1136214245));
    let listed = list_channels(&ctx, &ListChannelArgs { limit: None }).unwrap();
    assert_eq!(listed.len(), 1);
}

#[test]
fn add_channel_bad_feed_writes_nothing() {
    let mut ctx = TrsEnv::new("test");
    let bytes = b"<rss><channel><title>t</title></channel></rss>".to_vec();
    let err = add_channel(&mut ctx, &bytes, 100).unwrap_err();
    assert!(matches!(err, TrsError::Parse(_)));
    assert_eq!(list_channels(&ctx, &ListChannelArgs { limit: None }).unwrap().len(), 0);
}

#[test]
fn add_channel_malformed_xml_writes_nothing() {
    let mut ctx = TrsEnv::new("test");
    let bytes = b"<rss><channel><title>t</unclosed>".to_vec();
    assert!(add_channel(&mut ctx, &bytes, 100).is_err());
    assert_eq!(list_channels(&ctx, &ListChannelArgs { limit: None }).unwrap().len(), 0);
}

#[test]
fn remove_channel_missing_id_is_not_found() {
    let mut ctx = TrsEnv::new("test");
    let err = remove_channel(&mut ctx, &RemoveChannelArgs { id: 5 }).unwrap_err();
    assert!(matches!(err, TrsError::NotFound(_)));
}

#[test]
fn remove_channel_deletes_row_and_articles() {
    let mut ctx = TrsEnv::new("test");
    let bytes = feed_bytes("Feed", "https://feed.example/", &[("one", "https://feed.example/1")]);
    let stored = add_channel(&mut ctx, &bytes, 100).unwrap();
    remove_channel(&mut ctx, &RemoveChannelArgs { id: stored.id as u32 }).unwrap();
    assert_eq!(list_channels(&ctx, &ListChannelArgs { limit: None }).unwrap().len(), 0);
}

#[test]
fn mark_read_missing_id_is_not_found() {
    let mut ctx = TrsEnv::new("test");
    let err = mark_read(&mut ctx, &MarkReadArgs { id: 9, unread: false }).unwrap_err();
    assert!(matches!(err, TrsError::NotFound(_)));
}

#[test]
fn mark_read_flips_unread_both_ways() {
    let mut ctx = TrsEnv::new("test");
    let bytes = feed_bytes("Feed", "https://feed.example/", &[("one", "https://feed.example/1")]);
    let stored = add_channel(&mut ctx, &bytes, 100).unwrap();
    let id = stored.articles[0].id as u32;
    mark_read(&mut ctx, &MarkReadArgs { id, unread: false }).unwrap();
    let after = list_channels(&ctx, &ListChannelArgs { limit: None }).unwrap();
    assert!(!after[0].articles[0].unread);
    mark_read(&mut ctx, &MarkReadArgs { id, unread: true }).unwrap();
    let again = list_channels(&ctx, &ListChannelArgs { limit: None }).unwrap();
    assert!(again[0].articles[0].unread);
}

#[test]
fn get_articles_filters_by_channel_and_unread() {
    let mut ctx = TrsEnv::new("test");
    let one = feed_bytes("One", "https://one.example/", &[
        ("a", "https://one.example/a"),
        ("b", "https://one.example/b"),
    ]);
    let two = feed_bytes("Two", "https://two.example/", &[("c", "https://two.example/c")]);
    let stored_one = add_channel(&mut ctx, &one, 100).unwrap();
    add_channel(&mut ctx, &two, 100).unwrap();
    let read_id = stored_one.articles[0].id as u32;
    mark_read(&mut ctx, &MarkReadArgs { id: read_id, unread: false }).unwrap();

    let all = get_articles_by_channel(&ctx, &GetArticlesArgs { channel_id: None, unread: false })
        .unwrap();
    assert_eq!(all.len(), 2);
    assert_eq!(all[0].articles.len(), 2);

    let unread_only =
        get_articles_by_channel(&ctx, &GetArticlesArgs { channel_id: None, unread: true }).unwrap();
    assert_eq!(unread_only[0].articles.len(), 1);
    assert!(unread_only[0].articles.iter().all(|a| a.unread));

    let only_one = get_articles_by_channel(
        &ctx,
        &GetArticlesArgs { channel_id: Some(stored_one.id as u32), unread: false },
    )
    .unwrap();
    assert_eq!(only_one.len(), 1);
    assert_eq!(only_one[0].title, "One");

    let nobody = get_articles_by_channel(
        &ctx,
        &GetArticlesArgs { channel_id: Some(999), unread: false },
    )
    .unwrap();
    assert_eq!(nobody.len(), 0);
}

#[test]
fn list_channels_respects_limit_argument() {
    let mut ctx = TrsEnv::new("test");
    for k in 0..3 {
        let bytes = feed_bytes(
            &format!("Feed {}", k),
            &format!("https://feed{}.example/", k),
            &[],
        );
        add_channel(&mut ctx, &bytes, 100).unwrap();
    }
    assert_eq!(list_channels(&ctx, &ListChannelArgs { limit: Some(2) }).unwrap().len(), 2);
    assert_eq!(list_channels(&ctx, &ListChannelArgs { limit: None }).unwrap().len(), 3);
}
