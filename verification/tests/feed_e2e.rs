use trs::args::ListChannelArgs;
use trs::commands::add_channel;
use trs::commands::list_channels;
use trs::commands::TrsEnv;

fn sample_feed() -> Vec<u8> {
    let mut xml = String::new();
    xml.push_str("<?xml version=\"1.0\" encoding=\"UTF-8\"?>\n");
    xml.push_str("<rss version=\"2.0\"><channel>");
    xml.push_str("<title>Bryce Vandegrift&apos;s Website</title>");
    xml.push_str("<link>https://brycev.com/</link>");
    xml.push_str("<description>Updates to Bryce Vandegrift&apos;s blog</description>");
    for k in 1..=28 {
        xml.push_str("<item>");
        xml.push_str(&format!("<title>Post number {}</title>", k));
        xml.push_str(&format!("<link>https://brycev.com/blog/{}.html</link>", k));
        xml.push_str(&format!("<description>The {}th post</description>", k));
        xml.push_str(&format!("<pubDate>Mon, 02 Jan 2006 15:04:{:02} +0000</pubDate>", k % 60));
        xml.push_str("</item>");
    }
    xml.push_str("</channel></rss>");
    xml.into_bytes()
}

#[test]
fn end_to_end_sample_feed() {
    let mut ctx = TrsEnv::new("e2e");
    let bytes = sample_feed();
    let stored = add_channel(&mut ctx, &bytes, 1000).unwrap();
    assert_eq!(stored.title, "Bryce Vandegrift's Website");
    assert_eq!(stored.link, "https://brycev.com/");
    assert_eq!(stored.articles.len(), 28);

    let listed = list_channels(&ctx, &ListChannelArgs { limit: Some(1) }).unwrap();
    assert_eq!(listed.len(), 1);
    let channel = &listed[0];
    assert_eq!(channel.title, "Bryce Vandegrift's Website");
    assert_eq!(channel.link, "https://brycev.com/");
    assert_eq!(channel.articles.len(), 28);
    assert!(channel.articles.iter().all(|a| a.unread));
    assert!(channel.articles.iter().all(|a| a.pub_date.is_some()));
    // Articles come back most recently published first.
    for pair in channel.articles.windows(2) {
        assert!(pair[0].pub_date >= pair[1].pub_date);
    }
}

#[test]
fn end_to_end_sample_feed_is_idempotent() {
    let mut ctx = TrsEnv::new("e2e2");
    let bytes = sample_feed();
    add_channel(&mut ctx, &bytes, 1000).unwrap();
    add_channel(&mut ctx, &bytes, 2000).unwrap();
    let listed = list_channels(&ctx, &ListChannelArgs { limit: None }).unwrap();
    assert_eq!(listed.len(), 1);
    assert_eq!(listed[0].articles.len(), 28);
    assert!(listed[0].articles.iter().all(|a| a.unread));
}
