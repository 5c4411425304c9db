use trs::error::TrsError;
use trs::parser::RssArticle;
use trs::parser::RssChannel;
use trs::persistence::Db;

fn article(title: &str, link: &str, date: Option<i64>) -> RssArticle {
    RssArticle {
        title: title.to_string(),
        link: link.to_string(),
        description: format!("about {}", title),
        date,
        date_text: date.map(|_| "Mon, 02 Jan 2006 15:04:05 UTC".to_string()),
    }
}

fn channel(title: &str, link: &str, articles: Vec<RssArticle>) -> RssChannel {
    RssChannel {
        title: title.to_string(),
        link: link.to_string(),
        description: format!("{} description", title),
        articles,
    }
}

#[test]
fn add_channel_assigns_ids_and_unread() {
    let mut db = Db::new();
    let c = channel(
        "Feed",
        "https://feed.example/",
        vec![article("a", "https://feed.example/a", Some(10)), article(
            "b",
            "https://feed.example/b",
            None,
        )],
    );
    let stored = db.add_channel(&c, 100).unwrap();
    assert_eq!(stored.id, 1);
    assert_eq!(stored.title, "Feed");
    assert_eq!(stored.link, "https://feed.example/");
    assert_eq!(stored.last_update, 100);
    assert_eq!(stored.articles.len(), 2);
    assert_eq!(stored.articles[0].id, 1);
    assert_eq!(stored.articles[1].id, 2);
    assert_eq!(stored.articles[0].channel_id, 1);
    assert!(stored.articles.iter().all(|a| a.unread));
    assert_eq!(stored.articles[0].pub_date, Some(10));
}

#[test]
fn add_channel_twice_is_idempotent_on_link() {
    let mut db = Db::new();
    let c = channel(
        "Feed",
        "https://feed.example/",
        vec![article("a", "https://feed.example/a", Some(10)), article(
            "b",
            "https://feed.example/b",
            Some(20),
        )],
    );
    let first = db.add_channel(&c, 100).unwrap();
    // The user reads one article between the two ingestions.
    assert_eq!(db.mark_article_read(first.articles[0].id), Ok(1));
    let second = db.add_channel(&c, 200).unwrap();
    assert_eq!(second.id, first.id);
    assert_eq!(second.articles.len(), 2);
    assert_eq!(second.articles[0].id, first.articles[0].id);
    assert_eq!(second.articles[1].id, first.articles[1].id);
    // Read state survives re-ingestion; the second article is still unread.
    assert!(!second.articles[0].unread);
    assert!(second.articles[1].unread);
    // The re-ingestion refreshed the timestamps.
    assert_eq!(second.last_update, 200);
    assert_eq!(second.articles[0].last_update, 200);
    let all = db.list_channels(u32::MAX).unwrap();
    assert_eq!(all.len(), 1);
    assert_eq!(all[0].articles.len(), 2);
}

#[test]
fn add_channel_updates_title_and_description() {
    let mut db = Db::new();
    db.add_channel(&channel("Old", "https://feed.example/", vec![]), 1).unwrap();
    let updated = db.add_channel(&channel("New", "https://feed.example/", vec![]), 2).unwrap();
    assert_eq!(updated.id, 1);
    assert_eq!(updated.title, "New");
    assert_eq!(updated.description, "New description");
    assert_eq!(updated.last_update, 2);
}

#[test]
fn add_article_with_known_link_updates_in_place() {
    let mut db = Db::new();
    let c1 = channel("One", "https://one.example/", vec![article(
        "a",
        "https://one.example/a",
        Some(10),
    )]);
    db.add_channel(&c1, 1).unwrap();
    // The same article link arrives again under another channel: the row
    // stays where it is, only its date and timestamp move.
    let c2 = channel("Two", "https://two.example/", vec![article(
        "a2",
        "https://one.example/a",
        Some(30),
    )]);
    let stored2 = db.add_channel(&c2, 2).unwrap();
    assert_eq!(stored2.articles.len(), 0);
    let one = db.get_channel("https://one.example/").unwrap();
    assert_eq!(one.articles.len(), 1);
    assert_eq!(one.articles[0].title, "a");
    assert_eq!(one.articles[0].pub_date, Some(30));
    assert_eq!(one.articles[0].last_update, 2);
}

#[test]
fn remove_channel_missing_reports_zero_rows() {
    let mut db = Db::new();
    assert_eq!(db.remove_channel(7), Ok(0));
}

#[test]
fn remove_channel_cascades_to_articles() {
    let mut db = Db::new();
    let c = channel("Feed", "https://feed.example/", vec![article(
        "a",
        "https://feed.example/a",
        None,
    )]);
    let stored = db.add_channel(&c, 1).unwrap();
    assert_eq!(db.remove_channel(stored.id as u32), Ok(1));
    assert_eq!(db.list_channels(u32::MAX).unwrap().len(), 0);
    assert!(matches!(db.get_article("https://feed.example/a"), Err(TrsError::NotFound(_))));
}

#[test]
fn mark_article_read_and_unread_are_idempotent() {
    let mut db = Db::new();
    let c = channel("Feed", "https://feed.example/", vec![article(
        "a",
        "https://feed.example/a",
        None,
    )]);
    let stored = db.add_channel(&c, 1).unwrap();
    let id = stored.articles[0].id;
    assert_eq!(db.mark_article_read(id), Ok(1));
    assert_eq!(db.mark_article_read(id), Ok(1));
    assert!(!db.get_article("https://feed.example/a").unwrap().unread);
    assert_eq!(db.mark_article_unread(id), Ok(1));
    assert!(db.get_article("https://feed.example/a").unwrap().unread);
    assert_eq!(db.mark_article_read(999), Ok(0));
}

#[test]
fn list_channels_bounds_channels_not_articles() {
    let mut db = Db::new();
    for k in 0..3 {
        let c = channel(
            &format!("Feed {}", k),
            &format!("https://feed{}.example/", k),
            vec![
                article(&format!("a{}", k), &format!("https://feed{}.example/a", k), Some(1)),
                article(&format!("b{}", k), &format!("https://feed{}.example/b", k), Some(2)),
            ],
        );
        db.add_channel(&c, 1).unwrap();
    }
    let two = db.list_channels(2).unwrap();
    assert_eq!(two.len(), 2);
    assert_eq!(two[0].title, "Feed 0");
    assert_eq!(two[1].title, "Feed 1");
    assert_eq!(two[0].articles.len(), 2);
}

#[test]
fn list_channels_orders_articles_most_recent_first() {
    let mut db = Db::new();
    let c = channel(
        "Feed",
        "https://feed.example/",
        vec![
            article("old", "https://feed.example/old", Some(10)),
            article("new", "https://feed.example/new", Some(30)),
            article("undated", "https://feed.example/undated", None),
            article("mid", "https://feed.example/mid", Some(20)),
        ],
    );
    db.add_channel(&c, 1).unwrap();
    let listed = db.list_channels(1).unwrap();
    let titles: Vec<&str> = listed[0].articles.iter().map(|a| a.title.as_str()).collect();
    assert_eq!(titles, vec!["new", "mid", "old", "undated"]);
}

#[test]
fn get_channel_finds_by_link() {
    let mut db = Db::new();
    db.add_channel(&channel("Feed", "https://feed.example/", vec![]), 1).unwrap();
    let got = db.get_channel("https://feed.example/").unwrap();
    assert_eq!(got.title, "Feed");
    assert!(matches!(db.get_channel("https://other.example/"), Err(TrsError::NotFound(_))));
}

#[test]
fn restore_reinstates_rows() {
    let mut db = Db::new();
    db.restore_channel(3, "Feed".to_string(), "https://feed.example/".to_string(),
        "d".to_string(), 50).unwrap();
    db.restore_article(7, 3, "a".to_string(), "d".to_string(),
        "https://feed.example/a".to_string(), Some(10), 50, false).unwrap();
    let got = db.get_channel("https://feed.example/").unwrap();
    assert_eq!(got.id, 3);
    assert_eq!(got.articles.len(), 1);
    assert_eq!(got.articles[0].id, 7);
    assert!(!got.articles[0].unread);
    // Fresh inserts continue above the restored keys.
    let added = db.add_channel(
        &channel("Next", "https://next.example/", vec![article(
            "n",
            "https://next.example/n",
            None,
        )]),
        60,
    ).unwrap();
    assert_eq!(added.id, 4);
    assert_eq!(added.articles[0].id, 8);
}

#[test]
fn restore_rejects_out_of_order_and_duplicate_rows() {
    let mut db = Db::new();
    db.restore_channel(3, "Feed".to_string(), "https://feed.example/".to_string(),
        "d".to_string(), 50).unwrap();
    assert!(db.restore_channel(2, "Low".to_string(), "https://low.example/".to_string(),
        "d".to_string(), 50).is_err());
    assert!(db.restore_channel(9, "Dup".to_string(), "https://feed.example/".to_string(),
        "d".to_string(), 50).is_err());
    assert!(db.restore_article(1, 99, "a".to_string(), "d".to_string(),
        "https://feed.example/a".to_string(), None, 50, true).is_ok() == false);
}

#[test]
fn duplicate_article_links_within_one_feed_collapse() {
    let mut db = Db::new();
    let c = channel(
        "Feed",
        "https://feed.example/",
        vec![
            RssArticle {
                title: "first".to_string(),
                link: "https://feed.example/same".to_string(),
                description: "one".to_string(),
                date: Some(10),
                date_text: None,
            },
            RssArticle {
                title: "second".to_string(),
                link: "https://feed.example/same".to_string(),
                description: "two".to_string(),
                date: Some(20),
                date_text: None,
            },
        ],
    );
    let stored = db.add_channel(&c, 1).unwrap();
    // One row per distinct link: the second occurrence only refreshed the
    // date of the row the first one created.
    assert_eq!(stored.articles.len(), 1);
    assert_eq!(stored.articles[0].title, "first");
    assert_eq!(stored.articles[0].pub_date, Some(20));
}

#[test]
fn add_channel_on_empty_feed_value_stores_channel_row_only() {
    let mut db = Db::new();
    let stored = db.add_channel(&channel("Feed", "https://feed.example/", vec![]), 1).unwrap();
    assert_eq!(stored.articles.len(), 0);
    assert_eq!(db.list_channels(u32::MAX).unwrap().len(), 1);
}

#[test]
fn list_channels_breaks_date_ties_by_id_and_repeats_equally() {
    let mut db = Db::new();
    let c = channel(
        "Feed",
        "https://feed.example/",
        vec![
            article("first-ingested", "https://feed.example/a", Some(10)),
            article("second-ingested", "https://feed.example/b", Some(10)),
            article("third-ingested", "https://feed.example/c", Some(10)),
        ],
    );
    db.add_channel(&c, 1).unwrap();
    let once = db.list_channels(u32::MAX).unwrap();
    // Equal publication dates fall back to ascending id, so the listing is a
    // single well-defined order...
    let ids: Vec<i64> = once[0].articles.iter().map(|a| a.id).collect();
    assert_eq!(ids, vec![1, 2, 3]);
    // ...and repeated calls return equal results.
    let again = db.list_channels(u32::MAX).unwrap();
    assert_eq!(once, again);
}
