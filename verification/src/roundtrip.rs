use vstd::prelude::*;

use crate::dates::spec_parse_date;
use crate::parser::spec_empty_article;
use crate::parser::spec_field_row;
use crate::parser::spec_parse;
use crate::parser::spec_parser_init;
use crate::parser::spec_prefix;
use crate::parser::spec_resolve;
use crate::parser::spec_run;
use crate::parser::spec_step;
use crate::parser::spec_update_field;
use crate::parser::lemma_run_app;
use crate::parser::ArticleV;
use crate::parser::ChannelV;
use crate::parser::ParserV;
use crate::parser::RssChannel;
use crate::parser::XmlEvent;
use crate::parser::XmlEventV;
use crate::parser::XmlField;
use crate::error::ParseErrorV;

verus! {

/// The three events that re-emit one extracted field.
pub open spec fn spec_field_events(tag: Seq<char>, value: Seq<char>) -> Seq<XmlEventV> {
    seq![XmlEventV::ElementStart(tag), XmlEventV::Text(value), XmlEventV::ElementEnd(tag)]
}

/// The events that re-emit one article: an `item` element holding its
/// fields, the publication date re-emitted as the very text it was parsed
/// from.
pub open spec fn spec_article_events(a: ArticleV) -> Seq<XmlEventV> {
    seq![XmlEventV::ElementStart("item"@)] + spec_field_events("title"@, a.title)
        + spec_field_events("link"@, a.link) + spec_field_events("description"@, a.description) + (
    match a.date_text {
        Some(t) => spec_field_events("pubDate"@, t),
        None => Seq::empty(),
    }) + seq![XmlEventV::ElementEnd("item"@)]
}

/// The events that re-emit a sequence of articles, in order.
pub open spec fn spec_articles_events(arts: Seq<ArticleV>) -> Seq<XmlEventV>
    decreases arts.len(),
{
    if arts.len() == 0 {
        Seq::empty()
    } else {
        spec_article_events(arts[0]) + spec_articles_events(arts.drop_first())
    }
}

/// The events that re-emit a whole channel into the same tag structure the
/// parser reads: the three channel fields, then the items.
pub open spec fn spec_channel_events(c: ChannelV) -> Seq<XmlEventV> {
    spec_field_events("title"@, c.title) + spec_field_events("link"@, c.link)
        + spec_field_events("description"@, c.description) + spec_articles_events(c.articles)
}

/// An article whose normalized date agrees with the text it was parsed from.
pub open spec fn article_date_wf(a: ArticleV) -> bool {
    match a.date_text {
        Some(t) => spec_parse_date(t) is Some && a.date == spec_parse_date(t),
        None => a.date is None,
    }
}

/// A channel whose content could have come out of a successful parse: the
/// channel fields are nonempty and every article's date is consistent with
/// its text.
pub open spec fn channel_content_wf(c: ChannelV) -> bool {
    &&& c.title.len() > 0
    &&& c.link.len() > 0
    &&& c.description.len() > 0
    &&& forall|i: int| 0 <= i < c.articles.len() ==> article_date_wf(#[trigger] c.articles[i])
}

/// Every article built so far has a consistent date.
pub open spec fn st_dates_wf(st: ParserV) -> bool {
    forall|i: int|
        0 <= i < st.channel.articles.len() ==> article_date_wf(#[trigger] st.channel.articles[i])
}

/// One step keeps every article's date consistent with its text.
proof fn lemma_step_dates_wf(st: ParserV, ev: XmlEventV)
    requires
        st_dates_wf(st),
        spec_step(st, ev) is Ok,
    ensures
        st_dates_wf(spec_step(st, ev)->Ok_0),
{
    let st2 = spec_step(st, ev)->Ok_0;
    assert forall|i: int|
        0 <= i < st2.channel.articles.len() implies article_date_wf(
        #[trigger] st2.channel.articles[i],
    ) by {
        match ev {
            XmlEventV::ElementStart(tag) => {
                if tag == "item"@ {
                    if i < st.channel.articles.len() {
                        assert(st2.channel.articles[i] == st.channel.articles[i]);
                    } else {
                        assert(st2.channel.articles[i] == spec_empty_article());
                    }
                }
            },
            XmlEventV::Text(data) => {
                match st.active {
                    Some(row) => {
                        match spec_update_field(st.channel, row, data) {
                            Ok(ch) => {
                                if i < st.channel.articles.len() && st2.channel.articles[i]
                                    != st.channel.articles[i] {
                                    assert(article_date_wf(st2.channel.articles[i]));
                                }
                            },
                            Err(_) => {},
                        }
                    },
                    None => {},
                }
            },
            _ => {},
        }
    }
}

/// A whole run keeps every article's date consistent with its text.
proof fn lemma_run_dates_wf(st: ParserV, events: Seq<XmlEventV>)
    requires
        st_dates_wf(st),
        spec_run(st, events) is Ok,
    ensures
        st_dates_wf(spec_run(st, events)->Ok_0),
    decreases events.len(),
{
    if events.len() > 0 {
        lemma_step_dates_wf(st, events[0]);
        lemma_run_dates_wf(spec_step(st, events[0])->Ok_0, events.drop_first());
    }
}

/// The facts about the fixed tag literals the serialization proof leans on:
/// how the item prefix concatenates, and that no field tag reads `item`.
proof fn lemma_tag_literals()
    ensures
        "title"@ != "item"@,
        "link"@ != "item"@,
        "description"@ != "item"@,
        "pubDate"@ != "item"@,
        spec_prefix(false) + "title"@ == "title"@,
        spec_prefix(false) + "link"@ == "link"@,
        spec_prefix(false) + "description"@ == "description"@,
        spec_prefix(true) + "title"@ == "item > title"@,
        spec_prefix(true) + "link"@ == "item > link"@,
        spec_prefix(true) + "description"@ == "item > description"@,
        spec_prefix(true) + "pubDate"@ == "item > pubDate"@,
        "item > title"@ != "title"@ && "item > title"@ != "link"@ && "item > title"@
            != "description"@,
        "item > link"@ != "title"@ && "item > link"@ != "link"@ && "item > link"@
            != "description"@,
        "item > description"@ != "title"@ && "item > description"@ != "link"@
            && "item > description"@ != "description"@,
        "item > pubDate"@ != "title"@ && "item > pubDate"@ != "link"@ && "item > pubDate"@
            != "description"@ && "item > pubDate"@ != "item > title"@ && "item > pubDate"@
            != "item > link"@ && "item > pubDate"@ != "item > description"@,
        "item > link"@ != "item > title"@,
        "item > description"@ != "item > title"@ && "item > description"@ != "item > link"@,
{
    reveal_strlit("title");
    reveal_strlit("link");
    reveal_strlit("description");
    reveal_strlit("pubDate");
    reveal_strlit("item");
    reveal_strlit("item > ");
    reveal_strlit("item > title");
    reveal_strlit("item > link");
    reveal_strlit("item > description");
    reveal_strlit("item > pubDate");
    assert(spec_prefix(false) + "title"@ =~= "title"@);
    assert(spec_prefix(false) + "link"@ =~= "link"@);
    assert(spec_prefix(false) + "description"@ =~= "description"@);
    assert(spec_prefix(true) + "title"@ =~= "item > title"@);
    assert(spec_prefix(true) + "link"@ =~= "item > link"@);
    assert(spec_prefix(true) + "description"@ =~= "item > description"@);
    assert(spec_prefix(true) + "pubDate"@ =~= "item > pubDate"@);
    assert("item > link"@[0] != "description"@[0]);
    assert("link"@[0] != "item"@[0]);
    assert("title"@.len() != "item"@.len());
    assert("description"@.len() != "item"@.len());
    assert("pubDate"@.len() != "item"@.len());
    assert("item > description"@.len() != "item > link"@.len());
}

/// Running over a three-event sequence is three steps.
proof fn lemma_run_triple(st: ParserV, e1: XmlEventV, e2: XmlEventV, e3: XmlEventV)
    ensures
        spec_run(st, seq![e1, e2, e3]) == (match spec_step(st, e1) {
            Ok(s1) => match spec_step(s1, e2) {
                Ok(s2) => spec_step(s2, e3),
                Err(e) => Err(e),
            },
            Err(e) => Err(e),
        }),
{
    reveal_with_fuel(spec_run, 5);
    assert(seq![e1, e2, e3].drop_first() =~= seq![e2, e3]);
    assert(seq![e2, e3].drop_first() =~= seq![e3]);
    assert(seq![e3].drop_first() =~= Seq::<XmlEventV>::empty());
}

/// Re-parsing one re-emitted channel-level field writes exactly that field.
proof fn lemma_run_channel_field(st: ParserV, f: XmlField, v: Seq<char>)
    requires
        st.active is None,
        st.in_item == false,
        f == XmlField::ChannelTitle || f == XmlField::ChannelLink || f
            == XmlField::ChannelDescription,
    ensures
        spec_run(st, spec_field_events(spec_field_row(f).tag, v)) == Ok::<ParserV, ParseErrorV>(
            ParserV {
                channel: match f {
                    XmlField::ChannelTitle => ChannelV { title: v, ..st.channel },
                    XmlField::ChannelLink => ChannelV { link: v, ..st.channel },
                    _ => ChannelV { description: v, ..st.channel },
                },
                ..st
            },
        ),
{
    lemma_tag_literals();
    let tag = spec_field_row(f).tag;
    lemma_run_triple(
        st,
        XmlEventV::ElementStart(tag),
        XmlEventV::Text(v),
        XmlEventV::ElementEnd(tag),
    );
    assert(spec_resolve(spec_prefix(false) + tag) == Some(spec_field_row(f)));
}

/// Re-parsing one re-emitted article-level field writes exactly that field
/// of the last article.
proof fn lemma_run_item_field(st: ParserV, f: XmlField, v: Seq<char>)
    requires
        st.active is None,
        st.in_item == true,
        st.channel.articles.len() > 0,
        f == XmlField::ArticleTitle || f == XmlField::ArticleLink || f
            == XmlField::ArticleDescription,
    ensures
        spec_run(st, spec_field_events(spec_field_row(f).tag, v)) == Ok::<ParserV, ParseErrorV>(
            ParserV {
                channel: ChannelV {
                    articles: st.channel.articles.update(
                        st.channel.articles.len() - 1,
                        match f {
                            XmlField::ArticleTitle => ArticleV {
                                title: v,
                                ..st.channel.articles.last()
                            },
                            XmlField::ArticleLink => ArticleV {
                                link: v,
                                ..st.channel.articles.last()
                            },
                            _ => ArticleV { description: v, ..st.channel.articles.last() },
                        },
                    ),
                    ..st.channel
                },
                ..st
            },
        ),
{
    lemma_tag_literals();
    let tag = spec_field_row(f).tag;
    lemma_run_triple(
        st,
        XmlEventV::ElementStart(tag),
        XmlEventV::Text(v),
        XmlEventV::ElementEnd(tag),
    );
    assert(spec_resolve(spec_prefix(true) + tag) == Some(spec_field_row(f)));
}

/// Re-parsing a re-emitted publication date normalizes it back to the very
/// instant it came from.
proof fn lemma_run_item_date(st: ParserV, v: Seq<char>)
    requires
        st.active is None,
        st.in_item == true,
        st.channel.articles.len() > 0,
        spec_parse_date(v) is Some,
    ensures
        spec_run(st, spec_field_events("pubDate"@, v)) == Ok::<ParserV, ParseErrorV>(
            ParserV {
                channel: ChannelV {
                    articles: st.channel.articles.update(
                        st.channel.articles.len() - 1,
                        ArticleV {
                            date: spec_parse_date(v),
                            date_text: Some(v),
                            ..st.channel.articles.last()
                        },
                    ),
                    ..st.channel
                },
                ..st
            },
        ),
{
    lemma_tag_literals();
    lemma_run_triple(
        st,
        XmlEventV::ElementStart("pubDate"@),
        XmlEventV::Text(v),
        XmlEventV::ElementEnd("pubDate"@),
    );
    assert(spec_resolve(spec_prefix(true) + "pubDate"@) == Some(
        spec_field_row(XmlField::ArticlePubDate),
    ));
}

/// Re-parsing one re-emitted article appends exactly that article.
proof fn lemma_run_article(st: ParserV, a: ArticleV)
    requires
        st.active is None,
        st.in_item == false,
        article_date_wf(a),
    ensures
        spec_run(st, spec_article_events(a)) == Ok::<ParserV, ParseErrorV>(
            ParserV {
                in_item: false,
                active: None,
                channel: ChannelV { articles: st.channel.articles.push(a), ..st.channel },
            },
        ),
{
    lemma_tag_literals();
    let open_item = seq![XmlEventV::ElementStart("item"@)];
    let t_title = spec_field_events("title"@, a.title);
    let t_link = spec_field_events("link"@, a.link);
    let t_desc = spec_field_events("description"@, a.description);
    let t_date: Seq<XmlEventV> = match a.date_text {
        Some(t) => spec_field_events("pubDate"@, t),
        None => Seq::empty(),
    };
    let close_item = seq![XmlEventV::ElementEnd("item"@)];

    // The state after <item>: a fresh empty article, inside the item.
    let st1 = ParserV {
        in_item: true,
        channel: ChannelV {
            articles: st.channel.articles.push(spec_empty_article()),
            ..st.channel
        },
        ..st
    };
    reveal_with_fuel(spec_run, 2);
    assert(open_item.drop_first() =~= Seq::<XmlEventV>::empty());
    assert(spec_run(st, open_item) == Ok::<ParserV, ParseErrorV>(st1));

    let n = st1.channel.articles.len() - 1;
    lemma_run_item_field(st1, XmlField::ArticleTitle, a.title);
    let st2 = spec_run(st1, t_title)->Ok_0;
    assert(st2.channel.articles.len() == st1.channel.articles.len());
    lemma_run_item_field(st2, XmlField::ArticleLink, a.link);
    let st3 = spec_run(st2, t_link)->Ok_0;
    lemma_run_item_field(st3, XmlField::ArticleDescription, a.description);
    let st4 = spec_run(st3, t_desc)->Ok_0;
    let st5 = match a.date_text {
        Some(t) => {
            lemma_run_item_date(st4, t);
            spec_run(st4, t_date)->Ok_0
        },
        None => {
            assert(spec_run(st4, t_date) == Ok::<ParserV, ParseErrorV>(st4));
            st4
        },
    };
    let st6 = ParserV { in_item: false, ..st5 };
    reveal_with_fuel(spec_run, 2);
    assert(close_item.drop_first() =~= Seq::<XmlEventV>::empty());
    assert(spec_run(st5, close_item) == Ok::<ParserV, ParseErrorV>(st6));

    // The rebuilt last article is exactly `a`, so the articles are the old
    // ones with `a` appended.
    assert(st5.channel.articles[n] =~~= a);
    assert(st6.channel.articles =~= st.channel.articles.push(a));
    assert(st6 =~~= (ParserV {
        in_item: false,
        active: None,
        channel: ChannelV { articles: st.channel.articles.push(a), ..st.channel },
    }));

    // Chain the pieces together.
    lemma_run_app(st, open_item, t_title + (t_link + (t_desc + (t_date + close_item))));
    lemma_run_app(st1, t_title, t_link + (t_desc + (t_date + close_item)));
    lemma_run_app(st2, t_link, t_desc + (t_date + close_item));
    lemma_run_app(st3, t_desc, t_date + close_item);
    lemma_run_app(st4, t_date, close_item);
    assert(spec_article_events(a) =~= open_item + (t_title + (t_link + (t_desc + (t_date
        + close_item)))));
}

/// Re-parsing a sequence of re-emitted articles appends exactly them.
proof fn lemma_run_articles(st: ParserV, arts: Seq<ArticleV>)
    requires
        st.active is None,
        st.in_item == false,
        forall|i: int| 0 <= i < arts.len() ==> article_date_wf(#[trigger] arts[i]),
    ensures
        spec_run(st, spec_articles_events(arts)) == Ok::<ParserV, ParseErrorV>(
            ParserV {
                in_item: false,
                active: None,
                channel: ChannelV { articles: st.channel.articles + arts, ..st.channel },
            },
        ),
    decreases arts.len(),
{
    if arts.len() == 0 {
        assert(st.channel.articles + arts =~= st.channel.articles);
        assert(st =~~= (ParserV {
            in_item: false,
            active: None,
            channel: ChannelV { articles: st.channel.articles + arts, ..st.channel },
        }));
    } else {
        lemma_run_article(st, arts[0]);
        let st1 = ParserV {
            in_item: false,
            active: None,
            channel: ChannelV { articles: st.channel.articles.push(arts[0]), ..st.channel },
        };
        lemma_run_articles(st1, arts.drop_first());
        lemma_run_app(st, spec_article_events(arts[0]), spec_articles_events(arts.drop_first()));
        assert(st.channel.articles.push(arts[0]) + arts.drop_first() =~= st.channel.articles
            + arts);
        assert((ParserV {
            in_item: false,
            active: None,
            channel: ChannelV {
                articles: st1.channel.articles + arts.drop_first(),
                ..st1.channel
            },
        }) =~~= (ParserV {
            in_item: false,
            active: None,
            channel: ChannelV { articles: st.channel.articles + arts, ..st.channel },
        }));
    }
}

/// Round trip on content: whatever channel a parse produced, re-emitting its
/// extracted fields into the same tag structure and re-parsing yields the
/// identical channel and articles.
pub proof fn lemma_parse_round_trip(events: Seq<XmlEventV>, c: ChannelV)
    requires
        spec_parse(events) == Ok::<ChannelV, ParseErrorV>(c),
    ensures
        spec_parse(spec_channel_events(c)) == Ok::<ChannelV, ParseErrorV>(c),
{
    // A successful parse leaves every article's date consistent, and the
    // channel fields nonempty.
    lemma_run_dates_wf(spec_parser_init(), events);
    let stp = spec_run(spec_parser_init(), events)->Ok_0;
    assert(stp.channel == c);
    assert(channel_content_wf(c));
    lemma_serialized_parses(c);
}

/// Any well-formed channel content survives the round trip.
pub proof fn lemma_serialized_parses(c: ChannelV)
    requires
        channel_content_wf(c),
    ensures
        spec_parse(spec_channel_events(c)) == Ok::<ChannelV, ParseErrorV>(c),
{
    lemma_tag_literals();
    let st0 = spec_parser_init();
    let t_title = spec_field_events("title"@, c.title);
    let t_link = spec_field_events("link"@, c.link);
    let t_desc = spec_field_events("description"@, c.description);
    let t_arts = spec_articles_events(c.articles);

    lemma_run_channel_field(st0, XmlField::ChannelTitle, c.title);
    let st1 = spec_run(st0, t_title)->Ok_0;
    lemma_run_channel_field(st1, XmlField::ChannelLink, c.link);
    let st2 = spec_run(st1, t_link)->Ok_0;
    lemma_run_channel_field(st2, XmlField::ChannelDescription, c.description);
    let st3 = spec_run(st2, t_desc)->Ok_0;
    lemma_run_articles(st3, c.articles);
    let st4 = spec_run(st3, t_arts)->Ok_0;

    lemma_run_app(st0, t_title, t_link + (t_desc + t_arts));
    lemma_run_app(st1, t_link, t_desc + t_arts);
    lemma_run_app(st2, t_desc, t_arts);
    assert(spec_channel_events(c) =~= t_title + (t_link + (t_desc + t_arts)));

    assert(st3.channel.articles =~= Seq::<ArticleV>::empty());
    assert(Seq::<ArticleV>::empty() + c.articles =~= c.articles);
    assert(st4.channel =~~= c);
    assert(spec_run(st0, spec_channel_events(c)) == Ok::<ParserV, ParseErrorV>(st4));
}

/// Re-emits a channel's extracted fields into the same tag structure the
/// parser reads, so that re-parsing yields the identical content.
pub fn channel_to_events(c: &RssChannel) -> (r: Vec<XmlEvent>)
    ensures
        r.deep_view() == spec_channel_events(c@),
{
    let mut out: Vec<XmlEvent> = Vec::new();
    out.push(XmlEvent::ElementStart(String::from_str("title")));
    out.push(XmlEvent::Text(c.title.clone()));
    out.push(XmlEvent::ElementEnd(String::from_str("title")));
    out.push(XmlEvent::ElementStart(String::from_str("link")));
    out.push(XmlEvent::Text(c.link.clone()));
    out.push(XmlEvent::ElementEnd(String::from_str("link")));
    out.push(XmlEvent::ElementStart(String::from_str("description")));
    out.push(XmlEvent::Text(c.description.clone()));
    out.push(XmlEvent::ElementEnd(String::from_str("description")));
    let ghost head = spec_field_events("title"@, c@.title) + spec_field_events("link"@, c@.link)
        + spec_field_events("description"@, c@.description);
    proof {
        assert(out.deep_view() =~= head);
    }
    let mut k: usize = 0;
    while k < c.articles.len()
        invariant
            k <= c.articles.len(),
            out.deep_view() =~= head + spec_articles_events(c@.articles.take(k as int)),
            c@.articles.len() == c.articles@.len(),
        decreases c.articles.len() - k,
    {
        let ghost pre = out.deep_view();
        let article = &c.articles[k];
        out.push(XmlEvent::ElementStart(String::from_str("item")));
        out.push(XmlEvent::ElementStart(String::from_str("title")));
        out.push(XmlEvent::Text(article.title.clone()));
        out.push(XmlEvent::ElementEnd(String::from_str("title")));
        out.push(XmlEvent::ElementStart(String::from_str("link")));
        out.push(XmlEvent::Text(article.link.clone()));
        out.push(XmlEvent::ElementEnd(String::from_str("link")));
        out.push(XmlEvent::ElementStart(String::from_str("description")));
        out.push(XmlEvent::Text(article.description.clone()));
        out.push(XmlEvent::ElementEnd(String::from_str("description")));
        match &article.date_text {
            Some(t) => {
                out.push(XmlEvent::ElementStart(String::from_str("pubDate")));
                out.push(XmlEvent::Text(t.clone()));
                out.push(XmlEvent::ElementEnd(String::from_str("pubDate")));
            },
            None => {},
        }
        out.push(XmlEvent::ElementEnd(String::from_str("item")));
        proof {
            assert(c@.articles[k as int] == c.articles@[k as int]@);
            assert(out.deep_view() =~= pre + spec_article_events(c@.articles[k as int]));
            assert(c@.articles.take(k as int + 1) =~= c@.articles.take(k as int) + seq![
                c@.articles[k as int],
            ]);
            lemma_articles_events_app(
                c@.articles.take(k as int),
                seq![c@.articles[k as int]],
            );
            assert(seq![c@.articles[k as int]].drop_first() =~= Seq::<ArticleV>::empty());
            reveal_with_fuel(spec_articles_events, 2);
            assert(spec_articles_events(seq![c@.articles[k as int]]) =~= spec_article_events(
                c@.articles[k as int],
            ));
            assert(out.deep_view() =~= head + spec_articles_events(c@.articles.take(k as int + 1)));
        }
        k += 1;
    }
    proof {
        assert(c@.articles.take(c@.articles.len() as int) =~= c@.articles);
        assert(out.deep_view() =~= spec_channel_events(c@));
    }
    out
}

/// Serialization distributes over concatenation.
pub proof fn lemma_articles_events_app(a: Seq<ArticleV>, b: Seq<ArticleV>)
    ensures
        spec_articles_events(a + b) == spec_articles_events(a) + spec_articles_events(b),
    decreases a.len(),
{
    if a.len() == 0 {
        assert(a + b =~= b);
        assert(spec_articles_events(a) + spec_articles_events(b) =~= spec_articles_events(b));
    } else {
        assert((a + b)[0] == a[0]);
        assert((a + b).drop_first() =~= a.drop_first() + b);
        lemma_articles_events_app(a.drop_first(), b);
        assert(spec_articles_events(a + b) =~= spec_articles_events(a) + spec_articles_events(b));
    }
}

} // verus!
