use vstd::prelude::*;

use crate::dates::spec_parse_date;
use crate::dates::parse_date;
use crate::dates::Timestamp;
use crate::error::ParseError;
use crate::error::ParseErrorV;

verus! {

/// Character-by-character equality of two string slices.
pub fn str_eq(a: &str, b: &str) -> (r: bool)
    ensures
        r == (a@ == b@),
{
    let a_len = a.unicode_len();
    let b_len = b.unicode_len();
    if a_len != b_len {
        return false;
    }
    let mut i: usize = 0;
    while i < a_len
        invariant
            i <= a_len,
            a_len == a@.len(),
            a_len == b@.len(),
            forall|j: int| 0 <= j < i ==> a@[j] == b@[j],
        decreases a_len - i,
    {
        if a.get_char(i) != b.get_char(i) {
            return false;
        }
        i += 1;
    }
    proof {
        assert(a@ =~= b@);
    }
    true
}

/// Spec-level image of an `XmlEvent`, over character sequences.
pub enum XmlEventV {
    ElementStart(Seq<char>),
    ElementEnd(Seq<char>),
    Text(Seq<char>),
    ReadError(Seq<char>),
    Other,
}

/// One event of the linear XML event stream the feed parser consumes: an
/// element opened (by local name), an element closed, character data, a
/// reader-level error, or any other event kind, which the parser ignores.
#[derive(Debug, Clone, PartialEq)]
pub enum XmlEvent {
    ElementStart(String),
    ElementEnd(String),
    Text(String),
    ReadError(String),
    Other,
}

impl View for XmlEvent {
    type V = XmlEventV;

    open spec fn view(&self) -> XmlEventV {
        match self {
            XmlEvent::ElementStart(name) => XmlEventV::ElementStart(name@),
            XmlEvent::ElementEnd(name) => XmlEventV::ElementEnd(name@),
            XmlEvent::Text(data) => XmlEventV::Text(data@),
            XmlEvent::ReadError(message) => XmlEventV::ReadError(message@),
            XmlEvent::Other => XmlEventV::Other,
        }
    }
}

impl DeepView for XmlEvent {
    type V = XmlEventV;

    open spec fn deep_view(&self) -> XmlEventV {
        self.view()
    }
}

/// The semantic target of a recognized tag path.
#[derive(Debug, Clone, Copy, PartialEq, Eq, Structural)]
pub enum XmlField {
    ArticleTitle,
    ArticleLink,
    ArticlePubDate,
    ArticleDescription,
    ChannelTitle,
    ChannelLink,
    ChannelDescription,
}

/// Spec-level image of an `XmlTagField` row.
#[verifier::ext_equal]
pub struct XmlTagFieldV {
    pub hierarchical_tag: Seq<char>,
    pub tag: Seq<char>,
    pub field: XmlField,
}

/// One row of the tag-field table: the hierarchical tag path it is keyed on,
/// the immediate tag name (used to match the closing tag), and the field the
/// path routes to.
#[derive(Debug, Clone, Copy, PartialEq)]
pub struct XmlTagField {
    pub hierarchical_tag: &'static str,
    pub tag: &'static str,
    pub field: XmlField,
}

impl View for XmlTagField {
    type V = XmlTagFieldV;

    open spec fn view(&self) -> XmlTagFieldV {
        XmlTagFieldV { hierarchical_tag: self.hierarchical_tag@, tag: self.tag@, field: self.field }
    }
}

/// The fixed table row for each field.
pub open spec fn spec_field_row(field: XmlField) -> XmlTagFieldV {
    match field {
        XmlField::ChannelTitle => (XmlTagFieldV {
            hierarchical_tag: "title"@,
            tag: "title"@,
            field,
        }),
        XmlField::ChannelLink => (XmlTagFieldV { hierarchical_tag: "link"@, tag: "link"@, field }),
        XmlField::ChannelDescription => (XmlTagFieldV {
            hierarchical_tag: "description"@,
            tag: "description"@,
            field,
        }),
        XmlField::ArticleTitle => (XmlTagFieldV {
            hierarchical_tag: "item > title"@,
            tag: "title"@,
            field,
        }),
        XmlField::ArticleLink => (XmlTagFieldV {
            hierarchical_tag: "item > link"@,
            tag: "link"@,
            field,
        }),
        XmlField::ArticleDescription => (XmlTagFieldV {
            hierarchical_tag: "item > description"@,
            tag: "description"@,
            field,
        }),
        XmlField::ArticlePubDate => (XmlTagFieldV {
            hierarchical_tag: "item > pubDate"@,
            tag: "pubDate"@,
            field,
        }),
    }
}

/// The pure lookup the parser routes through: a hierarchical tag path either
/// names exactly one field's table row, or nothing.
pub open spec fn spec_resolve(hierarchical_tag: Seq<char>) -> Option<XmlTagFieldV> {
    if hierarchical_tag == "title"@ {
        Some(spec_field_row(XmlField::ChannelTitle))
    } else if hierarchical_tag == "link"@ {
        Some(spec_field_row(XmlField::ChannelLink))
    } else if hierarchical_tag == "description"@ {
        Some(spec_field_row(XmlField::ChannelDescription))
    } else if hierarchical_tag == "item > title"@ {
        Some(spec_field_row(XmlField::ArticleTitle))
    } else if hierarchical_tag == "item > link"@ {
        Some(spec_field_row(XmlField::ArticleLink))
    } else if hierarchical_tag == "item > description"@ {
        Some(spec_field_row(XmlField::ArticleDescription))
    } else if hierarchical_tag == "item > pubDate"@ {
        Some(spec_field_row(XmlField::ArticlePubDate))
    } else {
        None
    }
}

impl XmlTagField {
    /// Builds one table row.
    pub fn mapping(hierarchical_tag: &'static str, tag: &'static str, field: XmlField) -> (r:
        XmlTagField)
        ensures
            r == (XmlTagField { hierarchical_tag, tag, field }),
    {
        XmlTagField { hierarchical_tag, tag, field }
    }

    /// Looks a hierarchical tag path up in the fixed table.
    pub fn corresponding_field(hierarchical_tag: &str) -> (r: Option<XmlTagField>)
        ensures
            match r {
                Some(f) => spec_resolve(hierarchical_tag@) == Some(f@),
                None => spec_resolve(hierarchical_tag@) is None,
            },
    {
        if str_eq(hierarchical_tag, "title") {
            Some(XmlTagField::mapping("title", "title", XmlField::ChannelTitle))
        } else if str_eq(hierarchical_tag, "link") {
            Some(XmlTagField::mapping("link", "link", XmlField::ChannelLink))
        } else if str_eq(hierarchical_tag, "description") {
            Some(XmlTagField::mapping("description", "description", XmlField::ChannelDescription))
        } else if str_eq(hierarchical_tag, "item > title") {
            Some(XmlTagField::mapping("item > title", "title", XmlField::ArticleTitle))
        } else if str_eq(hierarchical_tag, "item > link") {
            Some(XmlTagField::mapping("item > link", "link", XmlField::ArticleLink))
        } else if str_eq(hierarchical_tag, "item > description") {
            Some(
                XmlTagField::mapping(
                    "item > description",
                    "description",
                    XmlField::ArticleDescription,
                ),
            )
        } else if str_eq(hierarchical_tag, "item > pubDate") {
            Some(XmlTagField::mapping("item > pubDate", "pubDate", XmlField::ArticlePubDate))
        } else {
            None
        }
    }
}

/// Spec-level image of an article extracted from one feed document.
#[verifier::ext_equal]
pub struct ArticleV {
    pub title: Seq<char>,
    pub link: Seq<char>,
    pub description: Seq<char>,
    pub date: Option<i64>,
    pub date_text: Option<Seq<char>>,
}

/// Spec-level image of a channel extracted from one feed document.
#[verifier::ext_equal]
pub struct ChannelV {
    pub title: Seq<char>,
    pub link: Seq<char>,
    pub description: Seq<char>,
    pub articles: Seq<ArticleV>,
}

/// One entry of a feed, as extracted from the document: its fields, the
/// normalized publication instant, and the raw text the instant was parsed
/// from (kept so the entry can be re-emitted exactly).
#[derive(Debug, Clone, PartialEq)]
pub struct RssArticle {
    pub title: String,
    pub link: String,
    pub description: String,
    pub date: Option<Timestamp>,
    pub date_text: Option<String>,
}

/// A feed's top-level fields plus its articles, as extracted from one fetch.
#[derive(Debug, Clone, PartialEq)]
pub struct RssChannel {
    pub title: String,
    pub link: String,
    pub description: String,
    pub articles: Vec<RssArticle>,
}

impl View for RssArticle {
    type V = ArticleV;

    open spec fn view(&self) -> ArticleV {
        ArticleV {
            title: self.title@,
            link: self.link@,
            description: self.description@,
            date: self.date,
            date_text: match self.date_text {
                Some(ref t) => Some(t@),
                None => None,
            },
        }
    }
}

impl View for RssChannel {
    type V = ChannelV;

    open spec fn view(&self) -> ChannelV {
        ChannelV {
            title: self.title@,
            link: self.link@,
            description: self.description@,
            articles: self.articles@.map_values(|a: RssArticle| a@),
        }
    }
}

/// An article with every field still empty.
pub open spec fn spec_empty_article() -> ArticleV {
    ArticleV {
        title: Seq::empty(),
        link: Seq::empty(),
        description: Seq::empty(),
        date: None,
        date_text: None,
    }
}

impl RssArticle {
    /// A fresh article with every field empty.
    pub fn new() -> (r: RssArticle)
        ensures
            r@ == spec_empty_article(),
    {
        RssArticle {
            title: String::new(),
            link: String::new(),
            description: String::new(),
            date: None,
            date_text: None,
        }
    }
}

/// A channel with every field still empty.
pub open spec fn spec_empty_channel() -> ChannelV {
    ChannelV {
        title: Seq::empty(),
        link: Seq::empty(),
        description: Seq::empty(),
        articles: Seq::empty(),
    }
}

impl RssChannel {
    /// A fresh channel with every field empty.
    pub fn new() -> (r: RssChannel)
        ensures
            r@ == spec_empty_channel(),
    {
        let r = RssChannel {
            title: String::new(),
            link: String::new(),
            description: String::new(),
            articles: Vec::new(),
        };
        proof {
            assert(r@.articles =~= Seq::<ArticleV>::empty());
        }
        r
    }
}

/// The parser's O(1) state: whether the walk is inside an `<item>`, the
/// field currently accumulating character data (if any), and the channel
/// built so far.
#[verifier::ext_equal]
pub struct ParserV {
    pub in_item: bool,
    pub active: Option<XmlTagFieldV>,
    pub channel: ChannelV,
}

/// The state before any event is consumed.
pub open spec fn spec_parser_init() -> ParserV {
    ParserV { in_item: false, active: None, channel: spec_empty_channel() }
}

/// The tag-path prefix in force: `"item > "` inside an item, empty outside.
pub open spec fn spec_prefix(in_item: bool) -> Seq<char> {
    if in_item {
        "item > "@
    } else {
        Seq::empty()
    }
}

/// Writing character data into the field a table row routes to: channel
/// fields are overwritten in place; article fields land in the last article,
/// and are an error when no article has been opened; a publication date is
/// normalized as it is written, and an unparseable one is an error.
pub open spec fn spec_update_field(ch: ChannelV, row: XmlTagFieldV, value: Seq<char>) -> Result<
    ChannelV,
    ParseErrorV,
> {
    match row.field {
        XmlField::ChannelTitle => Ok(ChannelV { title: value, ..ch }),
        XmlField::ChannelLink => Ok(ChannelV { link: value, ..ch }),
        XmlField::ChannelDescription => Ok(ChannelV { description: value, ..ch }),
        _ => {
            if ch.articles.len() == 0 {
                Err(ParseErrorV::FieldOutsideItem { field_tag: row.hierarchical_tag })
            } else {
                let last = ch.articles.last();
                let updated = match row.field {
                    XmlField::ArticleTitle => Ok(ArticleV { title: value, ..last }),
                    XmlField::ArticleLink => Ok(ArticleV { link: value, ..last }),
                    XmlField::ArticleDescription => Ok(ArticleV { description: value, ..last }),
                    _ => {
                        match spec_parse_date(value) {
                            Some(t) => Ok(
                                ArticleV { date: Some(t), date_text: Some(value), ..last },
                            ),
                            None => Err(ParseErrorV::InvalidDate { text: value }),
                        }
                    },
                };
                match updated {
                    Ok(a) => Ok(
                        ChannelV {
                            articles: ch.articles.update(ch.articles.len() - 1, a),
                            ..ch
                        },
                    ),
                    Err(e) => Err(e),
                }
            }
        },
    }
}

/// One transition of the parser state machine, exactly as the walk treats a
/// single event. An `<item>` start opens a new empty article and switches
/// the prefix without touching the open field; any other start tag is an
/// error while a field is open, and otherwise resolves (or is ignored). An
/// `</item>` requires no open field; another end tag must match the open
/// field's immediate tag, and is ignored when no field is open. Character
/// data is written into the open field, if any. A reader error aborts.
pub open spec fn spec_step(st: ParserV, ev: XmlEventV) -> Result<ParserV, ParseErrorV> {
    match ev {
        XmlEventV::ElementStart(tag) => {
            if tag == "item"@ {
                Ok(
                    ParserV {
                        in_item: true,
                        channel: ChannelV {
                            articles: st.channel.articles.push(spec_empty_article()),
                            ..st.channel
                        },
                        ..st
                    },
                )
            } else {
                match st.active {
                    Some(row) => Err(
                        ParseErrorV::UnexpectedStartTag { tag, open_field: row.hierarchical_tag },
                    ),
                    None => Ok(
                        ParserV { active: spec_resolve(spec_prefix(st.in_item) + tag), ..st },
                    ),
                }
            }
        },
        XmlEventV::ElementEnd(tag) => {
            if tag == "item"@ {
                match st.active {
                    Some(row) => Err(
                        ParseErrorV::UnclosedFieldInItem { open_field: row.hierarchical_tag },
                    ),
                    None => Ok(ParserV { in_item: false, ..st }),
                }
            } else {
                match st.active {
                    Some(row) => {
                        if row.tag == tag {
                            Ok(ParserV { active: None, ..st })
                        } else {
                            Err(
                                ParseErrorV::MismatchedEndTag {
                                    tag,
                                    expected: row.hierarchical_tag,
                                },
                            )
                        }
                    },
                    None => Ok(st),
                }
            }
        },
        XmlEventV::Text(data) => {
            match st.active {
                Some(row) => {
                    match spec_update_field(st.channel, row, data) {
                        Ok(ch) => Ok(ParserV { channel: ch, ..st }),
                        Err(e) => Err(e),
                    }
                },
                None => Ok(st),
            }
        },
        XmlEventV::ReadError(message) => Err(ParseErrorV::Reader { message }),
        XmlEventV::Other => Ok(st),
    }
}

/// Running the state machine over a whole event sequence, aborting at the
/// first error.
pub open spec fn spec_run(st: ParserV, events: Seq<XmlEventV>) -> Result<ParserV, ParseErrorV>
    decreases events.len(),
{
    if events.len() == 0 {
        Ok(st)
    } else {
        match spec_step(st, events[0]) {
            Ok(st2) => spec_run(st2, events.drop_first()),
            Err(e) => Err(e),
        }
    }
}

/// The whole parse: run the machine over the stream, then reject the result
/// when any channel-level field came out empty.
pub open spec fn spec_parse(events: Seq<XmlEventV>) -> Result<ChannelV, ParseErrorV> {
    match spec_run(spec_parser_init(), events) {
        Ok(st) => {
            if st.channel.title.len() == 0 || st.channel.link.len() == 0
                || st.channel.description.len() == 0 {
                Err(ParseErrorV::MissingChannelFields)
            } else {
                Ok(st.channel)
            }
        },
        Err(e) => Err(e),
    }
}

/// Running over a concatenation is running over the first part, then (when
/// that succeeds) the second.
pub proof fn lemma_run_app(st: ParserV, a: Seq<XmlEventV>, b: Seq<XmlEventV>)
    ensures
        spec_run(st, a + b) == (match spec_run(st, a) {
            Ok(m) => spec_run(m, b),
            Err(e) => Err(e),
        }),
    decreases a.len(),
{
    if a.len() == 0 {
        assert(a + b =~= b);
    } else {
        assert((a + b)[0] == a[0]);
        assert((a + b).drop_first() =~= a.drop_first() + b);
        if spec_step(st, a[0]) is Ok {
            lemma_run_app(spec_step(st, a[0])->Ok_0, a.drop_first(), b);
        }
    }
}

/// Consuming one more event applies one more step.
pub proof fn lemma_run_take_step(st: ParserV, s: Seq<XmlEventV>, i: int)
    requires
        0 <= i < s.len(),
        spec_run(st, s.take(i)) is Ok,
    ensures
        spec_run(st, s.take(i + 1)) == spec_step(spec_run(st, s.take(i))->Ok_0, s[i]),
{
    assert(s.take(i + 1) =~= s.take(i) + seq![s[i]]);
    lemma_run_app(st, s.take(i), seq![s[i]]);
    let m = spec_run(st, s.take(i))->Ok_0;
    assert(seq![s[i]].drop_first() =~= Seq::<XmlEventV>::empty());
    reveal_with_fuel(spec_run, 2);
    assert(spec_run(m, seq![s[i]]) == spec_step(m, s[i]));
}

/// An error on a prefix is the error of the whole run.
pub proof fn lemma_run_err_prefix(st: ParserV, s: Seq<XmlEventV>, i: int)
    requires
        0 <= i <= s.len(),
        spec_run(st, s.take(i)) is Err,
    ensures
        spec_run(st, s) == spec_run(st, s.take(i)),
{
    lemma_run_app(st, s.take(i), s.skip(i));
    assert(s.take(i) + s.skip(i) =~= s);
}

/// The view of an optional table row.
pub open spec fn spec_opt_row(a: Option<XmlTagField>) -> Option<XmlTagFieldV> {
    match a {
        Some(f) => Some(f@),
        None => None,
    }
}

impl RssChannel {
    /// Writes character data into the field a table row routes to.
    fn update_channel_field(&mut self, field: &XmlTagField, value: String) -> (r: Result<
        (),
        ParseError,
    >)
        ensures
            match r {
                Ok(_) => spec_update_field(old(self)@, field@, value@) == Ok::<ChannelV, ParseErrorV>(final (self)@),
                Err(e) => spec_update_field(old(self)@, field@, value@) == Err::<ChannelV, ParseErrorV>(e@) && *final (self)
                    == *old(self),
            },
    {
        match field.field {
            XmlField::ChannelTitle => {
                self.title = value;
                Ok(())
            },
            XmlField::ChannelLink => {
                self.link = value;
                Ok(())
            },
            XmlField::ChannelDescription => {
                self.description = value;
                Ok(())
            },
            XmlField::ArticleTitle => {
                let n = self.articles.len();
                if n == 0 {
                    return Err(
                        ParseError::FieldOutsideItem {
                            field_tag: String::from_str(field.hierarchical_tag),
                        },
                    );
                }
                self.articles[n - 1].title = value;
                proof {
                    assert(self@.articles =~= old(self)@.articles.update(
                        n - 1,
                        ArticleV { title: value@, ..old(self)@.articles.last() },
                    ));
                }
                Ok(())
            },
            XmlField::ArticleLink => {
                let n = self.articles.len();
                if n == 0 {
                    return Err(
                        ParseError::FieldOutsideItem {
                            field_tag: String::from_str(field.hierarchical_tag),
                        },
                    );
                }
                self.articles[n - 1].link = value;
                proof {
                    assert(self@.articles =~= old(self)@.articles.update(
                        n - 1,
                        ArticleV { link: value@, ..old(self)@.articles.last() },
                    ));
                }
                Ok(())
            },
            XmlField::ArticleDescription => {
                let n = self.articles.len();
                if n == 0 {
                    return Err(
                        ParseError::FieldOutsideItem {
                            field_tag: String::from_str(field.hierarchical_tag),
                        },
                    );
                }
                self.articles[n - 1].description = value;
                proof {
                    assert(self@.articles =~= old(self)@.articles.update(
                        n - 1,
                        ArticleV { description: value@, ..old(self)@.articles.last() },
                    ));
                }
                Ok(())
            },
            XmlField::ArticlePubDate => {
                let n = self.articles.len();
                if n == 0 {
                    return Err(
                        ParseError::FieldOutsideItem {
                            field_tag: String::from_str(field.hierarchical_tag),
                        },
                    );
                }
                match parse_date(value.as_str()) {
                    Ok(t) => {
                        self.articles[n - 1].date = Some(t);
                        self.articles[n - 1].date_text = Some(value);
                        proof {
                            assert(self@.articles =~= old(self)@.articles.update(
                                n - 1,
                                ArticleV {
                                    date: Some(t),
                                    date_text: Some(value@),
                                    ..old(self)@.articles.last()
                                },
                            ));
                        }
                        Ok(())
                    },
                    Err(_) => Err(ParseError::InvalidDate { text: value }),
                }
            },
        }
    }
}

/// Parses a linear sequence of XML events into a channel: a single forward
/// pass with at most one open field and one open item at a time, rejecting
/// the result when the channel-level `title`, `link` or `description` came
/// out empty.
pub fn parse(events: &Vec<XmlEvent>) -> (r: Result<RssChannel, ParseError>)
    ensures
        match r {
            Ok(c) => spec_parse(events.deep_view()) == Ok::<ChannelV, ParseErrorV>(c@),
            Err(e) => spec_parse(events.deep_view()) == Err::<ChannelV, ParseErrorV>(e@),
        },
{
    let ghost dv = events.deep_view();
    let mut channel = RssChannel::new();
    let mut in_item = false;
    let mut active: Option<XmlTagField> = None;
    let mut i: usize = 0;
    proof {
        assert(dv.take(0) =~= Seq::<XmlEventV>::empty());
    }
    while i < events.len()
        invariant
            i <= events.len(),
            dv == events.deep_view(),
            dv.len() == events@.len(),
            spec_run(spec_parser_init(), dv.take(i as int)) == Ok::<ParserV, ParseErrorV>(
                ParserV { in_item, active: spec_opt_row(active), channel: channel@ },
            ),
        decreases events.len() - i,
    {
        let ghost st = ParserV { in_item, active: spec_opt_row(active), channel: channel@ };
        proof {
            lemma_run_take_step(spec_parser_init(), dv, i as int);
            assert(dv[i as int] == events@[i as int]@);
        }
        match &events[i] {
            XmlEvent::ElementStart(name) => {
                if str_eq(name.as_str(), "item") {
                    in_item = true;
                    channel.articles.push(RssArticle::new());
                    proof {
                        assert(channel@.articles =~= st.channel.articles.push(
                            spec_empty_article(),
                        ));
                    }
                } else {
                    if let Some(f) = active {
                        proof {
                            lemma_run_err_prefix(spec_parser_init(), dv, i as int + 1);
                        }
                        return Err(
                            ParseError::UnexpectedStartTag {
                                tag: name.clone(),
                                open_field: String::from_str(f.hierarchical_tag),
                            },
                        );
                    }
                    let mut h = if in_item {
                        String::from_str("item > ")
                    } else {
                        String::new()
                    };
                    h.append(name.as_str());
                    proof {
                        assert(h@ =~= spec_prefix(in_item) + name@);
                    }
                    active = XmlTagField::corresponding_field(h.as_str());
                }
            },
            XmlEvent::ElementEnd(name) => {
                if str_eq(name.as_str(), "item") {
                    if let Some(f) = active {
                        proof {
                            lemma_run_err_prefix(spec_parser_init(), dv, i as int + 1);
                        }
                        return Err(
                            ParseError::UnclosedFieldInItem {
                                open_field: String::from_str(f.hierarchical_tag),
                            },
                        );
                    }
                    in_item = false;
                } else {
                    if let Some(f) = active {
                        if str_eq(f.tag, name.as_str()) {
                            active = None;
                        } else {
                            proof {
                                lemma_run_err_prefix(spec_parser_init(), dv, i as int + 1);
                            }
                            return Err(
                                ParseError::MismatchedEndTag {
                                    tag: name.clone(),
                                    expected: String::from_str(f.hierarchical_tag),
                                },
                            );
                        }
                    }
                }
            },
            XmlEvent::Text(data) => {
                if let Some(f) = active {
                    match channel.update_channel_field(&f, data.clone()) {
                        Ok(_) => {},
                        Err(e) => {
                            proof {
                                lemma_run_err_prefix(spec_parser_init(), dv, i as int + 1);
                            }
                            return Err(e);
                        },
                    }
                }
            },
            XmlEvent::ReadError(message) => {
                proof {
                    lemma_run_err_prefix(spec_parser_init(), dv, i as int + 1);
                }
                return Err(ParseError::Reader { message: message.clone() });
            },
            XmlEvent::Other => {},
        }
        i += 1;
    }
    proof {
        assert(dv.take(dv.len() as int) =~= dv);
    }
    if channel.title.as_str().is_empty() || channel.link.as_str().is_empty()
        || channel.description.as_str().is_empty() {
        return Err(ParseError::MissingChannelFields);
    }
    Ok(channel)
}

} // verus!
