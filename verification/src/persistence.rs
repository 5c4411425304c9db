use vstd::prelude::*;

use crate::error::TrsError;
use crate::parser::str_eq;
use crate::parser::ArticleV;
use crate::parser::ChannelV;
use crate::parser::RssChannel;

verus! {

broadcast use vstd::seq_lib::group_to_multiset_ensures;

/// Spec-level image of a stored article row.
#[verifier::ext_equal]
pub struct ArticleRowV {
    pub id: int,
    pub channel_id: int,
    pub title: Seq<char>,
    pub description: Seq<char>,
    pub link: Seq<char>,
    pub pub_date: Option<i64>,
    pub last_update: i64,
    pub unread: bool,
}

/// Spec-level image of a stored channel row with its articles.
#[verifier::ext_equal]
pub struct ChannelRowV {
    pub id: int,
    pub title: Seq<char>,
    pub link: Seq<char>,
    pub description: Seq<char>,
    pub last_update: i64,
    pub articles: Seq<ArticleRowV>,
}

/// Spec-level image of the whole store.
#[verifier::ext_equal]
pub struct DbV {
    pub channels: Seq<ChannelRowV>,
    pub next_channel_id: int,
    pub next_article_id: int,
}

/// A stored article: the surrogate key the store assigned, the owning
/// channel, the extracted fields, and the read state, which belongs to the
/// user-action path and is never reset by ingestion.
#[derive(Debug, PartialEq)]
pub struct RssArticleD {
    pub id: i64,
    pub channel_id: i64,
    pub title: String,
    pub description: String,
    pub link: String,
    pub pub_date: Option<i64>,
    pub last_update: i64,
    pub unread: bool,
}

/// A stored channel: the surrogate key, the fields of the last ingestion,
/// and the channel's stored articles.
#[derive(Debug, PartialEq)]
pub struct RssChannelD {
    pub id: i64,
    pub title: String,
    pub link: String,
    pub description: String,
    pub last_update: i64,
    pub articles: Vec<RssArticleD>,
}

impl View for RssArticleD {
    type V = ArticleRowV;

    open spec fn view(&self) -> ArticleRowV {
        ArticleRowV {
            id: self.id as int,
            channel_id: self.channel_id as int,
            title: self.title@,
            description: self.description@,
            link: self.link@,
            pub_date: self.pub_date,
            last_update: self.last_update,
            unread: self.unread,
        }
    }
}

impl View for RssChannelD {
    type V = ChannelRowV;

    open spec fn view(&self) -> ChannelRowV {
        ChannelRowV {
            id: self.id as int,
            title: self.title@,
            link: self.link@,
            description: self.description@,
            last_update: self.last_update,
            articles: self.articles@.map_values(|a: RssArticleD| a@),
        }
    }
}

impl Clone for RssArticleD {
    /// An exact copy of the row.
    fn clone(&self) -> (res: Self)
        ensures
            res == *self,
    {
        RssArticleD {
            id: self.id,
            channel_id: self.channel_id,
            title: self.title.clone(),
            description: self.description.clone(),
            link: self.link.clone(),
            pub_date: self.pub_date,
            last_update: self.last_update,
            unread: self.unread,
        }
    }
}

impl Clone for RssChannelD {
    /// A copy of the row and its articles, equal up to views.
    fn clone(&self) -> (res: Self)
        ensures
            res@ == self@,
            res.id == self.id,
    {
        let mut articles: Vec<RssArticleD> = Vec::new();
        let mut i: usize = 0;
        while i < self.articles.len()
            invariant
                i <= self.articles.len(),
                articles@ =~= self.articles@.take(i as int),
            decreases self.articles.len() - i,
        {
            articles.push(self.articles[i].clone());
            i += 1;
        }
        proof {
            assert(articles@ =~= self.articles@);
        }
        let res = RssChannelD {
            id: self.id,
            title: self.title.clone(),
            link: self.link.clone(),
            description: self.description.clone(),
            last_update: self.last_update,
            articles,
        };
        proof {
            assert(res@.articles =~= self@.articles);
        }
        res
    }
}

/// The store: all channel rows (in id order) with their articles nested, and
/// the next free surrogate keys.
pub struct Db {
    channels: Vec<RssChannelD>,
    next_channel_id: i64,
    next_article_id: i64,
}

impl View for Db {
    type V = DbV;

    closed spec fn view(&self) -> DbV {
        DbV {
            channels: self.channels@.map_values(|c: RssChannelD| c@),
            next_channel_id: self.next_channel_id as int,
            next_article_id: self.next_article_id as int,
        }
    }
}

/// Some channel row carries this link.
pub open spec fn has_chan_link(chs: Seq<ChannelRowV>, link: Seq<char>) -> bool {
    exists|i: int| 0 <= i < chs.len() && (#[trigger] chs[i]).link == link
}

/// Some channel row carries this id.
pub open spec fn has_chan_id(chs: Seq<ChannelRowV>, id: int) -> bool {
    exists|i: int| 0 <= i < chs.len() && (#[trigger] chs[i]).id == id
}

/// Some article row, in any channel, carries this link.
pub open spec fn has_art_link(chs: Seq<ChannelRowV>, link: Seq<char>) -> bool {
    exists|i: int, j: int|
        0 <= i < chs.len() && 0 <= j < chs[i].articles.len() && (#[trigger] chs[i].articles[j]).link
            == link
}

/// Some article row, in any channel, carries this id.
pub open spec fn has_art_id(chs: Seq<ChannelRowV>, id: int) -> bool {
    exists|i: int, j: int|
        0 <= i < chs.len() && 0 <= j < chs[i].articles.len() && (#[trigger] chs[i].articles[j]).id
            == id
}

/// The store's invariant: surrogate keys start at 1 and stay below the next
/// free key; channel rows are in strictly ascending id order (so ids are
/// unique and id order is insertion order); exactly one channel row per
/// distinct link; every article row points at its enclosing channel; and
/// article ids and article links are unique across the whole store.
pub open spec fn db_wf(db: DbV) -> bool {
    &&& 1 <= db.next_channel_id
    &&& 1 <= db.next_article_id
    &&& forall|i: int|
        0 <= i < db.channels.len() ==> 1 <= (#[trigger] db.channels[i]).id < db.next_channel_id
    &&& forall|i: int, j: int|
        #![trigger db.channels[i], db.channels[j]]
        0 <= i < j < db.channels.len() ==> db.channels[i].id < db.channels[j].id
    &&& forall|i: int, j: int|
        #![trigger db.channels[i], db.channels[j]]
        0 <= i < db.channels.len() && 0 <= j < db.channels.len() && i != j ==> db.channels[i].link
            != db.channels[j].link
    &&& forall|i: int, j: int|
        #![trigger db.channels[i].articles[j]]
        0 <= i < db.channels.len() && 0 <= j < db.channels[i].articles.len() ==> {
            &&& 1 <= db.channels[i].articles[j].id < db.next_article_id
            &&& db.channels[i].articles[j].channel_id == db.channels[i].id
        }
    &&& forall|i: int, j: int, k: int, l: int|
        #![trigger db.channels[i].articles[j], db.channels[k].articles[l]]
        0 <= i < db.channels.len() && 0 <= j < db.channels[i].articles.len() && 0 <= k
            < db.channels.len() && 0 <= l < db.channels[k].articles.len() && (i != k || j != l)
            ==> {
            &&& db.channels[i].articles[j].id != db.channels[k].articles[l].id
            &&& db.channels[i].articles[j].link != db.channels[k].articles[l].link
        }
}

/// The empty store.
pub open spec fn spec_db_init() -> DbV {
    DbV { channels: Seq::empty(), next_channel_id: 1, next_article_id: 1 }
}

impl Db {
    /// A fresh, empty store.
    pub fn new() -> (r: Db)
        ensures
            r@ == spec_db_init(),
            db_wf(r@),
    {
        let r = Db { channels: Vec::new(), next_channel_id: 1, next_article_id: 1 };
        proof {
            assert(r@.channels =~= Seq::<ChannelRowV>::empty());
        }
        r
    }

    /// Point lookup of a channel row by its link, with its stored articles
    /// attached; fails exactly when no row carries the link.
    pub fn get_channel(&self, link: &str) -> (r: Result<RssChannelD, TrsError>)
        requires
            db_wf(self@),
        ensures
            r is Ok <==> has_chan_link(self@.channels, link@),
            r matches Ok(c) ==> exists|i: int|
                0 <= i < self@.channels.len() && (#[trigger] self@.channels[i]) == c@
                    && c@.link == link@,
            r matches Err(e) ==> (e matches TrsError::NotFound(m) && m@
                == "Failed to retrieve channel with link "@ + link@),
    {
        let mut i: usize = 0;
        while i < self.channels.len()
            invariant
                i <= self.channels.len(),
                db_wf(self@),
                forall|j: int| 0 <= j < i ==> (#[trigger] self@.channels[j]).link != link@,
            decreases self.channels.len() - i,
        {
            if str_eq(self.channels[i].link.as_str(), link) {
                let c = self.channels[i].clone();
                proof {
                    assert(self@.channels[i as int].link == link@);
                    assert(c@ == self@.channels[i as int]);
                }
                return Ok(c);
            }
            i += 1;
        }
        let mut m = String::from_str("Failed to retrieve channel with link ");
        m.append(link);
        Err(TrsError::NotFound(m))
    }

    /// Point lookup of an article row by its link; fails exactly when no row
    /// carries the link.
    pub fn get_article(&self, link: &str) -> (r: Result<RssArticleD, TrsError>)
        requires
            db_wf(self@),
        ensures
            r is Ok <==> has_art_link(self@.channels, link@),
            r matches Ok(a) ==> exists|i: int, j: int|
                0 <= i < self@.channels.len() && 0 <= j < self@.channels[i].articles.len() && (
                #[trigger] self@.channels[i].articles[j]) == a@ && a@.link == link@,
            r matches Err(e) ==> (e matches TrsError::NotFound(m) && m@
                == "Failed to retrieve article with link "@ + link@),
    {
        let mut i: usize = 0;
        while i < self.channels.len()
            invariant
                i <= self.channels.len(),
                db_wf(self@),
                forall|ii: int, jj: int|
                    0 <= ii < i && 0 <= jj < self@.channels[ii].articles.len() ==> (
                    #[trigger] self@.channels[ii].articles[jj]).link != link@,
            decreases self.channels.len() - i,
        {
            let ch = &self.channels[i];
            let mut j: usize = 0;
            while j < ch.articles.len()
                invariant
                    j <= ch.articles.len(),
                    ch == &self.channels@[i as int],
                    i < self.channels.len(),
                    db_wf(self@),
                    forall|jj: int|
                        0 <= jj < j ==> (#[trigger] self@.channels[i as int].articles[jj]).link
                            != link@,
                decreases ch.articles.len() - j,
            {
                if str_eq(ch.articles[j].link.as_str(), link) {
                    let a = ch.articles[j].clone();
                    proof {
                        assert(self@.channels[i as int].articles[j as int].link == link@);
                        assert(a@ == self@.channels[i as int].articles[j as int]);
                    }
                    return Ok(a);
                }
                j += 1;
            }
            i += 1;
        }
        let mut m = String::from_str("Failed to retrieve article with link ");
        m.append(link);
        Err(TrsError::NotFound(m))
    }
}

/// Reconciling a parsed channel against the channel rows, keyed by link:
/// an existing row keeps its id and articles and takes the fresh title,
/// description and timestamp; otherwise a new row is appended under the next
/// free id, with no articles yet.
pub open spec fn spec_upsert_channel(db: DbV, c: ChannelV, now: i64) -> DbV {
    if has_chan_link(db.channels, c.link) {
        DbV {
            channels: db.channels.map_values(
                |row: ChannelRowV|
                    if row.link == c.link {
                        ChannelRowV {
                            title: c.title,
                            description: c.description,
                            last_update: now,
                            ..row
                        }
                    } else {
                        row
                    },
            ),
            ..db
        }
    } else {
        DbV {
            channels: db.channels.push(
                ChannelRowV {
                    id: db.next_channel_id,
                    title: c.title,
                    link: c.link,
                    description: c.description,
                    last_update: now,
                    articles: Seq::empty(),
                },
            ),
            next_channel_id: db.next_channel_id + 1,
            ..db
        }
    }
}

/// The row a fresh article is stored under: the next free id, the enclosing
/// channel's id, the extracted fields, and `unread` set.
pub open spec fn spec_new_article_row(db: DbV, chan: ChannelRowV, a: ArticleV, now: i64) -> ArticleRowV {
    ArticleRowV {
        id: db.next_article_id,
        channel_id: chan.id,
        title: a.title,
        description: a.description,
        link: a.link,
        pub_date: a.date,
        last_update: now,
        unread: true,
    }
}

/// Reconciling one parsed article, keyed by link across the whole store: an
/// existing row (under whatever channel) takes only the fresh publication
/// date and timestamp — never its read state; otherwise a new row is
/// appended to the channel with the given link.
pub open spec fn spec_upsert_article(db: DbV, chan_link: Seq<char>, a: ArticleV, now: i64) -> DbV {
    if has_art_link(db.channels, a.link) {
        DbV {
            channels: db.channels.map_values(
                |row: ChannelRowV|
                    ChannelRowV {
                        articles: row.articles.map_values(
                            |ar: ArticleRowV|
                                if ar.link == a.link {
                                    ArticleRowV { pub_date: a.date, last_update: now, ..ar }
                                } else {
                                    ar
                                },
                        ),
                        ..row
                    },
            ),
            ..db
        }
    } else {
        DbV {
            channels: db.channels.map_values(
                |row: ChannelRowV|
                    if row.link == chan_link {
                        ChannelRowV {
                            articles: row.articles.push(spec_new_article_row(db, row, a, now)),
                            ..row
                        }
                    } else {
                        row
                    },
            ),
            next_article_id: db.next_article_id + 1,
            ..db
        }
    }
}

/// Reconciling a sequence of parsed articles, first to last.
pub open spec fn spec_upsert_articles(
    db: DbV,
    chan_link: Seq<char>,
    arts: Seq<ArticleV>,
    now: i64,
) -> DbV
    decreases arts.len(),
{
    if arts.len() == 0 {
        db
    } else {
        spec_upsert_articles(
            spec_upsert_article(db, chan_link, arts[0], now),
            chan_link,
            arts.drop_first(),
            now,
        )
    }
}

/// The whole ingestion step: upsert the channel row by link, then each
/// parsed article by link under it.
pub open spec fn spec_add_channel(db: DbV, c: ChannelV, now: i64) -> DbV {
    spec_upsert_articles(spec_upsert_channel(db, c, now), c.link, c.articles, now)
}

/// The surrogate-key headroom one ingestion needs.
pub open spec fn spec_add_headroom(db: DbV, c: ChannelV) -> bool {
    db.next_channel_id < i64::MAX as int && db.next_article_id + c.articles.len() <= i64::MAX
        as int
}

/// Folding article upserts over a concatenation splits into two folds.
pub proof fn lemma_upsert_articles_app(
    db: DbV,
    chan_link: Seq<char>,
    a: Seq<ArticleV>,
    b: Seq<ArticleV>,
    now: i64,
)
    ensures
        spec_upsert_articles(db, chan_link, a + b, now) == spec_upsert_articles(
            spec_upsert_articles(db, chan_link, a, now),
            chan_link,
            b,
            now,
        ),
    decreases a.len(),
{
    if a.len() == 0 {
        assert(a + b =~= b);
    } else {
        assert((a + b)[0] == a[0]);
        assert((a + b).drop_first() =~= a.drop_first() + b);
        lemma_upsert_articles_app(
            spec_upsert_article(db, chan_link, a[0], now),
            chan_link,
            a.drop_first(),
            b,
            now,
        );
    }
}

impl Db {
    /// Upserts the channel row by link and hands back its index.
    #[verifier::loop_isolation(false)]
    fn upsert_channel_row(&mut self, channel: &RssChannel, now: i64) -> (idx: usize)
        requires
            db_wf(old(self)@),
            old(self)@.next_channel_id < i64::MAX as int,
        ensures
            db_wf(final (self)@),
            final (self)@ == spec_upsert_channel(old(self)@, channel@, now),
            idx < final (self)@.channels.len(),
            final (self)@.channels[idx as int].link == channel@.link,
            final (self)@.next_article_id == old(self)@.next_article_id,
    {
        let ghost dv0 = self@;
        let mut i: usize = 0;
        while i < self.channels.len()
            invariant
                i <= self.channels.len(),
                self@ == dv0,
                db_wf(dv0),
                forall|j: int| 0 <= j < i ==> (#[trigger] dv0.channels[j]).link != channel@.link,
            decreases self.channels.len() - i,
        {
            if str_eq(self.channels[i].link.as_str(), channel.link.as_str()) {
                self.channels[i].title = channel.title.clone();
                self.channels[i].description = channel.description.clone();
                self.channels[i].last_update = now;
                proof {
                    assert(dv0.channels[i as int].link == channel@.link);
                    assert(has_chan_link(dv0.channels, channel@.link));
                    let target = spec_upsert_channel(dv0, channel@, now);
                    assert forall|k: int| 0 <= k < dv0.channels.len() implies self@.channels[k]
                        =~~= target.channels[k] by {
                        if k != i as int {
                            assert(dv0.channels[k].link != channel@.link);
                        }
                    }
                    assert(self@ =~~= target);
                    assert(forall|k: int|
                        0 <= k < dv0.channels.len() ==> {
                            &&& (#[trigger] self@.channels[k]).id == dv0.channels[k].id
                            &&& self@.channels[k].link == dv0.channels[k].link
                            &&& self@.channels[k].articles == dv0.channels[k].articles
                        });
                    assert(db_wf(self@));
                }
                return i;
            }
            i += 1;
        }
        let row = RssChannelD {
            id: self.next_channel_id,
            title: channel.title.clone(),
            link: channel.link.clone(),
            description: channel.description.clone(),
            last_update: now,
            articles: Vec::new(),
        };
        self.channels.push(row);
        self.next_channel_id = self.next_channel_id + 1;
        proof {
            assert(!has_chan_link(dv0.channels, channel@.link));
            let target = spec_upsert_channel(dv0, channel@, now);
            assert(self@.channels[dv0.channels.len() as int].articles
                =~= Seq::<ArticleRowV>::empty());
            assert(self@.channels =~~= target.channels);
            assert(self@ =~~= target);
            assert(forall|k: int|
                0 <= k < dv0.channels.len() ==> self@.channels[k] == dv0.channels[k]);
            assert(db_wf(self@));
        }
        self.channels.len() - 1
    }

    /// Upserts one parsed article by link, under the channel at the given
    /// index when the link is new.
    #[verifier::loop_isolation(false)]
    fn add_article(&mut self, chan_idx: usize, article: &crate::parser::RssArticle, now: i64)
        requires
            db_wf(old(self)@),
            chan_idx < old(self)@.channels.len(),
            old(self)@.next_article_id < i64::MAX as int,
        ensures
            db_wf(final (self)@),
            final (self)@ == spec_upsert_article(
                old(self)@,
                old(self)@.channels[chan_idx as int].link,
                article@,
                now,
            ),
            final (self)@.channels.len() == old(self)@.channels.len(),
            forall|k: int|
                0 <= k < final (self)@.channels.len() ==> (#[trigger] final (self)@.channels[k]).link
                    == old(self)@.channels[k].link && final (self)@.channels[k].id == old(
                    self,
                )@.channels[k].id,
            final (self)@.next_channel_id == old(self)@.next_channel_id,
            old(self)@.next_article_id <= final (self)@.next_article_id <= old(
                self,
            )@.next_article_id + 1,
    {
        let ghost dv0 = self@;
        let ghost chan_link = dv0.channels[chan_idx as int].link;
        let mut i: usize = 0;
        while i < self.channels.len()
            invariant
                i <= self.channels.len(),
                self@ == dv0,
                db_wf(dv0),
                forall|ii: int, jj: int|
                    0 <= ii < i && 0 <= jj < dv0.channels[ii].articles.len() ==> (
                    #[trigger] dv0.channels[ii].articles[jj]).link != article@.link,
            decreases self.channels.len() - i,
        {
            let n_arts = self.channels[i].articles.len();
            let mut j: usize = 0;
            while j < n_arts
                invariant
                    j <= n_arts,
                    i < self.channels.len(),
                    n_arts == self@.channels[i as int].articles.len(),
                    self@ == dv0,
                    db_wf(dv0),
                    forall|jj: int|
                        0 <= jj < j ==> (#[trigger] dv0.channels[i as int].articles[jj]).link
                            != article@.link,
                decreases n_arts - j,
            {
                if str_eq(self.channels[i].articles[j].link.as_str(), article.link.as_str()) {
                    self.channels[i].articles[j].pub_date = article.date;
                    self.channels[i].articles[j].last_update = now;
                    proof {
                        assert(dv0.channels[i as int].articles[j as int].link == article@.link);
                        assert(has_art_link(dv0.channels, article@.link));
                        let target = spec_upsert_article(dv0, chan_link, article@, now);
                        assert forall|k: int| 0 <= k < dv0.channels.len() implies self@.channels[k]
                            =~~= target.channels[k] by {
                            assert forall|l: int|
                                0 <= l < dv0.channels[k].articles.len() implies self@.channels[k].articles[l]
                                == target.channels[k].articles[l] by {
                                if k != i as int || l != j as int {
                                    assert(dv0.channels[k].articles[l].link != article@.link);
                                }
                            }
                            assert(self@.channels[k].articles =~= target.channels[k].articles);
                        }
                        assert(self@ =~~= target);
                        assert(forall|k: int|
                            0 <= k < dv0.channels.len() ==> {
                                &&& (#[trigger] self@.channels[k]).id == dv0.channels[k].id
                                &&& self@.channels[k].link == dv0.channels[k].link
                                &&& self@.channels[k].articles.len()
                                    == dv0.channels[k].articles.len()
                            });
                        assert(forall|k: int, l: int|
                            #![trigger self@.channels[k].articles[l]]
                            0 <= k < dv0.channels.len() && 0 <= l
                                < dv0.channels[k].articles.len() ==> {
                                &&& self@.channels[k].articles[l].id
                                    == dv0.channels[k].articles[l].id
                                &&& self@.channels[k].articles[l].link
                                    == dv0.channels[k].articles[l].link
                                &&& self@.channels[k].articles[l].channel_id
                                    == dv0.channels[k].articles[l].channel_id
                            });
                        assert(db_wf(self@));
                    }
                    return ;
                }
                j += 1;
            }
            i += 1;
        }
        let row = RssArticleD {
            id: self.next_article_id,
            channel_id: self.channels[chan_idx].id,
            title: article.title.clone(),
            description: article.description.clone(),
            link: article.link.clone(),
            pub_date: article.date,
            last_update: now,
            unread: true,
        };
        self.channels[chan_idx].articles.push(row);
        self.next_article_id = self.next_article_id + 1;
        proof {
            assert(!has_art_link(dv0.channels, article@.link));
            let target = spec_upsert_article(dv0, chan_link, article@, now);
            assert forall|k: int| 0 <= k < dv0.channels.len() implies self@.channels[k]
                =~~= target.channels[k] by {
                if k == chan_idx as int {
                    assert(dv0.channels[k].link == chan_link);
                    assert(self@.channels[k].articles =~= dv0.channels[k].articles.push(
                        spec_new_article_row(dv0, dv0.channels[k], article@, now),
                    ));
                } else {
                    assert(dv0.channels[k].link != chan_link);
                }
            }
            assert(self@ =~~= target);
            assert(db_wf(self@)) by {
                let dv1 = self@;
                assert(forall|k: int|
                    0 <= k < dv1.channels.len() ==> {
                        &&& (#[trigger] dv1.channels[k]).id == dv0.channels[k].id
                        &&& dv1.channels[k].link == dv0.channels[k].link
                    });
                assert forall|k: int, l: int|
                    #![trigger dv1.channels[k].articles[l]]
                    0 <= k < dv1.channels.len() && 0 <= l
                        < dv1.channels[k].articles.len() implies {
                    &&& 1 <= dv1.channels[k].articles[l].id < dv1.next_article_id
                    &&& dv1.channels[k].articles[l].channel_id == dv1.channels[k].id
                } by {
                    if k == chan_idx as int && l == dv0.channels[k].articles.len() as int {
                    } else {
                        assert(dv1.channels[k].articles[l] == dv0.channels[k].articles[l]);
                    }
                }
                assert forall|k: int, l: int, k2: int, l2: int|
                    #![trigger dv1.channels[k].articles[l], dv1.channels[k2].articles[l2]]
                    0 <= k < dv1.channels.len() && 0 <= l < dv1.channels[k].articles.len() && 0
                        <= k2 < dv1.channels.len() && 0 <= l2 < dv1.channels[k2].articles.len()
                        && (k != k2 || l != l2) implies {
                    &&& dv1.channels[k].articles[l].id != dv1.channels[k2].articles[l2].id
                    &&& dv1.channels[k].articles[l].link != dv1.channels[k2].articles[l2].link
                } by {
                    let newk = chan_idx as int;
                    let newl = dv0.channels[newk].articles.len() as int;
                    if k == newk && l == newl {
                        assert(dv1.channels[k2].articles[l2] == dv0.channels[k2].articles[l2]);
                    } else if k2 == newk && l2 == newl {
                        assert(dv1.channels[k].articles[l] == dv0.channels[k].articles[l]);
                    } else {
                        assert(dv1.channels[k].articles[l] == dv0.channels[k].articles[l]);
                        assert(dv1.channels[k2].articles[l2] == dv0.channels[k2].articles[l2]);
                    }
                }
            }
        }
    }

    /// Ingests one parsed channel: upserts the channel row by link, then
    /// every parsed article by link under it, and returns the reconciled
    /// channel row with its stored articles. Fails exactly when the
    /// surrogate-key space cannot take the ingestion, and then changes
    /// nothing.
    #[verifier::loop_isolation(false)]
    pub fn add_channel(&mut self, channel: &RssChannel, now: i64) -> (r: Result<
        RssChannelD,
        TrsError,
    >)
        requires
            db_wf(old(self)@),
        ensures
            db_wf(final (self)@),
            r is Ok <==> spec_add_headroom(old(self)@, channel@),
            r is Ok ==> final (self)@ == spec_add_channel(old(self)@, channel@, now),
            r is Err ==> final (self)@ == old(self)@,
            r matches Ok(c) ==> c@.link == channel@.link && exists|i: int|
                0 <= i < final (self)@.channels.len() && (#[trigger] final (self)@.channels[i])
                    == c@,
            r matches Err(e) ==> e matches TrsError::Storage(_),
    {
        let len_ok = (channel.articles.len() as u64) <= ((i64::MAX - self.next_article_id)
            as u64);
        let chan_ok = self.next_channel_id < i64::MAX;
        if !(len_ok && chan_ok) {
            return Err(TrsError::Storage(String::from_str("surrogate-key space exhausted")));
        }
        proof {
            assert(channel@.articles.len() == channel.articles@.len());
        }
        let idx = self.upsert_channel_row(channel, now);
        let ghost db1 = self@;
        let mut k: usize = 0;
        while k < channel.articles.len()
            invariant
                k <= channel.articles.len(),
                db_wf(self@),
                idx < self@.channels.len(),
                self@.channels[idx as int].link == channel@.link,
                self@ == spec_upsert_articles(db1, channel@.link, channel@.articles.take(k as int), now),
                self@.next_article_id + (channel.articles@.len() - k) <= i64::MAX as int,
                channel@.articles.len() == channel.articles@.len(),
            decreases channel.articles.len() - k,
        {
            let ghost pre = self@;
            self.add_article(idx, &channel.articles[k], now);
            proof {
                assert(channel@.articles[k as int] == channel.articles@[k as int]@);
                lemma_upsert_articles_app(
                    db1,
                    channel@.link,
                    channel@.articles.take(k as int),
                    seq![channel@.articles[k as int]],
                    now,
                );
                assert(channel@.articles.take(k as int) + seq![channel@.articles[k as int]]
                    =~= channel@.articles.take(k as int + 1));
                assert(seq![channel@.articles[k as int]].drop_first()
                    =~= Seq::<ArticleV>::empty());
                reveal_with_fuel(spec_upsert_articles, 2);
                assert(spec_upsert_articles(pre, channel@.link, seq![channel@.articles[k as int]], now)
                    == spec_upsert_article(pre, channel@.link, channel@.articles[k as int], now));
            }
            k += 1;
        }
        proof {
            assert(channel@.articles.take(channel@.articles.len() as int) =~= channel@.articles);
        }
        match self.get_channel(channel.link.as_str()) {
            Ok(c) => Ok(c),
            Err(e) => {
                proof {
                    assert(has_chan_link(self@.channels, channel@.link));
                    assert(false);
                }
                Err(e)
            },
        }
    }
}

/// Flipping the read state of the article row with this id, leaving every
/// other row untouched.
pub open spec fn spec_set_unread(db: DbV, id: int, unread: bool) -> DbV {
    DbV {
        channels: db.channels.map_values(
            |row: ChannelRowV|
                ChannelRowV {
                    articles: row.articles.map_values(
                        |ar: ArticleRowV|
                            if ar.id == id {
                                ArticleRowV { unread, ..ar }
                            } else {
                                ar
                            },
                    ),
                    ..row
                },
        ),
        ..db
    }
}

/// The sort key that orders a channel's articles: the publication instant,
/// with an undated article sorting after every dated one.
pub open spec fn spec_date_key(a: ArticleRowV) -> int {
    match a.pub_date {
        Some(t) => t as int,
        None => i64::MIN as int - 1,
    }
}

/// Most recent first.
pub open spec fn spec_sorted_by_date(s: Seq<ArticleRowV>) -> bool {
    forall|i: int, j: int|
        0 <= i <= j < s.len() ==> spec_date_key(#[trigger] s[i]) >= spec_date_key(#[trigger] s[j])
}

/// The total order a listing arranges articles in: by publication date, most
/// recent first, equal dates broken by ascending id — so that, with the
/// store's unique article ids, a listing is a single well-defined sequence.
pub open spec fn spec_art_le(a: ArticleRowV, b: ArticleRowV) -> bool {
    spec_date_key(a) > spec_date_key(b) || (spec_date_key(a) == spec_date_key(b) && a.id <= b.id)
}

/// Sorted under the listing order: date descending, ties by ascending id.
pub open spec fn spec_sorted_by_date_then_id(s: Seq<ArticleRowV>) -> bool {
    forall|i: int, j: int| 0 <= i <= j < s.len() ==> spec_art_le(#[trigger] s[i], #[trigger] s[j])
}

/// The views of a sequence of stored articles.
pub open spec fn arts_view(s: Seq<RssArticleD>) -> Seq<ArticleRowV> {
    s.map_values(|a: RssArticleD| a@)
}

/// Keeping only the unread articles, in order.
pub open spec fn spec_unread_only(s: Seq<ArticleRowV>) -> Seq<ArticleRowV>
    decreases s.len(),
{
    if s.len() == 0 {
        Seq::empty()
    } else {
        let rest = spec_unread_only(s.drop_first());
        if s[0].unread {
            seq![s[0]] + rest
        } else {
            rest
        }
    }
}

/// The article rows a listing hands out for a stored channel: all of them,
/// or only the unread ones.
pub open spec fn spec_unread_filter(s: Seq<ArticleRowV>, only_unread: bool) -> Seq<ArticleRowV> {
    if only_unread {
        spec_unread_only(s)
    } else {
        s
    }
}

/// A listed channel against its stored row: the same channel fields, and the
/// selected articles (all, or only unread) as a permutation, ordered by
/// publication date with equal dates broken by ascending id — a total order,
/// so the listing is determined by the stored rows.
pub open spec fn spec_row_matches(c: ChannelRowV, s: ChannelRowV, only_unread: bool) -> bool {
    &&& c.id == s.id
    &&& c.title == s.title
    &&& c.link == s.link
    &&& c.description == s.description
    &&& c.last_update == s.last_update
    &&& c.articles.to_multiset() == spec_unread_filter(s.articles, only_unread).to_multiset()
    &&& spec_sorted_by_date(c.articles)
    &&& spec_sorted_by_date_then_id(c.articles)
}

/// What a listing returns: the first `limit` channel rows in storage order,
/// each matching its stored row with all articles kept.
pub open spec fn spec_list_post(db: DbV, limit: int, v: Seq<RssChannelD>) -> bool {
    let n = if limit <= db.channels.len() {
        limit
    } else {
        db.channels.len() as int
    };
    &&& v.len() == n
    &&& forall|i: int| 0 <= i < n ==> spec_row_matches((#[trigger] v[i])@, db.channels[i], false)
}

/// Does a channel row pass the optional id filter?
pub open spec fn spec_chan_pass(c: ChannelRowV, filt: Option<u32>) -> bool {
    match filt {
        Some(id) => c.id == id as int,
        None => true,
    }
}

/// The channel rows that pass the optional id filter, in order.
pub open spec fn spec_chan_filter(chs: Seq<ChannelRowV>, filt: Option<u32>) -> Seq<ChannelRowV>
    decreases chs.len(),
{
    if chs.len() == 0 {
        Seq::empty()
    } else {
        let rest = spec_chan_filter(chs.drop_first(), filt);
        if spec_chan_pass(chs[0], filt) {
            seq![chs[0]] + rest
        } else {
            rest
        }
    }
}

/// Filtering distributes over concatenation.
pub proof fn lemma_unread_only_app(a: Seq<ArticleRowV>, b: Seq<ArticleRowV>)
    ensures
        spec_unread_only(a + b) == spec_unread_only(a) + spec_unread_only(b),
    decreases a.len(),
{
    if a.len() == 0 {
        assert(a + b =~= b);
        assert(spec_unread_only(a) + spec_unread_only(b) =~= spec_unread_only(b));
    } else {
        assert((a + b)[0] == a[0]);
        assert((a + b).drop_first() =~= a.drop_first() + b);
        lemma_unread_only_app(a.drop_first(), b);
        assert(spec_unread_only(a + b) =~= spec_unread_only(a) + spec_unread_only(b));
    }
}

/// Filtering distributes over concatenation.
pub proof fn lemma_chan_filter_app(a: Seq<ChannelRowV>, b: Seq<ChannelRowV>, filt: Option<u32>)
    ensures
        spec_chan_filter(a + b, filt) == spec_chan_filter(a, filt) + spec_chan_filter(b, filt),
    decreases a.len(),
{
    if a.len() == 0 {
        assert(a + b =~= b);
        assert(spec_chan_filter(a, filt) + spec_chan_filter(b, filt) =~= spec_chan_filter(b, filt));
    } else {
        assert((a + b)[0] == a[0]);
        assert((a + b).drop_first() =~= a.drop_first() + b);
        lemma_chan_filter_app(a.drop_first(), b, filt);
        assert(spec_chan_filter(a + b, filt) =~= spec_chan_filter(a, filt) + spec_chan_filter(
            b,
            filt,
        ));
    }
}

/// Orders one article row at or before another under the listing order.
fn art_le(a: &RssArticleD, b: &RssArticleD) -> (r: bool)
    ensures
        r == spec_art_le(a@, b@),
{
    match (a.pub_date, b.pub_date) {
        (Some(x), Some(y)) => x > y || (x == y && a.id <= b.id),
        (Some(_), None) => true,
        (None, Some(_)) => false,
        (None, None) => a.id <= b.id,
    }
}

/// Sorts article rows under the listing order — by publication date, most
/// recent first, equal dates broken by ascending id: the result is a
/// permutation of the input (selection on the least remaining row).
#[verifier::loop_isolation(false)]
fn sort_articles_by_date(articles: Vec<RssArticleD>) -> (r: Vec<RssArticleD>)
    ensures
        arts_view(r@).to_multiset() == arts_view(articles@).to_multiset(),
        spec_sorted_by_date_then_id(arts_view(r@)),
        spec_sorted_by_date(arts_view(r@)),
{
    let mut rest = articles;
    let ghost orig = rest@;
    let mut out: Vec<RssArticleD> = Vec::new();
    while rest.len() > 0
        invariant
            arts_view(out@).to_multiset().add(arts_view(rest@).to_multiset()) == arts_view(
                orig,
            ).to_multiset(),
            spec_sorted_by_date_then_id(arts_view(out@)),
            forall|x: int, y: int|
                0 <= x < out@.len() && 0 <= y < rest@.len() ==> spec_art_le(
                    #[trigger] out@[x]@,
                    #[trigger] rest@[y]@,
                ),
        decreases rest.len(),
    {
        let mut mi: usize = 0;
        let mut k: usize = 1;
        while k < rest.len()
            invariant
                mi < rest@.len(),
                1 <= k <= rest@.len(),
                forall|l: int|
                    0 <= l < k ==> spec_art_le(rest@[mi as int]@, (#[trigger] rest@[l])@),
            decreases rest.len() - k,
        {
            if !art_le(&rest[mi], &rest[k]) {
                mi = k;
            }
            k += 1;
        }
        let ghost rest0 = rest@;
        let ghost out0 = out@;
        let a = rest.remove(mi);
        out.push(a);
        proof {
            assert(arts_view(rest@) =~= arts_view(rest0).remove(mi as int));
            assert(arts_view(out@) =~= arts_view(out0).push(a@));
            assert(arts_view(rest0)[mi as int] == a@);
            assert(arts_view(out@).to_multiset().add(arts_view(rest@).to_multiset())
                =~= arts_view(orig).to_multiset());
        }
    }
    out
}

impl Db {
    /// Deletes the channel row with this id, its articles going with it;
    /// reports how many rows matched — one, or zero when the id names no
    /// row, which the caller distinguishes from success.
    #[verifier::loop_isolation(false)]
    pub fn remove_channel(&mut self, id: u32) -> (r: Result<usize, TrsError>)
        requires
            db_wf(old(self)@),
        ensures
            db_wf(final (self)@),
            r is Ok,
            final (self)@.next_channel_id == old(self)@.next_channel_id,
            final (self)@.next_article_id == old(self)@.next_article_id,
            has_chan_id(old(self)@.channels, id as int) ==> r == Ok::<usize, TrsError>(1usize)
                && exists|i: int|
                0 <= i < old(self)@.channels.len() && (#[trigger] old(self)@.channels[i]).id == id
                    as int && final (self)@.channels == old(self)@.channels.remove(i),
            !has_chan_id(old(self)@.channels, id as int) ==> r == Ok::<usize, TrsError>(0usize)
                && final (self)@ == old(self)@,
    {
        let mut i: usize = 0;
        while i < self.channels.len()
            invariant
                i <= self.channels.len(),
                self@ == old(self)@,
                forall|j: int| 0 <= j < i ==> (#[trigger] self@.channels[j]).id != id as int,
            decreases self.channels.len() - i,
        {
            if self.channels[i].id == id as i64 {
                let ghost dv0 = self@;
                self.channels.remove(i);
                proof {
                    assert(dv0.channels[i as int].id == id as int);
                    assert(has_chan_id(dv0.channels, id as int));
                    assert(self@.channels =~= dv0.channels.remove(i as int));
                    assert(forall|k: int|
                        0 <= k < self@.channels.len() ==> #[trigger] self@.channels[k] == (if k < i
                            as int {
                            dv0.channels[k]
                        } else {
                            dv0.channels[k + 1]
                        }));
                    assert(db_wf(self@));
                }
                return Ok(1);
            }
            i += 1;
        }
        Ok(0)
    }

    /// Sets the read state of the article row with this id; reports how many
    /// rows matched.
    #[verifier::loop_isolation(false)]
    fn set_article_unread(&mut self, id: i64, unread: bool) -> (r: usize)
        requires
            db_wf(old(self)@),
        ensures
            db_wf(final (self)@),
            final (self)@ == spec_set_unread(old(self)@, id as int, unread),
            r == (if has_art_id(old(self)@.channels, id as int) {
                1usize
            } else {
                0usize
            }),
    {
        let ghost dv0 = self@;
        let ghost target = spec_set_unread(dv0, id as int, unread);
        let mut i: usize = 0;
        while i < self.channels.len()
            invariant
                i <= self.channels.len(),
                self@ == dv0,
                forall|ii: int, jj: int|
                    0 <= ii < i && 0 <= jj < dv0.channels[ii].articles.len() ==> (
                    #[trigger] dv0.channels[ii].articles[jj]).id != id as int,
            decreases self.channels.len() - i,
        {
            let n_arts = self.channels[i].articles.len();
            let mut j: usize = 0;
            while j < n_arts
                invariant
                    j <= n_arts,
                    i < self.channels.len(),
                    n_arts == self@.channels[i as int].articles.len(),
                    self@ == dv0,
                    forall|jj: int|
                        0 <= jj < j ==> (#[trigger] dv0.channels[i as int].articles[jj]).id != id
                            as int,
                decreases n_arts - j,
            {
                if self.channels[i].articles[j].id == id {
                    self.channels[i].articles[j].unread = unread;
                    proof {
                        assert(dv0.channels[i as int].articles[j as int].id == id as int);
                        assert(has_art_id(dv0.channels, id as int));
                        assert forall|k: int| 0 <= k < dv0.channels.len() implies self@.channels[k]
                            =~~= target.channels[k] by {
                            assert forall|l: int|
                                0 <= l < dv0.channels[k].articles.len() implies self@.channels[k].articles[l]
                                == target.channels[k].articles[l] by {
                                if k != i as int || l != j as int {
                                    assert(dv0.channels[k].articles[l].id != id as int);
                                }
                            }
                            assert(self@.channels[k].articles =~= target.channels[k].articles);
                        }
                        assert(self@ =~~= target);
                        assert(forall|k: int|
                            0 <= k < dv0.channels.len() ==> {
                                &&& (#[trigger] self@.channels[k]).id == dv0.channels[k].id
                                &&& self@.channels[k].link == dv0.channels[k].link
                                &&& self@.channels[k].articles.len()
                                    == dv0.channels[k].articles.len()
                            });
                        assert(forall|k: int, l: int|
                            #![trigger self@.channels[k].articles[l]]
                            0 <= k < dv0.channels.len() && 0 <= l
                                < dv0.channels[k].articles.len() ==> {
                                &&& self@.channels[k].articles[l].id
                                    == dv0.channels[k].articles[l].id
                                &&& self@.channels[k].articles[l].link
                                    == dv0.channels[k].articles[l].link
                                &&& self@.channels[k].articles[l].channel_id
                                    == dv0.channels[k].articles[l].channel_id
                            });
                        assert(db_wf(self@));
                    }
                    return 1;
                }
                j += 1;
            }
            i += 1;
        }
        proof {
            assert forall|k: int| 0 <= k < dv0.channels.len() implies self@.channels[k]
                =~~= target.channels[k] by {
                assert forall|l: int|
                    0 <= l < dv0.channels[k].articles.len() implies self@.channels[k].articles[l]
                    == target.channels[k].articles[l] by {
                    assert(dv0.channels[k].articles[l].id != id as int);
                }
                assert(self@.channels[k].articles =~= target.channels[k].articles);
            }
            assert(self@ =~~= target);
        }
        0
    }

    /// Marks the article with this id as read; zero matched rows is reported
    /// as a count, for the caller to distinguish.
    pub fn mark_article_read(&mut self, id: i64) -> (r: Result<usize, TrsError>)
        requires
            db_wf(old(self)@),
        ensures
            db_wf(final (self)@),
            r is Ok,
            final (self)@ == spec_set_unread(old(self)@, id as int, false),
            r == Ok::<usize, TrsError>(1usize) <==> has_art_id(old(self)@.channels, id as int),
            r == Ok::<usize, TrsError>(0usize) <==> !has_art_id(old(self)@.channels, id as int),
    {
        Ok(self.set_article_unread(id, false))
    }

    /// Marks the article with this id as unread; zero matched rows is
    /// reported as a count, for the caller to distinguish.
    pub fn mark_article_unread(&mut self, id: i64) -> (r: Result<usize, TrsError>)
        requires
            db_wf(old(self)@),
        ensures
            db_wf(final (self)@),
            r is Ok,
            final (self)@ == spec_set_unread(old(self)@, id as int, true),
            r == Ok::<usize, TrsError>(1usize) <==> has_art_id(old(self)@.channels, id as int),
            r == Ok::<usize, TrsError>(0usize) <==> !has_art_id(old(self)@.channels, id as int),
    {
        Ok(self.set_article_unread(id, true))
    }

    /// Lists up to `limit` channels, in storage (id) order, each carrying
    /// its stored articles ordered by publication date, most recent first.
    #[verifier::loop_isolation(false)]
    pub fn list_channels(&self, limit: u32) -> (r: Result<Vec<RssChannelD>, TrsError>)
        requires
            db_wf(self@),
        ensures
            r is Ok,
            r matches Ok(v) ==> spec_list_post(self@, limit as int, v@),
    {
        let mut out: Vec<RssChannelD> = Vec::new();
        let mut i: usize = 0;
        while i < self.channels.len() && i < limit as usize
            invariant
                i <= self.channels.len(),
                i <= limit as usize,
                out@.len() == i,
                forall|k: int|
                    0 <= k < i ==> spec_row_matches(
                        (#[trigger] out@[k])@,
                        self@.channels[k],
                        false,
                    ),
            decreases self.channels.len() - i,
        {
            let row = self.channels[i].clone();
            let RssChannelD { id, title, link, description, last_update, articles } = row;
            let sorted = sort_articles_by_date(articles);
            let c = RssChannelD { id, title, link, description, last_update, articles: sorted };
            proof {
                assert(arts_view(sorted@) =~= c@.articles);
                assert(arts_view(self.channels@[i as int].articles@)
                    =~= self@.channels[i as int].articles);
            }
            out.push(c);
            i += 1;
        }
        Ok(out)
    }
}

impl Db {
    /// The read-side listing behind the articles query: the channels that
    /// pass the optional id filter, in storage order, each carrying all its
    /// articles or only the unread ones, ordered by publication date.
    #[verifier::loop_isolation(false)]
    pub(crate) fn filtered_channels(&self, channel_id: Option<u32>, unread_only: bool) -> (r: Vec<
        RssChannelD,
    >)
        requires
            db_wf(self@),
        ensures
            ({
                let kept = spec_chan_filter(self@.channels, channel_id);
                &&& r@.len() == kept.len()
                &&& forall|i: int|
                    0 <= i < kept.len() ==> spec_row_matches(
                        (#[trigger] r@[i])@,
                        kept[i],
                        unread_only,
                    )
            }),
    {
        let mut out: Vec<RssChannelD> = Vec::new();
        let mut i: usize = 0;
        while i < self.channels.len()
            invariant
                i <= self.channels.len(),
                ({
                    let kept = spec_chan_filter(self@.channels.take(i as int), channel_id);
                    &&& out@.len() == kept.len()
                    &&& forall|k: int|
                        0 <= k < kept.len() ==> spec_row_matches(
                            (#[trigger] out@[k])@,
                            kept[k],
                            unread_only,
                        )
                }),
            decreases self.channels.len() - i,
        {
            let ch = &self.channels[i];
            let passes = match channel_id {
                Some(id) => ch.id == id as i64,
                None => true,
            };
            proof {
                assert(self@.channels.take(i as int + 1) =~= self@.channels.take(i as int)
                    + seq![self@.channels[i as int]]);
                lemma_chan_filter_app(
                    self@.channels.take(i as int),
                    seq![self@.channels[i as int]],
                    channel_id,
                );
                assert(seq![self@.channels[i as int]].drop_first()
                    =~= Seq::<ChannelRowV>::empty());
                reveal_with_fuel(spec_chan_filter, 2);
                if passes {
                    assert(spec_chan_filter(seq![self@.channels[i as int]], channel_id)
                        =~= seq![self@.channels[i as int]]);
                } else {
                    assert(spec_chan_filter(seq![self@.channels[i as int]], channel_id)
                        =~= Seq::<ChannelRowV>::empty());
                }
            }
            if passes {
                let mut arts: Vec<RssArticleD> = Vec::new();
                let n_arts = ch.articles.len();
                let mut j: usize = 0;
                while j < n_arts
                    invariant
                        j <= n_arts,
                        i < self.channels.len(),
                        ch == &self.channels@[i as int],
                        n_arts == ch.articles@.len(),
                        arts_view(arts@) =~= spec_unread_filter(
                            arts_view(ch.articles@.take(j as int)),
                            unread_only,
                        ),
                    decreases n_arts - j,
                {
                    proof {
                        assert(arts_view(ch.articles@.take(j as int + 1)) =~= arts_view(
                            ch.articles@.take(j as int),
                        ) + seq![ch.articles@[j as int]@]);
                        if unread_only {
                            lemma_unread_only_app(
                                arts_view(ch.articles@.take(j as int)),
                                seq![ch.articles@[j as int]@],
                            );
                            assert(seq![ch.articles@[j as int]@].drop_first()
                                =~= Seq::<ArticleRowV>::empty());
                            reveal_with_fuel(spec_unread_only, 2);
                            if ch.articles@[j as int]@.unread {
                                assert(spec_unread_only(seq![ch.articles@[j as int]@])
                                    =~= seq![ch.articles@[j as int]@]);
                            } else {
                                assert(spec_unread_only(seq![ch.articles@[j as int]@])
                                    =~= Seq::<ArticleRowV>::empty());
                            }
                        }
                    }
                    if !unread_only || ch.articles[j].unread {
                        arts.push(ch.articles[j].clone());
                        proof {
                            assert(arts_view(arts@) =~= arts_view(arts@.drop_last()).push(
                                ch.articles@[j as int]@,
                            ));
                        }
                    }
                    j += 1;
                }
                proof {
                    assert(ch.articles@.take(n_arts as int) =~= ch.articles@);
                    assert(arts_view(ch.articles@) =~= self@.channels[i as int].articles);
                }
                let sorted = sort_articles_by_date(arts);
                let c = RssChannelD {
                    id: ch.id,
                    title: ch.title.clone(),
                    link: ch.link.clone(),
                    description: ch.description.clone(),
                    last_update: ch.last_update,
                    articles: sorted,
                };
                proof {
                    assert(arts_view(sorted@) =~= c@.articles);
                }
                out.push(c);
            }
            i += 1;
        }
        proof {
            assert(self@.channels.take(self@.channels.len() as int) =~= self@.channels);
        }
        out
    }
}

impl Db {
    /// Reinstates one persisted channel row, as read back from durable
    /// storage. Rows must arrive in ascending id order, each under a fresh
    /// link; a row out of order or under a stored link is refused and
    /// changes nothing.
    #[verifier::loop_isolation(false)]
    pub fn restore_channel(
        &mut self,
        id: i64,
        title: String,
        link: String,
        description: String,
        last_update: i64,
    ) -> (r: Result<(), TrsError>)
        requires
            db_wf(old(self)@),
        ensures
            db_wf(final (self)@),
            r is Ok <==> (1 <= id as int && old(self)@.next_channel_id <= id as int && id < i64::MAX
                && !has_chan_link(old(self)@.channels, link@)),
            r is Ok ==> final (self)@ == (DbV {
                channels: old(self)@.channels.push(
                    ChannelRowV {
                        id: id as int,
                        title: title@,
                        link: link@,
                        description: description@,
                        last_update,
                        articles: Seq::empty(),
                    },
                ),
                next_channel_id: id as int + 1,
                ..old(self)@
            }),
            r is Err ==> final (self)@ == old(self)@,
    {
        if !(1 <= id && self.next_channel_id <= id && id < i64::MAX) {
            return Err(TrsError::Storage(String::from_str("channel row out of order")));
        }
        let mut i: usize = 0;
        while i < self.channels.len()
            invariant
                i <= self.channels.len(),
                self@ == old(self)@,
                forall|j: int| 0 <= j < i ==> (#[trigger] self@.channels[j]).link != link@,
            decreases self.channels.len() - i,
        {
            if str_eq(self.channels[i].link.as_str(), link.as_str()) {
                proof {
                    assert(self@.channels[i as int].link == link@);
                    assert(has_chan_link(self@.channels, link@));
                }
                return Err(TrsError::Storage(String::from_str("channel link already stored")));
            }
            i += 1;
        }
        let row = RssChannelD { id, title, link, description, last_update, articles: Vec::new() };
        proof {
            assert(row@.articles =~= Seq::<ArticleRowV>::empty());
        }
        self.channels.push(row);
        self.next_channel_id = id + 1;
        proof {
            assert(self@.channels =~= old(self)@.channels.push(
                ChannelRowV {
                    id: id as int,
                    title: row.title@,
                    link: row.link@,
                    description: row.description@,
                    last_update,
                    articles: Seq::empty(),
                },
            ));
            assert(forall|k: int|
                0 <= k < old(self)@.channels.len() ==> self@.channels[k] == old(
                    self,
                )@.channels[k]);
            assert(db_wf(self@));
        }
        Ok(())
    }

    /// Reinstates one persisted article row under the channel that owns it.
    /// Rows must arrive in ascending id order, each under a fresh link and
    /// an existing channel; a row that is not is refused and changes
    /// nothing.
    #[verifier::loop_isolation(false)]
    pub fn restore_article(
        &mut self,
        id: i64,
        channel_id: i64,
        title: String,
        description: String,
        link: String,
        pub_date: Option<i64>,
        last_update: i64,
        unread: bool,
    ) -> (r: Result<(), TrsError>)
        requires
            db_wf(old(self)@),
        ensures
            db_wf(final (self)@),
            r is Ok <==> (1 <= id as int && old(self)@.next_article_id <= id as int && id
                < i64::MAX && has_chan_id(old(self)@.channels, channel_id as int) && !has_art_link(
                old(self)@.channels,
                link@,
            )),
            r is Ok ==> exists|ci: int|
                0 <= ci < old(self)@.channels.len() && (#[trigger] old(self)@.channels[ci]).id
                    == channel_id as int && final (self)@ == (DbV {
                    channels: old(self)@.channels.update(
                        ci,
                        ChannelRowV {
                            articles: old(self)@.channels[ci].articles.push(
                                ArticleRowV {
                                    id: id as int,
                                    channel_id: channel_id as int,
                                    title: title@,
                                    description: description@,
                                    link: link@,
                                    pub_date,
                                    last_update,
                                    unread,
                                },
                            ),
                            ..old(self)@.channels[ci]
                        },
                    ),
                    next_article_id: id as int + 1,
                    ..old(self)@
                }),
            r is Err ==> final (self)@ == old(self)@,
    {
        if !(1 <= id && self.next_article_id <= id && id < i64::MAX) {
            return Err(TrsError::Storage(String::from_str("article row out of order")));
        }
        let mut i: usize = 0;
        while i < self.channels.len()
            invariant
                i <= self.channels.len(),
                self@ == old(self)@,
                forall|ii: int, jj: int|
                    0 <= ii < i && 0 <= jj < self@.channels[ii].articles.len() ==> (
                    #[trigger] self@.channels[ii].articles[jj]).link != link@,
            decreases self.channels.len() - i,
        {
            let ch = &self.channels[i];
            let n_arts = ch.articles.len();
            let mut j: usize = 0;
            while j < n_arts
                invariant
                    j <= n_arts,
                    i < self.channels.len(),
                    ch == &self.channels@[i as int],
                    n_arts == self@.channels[i as int].articles.len(),
                    self@ == old(self)@,
                    forall|jj: int|
                        0 <= jj < j ==> (#[trigger] self@.channels[i as int].articles[jj]).link
                            != link@,
                decreases n_arts - j,
            {
                if str_eq(ch.articles[j].link.as_str(), link.as_str()) {
                    proof {
                        assert(self@.channels[i as int].articles[j as int].link == link@);
                        assert(has_art_link(self@.channels, link@));
                    }
                    return Err(TrsError::Storage(String::from_str("article link already stored")));
                }
                j += 1;
            }
            i += 1;
        }
        let mut ci: usize = 0;
        while ci < self.channels.len()
            invariant
                ci <= self.channels.len(),
                self@ == old(self)@,
                forall|j: int| 0 <= j < ci ==> (#[trigger] self@.channels[j]).id != channel_id
                    as int,
            decreases self.channels.len() - ci,
        {
            if self.channels[ci].id == channel_id {
                let ghost dv0 = self@;
                let row = RssArticleD {
                    id,
                    channel_id,
                    title,
                    description,
                    link,
                    pub_date,
                    last_update,
                    unread,
                };
                self.channels[ci].articles.push(row);
                self.next_article_id = id + 1;
                proof {
                    let target = DbV {
                        channels: dv0.channels.update(
                            ci as int,
                            ChannelRowV {
                                articles: dv0.channels[ci as int].articles.push(row@),
                                ..dv0.channels[ci as int]
                            },
                        ),
                        next_article_id: id as int + 1,
                        ..dv0
                    };
                    assert(self@.channels[ci as int].articles =~= dv0.channels[
                        ci as int
                    ].articles.push(row@));
                    assert(self@.channels =~~= target.channels);
                    assert(self@ =~~= target);
                    assert(db_wf(self@)) by {
                        let dv1 = self@;
                        assert(forall|k: int|
                            0 <= k < dv1.channels.len() ==> {
                                &&& (#[trigger] dv1.channels[k]).id == dv0.channels[k].id
                                &&& dv1.channels[k].link == dv0.channels[k].link
                            });
                        assert forall|k: int, l: int|
                            #![trigger dv1.channels[k].articles[l]]
                            0 <= k < dv1.channels.len() && 0 <= l
                                < dv1.channels[k].articles.len() implies {
                            &&& 1 <= dv1.channels[k].articles[l].id < dv1.next_article_id
                            &&& dv1.channels[k].articles[l].channel_id == dv1.channels[k].id
                        } by {
                            if k == ci as int && l == dv0.channels[k].articles.len() as int {
                            } else {
                                assert(dv1.channels[k].articles[l] == dv0.channels[k].articles[l]);
                            }
                        }
                        assert forall|k: int, l: int, k2: int, l2: int|
                            #![trigger dv1.channels[k].articles[l], dv1.channels[k2].articles[l2]]
                            0 <= k < dv1.channels.len() && 0 <= l < dv1.channels[k].articles.len()
                                && 0 <= k2 < dv1.channels.len() && 0 <= l2
                                < dv1.channels[k2].articles.len() && (k != k2 || l != l2) implies {
                            &&& dv1.channels[k].articles[l].id != dv1.channels[k2].articles[l2].id
                            &&& dv1.channels[k].articles[l].link
                                != dv1.channels[k2].articles[l2].link
                        } by {
                            let newk = ci as int;
                            let newl = dv0.channels[newk].articles.len() as int;
                            if k == newk && l == newl {
                                assert(dv1.channels[k2].articles[l2] == dv0.channels[k2].articles[l2]);
                            } else if k2 == newk && l2 == newl {
                                assert(dv1.channels[k].articles[l] == dv0.channels[k].articles[l]);
                            } else {
                                assert(dv1.channels[k].articles[l] == dv0.channels[k].articles[l]);
                                assert(dv1.channels[k2].articles[l2] == dv0.channels[k2].articles[l2]);
                            }
                        }
                    }
                    assert(dv0.channels[ci as int].id == channel_id as int);
                    assert(has_chan_id(dv0.channels, channel_id as int));
                }
                return Ok(());
            }
            ci += 1;
        }
        Err(TrsError::Storage(String::from_str("article row without its channel")))
    }
}

/// The two stores hold the same rows: the same channels (by position, id and
/// link) with the same article count each, and the same articles (by
/// position, id, link, owner, title, description and — crucially — read
/// state). Timestamps, and the channels' titles and descriptions, may
/// differ.
pub open spec fn same_rows(d1: DbV, d2: DbV) -> bool {
    &&& d2.channels.len() == d1.channels.len()
    &&& d2.next_channel_id == d1.next_channel_id
    &&& d2.next_article_id == d1.next_article_id
    &&& forall|i: int|
        0 <= i < d1.channels.len() ==> {
            &&& (#[trigger] d2.channels[i]).id == d1.channels[i].id
            &&& d2.channels[i].link == d1.channels[i].link
            &&& d2.channels[i].articles.len() == d1.channels[i].articles.len()
        }
    &&& forall|i: int, j: int|
        #![trigger d2.channels[i].articles[j]]
        0 <= i < d1.channels.len() && 0 <= j < d1.channels[i].articles.len() ==> {
            &&& d2.channels[i].articles[j].id == d1.channels[i].articles[j].id
            &&& d2.channels[i].articles[j].channel_id == d1.channels[i].articles[j].channel_id
            &&& d2.channels[i].articles[j].link == d1.channels[i].articles[j].link
            &&& d2.channels[i].articles[j].title == d1.channels[i].articles[j].title
            &&& d2.channels[i].articles[j].description == d1.channels[i].articles[j].description
            &&& d2.channels[i].articles[j].unread == d1.channels[i].articles[j].unread
        }
}

proof fn lemma_same_rows_trans(a: DbV, b: DbV, c: DbV)
    requires
        same_rows(a, b),
        same_rows(b, c),
    ensures
        same_rows(a, c),
{
}

proof fn lemma_same_rows_links(d1: DbV, d2: DbV, l: Seq<char>)
    requires
        same_rows(d1, d2),
    ensures
        has_art_link(d1.channels, l) <==> has_art_link(d2.channels, l),
        has_chan_link(d1.channels, l) <==> has_chan_link(d2.channels, l),
{
    if has_art_link(d1.channels, l) {
        let (i, j) = choose|i: int, j: int|
            0 <= i < d1.channels.len() && 0 <= j < d1.channels[i].articles.len() && (
            #[trigger] d1.channels[i].articles[j]).link == l;
        assert(d2.channels[i].articles[j].link == l);
    }
    if has_art_link(d2.channels, l) {
        let (i, j) = choose|i: int, j: int|
            0 <= i < d2.channels.len() && 0 <= j < d2.channels[i].articles.len() && (
            #[trigger] d2.channels[i].articles[j]).link == l;
        assert(d1.channels[i].articles[j].link == l);
    }
    if has_chan_link(d1.channels, l) {
        let i = choose|i: int| 0 <= i < d1.channels.len() && (#[trigger] d1.channels[i]).link == l;
        assert(d2.channels[i].link == l);
    }
    if has_chan_link(d2.channels, l) {
        let i = choose|i: int| 0 <= i < d2.channels.len() && (#[trigger] d2.channels[i]).link == l;
        assert(d1.channels[i].link == l);
    }
}

/// Upserting an article whose link is already stored changes no row shape
/// and no read state.
proof fn lemma_upsert_article_found_same_rows(db: DbV, chan_link: Seq<char>, a: ArticleV, now: i64)
    requires
        has_art_link(db.channels, a.link),
    ensures
        same_rows(db, spec_upsert_article(db, chan_link, a, now)),
{
}

/// Re-ingesting an article whose link is already stored touches nothing but
/// that row's publication date and timestamp: every row keeps its position,
/// id, owner, link, title, description and read state, and the matching row
/// takes the fresh date. With the store invariant's one-row-per-link, this
/// is the general form of ingestion idempotence for a single article.
pub proof fn lemma_reingest_updates_date_only(
    db: DbV,
    chan_link: Seq<char>,
    a: ArticleV,
    now: i64,
)
    requires
        has_art_link(db.channels, a.link),
    ensures
        same_rows(db, spec_upsert_article(db, chan_link, a, now)),
        forall|i: int, j: int|
            #![trigger db.channels[i].articles[j]]
            0 <= i < db.channels.len() && 0 <= j < db.channels[i].articles.len() ==> {
                let r0 = db.channels[i].articles[j];
                let r1 = spec_upsert_article(db, chan_link, a, now).channels[i].articles[j];
                if r0.link == a.link {
                    r1 == (ArticleRowV { pub_date: a.date, last_update: now, ..r0 })
                } else {
                    r1 == r0
                }
            },
{
}

/// Upserting a channel whose link is already stored changes no row shape.
proof fn lemma_upsert_channel_found_same_rows(db: DbV, c: ChannelV, now: i64)
    requires
        has_chan_link(db.channels, c.link),
    ensures
        same_rows(db, spec_upsert_channel(db, c, now)),
{
}

/// Upserting one article leaves every stored channel link in place, leaves
/// every stored article link in place, and makes the article's own link
/// stored (the append lands in the channel with the given link).
proof fn lemma_upsert_article_presence(db: DbV, chan_link: Seq<char>, a: ArticleV, now: i64)
    requires
        has_chan_link(db.channels, chan_link),
    ensures
        has_art_link(spec_upsert_article(db, chan_link, a, now).channels, a.link),
        forall|l: Seq<char>|
            has_art_link(db.channels, l) ==> #[trigger] has_art_link(
                spec_upsert_article(db, chan_link, a, now).channels,
                l,
            ),
        forall|l: Seq<char>|
            has_chan_link(db.channels, l) <==> #[trigger] has_chan_link(
                spec_upsert_article(db, chan_link, a, now).channels,
                l,
            ),
{
    let res = spec_upsert_article(db, chan_link, a, now);
    if has_art_link(db.channels, a.link) {
        let (i, j) = choose|i: int, j: int|
            0 <= i < db.channels.len() && 0 <= j < db.channels[i].articles.len() && (
            #[trigger] db.channels[i].articles[j]).link == a.link;
        assert(res.channels[i].articles[j].link == a.link);
    } else {
        let i = choose|i: int|
            0 <= i < db.channels.len() && (#[trigger] db.channels[i]).link == chan_link;
        let n = db.channels[i].articles.len() as int;
        assert(res.channels[i].articles[n].link == a.link);
    }
    assert forall|l: Seq<char>| has_art_link(db.channels, l) implies #[trigger] has_art_link(
        res.channels,
        l,
    ) by {
        let (i, j) = choose|i: int, j: int|
            0 <= i < db.channels.len() && 0 <= j < db.channels[i].articles.len() && (
            #[trigger] db.channels[i].articles[j]).link == l;
        assert(res.channels[i].articles[j].link == l);
    }
    assert forall|l: Seq<char>|
        has_chan_link(db.channels, l) <==> #[trigger] has_chan_link(res.channels, l) by {
        if has_chan_link(db.channels, l) {
            let i = choose|i: int|
                0 <= i < db.channels.len() && (#[trigger] db.channels[i]).link == l;
            assert(res.channels[i].link == l);
        }
        if has_chan_link(res.channels, l) {
            let i = choose|i: int|
                0 <= i < res.channels.len() && (#[trigger] res.channels[i]).link == l;
            assert(db.channels[i].link == l);
        }
    }
}

/// After folding a sequence of article upserts, every one of their links is
/// stored, and the channel links are as before.
proof fn lemma_upsert_articles_presence(db: DbV, chan_link: Seq<char>, arts: Seq<ArticleV>, now: i64)
    requires
        has_chan_link(db.channels, chan_link),
    ensures
        forall|x: int|
            0 <= x < arts.len() ==> has_art_link(
                spec_upsert_articles(db, chan_link, arts, now).channels,
                (#[trigger] arts[x]).link,
            ),
        forall|l: Seq<char>|
            has_art_link(db.channels, l) ==> #[trigger] has_art_link(
                spec_upsert_articles(db, chan_link, arts, now).channels,
                l,
            ),
        forall|l: Seq<char>|
            has_chan_link(db.channels, l) <==> #[trigger] has_chan_link(
                spec_upsert_articles(db, chan_link, arts, now).channels,
                l,
            ),
    decreases arts.len(),
{
    if arts.len() > 0 {
        let db1 = spec_upsert_article(db, chan_link, arts[0], now);
        lemma_upsert_article_presence(db, chan_link, arts[0], now);
        assert(has_chan_link(db1.channels, chan_link));
        lemma_upsert_articles_presence(db1, chan_link, arts.drop_first(), now);
        let res = spec_upsert_articles(db, chan_link, arts, now);
        let res2 = spec_upsert_articles(db1, chan_link, arts.drop_first(), now);
        assert(res == res2);
        assert forall|x: int| 0 <= x < arts.len() implies has_art_link(
            res.channels,
            (#[trigger] arts[x]).link,
        ) by {
            if x == 0 {
                assert(has_art_link(db1.channels, arts[0].link));
                assert(has_art_link(
                    spec_upsert_articles(db1, chan_link, arts.drop_first(), now).channels,
                    arts[0].link,
                ));
            } else {
                assert(arts.drop_first()[x - 1] == arts[x]);
                assert(has_art_link(
                    spec_upsert_articles(db1, chan_link, arts.drop_first(), now).channels,
                    arts.drop_first()[x - 1].link,
                ));
            }
        }
        assert forall|l: Seq<char>| has_art_link(db.channels, l) implies #[trigger] has_art_link(
            res.channels,
            l,
        ) by {
            assert(has_art_link(db1.channels, l));
            assert(has_art_link(
                spec_upsert_articles(db1, chan_link, arts.drop_first(), now).channels,
                l,
            ));
        }
        assert forall|l: Seq<char>|
            has_chan_link(db.channels, l) <==> #[trigger] has_chan_link(res.channels, l) by {
            assert(has_chan_link(db.channels, l) <==> has_chan_link(db1.channels, l));
            assert(has_chan_link(db1.channels, l) <==> has_chan_link(
                spec_upsert_articles(db1, chan_link, arts.drop_first(), now).channels,
                l,
            ));
        }
    }
}

/// Folding article upserts whose links are all already stored changes no
/// row shape and no read state.
proof fn lemma_upsert_articles_found_same_rows(
    db: DbV,
    chan_link: Seq<char>,
    arts: Seq<ArticleV>,
    now: i64,
)
    requires
        forall|x: int| 0 <= x < arts.len() ==> has_art_link(db.channels, (#[trigger] arts[x]).link),
        has_chan_link(db.channels, chan_link),
    ensures
        same_rows(db, spec_upsert_articles(db, chan_link, arts, now)),
    decreases arts.len(),
{
    if arts.len() > 0 {
        let db1 = spec_upsert_article(db, chan_link, arts[0], now);
        lemma_upsert_article_found_same_rows(db, chan_link, arts[0], now);
        assert forall|x: int| 0 <= x < arts.drop_first().len() implies has_art_link(
            db1.channels,
            (#[trigger] arts.drop_first()[x]).link,
        ) by {
            assert(arts.drop_first()[x] == arts[x + 1]);
            lemma_same_rows_links(db, db1, arts[x + 1].link);
        }
        lemma_same_rows_links(db, db1, chan_link);
        lemma_upsert_articles_found_same_rows(db1, chan_link, arts.drop_first(), now);
        lemma_same_rows_trans(db, db1, spec_upsert_articles(db1, chan_link, arts.drop_first(), now));
    }
}

/// Every article id occurs at most once in the sequence.
pub open spec fn arts_ids_distinct(s: Seq<ArticleRowV>) -> bool {
    forall|i: int, j: int|
        #![trigger s[i], s[j]]
        0 <= i < j < s.len() ==> s[i].id != s[j].id
}

/// An article the unread filter keeps comes from the input.
proof fn lemma_unread_only_contains(s: Seq<ArticleRowV>, x: ArticleRowV)
    requires
        spec_unread_only(s).contains(x),
    ensures
        s.contains(x),
    decreases s.len(),
{
    if s.len() > 0 {
        let rest = spec_unread_only(s.drop_first());
        if s[0].unread {
            if x != s[0] {
                let k = choose|k: int|
                    0 <= k < (seq![s[0]] + rest).len() && (seq![s[0]] + rest)[k] == x;
                assert(rest[k - 1] == x);
                lemma_unread_only_contains(s.drop_first(), x);
                let m = choose|m: int| 0 <= m < s.drop_first().len() && s.drop_first()[m] == x;
                assert(s[m + 1] == x);
            }
        } else {
            lemma_unread_only_contains(s.drop_first(), x);
            let m = choose|m: int| 0 <= m < s.drop_first().len() && s.drop_first()[m] == x;
            assert(s[m + 1] == x);
        }
    }
}

/// The unread filter keeps a duplicate-free sequence duplicate-free.
proof fn lemma_unread_only_no_duplicates(s: Seq<ArticleRowV>)
    requires
        s.no_duplicates(),
    ensures
        spec_unread_only(s).no_duplicates(),
    decreases s.len(),
{
    if s.len() > 0 {
        assert(s.drop_first().no_duplicates());
        lemma_unread_only_no_duplicates(s.drop_first());
        let rest = spec_unread_only(s.drop_first());
        if s[0].unread {
            assert forall|i: int, j: int|
                0 <= i < j < (seq![s[0]] + rest).len() implies (seq![s[0]] + rest)[i] != (seq![
                    s[0],
                ] + rest)[j] by {
                if i == 0 {
                    if (seq![s[0]] + rest)[j] == s[0] {
                        assert(rest.contains(s[0])) by {
                            assert(rest[j - 1] == s[0]);
                        }
                        lemma_unread_only_contains(s.drop_first(), s[0]);
                        let m = choose|m: int|
                            0 <= m < s.drop_first().len() && s.drop_first()[m] == s[0];
                        assert(s[m + 1] == s[0]);
                        assert(false);
                    }
                } else {
                    assert(rest[i - 1] != rest[j - 1]);
                }
            }
        }
    }
}

/// Two sequences over the same rows, both arranged under the listing order,
/// are the same sequence, provided the rows' ids are unique.
proof fn lemma_sorted_arts_unique(x: Seq<ArticleRowV>, y: Seq<ArticleRowV>)
    requires
        spec_sorted_by_date_then_id(x),
        spec_sorted_by_date_then_id(y),
        x.to_multiset() == y.to_multiset(),
        arts_ids_distinct(x),
    ensures
        x =~= y,
    decreases x.len(),
{
    assert(x.len() == y.len()) by {
        assert(x.to_multiset().len() == x.len());
        assert(y.to_multiset().len() == y.len());
    }
    if x.len() > 0 {
        assert(x.contains(y[0])) by {
            assert(y.contains(y[0]));
            assert(y.to_multiset().count(y[0]) > 0);
        }
        assert(y.contains(x[0])) by {
            assert(x.contains(x[0]));
            assert(x.to_multiset().count(x[0]) > 0);
        }
        let i = choose|i: int| 0 <= i < x.len() && x[i] == y[0];
        let j = choose|j: int| 0 <= j < y.len() && y[j] == x[0];
        assert(spec_art_le(x[0], x[i]));
        assert(spec_art_le(y[0], y[j]));
        assert(x[0].id == y[0].id && spec_date_key(x[0]) == spec_date_key(y[0]));
        assert(i == 0);
        assert(x[0] == y[0]);
        assert(x.drop_first().to_multiset() == y.drop_first().to_multiset()) by {
            assert(x.remove(0) =~= x.drop_first());
            assert(y.remove(0) =~= y.drop_first());
            assert(x.remove(0).to_multiset() =~= x.to_multiset().remove(x[0]));
            assert(y.remove(0).to_multiset() =~= y.to_multiset().remove(y[0]));
        }
        assert(arts_ids_distinct(x.drop_first()));
        assert(spec_sorted_by_date_then_id(x.drop_first()));
        assert(spec_sorted_by_date_then_id(y.drop_first()));
        lemma_sorted_arts_unique(x.drop_first(), y.drop_first());
        assert forall|k: int| 0 <= k < x.len() implies x[k] == y[k] by {
            if k > 0 {
                assert(x.drop_first()[k - 1] == y.drop_first()[k - 1]);
            }
        }
    }
}

/// A listing is determined by the stored rows: two listed channels that both
/// match the same stored row (whose article ids are unique, as the store
/// invariant guarantees) are equal.
pub proof fn lemma_row_matches_deterministic(
    c1: ChannelRowV,
    c2: ChannelRowV,
    s: ChannelRowV,
    only_unread: bool,
)
    requires
        spec_row_matches(c1, s, only_unread),
        spec_row_matches(c2, s, only_unread),
        arts_ids_distinct(s.articles),
    ensures
        c1 == c2,
{
    let kept = spec_unread_filter(s.articles, only_unread);
    assert(s.articles.no_duplicates());
    if only_unread {
        lemma_unread_only_no_duplicates(s.articles);
    }
    assert(kept.no_duplicates());
    kept.lemma_multiset_has_no_duplicates();
    c1.articles.lemma_multiset_has_no_duplicates_conv();
    assert(arts_ids_distinct(c1.articles)) by {
        assert forall|i: int, j: int|
            #![trigger c1.articles[i], c1.articles[j]]
            0 <= i < j < c1.articles.len() implies c1.articles[i].id != c1.articles[j].id by {
            if c1.articles[i].id == c1.articles[j].id {
                assert(c1.articles[i] != c1.articles[j]);
                assert(kept.contains(c1.articles[i])) by {
                    assert(c1.articles.contains(c1.articles[i]));
                    assert(c1.articles.to_multiset().count(c1.articles[i]) > 0);
                }
                assert(kept.contains(c1.articles[j])) by {
                    assert(c1.articles.contains(c1.articles[j]));
                    assert(c1.articles.to_multiset().count(c1.articles[j]) > 0);
                }
                if only_unread {
                    lemma_unread_only_contains(s.articles, c1.articles[i]);
                    lemma_unread_only_contains(s.articles, c1.articles[j]);
                }
                let p = choose|p: int|
                    0 <= p < s.articles.len() && s.articles[p] == c1.articles[i];
                let q = choose|q: int|
                    0 <= q < s.articles.len() && s.articles[q] == c1.articles[j];
                assert(p != q);
                assert(s.articles[p].id != s.articles[q].id);
            }
        }
    }
    lemma_sorted_arts_unique(c1.articles, c2.articles);
    assert(c1 =~~= c2);
}

/// Repeated listings agree: under the store invariant, any two results that
/// `spec_list_post` admits for the same store and limit are the same rows.
pub proof fn lemma_list_post_deterministic(
    db: DbV,
    limit: int,
    v1: Seq<RssChannelD>,
    v2: Seq<RssChannelD>,
)
    requires
        db_wf(db),
        spec_list_post(db, limit, v1),
        spec_list_post(db, limit, v2),
    ensures
        v1.len() == v2.len(),
        forall|i: int| 0 <= i < v1.len() ==> (#[trigger] v1[i])@ == v2[i]@,
{
    assert forall|i: int| 0 <= i < v1.len() implies (#[trigger] v1[i])@ == v2[i]@ by {
        let srow = db.channels[i];
        assert(arts_ids_distinct(srow.articles)) by {
            assert forall|a: int, b: int|
                #![trigger srow.articles[a], srow.articles[b]]
                0 <= a < b < srow.articles.len() implies srow.articles[a].id
                != srow.articles[b].id by {
                assert(db.channels[i].articles[a].id != db.channels[i].articles[b].id);
            }
        }
        lemma_row_matches_deterministic(v1[i]@, v2[i]@, srow, false);
    }
}

/// Ingesting the same feed twice is idempotent on `link`: the second
/// ingestion leaves one channel row per distinct channel link and one
/// article row per distinct article link — the very rows of the first
/// ingestion, position by position, with the same surrogate keys — and the
/// read state of every article is exactly what it was after the first
/// ingestion: re-ingesting never resets `unread`.
pub proof fn lemma_add_channel_idempotent(db: DbV, c: ChannelV, t1: i64, t2: i64)
    ensures
        same_rows(spec_add_channel(db, c, t1), spec_add_channel(spec_add_channel(db, c, t1), c, t2)),
{
    let dba = spec_upsert_channel(db, c, t1);
    let db1 = spec_add_channel(db, c, t1);
    assert(has_chan_link(dba.channels, c.link)) by {
        if has_chan_link(db.channels, c.link) {
            let i = choose|i: int|
                0 <= i < db.channels.len() && (#[trigger] db.channels[i]).link == c.link;
            assert(dba.channels[i].link == c.link);
        } else {
            assert(dba.channels[db.channels.len() as int].link == c.link);
        }
    }
    lemma_upsert_articles_presence(dba, c.link, c.articles, t1);
    let dbb = spec_upsert_channel(db1, c, t2);
    lemma_upsert_channel_found_same_rows(db1, c, t2);
    assert forall|x: int| 0 <= x < c.articles.len() implies has_art_link(
        dbb.channels,
        (#[trigger] c.articles[x]).link,
    ) by {
        lemma_same_rows_links(db1, dbb, c.articles[x].link);
    }
    lemma_same_rows_links(db1, dbb, c.link);
    lemma_upsert_articles_found_same_rows(dbb, c.link, c.articles, t2);
    lemma_same_rows_trans(db1, dbb, spec_upsert_articles(dbb, c.link, c.articles, t2));
}

} // verus!
