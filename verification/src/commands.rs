use vstd::prelude::*;

use crate::args::GetArticlesArgs;
use crate::args::ListChannelArgs;
use crate::args::MarkReadArgs;
use crate::args::RemoveChannelArgs;
use crate::error::TrsError;
use crate::feed::parse_rss_channel;
use crate::feed::xml_events_of;
use crate::parser::spec_parse;
use crate::persistence::db_wf;
use crate::persistence::has_art_id;
use crate::persistence::has_chan_id;
use crate::persistence::spec_add_channel;
use crate::persistence::spec_add_headroom;
use crate::persistence::spec_chan_filter;
use crate::persistence::spec_db_init;
use crate::persistence::spec_list_post;
use crate::persistence::spec_row_matches;
use crate::persistence::spec_set_unread;
use crate::persistence::Db;
use crate::persistence::DbV;
use crate::persistence::RssChannelD;

verus! {

/// The environment one command runs against: the named instance and its
/// store. The fetching and rendering collaborators live outside; commands
/// receive fetched bytes and the current time as plain values.
pub struct TrsEnv {
    name: String,
    db: Db,
}

impl View for TrsEnv {
    type V = DbV;

    closed spec fn view(&self) -> DbV {
        self.db@
    }
}

impl TrsEnv {
    /// A fresh environment over an empty store.
    pub fn new(instance_name: &str) -> (r: TrsEnv)
        ensures
            r@ == spec_db_init(),
            db_wf(r@),
    {
        TrsEnv { name: String::from_str(instance_name), db: Db::new() }
    }

    /// Reinstates one persisted channel row read back from durable storage;
    /// rows must arrive in ascending id order, each under a fresh link.
    pub fn restore_channel(
        &mut self,
        id: i64,
        title: String,
        link: String,
        description: String,
        last_update: i64,
    ) -> (r: Result<(), TrsError>)
        requires
            db_wf(old(self)@),
        ensures
            db_wf(final (self)@),
            r is Ok <==> (1 <= id as int && old(self)@.next_channel_id <= id as int && id
                < i64::MAX && !crate::persistence::has_chan_link(old(self)@.channels, link@)),
            r is Err ==> final (self)@ == old(self)@,
    {
        self.db.restore_channel(id, title, link, description, last_update)
    }

    /// Reinstates one persisted article row read back from durable storage;
    /// rows must arrive in ascending id order, each under a fresh link and
    /// an existing channel.
    pub fn restore_article(
        &mut self,
        id: i64,
        channel_id: i64,
        title: String,
        description: String,
        link: String,
        pub_date: Option<i64>,
        last_update: i64,
        unread: bool,
    ) -> (r: Result<(), TrsError>)
        requires
            db_wf(old(self)@),
        ensures
            db_wf(final (self)@),
            r is Ok <==> (1 <= id as int && old(self)@.next_article_id <= id as int && id
                < i64::MAX && has_chan_id(old(self)@.channels, channel_id as int)
                && !crate::persistence::has_art_link(old(self)@.channels, link@)),
            r is Err ==> final (self)@ == old(self)@,
    {
        self.db.restore_article(id, channel_id, title, description, link, pub_date, last_update, unread)
    }
}

/// The "add channel" use-case, after the fetch: parses the document and,
/// only when parsing fully succeeded, ingests it — a parse failure leaves
/// the store untouched, so no partial write ever happens.
pub fn add_channel(ctx: &mut TrsEnv, body: &[u8], now: i64) -> (r: Result<RssChannelD, TrsError>)
    requires
        db_wf(old(ctx)@),
    ensures
        db_wf(final (ctx)@),
        match spec_parse(xml_events_of(body@)) {
            Ok(cv) => {
                &&& (r is Ok <==> spec_add_headroom(old(ctx)@, cv))
                &&& r is Ok ==> final (ctx)@ == spec_add_channel(old(ctx)@, cv, now)
                &&& r matches Ok(c) ==> c@.link == cv.link && exists|i: int|
                    0 <= i < final (ctx)@.channels.len() && (#[trigger] final (ctx)@.channels[i])
                        == c@
                &&& r is Err ==> final (ctx)@ == old(ctx)@
                &&& r matches Err(e) ==> e matches TrsError::Storage(_)
            },
            Err(pe) => {
                &&& final (ctx)@ == old(ctx)@
                &&& r matches Err(e) && e matches TrsError::Parse(p) && p@ == pe
            },
        },
{
    match parse_rss_channel(body) {
        Ok(channel) => ctx.db.add_channel(&channel, now),
        Err(e) => Err(e),
    }
}

/// Lists channels, bounded by the given limit (all of them when none is
/// given); each channel carries its articles, most recently published first.
pub fn list_channels(ctx: &TrsEnv, args: &ListChannelArgs) -> (r: Result<
    Vec<RssChannelD>,
    TrsError,
>)
    requires
        db_wf(ctx@),
    ensures
        r is Ok,
        r matches Ok(v) ==> spec_list_post(ctx@, args.limit.unwrap_or(u32::MAX) as int, v@),
{
    let limit = match args.limit {
        Some(l) => l,
        None => u32::MAX,
    };
    ctx.db.list_channels(limit)
}

/// Removes the channel with the given id, its articles cascading with it; a
/// nonexistent id is reported as a distinct "not found" error, never as
/// success.
pub fn remove_channel(ctx: &mut TrsEnv, args: &RemoveChannelArgs) -> (r: Result<(), TrsError>)
    requires
        db_wf(old(ctx)@),
    ensures
        db_wf(final (ctx)@),
        r is Ok <==> has_chan_id(old(ctx)@.channels, args.id as int),
        has_chan_id(old(ctx)@.channels, args.id as int) ==> exists|i: int|
            0 <= i < old(ctx)@.channels.len() && (#[trigger] old(ctx)@.channels[i]).id == args.id
                as int && final (ctx)@.channels == old(ctx)@.channels.remove(i),
        !has_chan_id(old(ctx)@.channels, args.id as int) ==> final (ctx)@ == old(ctx)@,
        r matches Err(e) ==> (e matches TrsError::NotFound(m) && m@ == "channel not found"@),
{
    match ctx.db.remove_channel(args.id) {
        Ok(rows) => {
            if rows == 0 {
                Err(TrsError::NotFound(String::from_str("channel not found")))
            } else {
                Ok(())
            }
        },
        Err(e) => Err(e),
    }
}

/// Marks the article with the given id read (or unread); a nonexistent id is
/// reported as a distinct "not found" error, never as success.
pub fn mark_read(ctx: &mut TrsEnv, args: &MarkReadArgs) -> (r: Result<(), TrsError>)
    requires
        db_wf(old(ctx)@),
    ensures
        db_wf(final (ctx)@),
        final (ctx)@ == spec_set_unread(old(ctx)@, args.id as int, args.unread),
        r is Ok <==> has_art_id(old(ctx)@.channels, args.id as int),
        r matches Err(e) ==> (e matches TrsError::NotFound(m) && m@ == "article not found"@),
{
    let rows = match args.unread {
        true => match ctx.db.mark_article_unread(args.id as i64) {
            Ok(rows) => rows,
            Err(_) => 0,
        },
        false => match ctx.db.mark_article_read(args.id as i64) {
            Ok(rows) => rows,
            Err(_) => 0,
        },
    };
    if rows == 0 {
        Err(TrsError::NotFound(String::from_str("article not found")))
    } else {
        Ok(())
    }
}

/// The read-side articles query: every channel (or just the one with the
/// given id), each carrying all its articles or only the unread ones, most
/// recently published first.
pub fn get_articles_by_channel(ctx: &TrsEnv, args: &GetArticlesArgs) -> (r: Result<
    Vec<RssChannelD>,
    TrsError,
>)
    requires
        db_wf(ctx@),
    ensures
        r is Ok,
        r matches Ok(v) ==> {
            let kept = spec_chan_filter(ctx@.channels, args.channel_id);
            &&& v@.len() == kept.len()
            &&& forall|i: int|
                0 <= i < kept.len() ==> spec_row_matches((#[trigger] v@[i])@, kept[i], args.unread)
        },
{
    Ok(ctx.db.filtered_channels(args.channel_id, args.unread))
}

} // verus!
