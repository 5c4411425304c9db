use vstd::prelude::*;

use crate::args::ListChannelArgs;
use crate::commands::add_channel;
use crate::commands::list_channels;
use crate::commands::mark_read;
use crate::commands::remove_channel;
use crate::commands::TrsEnv;
use crate::feed::xml_events_of;
use crate::parser::spec_parse;
use crate::persistence::db_wf;
use crate::persistence::has_art_id;
use crate::persistence::has_chan_id;
use crate::persistence::spec_add_channel;
use crate::persistence::spec_add_headroom;
use crate::persistence::spec_list_post;
use crate::persistence::spec_set_unread;
use crate::ui::BackendEvent;
use crate::ui::UiCommandDispatchActions;

verus! {

/// The one piece of outside work a command needs before it can be applied:
/// adding a channel must first fetch the document at its link; every other
/// command runs on the store alone.
pub fn command_fetch_request(action: &UiCommandDispatchActions) -> (r: Option<String>)
    ensures
        match action {
            UiCommandDispatchActions::AddChannel(args) => r matches Some(l) && l@ == args.link@,
            _ => r is None,
        },
{
    match action {
        UiCommandDispatchActions::AddChannel(args) => Some(args.link.clone()),
        _ => None,
    }
}

/// The full snapshot published after a successful command.
fn send_new_state(ctx: &TrsEnv, args: &ListChannelArgs) -> (r: Option<BackendEvent>)
    requires
        db_wf(ctx@),
    ensures
        r matches Some(ev) && ev matches BackendEvent::ReloadState(v) && spec_list_post(
            ctx@,
            args.limit.unwrap_or(u32::MAX) as int,
            v@,
        ),
{
    match list_channels(ctx, args) {
        Ok(channels) => Some(BackendEvent::ReloadState(channels)),
        Err(_) => None,
    }
}

/// The unbounded snapshot published after a mutating command.
fn send_new_state_default(ctx: &TrsEnv) -> (r: Option<BackendEvent>)
    requires
        db_wf(ctx@),
    ensures
        r matches Some(ev) && ev matches BackendEvent::ReloadState(v) && spec_list_post(
            ctx@,
            u32::MAX as int,
            v@,
        ),
{
    send_new_state(ctx, &ListChannelArgs { limit: None })
}

/// One turn of the backend worker, strictly serialized: applies the command
/// to the store (with the fetched document body, where one was needed) and,
/// on success, publishes a full snapshot of all channels. A failed command
/// publishes nothing and leaves the stored rows as they were.
pub fn apply_command(
    ctx: &mut TrsEnv,
    action: UiCommandDispatchActions,
    body: Option<Vec<u8>>,
    now: i64,
) -> (r: Option<BackendEvent>)
    requires
        db_wf(old(ctx)@),
    ensures
        db_wf(final (ctx)@),
        match action {
            UiCommandDispatchActions::AddChannel(_) => {
                &&& body is None ==> final (ctx)@ == old(ctx)@ && r is None
                &&& body matches Some(b) ==> match spec_parse(xml_events_of(b@)) {
                    Ok(cv) => {
                        if spec_add_headroom(old(ctx)@, cv) {
                            &&& final (ctx)@ == spec_add_channel(old(ctx)@, cv, now)
                            &&& r matches Some(ev) && ev matches BackendEvent::ReloadState(v)
                                && spec_list_post(final (ctx)@, u32::MAX as int, v@)
                        } else {
                            final (ctx)@ == old(ctx)@ && r is None
                        }
                    },
                    Err(_) => final (ctx)@ == old(ctx)@ && r is None,
                }
            },
            UiCommandDispatchActions::RemoveChannel(args) => {
                &&& has_chan_id(old(ctx)@.channels, args.id as int) ==> (exists|i: int|
                    0 <= i < old(ctx)@.channels.len() && (#[trigger] old(ctx)@.channels[i]).id
                        == args.id as int && final (ctx)@.channels == old(ctx)@.channels.remove(i))
                    && (r matches Some(ev) && ev matches BackendEvent::ReloadState(v)
                    && spec_list_post(final (ctx)@, u32::MAX as int, v@))
                &&& !has_chan_id(old(ctx)@.channels, args.id as int) ==> final (ctx)@ == old(ctx)@
                    && r is None
            },
            UiCommandDispatchActions::MarkArticleRead(args) => {
                &&& final (ctx)@ == spec_set_unread(old(ctx)@, args.id as int, args.unread)
                &&& has_art_id(old(ctx)@.channels, args.id as int) ==> (r matches Some(ev)
                    && ev matches BackendEvent::ReloadState(v) && spec_list_post(
                    final (ctx)@,
                    u32::MAX as int,
                    v@,
                ))
                &&& !has_art_id(old(ctx)@.channels, args.id as int) ==> r is None
            },
            UiCommandDispatchActions::ListChannels(args) => {
                &&& final (ctx)@ == old(ctx)@
                &&& r matches Some(ev) && ev matches BackendEvent::ReloadState(v)
                    && spec_list_post(old(ctx)@, args.limit.unwrap_or(u32::MAX) as int, v@)
            },
        },
{
    match action {
        UiCommandDispatchActions::AddChannel(_) => {
            match body {
                Some(b) => {
                    match add_channel(ctx, b.as_slice(), now) {
                        Ok(_) => send_new_state_default(ctx),
                        Err(_) => None,
                    }
                },
                None => None,
            }
        },
        UiCommandDispatchActions::RemoveChannel(args) => {
            match remove_channel(ctx, &args) {
                Ok(_) => send_new_state_default(ctx),
                Err(_) => None,
            }
        },
        UiCommandDispatchActions::MarkArticleRead(args) => {
            match mark_read(ctx, &args) {
                Ok(_) => send_new_state_default(ctx),
                Err(_) => None,
            }
        },
        UiCommandDispatchActions::ListChannels(args) => send_new_state(ctx, &args),
    }
}

} // verus!
