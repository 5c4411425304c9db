use vstd::prelude::*;

use crate::args::AddChannelArgs;
use crate::args::ListChannelArgs;
use crate::args::MarkReadArgs;
use crate::args::RemoveChannelArgs;
use crate::persistence::RssArticleD;
use crate::persistence::RssChannelD;
use crate::ui::no_outcome;
use crate::ui::ActionOutcome;
use crate::ui::AppState;
use crate::ui::FocussedPane;
use crate::ui::PopupUiAction;
use crate::ui::UiAction;
use crate::ui::UiCommandDispatchActions;

verus! {

/// Relies on `String::push`: appends one character at the end.
pub assume_specification[ String::push ](s: &mut String, ch: char)
    ensures
        final (s)@ == old(s)@.push(ch),
;

/// Relies on `String::pop`: removes and returns the last character, or does
/// nothing on an empty string.
pub assume_specification[ String::pop ](s: &mut String) -> (r: Option<char>)
    ensures
        old(s)@.len() == 0 ==> r is None && final (s)@ == old(s)@,
        old(s)@.len() > 0 ==> r == Some(old(s)@.last()) && final (s)@ == old(s)@.drop_last(),
;

/// Addition clamped to a maximum.
pub open spec fn spec_sat_add(num: int, to_add: int, max: int) -> int {
    if num + to_add > max {
        max
    } else {
        num + to_add
    }
}

/// The smaller of the two.
pub open spec fn spec_min(a: int, b: int) -> int {
    if a < b {
        a
    } else {
        b
    }
}

/// Adds, but never past the given maximum.
pub fn saturating_add(num: usize, to_add: usize, max: usize) -> (r: usize)
    requires
        num + to_add <= usize::MAX,
    ensures
        r == spec_sat_add(num as int, to_add as int, max as int),
{
    if num + to_add > max {
        max
    } else {
        num + to_add
    }
}

/// The smaller of the two.
pub fn min(arg: usize, max_channel_idx: usize) -> (r: usize)
    ensures
        r == spec_min(arg as int, max_channel_idx as int),
{
    if arg < max_channel_idx {
        arg
    } else {
        max_channel_idx
    }
}

/// The index of the highlighted channel, when it points at an actual entry
/// of the snapshot.
pub open spec fn spec_hi_chan_idx(s: AppState) -> Option<int> {
    match s.highlighted_channel {
        Some(i) => {
            if (i as int) < s.channels@.len() {
                Some(i as int)
            } else {
                None
            }
        },
        None => None,
    }
}

/// The highlighted (channel, article) pair, when both indices point at
/// actual entries.
pub open spec fn spec_selected(s: AppState) -> Option<(int, int)> {
    match (s.highlighted_channel, s.highlighted_article) {
        (Some(ci), Some(ai)) => {
            if (ci as int) < s.channels@.len() && (ai as int)
                < s.channels@[ci as int].articles@.len() {
                Some((ci as int, ai as int))
            } else {
                None
            }
        },
        _ => None,
    }
}

/// Re-clamping the article selection into the highlighted channel's article
/// count after the channel selection moved: with no valid channel or no
/// article selection it stays; a channel with no articles clears it;
/// otherwise it is clamped to the last article.
pub open spec fn spec_update_hi_article(
    channels: Seq<RssChannelD>,
    hi_c: Option<usize>,
    hi_a: Option<usize>,
) -> Option<usize> {
    match hi_c {
        None => hi_a,
        Some(ci) => {
            if ci as int >= channels.len() {
                hi_a
            } else {
                match hi_a {
                    None => hi_a,
                    Some(ai) => {
                        let n = channels[ci as int].articles@.len() as int;
                        if n == 0 {
                            None
                        } else if ai as int > n - 1 {
                            Some((n - 1) as usize)
                        } else {
                            Some(ai)
                        }
                    },
                }
            }
        },
    }
}

/// Moving the channel selection down: clamped to the last channel (or
/// cleared when there are none, or set to the first when nothing was
/// selected), then the article selection is re-clamped.
pub open spec fn spec_inc_channel_pair(
    channels: Seq<RssChannelD>,
    hi_c: Option<usize>,
    hi_a: Option<usize>,
) -> (Option<usize>, Option<usize>) {
    if channels.len() == 0 {
        (None, hi_a)
    } else {
        let c = match hi_c {
            Some(i) => Some(spec_sat_add(i as int, 1, channels.len() - 1) as usize),
            None => Some(0usize),
        };
        (c, spec_update_hi_article(channels, c, hi_a))
    }
}

/// Moving the channel selection up: clamped at the first channel, then the
/// article selection is re-clamped.
pub open spec fn spec_dec_channel_pair(
    channels: Seq<RssChannelD>,
    hi_c: Option<usize>,
    hi_a: Option<usize>,
) -> (Option<usize>, Option<usize>) {
    let c = match hi_c {
        Some(i) => Some(
            (if i > 0 {
                i - 1
            } else {
                0
            }) as usize,
        ),
        None => None,
    };
    (c, spec_update_hi_article(channels, c, hi_a))
}

/// Moving the article selection down within the highlighted channel.
pub open spec fn spec_inc_article(
    channels: Seq<RssChannelD>,
    hi_c: Option<usize>,
    hi_a: Option<usize>,
) -> Option<usize> {
    match hi_c {
        None => hi_a,
        Some(ci) => {
            if ci as int >= channels.len() {
                hi_a
            } else {
                let n = channels[ci as int].articles@.len() as int;
                let maxi = if n == 0 {
                    0
                } else {
                    n - 1
                };
                match hi_a {
                    Some(ai) => Some(spec_sat_add(ai as int, 1, maxi) as usize),
                    None => Some(0usize),
                }
            }
        },
    }
}

/// Moving the article selection up: clamped at the first article.
pub open spec fn spec_dec_article(hi_a: Option<usize>) -> Option<usize> {
    match hi_a {
        Some(ai) => Some(
            (if ai > 0 {
                ai - 1
            } else {
                0
            }) as usize,
        ),
        None => None,
    }
}

/// The selection move a "down" key makes, depending on the focussed pane.
pub open spec fn spec_after_entry_down(s: AppState) -> (Option<usize>, Option<usize>) {
    match s.focussed {
        FocussedPane::Channels => spec_inc_channel_pair(
            s.channels@,
            s.highlighted_channel,
            s.highlighted_article,
        ),
        FocussedPane::Articles => (
            s.highlighted_channel,
            spec_inc_article(s.channels@, s.highlighted_channel, s.highlighted_article),
        ),
    }
}

/// The selection move an "up" key makes, depending on the focussed pane.
pub open spec fn spec_after_entry_up(s: AppState) -> (Option<usize>, Option<usize>) {
    match s.focussed {
        FocussedPane::Channels => spec_dec_channel_pair(
            s.channels@,
            s.highlighted_channel,
            s.highlighted_article,
        ),
        FocussedPane::Articles => (s.highlighted_channel, spec_dec_article(s.highlighted_article)),
    }
}

/// What handling one popup action does: characters accumulate in the link
/// field, backspace erases, submit dispatches an add-channel command with
/// the accumulated link and closes the popup, escape just closes it.
pub open spec fn popup_post(
    pre: AppState,
    post: AppState,
    event: PopupUiAction,
    r: ActionOutcome,
) -> bool {
    match event {
        PopupUiAction::Noop => post == pre && no_outcome(r),
        PopupUiAction::Submit => {
            &&& post == (AppState { show_add_channel_ui: false, ..pre })
            &&& r.command == Some(
                UiCommandDispatchActions::AddChannel(AddChannelArgs { link: pre.add_channel }),
            )
            &&& r.open_link is None
        },
        PopupUiAction::AddChar(c) => {
            &&& post.add_channel@ == pre.add_channel@.push(c)
            &&& post == (AppState { add_channel: post.add_channel, ..pre })
            &&& no_outcome(r)
        },
        PopupUiAction::Backspace => {
            &&& post.add_channel@ == (if pre.add_channel@.len() == 0 {
                pre.add_channel@
            } else {
                pre.add_channel@.drop_last()
            })
            &&& post == (AppState { add_channel: post.add_channel, ..pre })
            &&& no_outcome(r)
        },
        PopupUiAction::Close => post == (AppState { show_add_channel_ui: false, ..pre })
            && no_outcome(r),
    }
}

/// What handling one session action does: pane moves and toggles mutate the
/// state locally; selection moves keep the two indices consistent; opening
/// an article marks it read locally, dispatches the matching command and
/// asks for the link to be opened; remove, toggle-read and sync dispatch
/// their commands against the highlighted entries.
pub open spec fn action_post(
    pre: AppState,
    post: AppState,
    event: UiAction,
    r: ActionOutcome,
) -> bool {
    match event {
        UiAction::Noop => post == pre && no_outcome(r),
        UiAction::FocusPaneUp => post == pre && no_outcome(r),
        UiAction::FocusPaneDown => post == pre && no_outcome(r),
        UiAction::FocusPaneLeft => post == (AppState { focussed: FocussedPane::Channels, ..pre })
            && no_outcome(r),
        UiAction::FocusPaneRight => post == (AppState { focussed: FocussedPane::Articles, ..pre })
            && no_outcome(r),
        UiAction::ToggleDebug => post == (AppState { debug: !pre.debug, ..pre }) && no_outcome(r),
        UiAction::Exit => post == (AppState { exit: true, ..pre }) && no_outcome(r),
        UiAction::FocusEntryDown => {
            &&& post == (AppState {
                highlighted_channel: spec_after_entry_down(pre).0,
                highlighted_article: spec_after_entry_down(pre).1,
                ..pre
            })
            &&& no_outcome(r)
        },
        UiAction::FocusEntryUp => {
            &&& post == (AppState {
                highlighted_channel: spec_after_entry_up(pre).0,
                highlighted_article: spec_after_entry_up(pre).1,
                ..pre
            })
            &&& no_outcome(r)
        },
        UiAction::OpenArticle => {
            match spec_selected(pre) {
                Some((ci, ai)) => {
                    let art = pre.channels@[ci].articles@[ai];
                    &&& post.channels@.len() == pre.channels@.len()
                    &&& forall|k: int|
                        0 <= k < pre.channels@.len() && k != ci ==> post.channels@[k]
                            == pre.channels@[k]
                    &&& post.channels@[ci] == (RssChannelD {
                        articles: post.channels@[ci].articles,
                        ..pre.channels@[ci]
                    })
                    &&& post.channels@[ci].articles@.len() == pre.channels@[ci].articles@.len()
                    &&& forall|l: int|
                        0 <= l < pre.channels@[ci].articles@.len() && l != ai
                            ==> post.channels@[ci].articles@[l] == pre.channels@[ci].articles@[l]
                    &&& post.channels@[ci].articles@[ai] == (RssArticleD { unread: false, ..art })
                    &&& post == (AppState { channels: post.channels, ..pre })
                    &&& r.command == Some(
                        UiCommandDispatchActions::MarkArticleRead(
                            MarkReadArgs { id: art.id as u32, unread: false },
                        ),
                    )
                    &&& r.open_link == Some(art.link)
                },
                None => post == pre && no_outcome(r),
            }
        },
        UiAction::ShowAddChannelUi => post == (AppState { show_add_channel_ui: true, ..pre })
            && no_outcome(r),
        UiAction::RemoveChannel => {
            match spec_hi_chan_idx(pre) {
                Some(ci) => {
                    &&& post == pre
                    &&& r.command == Some(
                        UiCommandDispatchActions::RemoveChannel(
                            RemoveChannelArgs { id: pre.channels@[ci].id as u32 },
                        ),
                    )
                    &&& r.open_link is None
                },
                None => post == pre && no_outcome(r),
            }
        },
        UiAction::ToggleReadStatus => {
            match spec_selected(pre) {
                Some((ci, ai)) => {
                    let art = pre.channels@[ci].articles@[ai];
                    &&& post == pre
                    &&& r.command == Some(
                        UiCommandDispatchActions::MarkArticleRead(
                            MarkReadArgs { id: art.id as u32, unread: !art.unread },
                        ),
                    )
                    &&& r.open_link is None
                },
                None => post == pre && no_outcome(r),
            }
        },
        UiAction::SyncChannel => {
            &&& post == pre
            &&& r.command == Some(
                UiCommandDispatchActions::ListChannels(ListChannelArgs { limit: None }),
            )
            &&& r.open_link is None
        },
    }
}

fn toggle_debug(app_state: &mut AppState)
    ensures
        *final (app_state) == (AppState { debug: !old(app_state).debug, ..*old(app_state) }),
{
    app_state.debug = !app_state.debug;
}

fn update_highlighted_article(app_state: &mut AppState)
    ensures
        *final (app_state) == (AppState {
            highlighted_article: spec_update_hi_article(
                old(app_state).channels@,
                old(app_state).highlighted_channel,
                old(app_state).highlighted_article,
            ),
            ..*old(app_state)
        }),
{
    let hi_c = match app_state.highlighted_channel {
        Some(ci) => {
            if ci < app_state.channels.len() {
                Some(ci)
            } else {
                None
            }
        },
        None => None,
    };
    let ci = match hi_c {
        Some(ci) => ci,
        None => {
            return ;
        },
    };
    let ai = match app_state.highlighted_article {
        Some(ai) => ai,
        None => {
            return ;
        },
    };
    let n = app_state.channels[ci].articles.len();
    if n == 0 {
        app_state.highlighted_article = None;
    } else if ai > n - 1 {
        app_state.highlighted_article = Some(n - 1);
    } else {
        app_state.highlighted_article = Some(ai);
    }
}

fn increment_highlighted_channel_idx(app_state: &mut AppState)
    ensures
        *final (app_state) == (AppState {
            highlighted_channel: spec_inc_channel_pair(
                old(app_state).channels@,
                old(app_state).highlighted_channel,
                old(app_state).highlighted_article,
            ).0,
            highlighted_article: spec_inc_channel_pair(
                old(app_state).channels@,
                old(app_state).highlighted_channel,
                old(app_state).highlighted_article,
            ).1,
            ..*old(app_state)
        }),
{
    let channels_len = app_state.channels.len();
    if channels_len == 0 {
        app_state.highlighted_channel = None;
        return ;
    }
    let max_channel_idx = channels_len - 1;
    app_state.highlighted_channel = match app_state.highlighted_channel {
        Some(idx) => Some(
            if idx >= max_channel_idx {
                max_channel_idx
            } else {
                idx + 1
            },
        ),
        None => Some(0),
    };
    update_highlighted_article(app_state);
}

fn decrement_highlighted_channel_idx(app_state: &mut AppState)
    ensures
        *final (app_state) == (AppState {
            highlighted_channel: spec_dec_channel_pair(
                old(app_state).channels@,
                old(app_state).highlighted_channel,
                old(app_state).highlighted_article,
            ).0,
            highlighted_article: spec_dec_channel_pair(
                old(app_state).channels@,
                old(app_state).highlighted_channel,
                old(app_state).highlighted_article,
            ).1,
            ..*old(app_state)
        }),
{
    app_state.highlighted_channel = match app_state.highlighted_channel {
        Some(idx) => Some(
            if idx > 0 {
                idx - 1
            } else {
                0
            },
        ),
        None => None,
    };
    update_highlighted_article(app_state);
}

fn increment_highlighted_article_idx(app_state: &mut AppState)
    ensures
        *final (app_state) == (AppState {
            highlighted_article: spec_inc_article(
                old(app_state).channels@,
                old(app_state).highlighted_channel,
                old(app_state).highlighted_article,
            ),
            ..*old(app_state)
        }),
{
    let ci = match app_state.highlighted_channel {
        Some(ci) => {
            if ci < app_state.channels.len() {
                ci
            } else {
                return ;
            }
        },
        None => {
            return ;
        },
    };
    let n = app_state.channels[ci].articles.len();
    let hi_article_max_idx = if n == 0 {
        0
    } else {
        n - 1
    };
    app_state.highlighted_article = match app_state.highlighted_article {
        Some(idx) => Some(
            if idx >= hi_article_max_idx {
                hi_article_max_idx
            } else {
                idx + 1
            },
        ),
        None => Some(min(0, hi_article_max_idx)),
    };
}

fn decrement_highlighted_article_idx(app_state: &mut AppState)
    ensures
        *final (app_state) == (AppState {
            highlighted_article: spec_dec_article(old(app_state).highlighted_article),
            ..*old(app_state)
        }),
{
    app_state.highlighted_article = match app_state.highlighted_article {
        Some(idx) => Some(
            if idx > 0 {
                idx - 1
            } else {
                0
            },
        ),
        None => None,
    };
}

fn focus_entry_up(app_state: &mut AppState)
    ensures
        *final (app_state) == (AppState {
            highlighted_channel: spec_after_entry_up(*old(app_state)).0,
            highlighted_article: spec_after_entry_up(*old(app_state)).1,
            ..*old(app_state)
        }),
{
    match app_state.focussed {
        FocussedPane::Channels => decrement_highlighted_channel_idx(app_state),
        FocussedPane::Articles => decrement_highlighted_article_idx(app_state),
    }
}

fn focus_entry_down(app_state: &mut AppState)
    ensures
        *final (app_state) == (AppState {
            highlighted_channel: spec_after_entry_down(*old(app_state)).0,
            highlighted_article: spec_after_entry_down(*old(app_state)).1,
            ..*old(app_state)
        }),
{
    match app_state.focussed {
        FocussedPane::Channels => increment_highlighted_channel_idx(app_state),
        FocussedPane::Articles => increment_highlighted_article_idx(app_state),
    }
}

/// Handles one session action against the state, handing back what the
/// shell should do: dispatch a command, open a link, or nothing.
pub fn handle_action(app_state: &mut AppState, event: UiAction) -> (r: ActionOutcome)
    ensures
        action_post(*old(app_state), *final (app_state), event, r),
{
    let nothing = ActionOutcome { command: None, open_link: None };
    match event {
        UiAction::Noop => nothing,
        UiAction::FocusPaneUp => nothing,
        UiAction::FocusPaneDown => nothing,
        UiAction::FocusPaneLeft => {
            app_state.focussed = FocussedPane::Channels;
            nothing
        },
        UiAction::FocusPaneRight => {
            app_state.focussed = FocussedPane::Articles;
            nothing
        },
        UiAction::ToggleDebug => {
            toggle_debug(app_state);
            nothing
        },
        UiAction::Exit => {
            app_state.exit = true;
            nothing
        },
        UiAction::FocusEntryDown => {
            focus_entry_down(app_state);
            nothing
        },
        UiAction::FocusEntryUp => {
            focus_entry_up(app_state);
            nothing
        },
        UiAction::OpenArticle => {
            if let Some(ci) = app_state.highlighted_channel {
                if let Some(ai) = app_state.highlighted_article {
                    if ci < app_state.channels.len() {
                        if ai < app_state.channels[ci].articles.len() {
                            app_state.channels[ci].articles[ai].unread = false;
                            let id_u32: u32 = #[verifier::truncate] (
                            app_state.channels[ci].articles[ai].id as u32);
                            let link = app_state.channels[ci].articles[ai].link.clone();
                            return ActionOutcome {
                                command: Some(
                                    UiCommandDispatchActions::MarkArticleRead(
                                        MarkReadArgs { id: id_u32, unread: false },
                                    ),
                                ),
                                open_link: Some(link),
                            };
                        }
                    }
                }
            }
            nothing
        },
        UiAction::ShowAddChannelUi => {
            app_state.show_add_channel_ui = true;
            nothing
        },
        UiAction::RemoveChannel => {
            if let Some(ci) = app_state.highlighted_channel {
                if ci < app_state.channels.len() {
                    let id_u32: u32 = #[verifier::truncate] (app_state.channels[ci].id as u32);
                    return ActionOutcome {
                        command: Some(
                            UiCommandDispatchActions::RemoveChannel(
                                RemoveChannelArgs { id: id_u32 },
                            ),
                        ),
                        open_link: None,
                    };
                }
            }
            nothing
        },
        UiAction::ToggleReadStatus => {
            if let Some(ci) = app_state.highlighted_channel {
                if let Some(ai) = app_state.highlighted_article {
                    if ci < app_state.channels.len() {
                        if ai < app_state.channels[ci].articles.len() {
                            let id_u32: u32 = #[verifier::truncate] (
                            app_state.channels[ci].articles[ai].id as u32);
                            let unread = !app_state.channels[ci].articles[ai].unread;
                            return ActionOutcome {
                                command: Some(
                                    UiCommandDispatchActions::MarkArticleRead(
                                        MarkReadArgs { id: id_u32, unread },
                                    ),
                                ),
                                open_link: None,
                            };
                        }
                    }
                }
            }
            nothing
        },
        UiAction::SyncChannel => ActionOutcome {
            command: Some(
                UiCommandDispatchActions::ListChannels(ListChannelArgs { limit: None }),
            ),
            open_link: None,
        },
    }
}

/// Handles one popup action against the state.
pub fn handle_popup_action(state: &mut AppState, event: PopupUiAction) -> (r: ActionOutcome)
    ensures
        popup_post(*old(state), *final (state), event, r),
{
    let nothing = ActionOutcome { command: None, open_link: None };
    match event {
        PopupUiAction::Noop => nothing,
        PopupUiAction::Submit => {
            let link = state.add_channel.clone();
            state.show_add_channel_ui = false;
            ActionOutcome {
                command: Some(UiCommandDispatchActions::AddChannel(AddChannelArgs { link })),
                open_link: None,
            }
        },
        PopupUiAction::AddChar(c) => {
            state.add_channel.push(c);
            nothing
        },
        PopupUiAction::Backspace => {
            state.add_channel.pop();
            nothing
        },
        PopupUiAction::Close => {
            state.show_add_channel_ui = false;
            nothing
        },
    }
}

} // verus!

