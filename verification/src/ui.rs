use vstd::prelude::*;

use crate::actions::action_post;
use crate::actions::handle_action;
use crate::actions::handle_popup_action;
use crate::actions::popup_post;
use crate::args::AddChannelArgs;
use crate::args::ListChannelArgs;
use crate::args::MarkReadArgs;
use crate::args::RemoveChannelArgs;
use crate::controls::parse_popup_ui_action;
use crate::controls::parse_ui_action;
use crate::controls::spec_parse_popup_ui_action;
use crate::controls::spec_parse_ui_action;
use crate::controls::KeyInput;
use crate::persistence::RssChannelD;

verus! {

/// Which pane the selection lives in.
#[derive(Debug, Clone, Copy, PartialEq, Eq, Structural)]
pub enum FocussedPane {
    Channels,
    Articles,
}

/// A user intent, as decoded from one key press.
#[derive(Debug, Clone, Copy, PartialEq, Eq, Structural)]
pub enum UiAction {
    Noop,
    FocusPaneRight,
    FocusPaneLeft,
    FocusPaneUp,
    FocusPaneDown,
    FocusEntryUp,
    FocusEntryDown,
    ToggleDebug,
    OpenArticle,
    ShowAddChannelUi,
    RemoveChannel,
    ToggleReadStatus,
    SyncChannel,
    Exit,
}

/// A user intent inside the add-channel popup.
#[derive(Debug, Clone, Copy, PartialEq, Eq, Structural)]
pub enum PopupUiAction {
    Noop,
    Submit,
    AddChar(char),
    Backspace,
    Close,
}

/// A command the session loop dispatches to the backend worker.
#[derive(Debug, Clone, PartialEq)]
pub enum UiCommandDispatchActions {
    AddChannel(AddChannelArgs),
    RemoveChannel(RemoveChannelArgs),
    MarkArticleRead(MarkReadArgs),
    ListChannels(ListChannelArgs),
}

/// A snapshot event the backend worker publishes: the whole channel list,
/// replacing the previous one wholesale.
#[derive(Debug, PartialEq)]
pub enum BackendEvent {
    ReloadState(Vec<RssChannelD>),
}

/// One event of the session loop's merged stream: a key press, a backend
/// snapshot, or the periodic tick.
#[derive(Debug, PartialEq)]
pub enum Event {
    UserInput(KeyInput),
    BackendEvent(BackendEvent),
    Tick,
}

/// The session state the render loop draws from: the current snapshot, the
/// two selection indices (which are not independent — moving the channel
/// selection re-clamps the article selection), the focussed pane, and the
/// add-channel popup's text.
#[derive(Debug)]
pub struct AppState {
    pub exit: bool,
    pub debug_enabled: bool,
    pub debug: bool,
    pub channels: Vec<RssChannelD>,
    pub focussed: FocussedPane,
    pub highlighted_channel: Option<usize>,
    pub highlighted_article: Option<usize>,
    pub last_action: Option<UiAction>,
    pub show_add_channel_ui: bool,
    pub add_channel: String,
}

/// What handling one event asks the shell to do: dispatch a command to the
/// backend worker, and/or open a link in the browser.
#[derive(Debug, PartialEq)]
pub struct ActionOutcome {
    pub command: Option<UiCommandDispatchActions>,
    pub open_link: Option<String>,
}

/// An outcome that asks for nothing.
pub open spec fn no_outcome(r: ActionOutcome) -> bool {
    r.command is None && r.open_link is None
}

impl AppState {
    /// The state the session starts in: no snapshot yet, nothing selected,
    /// channels pane focussed, popup closed.
    pub fn new(debug_enabled: bool) -> (r: AppState)
        ensures
            r.exit == false,
            r.debug_enabled == debug_enabled,
            r.debug == false,
            r.channels@.len() == 0,
            r.focussed == FocussedPane::Channels,
            r.highlighted_channel is None,
            r.highlighted_article is None,
            r.last_action is None,
            r.show_add_channel_ui == false,
            r.add_channel@.len() == 0,
    {
        AppState {
            exit: false,
            debug_enabled,
            debug: false,
            channels: Vec::new(),
            focussed: FocussedPane::Channels,
            highlighted_channel: None,
            highlighted_article: None,
            last_action: None,
            show_add_channel_ui: false,
            add_channel: String::new(),
        }
    }
}

/// Handles one key press: while the add-channel popup is open the key goes
/// to the popup; otherwise it is decoded into an action, remembered as the
/// last action, and handled.
pub fn handle_user_input(state: &mut AppState, key: KeyInput) -> (r: ActionOutcome)
    ensures
        old(state).show_add_channel_ui ==> popup_post(
            *old(state),
            *final (state),
            spec_parse_popup_ui_action(key),
            r,
        ),
        !old(state).show_add_channel_ui ==> action_post(
            (AppState { last_action: Some(spec_parse_ui_action(key)), ..*old(state) }),
            *final (state),
            spec_parse_ui_action(key),
            r,
        ),
{
    if state.show_add_channel_ui {
        let popup_action = parse_popup_ui_action(key);
        return handle_popup_action(state, popup_action);
    }
    let ui_action = parse_ui_action(key);
    state.last_action = Some(ui_action);
    handle_action(state, ui_action)
}

/// Handles exactly one event of the merged stream: a key press goes to the
/// input path; a backend snapshot replaces the channel list wholesale (and
/// selects the first channel when nothing was selected yet); a tick changes
/// nothing.
pub fn handle_events(state: &mut AppState, event: Event) -> (r: ActionOutcome)
    ensures
        match event {
            Event::UserInput(key) => {
                &&& old(state).show_add_channel_ui ==> popup_post(
                    *old(state),
                    *final (state),
                    spec_parse_popup_ui_action(key),
                    r,
                )
                &&& !old(state).show_add_channel_ui ==> action_post(
                    (AppState { last_action: Some(spec_parse_ui_action(key)), ..*old(state) }),
                    *final (state),
                    spec_parse_ui_action(key),
                    r,
                )
            },
            Event::BackendEvent(be) => {
                &&& be matches BackendEvent::ReloadState(channels) ==> *final (state) == (AppState {
                    channels,
                    highlighted_channel: if old(state).highlighted_channel is None && channels@.len()
                        > 0 {
                        Some(0usize)
                    } else {
                        old(state).highlighted_channel
                    },
                    ..*old(state)
                })
                &&& no_outcome(r)
            },
            Event::Tick => *final (state) == *old(state) && no_outcome(r),
        },
{
    match event {
        Event::UserInput(key) => handle_user_input(state, key),
        Event::BackendEvent(backend_event) => {
            match backend_event {
                BackendEvent::ReloadState(channels) => {
                    state.channels = channels;
                    if state.highlighted_channel.is_none() && state.channels.len() > 0 {
                        state.highlighted_channel = Some(0);
                    }
                },
            }
            ActionOutcome { command: None, open_link: None }
        },
        Event::Tick => ActionOutcome { command: None, open_link: None },
    }
}

} // verus!
