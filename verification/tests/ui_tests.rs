use trs::actions::handle_action;
use trs::actions::handle_popup_action;
use trs::actions::min;
use trs::actions::saturating_add;
use trs::args::AddChannelArgs;
use trs::commands::add_channel;
use trs::commands::TrsEnv;
use trs::controls::parse_popup_ui_action;
use trs::controls::parse_ui_action;
use trs::controls::KeyCode;
use trs::controls::KeyInput;
use trs::controls::KeyMods;
use trs::executor::apply_command;
use trs::executor::command_fetch_request;
use trs::persistence::RssArticleD;
use trs::persistence::RssChannelD;
use trs::ui::handle_events;
use trs::ui::AppState;
use trs::ui::BackendEvent;
use trs::ui::Event;
use trs::ui::FocussedPane;
use trs::ui::PopupUiAction;
use trs::ui::UiAction;
use trs::ui::UiCommandDispatchActions;

fn key(c: char) -> KeyInput {
    KeyInput { press: true, mods: KeyMods::Plain, code: KeyCode::Char(c) }
}

fn ctrl(c: char) -> KeyInput {
    KeyInput { press: true, mods: KeyMods::Control, code: KeyCode::Char(c) }
}

fn stored_article(id: i64, channel_id: i64, link: &str, unread: bool) -> RssArticleD {
    RssArticleD {
        id,
        channel_id,
        title: format!("article {}", id),
        description: String::new(),
        link: link.to_string(),
        pub_date: None,
        last_update: 0,
        unread,
    }
}

fn stored_channel(id: i64, link: &str, articles: Vec<RssArticleD>) -> RssChannelD {
    RssChannelD {
        id,
        title: format!("channel {}", id),
        link: link.to_string(),
        description: String::new(),
        last_update: 0,
        articles,
    }
}

#[test]
fn parse_ui_action_maps_the_key_table() {
    assert_eq!(parse_ui_action(key('j')), UiAction::FocusEntryDown);
    assert_eq!(parse_ui_action(key('k')), UiAction::FocusEntryUp);
    assert_eq!(parse_ui_action(key('h')), UiAction::FocusPaneLeft);
    assert_eq!(parse_ui_action(key('l')), UiAction::FocusPaneRight);
    assert_eq!(parse_ui_action(key('a')), UiAction::ShowAddChannelUi);
    assert_eq!(parse_ui_action(key('d')), UiAction::RemoveChannel);
    assert_eq!(parse_ui_action(key('r')), UiAction::ToggleReadStatus);
    assert_eq!(parse_ui_action(key('s')), UiAction::SyncChannel);
    assert_eq!(parse_ui_action(key('q')), UiAction::Exit);
    assert_eq!(parse_ui_action(key('n')), UiAction::ToggleDebug);
    assert_eq!(parse_ui_action(key('z')), UiAction::Noop);
    let enter = KeyInput { press: true, mods: KeyMods::Plain, code: KeyCode::Enter };
    assert_eq!(parse_ui_action(enter), UiAction::OpenArticle);
    assert_eq!(parse_ui_action(ctrl('p')), UiAction::FocusEntryUp);
    assert_eq!(parse_ui_action(ctrl('n')), UiAction::FocusEntryDown);
    assert_eq!(parse_ui_action(ctrl('l')), UiAction::FocusPaneRight);
    assert_eq!(parse_ui_action(ctrl('h')), UiAction::FocusPaneLeft);
    assert_eq!(parse_ui_action(ctrl('q')), UiAction::Noop);
    let release = KeyInput { press: false, mods: KeyMods::Plain, code: KeyCode::Char('q') };
    assert_eq!(parse_ui_action(release), UiAction::Noop);
    let other_mods = KeyInput { press: true, mods: KeyMods::Other, code: KeyCode::Char('q') };
    assert_eq!(parse_ui_action(other_mods), UiAction::Noop);
}

#[test]
fn parse_popup_ui_action_maps_the_popup_table() {
    assert_eq!(parse_popup_ui_action(key('x')), PopupUiAction::AddChar('x'));
    let enter = KeyInput { press: true, mods: KeyMods::Plain, code: KeyCode::Enter };
    assert_eq!(parse_popup_ui_action(enter), PopupUiAction::Submit);
    let backspace = KeyInput { press: true, mods: KeyMods::Plain, code: KeyCode::Backspace };
    assert_eq!(parse_popup_ui_action(backspace), PopupUiAction::Backspace);
    let esc = KeyInput { press: true, mods: KeyMods::Plain, code: KeyCode::Esc };
    assert_eq!(parse_popup_ui_action(esc), PopupUiAction::Close);
    assert_eq!(parse_popup_ui_action(ctrl('x')), PopupUiAction::Noop);
}

#[test]
fn popup_accumulates_link_and_submits() {
    let mut state = AppState::new(false);
    state.show_add_channel_ui = true;
    for c in "https://x".chars() {
        assert!(handle_popup_action(&mut state, PopupUiAction::AddChar(c)).command.is_none());
    }
    handle_popup_action(&mut state, PopupUiAction::Backspace);
    assert_eq!(state.add_channel, "https://");
    let outcome = handle_popup_action(&mut state, PopupUiAction::Submit);
    assert!(!state.show_add_channel_ui);
    assert_eq!(
        outcome.command,
        Some(UiCommandDispatchActions::AddChannel(AddChannelArgs {
            link: "https://".to_string()
        }))
    );
}

#[test]
fn selection_down_reclamps_article_index() {
    let mut state = AppState::new(false);
    state.channels = vec![
        stored_channel(1, "https://one.example/", vec![
            stored_article(1, 1, "https://one.example/a", true),
            stored_article(2, 1, "https://one.example/b", true),
            stored_article(3, 1, "https://one.example/c", true),
        ]),
        stored_channel(2, "https://two.example/", vec![stored_article(
            4,
            2,
            "https://two.example/a",
            true,
        )]),
    ];
    state.focussed = FocussedPane::Channels;
    state.highlighted_channel = Some(0);
    state.highlighted_article = Some(2);
    handle_action(&mut state, UiAction::FocusEntryDown);
    assert_eq!(state.highlighted_channel, Some(1));
    // The second channel has one article: the selection re-clamps into its
    // count instead of clearing.
    assert_eq!(state.highlighted_article, Some(0));
    // Moving past the end clamps at the last channel.
    handle_action(&mut state, UiAction::FocusEntryDown);
    assert_eq!(state.highlighted_channel, Some(1));
    handle_action(&mut state, UiAction::FocusEntryUp);
    assert_eq!(state.highlighted_channel, Some(0));
    assert_eq!(state.highlighted_article, Some(0));
}

#[test]
fn selection_clears_only_on_empty_channel() {
    let mut state = AppState::new(false);
    state.channels = vec![
        stored_channel(1, "https://one.example/", vec![
            stored_article(1, 1, "https://one.example/a", true),
            stored_article(2, 1, "https://one.example/b", true),
        ]),
        stored_channel(2, "https://two.example/", vec![]),
    ];
    state.focussed = FocussedPane::Channels;
    state.highlighted_channel = Some(0);
    state.highlighted_article = Some(1);
    handle_action(&mut state, UiAction::FocusEntryDown);
    assert_eq!(state.highlighted_channel, Some(1));
    // The second channel has no articles at all, so the selection clears.
    assert_eq!(state.highlighted_article, None);
}

#[test]
fn article_selection_moves_within_channel() {
    let mut state = AppState::new(false);
    state.channels = vec![stored_channel(1, "https://one.example/", vec![
        stored_article(1, 1, "https://one.example/a", true),
        stored_article(2, 1, "https://one.example/b", true),
    ])];
    state.focussed = FocussedPane::Articles;
    state.highlighted_channel = Some(0);
    handle_action(&mut state, UiAction::FocusEntryDown);
    assert_eq!(state.highlighted_article, Some(0));
    handle_action(&mut state, UiAction::FocusEntryDown);
    assert_eq!(state.highlighted_article, Some(1));
    handle_action(&mut state, UiAction::FocusEntryDown);
    assert_eq!(state.highlighted_article, Some(1));
    handle_action(&mut state, UiAction::FocusEntryUp);
    assert_eq!(state.highlighted_article, Some(0));
}

#[test]
fn open_article_marks_read_locally_and_dispatches() {
    let mut state = AppState::new(false);
    state.channels = vec![stored_channel(1, "https://one.example/", vec![stored_article(
        1,
        1,
        "https://one.example/a",
        true,
    ), stored_article(2, 1, "https://one.example/b", true)])];
    state.highlighted_channel = Some(0);
    state.highlighted_article = Some(1);
    let outcome = handle_action(&mut state, UiAction::OpenArticle);
    assert!(!state.channels[0].articles[1].unread);
    assert!(state.channels[0].articles[0].unread);
    assert_eq!(outcome.open_link.as_deref(), Some("https://one.example/b"));
    assert!(matches!(
        outcome.command,
        Some(UiCommandDispatchActions::MarkArticleRead(args)) if args.id == 2 && !args.unread
    ));
}

#[test]
fn toggle_and_remove_dispatch_against_highlighted_rows() {
    let mut state = AppState::new(false);
    state.channels = vec![stored_channel(6, "https://one.example/", vec![stored_article(
        9,
        6,
        "https://one.example/a",
        false,
    ), stored_article(10, 6, "https://one.example/b", true)])];
    state.highlighted_channel = Some(0);
    state.highlighted_article = Some(0);
    let toggled = handle_action(&mut state, UiAction::ToggleReadStatus);
    assert!(matches!(
        toggled.command,
        Some(UiCommandDispatchActions::MarkArticleRead(args)) if args.id == 9 && args.unread
    ));
    let removed = handle_action(&mut state, UiAction::RemoveChannel);
    assert!(matches!(
        removed.command,
        Some(UiCommandDispatchActions::RemoveChannel(args)) if args.id == 6
    ));
    state.highlighted_channel = None;
    let nothing = handle_action(&mut state, UiAction::RemoveChannel);
    assert!(nothing.command.is_none());
}

#[test]
fn pane_and_mode_actions_mutate_locally() {
    let mut state = AppState::new(true);
    handle_action(&mut state, UiAction::FocusPaneRight);
    assert_eq!(state.focussed, FocussedPane::Articles);
    handle_action(&mut state, UiAction::FocusPaneLeft);
    assert_eq!(state.focussed, FocussedPane::Channels);
    handle_action(&mut state, UiAction::ToggleDebug);
    assert!(state.debug);
    handle_action(&mut state, UiAction::ShowAddChannelUi);
    assert!(state.show_add_channel_ui);
    state.show_add_channel_ui = false;
    handle_action(&mut state, UiAction::Exit);
    assert!(state.exit);
}

#[test]
fn reload_event_replaces_snapshot_and_selects_first() {
    let mut state = AppState::new(false);
    let snapshot = vec![stored_channel(1, "https://one.example/", vec![])];
    let outcome = handle_events(&mut state, Event::BackendEvent(BackendEvent::ReloadState(
        snapshot,
    )));
    assert!(outcome.command.is_none());
    assert_eq!(state.channels.len(), 1);
    assert_eq!(state.highlighted_channel, Some(0));
    // A later reload keeps the selection.
    state.highlighted_channel = Some(0);
    handle_events(&mut state, Event::BackendEvent(BackendEvent::ReloadState(vec![])));
    assert_eq!(state.channels.len(), 0);
    assert_eq!(state.highlighted_channel, Some(0));
}

#[test]
fn tick_changes_nothing() {
    let mut state = AppState::new(false);
    let outcome = handle_events(&mut state, Event::Tick);
    assert!(outcome.command.is_none() && outcome.open_link.is_none());
    assert!(!state.exit);
}

#[test]
fn user_input_updates_last_action() {
    let mut state = AppState::new(false);
    handle_events(&mut state, Event::UserInput(key('q')));
    assert_eq!(state.last_action, Some(UiAction::Exit));
    assert!(state.exit);
}

#[test]
fn executor_fetches_only_for_add_channel() {
    let add = UiCommandDispatchActions::AddChannel(AddChannelArgs {
        link: "https://feed.example/".to_string(),
    });
    assert_eq!(command_fetch_request(&add).as_deref(), Some("https://feed.example/"));
    let list = UiCommandDispatchActions::ListChannels(trs::args::ListChannelArgs { limit: None });
    assert!(command_fetch_request(&list).is_none());
}

#[test]
fn executor_applies_commands_and_publishes_snapshots() {
    let mut ctx = TrsEnv::new("ui");
    let mut xml = String::new();
    xml.push_str("<rss><channel><title>Feed</title><link>https://feed.example/</link>");
    xml.push_str("<description>d</description><item><title>a</title>");
    xml.push_str("<link>https://feed.example/a</link><description>x</description>");
    xml.push_str("</item></channel></rss>");
    let add = UiCommandDispatchActions::AddChannel(AddChannelArgs {
        link: "https://feed.example/".to_string(),
    });
    let event = apply_command(&mut ctx, add.clone(), Some(xml.into_bytes()), 100);
    let BackendEvent::ReloadState(channels) = event.expect("snapshot after add");
    assert_eq!(channels.len(), 1);
    assert_eq!(channels[0].articles.len(), 1);

    // A failed fetch is dropped silently.
    assert!(apply_command(&mut ctx, add, None, 100).is_none());

    // Removing a nonexistent channel publishes nothing.
    let remove_missing =
        UiCommandDispatchActions::RemoveChannel(trs::args::RemoveChannelArgs { id: 42 });
    assert!(apply_command(&mut ctx, remove_missing, None, 100).is_none());

    // Marking the stored article read publishes the updated snapshot.
    let mark = UiCommandDispatchActions::MarkArticleRead(trs::args::MarkReadArgs {
        id: channels[0].articles[0].id as u32,
        unread: false,
    });
    let event = apply_command(&mut ctx, mark, None, 100);
    let BackendEvent::ReloadState(after) = event.expect("snapshot after mark");
    assert!(!after[0].articles[0].unread);

    // An explicit list command always publishes.
    let list = UiCommandDispatchActions::ListChannels(trs::args::ListChannelArgs { limit: None });
    assert!(apply_command(&mut ctx, list, None, 100).is_some());
}

#[test]
fn saturating_add_and_min_behave() {
    assert_eq!(saturating_add(2, 1, 5), 3);
    assert_eq!(saturating_add(5, 1, 5), 5);
    assert_eq!(saturating_add(7, 1, 5), 5);
    assert_eq!(min(0, 4), 0);
    assert_eq!(min(9, 4), 4);
}

#[test]
fn add_channel_through_env_matches_executor_view() {
    let mut ctx = TrsEnv::new("ui2");
    let mut xml = String::new();
    xml.push_str("<rss><channel><title>Feed</title><link>https://feed.example/</link>");
    xml.push_str("<description>d</description></channel></rss>");
    let stored = add_channel(&mut ctx, xml.as_bytes(), 5).unwrap();
    assert_eq!(stored.id, 1);
}

#[test]
fn user_input_routes_to_popup_while_open() {
    let mut state = AppState::new(false);
    state.show_add_channel_ui = true;
    handle_events(&mut state, Event::UserInput(key('q')));
    // While the popup is open, `q` types into the link field instead of
    // quitting, and the last action is not overwritten.
    assert!(!state.exit);
    assert_eq!(state.add_channel, "q");
    assert_eq!(state.last_action, None);
}
