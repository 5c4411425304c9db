use vstd::prelude::*;

use crate::ui::PopupUiAction;
use crate::ui::UiAction;

verus! {

/// The keys the session loop reads, modelled as plain values: the key code,
/// the modifier in force, and whether this was a key press (as opposed to a
/// release or repeat). The terminal shell converts its own event type into
/// this one before calling in.
#[derive(Debug, Clone, Copy, PartialEq, Eq, Structural)]
pub enum KeyCode {
    Char(char),
    Enter,
    Backspace,
    Esc,
    Other,
}

#[derive(Debug, Clone, Copy, PartialEq, Eq, Structural)]
pub enum KeyMods {
    Plain,
    Control,
    Other,
}

#[derive(Debug, Clone, Copy, PartialEq, Eq, Structural)]
pub struct KeyInput {
    pub press: bool,
    pub mods: KeyMods,
    pub code: KeyCode,
}

/// The key table of the add-channel popup: characters type, backspace
/// erases, enter submits, escape closes; anything else — and any key with a
/// modifier, or any non-press — does nothing.
pub open spec fn spec_parse_popup_ui_action(key: KeyInput) -> PopupUiAction {
    if !key.press {
        PopupUiAction::Noop
    } else if key.mods != KeyMods::Plain {
        PopupUiAction::Noop
    } else {
        match key.code {
            KeyCode::Backspace => PopupUiAction::Backspace,
            KeyCode::Char(c) => PopupUiAction::AddChar(c),
            KeyCode::Enter => PopupUiAction::Submit,
            KeyCode::Esc => PopupUiAction::Close,
            KeyCode::Other => PopupUiAction::Noop,
        }
    }
}

/// The main key table: `h`/`l` (or Ctrl-h/Ctrl-l) switch panes, `k`/`j` (or
/// Ctrl-p/Ctrl-n) move the selection, `n` toggles the debug window, `q`
/// quits, `a` opens the add popup, `d` deletes, `r` toggles read state, `s`
/// syncs, and Enter opens the selected article.
pub open spec fn spec_parse_ui_action(key: KeyInput) -> UiAction {
    if !key.press {
        UiAction::Noop
    } else if key.mods == KeyMods::Control {
        match key.code {
            KeyCode::Char(c) => {
                if c == 'p' {
                    UiAction::FocusEntryUp
                } else if c == 'n' {
                    UiAction::FocusEntryDown
                } else if c == 'l' {
                    UiAction::FocusPaneRight
                } else if c == 'h' {
                    UiAction::FocusPaneLeft
                } else {
                    UiAction::Noop
                }
            },
            _ => UiAction::Noop,
        }
    } else if key.mods == KeyMods::Plain {
        match key.code {
            KeyCode::Char(c) => {
                if c == 'l' {
                    UiAction::FocusPaneRight
                } else if c == 'h' {
                    UiAction::FocusPaneLeft
                } else if c == 'k' {
                    UiAction::FocusEntryUp
                } else if c == 'j' {
                    UiAction::FocusEntryDown
                } else if c == 'n' {
                    UiAction::ToggleDebug
                } else if c == 'q' {
                    UiAction::Exit
                } else if c == 'a' {
                    UiAction::ShowAddChannelUi
                } else if c == 'd' {
                    UiAction::RemoveChannel
                } else if c == 'r' {
                    UiAction::ToggleReadStatus
                } else if c == 's' {
                    UiAction::SyncChannel
                } else {
                    UiAction::Noop
                }
            },
            KeyCode::Enter => UiAction::OpenArticle,
            _ => UiAction::Noop,
        }
    } else {
        UiAction::Noop
    }
}

/// Translates a key into the popup's action, exactly per the popup key
/// table.
pub fn parse_popup_ui_action(key: KeyInput) -> (r: PopupUiAction)
    ensures
        r == spec_parse_popup_ui_action(key),
{
    if !key.press {
        return PopupUiAction::Noop;
    }
    if key.mods != KeyMods::Plain {
        return PopupUiAction::Noop;
    }
    match key.code {
        KeyCode::Backspace => PopupUiAction::Backspace,
        KeyCode::Char(c) => PopupUiAction::AddChar(c),
        KeyCode::Enter => PopupUiAction::Submit,
        KeyCode::Esc => PopupUiAction::Close,
        KeyCode::Other => PopupUiAction::Noop,
    }
}

/// Translates a key into the session's action, exactly per the main key
/// table.
pub fn parse_ui_action(key: KeyInput) -> (r: UiAction)
    ensures
        r == spec_parse_ui_action(key),
{
    if !key.press {
        return UiAction::Noop;
    }
    if key.mods == KeyMods::Control {
        return match key.code {
            KeyCode::Char('p') => UiAction::FocusEntryUp,
            KeyCode::Char('n') => UiAction::FocusEntryDown,
            KeyCode::Char('l') => UiAction::FocusPaneRight,
            KeyCode::Char('h') => UiAction::FocusPaneLeft,
            _ => UiAction::Noop,
        };
    }
    if key.mods == KeyMods::Plain {
        return match key.code {
            KeyCode::Char('l') => UiAction::FocusPaneRight,
            KeyCode::Char('h') => UiAction::FocusPaneLeft,
            KeyCode::Char('k') => UiAction::FocusEntryUp,
            KeyCode::Char('j') => UiAction::FocusEntryDown,
            KeyCode::Char('n') => UiAction::ToggleDebug,
            KeyCode::Char('q') => UiAction::Exit,
            KeyCode::Char('a') => UiAction::ShowAddChannelUi,
            KeyCode::Char('d') => UiAction::RemoveChannel,
            KeyCode::Char('r') => UiAction::ToggleReadStatus,
            KeyCode::Char('s') => UiAction::SyncChannel,
            KeyCode::Enter => UiAction::OpenArticle,
            _ => UiAction::Noop,
        };
    }
    UiAction::Noop
}

} // verus!
