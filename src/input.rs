//! The key map: which action a key press stands for in each mode.
use vstd::prelude::*;

verus! {

/// A key, as far as the key map tells keys apart.
#[derive(Debug, Clone, Copy, PartialEq, Eq, Structural)]
pub enum KeyCode {
    Char(char),
    Up,
    Down,
    Left,
    Right,
    Enter,
    Esc,
    PageUp,
    PageDown,
    Other,
}

/// A key event: the key, whether Ctrl was held, and whether it is a press
/// (releases and repeats are ignored).
#[derive(Debug, Clone, Copy, PartialEq, Eq, Structural)]
pub struct KeyPress {
    pub code: KeyCode,
    pub ctrl: bool,
    pub press: bool,
}

#[derive(Debug, Clone, Copy, PartialEq, Eq, Structural)]
pub enum Action {
    Quit,
    DismissError,
    MoveUp,
    MoveDown,
    Expand,
    Collapse,
    Toggle,
    Refresh,
    RerunFailed,
    OpenBrowser,
    CycleFilter,
    FilterBranch,
    QuickSelect(usize),
    ViewLogs,
    CopyToClipboard,
    CloseOverlay,
    ScrollUp,
    ScrollDown,
    PageUp,
    PageDown,
    ScrollToTop,
    ScrollToBottom,
    ShowDetails,
    CancelRun,
    DeleteRun,
    ConfirmYes,
    NoAction,
}

/// The action of a key in the log overlay.
pub open spec fn log_overlay_action(code: KeyCode) -> Action {
    match code {
        KeyCode::Char('j') | KeyCode::Down => Action::ScrollDown,
        KeyCode::Char('k') | KeyCode::Up => Action::ScrollUp,
        KeyCode::PageDown => Action::PageDown,
        KeyCode::PageUp => Action::PageUp,
        KeyCode::Char('g') => Action::ScrollToTop,
        KeyCode::Char('G') => Action::ScrollToBottom,
        KeyCode::Char('y') => Action::CopyToClipboard,
        KeyCode::Char('q') | KeyCode::Char('e') | KeyCode::Esc => Action::CloseOverlay,
        _ => Action::NoAction,
    }
}

/// The action of a key in the tree view.
pub open spec fn tree_action(code: KeyCode, has_error: bool, is_loading: bool) -> Action {
    match code {
        KeyCode::Char('q') => Action::Quit,
        KeyCode::Esc => if has_error {
            Action::DismissError
        } else {
            Action::Quit
        },
        KeyCode::Up | KeyCode::Char('k') => Action::MoveUp,
        KeyCode::Down | KeyCode::Char('j') => Action::MoveDown,
        KeyCode::Right | KeyCode::Char('l') | KeyCode::Enter => Action::Expand,
        KeyCode::Left | KeyCode::Char('h') => Action::Collapse,
        KeyCode::Char(' ') => Action::Toggle,
        KeyCode::Char('r') => if is_loading {
            Action::NoAction
        } else {
            Action::Refresh
        },
        KeyCode::Char('R') => Action::RerunFailed,
        KeyCode::Char('o') => Action::OpenBrowser,
        KeyCode::Char('e') => Action::ViewLogs,
        KeyCode::Char('f') => Action::CycleFilter,
        KeyCode::Char('b') => Action::FilterBranch,
        KeyCode::Char('d') => Action::ShowDetails,
        KeyCode::Char('c') => Action::CancelRun,
        KeyCode::Char('x') => Action::DeleteRun,
        KeyCode::Char(c) => if '1' <= c && c <= '9' {
            Action::QuickSelect((c as u32 - '0' as u32) as usize)
        } else {
            Action::NoAction
        },
        _ => Action::NoAction,
    }
}

/// The action of a key event: releases do nothing, Ctrl+C always quits,
/// and an open overlay takes the keys before the tree does.
pub open spec fn key_action(key: KeyPress, has_error: bool, is_loading: bool, has_log_overlay: bool, has_detail_overlay: bool) -> Action {
    if !key.press {
        Action::NoAction
    } else if key.code == KeyCode::Char('c') && key.ctrl {
        Action::Quit
    } else if has_log_overlay {
        log_overlay_action(key.code)
    } else if has_detail_overlay {
        match key.code {
            KeyCode::Char('q') | KeyCode::Char('d') | KeyCode::Esc => Action::CloseOverlay,
            _ => Action::NoAction,
        }
    } else {
        tree_action(key.code, has_error, is_loading)
    }
}

/// Maps a key event to its action in the current mode.
pub fn map_key(key: KeyPress, has_error: bool, is_loading: bool, has_log_overlay: bool, has_detail_overlay: bool) -> (r: Action)
    ensures
        r == key_action(key, has_error, is_loading, has_log_overlay, has_detail_overlay),
{
    if !key.press {
        return Action::NoAction;
    }
    if key.code == KeyCode::Char('c') && key.ctrl {
        return Action::Quit;
    }
    if has_log_overlay {
        return match key.code {
            KeyCode::Char('j') | KeyCode::Down => Action::ScrollDown,
            KeyCode::Char('k') | KeyCode::Up => Action::ScrollUp,
            KeyCode::PageDown => Action::PageDown,
            KeyCode::PageUp => Action::PageUp,
            KeyCode::Char('g') => Action::ScrollToTop,
            KeyCode::Char('G') => Action::ScrollToBottom,
            KeyCode::Char('y') => Action::CopyToClipboard,
            KeyCode::Char('q') | KeyCode::Char('e') | KeyCode::Esc => Action::CloseOverlay,
            _ => Action::NoAction,
        };
    }
    if has_detail_overlay {
        return match key.code {
            KeyCode::Char('q') | KeyCode::Char('d') | KeyCode::Esc => Action::CloseOverlay,
            _ => Action::NoAction,
        };
    }
    match key.code {
        KeyCode::Char('q') => Action::Quit,
        KeyCode::Esc => if has_error {
            Action::DismissError
        } else {
            Action::Quit
        },
        KeyCode::Up | KeyCode::Char('k') => Action::MoveUp,
        KeyCode::Down | KeyCode::Char('j') => Action::MoveDown,
        KeyCode::Right | KeyCode::Char('l') | KeyCode::Enter => Action::Expand,
        KeyCode::Left | KeyCode::Char('h') => Action::Collapse,
        KeyCode::Char(' ') => Action::Toggle,
        KeyCode::Char('r') => if is_loading {
            Action::NoAction
        } else {
            Action::Refresh
        },
        KeyCode::Char('R') => Action::RerunFailed,
        KeyCode::Char('o') => Action::OpenBrowser,
        KeyCode::Char('e') => Action::ViewLogs,
        KeyCode::Char('f') => Action::CycleFilter,
        KeyCode::Char('b') => Action::FilterBranch,
        KeyCode::Char('d') => Action::ShowDetails,
        KeyCode::Char('c') => Action::CancelRun,
        KeyCode::Char('x') => Action::DeleteRun,
        KeyCode::Char(c) => if '1' <= c && c <= '9' {
            Action::QuickSelect((c as u32 - '0' as u32) as usize)
        } else {
            Action::NoAction
        },
        _ => Action::NoAction,
    }
}

/// The action of a key event while a confirmation is open: `y` confirms,
/// `n`, `q` or Esc close it, Ctrl+C quits.
pub open spec fn confirm_key_action(key: KeyPress) -> Action {
    if !key.press {
        Action::NoAction
    } else if key.code == KeyCode::Char('c') && key.ctrl {
        Action::Quit
    } else {
        match key.code {
            KeyCode::Char('y') => Action::ConfirmYes,
            KeyCode::Char('n') | KeyCode::Char('q') | KeyCode::Esc => Action::CloseOverlay,
            _ => Action::NoAction,
        }
    }
}

/// Maps a key event while a confirmation is open.
pub fn map_confirm_key(key: KeyPress) -> (r: Action)
    ensures
        r == confirm_key_action(key),
{
    if !key.press {
        return Action::NoAction;
    }
    if key.code == KeyCode::Char('c') && key.ctrl {
        return Action::Quit;
    }
    match key.code {
        KeyCode::Char('y') => Action::ConfirmYes,
        KeyCode::Char('n') | KeyCode::Char('q') | KeyCode::Esc => Action::CloseOverlay,
        _ => Action::NoAction,
    }
}

} // verus!
