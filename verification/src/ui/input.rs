//! What each key and mouse event asks the player to do.

use vstd::prelude::*;
use vstd::string::*;

use crate::config::default_keys;

verus! {

/// The modifier keys held with a key, as the decisions read them.
#[derive(Debug, Clone, Copy, PartialEq, Eq, Structural)]
pub enum Modifiers {
    /// No modifier held.
    Plain,
    Shift,
    Control,
    /// Any other combination.
    Other,
}

/// The key pressed, as the decisions read it.
#[derive(Debug, Clone, Copy, PartialEq, Eq, Structural)]
pub enum KeyCode {
    Char(char),
    Up,
    Down,
    Left,
    Right,
    Enter,
    Esc,
    Backspace,
    Tab,
    BackTab,
    /// Any other key.
    Other,
}

#[derive(Debug, Clone, Copy, PartialEq, Eq, Structural)]
pub struct KeyEvent {
    pub modifiers: Modifiers,
    pub code: KeyCode,
}

/// What the mouse did, as the decisions read it.
#[derive(Debug, Clone, Copy, PartialEq, Eq, Structural)]
pub enum MouseKind {
    LeftDown,
    RightDown,
    OtherDown,
    LeftDrag,
    ScrollUp,
    ScrollDown,
    /// Any other motion.
    Other,
}

#[derive(Debug, Clone, Copy, PartialEq, Eq, Structural)]
pub struct MouseEvent {
    pub kind: MouseKind,
    pub column: u16,
    pub row: u16,
}

/// A request of the user. Seeks carry whole seconds.
#[derive(Debug, Clone, Copy, PartialEq, Eq, Structural)]
pub enum Action {
    PlayPause,
    Stop,
    Next,
    Previous,
    VolumeUp,
    VolumeDown,
    SeekForward(u64),
    SeekBackward(u64),
    Search,
    CommandPalette,
    Help,
    Quit,
    Enter,
    Back,
    Delete,
    ToggleSidebar,
    FocusSearch,
    ShowQueue,
    SavePlaylist,
    ToggleShuffle,
    ToggleRepeat,
    SelectNext,
    SelectPrevious,
    ScrollUp(u16, u16),
    ScrollDown(u16, u16),
    MouseClick(u16, u16),
    MouseDoubleClick(u16, u16),
    MouseDrag(u16, u16),
    RightClick(u16, u16),
    Resize(u16, u16),
    Tick,
    /// Nothing to do.
    NoOp,
}

/// The seconds one press of an arrow key seeks.
pub const SEEK_STEP_SECS: u64 = 5;

/// The key bindings.
pub open spec fn key_action(event: KeyEvent) -> Action {
    match (event.modifiers, event.code) {
        (Modifiers::Plain, KeyCode::Char(' ')) => Action::PlayPause,
        (Modifiers::Plain, KeyCode::Char('q')) => Action::Quit,
        (Modifiers::Plain, KeyCode::Char('s')) => Action::Stop,
        (Modifiers::Plain, KeyCode::Char('h')) => Action::Previous,
        (Modifiers::Plain, KeyCode::Char('l')) => Action::Next,
        (Modifiers::Plain, KeyCode::Char('j')) => Action::SelectNext,
        (Modifiers::Plain, KeyCode::Char('k')) => Action::SelectPrevious,
        (Modifiers::Plain, KeyCode::Char('z')) => Action::ToggleShuffle,
        (Modifiers::Plain, KeyCode::Char('x')) => Action::ToggleRepeat,
        (Modifiers::Plain, KeyCode::Char('/')) => Action::FocusSearch,
        (Modifiers::Plain, KeyCode::Char('?')) => Action::Help,
        (Modifiers::Plain, KeyCode::Up) => Action::VolumeUp,
        (Modifiers::Plain, KeyCode::Down) => Action::VolumeDown,
        (Modifiers::Plain, KeyCode::Left) => Action::SeekBackward(SEEK_STEP_SECS),
        (Modifiers::Plain, KeyCode::Right) => Action::SeekForward(SEEK_STEP_SECS),
        (Modifiers::Plain, KeyCode::Enter) => Action::Enter,
        (Modifiers::Plain, KeyCode::Esc) => Action::Back,
        (Modifiers::Plain, KeyCode::Backspace) => Action::Delete,
        (Modifiers::Plain, KeyCode::Tab) => Action::SelectNext,
        (Modifiers::Shift, KeyCode::BackTab) => Action::SelectPrevious,
        (Modifiers::Shift, KeyCode::Tab) => Action::SelectPrevious,
        (Modifiers::Control, KeyCode::Char('b')) => Action::ToggleSidebar,
        (Modifiers::Control, KeyCode::Char('q')) => Action::ShowQueue,
        (Modifiers::Control, KeyCode::Char('s')) => Action::SavePlaylist,
        (Modifiers::Control, KeyCode::Char('k')) => Action::FocusSearch,
        (Modifiers::Control, KeyCode::Char('p')) => Action::CommandPalette,
        _ => Action::NoOp,
    }
}

/// A key as the key bindings write it: a named key ("space", "up", "down",
/// "left", "right", "enter", "esc"), one character, or "ctrl+" and one
/// character. Other names (such as "delete") name keys the player does not
/// read.
pub open spec fn key_named(t: Seq<char>) -> Option<KeyEvent> {
    if t == "space"@ {
        Some(KeyEvent { modifiers: Modifiers::Plain, code: KeyCode::Char(' ') })
    } else if t == "up"@ {
        Some(KeyEvent { modifiers: Modifiers::Plain, code: KeyCode::Up })
    } else if t == "down"@ {
        Some(KeyEvent { modifiers: Modifiers::Plain, code: KeyCode::Down })
    } else if t == "left"@ {
        Some(KeyEvent { modifiers: Modifiers::Plain, code: KeyCode::Left })
    } else if t == "right"@ {
        Some(KeyEvent { modifiers: Modifiers::Plain, code: KeyCode::Right })
    } else if t == "enter"@ {
        Some(KeyEvent { modifiers: Modifiers::Plain, code: KeyCode::Enter })
    } else if t == "esc"@ {
        Some(KeyEvent { modifiers: Modifiers::Plain, code: KeyCode::Esc })
    } else if t.len() == 1 {
        Some(KeyEvent { modifiers: Modifiers::Plain, code: KeyCode::Char(t[0]) })
    } else if t.len() == 6 && t.subrange(0, 5) == "ctrl+"@ {
        Some(KeyEvent { modifiers: Modifiers::Control, code: KeyCode::Char(t[5]) })
    } else {
        None
    }
}

/// The request each command of the key bindings names.
pub open spec fn command_named(n: Seq<char>) -> Option<Action> {
    if n == "play_pause"@ {
        Some(Action::PlayPause)
    } else if n == "stop"@ {
        Some(Action::Stop)
    } else if n == "next"@ {
        Some(Action::Next)
    } else if n == "previous"@ {
        Some(Action::Previous)
    } else if n == "volume_up"@ {
        Some(Action::VolumeUp)
    } else if n == "volume_down"@ {
        Some(Action::VolumeDown)
    } else if n == "seek_forward"@ {
        Some(Action::SeekForward(5))
    } else if n == "seek_backward"@ {
        Some(Action::SeekBackward(5))
    } else if n == "search"@ {
        Some(Action::FocusSearch)
    } else if n == "command_palette"@ {
        Some(Action::CommandPalette)
    } else if n == "help"@ {
        Some(Action::Help)
    } else if n == "quit"@ {
        Some(Action::Quit)
    } else if n == "enter"@ {
        Some(Action::Enter)
    } else if n == "escape"@ {
        Some(Action::Back)
    } else if n == "delete"@ {
        Some(Action::Delete)
    } else if n == "toggle_sidebar"@ {
        Some(Action::ToggleSidebar)
    } else if n == "focus_search"@ {
        Some(Action::FocusSearch)
    } else if n == "queue"@ {
        Some(Action::ShowQueue)
    } else if n == "save_playlist"@ {
        Some(Action::SavePlaylist)
    } else if n == "toggle_shuffle"@ {
        Some(Action::ToggleShuffle)
    } else if n == "toggle_repeat"@ {
        Some(Action::ToggleRepeat)
    } else {
        None
    }
}

/// The controls the player documents for its users: each key, as the key
/// bindings write it, with what it does.
pub open spec fn documented_controls() -> Seq<(Seq<char>, Action)> {
    seq![
        ("/"@, Action::FocusSearch),
        ("enter"@, Action::Enter),
        ("esc"@, Action::Back),
        ("j"@, Action::SelectNext),
        ("k"@, Action::SelectPrevious),
        ("space"@, Action::PlayPause),
        ("h"@, Action::Previous),
        ("l"@, Action::Next),
        ("left"@, Action::SeekBackward(5)),
        ("right"@, Action::SeekForward(5)),
        ("up"@, Action::VolumeUp),
        ("down"@, Action::VolumeDown),
        ("z"@, Action::ToggleShuffle),
        ("x"@, Action::ToggleRepeat),
        ("ctrl+q"@, Action::ShowQueue),
        ("ctrl+b"@, Action::ToggleSidebar),
        ("?"@, Action::Help),
        ("q"@, Action::Quit),
    ]
}

/// The keys do what the player documents: each default key binding, read as
/// a key, asks for the request its command names (only "delete", which
/// names a key the player does not read, is left out), and each control of
/// the user documentation asks for what the documentation says it does.
pub proof fn lemma_keys_do_what_is_documented(i: int)
    requires
        0 <= i,
    ensures
        i < default_keys().len() && default_keys()[i].1 != "delete"@ ==> (key_named(default_keys()[i].1) matches Some(
            e,
        ) && command_named(default_keys()[i].0) == Some(key_action(e))),
        i < documented_controls().len() ==> (key_named(documented_controls()[i].0) matches Some(e) && key_action(e)
            == documented_controls()[i].1),
{
    reveal_strlit("/");
    reveal_strlit("?");
    reveal_strlit("command_palette");
    reveal_strlit("ctrl+");
    reveal_strlit("ctrl+b");
    reveal_strlit("ctrl+k");
    reveal_strlit("ctrl+p");
    reveal_strlit("ctrl+q");
    reveal_strlit("ctrl+s");
    reveal_strlit("delete");
    reveal_strlit("down");
    reveal_strlit("enter");
    reveal_strlit("esc");
    reveal_strlit("escape");
    reveal_strlit("focus_search");
    reveal_strlit("h");
    reveal_strlit("help");
    reveal_strlit("j");
    reveal_strlit("k");
    reveal_strlit("l");
    reveal_strlit("left");
    reveal_strlit("next");
    reveal_strlit("play_pause");
    reveal_strlit("previous");
    reveal_strlit("q");
    reveal_strlit("queue");
    reveal_strlit("quit");
    reveal_strlit("right");
    reveal_strlit("s");
    reveal_strlit("save_playlist");
    reveal_strlit("search");
    reveal_strlit("seek_backward");
    reveal_strlit("seek_forward");
    reveal_strlit("space");
    reveal_strlit("stop");
    reveal_strlit("toggle_repeat");
    reveal_strlit("toggle_shuffle");
    reveal_strlit("toggle_sidebar");
    reveal_strlit("up");
    reveal_strlit("volume_down");
    reveal_strlit("volume_up");
    reveal_strlit("x");
    reveal_strlit("z");
    assert("/"@.len() == 1);
    assert("?"@.len() == 1);
    assert("command_palette"@.len() == 15);
    assert("ctrl+"@.len() == 5);
    assert("ctrl+b"@.len() == 6);
    assert("ctrl+k"@.len() == 6);
    assert("ctrl+p"@.len() == 6);
    assert("ctrl+q"@.len() == 6);
    assert("ctrl+s"@.len() == 6);
    assert("delete"@.len() == 6);
    assert("down"@.len() == 4);
    assert("enter"@.len() == 5);
    assert("esc"@.len() == 3);
    assert("escape"@.len() == 6);
    assert("focus_search"@.len() == 12);
    assert("h"@.len() == 1);
    assert("help"@.len() == 4);
    assert("j"@.len() == 1);
    assert("k"@.len() == 1);
    assert("l"@.len() == 1);
    assert("left"@.len() == 4);
    assert("next"@.len() == 4);
    assert("play_pause"@.len() == 10);
    assert("previous"@.len() == 8);
    assert("q"@.len() == 1);
    assert("queue"@.len() == 5);
    assert("quit"@.len() == 4);
    assert("right"@.len() == 5);
    assert("s"@.len() == 1);
    assert("save_playlist"@.len() == 13);
    assert("search"@.len() == 6);
    assert("seek_backward"@.len() == 13);
    assert("seek_forward"@.len() == 12);
    assert("space"@.len() == 5);
    assert("stop"@.len() == 4);
    assert("toggle_repeat"@.len() == 13);
    assert("toggle_shuffle"@.len() == 14);
    assert("toggle_sidebar"@.len() == 14);
    assert("up"@.len() == 2);
    assert("volume_down"@.len() == 11);
    assert("volume_up"@.len() == 9);
    assert("x"@.len() == 1);
    assert("z"@.len() == 1);
    assert("/"@[0] == '/');
    assert("?"@[0] == '?');
    assert("h"@[0] == 'h');
    assert("j"@[0] == 'j');
    assert("k"@[0] == 'k');
    assert("l"@[0] == 'l');
    assert("q"@[0] == 'q');
    assert("s"@[0] == 's');
    assert("x"@[0] == 'x');
    assert("z"@[0] == 'z');
    assert("ctrl+"@[0] == 'c');
    assert("enter"@[0] == 'e');
    assert("queue"@[0] == 'q');
    assert("right"@[0] == 'r');
    assert("space"@[0] == 's');
    assert("ctrl+b"@[5] == 'b');
    assert("ctrl+k"@[5] == 'k');
    assert("ctrl+p"@[5] == 'p');
    assert("ctrl+q"@[5] == 'q');
    assert("ctrl+s"@[5] == 's');
    assert("ctrl+b"@[0] == 'c');
    assert("delete"@[0] == 'd');
    assert("escape"@[0] == 'e');
    assert("search"@[0] == 's');
    assert("ctrl+k"@[0] == 'c');
    assert("ctrl+p"@[0] == 'c');
    assert("ctrl+q"@[0] == 'c');
    assert("ctrl+s"@[0] == 'c');
    assert("down"@[0] == 'd');
    assert("help"@[0] == 'h');
    assert("left"@[0] == 'l');
    assert("next"@[0] == 'n');
    assert("quit"@[0] == 'q');
    assert("stop"@[0] == 's');
    assert("focus_search"@[0] == 'f');
    assert("seek_forward"@[0] == 's');
    assert("save_playlist"@[1] == 'a');
    assert("seek_backward"@[1] == 'e');
    assert("save_playlist"@[0] == 's');
    assert("toggle_repeat"@[0] == 't');
    assert("seek_backward"@[0] == 's');
    assert("toggle_shuffle"@[8] == 'h');
    assert("toggle_sidebar"@[8] == 'i');
    assert("ctrl+b"@.subrange(0, 5) =~= "ctrl+"@);
    assert("ctrl+k"@.subrange(0, 5) =~= "ctrl+"@);
    assert("ctrl+p"@.subrange(0, 5) =~= "ctrl+"@);
    assert("ctrl+q"@.subrange(0, 5) =~= "ctrl+"@);
    assert("ctrl+s"@.subrange(0, 5) =~= "ctrl+"@);
    if i == 0 {
    } else if i == 1 {
    } else if i == 2 {
    } else if i == 3 {
    } else if i == 4 {
    } else if i == 5 {
    } else if i == 6 {
    } else if i == 7 {
    } else if i == 8 {
    } else if i == 9 {
    } else if i == 10 {
    } else if i == 11 {
    } else if i == 12 {
    } else if i == 13 {
    } else if i == 14 {
    } else if i == 15 {
    } else if i == 16 {
    } else if i == 17 {
    } else if i == 18 {
    } else if i == 19 {
    } else if i == 20 {
    }
}

pub fn handle_key(event: KeyEvent) -> (a: Action)
    ensures
        a == key_action(event),
{
    match (event.modifiers, event.code) {
        (Modifiers::Plain, KeyCode::Char(' ')) => Action::PlayPause,
        (Modifiers::Plain, KeyCode::Char('q')) => Action::Quit,
        (Modifiers::Plain, KeyCode::Char('s')) => Action::Stop,
        (Modifiers::Plain, KeyCode::Char('h')) => Action::Previous,
        (Modifiers::Plain, KeyCode::Char('l')) => Action::Next,
        (Modifiers::Plain, KeyCode::Char('j')) => Action::SelectNext,
        (Modifiers::Plain, KeyCode::Char('k')) => Action::SelectPrevious,
        (Modifiers::Plain, KeyCode::Char('z')) => Action::ToggleShuffle,
        (Modifiers::Plain, KeyCode::Char('x')) => Action::ToggleRepeat,
        (Modifiers::Plain, KeyCode::Char('/')) => Action::FocusSearch,
        (Modifiers::Plain, KeyCode::Char('?')) => Action::Help,
        (Modifiers::Plain, KeyCode::Up) => Action::VolumeUp,
        (Modifiers::Plain, KeyCode::Down) => Action::VolumeDown,
        (Modifiers::Plain, KeyCode::Left) => Action::SeekBackward(SEEK_STEP_SECS),
        (Modifiers::Plain, KeyCode::Right) => Action::SeekForward(SEEK_STEP_SECS),
        (Modifiers::Plain, KeyCode::Enter) => Action::Enter,
        (Modifiers::Plain, KeyCode::Esc) => Action::Back,
        (Modifiers::Plain, KeyCode::Backspace) => Action::Delete,
        (Modifiers::Plain, KeyCode::Tab) => Action::SelectNext,
        (Modifiers::Shift, KeyCode::BackTab) => Action::SelectPrevious,
        (Modifiers::Shift, KeyCode::Tab) => Action::SelectPrevious,
        (Modifiers::Control, KeyCode::Char('b')) => Action::ToggleSidebar,
        (Modifiers::Control, KeyCode::Char('q')) => Action::ShowQueue,
        (Modifiers::Control, KeyCode::Char('s')) => Action::SavePlaylist,
        (Modifiers::Control, KeyCode::Char('k')) => Action::FocusSearch,
        (Modifiers::Control, KeyCode::Char('p')) => Action::CommandPalette,
        _ => Action::NoOp,
    }
}

/// What each mouse event asks.
pub open spec fn mouse_action(event: MouseEvent) -> Action {
    match event.kind {
        MouseKind::LeftDown => Action::MouseClick(event.column, event.row),
        MouseKind::RightDown => Action::RightClick(event.column, event.row),
        MouseKind::LeftDrag => Action::MouseDrag(event.column, event.row),
        MouseKind::ScrollUp => Action::ScrollUp(event.column, event.row),
        MouseKind::ScrollDown => Action::ScrollDown(event.column, event.row),
        _ => Action::NoOp,
    }
}

pub fn handle_mouse(event: MouseEvent) -> (a: Action)
    ensures
        a == mouse_action(event),
{
    match event.kind {
        MouseKind::LeftDown => Action::MouseClick(event.column, event.row),
        MouseKind::RightDown => Action::RightClick(event.column, event.row),
        MouseKind::OtherDown => Action::NoOp,
        MouseKind::LeftDrag => Action::MouseDrag(event.column, event.row),
        MouseKind::ScrollUp => Action::ScrollUp(event.column, event.row),
        MouseKind::ScrollDown => Action::ScrollDown(event.column, event.row),
        MouseKind::Other => Action::NoOp,
    }
}

/// The name shown for each action.
pub open spec fn action_name(action: Action) -> Seq<char> {
    match action {
        Action::PlayPause => "Play/Pause"@,
        Action::Stop => "Stop"@,
        Action::Next => "Next Track"@,
        Action::Previous => "Previous Track"@,
        Action::VolumeUp => "Volume Up"@,
        Action::VolumeDown => "Volume Down"@,
        Action::SeekForward(_) => "Seek Forward"@,
        Action::SeekBackward(_) => "Seek Backward"@,
        Action::Search => "Search"@,
        Action::CommandPalette => "Command Palette"@,
        Action::Help => "Help"@,
        Action::Quit => "Quit"@,
        Action::Enter => "Confirm"@,
        Action::Back => "Go Back"@,
        Action::Delete => "Delete"@,
        Action::ToggleSidebar => "Toggle Sidebar"@,
        Action::FocusSearch => "Focus Search"@,
        Action::ShowQueue => "Show Queue"@,
        Action::SavePlaylist => "Save Playlist"@,
        Action::ToggleShuffle => "Toggle Shuffle"@,
        Action::ToggleRepeat => "Toggle Repeat"@,
        Action::SelectNext => "Next Item"@,
        Action::SelectPrevious => "Previous Item"@,
        Action::ScrollUp(_, _) => "Scroll Up"@,
        Action::ScrollDown(_, _) => "Scroll Down"@,
        Action::MouseClick(_, _) => "Click"@,
        Action::MouseDoubleClick(_, _) => "Double Click"@,
        Action::MouseDrag(_, _) => "Drag"@,
        Action::RightClick(_, _) => "Right Click"@,
        Action::Resize(_, _) => "Resize"@,
        Action::Tick => "Tick"@,
        Action::NoOp => ""@,
    }
}

pub fn format_action(action: &Action) -> (s: &'static str)
    ensures
        s@ == action_name(*action),
{
    match action {
        Action::PlayPause => "Play/Pause",
        Action::Stop => "Stop",
        Action::Next => "Next Track",
        Action::Previous => "Previous Track",
        Action::VolumeUp => "Volume Up",
        Action::VolumeDown => "Volume Down",
        Action::SeekForward(_) => "Seek Forward",
        Action::SeekBackward(_) => "Seek Backward",
        Action::Search => "Search",
        Action::CommandPalette => "Command Palette",
        Action::Help => "Help",
        Action::Quit => "Quit",
        Action::Enter => "Confirm",
        Action::Back => "Go Back",
        Action::Delete => "Delete",
        Action::ToggleSidebar => "Toggle Sidebar",
        Action::FocusSearch => "Focus Search",
        Action::ShowQueue => "Show Queue",
        Action::SavePlaylist => "Save Playlist",
        Action::ToggleShuffle => "Toggle Shuffle",
        Action::ToggleRepeat => "Toggle Repeat",
        Action::SelectNext => "Next Item",
        Action::SelectPrevious => "Previous Item",
        Action::ScrollUp(_, _) => "Scroll Up",
        Action::ScrollDown(_, _) => "Scroll Down",
        Action::MouseClick(_, _) => "Click",
        Action::MouseDoubleClick(_, _) => "Double Click",
        Action::MouseDrag(_, _) => "Drag",
        Action::RightClick(_, _) => "Right Click",
        Action::Resize(_, _) => "Resize",
        Action::Tick => "Tick",
        Action::NoOp => "",
    }
}

} // verus!
