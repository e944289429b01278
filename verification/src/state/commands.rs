//! What the requests of the user do: which command each one asks for, and
//! the changes to the state that need no playback or search. Carrying out the
//! commands that play, search or draw is left to the program's event loop,
//! which hands back what happened as events.

use vstd::prelude::*;
use vstd::string::*;

use crate::state::{find_track, lookup_track, navigated_back, navigated_to, scroll_fits, scrolled, selected_after_next, AppState};
use crate::types::{PlaybackState, PlaybackStatus, ProviderId, RepeatMode, Screen, SearchResults, ShuffleMode, Track, TrackId};
use crate::ui::input::{Action, KeyCode, KeyEvent, Modifiers, MouseEvent};
use crate::provider::catalog::chars_of;
use crate::text::{push_char, text_of};

verus! {

/// What the event loop carries out for a request.
#[derive(Debug, Clone, Copy, PartialEq, Eq, Structural)]
pub enum Command {
    Quit,
    PlayPause,
    Stop,
    Next,
    Previous,
    VolumeUp,
    VolumeDown,
    /// Seek forward by whole seconds.
    SeekForward(u64),
    /// Seek backward by whole seconds.
    SeekBackward(u64),
    FocusSearch,
    Enter,
    Back,
    ToggleSidebar,
    SelectNext,
    SelectPrevious,
    ToggleShuffle,
    ToggleRepeat,
    ShowQueue,
    Help,
    /// A click at a column and row.
    Click(u16, u16),
    /// Removes the last character typed into the search field.
    DeleteChar,
    Nothing,
}

/// The command a request asks for. Scrolling moves the selection; the
/// search key and the search field both focus the search.
pub open spec fn command_of(action: Action) -> Command {
    match action {
        Action::Quit => Command::Quit,
        Action::PlayPause => Command::PlayPause,
        Action::Stop => Command::Stop,
        Action::Next => Command::Next,
        Action::Previous => Command::Previous,
        Action::VolumeUp => Command::VolumeUp,
        Action::VolumeDown => Command::VolumeDown,
        Action::SeekForward(s) => Command::SeekForward(s),
        Action::SeekBackward(s) => Command::SeekBackward(s),
        Action::Search => Command::FocusSearch,
        Action::FocusSearch => Command::FocusSearch,
        Action::Enter => Command::Enter,
        Action::Back => Command::Back,
        Action::ToggleSidebar => Command::ToggleSidebar,
        Action::SelectNext => Command::SelectNext,
        Action::SelectPrevious => Command::SelectPrevious,
        Action::ScrollUp(_, _) => Command::SelectPrevious,
        Action::ScrollDown(_, _) => Command::SelectNext,
        Action::ToggleShuffle => Command::ToggleShuffle,
        Action::ToggleRepeat => Command::ToggleRepeat,
        Action::ShowQueue => Command::ShowQueue,
        Action::Help => Command::Help,
        Action::MouseClick(x, y) => Command::Click(x, y),
        Action::Delete => Command::DeleteChar,
        _ => Command::Nothing,
    }
}

/// The command a request asks for.
pub fn command_for(action: Action) -> (c: Command)
    ensures
        c == command_of(action),
{
    match action {
        Action::Quit => Command::Quit,
        Action::PlayPause => Command::PlayPause,
        Action::Stop => Command::Stop,
        Action::Next => Command::Next,
        Action::Previous => Command::Previous,
        Action::VolumeUp => Command::VolumeUp,
        Action::VolumeDown => Command::VolumeDown,
        Action::SeekForward(s) => Command::SeekForward(s),
        Action::SeekBackward(s) => Command::SeekBackward(s),
        Action::Search => Command::FocusSearch,
        Action::FocusSearch => Command::FocusSearch,
        Action::Enter => Command::Enter,
        Action::Back => Command::Back,
        Action::ToggleSidebar => Command::ToggleSidebar,
        Action::SelectNext => Command::SelectNext,
        Action::SelectPrevious => Command::SelectPrevious,
        Action::ScrollUp(_, _) => Command::SelectPrevious,
        Action::ScrollDown(_, _) => Command::SelectNext,
        Action::ToggleShuffle => Command::ToggleShuffle,
        Action::ToggleRepeat => Command::ToggleRepeat,
        Action::ShowQueue => Command::ShowQueue,
        Action::Help => Command::Help,
        Action::MouseClick(x, y) => Command::Click(x, y),
        Action::Delete => Command::DeleteChar,
        _ => Command::Nothing,
    }
}

/// What Enter asks for: a search for a text, a track to play, or nothing.
#[derive(Debug, Clone)]
pub enum EnterOutcome {
    Search(String),
    Play(TrackId),
    Nothing,
}

/// The id of the selected track of the current list, where the list holds
/// tracks and the selection stands in it.
pub open spec fn selected_track(s: AppState) -> Option<Seq<char>> {
    let i = s.selected_index as int;
    match s.current_screen {
        Screen::Search => if i < s.search_results.tracks@.len() {
            Some(s.search_results.tracks@[i].id@)
        } else {
            None
        },
        Screen::Library => if i < s.library.tracks@.len() {
            Some(s.library.tracks@[i].id@)
        } else {
            None
        },
        Screen::Queue => if i < s.queue@.len() {
            Some(s.queue@[i]@)
        } else {
            None
        },
        _ => None,
    }
}

/// What Enter asks for, by its view: in the focused search field it submits
/// the search text (nothing when it is empty); elsewhere it plays the
/// selected track; on the search screen with no track selected it submits the
/// search text.
pub open spec fn enter_request(s: AppState) -> Option<(bool, Seq<char>)> {
    let submit = if s.search_query@.len() > 0 {
        Some((true, s.search_query@))
    } else {
        None
    };
    if s.current_screen == Screen::Search && s.search_focused {
        submit
    } else {
        match selected_track(s) {
            Some(id) => Some((false, id)),
            None => if s.current_screen == Screen::Search {
                submit
            } else {
                None
            },
        }
    }
}

/// A key typed into the focused search field: a character with no modifier
/// but Shift.
pub open spec fn typed(event: KeyEvent, search_focused: bool) -> Option<char> {
    if search_focused {
        match event.code {
            KeyCode::Char(c) => if event.modifiers == Modifiers::Plain || event.modifiers == Modifiers::Shift {
                Some(c)
            } else {
                None
            },
            _ => None,
        }
    } else {
        None
    }
}

/// The character a key types into the search field, where it types one.
pub fn typed_char(event: KeyEvent, search_focused: bool) -> (c: Option<char>)
    ensures
        c == typed(event, search_focused),
{
    if !search_focused {
        return None;
    }
    match event.code {
        KeyCode::Char(c) => match event.modifiers {
            Modifiers::Plain | Modifiers::Shift => Some(c),
            _ => None,
        },
        _ => None,
    }
}

/// What happens while the player runs.
#[derive(Debug, Clone)]
pub enum AppEvent {
    Tick,
    Key(KeyEvent),
    Mouse(MouseEvent),
    Resize(u16, u16),
    PlaybackUpdate(PlaybackState),
    TrackChanged(TrackId),
    PlaybackFinished,
    SearchComplete(SearchResults),
    ProviderChanged(ProviderId),
    Notification(String),
    Error(String),
}

/// Where a seek of `secs` seconds from `position_ms` lands, in milliseconds:
/// forward no further than the end, backward no further than the start.
pub open spec fn seek_landing(position_ms: nat, duration_ms: nat, forward: bool, secs: nat) -> nat {
    if forward {
        if position_ms + secs * 1000 < duration_ms {
            position_ms + secs * 1000
        } else {
            duration_ms
        }
    } else if secs * 1000 < position_ms {
        (position_ms - secs * 1000) as nat
    } else {
        0
    }
}

/// Where a seek lands, in milliseconds.
pub fn seek_target(position_ms: u64, duration_ms: u64, forward: bool, secs: u64) -> (t: u64)
    ensures
        t == seek_landing(position_ms as nat, duration_ms as nat, forward, secs as nat),
{
    let step: u128 = secs as u128 * 1000;
    if forward {
        let end: u128 = position_ms as u128 + step;
        if end < duration_ms as u128 {
            end as u64
        } else {
            duration_ms
        }
    } else if step < position_ms as u128 {
        (position_ms as u128 - step) as u64
    } else {
        0
    }
}

/// A seek never leaves the track: from a position within it, it lands
/// within it.
pub proof fn lemma_seek_stays_in_track(position_ms: nat, duration_ms: nat, forward: bool, secs: nat)
    requires
        position_ms <= duration_ms,
    ensures
        seek_landing(position_ms, duration_ms, forward, secs) <= duration_ms,
        forward ==> seek_landing(position_ms, duration_ms, forward, secs) >= position_ms,
        !forward ==> seek_landing(position_ms, duration_ms, forward, secs) <= position_ms,
{
}

impl AppState {
    /// How many rows the list of the current screen has, at least one.
    pub open spec fn list_size(&self) -> nat {
        let n = match self.current_screen {
            Screen::Search => self.search_results.tracks@.len(),
            Screen::Library => self.library.tracks@.len(),
            Screen::Albums => self.library.albums@.len(),
            Screen::AlbumDetail(_) => self.library.albums@.len(),
            Screen::Artists => self.library.artists@.len(),
            Screen::ArtistDetail(_) => self.library.artists@.len(),
            Screen::Playlists => self.library.playlists@.len(),
            Screen::PlaylistDetail(_) => self.library.playlists@.len(),
            Screen::Queue => self.queue@.len(),
            _ => 0,
        };
        if n < 1 {
            1
        } else {
            n
        }
    }

    /// How many rows the list of the current screen has, at least one.
    pub fn list_len(&self) -> (n: usize)
        ensures
            n == self.list_size(),
    {
        let n = match &self.current_screen {
            Screen::Search => self.search_results.tracks.len(),
            Screen::Library => self.library.tracks.len(),
            Screen::Albums => self.library.albums.len(),
            Screen::AlbumDetail(_) => self.library.albums.len(),
            Screen::Artists => self.library.artists.len(),
            Screen::ArtistDetail(_) => self.library.artists.len(),
            Screen::Playlists => self.library.playlists.len(),
            Screen::PlaylistDetail(_) => self.library.playlists.len(),
            Screen::Queue => self.queue.len(),
            _ => 0,
        };
        if n < 1 {
            1
        } else {
            n
        }
    }

    /// Whether `select_next_item` can move the selection and scroll without
    /// leaving the machine's integers.
    pub fn can_select_next(&self) -> (b: bool)
        ensures
            b == (self.selected_index < usize::MAX && scroll_fits(
                selected_after_next(self.selected_index as int, self.list_size() as int),
                self.scroll_offset as int,
            )),
    {
        if self.selected_index == usize::MAX {
            return false;
        }
        let max = self.list_len();
        let next = if self.selected_index + 1 < max - 1 {
            self.selected_index + 1
        } else {
            max - 1
        };
        next < self.scroll_offset || self.scroll_offset <= usize::MAX - 20
    }

    /// Whether `select_previous_item` can scroll without leaving the
    /// machine's integers.
    pub fn can_select_previous(&self) -> (b: bool)
        ensures
            b == (self.selected_index > 0 ==> scroll_fits(self.selected_index - 1, self.scroll_offset as int)),
    {
        self.selected_index == 0 || self.selected_index - 1 < self.scroll_offset || self.scroll_offset
            <= usize::MAX - 20
    }

    /// Moves the selection down in the current list and leaves the sidebar.
    pub fn select_next_item(&mut self)
        requires
            old(self).selected_index < usize::MAX,
            scroll_fits(
                selected_after_next(old(self).selected_index as int, old(self).list_size() as int),
                old(self).scroll_offset as int,
            ),
        ensures
            !final(self).sidebar_focused,
            final(self).selected_index == selected_after_next(
                old(self).selected_index as int,
                old(self).list_size() as int,
            ),
            final(self).scroll_offset == scrolled(final(self).selected_index as int, old(self).scroll_offset as int),
            final(self).current_screen == old(self).current_screen,
            final(self).screen_history == old(self).screen_history,
            final(self).queue == old(self).queue,
            final(self).playback == old(self).playback,
    {
        self.sidebar_focused = false;
        let max = self.list_len();
        self.select_next(max);
    }

    /// Moves the selection up in the current list and leaves the sidebar.
    pub fn select_previous_item(&mut self)
        requires
            old(self).selected_index > 0 ==> scroll_fits(old(self).selected_index - 1, old(self).scroll_offset as int),
        ensures
            !final(self).sidebar_focused,
            old(self).selected_index > 0 ==> final(self).selected_index == old(self).selected_index - 1
                && final(self).scroll_offset == scrolled(final(self).selected_index as int, old(self).scroll_offset as int),
            old(self).selected_index == 0 ==> final(self).selected_index == 0 && final(self).scroll_offset == old(
                self,
            ).scroll_offset,
            final(self).current_screen == old(self).current_screen,
            final(self).screen_history == old(self).screen_history,
            final(self).queue == old(self).queue,
            final(self).playback == old(self).playback,
    {
        self.sidebar_focused = false;
        let max = self.list_len();
        self.select_previous(max);
    }

    /// Opens or closes the search field; opening it shows the search screen.
    pub fn focus_search(&mut self)
        ensures
            final(self).search_focused == !old(self).search_focused,
            final(self).search_focused ==> (final(self).current_screen, final(self).screen_history@) == navigated_to(
                old(self).current_screen,
                old(self).screen_history@,
                Screen::Search,
            ),
            !final(self).search_focused ==> final(self).current_screen == old(self).current_screen
                && final(self).screen_history == old(self).screen_history,
            final(self).queue == old(self).queue,
            final(self).playback == old(self).playback,
    {
        self.search_focused = !self.search_focused;
        if self.search_focused {
            self.navigate_to(Screen::Search);
        }
    }

    /// Closes the search field where it is open; otherwise goes back a screen.
    pub fn go_back(&mut self)
        ensures
            old(self).search_focused ==> !final(self).search_focused && final(self).current_screen == old(
                self,
            ).current_screen && final(self).screen_history == old(self).screen_history,
            !old(self).search_focused ==> !final(self).search_focused && (
            final(self).current_screen,
            final(self).screen_history@,
            ) == navigated_back(old(self).current_screen, old(self).screen_history@),
            final(self).queue == old(self).queue,
            final(self).playback == old(self).playback,
    {
        if self.search_focused {
            self.search_focused = false;
        } else {
            self.navigate_back();
        }
    }

    /// Records that playback stopped: nothing plays, at the start.
    pub fn playback_stopped(&mut self)
        ensures
            final(self).playback.status == PlaybackStatus::Stopped,
            final(self).playback.position_ms == 0,
            final(self).playback.current_track_id is None,
            final(self).playback.duration_ms == old(self).playback.duration_ms,
            final(self).playback.repeat == old(self).playback.repeat,
            final(self).playback.shuffle == old(self).playback.shuffle,
            final(self).queue == old(self).queue,
            final(self).current_screen == old(self).current_screen,
    {
        self.playback.status = PlaybackStatus::Stopped;
        self.playback.position_ms = 0;
        self.playback.current_track_id = None;
    }

    /// Records that `track_id` started to play from the start, with the queue
    /// as it now stands; tells whether the track is among the remembered
    /// tracks already.
    pub fn playback_started(&mut self, track_id: TrackId, queue: Vec<TrackId>, queue_index: Option<usize>) -> (cached:
        bool)
        ensures
            *final(self) == (AppState {
                playback: (PlaybackState {
                    status: PlaybackStatus::Playing,
                    current_track_id: Some(track_id),
                    position_ms: 0,
                    ..old(self).playback
                }),
                queue: queue,
                queue_index: queue_index,
                ..*old(self)
            }),
            cached == find_track(old(self).track_cache@, track_id@) is Some,
    {
        let cached = lookup_track(&self.track_cache, &track_id).is_some();
        self.playback.status = PlaybackStatus::Playing;
        self.playback.current_track_id = Some(track_id);
        self.playback.position_ms = 0;
        self.queue = queue;
        self.queue_index = queue_index;
        cached
    }

    /// Remembers `track` after the tracks remembered before.
    pub fn remember_track(&mut self, track: Track)
        ensures
            *final(self) == (AppState { track_cache: final(self).track_cache, ..*old(self) }),
            final(self).track_cache@ == old(self).track_cache@.push(track),
    {
        self.track_cache.push(track);
    }

    /// What Enter asks for in this state.
    pub fn enter_outcome(&self) -> (r: EnterOutcome)
        ensures
            match enter_request(*self) {
                Some((true, q)) => r matches EnterOutcome::Search(t) && t@ == q,
                Some((false, id)) => r matches EnterOutcome::Play(t) && t@ == id,
                None => r is Nothing,
            },
    {
        let on_search = match self.current_screen {
            Screen::Search => true,
            _ => false,
        };
        let submit = !self.search_query.as_str().is_empty();
        if on_search && self.search_focused {
            return if submit {
                EnterOutcome::Search(self.search_query.clone())
            } else {
                EnterOutcome::Nothing
            };
        }
        let i = self.selected_index;
        let selected: Option<TrackId> = match self.current_screen {
            Screen::Search => if i < self.search_results.tracks.len() {
                Some(self.search_results.tracks[i].id.clone())
            } else {
                None
            },
            Screen::Library => if i < self.library.tracks.len() {
                Some(self.library.tracks[i].id.clone())
            } else {
                None
            },
            Screen::Queue => if i < self.queue.len() {
                Some(self.queue[i].clone())
            } else {
                None
            },
            _ => None,
        };
        match selected {
            Some(id) => EnterOutcome::Play(id),
            None => if on_search && submit {
                EnterOutcome::Search(self.search_query.clone())
            } else {
                EnterOutcome::Nothing
            },
        }
    }

    /// Types `c` into the search field where it is focused; otherwise
    /// nothing changes.
    pub fn type_char(&mut self, c: char)
        ensures
            old(self).search_focused ==> *final(self) == (AppState {
                search_query: final(self).search_query,
                ..*old(self)
            }) && final(self).search_query@ == old(self).search_query@.push(c),
            !old(self).search_focused ==> *final(self) == *old(self),
    {
        if self.search_focused {
            push_char(&mut self.search_query, c);
        }
    }

    /// Removes the last character of the search field where it is focused
    /// and not empty; otherwise nothing changes.
    pub fn delete_char(&mut self)
        ensures
            old(self).search_focused && old(self).search_query@.len() > 0 ==> *final(self) == (AppState {
                search_query: final(self).search_query,
                ..*old(self)
            }) && final(self).search_query@ == old(self).search_query@.drop_last(),
            !(old(self).search_focused && old(self).search_query@.len() > 0) ==> *final(self) == *old(self),
    {
        if self.search_focused {
            let chars = chars_of(self.search_query.as_str());
            if chars.len() > 0 {
                let kept = text_of(&chars, 0, chars.len() - 1);
                assert(kept@ =~= old(self).search_query@.drop_last());
                self.search_query = kept;
            }
        }
    }

    /// Records the shuffle mode and tells the user "Shuffle: <mode>".
    pub fn record_shuffle(&mut self, mode: ShuffleMode)
        ensures
            final(self).playback.shuffle == mode,
            final(self).notification matches Some((m, _)) && m@ == "Shuffle: "@ + (if mode == ShuffleMode::On {
                "On"@
            } else {
                "Off"@
            }),
            final(self).queue == old(self).queue,
            final(self).current_screen == old(self).current_screen,
    {
        self.playback.shuffle = mode;
        let mut m = String::from_str("Shuffle: ");
        m.append(mode.label());
        self.notify(m);
    }

    /// Records the repeat mode and tells the user "Repeat: <mode>".
    pub fn record_repeat(&mut self, mode: RepeatMode)
        ensures
            final(self).playback.repeat == mode,
            final(self).notification matches Some((m, _)) && m@ == "Repeat: "@ + (if mode == RepeatMode::Off {
                "Off"@
            } else if mode == RepeatMode::One {
                "One"@
            } else {
                "All"@
            }),
            final(self).queue == old(self).queue,
            final(self).current_screen == old(self).current_screen,
    {
        self.playback.repeat = mode;
        let mut m = String::from_str("Repeat: ");
        m.append(mode.label());
        self.notify(m);
    }

    /// Takes in what the event loop reports: a new track, a playback update,
    /// finished search results, a message or an error; other events change
    /// nothing here.
    pub fn apply_event(&mut self, event: AppEvent)
        ensures
            match event {
                AppEvent::TrackChanged(id) => *final(self) == (AppState {
                    playback: (PlaybackState { current_track_id: Some(id), ..old(self).playback }),
                    ..*old(self)
                }),
                AppEvent::PlaybackUpdate(pb) => *final(self) == (AppState { playback: pb, ..*old(self) }),
                AppEvent::SearchComplete(r) => *final(self) == (AppState {
                    search_results: r,
                    is_searching: false,
                    ..*old(self)
                }),
                AppEvent::Notification(m) => final(self).notification matches Some((n, _)) && n == m
                    && *final(self) == (AppState { notification: final(self).notification, ..*old(self) }),
                AppEvent::Error(m) => final(self).notification matches Some((n, _)) && n@ == "Error: "@ + m@
                    && *final(self) == (AppState { notification: final(self).notification, ..*old(self) }),
                _ => *final(self) == *old(self),
            },
            final(self).queue == old(self).queue,
            final(self).current_screen == old(self).current_screen,
    {
        match event {
            AppEvent::TrackChanged(id) => {
                self.playback.current_track_id = Some(id);
            },
            AppEvent::PlaybackUpdate(pb) => {
                self.playback = pb;
            },
            AppEvent::SearchComplete(r) => {
                self.search_results = r;
                self.is_searching = false;
            },
            AppEvent::Notification(m) => {
                self.notify(m);
            },
            AppEvent::Error(m) => {
                let mut s = String::from_str("Error: ");
                s.append(m.as_str());
                self.notify(s);
            },
            _ => {},
        }
    }
}

} // verus!
