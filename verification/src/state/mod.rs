//! The state the interface shows: the screen and its history, the search, the
//! queue as shown, what plays, the selection, and the last notification.

pub mod commands;

use vstd::prelude::*;

use crate::playback::queue::{index_after_move, index_after_remove, track_at};
use crate::types::{
    Album, Artist, Library, PlaybackState, Playlist, ProviderId, RepeatMode, Screen,
    SearchResults, Track, TrackId,
};

verus! {

/// `chrono::Utc::now().timestamp()`: the current time as whole seconds since
/// the Unix epoch. It depends on the clock, so nothing is stated of it.
#[verifier::external_body]
fn now_timestamp() -> i64 {
    chrono::Utc::now().timestamp()
}

/// How many rows of a list are visible at once.
pub const VISIBLE_ROWS: usize = 20;

/// The first track in `tracks` whose id is `id`.
pub open spec fn find_track(tracks: Seq<Track>, id: Seq<char>) -> Option<Track>
    decreases tracks.len(),
{
    if tracks.len() == 0 {
        None
    } else if tracks[0].id@ == id {
        Some(tracks[0])
    } else {
        find_track(tracks.drop_first(), id)
    }
}

/// Looks `id` up in `tracks`.
pub fn lookup_track<'a>(tracks: &'a Vec<Track>, id: &String) -> (r: Option<&'a Track>)
    ensures
        match r {
            Some(t) => find_track(tracks@, id@) == Some(*t),
            None => find_track(tracks@, id@) is None,
        },
{
    let n = tracks.len();
    let mut i: usize = 0;
    assert(tracks@.skip(0) =~= tracks@);
    while i < n
        invariant
            n == tracks@.len(),
            i <= n,
            find_track(tracks@.skip(i as int), id@) == find_track(tracks@, id@),
        decreases n - i,
    {
        assert(tracks@.skip(i as int).drop_first() =~= tracks@.skip(i as int + 1));
        if tracks[i].id == *id {
            return Some(&tracks[i]);
        }
        i = i + 1;
    }
    None
}

#[derive(Debug, Clone)]
pub struct AppState {
    pub current_screen: Screen,
    pub screen_history: Vec<Screen>,
    pub search_query: String,
    pub search_results: SearchResults,
    pub is_searching: bool,
    pub search_focused: bool,
    pub library: Library,
    pub queue: Vec<TrackId>,
    pub queue_index: Option<usize>,
    pub queue_history: Vec<TrackId>,
    pub playback: PlaybackState,
    pub active_provider: ProviderId,
    pub available_providers: Vec<ProviderId>,
    pub selected_index: usize,
    pub scroll_offset: usize,
    pub sidebar_focused: bool,
    /// The last message, with the Unix time in seconds at which it came.
    pub notification: Option<(String, i64)>,
    pub track_cache: Vec<Track>,
    pub album_cache: Vec<Album>,
    pub artist_cache: Vec<Artist>,
    pub playlist_cache: Vec<Playlist>,
}

impl Default for AppState {
    fn default() -> (s: Self)
        ensures
            s.current_screen == Screen::Home,
            s.screen_history@.len() == 0,
            s.search_query@.len() == 0,
            !s.is_searching,
            !s.search_focused,
            s.queue@.len() == 0,
            s.queue_index is None,
            s.queue_history@.len() == 0,
            s.playback.repeat == RepeatMode::Off,
            s.playback.current_track_id is None,
            s.active_provider@ == "mock"@,
            s.available_providers@.len() == 2,
            s.available_providers@[0]@ == "mock"@,
            s.available_providers@[1]@ == "local"@,
            s.selected_index == 0,
            s.scroll_offset == 0,
            s.sidebar_focused,
            s.notification is None,
            s.library.tracks@.len() == 0,
            s.track_cache@.len() == 0,
    {
        let mut providers: Vec<ProviderId> = Vec::new();
        providers.push(String::from_str("mock"));
        providers.push(String::from_str("local"));
        AppState {
            current_screen: Screen::Home,
            screen_history: Vec::new(),
            search_query: String::new(),
            search_results: SearchResults::empty(),
            is_searching: false,
            search_focused: false,
            library: Library::default(),
            queue: Vec::new(),
            queue_index: None,
            queue_history: Vec::new(),
            playback: PlaybackState::default(),
            active_provider: String::from_str("mock"),
            available_providers: providers,
            selected_index: 0,
            scroll_offset: 0,
            sidebar_focused: true,
            notification: None,
            track_cache: Vec::new(),
            album_cache: Vec::new(),
            artist_cache: Vec::new(),
            playlist_cache: Vec::new(),
        }
    }
}

/// Where navigating to `screen` leads: a different screen becomes current and
/// the one left goes on the history; the same screen changes nothing.
pub open spec fn navigated_to(current: Screen, history: Seq<Screen>, screen: Screen) -> (Screen, Seq<Screen>) {
    if current.same(screen) {
        (current, history)
    } else {
        (screen, history.push(current))
    }
}

/// Where navigating back leads: the last screen of the history comes back.
pub open spec fn navigated_back(current: Screen, history: Seq<Screen>) -> (Screen, Seq<Screen>) {
    if history.len() == 0 {
        (current, history)
    } else {
        (history.last(), history.drop_last())
    }
}

/// Going back after going to another screen returns to where one was.
pub proof fn lemma_back_undoes_navigate(current: Screen, history: Seq<Screen>, screen: Screen)
    requires
        !current.same(screen),
    ensures
        ({
            let (c, h) = navigated_to(current, history, screen);
            navigated_back(c, h)
        }) == (current, history),
{
    assert(history.push(current).drop_last() =~= history);
}

/// The scroll offset after the selection moved: the smallest change that
/// brings the selected row into the visible window.
pub open spec fn scrolled(selected: int, offset: int) -> int {
    if selected < offset {
        selected
    } else if selected >= offset + 20 {
        selected - 20 + 1
    } else {
        offset
    }
}

/// Whether the visible window below `offset` can be computed without leaving
/// the machine's integers.
pub open spec fn scroll_fits(selected: int, offset: int) -> bool {
    selected < offset || offset + 20 <= usize::MAX
}

/// After scrolling, the selected row lies in the visible window.
pub proof fn lemma_scroll_shows_selection(selected: int, offset: int)
    requires
        0 <= selected,
        0 <= offset,
    ensures
        scrolled(selected, offset) <= selected < scrolled(selected, offset) + 20,
        0 <= scrolled(selected, offset),
{
}

/// The selection after moving down in a list of `max` rows.
pub open spec fn selected_after_next(selected: int, max: int) -> int {
    if max > 0 {
        if selected + 1 < max - 1 {
            selected + 1
        } else {
            max - 1
        }
    } else {
        selected
    }
}

/// Moving the selection down advances it by exactly one row, unless it is
/// at or past the last row, where it rests on the last row.
pub proof fn lemma_select_next_steps_one(selected: int, max: int)
    requires
        0 <= selected,
        max > 0,
    ensures
        selected + 1 < max ==> selected_after_next(selected, max) == selected + 1,
        selected + 1 >= max ==> selected_after_next(selected, max) == max - 1,
        selected < max - 1 ==> selected_after_next(selected, max) - selected == 1,
        selected == max - 1 ==> selected_after_next(selected, max) == selected,
{
}

/// Moving the selection down never leaves a list of `max` rows.
pub proof fn lemma_select_next_in_list(selected: int, max: int)
    requires
        max > 0,
        0 <= selected,
    ensures
        0 <= selected_after_next(selected, max) < max,
{
}

impl AppState {
    /// Nothing but the navigation fields differs between `self` and `other`.
    pub open spec fn same_but_navigation(&self, other: &AppState) -> bool {
        &&& self.search_query == other.search_query
        &&& self.search_results == other.search_results
        &&& self.is_searching == other.is_searching
        &&& self.search_focused == other.search_focused
        &&& self.library == other.library
        &&& self.queue == other.queue
        &&& self.queue_index == other.queue_index
        &&& self.queue_history == other.queue_history
        &&& self.playback == other.playback
        &&& self.active_provider == other.active_provider
        &&& self.available_providers == other.available_providers
        &&& self.sidebar_focused == other.sidebar_focused
        &&& self.notification == other.notification
        &&& self.track_cache == other.track_cache
        &&& self.album_cache == other.album_cache
        &&& self.artist_cache == other.artist_cache
        &&& self.playlist_cache == other.playlist_cache
    }

    /// Nothing but the queue fields differs between `self` and `other`.
    pub open spec fn same_but_queue(&self, other: &AppState) -> bool {
        &&& self.current_screen == other.current_screen
        &&& self.screen_history == other.screen_history
        &&& self.selected_index == other.selected_index
        &&& self.scroll_offset == other.scroll_offset
        &&& self.search_query == other.search_query
        &&& self.search_results == other.search_results
        &&& self.is_searching == other.is_searching
        &&& self.search_focused == other.search_focused
        &&& self.library == other.library
        &&& self.playback == other.playback
        &&& self.active_provider == other.active_provider
        &&& self.available_providers == other.available_providers
        &&& self.sidebar_focused == other.sidebar_focused
        &&& self.notification == other.notification
        &&& self.track_cache == other.track_cache
        &&& self.album_cache == other.album_cache
        &&& self.artist_cache == other.artist_cache
        &&& self.playlist_cache == other.playlist_cache
    }

    pub fn new() -> (s: Self)
        ensures
            s.current_screen == Screen::Home,
            s.screen_history@.len() == 0,
            s.queue@.len() == 0,
            s.queue_index is None,
            s.selected_index == 0,
            s.scroll_offset == 0,
            s.notification is None,
    {
        AppState::default()
    }

    pub fn navigate_to(&mut self, screen: Screen)
        ensures
            (final(self).current_screen, final(self).screen_history@) == navigated_to(
                old(self).current_screen,
                old(self).screen_history@,
                screen,
            ),
            old(self).current_screen.same(screen) ==> final(self).selected_index == old(
                self,
            ).selected_index && final(self).scroll_offset == old(self).scroll_offset,
            !old(self).current_screen.same(screen) ==> final(self).selected_index == 0
                && final(self).scroll_offset == 0,
            final(self).same_but_navigation(old(self)),
    {
        if !self.current_screen.is_same(&screen) {
            let mut current = screen;
            std::mem::swap(&mut self.current_screen, &mut current);
            self.screen_history.push(current);
            self.selected_index = 0;
            self.scroll_offset = 0;
        }
    }

    pub fn navigate_back(&mut self)
        ensures
            (final(self).current_screen, final(self).screen_history@) == navigated_back(
                old(self).current_screen,
                old(self).screen_history@,
            ),
            old(self).screen_history@.len() == 0 ==> final(self).selected_index == old(
                self,
            ).selected_index && final(self).scroll_offset == old(self).scroll_offset,
            old(self).screen_history@.len() > 0 ==> final(self).selected_index == 0
                && final(self).scroll_offset == 0,
            final(self).same_but_navigation(old(self)),
    {
        if let Some(previous) = self.screen_history.pop() {
            self.current_screen = previous;
            self.selected_index = 0;
            self.scroll_offset = 0;
        }
    }

    pub fn can_navigate_back(&self) -> (b: bool)
        ensures
            b == (self.screen_history@.len() > 0),
    {
        !self.screen_history.is_empty()
    }

    /// The current position in the shown queue and its track, when the
    /// position is in the queue.
    pub fn current_track_in_queue(&self) -> (r: Option<(usize, &TrackId)>)
        ensures
            match r {
                Some((i, t)) => self.queue_index == Some(i) && i < self.queue@.len() && *t
                    == self.queue@[i as int],
                None => track_at(self.queue@, self.queue_index) is None,
            },
    {
        match self.queue_index {
            Some(i) => if i < self.queue.len() {
                Some((i, &self.queue[i]))
            } else {
                None
            },
            None => None,
        }
    }

    /// Moves to the next track of the shown queue and returns it. Without
    /// repeat the position stays at the last track when there is no next one.
    pub fn next_track(&mut self) -> (r: Option<TrackId>)
        requires
            old(self).playback.repeat != RepeatMode::One ==> match old(self).queue_index {
                Some(i) => i < usize::MAX,
                None => true,
            },
            old(self).playback.repeat == RepeatMode::All && old(self).queue_index is Some
                ==> old(self).queue@.len() > 0,
        ensures
            final(self).same_but_queue(old(self)),
            final(self).queue@ == old(self).queue@,
            final(self).queue_history@ == old(self).queue_history@,
            old(self).playback.repeat == RepeatMode::One ==> final(self).queue_index == old(
                self,
            ).queue_index && r == track_at(old(self).queue@, old(self).queue_index),
            old(self).playback.repeat == RepeatMode::All ==> match old(self).queue_index {
                Some(i) => final(self).queue_index == Some(
                    ((i + 1) % (old(self).queue@.len() as int)) as usize,
                ) && r == track_at(old(self).queue@, final(self).queue_index),
                None => final(self).queue_index is None && r is None,
            },
            old(self).playback.repeat == RepeatMode::Off ==> match old(self).queue_index {
                Some(i) => if i + 1 < old(self).queue@.len() {
                    final(self).queue_index == Some((i + 1) as usize) && r == Some(
                        old(self).queue@[i + 1],
                    )
                } else {
                    final(self).queue_index == Some(i) && r is None
                },
                None => final(self).queue_index is None && r is None,
            },
    {
        match self.playback.repeat {
            RepeatMode::One => {
                return match self.queue_index {
                    Some(i) => if i < self.queue.len() {
                        Some(self.queue[i].clone())
                    } else {
                        None
                    },
                    None => None,
                };
            },
            RepeatMode::All => {
                if let Some(i) = self.queue_index {
                    let next = (i + 1) % self.queue.len();
                    self.queue_index = Some(next);
                    return Some(self.queue[next].clone());
                }
            },
            RepeatMode::Off => {
                if let Some(i) = self.queue_index {
                    let next = i + 1;
                    if next < self.queue.len() {
                        self.queue_index = Some(next);
                        return Some(self.queue[next].clone());
                    }
                }
            },
        }
        None
    }

    /// Moves to the track before the current one and returns it.
    pub fn previous_track(&mut self) -> (r: Option<TrackId>)
        ensures
            final(self).same_but_queue(old(self)),
            final(self).queue@ == old(self).queue@,
            final(self).queue_history@ == old(self).queue_history@,
            match old(self).queue_index {
                Some(i) => if i > 0 {
                    final(self).queue_index == Some((i - 1) as usize) && r == track_at(
                        old(self).queue@,
                        final(self).queue_index,
                    )
                } else {
                    final(self).queue_index == old(self).queue_index && r is None
                },
                None => final(self).queue_index is None && r is None,
            },
    {
        if let Some(i) = self.queue_index {
            if i > 0 {
                let prev = i - 1;
                self.queue_index = Some(prev);
                return if prev < self.queue.len() {
                    Some(self.queue[prev].clone())
                } else {
                    None
                };
            }
        }
        None
    }

    /// Appends a track; the first track of an empty queue becomes current.
    pub fn add_to_queue(&mut self, track_id: TrackId)
        ensures
            final(self).same_but_queue(old(self)),
            final(self).queue@ == old(self).queue@.push(track_id),
            final(self).queue_history@ == old(self).queue_history@,
            final(self).queue_index == if old(self).queue_index is None && old(self).queue@.len()
                == 0 {
                Some(0usize)
            } else {
                old(self).queue_index
            },
    {
        self.queue.push(track_id);
        if self.queue_index.is_none() && self.queue.len() == 1 {
            self.queue_index = Some(0);
        }
    }

    /// Removes the track at `index`, when there is one.
    pub fn remove_from_queue(&mut self, index: usize)
        ensures
            final(self).same_but_queue(old(self)),
            final(self).queue_history@ == old(self).queue_history@,
            index >= old(self).queue@.len() ==> final(self).queue@ == old(self).queue@
                && final(self).queue_index == old(self).queue_index,
            index < old(self).queue@.len() ==> final(self).queue@ == old(self).queue@.remove(
                index as int,
            ) && final(self).queue_index == index_after_remove(
                old(self).queue_index,
                index as int,
                old(self).queue@.len() - 1,
            ),
    {
        if index < self.queue.len() {
            self.queue.remove(index);
            if let Some(current) = self.queue_index {
                if index < current {
                    self.queue_index = Some(current - 1);
                } else if index == current {
                    self.queue_index = if current >= self.queue.len() {
                        if self.queue.is_empty() {
                            None
                        } else {
                            Some(self.queue.len() - 1)
                        }
                    } else {
                        Some(current)
                    };
                }
            }
        }
    }

    pub fn clear_queue(&mut self)
        ensures
            final(self).same_but_queue(old(self)),
            final(self).queue@.len() == 0,
            final(self).queue_index is None,
            final(self).queue_history@.len() == 0,
    {
        self.queue.clear();
        self.queue_index = None;
        self.queue_history.clear();
    }

    /// Moves the track at `from` to `to` when both are in the queue.
    pub fn move_in_queue(&mut self, from: usize, to: usize)
        ensures
            final(self).same_but_queue(old(self)),
            final(self).queue_history@ == old(self).queue_history@,
            !(from < old(self).queue@.len() && to < old(self).queue@.len()) ==> (final(self).queue@
                == old(self).queue@ && final(self).queue_index == old(self).queue_index),
            (from < old(self).queue@.len() && to < old(self).queue@.len()) ==> (final(self).queue@
                == old(self).queue@.remove(from as int).insert(
                to as int,
                old(self).queue@[from as int],
            ) && final(self).queue_index == index_after_move(
                old(self).queue_index,
                from as int,
                to as int,
            )),
    {
        if from < self.queue.len() && to < self.queue.len() {
            let track = self.queue.remove(from);
            self.queue.insert(to, track);
            if let Some(current) = self.queue_index {
                if from == current {
                    self.queue_index = Some(to);
                } else if from < current && to >= current {
                    self.queue_index = Some(current - 1);
                } else if from > current && to <= current {
                    self.queue_index = Some(current + 1);
                }
            }
        }
    }

    /// The details of the track that plays: from the track cache first, then
    /// from the library.
    pub fn current_track(&self) -> (r: Option<&Track>)
        ensures
            match self.playback.current_track_id {
                None => r is None,
                Some(id) => match find_track(self.track_cache@, id@) {
                    Some(t) => r == Some(&t),
                    None => match r {
                        Some(t) => find_track(self.library.tracks@, id@) == Some(*t),
                        None => find_track(self.library.tracks@, id@) is None,
                    },
                },
            },
    {
        match &self.playback.current_track_id {
            None => None,
            Some(id) => match lookup_track(&self.track_cache, id) {
                Some(t) => Some(t),
                None => lookup_track(&self.library.tracks, id),
            },
        }
    }

    /// Shows `message` as the latest notification, stamped with the time.
    pub fn notify(&mut self, message: String)
        ensures
            final(self).notification matches Some((m, _)) && m == message,
            *final(self) == (AppState { notification: final(self).notification, ..*old(self) }),
            final(self).current_screen == old(self).current_screen,
            final(self).queue == old(self).queue,
            final(self).queue_index == old(self).queue_index,
            final(self).playback == old(self).playback,
            final(self).selected_index == old(self).selected_index,
    {
        let now = now_timestamp();
        self.notification = Some((message, now));
    }

    /// Moves the selection down in a list of `max` rows.
    pub fn select_next(&mut self, max: usize)
        requires
            max > 0 ==> old(self).selected_index < usize::MAX && scroll_fits(
                selected_after_next(old(self).selected_index as int, max as int),
                old(self).scroll_offset as int,
            ),
        ensures
            final(self).selected_index == selected_after_next(
                old(self).selected_index as int,
                max as int,
            ),
            max > 0 ==> final(self).scroll_offset == scrolled(
                final(self).selected_index as int,
                old(self).scroll_offset as int,
            ),
            max == 0 ==> final(self).scroll_offset == old(self).scroll_offset,
            final(self).same_but_navigation(old(self)),
            final(self).current_screen == old(self).current_screen,
            final(self).screen_history == old(self).screen_history,
    {
        if max > 0 {
            let next = self.selected_index + 1;
            self.selected_index = if next < max - 1 {
                next
            } else {
                max - 1
            };
            self.adjust_scroll(max);
        }
    }

    /// Moves the selection up.
    pub fn select_previous(&mut self, max: usize)
        requires
            old(self).selected_index > 0 ==> scroll_fits(
                old(self).selected_index - 1,
                old(self).scroll_offset as int,
            ),
        ensures
            old(self).selected_index > 0 ==> final(self).selected_index == old(
                self,
            ).selected_index - 1 && final(self).scroll_offset == scrolled(
                final(self).selected_index as int,
                old(self).scroll_offset as int,
            ),
            old(self).selected_index == 0 ==> final(self).selected_index == 0
                && final(self).scroll_offset == old(self).scroll_offset,
            final(self).same_but_navigation(old(self)),
            final(self).current_screen == old(self).current_screen,
            final(self).screen_history == old(self).screen_history,
    {
        if self.selected_index > 0 {
            self.selected_index -= 1;
            self.adjust_scroll(max);
        }
    }

    /// Scrolls just enough for the selected row to be visible.
    pub fn adjust_scroll(&mut self, _max: usize)
        requires
            scroll_fits(old(self).selected_index as int, old(self).scroll_offset as int),
        ensures
            final(self).scroll_offset == scrolled(
                old(self).selected_index as int,
                old(self).scroll_offset as int,
            ),
            final(self).scroll_offset <= final(self).selected_index < final(self).scroll_offset
                + VISIBLE_ROWS,
            final(self).selected_index == old(self).selected_index,
            final(self).same_but_navigation(old(self)),
            final(self).current_screen == old(self).current_screen,
            final(self).screen_history == old(self).screen_history,
    {
        let visible = VISIBLE_ROWS;
        if self.selected_index < self.scroll_offset {
            self.scroll_offset = self.selected_index;
        } else if self.selected_index >= self.scroll_offset + visible {
            self.scroll_offset = self.selected_index - visible + 1;
        }
    }
}

} // verus!
