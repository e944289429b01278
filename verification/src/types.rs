//! The player's plain data model: repeat and shuffle modes, playback status,
//! the screens a user navigates between, and duration text.

use vstd::prelude::*;
use vstd::string::*;

use crate::text::{decimal, lemma_decimal, lemma_parse_decimal, lemma_split_append, lemma_split_single, lemma_two_digits, decimal_string, parse_u64, parse_u64_text, push_char, push_two_digits, split_on, split_text, string_views, two_digits};

verus! {

pub type TrackId = String;
pub type AlbumId = String;
pub type ArtistId = String;
pub type PlaylistId = String;
pub type ProviderId = String;
pub type UserId = String;

/// How the queue behaves when it reaches its end or a track finishes.
#[derive(Debug, Clone, Copy, PartialEq, Eq, Hash, Structural)]
pub enum RepeatMode {
    Off,
    One,
    All,
}

impl RepeatMode {
    /// The mode that follows `self` in the cycle Off -> All -> One -> Off.
    pub open spec fn next_mode(self) -> RepeatMode {
        match self {
            RepeatMode::Off => RepeatMode::All,
            RepeatMode::All => RepeatMode::One,
            RepeatMode::One => RepeatMode::Off,
        }
    }

    pub fn cycle(&self) -> (r: RepeatMode)
        ensures
            r == self.next_mode(),
    {
        match self {
            RepeatMode::Off => RepeatMode::All,
            RepeatMode::All => RepeatMode::One,
            RepeatMode::One => RepeatMode::Off,
        }
    }

    /// The text shown for the mode.
    pub fn label(&self) -> (s: &'static str)
        ensures
            *self == RepeatMode::Off ==> s@ == "Off"@,
            *self == RepeatMode::One ==> s@ == "One"@,
            *self == RepeatMode::All ==> s@ == "All"@,
    {
        match self {
            RepeatMode::Off => "Off",
            RepeatMode::One => "One",
            RepeatMode::All => "All",
        }
    }
}

/// Three cycles bring every repeat mode back to itself.
pub proof fn lemma_repeat_cycle_period(m: RepeatMode)
    ensures
        m.next_mode().next_mode().next_mode() == m,
        m.next_mode() != m,
{
}

/// Whether the queue is walked in a random order.
#[derive(Debug, Clone, Copy, PartialEq, Eq, Hash, Structural)]
pub enum ShuffleMode {
    Off,
    On,
}

impl ShuffleMode {
    /// The opposite mode.
    pub open spec fn flipped(self) -> ShuffleMode {
        match self {
            ShuffleMode::Off => ShuffleMode::On,
            ShuffleMode::On => ShuffleMode::Off,
        }
    }

    /// The text shown for the mode.
    pub fn label(&self) -> (s: &'static str)
        ensures
            *self == ShuffleMode::Off ==> s@ == "Off"@,
            *self == ShuffleMode::On ==> s@ == "On"@,
    {
        match self {
            ShuffleMode::Off => "Off",
            ShuffleMode::On => "On",
        }
    }
}

/// What the playback engine is doing.
#[derive(Debug, Clone, Copy, PartialEq, Eq, Hash, Structural)]
pub enum PlaybackStatus {
    Stopped,
    Playing,
    Paused,
}

impl PlaybackStatus {
    /// The symbol shown for the status.
    pub fn label(&self) -> (s: &'static str)
        ensures
            *self == PlaybackStatus::Stopped ==> s@ == "\u{23f9}"@,
            *self == PlaybackStatus::Playing ==> s@ == "\u{25b6}"@,
            *self == PlaybackStatus::Paused ==> s@ == "\u{23f8}"@,
    {
        match self {
            PlaybackStatus::Stopped => "\u{23f9}",
            PlaybackStatus::Playing => "\u{25b6}",
            PlaybackStatus::Paused => "\u{23f8}",
        }
    }
}


/// The screens of the player. The detail screens carry the id of what they show.
#[derive(Debug, Clone, PartialEq, Eq, Hash)]
pub enum Screen {
    Home,
    Search,
    Library,
    Albums,
    AlbumDetail(String),
    Artists,
    ArtistDetail(String),
    Playlists,
    PlaylistDetail(String),
    Queue,
    Downloads,
    Settings,
    Help,
}

impl Screen {
    /// Two screens are the same when they are the same variant with equal ids.
    pub open spec fn same(self, other: Screen) -> bool {
        match (self, other) {
            (Screen::Home, Screen::Home) => true,
            (Screen::Search, Screen::Search) => true,
            (Screen::Library, Screen::Library) => true,
            (Screen::Albums, Screen::Albums) => true,
            (Screen::AlbumDetail(a), Screen::AlbumDetail(b)) => a@ == b@,
            (Screen::Artists, Screen::Artists) => true,
            (Screen::ArtistDetail(a), Screen::ArtistDetail(b)) => a@ == b@,
            (Screen::Playlists, Screen::Playlists) => true,
            (Screen::PlaylistDetail(a), Screen::PlaylistDetail(b)) => a@ == b@,
            (Screen::Queue, Screen::Queue) => true,
            (Screen::Downloads, Screen::Downloads) => true,
            (Screen::Settings, Screen::Settings) => true,
            (Screen::Help, Screen::Help) => true,
            _ => false,
        }
    }

    /// Compares two screens by variant and id.
    pub fn is_same(&self, other: &Screen) -> (r: bool)
        ensures
            r == self.same(*other),
    {
        match (self, other) {
            (Screen::Home, Screen::Home) => true,
            (Screen::Search, Screen::Search) => true,
            (Screen::Library, Screen::Library) => true,
            (Screen::Albums, Screen::Albums) => true,
            (Screen::AlbumDetail(a), Screen::AlbumDetail(b)) => *a == *b,
            (Screen::Artists, Screen::Artists) => true,
            (Screen::ArtistDetail(a), Screen::ArtistDetail(b)) => *a == *b,
            (Screen::Playlists, Screen::Playlists) => true,
            (Screen::PlaylistDetail(a), Screen::PlaylistDetail(b)) => *a == *b,
            (Screen::Queue, Screen::Queue) => true,
            (Screen::Downloads, Screen::Downloads) => true,
            (Screen::Settings, Screen::Settings) => true,
            (Screen::Help, Screen::Help) => true,
            _ => false,
        }
    }

    /// A copy of the screen.
    pub fn duplicate(&self) -> (r: Screen)
        ensures
            r == *self,
    {
        match self {
            Screen::Home => Screen::Home,
            Screen::Search => Screen::Search,
            Screen::Library => Screen::Library,
            Screen::Albums => Screen::Albums,
            Screen::AlbumDetail(id) => Screen::AlbumDetail(id.clone()),
            Screen::Artists => Screen::Artists,
            Screen::ArtistDetail(id) => Screen::ArtistDetail(id.clone()),
            Screen::Playlists => Screen::Playlists,
            Screen::PlaylistDetail(id) => Screen::PlaylistDetail(id.clone()),
            Screen::Queue => Screen::Queue,
            Screen::Downloads => Screen::Downloads,
            Screen::Settings => Screen::Settings,
            Screen::Help => Screen::Help,
        }
    }

    /// The heading shown for the screen.
    pub open spec fn title_text(self) -> Seq<char> {
        match self {
            Screen::Home => "Home"@,
            Screen::Search => "Search"@,
            Screen::Library => "Library"@,
            Screen::Albums => "Albums"@,
            Screen::AlbumDetail(_) => "Album"@,
            Screen::Artists => "Artists"@,
            Screen::ArtistDetail(_) => "Artist"@,
            Screen::Playlists => "Playlists"@,
            Screen::PlaylistDetail(_) => "Playlist"@,
            Screen::Queue => "Queue"@,
            Screen::Downloads => "Downloads"@,
            Screen::Settings => "Settings"@,
            Screen::Help => "Help"@,
        }
    }

    pub fn title(&self) -> (s: &'static str)
        ensures
            s@ == self.title_text(),
    {
        match self {
            Screen::Home => "Home",
            Screen::Search => "Search",
            Screen::Library => "Library",
            Screen::Albums => "Albums",
            Screen::AlbumDetail(_) => "Album",
            Screen::Artists => "Artists",
            Screen::ArtistDetail(_) => "Artist",
            Screen::Playlists => "Playlists",
            Screen::PlaylistDetail(_) => "Playlist",
            Screen::Queue => "Queue",
            Screen::Downloads => "Downloads",
            Screen::Settings => "Settings",
            Screen::Help => "Help",
        }
    }

    /// The icon glyph shown beside the screen's name.
    pub open spec fn icon_text(self) -> Seq<char> {
        match self {
            Screen::Home => "\u{f02dc}"@,
            Screen::Search => "\u{f0948}"@,
            Screen::Library => "\u{f02ed}"@,
            Screen::Albums => "\u{f0025}"@,
            Screen::AlbumDetail(_) => "\u{f0025}"@,
            Screen::Artists => "\u{f0803}"@,
            Screen::ArtistDetail(_) => "\u{f0803}"@,
            Screen::Playlists => "\u{f02cb}"@,
            Screen::PlaylistDetail(_) => "\u{f02cb}"@,
            Screen::Queue => "\u{f0661}"@,
            Screen::Downloads => "\u{f0d85}"@,
            Screen::Settings => "\u{f0493}"@,
            Screen::Help => "\u{f02d6}"@,
        }
    }

    pub fn icon(&self) -> (s: &'static str)
        ensures
            s@ == self.icon_text(),
    {
        match self {
            Screen::Home => "\u{f02dc}",
            Screen::Search => "\u{f0948}",
            Screen::Library => "\u{f02ed}",
            Screen::Albums => "\u{f0025}",
            Screen::AlbumDetail(_) => "\u{f0025}",
            Screen::Artists => "\u{f0803}",
            Screen::ArtistDetail(_) => "\u{f0803}",
            Screen::Playlists => "\u{f02cb}",
            Screen::PlaylistDetail(_) => "\u{f02cb}",
            Screen::Queue => "\u{f0661}",
            Screen::Downloads => "\u{f0d85}",
            Screen::Settings => "\u{f0493}",
            Screen::Help => "\u{f02d6}",
        }
    }

    /// The chain of screens that leads to this one: a detail screen is reached
    /// through its list screen, every other screen directly.
    pub open spec fn route(self) -> Seq<Screen> {
        match self {
            Screen::AlbumDetail(_) => seq![Screen::Albums, self],
            Screen::ArtistDetail(_) => seq![Screen::Artists, self],
            Screen::PlaylistDetail(_) => seq![Screen::Playlists, self],
            _ => seq![self],
        }
    }

    pub fn navigate_to(&self) -> (v: Vec<Screen>)
        ensures
            v@ == self.route(),
    {
        let mut v: Vec<Screen> = Vec::new();
        match self {
            Screen::AlbumDetail(_) => v.push(Screen::Albums),
            Screen::ArtistDetail(_) => v.push(Screen::Artists),
            Screen::PlaylistDetail(_) => v.push(Screen::Playlists),
            _ => {},
        }
        v.push(self.duplicate());
        v
    }
}

/// Every screen is the same as itself, and sameness is symmetric.
pub proof fn lemma_screen_same_reflexive(a: Screen, b: Screen)
    ensures
        a.same(a),
        a.same(b) == b.same(a),
{
}


/// The text of a duration of `secs` seconds: `h:mm:ss` from one hour on,
/// `m:ss` below it.
pub open spec fn duration_text(secs: nat) -> Seq<char> {
    let hours = secs / 3600;
    let mins = (secs % 3600) / 60;
    let rest = secs % 60;
    if hours > 0 {
        decimal(hours) + seq![':'] + two_digits(mins) + seq![':'] + two_digits(rest)
    } else {
        decimal(mins) + seq![':'] + two_digits(rest)
    }
}

pub fn format_duration(total_secs: u64) -> (s: String)
    ensures
        s@ == duration_text(total_secs as nat),
{
    let hours = total_secs / 3600;
    let mins = (total_secs % 3600) / 60;
    let secs = total_secs % 60;
    let mut out = String::new();
    if hours > 0 {
        let h = decimal_string(hours);
        out.append(h.as_str());
        push_char(&mut out, ':');
        push_two_digits(&mut out, mins);
        push_char(&mut out, ':');
        push_two_digits(&mut out, secs);
    } else {
        let m = decimal_string(mins);
        out.append(m.as_str());
        push_char(&mut out, ':');
        push_two_digits(&mut out, secs);
    }
    assert(out@ =~= duration_text(total_secs as nat));
    out
}

/// What reading a duration from `s` gives: `h:m:s` or `m:s`, each part an
/// unsigned integer, as a number of seconds; otherwise the message that names
/// the first part that failed, or the format.
pub open spec fn duration_parse(s: Seq<char>) -> Result<int, Seq<char>> {
    let parts = split_on(s, ':');
    if parts.len() == 3 {
        match parse_u64_text(parts[0]) {
            None => Err("Invalid hours"@),
            Some(h) => match parse_u64_text(parts[1]) {
                None => Err("Invalid minutes"@),
                Some(m) => match parse_u64_text(parts[2]) {
                    None => Err("Invalid seconds"@),
                    Some(x) => Ok(h * 3600 + m * 60 + x),
                },
            },
        }
    } else if parts.len() == 2 {
        match parse_u64_text(parts[0]) {
            None => Err("Invalid minutes"@),
            Some(m) => match parse_u64_text(parts[1]) {
                None => Err("Invalid seconds"@),
                Some(x) => Ok(m * 60 + x),
            },
        }
    } else {
        Err("Invalid duration format"@)
    }
}

/// Whether the duration that `s` writes fits in 64 bits (text that is refused
/// fits trivially).
pub open spec fn duration_fits(s: Seq<char>) -> bool {
    match duration_parse(s) {
        Ok(v) => v <= u64::MAX,
        Err(_) => true,
    }
}

/// Reads a duration in seconds from `h:m:s` or `m:s` text.
pub fn parse_duration(s: &str) -> (r: Result<u64, String>)
    requires
        duration_fits(s@),
    ensures
        match r {
            Ok(v) => duration_parse(s@) == Ok::<int, Seq<char>>(v as int),
            Err(e) => duration_parse(s@) == Err::<int, Seq<char>>(e@),
        },
{
    let parts = split_text(s, ':');
    assert(parts@.len() == string_views(parts@).len());
    if parts.len() == 3 {
        assert(parts@[0]@ == string_views(parts@)[0]);
        assert(parts@[1]@ == string_views(parts@)[1]);
        assert(parts@[2]@ == string_views(parts@)[2]);
        let h = match parse_u64(parts[0].as_str()) {
            Some(v) => v,
            None => return Err(String::from_str("Invalid hours")),
        };
        let m = match parse_u64(parts[1].as_str()) {
            Some(v) => v,
            None => return Err(String::from_str("Invalid minutes")),
        };
        let x = match parse_u64(parts[2].as_str()) {
            Some(v) => v,
            None => return Err(String::from_str("Invalid seconds")),
        };
        Ok(h * 3600 + m * 60 + x)
    } else if parts.len() == 2 {
        assert(parts@[0]@ == string_views(parts@)[0]);
        assert(parts@[1]@ == string_views(parts@)[1]);
        let m = match parse_u64(parts[0].as_str()) {
            Some(v) => v,
            None => return Err(String::from_str("Invalid minutes")),
        };
        let x = match parse_u64(parts[1].as_str()) {
            Some(v) => v,
            None => return Err(String::from_str("Invalid seconds")),
        };
        Ok(m * 60 + x)
    } else {
        Err(String::from_str("Invalid duration format"))
    }
}


/// Reading back the text of a duration gives the same number of seconds.
pub proof fn lemma_duration_roundtrip(secs: u64)
    ensures
        duration_parse(duration_text(secs as nat)) == Ok::<int, Seq<char>>(secs as int),
{
    let t = secs as nat;
    let hours = t / 3600;
    let mins = (t % 3600) / 60;
    let rest = t % 60;
    lemma_decimal(hours);
    lemma_decimal(mins);
    lemma_two_digits(mins);
    lemma_two_digits(rest);
    lemma_parse_decimal(hours as u64);
    lemma_parse_decimal(mins as u64);
    lemma_parse_decimal(rest as u64);
    if hours > 0 {
        let a = decimal(hours) + seq![':'] + two_digits(mins);
        lemma_split_append(a, two_digits(rest), ':');
        lemma_split_append(decimal(hours), two_digits(mins), ':');
        lemma_split_single(decimal(hours), ':');
        assert(split_on(duration_text(t), ':') =~= seq![decimal(hours), two_digits(mins), two_digits(rest)]);
    } else {
        lemma_split_append(decimal(mins), two_digits(rest), ':');
        lemma_split_single(decimal(mins), ':');
        assert(split_on(duration_text(t), ':') =~= seq![decimal(mins), two_digits(rest)]);
    }
}

/// A track. Its length is held in whole seconds.
#[derive(Debug, Clone, PartialEq, Eq, Hash)]
pub struct Track {
    pub id: TrackId,
    pub title: String,
    pub artist: String,
    pub artist_id: ArtistId,
    pub album: String,
    pub album_id: AlbumId,
    /// The length, in nanoseconds.
    pub duration_ns: u64,
    pub track_number: u32,
    pub disc_number: u32,
    pub genre: String,
    pub year: i32,
    pub cover_url: Option<String>,
    pub stream_url: Option<String>,
    pub file_path: Option<String>,
    pub provider: ProviderId,
    pub is_local: bool,
}

/// Nanoseconds in a second.
pub const NANOS_PER_SEC: u64 = 1_000_000_000u64;

/// The whole seconds of a length given in nanoseconds.
pub open spec fn whole_secs(ns: u64) -> nat {
    (ns / NANOS_PER_SEC) as nat
}

/// The text of a track's length: whole minutes, a colon, two digits of seconds.
pub open spec fn minutes_text(secs: nat) -> Seq<char> {
    decimal(secs / 60) + seq![':'] + two_digits(secs % 60)
}

/// The separator between artist and title.
pub open spec fn dash_text() -> Seq<char> {
    seq![' ', '\u{2014}', ' ']
}

impl Track {
    pub fn duration_formatted(&self) -> (s: String)
        ensures
            s@ == minutes_text(whole_secs(self.duration_ns)),
    {
        let secs = self.duration_ns / NANOS_PER_SEC;
        let mins = secs / 60;
        let rest = secs % 60;
        let mut out = decimal_string(mins);
        push_char(&mut out, ':');
        push_two_digits(&mut out, rest);
        out
    }

    /// "artist — title".
    pub fn display_title(&self) -> (s: String)
        ensures
            s@ == self.artist@ + dash_text() + self.title@,
    {
        let mut out = self.artist.clone();
        push_char(&mut out, ' ');
        push_char(&mut out, '\u{2014}');
        push_char(&mut out, ' ');
        out.append(self.title.as_str());
        assert(out@ =~= self.artist@ + dash_text() + self.title@);
        out
    }
}

#[derive(Debug, Clone, PartialEq, Eq, Hash)]
pub struct Album {
    pub id: AlbumId,
    pub title: String,
    pub artist: String,
    pub artist_id: ArtistId,
    pub tracks: Vec<TrackId>,
    pub cover_url: Option<String>,
    pub year: i32,
    pub track_count: u32,
    /// The length of all its tracks, in nanoseconds.
    pub duration_ns: u64,
    pub provider: ProviderId,
}

#[derive(Debug, Clone, PartialEq, Eq, Hash)]
pub struct Artist {
    pub id: ArtistId,
    pub name: String,
    pub image_url: Option<String>,
    pub genres: Vec<String>,
    pub album_count: u32,
    pub provider: ProviderId,
}

/// A playlist. Its times are Unix timestamps in seconds.
#[derive(Debug, Clone, PartialEq, Eq, Hash)]
pub struct Playlist {
    pub id: PlaylistId,
    pub name: String,
    pub description: String,
    pub tracks: Vec<TrackId>,
    pub cover_url: Option<String>,
    pub owner: UserId,
    pub provider: ProviderId,
    pub is_user_created: bool,
    pub created_at: i64,
    pub updated_at: i64,
}

#[derive(Debug, Clone, PartialEq, Eq)]
pub struct SearchResults {
    pub tracks: Vec<Track>,
    pub albums: Vec<Album>,
    pub artists: Vec<Artist>,
    pub playlists: Vec<Playlist>,
    pub query: String,
    pub total_results: u32,
}

impl SearchResults {
    /// Results of nothing, for no query.
    pub fn empty() -> (r: SearchResults)
        ensures
            r.tracks@.len() == 0,
            r.albums@.len() == 0,
            r.artists@.len() == 0,
            r.playlists@.len() == 0,
            r.query@.len() == 0,
            r.total_results == 0,
    {
        SearchResults {
            tracks: Vec::new(),
            albums: Vec::new(),
            artists: Vec::new(),
            playlists: Vec::new(),
            query: String::new(),
            total_results: 0,
        }
    }
}

/// What plays and where it stands; times are in milliseconds. The volume,
/// a fraction, is kept beside this state by the program.
#[derive(Debug, Clone)]
pub struct PlaybackState {
    pub status: PlaybackStatus,
    pub current_track_id: Option<TrackId>,
    pub position_ms: u64,
    pub duration_ms: u64,
    pub repeat: RepeatMode,
    pub shuffle: ShuffleMode,
}

impl Default for PlaybackState {
    fn default() -> (s: Self)
        ensures
            s.status == PlaybackStatus::Stopped,
            s.current_track_id is None,
            s.position_ms == 0,
            s.duration_ms == 0,
            s.repeat == RepeatMode::Off,
            s.shuffle == ShuffleMode::Off,
    {
        PlaybackState {
            status: PlaybackStatus::Stopped,
            current_track_id: None,
            position_ms: 0,
            duration_ms: 0,
            repeat: RepeatMode::Off,
            shuffle: ShuffleMode::Off,
        }
    }
}

impl PlaybackState {
    pub fn position_formatted(&self) -> (s: String)
        ensures
            s@ == duration_text((self.position_ms / 1000) as nat),
    {
        format_duration(self.position_ms / 1000)
    }

    pub fn duration_formatted(&self) -> (s: String)
        ensures
            s@ == duration_text((self.duration_ms / 1000) as nat),
    {
        format_duration(self.duration_ms / 1000)
    }
}

/// The sum of the lengths of `tracks`, in nanoseconds.
pub open spec fn total_ns(tracks: Seq<Track>) -> nat
    decreases tracks.len(),
{
    if tracks.len() == 0 {
        0
    } else {
        total_ns(tracks.drop_last()) + tracks.last().duration_ns as nat
    }
}

/// The user's library. Each list holds at most one entry per id.
#[derive(Debug, Clone)]
pub struct Library {
    pub tracks: Vec<Track>,
    pub albums: Vec<Album>,
    pub artists: Vec<Artist>,
    pub playlists: Vec<Playlist>,
}

impl Default for Library {
    fn default() -> (l: Self)
        ensures
            l.tracks@.len() == 0,
            l.albums@.len() == 0,
            l.artists@.len() == 0,
            l.playlists@.len() == 0,
    {
        Library { tracks: Vec::new(), albums: Vec::new(), artists: Vec::new(), playlists: Vec::new() }
    }
}

impl Library {
    pub fn track_count(&self) -> (n: usize)
        ensures
            n == self.tracks@.len(),
    {
        self.tracks.len()
    }

    pub fn album_count(&self) -> (n: usize)
        ensures
            n == self.albums@.len(),
    {
        self.albums.len()
    }

    pub fn artist_count(&self) -> (n: usize)
        ensures
            n == self.artists@.len(),
    {
        self.artists.len()
    }

    pub fn playlist_count(&self) -> (n: usize)
        ensures
            n == self.playlists@.len(),
    {
        self.playlists.len()
    }

    /// The length of all tracks together, in nanoseconds.
    pub fn duration_total(&self) -> (t: u64)
        requires
            total_ns(self.tracks@) <= u64::MAX,
        ensures
            t == total_ns(self.tracks@),
    {
        let n = self.tracks.len();
        let mut total: u64 = 0;
        let mut i: usize = 0;
        while i < n
            invariant
                n == self.tracks@.len(),
                i <= n,
                total == total_ns(self.tracks@.take(i as int)),
                total_ns(self.tracks@) <= u64::MAX,
            decreases n - i,
        {
            assert(self.tracks@.take(i as int + 1).drop_last() =~= self.tracks@.take(i as int));
            proof {
                lemma_total_ns_prefix(self.tracks@, i as int + 1);
            }
            total = total + self.tracks[i].duration_ns;
            i = i + 1;
        }
        assert(self.tracks@.take(n as int) =~= self.tracks@);
        total
    }
}

/// A prefix of the tracks is no longer than all of them.
pub proof fn lemma_total_ns_prefix(tracks: Seq<Track>, k: int)
    requires
        0 <= k <= tracks.len(),
    ensures
        total_ns(tracks.take(k)) <= total_ns(tracks),
    decreases tracks.len() - k,
{
    if k < tracks.len() {
        lemma_total_ns_prefix(tracks, k + 1);
        assert(tracks.take(k + 1).drop_last() =~= tracks.take(k));
    } else {
        assert(tracks.take(k) =~= tracks);
    }
}

} // verus!
