//! The YouTube provider: what a search asks the `yt-dlp` program for, how
//! its answer becomes tracks, the tracks it remembers, and its stream
//! addresses. Running the program and reading its JSON answer are done by the
//! program around the library.

use vstd::prelude::*;
use vstd::string::*;

use crate::config::YouTubeMusicConfig;
use crate::errors::{Result, SymphonyError};
use crate::provider::catalog::{
    chars_of, copy_opt, find_by_id, not_found_error, not_found_text, page, page_of, position_of_id, CatalogItem,
};
use crate::provider::local::{first_key, ids_of};
use crate::text::{decimal, decimal_string, strip_prefix_text, text_of};
use crate::types::{whole_secs, Album, Artist, Playlist, ProviderId, SearchResults, Track, NANOS_PER_SEC};

verus! {

/// The most results one search asks for.
pub const MAX_SEARCH_RESULTS: u32 = 20;

/// Unicode's `White_Space` characters, which `str::trim` removes: tab to
/// carriage return, space, next line, no-break space, ogham space mark, the
/// spaces from en quad to hair space, line and paragraph separators, narrow
/// no-break space, medium mathematical space and ideographic space.
pub open spec fn is_white_space(c: char) -> bool {
    ||| '\u{9}' <= c <= '\u{d}'
    ||| c == ' '
    ||| c == '\u{85}'
    ||| c == '\u{a0}'
    ||| c == '\u{1680}'
    ||| '\u{2000}' <= c <= '\u{200a}'
    ||| c == '\u{2028}'
    ||| c == '\u{2029}'
    ||| c == '\u{202f}'
    ||| c == '\u{205f}'
    ||| c == '\u{3000}'
}

/// `s` without its leading white space.
pub open spec fn trim_start(s: Seq<char>) -> Seq<char>
    decreases s.len(),
{
    if s.len() > 0 && is_white_space(s[0]) {
        trim_start(s.drop_first())
    } else {
        s
    }
}

/// `s` without its trailing white space.
pub open spec fn trim_end(s: Seq<char>) -> Seq<char>
    decreases s.len(),
{
    if s.len() > 0 && is_white_space(s.last()) {
        trim_end(s.drop_last())
    } else {
        s
    }
}

/// The text without leading and trailing white space, as `str::trim` gives
/// it.
pub open spec fn trimmed(s: Seq<char>) -> Seq<char> {
    trim_end(trim_start(s))
}

fn white_space(c: char) -> (b: bool)
    ensures
        b == is_white_space(c),
{
    ('\u{9}' <= c && c <= '\u{d}') || c == ' ' || c == '\u{85}' || c == '\u{a0}' || c == '\u{1680}' || ('\u{2000}'
        <= c && c <= '\u{200a}') || c == '\u{2028}' || c == '\u{2029}' || c == '\u{202f}' || c == '\u{205f}'
        || c == '\u{3000}'
}

/// The text without leading and trailing white space.
fn trim_text(s: &str) -> (r: String)
    ensures
        r@ == trimmed(s@),
{
    let chars = chars_of(s);
    let n = chars.len();
    let mut i: usize = 0;
    assert(s@.subrange(0, n as int) =~= s@);
    while i < n && white_space(chars[i])
        invariant
            n == chars@.len(),
            chars@ == s@,
            i <= n,
            trim_start(s@) == trim_start(s@.subrange(i as int, n as int)),
        decreases n - i,
    {
        assert(s@.subrange(i as int, n as int).drop_first() =~= s@.subrange(i as int + 1, n as int));
        i = i + 1;
    }
    assert(trim_start(s@) == s@.subrange(i as int, n as int));
    let mut j: usize = n;
    while j > i && white_space(chars[j - 1])
        invariant
            n == chars@.len(),
            chars@ == s@,
            i <= j <= n,
            trim_end(trim_start(s@)) == trim_end(s@.subrange(i as int, j as int)),
        decreases j,
    {
        assert(s@.subrange(i as int, j as int).drop_last() =~= s@.subrange(i as int, j as int - 1));
        j = j - 1;
    }
    assert(trim_end(s@.subrange(i as int, j as int)) == s@.subrange(i as int, j as int));
    text_of(&chars, i, j)
}

/// A picture of a video, with its width where the answer gives one.
#[derive(Debug, Clone)]
pub struct Thumbnail {
    pub url: String,
    pub width: Option<u32>,
}

/// One video of a search answer. The length is in nanoseconds.
#[derive(Debug, Clone)]
pub struct SearchEntry {
    pub id: String,
    pub title: String,
    pub uploader: Option<String>,
    pub channel: Option<String>,
    pub channel_id: Option<String>,
    pub duration_ns: Option<u64>,
    pub thumbnails: Vec<Thumbnail>,
}

/// A thumbnail's width, zero where it has none.
pub open spec fn width_of(t: Thumbnail) -> nat {
    match t.width {
        Some(w) => w as nat,
        None => 0,
    }
}

/// The position of the widest thumbnail; the last of equally wide ones.
pub open spec fn widest(ts: Seq<Thumbnail>) -> Option<int>
    decreases ts.len(),
{
    if ts.len() == 0 {
        None
    } else {
        match widest(ts.drop_last()) {
            None => Some(ts.len() - 1),
            Some(k) => if width_of(ts.last()) >= width_of(ts[k]) {
                Some(ts.len() - 1)
            } else {
                Some(k)
            },
        }
    }
}

proof fn lemma_widest(ts: Seq<Thumbnail>)
    ensures
        match widest(ts) {
            Some(k) => 0 <= k < ts.len(),
            None => ts.len() == 0,
        },
    decreases ts.len(),
{
    if ts.len() > 0 {
        lemma_widest(ts.drop_last());
    }
}

/// The artist a video is credited to: its uploader, else its channel, else
/// "YouTube".
pub open spec fn entry_artist(e: SearchEntry) -> Seq<char> {
    match e.uploader {
        Some(u) => u@,
        None => match e.channel {
            Some(c) => c@,
            None => "YouTube"@,
        },
    }
}

/// The track a video becomes.
pub open spec fn is_entry_track(t: Track, e: SearchEntry) -> bool {
    &&& t.id@ == "youtube:"@ + e.id@
    &&& t.title@ == e.title@
    &&& t.artist@ == entry_artist(e)
    &&& t.artist_id@ == match e.channel_id {
        Some(c) => c@,
        None => "youtube:artist:"@ + entry_artist(e),
    }
    &&& t.album@ == "YouTube"@
    &&& t.album_id@ == "youtube:album:singles"@
    &&& t.duration_ns == match e.duration_ns {
        Some(d) => d,
        None => 0,
    }
    &&& t.track_number == 1
    &&& t.disc_number == 1
    &&& t.genre@ == "stream"@
    &&& t.year == 0
    &&& t.cover_url == match widest(e.thumbnails@) {
        Some(k) => Some(e.thumbnails@[k].url),
        None => None::<String>,
    }
    &&& t.stream_url matches Some(u) && u@ == "https://www.youtube.com/watch?v="@ + e.id@
    &&& t.file_path is None
    &&& t.provider@ == "youtube"@
    &&& !t.is_local
}

/// The address of the widest thumbnail.
fn widest_url(ts: &Vec<Thumbnail>) -> (r: Option<String>)
    ensures
        r == match widest(ts@) {
            Some(k) => Some(ts@[k].url),
            None => None::<String>,
        },
{
    let mut best: Option<usize> = None;
    let mut i: usize = 0;
    while i < ts.len()
        invariant
            i <= ts@.len(),
            best == match widest(ts@.take(i as int)) {
                Some(k) => Some(k as usize),
                None => None::<usize>,
            },
            best matches Some(k) ==> k < i,
        decreases ts@.len() - i,
    {
        proof {
            lemma_widest(ts@.take(i as int));
            assert(ts@.take(i as int + 1).drop_last() =~= ts@.take(i as int));
            assert(ts@.take(i as int + 1).last() == ts@[i as int]);
        }
        let w = match ts[i].width {
            Some(x) => x,
            None => 0,
        };
        match best {
            None => {
                best = Some(i);
            },
            Some(k) => {
                let bw = match ts[k].width {
                    Some(x) => x,
                    None => 0,
                };
                assert(ts@.take(i as int)[k as int] == ts@[k as int]);
                if w >= bw {
                    best = Some(i);
                }
            },
        }
        i = i + 1;
    }
    assert(ts@.take(ts@.len() as int) =~= ts@);
    proof {
        lemma_widest(ts@);
    }
    match best {
        Some(k) => Some(ts[k].url.clone()),
        None => None,
    }
}

/// The track a video of a search answer becomes.
pub fn entry_to_track(entry: SearchEntry) -> (t: Track)
    ensures
        is_entry_track(t, entry),
{
    let artist = match &entry.uploader {
        Some(u) => u.clone(),
        None => match &entry.channel {
            Some(c) => c.clone(),
            None => String::from_str("YouTube"),
        },
    };
    let artist_id = match &entry.channel_id {
        Some(c) => c.clone(),
        None => {
            let mut s = String::from_str("youtube:artist:");
            s.append(artist.as_str());
            s
        },
    };
    let cover_url = widest_url(&entry.thumbnails);
    let duration_ns = match entry.duration_ns {
        Some(d) => d,
        None => 0,
    };
    let mut id = String::from_str("youtube:");
    id.append(entry.id.as_str());
    let mut stream = String::from_str("https://www.youtube.com/watch?v=");
    stream.append(entry.id.as_str());
    Track {
        id,
        title: entry.title.clone(),
        artist,
        artist_id,
        album: String::from_str("YouTube"),
        album_id: String::from_str("youtube:album:singles"),
        duration_ns,
        track_number: 1,
        disc_number: 1,
        genre: String::from_str("stream"),
        year: 0,
        cover_url,
        stream_url: Some(stream),
        file_path: None,
        provider: String::from_str("youtube"),
        is_local: false,
    }
}

/// A copy of a search answer's video.
fn copy_entry(e: &SearchEntry) -> (r: SearchEntry)
    ensures
        r.id == e.id,
        r.title == e.title,
        r.uploader == e.uploader,
        r.channel == e.channel,
        r.channel_id == e.channel_id,
        r.duration_ns == e.duration_ns,
        r.thumbnails@ == e.thumbnails@,
{
    let mut thumbnails: Vec<Thumbnail> = Vec::new();
    let mut i: usize = 0;
    while i < e.thumbnails.len()
        invariant
            i <= e.thumbnails@.len(),
            thumbnails@ == e.thumbnails@.take(i as int),
        decreases e.thumbnails@.len() - i,
    {
        let t = &e.thumbnails[i];
        thumbnails.push(Thumbnail { url: t.url.clone(), width: t.width });
        assert(thumbnails@ =~= e.thumbnails@.take(i as int + 1));
        i = i + 1;
    }
    assert(e.thumbnails@.take(e.thumbnails@.len() as int) =~= e.thumbnails@);
    SearchEntry {
        id: e.id.clone(),
        title: e.title.clone(),
        uploader: copy_opt(&e.uploader),
        channel: copy_opt(&e.channel),
        channel_id: copy_opt(&e.channel_id),
        duration_ns: e.duration_ns,
        thumbnails,
    }
}

/// The videos of an answer that have an id and a title, in order.
pub open spec fn usable(entries: Seq<SearchEntry>) -> Seq<SearchEntry>
    decreases entries.len(),
{
    if entries.len() == 0 {
        Seq::<SearchEntry>::empty()
    } else {
        let prev = usable(entries.drop_last());
        let e = entries.last();
        if e.id@.len() > 0 && e.title@.len() > 0 {
            prev.push(e)
        } else {
            prev
        }
    }
}

/// The tracks of the usable videos of an answer, in order.
pub fn answer_tracks(entries: Vec<SearchEntry>) -> (r: Vec<Track>)
    ensures
        r@.len() == usable(entries@).len(),
        forall|k: int| 0 <= k < r@.len() ==> #[trigger] is_entry_track(r@[k], usable(entries@)[k]),
{
    let mut out: Vec<Track> = Vec::new();
    let n = entries.len();
    let mut i: usize = 0;
    while i < n
        invariant
            n == entries@.len(),
            i <= n,
            out@.len() == usable(entries@.take(i as int)).len(),
            forall|k: int| 0 <= k < out@.len() ==> #[trigger] is_entry_track(out@[k], usable(entries@.take(i as int))[k]),
        decreases n - i,
    {
        assert(entries@.take(i as int + 1).drop_last() =~= entries@.take(i as int));
        assert(entries@.take(i as int + 1).last() == entries@[i as int]);
        let e = &entries[i];
        if !e.id.as_str().is_empty() && !e.title.as_str().is_empty() {
            let ghost before = out@;
            let t = entry_to_track(copy_entry(e));
            out.push(t);
            assert forall|k: int| 0 <= k < out@.len() implies #[trigger] is_entry_track(
                out@[k],
                usable(entries@.take(i as int + 1))[k],
            ) by {
                if k < before.len() {
                    assert(out@[k] == before[k]);
                }
            }
        }
        i = i + 1;
    }
    assert(entries@.take(n as int) =~= entries@);
    out
}

/// How many results a search asks for: the results up to the end of the
/// page, at least one and at most `MAX_SEARCH_RESULTS`.
pub open spec fn request_count(limit: u32, offset: u32) -> u32 {
    let wanted = if limit + offset > u32::MAX {
        u32::MAX
    } else {
        (limit + offset) as u32
    };
    if wanted < 1 {
        1
    } else if wanted > MAX_SEARCH_RESULTS {
        MAX_SEARCH_RESULTS
    } else {
        wanted
    }
}

/// How many results a search for the page at `offset` of size `limit` asks for.
pub fn search_count(limit: u32, offset: u32) -> (c: u32)
    ensures
        c == request_count(limit, offset),
{
    let wanted = limit.saturating_add(offset);
    if wanted < 1 {
        1
    } else if wanted > MAX_SEARCH_RESULTS {
        MAX_SEARCH_RESULTS
    } else {
        wanted
    }
}

/// The search term handed to `yt-dlp`: "ytsearch<count>:<query>", the query
/// without surrounding white space; none for a blank query, which asks for
/// nothing.
pub open spec fn search_term(query: Seq<char>, count: u32) -> Option<Seq<char>> {
    if trimmed(query).len() == 0 {
        None
    } else {
        Some("ytsearch"@ + decimal(count as nat) + ":"@ + trimmed(query))
    }
}

/// The search term for `query`, or none for a blank query.
pub fn search_argument(query: &str, count: u32) -> (r: Option<String>)
    ensures
        match search_term(query@, count) {
            Some(t) => r matches Some(x) && x@ == t,
            None => r is None,
        },
{
    let q = trim_text(query);
    if q.as_str().is_empty() {
        return None;
    }
    let mut s = String::from_str("ytsearch");
    let digits = decimal_string(count as u64);
    s.append(digits.as_str());
    s.append(":");
    s.append(q.as_str());
    Some(s)
}

/// The message of a failed search: what the program wrote on its error
/// output, without surrounding white space, or a general message where it
/// wrote nothing.
pub open spec fn failure_text(stderr: Seq<char>) -> Seq<char> {
    if trimmed(stderr).len() == 0 {
        "YouTube search failed"@
    } else {
        trimmed(stderr)
    }
}

/// The error for a search that `yt-dlp` ended with a failure.
pub fn search_failure(stderr: &str) -> (e: SymphonyError)
    ensures
        e matches SymphonyError::Provider { provider, message } && provider@ == "youtube"@ && message@
            == failure_text(stderr@),
{
    let m = trim_text(stderr);
    let message = if m.as_str().is_empty() {
        String::from_str("YouTube search failed")
    } else {
        m
    };
    SymphonyError::provider(String::from_str("youtube"), message)
}

/// The tracks remembered after `t` is remembered: it replaces a track of
/// the same id in its place, or comes last.
pub open spec fn remembered(cache: Seq<Track>, t: Track) -> Seq<Track> {
    match first_key(ids_of(cache), t.id@) {
        Some(k) => cache.update(k, t),
        None => cache.push(t),
    }
}

/// The tracks remembered after each of `ts` is remembered in turn.
pub open spec fn remembered_all(cache: Seq<Track>, ts: Seq<Track>) -> Seq<Track>
    decreases ts.len(),
{
    if ts.len() == 0 {
        cache
    } else {
        remembered(remembered_all(cache, ts.drop_last()), ts.last())
    }
}

/// The YouTube provider: its settings, the path of `yt-dlp`, and the tracks
/// that its searches found.
#[derive(Debug)]
pub struct YouTubeProvider {
    config: YouTubeMusicConfig,
    tracks: Vec<Track>,
    yt_dlp: String,
}

impl YouTubeProvider {
    pub closed spec fn spec_tracks(&self) -> Seq<Track> {
        self.tracks@
    }

    pub closed spec fn spec_program(&self) -> Seq<char> {
        self.yt_dlp@
    }

    pub closed spec fn spec_cookies(&self) -> Option<String> {
        self.config.cookies_path
    }

    pub closed spec fn spec_oauth(&self) -> bool {
        self.config.use_oauth
    }

    /// A provider that runs the `yt-dlp` at `yt_dlp` and remembers nothing yet.
    pub fn new(config: YouTubeMusicConfig, yt_dlp: String) -> (p: Self)
        ensures
            p.spec_tracks().len() == 0,
            p.spec_program() == yt_dlp@,
            p.spec_cookies() == config.cookies_path,
            p.spec_oauth() == config.use_oauth,
    {
        YouTubeProvider { config, tracks: Vec::new(), yt_dlp }
    }

    /// The path of the `yt-dlp` program.
    pub fn program(&self) -> (r: &str)
        ensures
            r@ == self.spec_program(),
    {
        self.yt_dlp.as_str()
    }

    /// The cookies file that searches hand to `yt-dlp`, where one is set.
    pub fn cookies_path(&self) -> (r: Option<&String>)
        ensures
            match self.spec_cookies() {
                Some(c) => r == Some(&c),
                None => r is None,
            },
    {
        match &self.config.cookies_path {
            Some(c) => Some(c),
            None => None,
        }
    }

    pub fn id(&self) -> (r: ProviderId)
        ensures
            r@ == "youtube"@,
    {
        String::from_str("youtube")
    }

    pub fn name(&self) -> (r: &str)
        ensures
            r@ == "YouTube"@,
    {
        "YouTube"
    }

    /// Signed in where a cookies file is set or OAuth is chosen.
    pub fn is_authenticated(&self) -> (b: bool)
        ensures
            b == (self.spec_cookies() is Some || self.spec_oauth()),
    {
        self.config.cookies_path.is_some() || self.config.use_oauth
    }

    /// Remembers a track, replacing one of the same id.
    fn remember(&mut self, t: Track)
        ensures
            final(self).spec_tracks() == remembered(old(self).spec_tracks(), t),
            final(self).spec_program() == old(self).spec_program(),
            final(self).spec_cookies() == old(self).spec_cookies(),
            final(self).spec_oauth() == old(self).spec_oauth(),
    {
        match position_by_id_of(&self.tracks, t.id.as_str()) {
            Some(k) => {
                self.tracks.set(k, t);
            },
            None => {
                self.tracks.push(t);
            },
        }
    }

    /// The tracks of a search answer's usable videos, in order; each is
    /// remembered for lookups by id.
    pub fn take_answer(&mut self, entries: Vec<SearchEntry>) -> (r: Vec<Track>)
        ensures
            r@.len() == usable(entries@).len(),
            forall|k: int| 0 <= k < r@.len() ==> #[trigger] is_entry_track(r@[k], usable(entries@)[k]),
            final(self).spec_tracks() == remembered_all(old(self).spec_tracks(), r@),
            final(self).spec_program() == old(self).spec_program(),
            final(self).spec_cookies() == old(self).spec_cookies(),
            final(self).spec_oauth() == old(self).spec_oauth(),
    {
        let tracks = answer_tracks(entries);
        let n = tracks.len();
        let mut i: usize = 0;
        while i < n
            invariant
                n == tracks@.len(),
                i <= n,
                self.spec_tracks() == remembered_all(old(self).spec_tracks(), tracks@.take(i as int)),
                self.spec_program() == old(self).spec_program(),
                self.spec_cookies() == old(self).spec_cookies(),
                self.spec_oauth() == old(self).spec_oauth(),
            decreases n - i,
        {
            assert(tracks@.take(i as int + 1).drop_last() =~= tracks@.take(i as int));
            assert(tracks@.take(i as int + 1).last() == tracks@[i as int]);
            let t = tracks[i].duplicate();
            self.remember(t);
            i = i + 1;
        }
        assert(tracks@.take(n as int) =~= tracks@);
        tracks
    }

    /// The page of a search's tracks that starts at `offset` and holds at
    /// most `limit`.
    pub fn search_page(tracks: Vec<Track>, limit: u32, offset: u32) -> (r: Vec<Track>)
        ensures
            r@ == page_of(tracks@, limit as nat, offset as nat),
    {
        page(tracks, limit, offset)
    }

    /// The results of a search: its tracks and nothing else.
    pub fn search_results(query: &str, tracks: Vec<Track>) -> (r: SearchResults)
        ensures
            r.tracks@ == tracks@,
            r.albums@.len() == 0,
            r.artists@.len() == 0,
            r.playlists@.len() == 0,
            r.query@ == query@,
            r.total_results == tracks@.len() as u32,
    {
        let total = tracks.len() as u32;
        SearchResults {
            tracks,
            albums: Vec::new(),
            artists: Vec::new(),
            playlists: Vec::new(),
            query: String::from_str(query),
            total_results: total,
        }
    }

    /// A track that a search found.
    pub fn track(&self, id: &String) -> (r: Result<Track>)
        ensures
            match position_of_id(self.spec_tracks(), id@) {
                Some(k) => r == Ok::<Track, SymphonyError>(self.spec_tracks()[k]),
                None => r matches Err(SymphonyError::NotFound(m)) && m@ == not_found_text("Track"@, id@),
            },
    {
        match find_by_id(&self.tracks, id.as_str()) {
            Some(t) => Ok(t),
            None => Err(not_found_error("Track", id.as_str())),
        }
    }

    /// Albums cannot be looked up.
    pub fn album(&self, id: &String) -> (r: Result<Album>)
        ensures
            r matches Err(SymphonyError::Unsupported(m)) && m@ == "YouTube album lookup is not implemented for '"@
                + id@ + "'"@,
    {
        Err(SymphonyError::unsupported(quoted("YouTube album lookup is not implemented for '", id.as_str())))
    }

    /// Artists cannot be looked up.
    pub fn artist(&self, id: &String) -> (r: Result<Artist>)
        ensures
            r matches Err(SymphonyError::Unsupported(m)) && m@ == "YouTube artist lookup is not implemented for '"@
                + id@ + "'"@,
    {
        Err(SymphonyError::unsupported(quoted("YouTube artist lookup is not implemented for '", id.as_str())))
    }

    /// Playlists cannot be looked up.
    pub fn playlist(&self, id: &String) -> (r: Result<Playlist>)
        ensures
            r matches Err(SymphonyError::Unsupported(m)) && m@ == "YouTube playlist lookup is not implemented for '"@
                + id@ + "'"@,
    {
        Err(SymphonyError::unsupported(quoted("YouTube playlist lookup is not implemented for '", id.as_str())))
    }

    pub fn artist_albums(&self, id: &String) -> (r: Result<Vec<Album>>)
        ensures
            r matches Ok(v) && v@.len() == 0,
    {
        Ok(Vec::new())
    }

    pub fn artist_top_tracks(&self, id: &String) -> (r: Result<Vec<Track>>)
        ensures
            r matches Ok(v) && v@.len() == 0,
    {
        Ok(Vec::new())
    }

    pub fn search_albums(&self, query: &str, limit: u32, offset: u32) -> (r: Result<Vec<Album>>)
        ensures
            r matches Ok(v) && v@.len() == 0,
    {
        Ok(Vec::new())
    }

    pub fn search_artists(&self, query: &str, limit: u32, offset: u32) -> (r: Result<Vec<Artist>>)
        ensures
            r matches Ok(v) && v@.len() == 0,
    {
        Ok(Vec::new())
    }

    pub fn search_playlists(&self, query: &str, limit: u32, offset: u32) -> (r: Result<Vec<Playlist>>)
        ensures
            r matches Ok(v) && v@.len() == 0,
    {
        Ok(Vec::new())
    }

    pub fn browse_new_releases(&self, limit: u32) -> (r: Result<Vec<Album>>)
        ensures
            r matches Ok(v) && v@.len() == 0,
    {
        Ok(Vec::new())
    }

    pub fn browse_featured_playlists(&self, limit: u32) -> (r: Result<Vec<Playlist>>)
        ensures
            r matches Ok(v) && v@.len() == 0,
    {
        Ok(Vec::new())
    }

    pub fn browse_categories(&self) -> (r: Result<Vec<String>>)
        ensures
            r matches Ok(v) && v@.len() == 0,
    {
        Ok(Vec::new())
    }

    /// The address that plays a track of this provider:
    /// "youtube://<video>?duration=<seconds>"; a track whose id does not start
    /// with "youtube:" is refused.
    pub fn resolve_stream_url(&self, track: &Track) -> (r: Result<String>)
        ensures
            if "youtube:"@.len() <= track.id@.len() && track.id@.subrange(0, 8) == "youtube:"@ {
                r matches Ok(u) && u@ == "youtube://"@ + track.id@.subrange(8, track.id@.len() as int)
                    + "?duration="@ + decimal(whole_secs(track.duration_ns))
            } else {
                r matches Err(SymphonyError::Provider { provider, message }) && provider@ == "youtube"@
                    && message@ == "Invalid track id '"@ + track.id@ + "'"@
            },
    {
        proof {
            reveal_strlit("youtube:");
        }
        match strip_prefix_text(track.id.as_str(), "youtube:") {
            Some(video) => {
                assert(video@ =~= track.id@.subrange(8, track.id@.len() as int));
                assert(track.id@.subrange(0, 8) =~= "youtube:"@);
                let mut u = String::from_str("youtube://");
                u.append(video.as_str());
                u.append("?duration=");
                let secs = decimal_string(track.duration_ns / NANOS_PER_SEC);
                u.append(secs.as_str());
                Ok(u)
            },
            None => {
                let m = quoted("Invalid track id '", track.id.as_str());
                let p = String::from_str("youtube");
                assert(p@ == "youtube"@);
                let e = SymphonyError::provider(p, m);
                Err(e)
            },
        }
    }
}

/// `before`, the text, and a closing quote.
fn quoted(before: &str, s: &str) -> (r: String)
    ensures
        r@ == before@ + s@ + "'"@,
{
    let mut m = String::from_str(before);
    m.append(s);
    m.append("'");
    m
}

/// The position of the first track with id `id`.
fn position_by_id_of(tracks: &Vec<Track>, id: &str) -> (r: Option<usize>)
    ensures
        match r {
            Some(k) => k < tracks@.len() && first_key(ids_of(tracks@), id@) == Some(k as int),
            None => first_key(ids_of(tracks@), id@) is None,
        },
{
    crate::provider::local::position_by_id(tracks, id)
}

/// A search asks for at least one result and at most `MAX_SEARCH_RESULTS`,
/// and for the whole page where that fits.
pub proof fn lemma_request_count_bounds(limit: u32, offset: u32)
    ensures
        1 <= request_count(limit, offset) <= MAX_SEARCH_RESULTS,
        limit + offset <= MAX_SEARCH_RESULTS && limit + offset >= 1 ==> request_count(limit, offset) == limit + offset,
{
}

proof fn lemma_remembered_keeps(cache: Seq<Track>, t: Track, id: Seq<char>)
    requires
        ids_of(cache).contains(id),
    ensures
        ids_of(remembered(cache, t)).contains(id),
        ids_of(remembered(cache, t)).contains(t.id@),
{
    let ids = ids_of(cache);
    crate::provider::local::lemma_first_key_facts(ids, t.id@);
    let j = choose|j: int| 0 <= j < ids.len() && ids[j] == id;
    let n = remembered(cache, t);
    match first_key(ids, t.id@) {
        Some(k) => {
            assert(ids_of(n)[k] == t.id@);
            if j == k {
                assert(ids_of(n)[k] == id);
            } else {
                assert(ids_of(n)[j] == id);
            }
        },
        None => {
            assert(ids_of(n)[j] == id);
            assert(ids_of(n)[cache.len() as int] == t.id@);
        },
    }
}

proof fn lemma_remembered_has(cache: Seq<Track>, t: Track)
    ensures
        ids_of(remembered(cache, t)).contains(t.id@),
{
    let ids = ids_of(cache);
    crate::provider::local::lemma_first_key_facts(ids, t.id@);
    let n = remembered(cache, t);
    match first_key(ids, t.id@) {
        Some(k) => {
            assert(ids_of(n)[k] == t.id@);
        },
        None => {
            assert(ids_of(n)[cache.len() as int] == t.id@);
        },
    }
}

/// Every track a search found can be looked up by its id afterwards: the
/// remembered tracks hold an id for each of them.
pub proof fn lemma_found_tracks_remembered(cache: Seq<Track>, ts: Seq<Track>, k: int)
    requires
        0 <= k < ts.len(),
    ensures
        ids_of(remembered_all(cache, ts)).contains(ts[k].id@),
    decreases ts.len(),
{
    if k == ts.len() - 1 {
        lemma_remembered_has(remembered_all(cache, ts.drop_last()), ts.last());
    } else {
        lemma_found_tracks_remembered(cache, ts.drop_last(), k);
        lemma_remembered_keeps(remembered_all(cache, ts.drop_last()), ts.last(), ts[k].id@);
    }
}

} // verus!
