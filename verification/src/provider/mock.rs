//! The demo provider: a fixed catalog of six artists, twelve albums of six
//! tracks each, and three playlists, searchable like any other provider.

use vstd::prelude::*;
use vstd::string::*;

use crate::errors::{Result, SymphonyError};
use crate::provider::catalog::{
    copy_opt, find_by_id, not_found_text, not_found_error, page, page_of, position_of_id, same_items, same_text,
    search_filter, searched, sorted_distinct, strictly_sorted, take_first, take_last_reversed, CatalogItem,
};
use crate::text::{decimal, decimal_string, string_views};
use crate::types::{Album, Artist, Playlist, ProviderId, SearchResults, Track, TrackId, NANOS_PER_SEC};

verus! {

/// `chrono::Utc::now().timestamp()`: the current time in whole seconds since
/// the Unix epoch. It depends on the clock, so nothing is stated of it.
#[verifier::external_body]
fn now_timestamp() -> i64 {
    chrono::Utc::now().timestamp()
}

pub const ARTIST_COUNT: usize = 6;

pub const ALBUM_COUNT: usize = 12;

pub const TRACKS_PER_ALBUM: usize = 6;

pub open spec fn mock_artist_name(i: int) -> Seq<char> {
    if i == 0 {
        "Neon Cascade"@
    } else if i == 1 {
        "Violet Mosaic"@
    } else if i == 2 {
        "Iron Horizon"@
    } else if i == 3 {
        "Cosmic Drift"@
    } else if i == 4 {
        "The Velvet Echoes"@
    } else {
        "Lunar Tides"@
    }
}

pub open spec fn mock_artist_genres(i: int) -> Seq<Seq<char>> {
    if i == 0 {
        seq!["electronic"@, "synthwave"@]
    } else if i == 1 {
        seq!["indie"@, "dream pop"@]
    } else if i == 2 {
        seq!["rock"@, "alternative"@]
    } else if i == 3 {
        seq!["ambient"@, "electronic"@]
    } else if i == 4 {
        seq!["jazz"@, "soul"@]
    } else {
        seq!["lo-fi"@, "chillhop"@]
    }
}

pub open spec fn mock_album_title(a: int) -> Seq<char> {
    if a == 0 {
        "Digital Twilight"@
    } else if a == 1 {
        "Neon Nights"@
    } else if a == 2 {
        "Prism"@
    } else if a == 3 {
        "Velvet Underground"@
    } else if a == 4 {
        "Steel & Thunder"@
    } else if a == 5 {
        "Broken Horizons"@
    } else if a == 6 {
        "Nebula"@
    } else if a == 7 {
        "Starfall"@
    } else if a == 8 {
        "Midnight Sessions"@
    } else if a == 9 {
        "Soul Revival"@
    } else if a == 10 {
        "Ocean Waves"@
    } else {
        "Chill Tides"@
    }
}

pub open spec fn mock_album_genre(a: int) -> Seq<char> {
    if a == 0 {
        "electronic"@
    } else if a == 1 {
        "synthwave"@
    } else if a == 2 {
        "indie"@
    } else if a == 3 {
        "dream pop"@
    } else if a == 4 {
        "rock"@
    } else if a == 5 {
        "alternative"@
    } else if a == 6 {
        "ambient"@
    } else if a == 7 {
        "electronic"@
    } else if a == 8 {
        "jazz"@
    } else if a == 9 {
        "soul"@
    } else if a == 10 {
        "lo-fi"@
    } else {
        "chillhop"@
    }
}

/// The artist of each album: albums come in pairs per artist.
pub open spec fn mock_album_artist(a: int) -> int {
    a / 2
}

fn artist_name(i: usize) -> (s: &'static str)
    requires
        i < ARTIST_COUNT,
    ensures
        s@ == mock_artist_name(i as int),
{
    match i {
        0 => "Neon Cascade",
        1 => "Violet Mosaic",
        2 => "Iron Horizon",
        3 => "Cosmic Drift",
        4 => "The Velvet Echoes",
        _ => "Lunar Tides",
    }
}

fn genre_pair(i: usize) -> (g: (&'static str, &'static str))
    requires
        i < ARTIST_COUNT,
    ensures
        seq![g.0@, g.1@] == mock_artist_genres(i as int),
{
    match i {
        0 => ("electronic", "synthwave"),
        1 => ("indie", "dream pop"),
        2 => ("rock", "alternative"),
        3 => ("ambient", "electronic"),
        4 => ("jazz", "soul"),
        _ => ("lo-fi", "chillhop"),
    }
}

fn album_title(a: usize) -> (s: &'static str)
    requires
        a < ALBUM_COUNT,
    ensures
        s@ == mock_album_title(a as int),
{
    match a {
        0 => "Digital Twilight",
        1 => "Neon Nights",
        2 => "Prism",
        3 => "Velvet Underground",
        4 => "Steel & Thunder",
        5 => "Broken Horizons",
        6 => "Nebula",
        7 => "Starfall",
        8 => "Midnight Sessions",
        9 => "Soul Revival",
        10 => "Ocean Waves",
        _ => "Chill Tides",
    }
}

fn album_genre(a: usize) -> (s: &'static str)
    requires
        a < ALBUM_COUNT,
    ensures
        s@ == mock_album_genre(a as int),
{
    match a {
        0 => "electronic",
        1 => "synthwave",
        2 => "indie",
        3 => "dream pop",
        4 => "rock",
        5 => "alternative",
        6 => "ambient",
        7 => "electronic",
        8 => "jazz",
        9 => "soul",
        10 => "lo-fi",
        _ => "chillhop",
    }
}

/// The length of track `t` of album `a`, in seconds: from 3:00 to 5:00.
pub open spec fn track_secs(a: int, t: int) -> int {
    180 + (a * 37 + t * 19) % 121
}

/// The length of track `t` of album `a`, in nanoseconds.
pub fn track_duration(album_index: usize, track_index: usize) -> (ns: u64)
    requires
        album_index < ALBUM_COUNT,
        track_index < TRACKS_PER_ALBUM,
    ensures
        ns == track_secs(album_index as int, track_index as int) * NANOS_PER_SEC,
{
    let secs = (180 + ((album_index * 37 + track_index * 19) % 121)) as u64;
    secs * NANOS_PER_SEC
}

/// The length of the first `n` tracks of album `a`.
pub open spec fn album_secs(a: int, n: int) -> int
    decreases n,
{
    if n <= 0 {
        0
    } else {
        album_secs(a, n - 1) + track_secs(a, n - 1)
    }
}

/// The address of the cover picture for `seed`.
pub open spec fn cover_url_text(seed: Seq<char>) -> Seq<char> {
    "https://picsum.photos/seed/"@ + seed + "/300/300"@
}

pub fn make_cover_url(seed: &str) -> (s: String)
    ensures
        s@ == cover_url_text(seed@),
{
    let mut s = String::from_str("https://picsum.photos/seed/");
    s.append(seed);
    s.append("/300/300");
    s
}

pub open spec fn mock_artist_id(i: int) -> Seq<char> {
    "mock:artist:"@ + decimal(i as nat)
}

pub open spec fn mock_album_id(a: int) -> Seq<char> {
    "mock:album:"@ + decimal(a as nat)
}

pub open spec fn mock_track_id(a: int, t: int) -> Seq<char> {
    "mock:track:"@ + decimal(a as nat) + ":"@ + decimal(t as nat)
}

/// Where track `t` of album `a` stands in the catalog's list of tracks.
pub open spec fn track_pos(a: int, t: int) -> int {
    a * 6 + t
}

/// How many of the first `n` albums are by artist `i`.
pub open spec fn albums_by_artist(i: int, n: int) -> nat
    decreases n,
{
    if n <= 0 {
        0
    } else if mock_album_artist(n - 1) == i {
        albums_by_artist(i, n - 1) + 1
    } else {
        albums_by_artist(i, n - 1)
    }
}

/// The optional text as a view.
pub open spec fn opt_view(o: Option<String>) -> Option<Seq<char>> {
    match o {
        Some(s) => Some(s@),
        None => None,
    }
}

pub open spec fn is_mock_artist(x: Artist, i: int) -> bool {
    &&& x.id@ == mock_artist_id(i)
    &&& x.name@ == mock_artist_name(i)
    &&& opt_view(x.image_url) == Some(cover_url_text(mock_artist_name(i)))
    &&& string_views(x.genres@) == mock_artist_genres(i)
    &&& x.album_count == albums_by_artist(i, 12)
    &&& x.provider@ == "mock"@
}

pub open spec fn is_mock_track(x: Track, a: int, t: int) -> bool {
    &&& x.id@ == mock_track_id(a, t)
    &&& x.title@ == mock_album_title(a) + " \u{2014} Track "@ + decimal((t + 1) as nat)
    &&& x.artist@ == mock_artist_name(mock_album_artist(a))
    &&& x.artist_id@ == mock_artist_id(mock_album_artist(a))
    &&& x.album@ == mock_album_title(a)
    &&& x.album_id@ == mock_album_id(a)
    &&& x.duration_ns == track_secs(a, t) * NANOS_PER_SEC
    &&& x.track_number == t + 1
    &&& x.disc_number == 1
    &&& x.genre@ == mock_album_genre(a)
    &&& x.year == 2020 + a % 5
    &&& opt_view(x.cover_url) == Some(
        cover_url_text(mock_album_title(a) + "-"@ + decimal(t as nat)),
    )
    &&& opt_view(x.stream_url) == Some(
        "https://mock.stream/"@ + mock_album_title(a) + "/"@ + decimal((t + 1) as nat),
    )
    &&& x.file_path is None
    &&& x.provider@ == "mock"@
    &&& !x.is_local
}

pub open spec fn is_mock_album(x: Album, a: int) -> bool {
    &&& x.id@ == mock_album_id(a)
    &&& x.title@ == mock_album_title(a)
    &&& x.artist@ == mock_artist_name(mock_album_artist(a))
    &&& x.artist_id@ == mock_artist_id(mock_album_artist(a))
    &&& string_views(x.tracks@) == Seq::new(6, |t: int| mock_track_id(a, t))
    &&& opt_view(x.cover_url) == Some(cover_url_text(mock_album_title(a)))
    &&& x.year == 2020 + a % 5
    &&& x.track_count == 6
    &&& x.duration_ns == album_secs(a, 6) * NANOS_PER_SEC
    &&& x.provider@ == "mock"@
}

/// The ids of the tracks whose genre is one of `genres`, in catalog order.
pub open spec fn ids_of_genres(tracks: Seq<Track>, genres: Seq<Seq<char>>) -> Seq<Seq<char>>
    decreases tracks.len(),
{
    if tracks.len() == 0 {
        Seq::<Seq<char>>::empty()
    } else {
        let m = ids_of_genres(tracks.drop_last(), genres);
        if genres.contains(tracks.last().genre@) {
            m.push(tracks.last().id@)
        } else {
            m
        }
    }
}

/// At most `limit` of those ids, the first ones.
pub open spec fn first_ids_of_genres(tracks: Seq<Track>, genres: Seq<Seq<char>>, limit: int) -> Seq<Seq<char>> {
    let all = ids_of_genres(tracks, genres);
    if limit < all.len() {
        all.take(limit)
    } else {
        all
    }
}

/// The ids of the first `limit` tracks whose genre is one of `genres`.
pub fn pick_by_genre(tracks: &Vec<Track>, genres: &Vec<&str>, limit: usize) -> (ids: Vec<TrackId>)
    ensures
        string_views(ids@) == first_ids_of_genres(
            tracks@,
            Seq::new(genres@.len(), |i: int| genres@[i]@),
            limit as int,
        ),
{
    let ghost gs = Seq::new(genres@.len(), |i: int| genres@[i]@);
    let mut out: Vec<TrackId> = Vec::new();
    let n = tracks.len();
    let mut i: usize = 0;
    while i < n
        invariant
            n == tracks@.len(),
            i <= n,
            gs == Seq::new(genres@.len(), |i: int| genres@[i]@),
            string_views(out@) == first_ids_of_genres(tracks@.take(i as int), gs, limit as int),
        decreases n - i,
    {
        let t = &tracks[i];
        let mut found = false;
        let mut g: usize = 0;
        while g < genres.len()
            invariant
                g <= genres@.len(),
                gs == Seq::new(genres@.len(), |i: int| genres@[i]@),
                found == gs.take(g as int).contains(t.genre@),
            decreases genres@.len() - g,
        {
            let same = same_text(t.genre.as_str(), genres[g]);
            proof {
                assert(gs.take(g as int + 1) =~= gs.take(g as int).push(gs[g as int]));
                if gs.take(g as int + 1).contains(t.genre@) {
                    let k = choose|k: int| 0 <= k < g + 1 && #[trigger] gs.take(g as int + 1)[k] == t.genre@;
                    if k < g {
                        assert(gs.take(g as int)[k] == t.genre@);
                    }
                }
                if same {
                    assert(gs.take(g as int + 1)[g as int] == t.genre@);
                }
                if found {
                    let k = choose|k: int| 0 <= k < g && #[trigger] gs.take(g as int)[k] == t.genre@;
                    assert(gs.take(g as int + 1)[k] == t.genre@);
                }
            }
            found = found || same;
            g = g + 1;
        }
        assert(gs.take(genres@.len() as int) =~= gs);
        let ghost prefix = tracks@.take(i as int);
        assert(tracks@.take(i as int + 1).drop_last() =~= prefix);
        assert(tracks@.take(i as int + 1).last() == tracks@[i as int]);
        let ghost before = out@;
        if found && out.len() < limit {
            out.push(t.id.clone());
            proof {
                let all = ids_of_genres(prefix, gs);
                let all1 = ids_of_genres(tracks@.take(i as int + 1), gs);
                assert(string_views(before) == (if limit < all.len() { all.take(limit as int) } else { all }));
                assert(string_views(before).len() == before.len());
                assert(!(limit < all.len()));
                assert(all1 == all.push(tracks@[i as int].id@));
                assert(string_views(out@) =~= string_views(before).push(tracks@[i as int].id@));
                assert(string_views(out@) =~= first_ids_of_genres(tracks@.take(i as int + 1), gs, limit as int));
            }
        } else {
            proof {
                let all = ids_of_genres(prefix, gs);
                let all1 = ids_of_genres(tracks@.take(i as int + 1), gs);
                if found {
                    assert(all1 == all.push(tracks@[i as int].id@));
                    assert(all1.take(limit as int) =~= all.take(limit as int));
                }
            }
        }
        i = i + 1;
    }
    assert(tracks@.take(n as int) =~= tracks@);
    out
}

fn numbered(prefix: &str, n: usize) -> (s: String)
    ensures
        s@ == prefix@ + decimal(n as nat),
{
    let mut s = String::from_str(prefix);
    let d = decimal_string(n as u64);
    s.append(d.as_str());
    s
}

fn track_id_text(a: usize, t: usize) -> (s: String)
    ensures
        s@ == mock_track_id(a as int, t as int),
{
    let mut s = numbered("mock:track:", a);
    s.append(":");
    let d = decimal_string(t as u64);
    s.append(d.as_str());
    s
}

fn track_title_text(a: usize, t: usize) -> (s: String)
    requires
        a < ALBUM_COUNT,
        t < TRACKS_PER_ALBUM,
    ensures
        s@ == mock_album_title(a as int) + " \u{2014} Track "@ + decimal((t + 1) as nat),
{
    let mut s = String::from_str(album_title(a));
    s.append(" \u{2014} Track ");
    let d = decimal_string((t + 1) as u64);
    s.append(d.as_str());
    s
}

fn track_cover_text(a: usize, t: usize) -> (s: String)
    requires
        a < ALBUM_COUNT,
    ensures
        s@ == cover_url_text(mock_album_title(a as int) + "-"@ + decimal(t as nat)),
{
    let mut seed = String::from_str(album_title(a));
    seed.append("-");
    let d = decimal_string(t as u64);
    seed.append(d.as_str());
    make_cover_url(seed.as_str())
}

fn stream_text(a: usize, t: usize) -> (s: String)
    requires
        a < ALBUM_COUNT,
        t < TRACKS_PER_ALBUM,
    ensures
        s@ == "https://mock.stream/"@ + mock_album_title(a as int) + "/"@ + decimal((t + 1) as nat),
{
    let mut s = String::from_str("https://mock.stream/");
    s.append(album_title(a));
    s.append("/");
    let d = decimal_string((t + 1) as u64);
    s.append(d.as_str());
    s
}

fn count_albums_of(i: usize) -> (n: u32)
    ensures
        n == albums_by_artist(i as int, 12),
{
    let mut n: u32 = 0;
    let mut a: usize = 0;
    while a < ALBUM_COUNT
        invariant
            a <= ALBUM_COUNT,
            n == albums_by_artist(i as int, a as int),
            n <= a,
        decreases ALBUM_COUNT - a,
    {
        if a / 2 == i {
            n = n + 1;
        }
        a = a + 1;
    }
    n
}

fn build_artists() -> (artists: Vec<Artist>)
    ensures
        artists@.len() == ARTIST_COUNT,
        forall|i: int| 0 <= i < ARTIST_COUNT ==> #[trigger] is_mock_artist(artists@[i], i),
{
    let mut artists: Vec<Artist> = Vec::new();
    let mut i: usize = 0;
    while i < ARTIST_COUNT
        invariant
            i <= ARTIST_COUNT,
            artists@.len() == i,
            forall|k: int| 0 <= k < i ==> #[trigger] is_mock_artist(artists@[k], k),
        decreases ARTIST_COUNT - i,
    {
        let name = artist_name(i);
        let (g0, g1) = genre_pair(i);
        let mut genres: Vec<String> = Vec::new();
        genres.push(String::from_str(g0));
        genres.push(String::from_str(g1));
        assert(string_views(genres@) =~= mock_artist_genres(i as int));
        let artist = Artist {
            id: numbered("mock:artist:", i),
            name: String::from_str(name),
            image_url: Some(make_cover_url(name)),
            genres,
            album_count: count_albums_of(i),
            provider: String::from_str("mock"),
        };
        artists.push(artist);
        i = i + 1;
    }
    artists
}

/// The catalog's tracks, album by album, and its albums.
fn build_tracks_and_albums() -> (r: (Vec<Track>, Vec<Album>))
    ensures
        r.0@.len() == ALBUM_COUNT * TRACKS_PER_ALBUM,
        forall|a: int, t: int|
            0 <= a < ALBUM_COUNT && 0 <= t < TRACKS_PER_ALBUM ==> #[trigger] is_mock_track(
                r.0@[track_pos(a, t)],
                a,
                t,
            ),
        r.1@.len() == ALBUM_COUNT,
        forall|a: int| 0 <= a < ALBUM_COUNT ==> #[trigger] is_mock_album(r.1@[a], a),
{
    let mut tracks: Vec<Track> = Vec::new();
    let mut albums: Vec<Album> = Vec::new();
    let mut a: usize = 0;
    while a < ALBUM_COUNT
        invariant
            a <= ALBUM_COUNT,
            tracks@.len() == a * 6,
            albums@.len() == a,
            forall|b: int, t: int|
                0 <= b < a && 0 <= t < TRACKS_PER_ALBUM ==> #[trigger] is_mock_track(
                    tracks@[track_pos(b, t)],
                    b,
                    t,
                ),
            forall|b: int| 0 <= b < a ==> #[trigger] is_mock_album(albums@[b], b),
        decreases ALBUM_COUNT - a,
    {
        let artist_idx = a / 2;
        let title = album_title(a);
        let mut album_tracks: Vec<TrackId> = Vec::new();
        let mut album_duration: u64 = 0;
        let mut t: usize = 0;
        while t < TRACKS_PER_ALBUM
            invariant
                a < ALBUM_COUNT,
                artist_idx == a / 2,
                title@ == mock_album_title(a as int),
                t <= TRACKS_PER_ALBUM,
                tracks@.len() == a * 6 + t,
                forall|b: int, u: int|
                    0 <= b < a && 0 <= u < TRACKS_PER_ALBUM ==> #[trigger] is_mock_track(
                        tracks@[track_pos(b, u)],
                        b,
                        u,
                    ),
                forall|u: int| 0 <= u < t ==> #[trigger] is_mock_track(
                    tracks@[track_pos(a as int, u)],
                    a as int,
                    u,
                ),
                album_tracks@.len() == t,
                string_views(album_tracks@) == Seq::new(t as nat, |u: int| mock_track_id(a as int, u)),
                album_duration == album_secs(a as int, t as int) * NANOS_PER_SEC,
                album_duration <= 300 * t * NANOS_PER_SEC,
            decreases TRACKS_PER_ALBUM - t,
        {
            let duration = track_duration(a, t);
            let track_id = track_id_text(a, t);
            let ghost prev_ids = album_tracks@;
            album_tracks.push(track_id.clone());
            assert forall|u: int| 0 <= u < t + 1 implies #[trigger] string_views(album_tracks@)[u] == mock_track_id(a as int, u) by {
                if u < t {
                    assert(album_tracks@[u] == prev_ids[u]);
                    assert(string_views(prev_ids)[u] == mock_track_id(a as int, u));
                }
            }
            assert(string_views(album_tracks@) =~= Seq::new((t + 1) as nat, |u: int| mock_track_id(a as int, u)));
            let track = Track {
                id: track_id,
                title: track_title_text(a, t),
                artist: String::from_str(artist_name(artist_idx)),
                artist_id: numbered("mock:artist:", artist_idx),
                album: String::from_str(title),
                album_id: numbered("mock:album:", a),
                duration_ns: duration,
                track_number: (t + 1) as u32,
                disc_number: 1,
                genre: String::from_str(album_genre(a)),
                year: 2020 + (a % 5) as i32,
                cover_url: Some(track_cover_text(a, t)),
                stream_url: Some(stream_text(a, t)),
                file_path: None,
                provider: String::from_str("mock"),
                is_local: false,
            };
            assert(is_mock_track(track, a as int, t as int));
            assert(track_pos(a as int, t as int) == tracks@.len());
            let ghost prev_tracks = tracks@;
            tracks.push(track);
            assert forall|u: int| 0 <= u < t + 1 implies #[trigger] is_mock_track(tracks@[track_pos(a as int, u)], a as int, u) by {
                if u < t {
                    assert(tracks@[track_pos(a as int, u)] == prev_tracks[track_pos(a as int, u)]);
                }
            }
            album_duration = album_duration + duration;
            t = t + 1;
        }
        let album = Album {
            id: numbered("mock:album:", a),
            title: String::from_str(title),
            artist: String::from_str(artist_name(artist_idx)),
            artist_id: numbered("mock:artist:", artist_idx),
            tracks: album_tracks,
            cover_url: Some(make_cover_url(title)),
            year: 2020 + (a % 5) as i32,
            track_count: 6,
            duration_ns: album_duration,
            provider: String::from_str("mock"),
        };
        albums.push(album);
        a = a + 1;
    }
    (tracks, albums)
}

pub open spec fn mock_playlist_id(p: int) -> Seq<char> {
    if p == 0 {
        "mock:playlist:electronic-essentials"@
    } else if p == 1 {
        "mock:playlist:rock-anthems"@
    } else {
        "mock:playlist:chill-vibes"@
    }
}

pub open spec fn mock_playlist_name(p: int) -> Seq<char> {
    if p == 0 {
        "Electronic Essentials"@
    } else if p == 1 {
        "Rock Anthems"@
    } else {
        "Chill Vibes"@
    }
}

pub open spec fn mock_playlist_description(p: int) -> Seq<char> {
    if p == 0 {
        "Best of electronic and synthwave"@
    } else if p == 1 {
        "Rock and alternative hits"@
    } else {
        "Ambient, lo-fi, and chillhop"@
    }
}

pub open spec fn mock_playlist_seed(p: int) -> Seq<char> {
    if p == 0 {
        "electronic-essentials"@
    } else if p == 1 {
        "rock-anthems"@
    } else {
        "chill-vibes"@
    }
}

/// The genres a playlist gathers.
pub open spec fn mock_playlist_genres(p: int) -> Seq<Seq<char>> {
    if p == 0 {
        seq!["electronic"@, "synthwave"@]
    } else if p == 1 {
        seq!["rock"@, "alternative"@]
    } else {
        seq!["ambient"@, "lo-fi"@, "chillhop"@]
    }
}

/// A playlist of the catalog: the first ten tracks of its genres.
pub open spec fn is_mock_playlist(x: Playlist, p: int, tracks: Seq<Track>) -> bool {
    &&& x.id@ == mock_playlist_id(p)
    &&& x.name@ == mock_playlist_name(p)
    &&& x.description@ == mock_playlist_description(p)
    &&& string_views(x.tracks@) == first_ids_of_genres(tracks, mock_playlist_genres(p), 10)
    &&& opt_view(x.cover_url) == Some(cover_url_text(mock_playlist_seed(p)))
    &&& x.owner@ == "mock-user"@
    &&& x.provider@ == "mock"@
    &&& !x.is_user_created
}

fn make_playlist(
    id: &str,
    name: &str,
    description: &str,
    seed: &str,
    genres: &Vec<&str>,
    tracks: &Vec<Track>,
) -> (p: Playlist)
    ensures
        p.id@ == id@,
        p.name@ == name@,
        p.description@ == description@,
        string_views(p.tracks@) == first_ids_of_genres(
            tracks@,
            Seq::new(genres@.len(), |i: int| genres@[i]@),
            10,
        ),
        opt_view(p.cover_url) == Some(cover_url_text(seed@)),
        p.owner@ == "mock-user"@,
        p.provider@ == "mock"@,
        !p.is_user_created,
{
    Playlist {
        id: String::from_str(id),
        name: String::from_str(name),
        description: String::from_str(description),
        tracks: pick_by_genre(tracks, genres, 10),
        cover_url: Some(make_cover_url(seed)),
        owner: String::from_str("mock-user"),
        provider: String::from_str("mock"),
        is_user_created: false,
        created_at: now_timestamp(),
        updated_at: now_timestamp(),
    }
}

fn build_playlists(tracks: &Vec<Track>) -> (playlists: Vec<Playlist>)
    ensures
        playlists@.len() == 3,
        forall|p: int| 0 <= p < 3 ==> #[trigger] is_mock_playlist(playlists@[p], p, tracks@),
{
    let mut g0: Vec<&str> = Vec::new();
    g0.push("electronic");
    g0.push("synthwave");
    assert(Seq::new(g0@.len(), |i: int| g0@[i]@) =~= mock_playlist_genres(0));
    let mut g1: Vec<&str> = Vec::new();
    g1.push("rock");
    g1.push("alternative");
    assert(Seq::new(g1@.len(), |i: int| g1@[i]@) =~= mock_playlist_genres(1));
    let mut g2: Vec<&str> = Vec::new();
    g2.push("ambient");
    g2.push("lo-fi");
    g2.push("chillhop");
    assert(Seq::new(g2@.len(), |i: int| g2@[i]@) =~= mock_playlist_genres(2));
    let mut playlists: Vec<Playlist> = Vec::new();
    playlists.push(
        make_playlist(
            "mock:playlist:electronic-essentials",
            "Electronic Essentials",
            "Best of electronic and synthwave",
            "electronic-essentials",
            &g0,
            tracks,
        ),
    );
    playlists.push(
        make_playlist(
            "mock:playlist:rock-anthems",
            "Rock Anthems",
            "Rock and alternative hits",
            "rock-anthems",
            &g1,
            tracks,
        ),
    );
    playlists.push(
        make_playlist(
            "mock:playlist:chill-vibes",
            "Chill Vibes",
            "Ambient, lo-fi, and chillhop",
            "chill-vibes",
            &g2,
            tracks,
        ),
    );
    assert(is_mock_playlist(playlists@[0], 0, tracks@));
    assert(is_mock_playlist(playlists@[1], 1, tracks@));
    assert(is_mock_playlist(playlists@[2], 2, tracks@));
    playlists
}

/// The albums by the artist with id `artist_id`, in order.
pub open spec fn albums_by(albums: Seq<Album>, artist_id: Seq<char>) -> Seq<Album>
    decreases albums.len(),
{
    if albums.len() == 0 {
        Seq::<Album>::empty()
    } else {
        let m = albums_by(albums.drop_last(), artist_id);
        if albums.last().artist_id@ == artist_id {
            m.push(albums.last())
        } else {
            m
        }
    }
}

/// The tracks by the artist with id `artist_id`, in order.
pub open spec fn tracks_by(tracks: Seq<Track>, artist_id: Seq<char>) -> Seq<Track>
    decreases tracks.len(),
{
    if tracks.len() == 0 {
        Seq::<Track>::empty()
    } else {
        let m = tracks_by(tracks.drop_last(), artist_id);
        if tracks.last().artist_id@ == artist_id {
            m.push(tracks.last())
        } else {
            m
        }
    }
}

/// Copies of the albums by the artist with id `artist_id`.
pub fn filter_albums_by(albums: &Vec<Album>, artist_id: &str) -> (r: Vec<Album>)
    ensures
        same_items(r@, albums_by(albums@, artist_id@)),
{
    let mut out: Vec<Album> = Vec::new();
    let n = albums.len();
    let mut i: usize = 0;
    while i < n
        invariant
            n == albums@.len(),
            i <= n,
            same_items(out@, albums_by(albums@.take(i as int), artist_id@)),
        decreases n - i,
    {
        let ghost before = out@;
        assert(albums@.take(i as int + 1).drop_last() =~= albums@.take(i as int));
        if same_text(albums[i].artist_id.as_str(), artist_id) {
            out.push(albums[i].duplicate());
            assert forall|k: int| 0 <= k < out@.len() implies #[trigger] out@[k].same_as(
                &albums_by(albums@.take(i as int + 1), artist_id@)[k],
            ) by {
                if k < before.len() {
                    assert(out@[k] == before[k]);
                }
            }
        }
        i = i + 1;
    }
    assert(albums@.take(n as int) =~= albums@);
    out
}

/// Copies of the tracks by the artist with id `artist_id`.
pub fn filter_tracks_by(tracks: &Vec<Track>, artist_id: &str) -> (r: Vec<Track>)
    ensures
        r@ == tracks_by(tracks@, artist_id@),
{
    let mut out: Vec<Track> = Vec::new();
    let n = tracks.len();
    let mut i: usize = 0;
    while i < n
        invariant
            n == tracks@.len(),
            i <= n,
            out@ == tracks_by(tracks@.take(i as int), artist_id@),
        decreases n - i,
    {
        assert(tracks@.take(i as int + 1).drop_last() =~= tracks@.take(i as int));
        if same_text(tracks[i].artist_id.as_str(), artist_id) {
            out.push(tracks[i].duplicate());
        }
        i = i + 1;
    }
    assert(tracks@.take(n as int) =~= tracks@);
    out
}

/// The genres of `tracks`, in order.
pub fn genres_of(tracks: &Vec<Track>) -> (g: Vec<String>)
    ensures
        string_views(g@) == Seq::new(tracks@.len(), |k: int| tracks@[k].genre@),
{
    let mut g: Vec<String> = Vec::new();
    let n = tracks.len();
    let mut i: usize = 0;
    while i < n
        invariant
            n == tracks@.len(),
            i <= n,
            g@.len() == i,
            string_views(g@) == Seq::new(i as nat, |k: int| tracks@[k].genre@),
        decreases n - i,
    {
        let ghost before = g@;
        g.push(tracks[i].genre.clone());
        assert forall|k: int| 0 <= k < i + 1 implies #[trigger] string_views(g@)[k] == tracks@[k].genre@ by {
            if k < i {
                assert(g@[k] == before[k]);
                assert(string_views(before)[k] == tracks@[k].genre@);
            }
        }
        assert(string_views(g@) =~= Seq::new((i + 1) as nat, |k: int| tracks@[k].genre@));
        i = i + 1;
    }
    g
}

/// The demo provider and its catalog.
#[derive(Debug)]
pub struct MockProvider {
    id: ProviderId,
    name: String,
    artists: Vec<Artist>,
    albums: Vec<Album>,
    tracks: Vec<Track>,
    playlists: Vec<Playlist>,
}

impl MockProvider {
    pub closed spec fn spec_id(&self) -> Seq<char> {
        self.id@
    }

    pub closed spec fn spec_name(&self) -> Seq<char> {
        self.name@
    }

    pub closed spec fn spec_artists(&self) -> Seq<Artist> {
        self.artists@
    }

    pub closed spec fn spec_albums(&self) -> Seq<Album> {
        self.albums@
    }

    pub closed spec fn spec_tracks(&self) -> Seq<Track> {
        self.tracks@
    }

    pub closed spec fn spec_playlists(&self) -> Seq<Playlist> {
        self.playlists@
    }

    /// The provider holds the demo catalog.
    pub open spec fn is_catalog(&self) -> bool {
        &&& self.spec_id() == "mock"@
        &&& self.spec_name() == "Mock Provider"@
        &&& self.spec_artists().len() == ARTIST_COUNT
        &&& forall|i: int| 0 <= i < ARTIST_COUNT ==> #[trigger] is_mock_artist(self.spec_artists()[i], i)
        &&& self.spec_albums().len() == ALBUM_COUNT
        &&& forall|a: int| 0 <= a < ALBUM_COUNT ==> #[trigger] is_mock_album(self.spec_albums()[a], a)
        &&& self.spec_tracks().len() == ALBUM_COUNT * TRACKS_PER_ALBUM
        &&& forall|a: int, t: int|
            0 <= a < ALBUM_COUNT && 0 <= t < TRACKS_PER_ALBUM ==> #[trigger] is_mock_track(
                self.spec_tracks()[track_pos(a, t)],
                a,
                t,
            )
        &&& self.spec_playlists().len() == 3
        &&& forall|p: int| 0 <= p < 3 ==> #[trigger] is_mock_playlist(self.spec_playlists()[p], p, self.spec_tracks())
    }

    pub fn new() -> (m: Self)
        ensures
            m.is_catalog(),
    {
        let artists = build_artists();
        let (tracks, albums) = build_tracks_and_albums();
        let playlists = build_playlists(&tracks);
        MockProvider {
            id: String::from_str("mock"),
            name: String::from_str("Mock Provider"),
            artists,
            albums,
            tracks,
            playlists,
        }
    }

    pub fn id(&self) -> (r: ProviderId)
        ensures
            r@ == self.spec_id(),
    {
        self.id.clone()
    }

    pub fn name(&self) -> (r: &str)
        ensures
            r@ == self.spec_name(),
    {
        self.name.as_str()
    }

    pub fn is_authenticated(&self) -> (b: bool)
        ensures
            b,
    {
        true
    }

    pub fn search_tracks(&self, query: &str, limit: u32, offset: u32) -> (r: Result<Vec<Track>>)
        ensures
            r is Ok,
            r matches Ok(v) && same_items(
                v@,
                page_of(searched(self.spec_tracks(), query@), limit as nat, offset as nat),
            ),
    {
        let results = search_filter(&self.tracks, query);
        let ghost all = results@;
        let v = page(results, limit, offset);
        proof {
            crate::provider::catalog::lemma_same_items_page(all, searched(self.tracks@, query@), limit as nat, offset as nat);
        }
        Ok(v)
    }

    pub fn search_albums(&self, query: &str, limit: u32, offset: u32) -> (r: Result<Vec<Album>>)
        ensures
            r is Ok,
            r matches Ok(v) && same_items(
                v@,
                page_of(searched(self.spec_albums(), query@), limit as nat, offset as nat),
            ),
    {
        let results = search_filter(&self.albums, query);
        let ghost all = results@;
        let v = page(results, limit, offset);
        proof {
            crate::provider::catalog::lemma_same_items_page(all, searched(self.albums@, query@), limit as nat, offset as nat);
        }
        Ok(v)
    }

    pub fn search_artists(&self, query: &str, limit: u32, offset: u32) -> (r: Result<Vec<Artist>>)
        ensures
            r is Ok,
            r matches Ok(v) && same_items(
                v@,
                page_of(searched(self.spec_artists(), query@), limit as nat, offset as nat),
            ),
    {
        let results = search_filter(&self.artists, query);
        let ghost all = results@;
        let v = page(results, limit, offset);
        proof {
            crate::provider::catalog::lemma_same_items_page(all, searched(self.artists@, query@), limit as nat, offset as nat);
        }
        Ok(v)
    }

    pub fn search_playlists(&self, query: &str, limit: u32, offset: u32) -> (r: Result<Vec<Playlist>>)
        ensures
            r is Ok,
            r matches Ok(v) && same_items(
                v@,
                page_of(searched(self.spec_playlists(), query@), limit as nat, offset as nat),
            ),
    {
        let results = search_filter(&self.playlists, query);
        let ghost all = results@;
        let v = page(results, limit, offset);
        proof {
            crate::provider::catalog::lemma_same_items_page(all, searched(self.playlists@, query@), limit as nat, offset as nat);
        }
        Ok(v)
    }

    /// Searches tracks, albums, artists and playlists alike; the total counts
    /// what was found.
    pub fn search(&self, query: &str, limit: u32, offset: u32) -> (r: Result<SearchResults>)
        ensures
            r is Ok,
            r matches Ok(s) && {
                &&& same_items(s.tracks@, page_of(searched(self.spec_tracks(), query@), limit as nat, offset as nat))
                &&& same_items(s.albums@, page_of(searched(self.spec_albums(), query@), limit as nat, offset as nat))
                &&& same_items(s.artists@, page_of(searched(self.spec_artists(), query@), limit as nat, offset as nat))
                &&& same_items(s.playlists@, page_of(searched(self.spec_playlists(), query@), limit as nat, offset as nat))
                &&& s.query@ == query@
                &&& s.total_results == (s.tracks@.len() + s.albums@.len() + s.artists@.len() + s.playlists@.len()) as u32
            },
    {
        let tracks = match self.search_tracks(query, limit, offset) {
            Ok(v) => v,
            Err(e) => return Err(e),
        };
        let albums = match self.search_albums(query, limit, offset) {
            Ok(v) => v,
            Err(e) => return Err(e),
        };
        let artists = match self.search_artists(query, limit, offset) {
            Ok(v) => v,
            Err(e) => return Err(e),
        };
        let playlists = match self.search_playlists(query, limit, offset) {
            Ok(v) => v,
            Err(e) => return Err(e),
        };
        let total = (tracks.len() as u64 + albums.len() as u64 + artists.len() as u64
            + playlists.len() as u64) as u32;
        Ok(
            SearchResults {
                tracks,
                albums,
                artists,
                playlists,
                query: String::from_str(query),
                total_results: total,
            },
        )
    }

    pub fn track(&self, id: &TrackId) -> (r: Result<Track>)
        ensures
            match position_of_id(self.spec_tracks(), id@) {
                Some(k) => r matches Ok(t) && t == self.spec_tracks()[k],
                None => r matches Err(SymphonyError::NotFound(m)) && m@ == not_found_text("Track"@, id@),
            },
    {
        match find_by_id(&self.tracks, id.as_str()) {
            Some(t) => Ok(t),
            None => Err(not_found_error("Track", id.as_str())),
        }
    }

    pub fn album(&self, id: &String) -> (r: Result<Album>)
        ensures
            match position_of_id(self.spec_albums(), id@) {
                Some(k) => r matches Ok(x) && x.same_as(&self.spec_albums()[k]),
                None => r matches Err(SymphonyError::NotFound(m)) && m@ == not_found_text("Album"@, id@),
            },
    {
        match find_by_id(&self.albums, id.as_str()) {
            Some(t) => Ok(t),
            None => Err(not_found_error("Album", id.as_str())),
        }
    }

    pub fn artist(&self, id: &String) -> (r: Result<Artist>)
        ensures
            match position_of_id(self.spec_artists(), id@) {
                Some(k) => r matches Ok(x) && x.same_as(&self.spec_artists()[k]) && x.id@ == id@,
                None => r matches Err(SymphonyError::NotFound(m)) && m@ == not_found_text("Artist"@, id@),
            },
    {
        match find_by_id(&self.artists, id.as_str()) {
            Some(t) => Ok(t),
            None => Err(not_found_error("Artist", id.as_str())),
        }
    }

    pub fn playlist(&self, id: &String) -> (r: Result<Playlist>)
        ensures
            match position_of_id(self.spec_playlists(), id@) {
                Some(k) => r matches Ok(x) && x.same_as(&self.spec_playlists()[k]),
                None => r matches Err(SymphonyError::NotFound(m)) && m@ == not_found_text("Playlist"@, id@),
            },
    {
        match find_by_id(&self.playlists, id.as_str()) {
            Some(t) => Ok(t),
            None => Err(not_found_error("Playlist", id.as_str())),
        }
    }

    /// The albums of an artist of the catalog.
    pub fn artist_albums(&self, id: &String) -> (r: Result<Vec<Album>>)
        ensures
            match position_of_id(self.spec_artists(), id@) {
                Some(k) => r matches Ok(v) && same_items(v@, albums_by(self.spec_albums(), id@)),
                None => r matches Err(SymphonyError::NotFound(m)) && m@ == not_found_text("Artist"@, id@),
            },
    {
        let artist = match self.artist(id) {
            Ok(a) => a,
            Err(e) => return Err(e),
        };
        Ok(filter_albums_by(&self.albums, artist.id.as_str()))
    }

    /// The first five tracks of an artist of the catalog.
    pub fn artist_top_tracks(&self, id: &String) -> (r: Result<Vec<Track>>)
        ensures
            match position_of_id(self.spec_artists(), id@) {
                Some(k) => r matches Ok(v) && v@ == (if 5 < tracks_by(self.spec_tracks(), id@).len() {
                    tracks_by(self.spec_tracks(), id@).take(5)
                } else {
                    tracks_by(self.spec_tracks(), id@)
                }),
                None => r matches Err(SymphonyError::NotFound(m)) && m@ == not_found_text("Artist"@, id@),
            },
    {
        let artist = match self.artist(id) {
            Ok(a) => a,
            Err(e) => return Err(e),
        };
        let mut all = filter_tracks_by(&self.tracks, artist.id.as_str());
        all.truncate(5);
        Ok(all)
    }

    /// The track's stream address, or the demo default when it has none.
    pub fn resolve_stream_url(&self, track: &Track) -> (r: Result<String>)
        ensures
            r matches Ok(u) && u@ == match track.stream_url {
                Some(s) => s@,
                None => "https://mock.stream/default"@,
            },
    {
        match &track.stream_url {
            Some(s) => Ok(s.clone()),
            None => Ok(String::from_str("https://mock.stream/default")),
        }
    }

    /// The last `limit` albums of the catalog, newest first.
    pub fn browse_new_releases(&self, limit: u32) -> (r: Result<Vec<Album>>)
        ensures
            r matches Ok(v) && same_items(
                v@,
                self.spec_albums().reverse().take(
                    if (limit as int) < self.spec_albums().len() { limit as int } else { self.spec_albums().len() as int },
                ),
            ),
    {
        Ok(take_last_reversed(&self.albums, limit as usize))
    }

    /// The genres of the catalog's tracks, each once, in increasing order.
    pub fn browse_categories(&self) -> (r: Result<Vec<String>>)
        ensures
            r matches Ok(v) && strictly_sorted(string_views(v@)) && forall|x: Seq<char>|
                string_views(v@).contains(x) <==> exists|k: int|
                    0 <= k < self.spec_tracks().len() && #[trigger] self.spec_tracks()[k].genre@ == x,
    {
        let genres = genres_of(&self.tracks);
        let v = sorted_distinct(&genres);
        proof {
            assert forall|x: Seq<char>| string_views(v@).contains(x) <==> exists|k: int|
                0 <= k < self.tracks@.len() && #[trigger] self.tracks@[k].genre@ == x by {
                if string_views(genres@).contains(x) {
                    let k = choose|k: int| 0 <= k < string_views(genres@).len() && string_views(genres@)[k] == x;
                    assert(self.tracks@[k].genre@ == x);
                }
                if exists|k: int| 0 <= k < self.tracks@.len() && #[trigger] self.tracks@[k].genre@ == x {
                    let k = choose|k: int| 0 <= k < self.tracks@.len() && #[trigger] self.tracks@[k].genre@ == x;
                    assert(string_views(genres@)[k] == x);
                }
            }
        }
        Ok(v)
    }

    /// The first `limit` playlists of the catalog.
    pub fn browse_featured_playlists(&self, limit: u32) -> (r: Result<Vec<Playlist>>)
        ensures
            r matches Ok(v) && same_items(
                v@,
                self.spec_playlists().take(
                    if (limit as int) < self.spec_playlists().len() { limit as int } else { self.spec_playlists().len() as int },
                ),
            ),
    {
        Ok(take_first(&self.playlists, limit as usize))
    }
}

/// Two tracks hold the same texts and numbers.
pub open spec fn same_track_content(x: Track, y: Track) -> bool {
    &&& x.id@ == y.id@
    &&& x.title@ == y.title@
    &&& x.artist@ == y.artist@
    &&& x.artist_id@ == y.artist_id@
    &&& x.album@ == y.album@
    &&& x.album_id@ == y.album_id@
    &&& x.duration_ns == y.duration_ns
    &&& x.track_number == y.track_number
    &&& x.disc_number == y.disc_number
    &&& x.genre@ == y.genre@
    &&& x.year == y.year
    &&& opt_view(x.cover_url) == opt_view(y.cover_url)
    &&& opt_view(x.stream_url) == opt_view(y.stream_url)
    &&& opt_view(x.file_path) == opt_view(y.file_path)
    &&& x.provider@ == y.provider@
    &&& x.is_local == y.is_local
}

/// The demo catalog is the same every time it is made: any two hold, at each
/// place, tracks with the same ids and content.
pub proof fn lemma_catalog_stable(p: &MockProvider, q: &MockProvider)
    requires
        p.is_catalog(),
        q.is_catalog(),
    ensures
        p.spec_tracks().len() == q.spec_tracks().len(),
        forall|a: int, t: int|
            0 <= a < ALBUM_COUNT && 0 <= t < TRACKS_PER_ALBUM ==> same_track_content(
                p.spec_tracks()[#[trigger] track_pos(a, t)],
                q.spec_tracks()[track_pos(a, t)],
            ),
{
    assert forall|a: int, t: int| 0 <= a < ALBUM_COUNT && 0 <= t < TRACKS_PER_ALBUM implies same_track_content(
        p.spec_tracks()[#[trigger] track_pos(a, t)],
        q.spec_tracks()[track_pos(a, t)],
    ) by {
        assert(is_mock_track(p.spec_tracks()[track_pos(a, t)], a, t));
        assert(is_mock_track(q.spec_tracks()[track_pos(a, t)], a, t));
    }
}

} // verus!
