//! The provider of the music files on this machine: which files it takes,
//! what it reads of them, how it groups them into artists and albums, and its
//! ranked fuzzy search. Walking the directories and reading the tags of a file
//! are done by the program around the library, which hands over what it found.

use vstd::prelude::*;
use vstd::string::*;

use crate::config::{audio_extensions, texts, LocalProviderConfig};
use crate::errors::{Result, SymphonyError};
use crate::provider::catalog::{
    copy_strings, find_by_id, lemma_same_items_page, lowercase, not_found_error, not_found_text,
    page, page_of, position_of_id, same_items, same_text, sorted_distinct, strictly_sorted,
    text_before, text_less, to_lower, CatalogItem,
};
use crate::provider::mock::{albums_by, filter_albums_by, filter_tracks_by, tracks_by};
use crate::text::string_views;
use crate::types::{Album, Artist, Playlist, ProviderId, SearchResults, Track};

verus! {

/// `uuid::Uuid::new_v4`, as text: a random identifier. It rests on chance,
/// so nothing is stated of it.
#[verifier::external_body]
fn random_id() -> String {
    uuid::Uuid::new_v4().to_string()
}

/// `Path::extension`: the part of a path's file name after its last dot,
/// where there is one that does not open the name. Which part is the file
/// name follows std's reading of path components, so the result is named.
pub uninterp spec fn path_extension(path: Seq<char>) -> Option<Seq<char>>;

/// `Path::file_stem`: a path's file name without its extension; named for
/// the same reason as `path_extension`.
pub uninterp spec fn path_stem(path: Seq<char>) -> Option<Seq<char>>;

/// `Path::extension` of a path given as text; the result is named by
/// `path_extension`. A part of a text is text, so the conversion back keeps it.
#[verifier::external_body]
fn extension_of(path: &str) -> (r: Option<String>)
    ensures
        match r {
            Some(e) => path_extension(path@) == Some(e@),
            None => path_extension(path@) is None,
        },
{
    match std::path::Path::new(path).extension() {
        Some(e) => e.to_str().map(|s| s.to_string()),
        None => None,
    }
}

/// `Path::file_stem` of a path given as text; the result is named by
/// `path_stem`.
#[verifier::external_body]
fn stem_of(path: &str) -> (r: Option<String>)
    ensures
        match r {
            Some(e) => path_stem(path@) == Some(e@),
            None => path_stem(path@) is None,
        },
{
    match std::path::Path::new(path).file_stem() {
        Some(e) => e.to_str().map(|s| s.to_string()),
        None => None,
    }
}

/// The score that `fuzzy_matcher::skim::fuzzy_match` gives a text for a
/// pattern, or none when the pattern's characters do not occur in order.
/// The scoring takes pages to state, so it is named.
pub uninterp spec fn fuzzy_score(choice: Seq<char>, pattern: Seq<char>) -> Option<i64>;

/// `fuzzy_matcher::skim::fuzzy_match`. Its source returns a score of zero
/// for an empty pattern; otherwise the result is named by `fuzzy_score`.
#[verifier::external_body]
fn fuzzy_match_score(choice: &str, pattern: &str) -> (r: Option<i64>)
    ensures
        r == fuzzy_score(choice@, pattern@),
        pattern@.len() == 0 ==> r == Some(0i64),
{
    fuzzy_matcher::skim::fuzzy_match(choice, pattern)
}

/// A file that the directory walk found, with the tags read from it: title,
/// artist and album, each empty where the file has none. No tags at all when
/// the file could not be read.
#[derive(Debug, Clone)]
pub struct ScannedFile {
    pub path: String,
    pub tags: Option<(String, String, String)>,
}

/// The texts of the tags.
pub open spec fn tags_view(t: Option<(String, String, String)>) -> Option<(Seq<char>, Seq<char>, Seq<char>)> {
    match t {
        Some((a, b, c)) => Some((a@, b@, c@)),
        None => None,
    }
}

/// A path's extension in lowercase; an empty text where it has none.
pub open spec fn file_extension(path: Seq<char>) -> Seq<char> {
    lowercase(
        match path_extension(path) {
            Some(e) => e,
            None => Seq::<char>::empty(),
        },
    )
}

/// A path's file name without extension, or "Unknown".
pub open spec fn file_title(path: Seq<char>) -> Seq<char> {
    match path_stem(path) {
        Some(s) => s,
        None => "Unknown"@,
    }
}

/// A tag, or a fallback where it is empty.
pub open spec fn or_fallback(tag: Seq<char>, fallback: Seq<char>) -> Seq<char> {
    if tag.len() > 0 {
        tag
    } else {
        fallback
    }
}

/// What is read of a file: its title, artist and album, taken from the tags
/// where they are given; else the error's message for a file that is not
/// audio.
pub open spec fn file_metadata(path: Seq<char>, tags: Option<(Seq<char>, Seq<char>, Seq<char>)>) -> std::result::Result<
    (Seq<char>, Seq<char>, Seq<char>),
    Seq<char>,
> {
    let ext = file_extension(path);
    if !audio_extensions().contains(ext) {
        Err("Unsupported file extension: "@ + ext)
    } else {
        let (t, a, al) = match tags {
            Some(x) => x,
            None => (Seq::<char>::empty(), Seq::<char>::empty(), Seq::<char>::empty()),
        };
        Ok((or_fallback(t, file_title(path)), or_fallback(a, "Unknown Artist"@), or_fallback(al, "Unknown Album"@)))
    }
}

/// The extension of a path in lowercase.
fn extension_text(path: &str) -> (e: String)
    ensures
        e@ == file_extension(path@),
{
    match extension_of(path) {
        Some(x) => to_lower(x.as_str()),
        None => {
            let empty = String::new();
            to_lower(empty.as_str())
        },
    }
}

/// Whether `list` holds the text `s`.
fn list_holds(list: &Vec<String>, s: &str) -> (r: bool)
    ensures
        r == texts(list@).contains(s@),
{
    let mut i: usize = 0;
    while i < list.len()
        invariant
            i <= list@.len(),
            forall|k: int| 0 <= k < i ==> list@[k]@ != s@,
        decreases list@.len() - i,
    {
        if same_text(list[i].as_str(), s) {
            assert(texts(list@)[i as int] == s@);
            return true;
        }
        i = i + 1;
    }
    proof {
        if texts(list@).contains(s@) {
            let k = choose|k: int| 0 <= k < texts(list@).len() && texts(list@)[k] == s@;
            assert(list@[k]@ == s@);
        }
    }
    false
}

fn supported_extensions() -> (v: Vec<String>)
    ensures
        texts(v@) == audio_extensions(),
{
    let v = vec![
        String::from_str("mp3"),
        String::from_str("flac"),
        String::from_str("wav"),
        String::from_str("ogg"),
        String::from_str("aac"),
        String::from_str("m4a"),
        String::from_str("opus"),
    ];
    assert(texts(v@) =~= audio_extensions());
    v
}

/// A tag, or the fallback where it is empty.
fn tag_or(tag: &String, fallback: String) -> (r: String)
    ensures
        r@ == or_fallback(tag@, fallback@),
{
    if tag.as_str().is_empty() {
        fallback
    } else {
        tag.clone()
    }
}

/// Reads a file's title, artist and album from its tags, with the file name,
/// "Unknown Artist" and "Unknown Album" standing in for missing ones; a file
/// whose extension is not one of audio is refused. Durations are not read.
pub fn read_metadata(path: &str, tags: &Option<(String, String, String)>) -> (r: Result<(String, String, String, u64)>)
    ensures
        match file_metadata(path@, tags_view(*tags)) {
            Ok((t, a, al)) => r matches Ok(x) && x.0@ == t && x.1@ == a && x.2@ == al && x.3 == 0,
            Err(m) => r matches Err(SymphonyError::Unsupported(e)) && e@ == m,
        },
{
    let ext = extension_text(path);
    let supported = supported_extensions();
    if !list_holds(&supported, ext.as_str()) {
        let mut m = String::from_str("Unsupported file extension: ");
        m.append(ext.as_str());
        return Err(SymphonyError::unsupported(m));
    }
    let filename = match stem_of(path) {
        Some(s) => s,
        None => String::from_str("Unknown"),
    };
    let empty = String::new();
    let (t, a, al) = match tags {
        Some((t, a, al)) => (t, a, al),
        None => (&empty, &empty, &empty),
    };
    let title = tag_or(t, filename);
    let artist = tag_or(a, String::from_str("Unknown Artist"));
    let album = tag_or(al, String::from_str("Unknown Album"));
    Ok((title, artist, album, 0))
}

/// The id of the track at `path`.
pub open spec fn track_id_text(path: Seq<char>) -> Seq<char> {
    "local:"@ + path
}

/// The id of the album `album` by `artist`.
pub open spec fn album_id_text(album: Seq<char>, artist: Seq<char>) -> Seq<char> {
    "local:album:"@ + artist + "/"@ + album
}

/// The id of the artist `artist`.
pub open spec fn artist_id_text(artist: Seq<char>) -> Seq<char> {
    "local:artist:"@ + artist
}

/// The address that streams the file at `path`.
pub open spec fn stream_text(path: Seq<char>) -> Seq<char> {
    "file://"@ + path
}

/// "local:<path>".
pub fn path_to_track_id(path: &str) -> (s: String)
    ensures
        s@ == track_id_text(path@),
{
    let mut s = String::from_str("local:");
    s.append(path);
    s
}

/// "local:album:<artist>/<album>".
pub fn path_to_album_id(album: &str, artist: &str) -> (s: String)
    ensures
        s@ == album_id_text(album@, artist@),
{
    let mut s = String::from_str("local:album:");
    s.append(artist);
    s.append("/");
    s.append(album);
    s
}

/// "local:artist:<artist>".
pub fn path_to_artist_id(artist: &str) -> (s: String)
    ensures
        s@ == artist_id_text(artist@),
{
    let mut s = String::from_str("local:artist:");
    s.append(artist);
    s
}

/// What a file gives once read: its path, title, artist and album.
pub type FileEntry = (Seq<char>, Seq<char>, Seq<char>, Seq<char>);

/// An album as grouped: its id, title, artist, and the ids of its tracks.
pub type AlbumGroup = (Seq<char>, Seq<char>, Seq<char>, Seq<Seq<char>>);

/// Whether a file's extension, in lowercase, is among `exts`.
pub open spec fn takes_file(exts: Seq<Seq<char>>, path: Seq<char>) -> bool {
    exts.contains(file_extension(path))
}

/// The files that are taken and read, in the order found.
pub open spec fn scanned_entries(exts: Seq<Seq<char>>, files: Seq<ScannedFile>) -> Seq<FileEntry>
    decreases files.len(),
{
    if files.len() == 0 {
        Seq::<FileEntry>::empty()
    } else {
        let prev = scanned_entries(exts, files.drop_last());
        let f = files.last();
        if takes_file(exts, f.path@) {
            match file_metadata(f.path@, tags_view(f.tags)) {
                Ok((t, a, al)) => prev.push((f.path@, t, a, al)),
                Err(_) => prev,
            }
        } else {
            prev
        }
    }
}

/// The position of the first key equal to `id`.
pub open spec fn first_key(keys: Seq<Seq<char>>, id: Seq<char>) -> Option<int>
    decreases keys.len(),
{
    if keys.len() == 0 {
        None
    } else if keys[0] == id {
        Some(0)
    } else {
        match first_key(keys.drop_first(), id) {
            Some(k) => Some(k + 1),
            None => None,
        }
    }
}

/// Where the first key equal to `id` stands, no earlier key equals it; with
/// none, no key equals it.
pub proof fn lemma_first_key_facts(keys: Seq<Seq<char>>, id: Seq<char>)
    ensures
        match first_key(keys, id) {
            Some(k) => 0 <= k < keys.len() && keys[k] == id && forall|j: int| 0 <= j < k ==> #[trigger] keys[j] != id,
            None => !keys.contains(id),
        },
{
    lemma_first_key(keys, id);
    if first_key(keys, id) is None && keys.contains(id) {
        let j = choose|j: int| 0 <= j < keys.len() && keys[j] == id;
        assert(keys[j] != id);
    }
}

proof fn lemma_first_key(keys: Seq<Seq<char>>, id: Seq<char>)
    ensures
        match first_key(keys, id) {
            Some(k) => 0 <= k < keys.len() && keys[k] == id && forall|j: int| 0 <= j < k ==> #[trigger] keys[j] != id,
            None => forall|j: int| 0 <= j < keys.len() ==> #[trigger] keys[j] != id,
        },
    decreases keys.len(),
{
    if keys.len() > 0 {
        lemma_first_key(keys.drop_first(), id);
        assert forall|j: int| 0 < j < keys.len() implies #[trigger] keys[j] == keys.drop_first()[j - 1] by {}
    }
}

/// The ids of the items.
pub open spec fn ids_of<T: CatalogItem>(items: Seq<T>) -> Seq<Seq<char>> {
    Seq::new(items.len(), |k: int| items[k].item_id())
}

/// The position of the first item with id `id`.
pub(crate) fn position_by_id<T: CatalogItem>(items: &Vec<T>, id: &str) -> (r: Option<usize>)
    ensures
        match r {
            Some(k) => k < items@.len() && first_key(ids_of(items@), id@) == Some(k as int),
            None => first_key(ids_of(items@), id@) is None,
        },
{
    let mut i: usize = 0;
    while i < items.len()
        invariant
            i <= items@.len(),
            forall|j: int| 0 <= j < i ==> #[trigger] items@[j].item_id() != id@,
        decreases items@.len() - i,
    {
        if same_text(items[i].id_text(), id) {
            proof {
                lemma_first_key(ids_of(items@), id@);
                assert(ids_of(items@)[i as int] == id@);
                match first_key(ids_of(items@), id@) {
                    Some(k) => {
                        if k < i {
                            assert(ids_of(items@)[k] == items@[k].item_id());
                        }
                    },
                    None => {},
                }
            }
            return Some(i);
        }
        i = i + 1;
    }
    proof {
        lemma_first_key(ids_of(items@), id@);
        match first_key(ids_of(items@), id@) {
            Some(k) => {
                assert(ids_of(items@)[k] == items@[k].item_id());
            },
            None => {},
        }
    }
    None
}

/// The ids of the tracks that entries give.
pub open spec fn entry_ids(es: Seq<FileEntry>) -> Seq<Seq<char>> {
    Seq::new(es.len(), |k: int| track_id_text(es[k].0))
}

/// The entries that become tracks: one per path, where a later entry for the
/// same path replaces the earlier one in its place.
pub open spec fn track_entries(es: Seq<FileEntry>) -> Seq<FileEntry>
    decreases es.len(),
{
    if es.len() == 0 {
        Seq::<FileEntry>::empty()
    } else {
        let prev = track_entries(es.drop_last());
        let e = es.last();
        match first_key(entry_ids(prev), track_id_text(e.0)) {
            Some(k) => prev.update(k, e),
            None => prev.push(e),
        }
    }
}

/// The ids of artists by name.
pub open spec fn artist_ids(names: Seq<Seq<char>>) -> Seq<Seq<char>> {
    Seq::new(names.len(), |k: int| artist_id_text(names[k]))
}

/// The artists of the entries, each once, in the order first met.
pub open spec fn artist_names(es: Seq<FileEntry>) -> Seq<Seq<char>>
    decreases es.len(),
{
    if es.len() == 0 {
        Seq::<Seq<char>>::empty()
    } else {
        let prev = artist_names(es.drop_last());
        let e = es.last();
        match first_key(artist_ids(prev), artist_id_text(e.2)) {
            Some(_) => prev,
            None => prev.push(e.2),
        }
    }
}

/// The ids of album groups.
pub open spec fn group_ids(gs: Seq<AlbumGroup>) -> Seq<Seq<char>> {
    Seq::new(gs.len(), |k: int| gs[k].0)
}

/// The albums that the tracks make, in the order first met: each takes its
/// title and artist from its first track and lists its tracks in order.
pub open spec fn album_groups(te: Seq<FileEntry>) -> Seq<AlbumGroup>
    decreases te.len(),
{
    if te.len() == 0 {
        Seq::<AlbumGroup>::empty()
    } else {
        let prev = album_groups(te.drop_last());
        let e = te.last();
        let aid = album_id_text(e.3, e.2);
        match first_key(group_ids(prev), aid) {
            Some(k) => prev.update(k, (prev[k].0, prev[k].1, prev[k].2, prev[k].3.push(track_id_text(e.0)))),
            None => prev.push((aid, e.3, e.2, seq![track_id_text(e.0)])),
        }
    }
}

/// The album count an artist ends with: the number of albums there were when
/// the last of its tracks was grouped; none without tracks.
pub open spec fn artist_album_count(te: Seq<FileEntry>, aid: Seq<char>) -> nat
    decreases te.len(),
{
    if te.len() == 0 {
        0
    } else if artist_id_text(te.last().2) == aid {
        album_groups(te).len()
    } else {
        artist_album_count(te.drop_last(), aid)
    }
}

/// The track that a file entry becomes.
pub open spec fn is_local_track(t: Track, provider: Seq<char>, e: FileEntry) -> bool {
    &&& t.id@ == track_id_text(e.0)
    &&& t.title@ == e.1
    &&& t.artist@ == e.2
    &&& t.artist_id@ == artist_id_text(e.2)
    &&& t.album@ == e.3
    &&& t.album_id@ == album_id_text(e.3, e.2)
    &&& t.duration_ns == 0
    &&& t.track_number == 0
    &&& t.disc_number == 1
    &&& t.genre@.len() == 0
    &&& t.year == 0
    &&& t.cover_url is None
    &&& t.stream_url matches Some(u) && u@ == stream_text(e.0)
    &&& t.file_path matches Some(f) && f@ == e.0
    &&& t.provider@ == provider
    &&& t.is_local
}

/// The artist of that name, with its album count.
pub open spec fn is_local_artist(a: Artist, provider: Seq<char>, name: Seq<char>, count: nat) -> bool {
    &&& a.id@ == artist_id_text(name)
    &&& a.name@ == name
    &&& a.image_url is None
    &&& a.genres@.len() == 0
    &&& a.album_count == count as u32
    &&& a.provider@ == provider
}

/// The album of a group.
pub open spec fn is_local_album(a: Album, provider: Seq<char>, g: AlbumGroup) -> bool {
    &&& a.id@ == g.0
    &&& a.title@ == g.1
    &&& a.artist@ == g.2
    &&& a.artist_id@ == artist_id_text(g.2)
    &&& string_views(a.tracks@) == g.3
    &&& a.cover_url is None
    &&& a.year == 0
    &&& a.track_count == g.3.len() as u32
    &&& a.duration_ns == 0
    &&& a.provider@ == provider
}

/// The pattern that finds the files under `dir`: all of its tree, or only
/// the directory itself.
pub open spec fn scan_pattern_text(dir: Seq<char>, recursive: bool) -> Seq<char> {
    if recursive {
        dir + "/**/*"@
    } else {
        dir + "/*"@
    }
}

/// The artist of that name, with no albums counted yet.
fn new_artist(id: &String, name: &String, provider: &String) -> (a: Artist)
    ensures
        a.id@ == id@,
        a.name@ == name@,
        a.image_url is None,
        a.genres@.len() == 0,
        a.album_count == 0,
        a.provider@ == provider@,
{
    Artist {
        id: id.clone(),
        name: name.clone(),
        image_url: None,
        genres: Vec::new(),
        album_count: 0,
        provider: provider.clone(),
    }
}

/// Reads the files that `exts` takes: one track per path, the last reading
/// of a path winning, and one artist per artist name, in the order met.
fn gather(files: &Vec<ScannedFile>, exts: &Vec<String>, provider: &String) -> (r: (Vec<Track>, Vec<Artist>))
    ensures
        ({
            let es = scanned_entries(texts(exts@), files@);
            &&& r.0@.len() == track_entries(es).len()
            &&& forall|k: int| 0 <= k < r.0@.len() ==> #[trigger] is_local_track(r.0@[k], provider@, track_entries(es)[k])
            &&& r.1@.len() == artist_names(es).len()
            &&& forall|j: int| 0 <= j < r.1@.len() ==> #[trigger] is_local_artist(r.1@[j], provider@, artist_names(es)[j], 0)
        }),
{
    let mut tracks: Vec<Track> = Vec::new();
    let mut artists: Vec<Artist> = Vec::new();
    let ghost x = texts(exts@);
    let n = files.len();
    let mut i: usize = 0;
    while i < n
        invariant
            n == files@.len(),
            i <= n,
            x == texts(exts@),
            ({
                let es = scanned_entries(x, files@.take(i as int));
                &&& tracks@.len() == track_entries(es).len()
                &&& forall|k: int| 0 <= k < tracks@.len() ==> #[trigger] is_local_track(tracks@[k], provider@, track_entries(es)[k])
                &&& artists@.len() == artist_names(es).len()
                &&& forall|j: int| 0 <= j < artists@.len() ==> #[trigger] is_local_artist(artists@[j], provider@, artist_names(es)[j], 0)
            }),
        decreases n - i,
    {
        let ghost es0 = scanned_entries(x, files@.take(i as int));
        assert(files@.take(i as int + 1).drop_last() =~= files@.take(i as int));
        assert(files@.take(i as int + 1).last() == files@[i as int]);
        let f = &files[i];
        let ext = extension_text(f.path.as_str());
        if list_holds(exts, ext.as_str()) {
            match read_metadata(f.path.as_str(), &f.tags) {
                Ok((title, artist_name, album_name, _secs)) => {
                    let ghost e: FileEntry = (f.path@, title@, artist_name@, album_name@);
                    let ghost es1 = es0.push(e);
                    assert(scanned_entries(x, files@.take(i as int + 1)) == es1);
                    assert(es1.drop_last() =~= es0);
                    assert(es1.last() == e);
                    let track_id = path_to_track_id(f.path.as_str());
                    let artist_id = path_to_artist_id(artist_name.as_str());
                    let album_id = path_to_album_id(album_name.as_str(), artist_name.as_str());
                    let ghost names0 = artist_names(es0);
                    assert forall|k: int| 0 <= k < artists@.len() implies #[trigger] ids_of(artists@)[k]
                        == artist_ids(names0)[k] by {
                        assert(is_local_artist(artists@[k], provider@, names0[k], 0));
                    }
                    assert(ids_of(artists@) =~= artist_ids(names0));
                    match position_by_id(&artists, artist_id.as_str()) {
                        Some(_) => {},
                        None => {
                            artists.push(new_artist(&artist_id, &artist_name, provider));
                        },
                    }
                    assert(artists@.len() == artist_names(es1).len());
                    assert forall|j: int| 0 <= j < artists@.len() implies #[trigger] is_local_artist(
                        artists@[j],
                        provider@,
                        artist_names(es1)[j],
                        0,
                    ) by {
                        if j < names0.len() {
                            assert(artist_names(es1)[j] == names0[j]);
                        }
                    }
                    let mut stream = String::from_str("file://");
                    stream.append(f.path.as_str());
                    let track = Track {
                        id: track_id,
                        title,
                        artist: artist_name.clone(),
                        artist_id,
                        album: album_name.clone(),
                        album_id,
                        duration_ns: 0,
                        track_number: 0,
                        disc_number: 1,
                        genre: String::new(),
                        year: 0,
                        cover_url: None,
                        stream_url: Some(stream),
                        file_path: Some(f.path.clone()),
                        provider: provider.clone(),
                        is_local: true,
                    };
                    assert(is_local_track(track, provider@, e));
                    let ghost te0 = track_entries(es0);
                    assert forall|k: int| 0 <= k < tracks@.len() implies #[trigger] ids_of(tracks@)[k]
                        == entry_ids(te0)[k] by {
                        assert(is_local_track(tracks@[k], provider@, te0[k]));
                    }
                    assert(ids_of(tracks@) =~= entry_ids(te0));
                    let tid = track.id.clone();
                    match position_by_id(&tracks, tid.as_str()) {
                        Some(k) => {
                            tracks.set(k, track);
                        },
                        None => {
                            tracks.push(track);
                        },
                    }
                    assert(tracks@.len() == track_entries(es1).len());
                    assert forall|k: int| 0 <= k < tracks@.len() implies #[trigger] is_local_track(
                        tracks@[k],
                        provider@,
                        track_entries(es1)[k],
                    ) by {
                        if k < te0.len() && track_entries(es1)[k] != e {
                            assert(track_entries(es1)[k] == te0[k]);
                        }
                    }
                },
                Err(_) => {
                    assert(scanned_entries(x, files@.take(i as int + 1)) == es0);
                },
            }
        } else {
            assert(scanned_entries(x, files@.take(i as int + 1)) == es0);
        }
        i = i + 1;
    }
    assert(files@.take(n as int) =~= files@);
    (tracks, artists)
}

/// Groups the tracks into albums and counts, for each artist, the albums
/// there were when its last track was grouped.
fn group_albums(
    tracks: &Vec<Track>,
    artists: Vec<Artist>,
    provider: &String,
    Ghost(te): Ghost<Seq<FileEntry>>,
    Ghost(names): Ghost<Seq<Seq<char>>>,
) -> (r: (Vec<Album>, Vec<Artist>))
    requires
        tracks@.len() == te.len(),
        forall|k: int| 0 <= k < tracks@.len() ==> #[trigger] is_local_track(tracks@[k], provider@, te[k]),
        artists@.len() == names.len(),
        forall|j: int| 0 <= j < artists@.len() ==> #[trigger] is_local_artist(artists@[j], provider@, names[j], 0),
        forall|a: int, b: int| 0 <= a < b < names.len() ==> artist_id_text(#[trigger] names[a]) != artist_id_text(#[trigger] names[b]),
    ensures
        r.0@.len() == album_groups(te).len(),
        forall|g: int| 0 <= g < r.0@.len() ==> #[trigger] is_local_album(r.0@[g], provider@, album_groups(te)[g]),
        r.1@.len() == names.len(),
        forall|j: int|
            0 <= j < r.1@.len() ==> #[trigger] is_local_artist(
                r.1@[j],
                provider@,
                names[j],
                artist_album_count(te, artist_id_text(names[j])),
            ),
{
    let mut artists = artists;
    let mut albums: Vec<Album> = Vec::new();
    let n = tracks.len();
    let mut k: usize = 0;
    while k < n
        invariant
            n == tracks@.len(),
            n == te.len(),
            k <= n,
            forall|t: int| 0 <= t < tracks@.len() ==> #[trigger] is_local_track(tracks@[t], provider@, te[t]),
            forall|a: int, b: int| 0 <= a < b < names.len() ==> artist_id_text(#[trigger] names[a]) != artist_id_text(#[trigger] names[b]),
            albums@.len() == album_groups(te.take(k as int)).len(),
            forall|g: int| 0 <= g < albums@.len() ==> #[trigger] is_local_album(albums@[g], provider@, album_groups(te.take(k as int))[g]),
            artists@.len() == names.len(),
            forall|j: int|
                0 <= j < artists@.len() ==> #[trigger] is_local_artist(
                    artists@[j],
                    provider@,
                    names[j],
                    artist_album_count(te.take(k as int), artist_id_text(names[j])),
                ),
        decreases n - k,
    {
        let ghost p0 = te.take(k as int);
        let ghost p1 = te.take(k as int + 1);
        let ghost e = te[k as int];
        let ghost g0 = album_groups(p0);
        assert(p1.drop_last() =~= p0);
        assert(p1.last() == e);
        let t = &tracks[k];
        assert(is_local_track(*t, provider@, e));
        assert forall|g: int| 0 <= g < albums@.len() implies #[trigger] ids_of(albums@)[g] == group_ids(g0)[g] by {
            assert(is_local_album(albums@[g], provider@, g0[g]));
        }
        assert(ids_of(albums@) =~= group_ids(g0));
        let ghost g1 = album_groups(p1);
        match position_by_id(&albums, t.album_id.as_str()) {
            Some(g) => {
                let old = &albums[g];
                let mut ids = copy_strings(&old.tracks);
                ids.push(t.id.clone());
                let count = ids.len();
                let a = Album {
                    id: old.id.clone(),
                    title: old.title.clone(),
                    artist: old.artist.clone(),
                    artist_id: old.artist_id.clone(),
                    tracks: ids,
                    cover_url: None,
                    year: 0,
                    track_count: count as u32,
                    duration_ns: 0,
                    provider: provider.clone(),
                };
                proof {
                    assert(is_local_album(albums@[g as int], provider@, g0[g as int]));
                    assert(string_views(a.tracks@) =~= g0[g as int].3.push(track_id_text(e.0)));
                }
                albums.set(g, a);
            },
            None => {
                let mut ids: Vec<String> = Vec::new();
                ids.push(t.id.clone());
                let a = Album {
                    id: t.album_id.clone(),
                    title: t.album.clone(),
                    artist: t.artist.clone(),
                    artist_id: t.artist_id.clone(),
                    tracks: ids,
                    cover_url: None,
                    year: 0,
                    track_count: 1,
                    duration_ns: 0,
                    provider: provider.clone(),
                };
                proof {
                    assert(string_views(a.tracks@) =~= seq![track_id_text(e.0)]);
                }
                albums.push(a);
            },
        }
        assert(albums@.len() == g1.len());
        assert forall|g: int| 0 <= g < albums@.len() implies #[trigger] is_local_album(albums@[g], provider@, g1[g]) by {
            if g < g0.len() && g1[g] == g0[g] {
            }
        }
        assert forall|j: int| 0 <= j < artists@.len() implies #[trigger] ids_of(artists@)[j] == artist_ids(names)[j] by {
            assert(is_local_artist(artists@[j], provider@, names[j], artist_album_count(p0, artist_id_text(names[j]))));
        }
        assert(ids_of(artists@) =~= artist_ids(names));
        let ghost before = artists@;
        match position_by_id(&artists, t.artist_id.as_str()) {
            Some(j) => {
                let old = &artists[j];
                let a = Artist {
                    id: old.id.clone(),
                    name: old.name.clone(),
                    image_url: None,
                    genres: Vec::new(),
                    album_count: albums.len() as u32,
                    provider: provider.clone(),
                };
                proof {
                    assert(is_local_artist(before[j as int], provider@, names[j as int], artist_album_count(p0, artist_id_text(names[j as int]))));
                }
                artists.set(j, a);
                proof {
                    lemma_first_key(artist_ids(names), t.artist_id@);
                    assert forall|i: int| 0 <= i < artists@.len() implies #[trigger] is_local_artist(
                        artists@[i],
                        provider@,
                        names[i],
                        artist_album_count(p1, artist_id_text(names[i])),
                    ) by {
                        assert(is_local_artist(before[i], provider@, names[i], artist_album_count(p0, artist_id_text(names[i]))));
                        if i != j {
                            assert(artist_ids(names)[i] == artist_id_text(names[i]));
                            assert(artist_ids(names)[j as int] == artist_id_text(names[j as int]));
                        }
                    }
                }
            },
            None => {
                proof {
                    lemma_first_key(artist_ids(names), t.artist_id@);
                    assert forall|i: int| 0 <= i < artists@.len() implies #[trigger] is_local_artist(
                        artists@[i],
                        provider@,
                        names[i],
                        artist_album_count(p1, artist_id_text(names[i])),
                    ) by {
                        assert(is_local_artist(before[i], provider@, names[i], artist_album_count(p0, artist_id_text(names[i]))));
                        assert(artist_ids(names)[i] == artist_id_text(names[i]));
                    }
                }
            },
        }
        k = k + 1;
    }
    assert(te.take(n as int) =~= te);
    (albums, artists)
}

/// The artists of the entries have distinct ids.
proof fn lemma_artist_names_distinct(es: Seq<FileEntry>)
    ensures
        forall|a: int, b: int|
            0 <= a < b < artist_names(es).len() ==> artist_id_text(#[trigger] artist_names(es)[a])
                != artist_id_text(#[trigger] artist_names(es)[b]),
    decreases es.len(),
{
    if es.len() > 0 {
        let prev = artist_names(es.drop_last());
        lemma_artist_names_distinct(es.drop_last());
        lemma_first_key(artist_ids(prev), artist_id_text(es.last().2));
        let names = artist_names(es);
        let id = artist_id_text(es.last().2);
        assert forall|a: int| 0 <= a < prev.len() implies #[trigger] artist_ids(prev)[a] == artist_id_text(prev[a]) by {}
        if first_key(artist_ids(prev), id) is None {
            assert(names == prev.push(es.last().2));
            assert forall|a: int, b: int| 0 <= a < b < names.len() implies artist_id_text(#[trigger] names[a])
                != artist_id_text(#[trigger] names[b]) by {
                if b == prev.len() {
                    assert(artist_ids(prev)[a] != id);
                } else {
                    assert(names[a] == prev[a]);
                    assert(names[b] == prev[b]);
                }
            }
        }
    }
}

/// The provider of the music files on this machine.
#[derive(Debug)]
pub struct LocalProvider {
    id: ProviderId,
    name: String,
    config: LocalProviderConfig,
    tracks: Vec<Track>,
    albums: Vec<Album>,
    artists: Vec<Artist>,
    playlists: Vec<Playlist>,
}

impl LocalProvider {
    /// The provider keeps no playlists.
    #[verifier::type_invariant]
    spec fn keeps_no_playlists(&self) -> bool {
        self.playlists@.len() == 0
    }

    pub closed spec fn spec_id(&self) -> Seq<char> {
        self.id@
    }

    pub closed spec fn spec_name(&self) -> Seq<char> {
        self.name@
    }

    pub closed spec fn spec_extensions(&self) -> Seq<Seq<char>> {
        texts(self.config.file_extensions@)
    }

    pub closed spec fn spec_directories(&self) -> Seq<Seq<char>> {
        texts(self.config.music_directories@)
    }

    pub closed spec fn spec_recursive(&self) -> bool {
        self.config.scan_recursive
    }

    pub closed spec fn spec_tracks(&self) -> Seq<Track> {
        self.tracks@
    }

    pub closed spec fn spec_albums(&self) -> Seq<Album> {
        self.albums@
    }

    pub closed spec fn spec_artists(&self) -> Seq<Artist> {
        self.artists@
    }

    pub closed spec fn spec_playlists(&self) -> Seq<Playlist> {
        self.playlists@
    }

    /// The provider holds what a scan of `files` gives.
    pub open spec fn holds_scan(&self, files: Seq<ScannedFile>) -> bool {
        let es = scanned_entries(self.spec_extensions(), files);
        let te = track_entries(es);
        let names = artist_names(es);
        let groups = album_groups(te);
        &&& self.spec_tracks().len() == te.len()
        &&& forall|k: int| 0 <= k < te.len() ==> #[trigger] is_local_track(self.spec_tracks()[k], self.spec_id(), te[k])
        &&& self.spec_artists().len() == names.len()
        &&& forall|j: int|
            0 <= j < names.len() ==> #[trigger] is_local_artist(
                self.spec_artists()[j],
                self.spec_id(),
                names[j],
                artist_album_count(te, artist_id_text(names[j])),
            )
        &&& self.spec_albums().len() == groups.len()
        &&& forall|g: int| 0 <= g < groups.len() ==> #[trigger] is_local_album(self.spec_albums()[g], self.spec_id(), groups[g])
        &&& self.spec_playlists().len() == 0
    }

    /// A provider with a fresh random id and nothing scanned yet.
    pub fn new(config: &LocalProviderConfig) -> (p: Self)
        ensures
            p.spec_name() == "Local Files"@,
            p.spec_extensions() == texts(config.file_extensions@),
            p.spec_directories() == texts(config.music_directories@),
            p.spec_recursive() == config.scan_recursive,
            p.spec_tracks().len() == 0,
            p.spec_albums().len() == 0,
            p.spec_artists().len() == 0,
            p.spec_playlists().len() == 0,
    {
        let c = LocalProviderConfig {
            music_directories: copy_strings(&config.music_directories),
            file_extensions: copy_strings(&config.file_extensions),
            scan_recursive: config.scan_recursive,
            follow_symlinks: config.follow_symlinks,
            watch_for_changes: config.watch_for_changes,
        };
        LocalProvider {
            id: random_id(),
            name: String::from_str("Local Files"),
            config: c,
            tracks: Vec::new(),
            albums: Vec::new(),
            artists: Vec::new(),
            playlists: Vec::new(),
        }
    }

    /// The patterns that find the files of the music directories, one per
    /// directory.
    pub fn scan_patterns(&self) -> (v: Vec<String>)
        ensures
            v@.len() == self.spec_directories().len(),
            forall|k: int|
                0 <= k < v@.len() ==> #[trigger] v@[k]@ == scan_pattern_text(self.spec_directories()[k], self.spec_recursive()),
    {
        let dirs = &self.config.music_directories;
        let mut v: Vec<String> = Vec::new();
        let mut i: usize = 0;
        while i < dirs.len()
            invariant
                dirs == &self.config.music_directories,
                i <= dirs@.len(),
                v@.len() == i,
                forall|k: int|
                    0 <= k < i ==> #[trigger] v@[k]@ == scan_pattern_text(dirs@[k]@, self.config.scan_recursive),
            decreases dirs@.len() - i,
        {
            let mut p = dirs[i].clone();
            if self.config.scan_recursive {
                p.append("/**/*");
            } else {
                p.append("/*");
            }
            v.push(p);
            i = i + 1;
        }
        v
    }

    /// Whether the scan takes the file at `path`: its extension, in
    /// lowercase, is one of the configured ones.
    pub fn accepts_file(&self, path: &str) -> (b: bool)
        ensures
            b == takes_file(self.spec_extensions(), path@),
    {
        let ext = extension_text(path);
        list_holds(&self.config.file_extensions, ext.as_str())
    }

    /// Replaces the catalog with what the files give: a track per file that
    /// is taken and read, an artist per artist name, and albums grouped by
    /// album and artist.
    pub fn load_scanned(&mut self, files: &Vec<ScannedFile>)
        ensures
            final(self).spec_id() == old(self).spec_id(),
            final(self).spec_name() == old(self).spec_name(),
            final(self).spec_extensions() == old(self).spec_extensions(),
            final(self).spec_directories() == old(self).spec_directories(),
            final(self).spec_recursive() == old(self).spec_recursive(),
            final(self).holds_scan(files@),
    {
        proof {
            use_type_invariant(&*self);
        }
        let (tracks, artists) = gather(files, &self.config.file_extensions, &self.id);
        let ghost es = scanned_entries(texts(self.config.file_extensions@), files@);
        proof {
            lemma_artist_names_distinct(es);
        }
        let (albums, artists) = group_albums(&tracks, artists, &self.id, Ghost(track_entries(es)), Ghost(artist_names(es)));
        self.tracks = tracks;
        self.albums = albums;
        self.artists = artists;
        self.playlists = Vec::new();
    }
}

/// How many entries at the front score at least `score`.
pub open spec fn leading_at_least(s: Seq<(i64, usize)>, score: i64) -> nat
    decreases s.len(),
{
    if s.len() == 0 {
        0
    } else if s[0].0 >= score {
        1 + leading_at_least(s.drop_first(), score)
    } else {
        0
    }
}

/// The entries ordered by score, highest first; entries of equal score keep
/// their order.
pub open spec fn ranked(s: Seq<(i64, usize)>) -> Seq<(i64, usize)>
    decreases s.len(),
{
    if s.len() == 0 {
        s
    } else {
        let r = ranked(s.drop_last());
        r.insert(leading_at_least(r, s.last().0) as int, s.last())
    }
}

proof fn lemma_leading_at_least(s: Seq<(i64, usize)>, score: i64, k: int)
    requires
        0 <= k <= s.len(),
        forall|j: int| 0 <= j < k ==> #[trigger] s[j].0 >= score,
        k == s.len() || s[k].0 < score,
    ensures
        leading_at_least(s, score) == k,
    decreases k,
{
    if k > 0 {
        assert forall|j: int| 0 <= j < k - 1 implies #[trigger] s.drop_first()[j].0 >= score by {
            assert(s.drop_first()[j] == s[j + 1]);
        }
        lemma_leading_at_least(s.drop_first(), score, k - 1);
    }
}

proof fn lemma_leading_at_least_bound(s: Seq<(i64, usize)>, score: i64)
    ensures
        leading_at_least(s, score) <= s.len(),
    decreases s.len(),
{
    if s.len() > 0 {
        lemma_leading_at_least_bound(s.drop_first(), score);
    }
}

/// Ranking keeps the entries: each ranked entry is one of the given ones.
proof fn lemma_ranked_entries(s: Seq<(i64, usize)>)
    ensures
        ranked(s).len() == s.len(),
        forall|k: int| 0 <= k < s.len() ==> exists|j: int| 0 <= j < s.len() && #[trigger] ranked(s)[k] == s[j],
    decreases s.len(),
{
    if s.len() > 0 {
        let r = ranked(s.drop_last());
        lemma_ranked_entries(s.drop_last());
        lemma_leading_at_least_bound(r, s.last().0);
        let pos = leading_at_least(r, s.last().0) as int;
        r.insert_ensures(pos, s.last());
        assert forall|k: int| 0 <= k < s.len() implies exists|j: int| 0 <= j < s.len() && #[trigger] ranked(s)[k] == s[j] by {
            if k < pos {
                let j = choose|j: int| 0 <= j < s.len() - 1 && #[trigger] r[k] == s.drop_last()[j];
                assert(ranked(s)[k] == s[j]);
            } else if k == pos {
                assert(ranked(s)[k] == s[s.len() - 1]);
            } else {
                let j = choose|j: int| 0 <= j < s.len() - 1 && #[trigger] r[k - 1] == s.drop_last()[j];
                assert(ranked(s)[k] == s[j]);
            }
        }
    }
}

/// Orders scored entries by score, highest first, keeping the order of
/// entries of equal score.
fn rank(v: Vec<(i64, usize)>) -> (r: Vec<(i64, usize)>)
    ensures
        r@ == ranked(v@),
{
    let mut out: Vec<(i64, usize)> = Vec::new();
    let n = v.len();
    let mut i: usize = 0;
    while i < n
        invariant
            n == v@.len(),
            i <= n,
            out@ == ranked(v@.take(i as int)),
        decreases n - i,
    {
        let x = v[i];
        let mut k: usize = 0;
        while k < out.len() && out[k].0 >= x.0
            invariant
                k <= out@.len(),
                forall|j: int| 0 <= j < k ==> #[trigger] out@[j].0 >= x.0,
            decreases out@.len() - k,
        {
            k = k + 1;
        }
        proof {
            lemma_leading_at_least(out@, x.0, k as int);
            assert(v@.take(i as int + 1).drop_last() =~= v@.take(i as int));
            assert(v@.take(i as int + 1).last() == x);
        }
        out.insert(k, x);
        i = i + 1;
    }
    assert(v@.take(n as int) =~= v@);
    out
}

/// The positions of the items that match the pattern `q`, with their scores,
/// in the items' order.
pub open spec fn fuzzy_scored<T: CatalogItem>(items: Seq<T>, q: Seq<char>) -> Seq<(i64, usize)>
    decreases items.len(),
{
    if items.len() == 0 {
        Seq::<(i64, usize)>::empty()
    } else {
        let prev = fuzzy_scored(items.drop_last(), q);
        match fuzzy_score(lowercase(items.last().search_key()), q) {
            Some(sc) => prev.push((sc, (items.len() - 1) as usize)),
            None => prev,
        }
    }
}

proof fn lemma_fuzzy_scored_bound<T: CatalogItem>(items: Seq<T>, q: Seq<char>)
    requires
        items.len() <= usize::MAX,
    ensures
        forall|k: int| 0 <= k < fuzzy_scored(items, q).len() ==> #[trigger] fuzzy_scored(items, q)[k].1 < items.len(),
    decreases items.len(),
{
    if items.len() > 0 {
        let prev = fuzzy_scored(items.drop_last(), q);
        lemma_fuzzy_scored_bound(items.drop_last(), q);
        let last = (items.len() - 1) as usize;
        assert(last as int == items.len() - 1);
        assert forall|k: int| 0 <= k < fuzzy_scored(items, q).len() implies #[trigger] fuzzy_scored(items, q)[k].1
            < items.len() by {
            if k < prev.len() {
                assert(fuzzy_scored(items, q)[k] == prev[k]);
            }
        }
    }
}

/// The items in the order of the entries.
pub open spec fn picked<T>(items: Seq<T>, order: Seq<(i64, usize)>) -> Seq<T> {
    Seq::new(order.len(), |k: int| items[order[k].1 as int])
}

/// What a fuzzy search for `query` gives: all items for an empty query;
/// else the items whose search text, in lowercase, matches the query in
/// lowercase, best score first.
pub open spec fn fuzzy_ranked<T: CatalogItem>(items: Seq<T>, query: Seq<char>) -> Seq<T> {
    if query.len() == 0 {
        items
    } else {
        picked(items, ranked(fuzzy_scored(items, lowercase(query))))
    }
}

/// Copies of the items in the order of `order`, whose positions are valid.
fn pick<T: CatalogItem>(items: &Vec<T>, order: &Vec<(i64, usize)>) -> (r: Vec<T>)
    requires
        forall|k: int| 0 <= k < order@.len() ==> #[trigger] order@[k].1 < items@.len(),
    ensures
        same_items(r@, picked(items@, order@)),
{
    let mut out: Vec<T> = Vec::new();
    let mut i: usize = 0;
    while i < order.len()
        invariant
            i <= order@.len(),
            forall|k: int| 0 <= k < order@.len() ==> #[trigger] order@[k].1 < items@.len(),
            out@.len() == i,
            forall|k: int| 0 <= k < i ==> #[trigger] out@[k].same_as(&items@[order@[k].1 as int]),
        decreases order@.len() - i,
    {
        let idx = order[i].1;
        out.push(items[idx].duplicate());
        i = i + 1;
    }
    out
}

/// Copies of all items.
fn copy_all<T: CatalogItem>(items: &Vec<T>) -> (r: Vec<T>)
    ensures
        same_items(r@, items@),
{
    let mut out: Vec<T> = Vec::new();
    let mut i: usize = 0;
    while i < items.len()
        invariant
            i <= items@.len(),
            out@.len() == i,
            forall|k: int| 0 <= k < i ==> #[trigger] out@[k].same_as(&items@[k]),
        decreases items@.len() - i,
    {
        out.push(items[i].duplicate());
        i = i + 1;
    }
    out
}

/// Fuzzy search over the items' search texts, both sides in lowercase, best
/// match first; an empty query gives all items.
pub fn fuzzy_search<T: CatalogItem>(items: &Vec<T>, query: &str) -> (r: Vec<T>)
    ensures
        same_items(r@, fuzzy_ranked(items@, query@)),
{
    if query.is_empty() {
        return copy_all(items);
    }
    let q = to_lower(query);
    let mut scored: Vec<(i64, usize)> = Vec::new();
    let n = items.len();
    let mut i: usize = 0;
    while i < n
        invariant
            n == items@.len(),
            i <= n,
            q@ == lowercase(query@),
            scored@ == fuzzy_scored(items@.take(i as int), q@),
        decreases n - i,
    {
        let field = to_lower(items[i].key_text());
        assert(items@.take(i as int + 1).drop_last() =~= items@.take(i as int));
        assert(items@.take(i as int + 1).last() == items@[i as int]);
        match fuzzy_match_score(field.as_str(), q.as_str()) {
            Some(sc) => {
                scored.push((sc, i));
            },
            None => {},
        }
        i = i + 1;
    }
    assert(items@.take(n as int) =~= items@);
    let order = rank(scored);
    proof {
        lemma_fuzzy_scored_bound(items@, q@);
        lemma_ranked_entries(fuzzy_scored(items@, q@));
        assert forall|k: int| 0 <= k < order@.len() implies #[trigger] order@[k].1 < items@.len() by {
            let s = fuzzy_scored(items@, q@);
            let j = choose|j: int| 0 <= j < s.len() && #[trigger] ranked(s)[k] == s[j];
            assert(s[j].1 < items@.len());
        }
    }
    pick(items, &order)
}

/// How many tracks at the front have a title that does not come after `key`.
pub open spec fn leading_not_after(s: Seq<Track>, key: Seq<char>) -> nat
    decreases s.len(),
{
    if s.len() == 0 {
        0
    } else if !text_less(key, s[0].title@) {
        1 + leading_not_after(s.drop_first(), key)
    } else {
        0
    }
}

/// The tracks ordered by title; tracks of equal title keep their order.
pub open spec fn by_title(s: Seq<Track>) -> Seq<Track>
    decreases s.len(),
{
    if s.len() == 0 {
        s
    } else {
        let r = by_title(s.drop_last());
        r.insert(leading_not_after(r, s.last().title@) as int, s.last())
    }
}

proof fn lemma_leading_not_after(s: Seq<Track>, key: Seq<char>, k: int)
    requires
        0 <= k <= s.len(),
        forall|j: int| 0 <= j < k ==> !text_less(key, #[trigger] s[j].title@),
        k == s.len() || text_less(key, s[k].title@),
    ensures
        leading_not_after(s, key) == k,
    decreases k,
{
    if k > 0 {
        assert forall|j: int| 0 <= j < k - 1 implies !text_less(key, #[trigger] s.drop_first()[j].title@) by {
            assert(s.drop_first()[j] == s[j + 1]);
        }
        lemma_leading_not_after(s.drop_first(), key, k - 1);
    }
}

/// Orders tracks by title, keeping the order of equal titles.
fn sort_by_title(v: Vec<Track>) -> (r: Vec<Track>)
    ensures
        r@ == by_title(v@),
{
    let mut out: Vec<Track> = Vec::new();
    let n = v.len();
    let mut i: usize = 0;
    while i < n
        invariant
            n == v@.len(),
            i <= n,
            out@ == by_title(v@.take(i as int)),
        decreases n - i,
    {
        let x = v[i].duplicate();
        let mut k: usize = 0;
        while k < out.len() && !text_before(x.title.as_str(), out[k].title.as_str())
            invariant
                k <= out@.len(),
                forall|j: int| 0 <= j < k ==> !text_less(x.title@, #[trigger] out@[j].title@),
            decreases out@.len() - k,
        {
            k = k + 1;
        }
        proof {
            lemma_leading_not_after(out@, x.title@, k as int);
            assert(v@.take(i as int + 1).drop_last() =~= v@.take(i as int));
            assert(v@.take(i as int + 1).last() == x);
        }
        out.insert(k, x);
        i = i + 1;
    }
    assert(v@.take(n as int) =~= v@);
    out
}

/// The albums' years with their positions, in order.
pub open spec fn year_scored(albums: Seq<Album>) -> Seq<(i64, usize)> {
    Seq::new(albums.len(), |k: int| (albums[k].year as i64, k as usize))
}

/// The non-empty genres of the tracks, in order.
pub open spec fn nonempty_genres(tracks: Seq<Track>) -> Seq<Seq<char>>
    decreases tracks.len(),
{
    if tracks.len() == 0 {
        Seq::<Seq<char>>::empty()
    } else {
        let prev = nonempty_genres(tracks.drop_last());
        if tracks.last().genre@.len() > 0 {
            prev.push(tracks.last().genre@)
        } else {
            prev
        }
    }
}

proof fn lemma_nonempty_genres(tracks: Seq<Track>, x: Seq<char>)
    ensures
        nonempty_genres(tracks).contains(x) <==> x.len() > 0 && exists|k: int|
            0 <= k < tracks.len() && #[trigger] tracks[k].genre@ == x,
    decreases tracks.len(),
{
    if tracks.len() > 0 {
        let prev = nonempty_genres(tracks.drop_last());
        lemma_nonempty_genres(tracks.drop_last(), x);
        if nonempty_genres(tracks).contains(x) {
            if prev.contains(x) {
                let k = choose|k: int| 0 <= k < tracks.len() - 1 && #[trigger] tracks.drop_last()[k].genre@ == x;
                assert(tracks[k].genre@ == x);
            } else {
                assert(nonempty_genres(tracks) == prev.push(tracks.last().genre@));
                let j = choose|j: int| 0 <= j < nonempty_genres(tracks).len() && nonempty_genres(tracks)[j] == x;
                if j < prev.len() {
                    assert(prev[j] == x);
                }
                assert(tracks[tracks.len() - 1].genre@ == x);
            }
        }
        if x.len() > 0 && exists|k: int| 0 <= k < tracks.len() && #[trigger] tracks[k].genre@ == x {
            let k = choose|k: int| 0 <= k < tracks.len() && #[trigger] tracks[k].genre@ == x;
            if k < tracks.len() - 1 {
                assert(tracks.drop_last()[k].genre@ == x);
                let j = choose|j: int| 0 <= j < prev.len() && prev[j] == x;
                assert(nonempty_genres(tracks)[j] == x);
            } else {
                let n = nonempty_genres(tracks);
                assert(n[n.len() - 1] == x);
            }
        }
    }
}

impl LocalProvider {
    pub fn id(&self) -> (r: ProviderId)
        ensures
            r@ == self.spec_id(),
    {
        self.id.clone()
    }

    pub fn name(&self) -> (r: &str)
        ensures
            r@ == self.spec_name(),
    {
        self.name.as_str()
    }

    /// Local files need no sign-in.
    pub fn is_authenticated(&self) -> (b: bool)
        ensures
            b,
    {
        true
    }

    /// The page of the fuzzy search over track titles; the page must not
    /// start past the end of the results.
    pub fn search_tracks(&self, query: &str, limit: u32, offset: u32) -> (r: Result<Vec<Track>>)
        requires
            offset <= fuzzy_ranked(self.spec_tracks(), query@).len(),
        ensures
            r matches Ok(v) && same_items(v@, page_of(fuzzy_ranked(self.spec_tracks(), query@), limit as nat, offset as nat)),
    {
        let results = fuzzy_search(&self.tracks, query);
        proof {
            lemma_same_items_page(results@, fuzzy_ranked(self.tracks@, query@), limit as nat, offset as nat);
        }
        Ok(page(results, limit, offset))
    }

    /// The page of the fuzzy search over album titles; the page must not
    /// start past the end of the results.
    pub fn search_albums(&self, query: &str, limit: u32, offset: u32) -> (r: Result<Vec<Album>>)
        requires
            offset <= fuzzy_ranked(self.spec_albums(), query@).len(),
        ensures
            r matches Ok(v) && same_items(v@, page_of(fuzzy_ranked(self.spec_albums(), query@), limit as nat, offset as nat)),
    {
        let results = fuzzy_search(&self.albums, query);
        proof {
            lemma_same_items_page(results@, fuzzy_ranked(self.albums@, query@), limit as nat, offset as nat);
        }
        Ok(page(results, limit, offset))
    }

    /// The page of the fuzzy search over artist names; the page must not
    /// start past the end of the results.
    pub fn search_artists(&self, query: &str, limit: u32, offset: u32) -> (r: Result<Vec<Artist>>)
        requires
            offset <= fuzzy_ranked(self.spec_artists(), query@).len(),
        ensures
            r matches Ok(v) && same_items(v@, page_of(fuzzy_ranked(self.spec_artists(), query@), limit as nat, offset as nat)),
    {
        let results = fuzzy_search(&self.artists, query);
        proof {
            lemma_same_items_page(results@, fuzzy_ranked(self.artists@, query@), limit as nat, offset as nat);
        }
        Ok(page(results, limit, offset))
    }

    /// The provider keeps no playlists, so only the first page exists, and it
    /// is empty.
    pub fn search_playlists(&self, query: &str, limit: u32, offset: u32) -> (r: Result<Vec<Playlist>>)
        requires
            offset == 0,
        ensures
            r matches Ok(v) && v@.len() == 0,
    {
        proof {
            use_type_invariant(self);
        }
        let results = copy_all(&self.playlists);
        Ok(page(results, limit, offset))
    }

    /// The first page of each search, and how many results it holds in all.
    /// Only the first page can be asked for: the empty playlist results end
    /// at the start.
    pub fn search(&self, query: &str, limit: u32, offset: u32) -> (r: Result<SearchResults>)
        requires
            offset == 0,
        ensures
            r matches Ok(s) && {
                &&& same_items(s.tracks@, page_of(fuzzy_ranked(self.spec_tracks(), query@), limit as nat, 0))
                &&& same_items(s.albums@, page_of(fuzzy_ranked(self.spec_albums(), query@), limit as nat, 0))
                &&& same_items(s.artists@, page_of(fuzzy_ranked(self.spec_artists(), query@), limit as nat, 0))
                &&& s.playlists@.len() == 0
                &&& s.query@ == query@
                &&& s.total_results == (s.tracks@.len() + s.albums@.len() + s.artists@.len()) as u32
            },
    {
        let tracks = match self.search_tracks(query, limit, offset) {
            Ok(v) => v,
            Err(e) => return Err(e),
        };
        let albums = match self.search_albums(query, limit, offset) {
            Ok(v) => v,
            Err(e) => return Err(e),
        };
        let artists = match self.search_artists(query, limit, offset) {
            Ok(v) => v,
            Err(e) => return Err(e),
        };
        let playlists = match self.search_playlists(query, limit, offset) {
            Ok(v) => v,
            Err(e) => return Err(e),
        };
        let total = tracks.len() as u64 + albums.len() as u64 + artists.len() as u64 + playlists.len() as u64;
        Ok(SearchResults {
            tracks,
            albums,
            artists,
            playlists,
            query: String::from_str(query),
            total_results: total as u32,
        })
    }

    pub fn track(&self, id: &String) -> (r: Result<Track>)
        ensures
            match position_of_id(self.spec_tracks(), id@) {
                Some(k) => r == Ok::<Track, SymphonyError>(self.spec_tracks()[k]),
                None => r matches Err(SymphonyError::NotFound(m)) && m@ == not_found_text("Track"@, id@),
            },
    {
        match find_by_id(&self.tracks, id.as_str()) {
            Some(t) => Ok(t),
            None => Err(not_found_error("Track", id.as_str())),
        }
    }

    pub fn album(&self, id: &String) -> (r: Result<Album>)
        ensures
            match position_of_id(self.spec_albums(), id@) {
                Some(k) => r matches Ok(a) && a.same_as(&self.spec_albums()[k]),
                None => r matches Err(SymphonyError::NotFound(m)) && m@ == not_found_text("Album"@, id@),
            },
    {
        match find_by_id(&self.albums, id.as_str()) {
            Some(a) => Ok(a),
            None => Err(not_found_error("Album", id.as_str())),
        }
    }

    pub fn artist(&self, id: &String) -> (r: Result<Artist>)
        ensures
            match position_of_id(self.spec_artists(), id@) {
                Some(k) => r matches Ok(a) && a.same_as(&self.spec_artists()[k]) && a.id@ == id@,
                None => r matches Err(SymphonyError::NotFound(m)) && m@ == not_found_text("Artist"@, id@),
            },
    {
        match find_by_id(&self.artists, id.as_str()) {
            Some(a) => Ok(a),
            None => Err(not_found_error("Artist", id.as_str())),
        }
    }

    /// The provider keeps no playlists, so every id is unknown.
    pub fn playlist(&self, id: &String) -> (r: Result<Playlist>)
        ensures
            r matches Err(SymphonyError::NotFound(m)) && m@ == not_found_text("Playlist"@, id@),
    {
        proof {
            use_type_invariant(self);
        }
        match find_by_id(&self.playlists, id.as_str()) {
            Some(p) => Ok(p),
            None => Err(not_found_error("Playlist", id.as_str())),
        }
    }

    /// The albums of a known artist.
    pub fn artist_albums(&self, id: &String) -> (r: Result<Vec<Album>>)
        ensures
            match position_of_id(self.spec_artists(), id@) {
                Some(k) => r matches Ok(v) && same_items(v@, albums_by(self.spec_albums(), id@)),
                None => r matches Err(SymphonyError::NotFound(m)) && m@ == not_found_text("Artist"@, id@),
            },
    {
        let artist = match self.artist(id) {
            Ok(a) => a,
            Err(e) => return Err(e),
        };
        Ok(filter_albums_by(&self.albums, artist.id.as_str()))
    }

    /// The first five tracks of a known artist by title.
    pub fn artist_top_tracks(&self, id: &String) -> (r: Result<Vec<Track>>)
        ensures
            match position_of_id(self.spec_artists(), id@) {
                Some(k) => r matches Ok(v) && v@ == (if 5 < tracks_by(self.spec_tracks(), id@).len() {
                    by_title(tracks_by(self.spec_tracks(), id@)).take(5)
                } else {
                    by_title(tracks_by(self.spec_tracks(), id@))
                }),
                None => r matches Err(SymphonyError::NotFound(m)) && m@ == not_found_text("Artist"@, id@),
            },
    {
        let artist = match self.artist(id) {
            Ok(a) => a,
            Err(e) => return Err(e),
        };
        let mine = filter_tracks_by(&self.tracks, artist.id.as_str());
        let mut sorted = sort_by_title(mine);
        proof {
            lemma_by_title_len(tracks_by(self.tracks@, id@));
        }
        sorted.truncate(5);
        Ok(sorted)
    }

    /// The track's stream address; a track without one is refused.
    pub fn resolve_stream_url(&self, track: &Track) -> (r: Result<String>)
        ensures
            match track.stream_url {
                Some(u) => r matches Ok(x) && x@ == u@,
                None => r matches Err(SymphonyError::NotFound(m)) && m@ == "No stream URL for track '"@ + track.id@
                    + "'"@,
            },
    {
        match &track.stream_url {
            Some(u) => Ok(u.clone()),
            None => {
                let mut m = String::from_str("No stream URL for track '");
                m.append(track.id.as_str());
                m.append("'");
                Err(SymphonyError::not_found(m))
            },
        }
    }

    /// Up to `limit` albums, latest year first; albums of equal year keep
    /// their order.
    pub fn browse_new_releases(&self, limit: u32) -> (r: Result<Vec<Album>>)
        ensures
            r matches Ok(v) && same_items(
                v@,
                picked(self.spec_albums(), ranked(year_scored(self.spec_albums()))).take(
                    if (limit as int) < self.spec_albums().len() { limit as int } else { self.spec_albums().len() as int },
                ),
            ),
    {
        let mut scored: Vec<(i64, usize)> = Vec::new();
        let n = self.albums.len();
        let mut i: usize = 0;
        while i < n
            invariant
                n == self.albums@.len(),
                i <= n,
                scored@ == year_scored(self.albums@).take(i as int),
            decreases n - i,
        {
            scored.push((self.albums[i].year as i64, i));
            assert(scored@ =~= year_scored(self.albums@).take(i as int + 1));
            i = i + 1;
        }
        assert(year_scored(self.albums@).take(n as int) =~= year_scored(self.albums@));
        let order = rank(scored);
        proof {
            let s = year_scored(self.albums@);
            lemma_ranked_entries(s);
            assert forall|k: int| 0 <= k < order@.len() implies #[trigger] order@[k].1 < self.albums@.len() by {
                let j = choose|j: int| 0 <= j < s.len() && #[trigger] ranked(s)[k] == s[j];
                assert(s[j].1 == j);
            }
        }
        let mut albums = pick(&self.albums, &order);
        let ghost full = albums@;
        let ghost want = picked(self.albums@, ranked(year_scored(self.albums@)));
        albums.truncate(limit as usize);
        proof {
            let cut = if (limit as int) < self.albums@.len() { limit as int } else { self.albums@.len() as int };
            let wt = want.take(cut);
            assert forall|k: int| 0 <= k < albums@.len() implies #[trigger] albums@[k].same_as(&wt[k]) by {
                assert(albums@[k] == full[k]);
                assert(full[k].same_as(&want[k]));
            }
        }
        Ok(albums)
    }

    /// The provider keeps no playlists to feature.
    pub fn browse_featured_playlists(&self, limit: u32) -> (r: Result<Vec<Playlist>>)
        ensures
            r matches Ok(v) && v@.len() == 0,
    {
        Ok(Vec::new())
    }

    /// The non-empty genres of the tracks, each once, in increasing order.
    pub fn browse_categories(&self) -> (r: Result<Vec<String>>)
        ensures
            r matches Ok(v) && strictly_sorted(string_views(v@)) && forall|x: Seq<char>|
                string_views(v@).contains(x) <==> x.len() > 0 && exists|k: int|
                    0 <= k < self.spec_tracks().len() && #[trigger] self.spec_tracks()[k].genre@ == x,
    {
        let mut genres: Vec<String> = Vec::new();
        let n = self.tracks.len();
        let mut i: usize = 0;
        while i < n
            invariant
                n == self.tracks@.len(),
                i <= n,
                string_views(genres@) == nonempty_genres(self.tracks@.take(i as int)),
            decreases n - i,
        {
            assert(self.tracks@.take(i as int + 1).drop_last() =~= self.tracks@.take(i as int));
            assert(self.tracks@.take(i as int + 1).last() == self.tracks@[i as int]);
            if !self.tracks[i].genre.as_str().is_empty() {
                genres.push(self.tracks[i].genre.clone());
                assert(string_views(genres@) =~= nonempty_genres(self.tracks@.take(i as int + 1)));
            }
            i = i + 1;
        }
        assert(self.tracks@.take(n as int) =~= self.tracks@);
        let v = sorted_distinct(&genres);
        proof {
            assert forall|x: Seq<char>| string_views(v@).contains(x) <==> x.len() > 0 && exists|k: int|
                0 <= k < self.tracks@.len() && #[trigger] self.tracks@[k].genre@ == x by {
                lemma_nonempty_genres(self.tracks@, x);
            }
        }
        Ok(v)
    }
}

proof fn lemma_by_title_len(s: Seq<Track>)
    ensures
        by_title(s).len() == s.len(),
    decreases s.len(),
{
    if s.len() > 0 {
        lemma_by_title_len(s.drop_last());
        lemma_leading_not_after_bound(by_title(s.drop_last()), s.last().title@);
    }
}

proof fn lemma_leading_not_after_bound(s: Seq<Track>, key: Seq<char>)
    ensures
        leading_not_after(s, key) <= s.len(),
    decreases s.len(),
{
    if s.len() > 0 {
        lemma_leading_not_after_bound(s.drop_first(), key);
    }
}

proof fn lemma_leading_at_least_char(s: Seq<(i64, usize)>, score: i64)
    ensures
        leading_at_least(s, score) <= s.len(),
        forall|j: int| 0 <= j < leading_at_least(s, score) ==> #[trigger] s[j].0 >= score,
        leading_at_least(s, score) < s.len() ==> s[leading_at_least(s, score) as int].0 < score,
    decreases s.len(),
{
    if s.len() > 0 {
        lemma_leading_at_least_char(s.drop_first(), score);
        if s[0].0 >= score {
            assert forall|j: int| 0 <= j < leading_at_least(s, score) implies #[trigger] s[j].0 >= score by {
                if j > 0 {
                    assert(s[j] == s.drop_first()[j - 1]);
                }
            }
        }
    }
}

/// Ranked entries come in order of score, highest first.
proof fn lemma_ranked_sorted(s: Seq<(i64, usize)>)
    ensures
        forall|i: int, j: int| 0 <= i < j < ranked(s).len() ==> #[trigger] ranked(s)[i].0 >= #[trigger] ranked(s)[j].0,
    decreases s.len(),
{
    if s.len() > 0 {
        let r = ranked(s.drop_last());
        let x = s.last();
        lemma_ranked_sorted(s.drop_last());
        lemma_leading_at_least_char(r, x.0);
        let p = leading_at_least(r, x.0) as int;
        r.insert_ensures(p, x);
        let t = ranked(s);
        assert forall|i: int, j: int| 0 <= i < j < t.len() implies #[trigger] t[i].0 >= #[trigger] t[j].0 by {
            if j < p {
                assert(t[i] == r[i] && t[j] == r[j]);
            } else if j == p {
                assert(t[i] == r[i]);
            } else if i < p {
                assert(t[i] == r[i] && t[j] == r[j - 1]);
            } else if i == p {
                assert(t[j] == r[j - 1]);
                assert(r[p].0 >= r[j - 1].0);
            } else {
                assert(t[i] == r[i - 1] && t[j] == r[j - 1]);
            }
        }
    }
}

/// A fuzzy search gives its matches best score first: the scores of the
/// ranked matches never increase along the results.
pub proof fn lemma_fuzzy_best_first<T: CatalogItem>(items: Seq<T>, query: Seq<char>)
    ensures
        ({
            let r = ranked(fuzzy_scored(items, lowercase(query)));
            forall|i: int, j: int| 0 <= i < j < r.len() ==> #[trigger] r[i].0 >= #[trigger] r[j].0
        }),
{
    lemma_ranked_sorted(fuzzy_scored(items, lowercase(query)));
}

proof fn lemma_leading_not_after_char(s: Seq<Track>, key: Seq<char>)
    ensures
        leading_not_after(s, key) <= s.len(),
        forall|j: int| 0 <= j < leading_not_after(s, key) ==> !text_less(key, #[trigger] s[j].title@),
        leading_not_after(s, key) < s.len() ==> text_less(key, s[leading_not_after(s, key) as int].title@),
    decreases s.len(),
{
    if s.len() > 0 {
        lemma_leading_not_after_char(s.drop_first(), key);
        if !text_less(key, s[0].title@) {
            assert forall|j: int| 0 <= j < leading_not_after(s, key) implies !text_less(key, #[trigger] s[j].title@) by {
                if j > 0 {
                    assert(s[j] == s.drop_first()[j - 1]);
                }
            }
        }
    }
}

/// Tracks ordered by title: no title comes before an earlier one.
pub proof fn lemma_by_title_sorted(s: Seq<Track>)
    ensures
        forall|i: int, j: int|
            0 <= i < j < by_title(s).len() ==> !text_less(#[trigger] by_title(s)[j].title@, #[trigger] by_title(s)[i].title@),
    decreases s.len(),
{
    if s.len() > 0 {
        let r = by_title(s.drop_last());
        let x = s.last();
        lemma_by_title_sorted(s.drop_last());
        lemma_leading_not_after_char(r, x.title@);
        let p = leading_not_after(r, x.title@) as int;
        r.insert_ensures(p, x);
        let t = by_title(s);
        assert forall|i: int, j: int| 0 <= i < j < t.len() implies !text_less(#[trigger] t[j].title@, #[trigger] t[i].title@) by {
            if j < p {
                assert(t[i] == r[i] && t[j] == r[j]);
            } else if j == p {
                assert(t[i] == r[i]);
            } else if i < p {
                assert(t[i] == r[i] && t[j] == r[j - 1]);
            } else if i == p {
                assert(t[j] == r[j - 1]);
                if text_less(r[j - 1].title@, x.title@) {
                    if j - 1 > p {
                        assert(!text_less(r[j - 1].title@, r[p].title@));
                        crate::provider::catalog::lemma_text_less_transitive(r[j - 1].title@, x.title@, r[p].title@);
                    } else {
                        crate::provider::catalog::lemma_text_less_transitive(x.title@, r[p].title@, x.title@);
                        crate::provider::catalog::lemma_text_less_irreflexive(x.title@);
                    }
                }
            } else {
                assert(t[i] == r[i - 1] && t[j] == r[j - 1]);
            }
        }
    }
}

/// The tracks of the entries have distinct ids.
proof fn lemma_track_entries_distinct(es: Seq<FileEntry>)
    ensures
        forall|a: int, b: int|
            0 <= a < b < track_entries(es).len() ==> #[trigger] entry_ids(track_entries(es))[a] != #[trigger] entry_ids(
                track_entries(es),
            )[b],
    decreases es.len(),
{
    if es.len() > 0 {
        let prev = track_entries(es.drop_last());
        let e = es.last();
        let id = track_id_text(e.0);
        lemma_track_entries_distinct(es.drop_last());
        lemma_first_key(entry_ids(prev), id);
        let t = track_entries(es);
        assert forall|a: int, b: int| 0 <= a < b < t.len() implies #[trigger] entry_ids(t)[a] != #[trigger] entry_ids(t)[b] by {
            assert(entry_ids(t)[a] == track_id_text(t[a].0));
            assert(entry_ids(t)[b] == track_id_text(t[b].0));
            match first_key(entry_ids(prev), id) {
                Some(k) => {
                    assert(entry_ids(prev)[a] == track_id_text(prev[a].0));
                    assert(entry_ids(prev)[b] == track_id_text(prev[b].0));
                    assert(entry_ids(prev)[k] == track_id_text(prev[k].0));
                },
                None => {
                    if b < prev.len() {
                        assert(entry_ids(prev)[a] == track_id_text(prev[a].0));
                        assert(entry_ids(prev)[b] == track_id_text(prev[b].0));
                    } else {
                        assert(entry_ids(prev)[a] == track_id_text(prev[a].0));
                    }
                },
            }
        }
    }
}

/// A scan gives one track per path: no two tracks share an id.
pub proof fn lemma_scan_one_track_per_path(p: &LocalProvider, files: Seq<ScannedFile>)
    requires
        p.holds_scan(files),
    ensures
        forall|a: int, b: int|
            0 <= a < b < p.spec_tracks().len() ==> #[trigger] p.spec_tracks()[a].id@ != #[trigger] p.spec_tracks()[b].id@,
{
    let te = track_entries(scanned_entries(p.spec_extensions(), files));
    lemma_track_entries_distinct(scanned_entries(p.spec_extensions(), files));
    assert forall|a: int, b: int| 0 <= a < b < p.spec_tracks().len() implies #[trigger] p.spec_tracks()[a].id@
        != #[trigger] p.spec_tracks()[b].id@ by {
        assert(is_local_track(p.spec_tracks()[a], p.spec_id(), te[a]));
        assert(is_local_track(p.spec_tracks()[b], p.spec_id(), te[b]));
        assert(entry_ids(te)[a] != entry_ids(te)[b]);
    }
}

impl LocalProvider {
    /// The page of the fuzzy search over track titles, or none where the page
    /// would start past the end of the results.
    pub fn try_search_tracks(&self, query: &str, limit: u32, offset: u32) -> (r: Option<Vec<Track>>)
        ensures
            match r {
                Some(v) => offset <= fuzzy_ranked(self.spec_tracks(), query@).len() && same_items(
                    v@,
                    page_of(fuzzy_ranked(self.spec_tracks(), query@), limit as nat, offset as nat),
                ),
                None => offset > fuzzy_ranked(self.spec_tracks(), query@).len(),
            },
    {
        let all = fuzzy_search(&self.tracks, query);
        if offset as usize > all.len() {
            return None;
        }
        match self.search_tracks(query, limit, offset) {
            Ok(v) => Some(v),
            Err(_) => None,
        }
    }

    /// The page of the fuzzy search over album titles, or none where the page
    /// would start past the end of the results.
    pub fn try_search_albums(&self, query: &str, limit: u32, offset: u32) -> (r: Option<Vec<Album>>)
        ensures
            match r {
                Some(v) => offset <= fuzzy_ranked(self.spec_albums(), query@).len() && same_items(
                    v@,
                    page_of(fuzzy_ranked(self.spec_albums(), query@), limit as nat, offset as nat),
                ),
                None => offset > fuzzy_ranked(self.spec_albums(), query@).len(),
            },
    {
        let all = fuzzy_search(&self.albums, query);
        if offset as usize > all.len() {
            return None;
        }
        match self.search_albums(query, limit, offset) {
            Ok(v) => Some(v),
            Err(_) => None,
        }
    }

    /// The page of the fuzzy search over artist names, or none where the page
    /// would start past the end of the results.
    pub fn try_search_artists(&self, query: &str, limit: u32, offset: u32) -> (r: Option<Vec<Artist>>)
        ensures
            match r {
                Some(v) => offset <= fuzzy_ranked(self.spec_artists(), query@).len() && same_items(
                    v@,
                    page_of(fuzzy_ranked(self.spec_artists(), query@), limit as nat, offset as nat),
                ),
                None => offset > fuzzy_ranked(self.spec_artists(), query@).len(),
            },
    {
        let all = fuzzy_search(&self.artists, query);
        if offset as usize > all.len() {
            return None;
        }
        match self.search_artists(query, limit, offset) {
            Ok(v) => Some(v),
            Err(_) => None,
        }
    }
}

} // verus!
