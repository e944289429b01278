//! What the screens show, as text: the rows of each list in the order shown,
//! the summary lines, the search messages and the cursor. Drawing the text
//! with its colors is done by the program around the library.

use vstd::prelude::*;
use vstd::string::*;

use crate::provider::catalog::{same_text, text_before, text_less};
use crate::text::decimal_string;
use crate::text::decimal;
use crate::config::{GeneralConfig, UIConfig};
use crate::state::{find_track, lookup_track, AppState};
use crate::types::{duration_text, minutes_text, total_ns, whole_secs, NANOS_PER_SEC, Album, Artist, Library, PlaybackState, Playlist, Track};
use crate::ui::components::Sidebar;

verus! {

/// Something listed by a main and a second text, as the lists sort it.
pub trait ListKey {
    spec fn major_key(&self) -> Seq<char>;

    spec fn minor_key(&self) -> Seq<char>;

    fn major_text(&self) -> (s: &str)
        ensures
            s@ == self.major_key(),
    ;

    fn minor_text(&self) -> (s: &str)
        ensures
            s@ == self.minor_key(),
    ;

    /// The text of the item's row in its list.
    spec fn row(&self) -> Seq<char>;

    fn row_text(&self) -> (s: String)
        ensures
            s@ == self.row(),
    ;
}

/// Tracks are listed by artist, then title.
impl ListKey for Track {
    open spec fn major_key(&self) -> Seq<char> {
        self.artist@
    }

    open spec fn minor_key(&self) -> Seq<char> {
        self.title@
    }

    fn major_text(&self) -> (s: &str) {
        self.artist.as_str()
    }

    fn minor_text(&self) -> (s: &str) {
        self.title.as_str()
    }

    /// " <artist> — <title>  [<m:ss>]"
    open spec fn row(&self) -> Seq<char> {
        " "@ + self.artist@ + " \u{2014} "@ + self.title@ + "  ["@ + minutes_text(whole_secs(self.duration_ns)) + "]"@
    }

    fn row_text(&self) -> (s: String) {
        let mut s = String::from_str(" ");
        s.append(self.artist.as_str());
        s.append(" \u{2014} ");
        s.append(self.title.as_str());
        s.append("  [");
        let d = self.duration_formatted();
        s.append(d.as_str());
        s.append("]");
        s
    }
}

/// Albums are listed by artist, then title.
impl ListKey for Album {
    open spec fn major_key(&self) -> Seq<char> {
        self.artist@
    }

    open spec fn minor_key(&self) -> Seq<char> {
        self.title@
    }

    fn major_text(&self) -> (s: &str) {
        self.artist.as_str()
    }

    fn minor_text(&self) -> (s: &str) {
        self.title.as_str()
    }

    /// " <artist> — <title>  (<n> tracks)"
    open spec fn row(&self) -> Seq<char> {
        " "@ + self.artist@ + " \u{2014} "@ + self.title@ + "  ("@ + decimal(self.track_count as nat) + " tracks)"@
    }

    fn row_text(&self) -> (s: String) {
        let mut s = String::from_str(" ");
        s.append(self.artist.as_str());
        s.append(" \u{2014} ");
        s.append(self.title.as_str());
        s.append("  (");
        let n = decimal_string(self.track_count as u64);
        s.append(n.as_str());
        s.append(" tracks)");
        s
    }
}

/// Artists are listed by name.
impl ListKey for Artist {
    open spec fn major_key(&self) -> Seq<char> {
        self.name@
    }

    open spec fn minor_key(&self) -> Seq<char> {
        Seq::<char>::empty()
    }

    fn major_text(&self) -> (s: &str) {
        self.name.as_str()
    }

    fn minor_text(&self) -> (s: &str) {
        proof {
            reveal_strlit("");
        }
        ""
    }

    /// " <name>  (<n> albums)"
    open spec fn row(&self) -> Seq<char> {
        " "@ + self.name@ + "  ("@ + decimal(self.album_count as nat) + " albums)"@
    }

    fn row_text(&self) -> (s: String) {
        let mut s = String::from_str(" ");
        s.append(self.name.as_str());
        s.append("  (");
        let n = decimal_string(self.album_count as u64);
        s.append(n.as_str());
        s.append(" albums)");
        s
    }
}

/// Playlists are listed by name.
impl ListKey for Playlist {
    open spec fn major_key(&self) -> Seq<char> {
        self.name@
    }

    open spec fn minor_key(&self) -> Seq<char> {
        Seq::<char>::empty()
    }

    fn major_text(&self) -> (s: &str) {
        self.name.as_str()
    }

    fn minor_text(&self) -> (s: &str) {
        proof {
            reveal_strlit("");
        }
        ""
    }

    /// " <name>  (<n> tracks)"
    open spec fn row(&self) -> Seq<char> {
        " "@ + self.name@ + "  ("@ + decimal(self.tracks@.len()) + " tracks)"@
    }

    fn row_text(&self) -> (s: String) {
        let mut s = String::from_str(" ");
        s.append(self.name.as_str());
        s.append("  (");
        let n = decimal_string(self.tracks.len() as u64);
        s.append(n.as_str());
        s.append(" tracks)");
        s
    }
}

/// A sort key: a main text and a second one.
pub type Key = (Seq<char>, Seq<char>);

/// The keys of the items.
pub open spec fn keys_of<T: ListKey>(items: Seq<T>) -> Seq<Key> {
    Seq::new(items.len(), |k: int| (items[k].major_key(), items[k].minor_key()))
}

/// `a` sorts before `b`: by the main text, then by the second.
pub open spec fn sorts_before(a: Key, b: Key) -> bool {
    text_less(a.0, b.0) || (a.0 == b.0 && text_less(a.1, b.1))
}

/// How many positions at the front of `order` hold keys that `k` does not
/// sort before.
pub open spec fn lead_count(keys: Seq<Key>, order: Seq<usize>, k: Key) -> nat
    decreases order.len(),
{
    if order.len() == 0 {
        0
    } else if !sorts_before(k, keys[order[0] as int]) {
        1 + lead_count(keys, order.drop_first(), k)
    } else {
        0
    }
}

/// The positions of the keys in sorted order; equal keys keep their order.
pub open spec fn listing(keys: Seq<Key>) -> Seq<usize>
    decreases keys.len(),
{
    if keys.len() == 0 {
        Seq::<usize>::empty()
    } else {
        let prefix = keys.drop_last();
        let r = listing(prefix);
        r.insert(lead_count(keys, r, keys.last()) as int, (keys.len() - 1) as usize)
    }
}

proof fn lemma_lead_count(keys: Seq<Key>, order: Seq<usize>, k: Key, p: int)
    requires
        0 <= p <= order.len(),
        forall|j: int| 0 <= j < p ==> !sorts_before(k, #[trigger] keys[order[j] as int]),
        p == order.len() || sorts_before(k, keys[order[p] as int]),
    ensures
        lead_count(keys, order, k) == p,
    decreases p,
{
    if p > 0 {
        assert forall|j: int| 0 <= j < p - 1 implies !sorts_before(k, #[trigger] keys[order.drop_first()[j] as int]) by {
            assert(order.drop_first()[j] == order[j + 1]);
        }
        lemma_lead_count(keys, order.drop_first(), k, p - 1);
    }
}

proof fn lemma_lead_count_bound(keys: Seq<Key>, order: Seq<usize>, k: Key)
    ensures
        lead_count(keys, order, k) <= order.len(),
    decreases order.len(),
{
    if order.len() > 0 {
        lemma_lead_count_bound(keys, order.drop_first(), k);
    }
}

/// The listing holds each position once and no other.
proof fn lemma_listing_bounds(keys: Seq<Key>)
    requires
        keys.len() <= usize::MAX,
    ensures
        listing(keys).len() == keys.len(),
        forall|j: int| 0 <= j < listing(keys).len() ==> #[trigger] listing(keys)[j] < keys.len(),
    decreases keys.len(),
{
    if keys.len() > 0 {
        let r = listing(keys.drop_last());
        lemma_listing_bounds(keys.drop_last());
        lemma_lead_count_bound(keys, r, keys.last());
        let p = lead_count(keys, r, keys.last()) as int;
        let last = (keys.len() - 1) as usize;
        r.insert_ensures(p, last);
        assert forall|j: int| 0 <= j < listing(keys).len() implies #[trigger] listing(keys)[j] < keys.len() by {
            if j < p {
                assert(listing(keys)[j] == r[j]);
            } else if j > p {
                assert(listing(keys)[j] == r[j - 1]);
            }
        }
    }
}

proof fn lemma_text_order(a: Seq<char>, b: Seq<char>, c: Seq<char>)
    ensures
        !text_less(a, a),
        text_less(a, b) && text_less(b, c) ==> text_less(a, c),
        text_less(a, b) || text_less(b, a) || a == b,
{
    crate::provider::catalog::lemma_text_less_irreflexive(a);
    if a != b {
        crate::provider::catalog::lemma_text_less_total(a, b);
    }
    if text_less(a, b) && text_less(b, c) {
        crate::provider::catalog::lemma_text_less_transitive(a, b, c);
    }
}

proof fn lemma_sorts_before_order(a: Key, b: Key, c: Key)
    ensures
        !sorts_before(a, a),
        sorts_before(a, b) ==> !sorts_before(b, a),
        sorts_before(a, b) && sorts_before(b, c) ==> sorts_before(a, c),
        !sorts_before(a, b) && !sorts_before(b, c) ==> !sorts_before(a, c),
{
    lemma_text_order(a.0, b.0, c.0);
    lemma_text_order(a.1, b.1, c.1);
    lemma_text_order(b.0, a.0, b.0);
    lemma_text_order(b.1, a.1, b.1);
    lemma_text_order(a.0, b.0, a.0);
    lemma_text_order(a.1, b.1, a.1);
    lemma_text_order(c.0, b.0, a.0);
    lemma_text_order(c.1, b.1, a.1);
    lemma_text_order(a.0, c.0, a.0);
    lemma_text_order(a.1, c.1, a.1);
    lemma_text_order(b.0, c.0, b.0);
    lemma_text_order(b.1, c.1, b.1);
}

proof fn lemma_lead_count_char(keys: Seq<Key>, order: Seq<usize>, k: Key)
    ensures
        lead_count(keys, order, k) <= order.len(),
        forall|j: int| 0 <= j < lead_count(keys, order, k) ==> !sorts_before(k, #[trigger] keys[order[j] as int]),
        lead_count(keys, order, k) < order.len() ==> sorts_before(k, keys[order[lead_count(keys, order, k) as int] as int]),
    decreases order.len(),
{
    if order.len() > 0 {
        lemma_lead_count_char(keys, order.drop_first(), k);
        if !sorts_before(k, keys[order[0] as int]) {
            assert forall|j: int| 0 <= j < lead_count(keys, order, k) implies !sorts_before(k, #[trigger] keys[order[j] as int]) by {
                if j > 0 {
                    assert(order[j] == order.drop_first()[j - 1]);
                }
            }
        }
    }
}

/// A list is shown in order: no row's key sorts before the key of a row
/// above it.
pub proof fn lemma_listing_sorted(keys: Seq<Key>)
    requires
        keys.len() <= usize::MAX,
    ensures
        forall|i: int, j: int|
            0 <= i < j < listing(keys).len() ==> !sorts_before(
                keys[#[trigger] listing(keys)[j] as int],
                keys[#[trigger] listing(keys)[i] as int],
            ),
    decreases keys.len(),
{
    if keys.len() > 0 {
        let prefix = keys.drop_last();
        let r = listing(prefix);
        let x = keys.last();
        let last = (keys.len() - 1) as usize;
        lemma_listing_sorted(prefix);
        lemma_listing_bounds(prefix);
        lemma_lead_count_char(keys, r, x);
        let p = lead_count(keys, r, x) as int;
        r.insert_ensures(p, last);
        let t = listing(keys);
        assert(keys[last as int] == x);
        assert forall|i: int, j: int| 0 <= i < j < t.len() implies !sorts_before(
            keys[#[trigger] t[j] as int],
            keys[#[trigger] t[i] as int],
        ) by {
            if j < p {
                assert(t[i] == r[i] && t[j] == r[j]);
                assert(keys[r[i] as int] == prefix[r[i] as int]);
                assert(keys[r[j] as int] == prefix[r[j] as int]);
            } else if j == p {
                assert(t[i] == r[i]);
            } else if i < p {
                assert(t[i] == r[i] && t[j] == r[j - 1]);
                assert(keys[r[i] as int] == prefix[r[i] as int]);
                assert(keys[r[j - 1] as int] == prefix[r[j - 1] as int]);
            } else if i == p {
                assert(t[j] == r[j - 1]);
                let y = keys[r[j - 1] as int];
                let z = keys[r[p] as int];
                assert(sorts_before(x, z));
                if j - 1 > p {
                    assert(keys[r[p] as int] == prefix[r[p] as int]);
                    assert(keys[r[j - 1] as int] == prefix[r[j - 1] as int]);
                    assert(!sorts_before(y, z));
                    lemma_sorts_before_order(y, x, z);
                } else {
                    lemma_sorts_before_order(x, z, x);
                }
            } else {
                assert(t[i] == r[i - 1] && t[j] == r[j - 1]);
                assert(keys[r[i - 1] as int] == prefix[r[i - 1] as int]);
                assert(keys[r[j - 1] as int] == prefix[r[j - 1] as int]);
            }
        }
    }
}

fn key_sorts_before(a_major: &str, a_minor: &str, b_major: &str, b_minor: &str) -> (r: bool)
    ensures
        r == sorts_before((a_major@, a_minor@), (b_major@, b_minor@)),
{
    text_before(a_major, b_major) || (same_text(a_major, b_major) && text_before(a_minor, b_minor))
}

/// The positions of the items in the order a list shows them.
pub fn list_order<T: ListKey>(items: &Vec<T>) -> (order: Vec<usize>)
    ensures
        order@ == listing(keys_of(items@)),
        forall|j: int| 0 <= j < order@.len() ==> #[trigger] order@[j] < items@.len(),
{
    let ghost keys = keys_of(items@);
    let mut out: Vec<usize> = Vec::new();
    let n = items.len();
    let mut i: usize = 0;
    while i < n
        invariant
            n == items@.len(),
            keys == keys_of(items@),
            i <= n,
            out@ == listing(keys.take(i as int)),
            forall|j: int| 0 <= j < out@.len() ==> #[trigger] out@[j] < i,
        decreases n - i,
    {
        let ghost ks = keys.take(i as int + 1);
        proof {
            assert(ks.drop_last() =~= keys.take(i as int));
            lemma_listing_bounds(keys.take(i as int));
        }
        let mut k: usize = 0;
        while k < out.len() && !key_sorts_before(
            items[i].major_text(),
            items[i].minor_text(),
            items[out[k]].major_text(),
            items[out[k]].minor_text(),
        )
            invariant
                n == items@.len(),
                keys == keys_of(items@),
                i < n,
                ks == keys.take(i as int + 1),
                forall|j: int| 0 <= j < out@.len() ==> #[trigger] out@[j] < i,
                k <= out@.len(),
                forall|j: int| 0 <= j < k ==> !sorts_before(ks.last(), #[trigger] ks[out@[j] as int]),
            decreases out@.len() - k,
        {
            proof {
                assert(ks[out@[k as int] as int] == keys[out@[k as int] as int]);
                assert(ks.last() == keys[i as int]);
            }
            k = k + 1;
        }
        proof {
            if k < out@.len() {
                assert(ks[out@[k as int] as int] == keys[out@[k as int] as int]);
                assert(ks.last() == keys[i as int]);
            }
            lemma_lead_count(ks, out@, ks.last(), k as int);
        }
        out.insert(k, i);
        i = i + 1;
    }
    assert(keys.take(n as int) =~= keys);
    out
}

/// The rows of a list in the order shown.
pub fn list_rows<T: ListKey>(items: &Vec<T>) -> (rows: Vec<String>)
    ensures
        rows@.len() == items@.len(),
        forall|k: int|
            0 <= k < rows@.len() ==> #[trigger] rows@[k]@ == items@[listing(keys_of(items@))[k] as int].row(),
{
    let order = list_order(items);
    let n = items.len();
    proof {
        assert(keys_of(items@).len() == n);
        lemma_listing_bounds(keys_of(items@));
    }
    let mut rows: Vec<String> = Vec::new();
    let mut i: usize = 0;
    while i < order.len()
        invariant
            order@ == listing(keys_of(items@)),
            order@.len() == items@.len(),
            forall|j: int| 0 <= j < order@.len() ==> #[trigger] order@[j] < items@.len(),
            i <= order@.len(),
            rows@.len() == i,
            forall|k: int| 0 <= k < i ==> #[trigger] rows@[k]@ == items@[order@[k] as int].row(),
        decreases order@.len() - i,
    {
        rows.push(items[order[i]].row_text());
        i = i + 1;
    }
    rows
}

/// The track shown as playing: looked up among the remembered tracks, then
/// in the library.
pub open spec fn shown_track(state: AppState) -> Option<Track> {
    match state.playback.current_track_id {
        None => None,
        Some(id) => match find_track(state.track_cache@, id@) {
            Some(t) => Some(t),
            None => find_track(state.library.tracks@, id@),
        },
    }
}

/// " Tracks: <t>   Albums: <a>   Artists: <r>   Playlists: <p>"
pub open spec fn stats_text(lib: Library) -> Seq<char> {
    " Tracks: "@ + decimal(lib.tracks@.len()) + "   Albums: "@ + decimal(lib.albums@.len()) + "   Artists: "@
        + decimal(lib.artists@.len()) + "   Playlists: "@ + decimal(lib.playlists@.len())
}

/// The counts of the library, as the home screen shows them.
pub fn library_stats_line(lib: &Library) -> (s: String)
    ensures
        s@ == stats_text(*lib),
{
    let mut s = String::from_str(" Tracks: ");
    s.append(decimal_string(lib.tracks.len() as u64).as_str());
    s.append("   Albums: ");
    s.append(decimal_string(lib.albums.len() as u64).as_str());
    s.append("   Artists: ");
    s.append(decimal_string(lib.artists.len() as u64).as_str());
    s.append("   Playlists: ");
    s.append(decimal_string(lib.playlists.len() as u64).as_str());
    s
}

/// " Now Playing: <artist> — <title>  (<m:ss>)", or a line saying nothing plays.
pub open spec fn now_playing_text(state: AppState) -> Seq<char> {
    match shown_track(state) {
        Some(t) => " Now Playing: "@ + t.artist@ + " \u{2014} "@ + t.title@ + "  ("@ + minutes_text(whole_secs(t.duration_ns)) + ")"@,
        None => " No track currently playing"@,
    }
}

/// What the home screen says of the playing track.
pub fn now_playing_line(state: &AppState) -> (s: String)
    ensures
        s@ == now_playing_text(*state),
{
    match state.current_track() {
        Some(t) => {
            let mut s = String::from_str(" Now Playing: ");
            s.append(t.artist.as_str());
            s.append(" \u{2014} ");
            s.append(t.title.as_str());
            s.append("  (");
            s.append(t.duration_formatted().as_str());
            s.append(")");
            s
        },
        None => String::from_str(" No track currently playing"),
    }
}

/// " Tracks: <t>  |  Albums: <a>  |  Artists: <r>  |  Playlists: <p>  |  Total: <h>h <m>m"
pub open spec fn summary_text(lib: Library) -> Seq<char> {
    let total = total_ns(lib.tracks@) / (NANOS_PER_SEC as nat);
    " Tracks: "@ + decimal(lib.tracks@.len()) + "  |  Albums: "@ + decimal(lib.albums@.len()) + "  |  Artists: "@
        + decimal(lib.artists@.len()) + "  |  Playlists: "@ + decimal(lib.playlists@.len()) + "  |  Total: "@
        + decimal(total / 3600) + "h "@ + decimal((total % 3600) / 60) + "m"@
}

/// The summary line of the library screen; the total length must fit the
/// machine's integers.
pub fn library_summary_line(lib: &Library) -> (s: String)
    requires
        total_ns(lib.tracks@) <= u64::MAX,
    ensures
        s@ == summary_text(*lib),
{
    let total = lib.duration_total() / NANOS_PER_SEC;
    let mut s = String::from_str(" Tracks: ");
    s.append(decimal_string(lib.tracks.len() as u64).as_str());
    s.append("  |  Albums: ");
    s.append(decimal_string(lib.albums.len() as u64).as_str());
    s.append("  |  Artists: ");
    s.append(decimal_string(lib.artists.len() as u64).as_str());
    s.append("  |  Playlists: ");
    s.append(decimal_string(lib.playlists.len() as u64).as_str());
    s.append("  |  Total: ");
    s.append(decimal_string(total / 3600).as_str());
    s.append("h ");
    s.append(decimal_string((total % 3600) / 60).as_str());
    s.append("m");
    s
}

/// "<artist> — <title>" of the track with this id, looked up among the
/// remembered tracks, then in the library; the id itself where neither
/// knows it.
pub open spec fn queue_info(state: AppState, id: Seq<char>) -> Seq<char> {
    match find_track(state.track_cache@, id) {
        Some(t) => t.artist@ + " \u{2014} "@ + t.title@,
        None => match find_track(state.library.tracks@, id) {
            Some(t) => t.artist@ + " \u{2014} "@ + t.title@,
            None => id,
        },
    }
}

/// A row of the queue: a marker on the playing one, then the track.
pub open spec fn queue_row_text(state: AppState, i: int) -> Seq<char> {
    (if state.queue_index == Some(i as usize) {
        "\u{25b6} "@
    } else {
        "   "@
    }) + queue_info(state, state.queue@[i]@)
}

/// The rows of the queue: each row's text, whether it plays, and whether it
/// is selected.
pub fn queue_rows(state: &AppState) -> (rows: Vec<(String, bool, bool)>)
    ensures
        rows@.len() == state.queue@.len(),
        forall|i: int|
            #![trigger rows@[i]]
            0 <= i < rows@.len() ==> {
                &&& rows@[i].0@ == queue_row_text(*state, i)
                &&& rows@[i].1 == (state.queue_index == Some(i as usize))
                &&& rows@[i].2 == (i == state.selected_index)
            },
{
    let mut rows: Vec<(String, bool, bool)> = Vec::new();
    let n = state.queue.len();
    let mut i: usize = 0;
    while i < n
        invariant
            n == state.queue@.len(),
            i <= n,
            rows@.len() == i,
            forall|k: int|
                #![trigger rows@[k]]
                0 <= k < i ==> {
                    &&& rows@[k].0@ == queue_row_text(*state, k)
                    &&& rows@[k].1 == (state.queue_index == Some(k as usize))
                    &&& rows@[k].2 == (k == state.selected_index)
                },
        decreases n - i,
    {
        let id = &state.queue[i];
        let is_current = match state.queue_index {
            Some(q) => q == i,
            None => false,
        };
        let info = match lookup_track(&state.track_cache, id) {
            Some(t) => {
                let mut x = t.artist.clone();
                x.append(" \u{2014} ");
                x.append(t.title.as_str());
                x
            },
            None => match lookup_track(&state.library.tracks, id) {
                Some(t) => {
                    let mut x = t.artist.clone();
                    x.append(" \u{2014} ");
                    x.append(t.title.as_str());
                    x
                },
                None => id.clone(),
            },
        };
        let mut text = if is_current {
            String::from_str("\u{25b6} ")
        } else {
            String::from_str("   ")
        };
        text.append(info.as_str());
        let ghost before = rows@;
        rows.push((text, is_current, i == state.selected_index));
        assert forall|k: int| #![trigger rows@[k]] 0 <= k < i + 1 implies {
            &&& rows@[k].0@ == queue_row_text(*state, k)
            &&& rows@[k].1 == (state.queue_index == Some(k as usize))
            &&& rows@[k].2 == (k == state.selected_index)
        } by {
            if k < i {
                assert(rows@[k] == before[k]);
            }
        }
        i = i + 1;
    }
    rows
}

/// " Queue (<n> items) "
pub fn queue_title(count: usize) -> (s: String)
    ensures
        s@ == " Queue ("@ + decimal(count as nat) + " items) "@,
{
    let mut s = String::from_str(" Queue (");
    s.append(decimal_string(count as u64).as_str());
    s.append(" items) ");
    s
}

/// What the search screen says instead of results: how to search while the
/// query is empty, and that nothing was found for a query without results.
pub open spec fn search_notice_text(state: AppState) -> Option<Seq<char>> {
    if state.search_query@.len() == 0 {
        Some(" Type a search and press Enter. Use j/k to select a track, then Enter to play."@)
    } else if state.search_results.total_results == 0 {
        Some(" No results found"@)
    } else {
        None
    }
}

/// The search screen's message in place of results, if any.
pub fn search_notice(state: &AppState) -> (r: Option<&'static str>)
    ensures
        match search_notice_text(*state) {
            Some(t) => r matches Some(x) && x@ == t,
            None => r is None,
        },
{
    if state.search_query.as_str().is_empty() {
        Some(" Type a search and press Enter. Use j/k to select a track, then Enter to play.")
    } else if state.search_results.total_results == 0 {
        Some(" No results found")
    } else {
        None
    }
}

/// Where the cursor of the search field stands: after the query, inside the
/// field's border.
pub open spec fn cursor_column(x: u16, right: u16, query_len: nat) -> u16 {
    let after = if x + 1 > u16::MAX { u16::MAX as int } else { x + 1 };
    let end = if after + (query_len as u16) > u16::MAX { u16::MAX as int } else { after + (query_len as u16) };
    let limit = if right >= 2 { right - 2 } else { 0 };
    (if end < limit { end } else { limit }) as u16
}

/// The cursor's column in a search field starting at `x` and ending before
/// `right`.
pub fn search_cursor_x(x: u16, right: u16, query: &str) -> (c: u16)
    ensures
        c == cursor_column(x, right, query@.len()),
{
    let count = query.unicode_len();
    let after = x.saturating_add(1);
    let end = after.saturating_add(count as u16);
    let limit = right.saturating_sub(2);
    if end < limit {
        end
    } else {
        limit
    }
}

/// The height of a result section: its border and title, and at most `cap`
/// rows.
pub fn section_height(rows: usize, cap: u16) -> (h: u16)
    requires
        (if rows < cap { rows as int } else { cap as int }) + 3 <= u16::MAX,
    ensures
        h == 3 + (if rows < cap { rows as int } else { cap as int }),
{
    if rows < cap as usize {
        3 + rows as u16
    } else {
        3 + cap
    }
}

/// The track rows of the search results, each with whether it is
/// highlighted: the selected one, while the field is not focused.
pub fn search_track_rows(state: &AppState) -> (rows: Vec<(String, bool)>)
    ensures
        rows@.len() == state.search_results.tracks@.len(),
        forall|i: int|
            #![trigger rows@[i]]
            0 <= i < rows@.len() ==> {
                let t = state.search_results.tracks@[i];
                &&& rows@[i].0@ == " \u{266b} "@ + t.artist@ + " \u{2014} "@ + t.title@
                &&& rows@[i].1 == (!state.search_focused && i == state.selected_index)
            },
{
    let tracks = &state.search_results.tracks;
    let mut rows: Vec<(String, bool)> = Vec::new();
    let mut i: usize = 0;
    while i < tracks.len()
        invariant
            tracks == &state.search_results.tracks,
            i <= tracks@.len(),
            rows@.len() == i,
            forall|k: int|
                #![trigger rows@[k]]
                0 <= k < i ==> {
                    let t = tracks@[k];
                    &&& rows@[k].0@ == " \u{266b} "@ + t.artist@ + " \u{2014} "@ + t.title@
                    &&& rows@[k].1 == (!state.search_focused && k == state.selected_index)
                },
        decreases tracks@.len() - i,
    {
        let t = &tracks[i];
        let mut s = String::from_str(" \u{266b} ");
        s.append(t.artist.as_str());
        s.append(" \u{2014} ");
        s.append(t.title.as_str());
        let ghost before = rows@;
        rows.push((s, !state.search_focused && i == state.selected_index));
        assert forall|k: int| #![trigger rows@[k]] 0 <= k < i + 1 implies {
            let t = tracks@[k];
            &&& rows@[k].0@ == " \u{266b} "@ + t.artist@ + " \u{2014} "@ + t.title@
            &&& rows@[k].1 == (!state.search_focused && k == state.selected_index)
        } by {
            if k < i {
                assert(rows@[k] == before[k]);
            }
        }
        i = i + 1;
    }
    rows
}

/// The album rows of the search results.
pub fn search_album_rows(albums: &Vec<Album>) -> (rows: Vec<String>)
    ensures
        rows@.len() == albums@.len(),
        forall|i: int|
            0 <= i < rows@.len() ==> #[trigger] rows@[i]@ == " \u{f0025} "@ + albums@[i].artist@ + " \u{2014} "@
                + albums@[i].title@,
{
    let mut rows: Vec<String> = Vec::new();
    let mut i: usize = 0;
    while i < albums.len()
        invariant
            i <= albums@.len(),
            rows@.len() == i,
            forall|k: int|
                0 <= k < i ==> #[trigger] rows@[k]@ == " \u{f0025} "@ + albums@[k].artist@ + " \u{2014} "@
                    + albums@[k].title@,
        decreases albums@.len() - i,
    {
        let mut s = String::from_str(" \u{f0025} ");
        s.append(albums[i].artist.as_str());
        s.append(" \u{2014} ");
        s.append(albums[i].title.as_str());
        rows.push(s);
        i = i + 1;
    }
    rows
}

/// The artist rows of the search results.
pub fn search_artist_rows(artists: &Vec<Artist>) -> (rows: Vec<String>)
    ensures
        rows@.len() == artists@.len(),
        forall|i: int| 0 <= i < rows@.len() ==> #[trigger] rows@[i]@ == " \u{f0803} "@ + artists@[i].name@,
{
    let mut rows: Vec<String> = Vec::new();
    let mut i: usize = 0;
    while i < artists.len()
        invariant
            i <= artists@.len(),
            rows@.len() == i,
            forall|k: int| 0 <= k < i ==> #[trigger] rows@[k]@ == " \u{f0803} "@ + artists@[k].name@,
        decreases artists@.len() - i,
    {
        let mut s = String::from_str(" \u{f0803} ");
        s.append(artists[i].name.as_str());
        rows.push(s);
        i = i + 1;
    }
    rows
}

/// " <artist> — <title> " of the playing track, or " No track ".
pub open spec fn player_info_text(state: AppState) -> Seq<char> {
    match shown_track(state) {
        Some(t) => " "@ + t.artist@ + " \u{2014} "@ + t.title@ + " "@,
        None => " No track "@,
    }
}

/// What the player bar says of the playing track.
pub fn player_track_info(state: &AppState) -> (s: String)
    ensures
        s@ == player_info_text(*state),
{
    match state.current_track() {
        Some(t) => {
            let mut s = String::from_str(" ");
            s.append(t.artist.as_str());
            s.append(" \u{2014} ");
            s.append(t.title.as_str());
            s.append(" ");
            s
        },
        None => String::from_str(" No track "),
    }
}

/// " <position> / <length> " of the playback.
pub fn player_time_label(playback: &PlaybackState) -> (s: String)
    ensures
        s@ == " "@ + duration_text((playback.position_ms / 1000) as nat) + " / "@ + duration_text(
            (playback.duration_ms / 1000) as nat,
        ) + " "@,
{
    let mut s = String::from_str(" ");
    s.append(playback.position_formatted().as_str());
    s.append(" / ");
    s.append(playback.duration_formatted().as_str());
    s.append(" ");
    s
}

/// A row of the sidebar: a marker on the current screen, the icon, the label.
pub open spec fn sidebar_row_text(current: bool, icon: Seq<char>, label: Seq<char>) -> Seq<char> {
    (if current {
        "\u{25b8} "@
    } else {
        "  "@
    }) + icon + " "@ + label
}

/// The rows of the sidebar: text, whether the row's screen is the current
/// one, and whether the row is selected while the sidebar has the focus.
pub fn sidebar_rows(sidebar: &Sidebar, state: &AppState) -> (rows: Vec<(String, bool, bool)>)
    ensures
        rows@.len() == sidebar.items@.len(),
        forall|i: int|
            #![trigger rows@[i]]
            0 <= i < rows@.len() ==> {
                let item = sidebar.items@[i];
                &&& rows@[i].1 == item.0.same(state.current_screen)
                &&& rows@[i].0@ == sidebar_row_text(rows@[i].1, item.1@, item.2@)
                &&& rows@[i].2 == (i == sidebar.selected_index && state.sidebar_focused)
            },
{
    let mut rows: Vec<(String, bool, bool)> = Vec::new();
    let mut i: usize = 0;
    while i < sidebar.items.len()
        invariant
            i <= sidebar.items@.len(),
            rows@.len() == i,
            forall|k: int|
                #![trigger rows@[k]]
                0 <= k < i ==> {
                    let item = sidebar.items@[k];
                    &&& rows@[k].1 == item.0.same(state.current_screen)
                    &&& rows@[k].0@ == sidebar_row_text(rows@[k].1, item.1@, item.2@)
                    &&& rows@[k].2 == (k == sidebar.selected_index && state.sidebar_focused)
                },
        decreases sidebar.items@.len() - i,
    {
        let item = &sidebar.items[i];
        let current = item.0.is_same(&state.current_screen);
        let mut s = if current {
            String::from_str("\u{25b8} ")
        } else {
            String::from_str("  ")
        };
        s.append(item.1);
        s.append(" ");
        s.append(item.2);
        let ghost before = rows@;
        rows.push((s, current, i == sidebar.selected_index && state.sidebar_focused));
        assert forall|k: int| #![trigger rows@[k]] 0 <= k < i + 1 implies {
            let item = sidebar.items@[k];
            &&& rows@[k].1 == item.0.same(state.current_screen)
            &&& rows@[k].0@ == sidebar_row_text(rows@[k].1, item.1@, item.2@)
            &&& rows@[k].2 == (k == sidebar.selected_index && state.sidebar_focused)
        } by {
            if k < i {
                assert(rows@[k] == before[k]);
            }
        }
        i = i + 1;
    }
    rows
}

/// "true" or "false".
pub open spec fn bool_text(b: bool) -> Seq<char> {
    if b {
        "true"@
    } else {
        "false"@
    }
}

fn bool_str(b: bool) -> (s: &'static str)
    ensures
        s@ == bool_text(b),
{
    if b {
        "true"
    } else {
        "false"
    }
}

/// " Default Provider: <p>    Log Level: <l>"
pub fn general_line(cfg: &GeneralConfig) -> (s: String)
    ensures
        s@ == " Default Provider: "@ + cfg.default_provider@ + "    Log Level: "@ + cfg.log_level@,
{
    let mut s = String::from_str(" Default Provider: ");
    s.append(cfg.default_provider.as_str());
    s.append("    Log Level: ");
    s.append(cfg.log_level.as_str());
    s
}

/// " Sidebar Width: <w>    Show Clock: <b>    Show Cover Art: <b>    Mouse Support: <b>"
pub fn interface_line(ui: &UIConfig) -> (s: String)
    ensures
        s@ == " Sidebar Width: "@ + decimal(ui.sidebar_width as nat) + "    Show Clock: "@ + bool_text(ui.show_clock)
            + "    Show Cover Art: "@ + bool_text(ui.show_cover_art) + "    Mouse Support: "@ + bool_text(
            ui.mouse_support,
        ),
{
    let mut s = String::from_str(" Sidebar Width: ");
    s.append(decimal_string(ui.sidebar_width as u64).as_str());
    s.append("    Show Clock: ");
    s.append(bool_str(ui.show_clock));
    s.append("    Show Cover Art: ");
    s.append(bool_str(ui.show_cover_art));
    s.append("    Mouse Support: ");
    s.append(bool_str(ui.mouse_support));
    s
}

} // verus!
