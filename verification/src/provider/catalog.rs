//! What the providers share: the items of a catalog, case-insensitive search,
//! pages of results, lookups by id, and sorted lists of distinct names.

use vstd::prelude::*;
use vstd::string::*;

use crate::errors::SymphonyError;
use crate::text::string_views;
use crate::types::{Album, Artist, Playlist, Track};

verus! {

/// `str::to_lowercase`: std maps each character to its Unicode lowercase
/// mapping. The mapping takes Unicode's tables to state, so its result is
/// named here: it depends on the text alone.
pub uninterp spec fn lowercase(s: Seq<char>) -> Seq<char>;

/// `str::to_lowercase`; the result is named by `lowercase`.
#[verifier::external_body]
pub(crate) fn to_lower(s: &str) -> (r: String)
    ensures
        r@ == lowercase(s@),
{
    s.to_lowercase()
}

/// Whether `needle` occurs in `hay` as a run of consecutive characters.
pub open spec fn occurs(hay: Seq<char>, needle: Seq<char>) -> bool {
    exists|i: int| 0 <= i <= hay.len() - needle.len() && #[trigger] hay.subrange(i, i + needle.len()) == needle
}

/// The characters of `s`.
pub fn chars_of(s: &str) -> (v: Vec<char>)
    ensures
        v@ == s@,
{
    let n = s.unicode_len();
    let mut v: Vec<char> = Vec::new();
    let mut i: usize = 0;
    while i < n
        invariant
            n == s@.len(),
            i <= n,
            v@ == s@.take(i as int),
        decreases n - i,
    {
        v.push(s.get_char(i));
        assert(v@ =~= s@.take(i as int + 1));
        i = i + 1;
    }
    assert(s@.take(n as int) =~= s@);
    v
}

/// Whether two texts are equal.
pub fn same_text(a: &str, b: &str) -> (r: bool)
    ensures
        r == (a@ == b@),
{
    let x = chars_of(a);
    let y = chars_of(b);
    if x.len() != y.len() {
        assert(x@.len() != y@.len());
        return false;
    }
    let mut i: usize = 0;
    while i < x.len()
        invariant
            x@ == a@,
            y@ == b@,
            x@.len() == y@.len(),
            i <= x@.len(),
            x@.take(i as int) == y@.take(i as int),
        decreases x@.len() - i,
    {
        if x[i] != y[i] {
            assert(a@[i as int] != b@[i as int]);
            assert(a@ != b@);
            return false;
        }
        assert(x@.take(i as int + 1) =~= y@.take(i as int + 1));
        i = i + 1;
    }
    assert(x@ =~= x@.take(i as int));
    assert(y@ =~= y@.take(i as int));
    true
}

/// Whether `needle` occurs in `hay`.
pub fn contains_text(hay: &str, needle: &str) -> (r: bool)
    ensures
        r == occurs(hay@, needle@),
{
    let h = chars_of(hay);
    let n = chars_of(needle);
    if n.len() > h.len() {
        return false;
    }
    let last = h.len() - n.len();
    let mut i: usize = 0;
    while i <= last
        invariant
            h@ == hay@,
            n@ == needle@,
            last == h@.len() - n@.len(),
            n@.len() <= h@.len() <= usize::MAX,
            i <= last + 1,
            forall|k: int| 0 <= k < i ==> #[trigger] h@.subrange(k, k + n@.len()) != n@,
        decreases last + 1 - i,
    {
        let mut j: usize = 0;
        let mut same = true;
        assert(h@.subrange(i as int, i as int) =~= n@.take(0));
        while j < n.len()
            invariant
                h@ == hay@,
                n@ == needle@,
                i <= last,
                last == h@.len() - n@.len(),
                j <= n@.len(),
                n@.len() <= h@.len() <= usize::MAX,
                same == (h@.subrange(i as int, i + j) == n@.take(j as int)),
            decreases n@.len() - j,
        {
            if h[i + j] != n[j] {
                same = false;
                assert(h@.subrange(i as int, i + j + 1)[j as int] != n@.take(j as int + 1)[j as int]);
            } else if same {
                assert(h@.subrange(i as int, i + j + 1) =~= n@.take(j as int + 1));
            }
            if !same {
                assert(h@.subrange(i as int, i + j) != n@.take(j as int) ==> h@.subrange(
                    i as int,
                    i + j + 1,
                ) != n@.take(j as int + 1)) by {
                    if h@.subrange(i as int, i + j + 1) == n@.take(j as int + 1) {
                        assert(h@.subrange(i as int, i + j) =~= h@.subrange(i as int, i + j + 1).take(j as int));
                        assert(n@.take(j as int) =~= n@.take(j as int + 1).take(j as int));
                    }
                }
            }
            j = j + 1;
        }
        assert(n@.take(n@.len() as int) =~= n@);
        if same {
            assert(h@.subrange(i as int, i + n@.len()) == n@);
            return true;
        }
        if i == last {
            assert forall|k: int| 0 <= k <= h@.len() - n@.len() implies #[trigger] h@.subrange(k, k + n@.len()) != n@ by {
                assert(k < i || k == i);
            }
            return false;
        }
        i = i + 1;
    }
    false
}

/// An item of a catalog: it has an id and a text that searches look in.
pub trait CatalogItem: Sized {
    spec fn item_id(&self) -> Seq<char>;

    spec fn search_key(&self) -> Seq<char>;

    fn id_text(&self) -> (s: &str)
        ensures
            s@ == self.item_id(),
    ;

    fn key_text(&self) -> (s: &str)
        ensures
            s@ == self.search_key(),
    ;

    /// The two items hold the same content.
    spec fn same_as(&self, other: &Self) -> bool;

    fn duplicate(&self) -> (r: Self)
        ensures
            r.same_as(self),
            r.item_id() == self.item_id(),
            r.search_key() == self.search_key(),
    ;
}

/// The items of `a` and `b`, position by position, hold the same content.
pub open spec fn same_items<T: CatalogItem>(a: Seq<T>, b: Seq<T>) -> bool {
    &&& a.len() == b.len()
    &&& forall|i: int| 0 <= i < a.len() ==> #[trigger] a[i].same_as(&b[i])
}

/// A copy of an optional text.
pub fn copy_opt(o: &Option<String>) -> (r: Option<String>)
    ensures
        r == *o,
{
    match o {
        Some(s) => Some(s.clone()),
        None => None,
    }
}

/// A copy of a list of texts.
pub fn copy_strings(v: &Vec<String>) -> (r: Vec<String>)
    ensures
        r@ == v@,
{
    let mut out: Vec<String> = Vec::new();
    let mut i: usize = 0;
    while i < v.len()
        invariant
            i <= v@.len(),
            out@ == v@.take(i as int),
        decreases v@.len() - i,
    {
        out.push(v[i].clone());
        assert(out@ =~= v@.take(i as int + 1));
        i = i + 1;
    }
    assert(v@.take(v@.len() as int) =~= v@);
    out
}

impl CatalogItem for Track {
    open spec fn item_id(&self) -> Seq<char> {
        self.id@
    }

    open spec fn search_key(&self) -> Seq<char> {
        self.title@
    }

    fn id_text(&self) -> (s: &str) {
        self.id.as_str()
    }

    fn key_text(&self) -> (s: &str) {
        self.title.as_str()
    }

    open spec fn same_as(&self, other: &Self) -> bool {
        *self == *other
    }

    fn duplicate(&self) -> (r: Self) {
        Track {
            id: self.id.clone(),
            title: self.title.clone(),
            artist: self.artist.clone(),
            artist_id: self.artist_id.clone(),
            album: self.album.clone(),
            album_id: self.album_id.clone(),
            duration_ns: self.duration_ns,
            track_number: self.track_number,
            disc_number: self.disc_number,
            genre: self.genre.clone(),
            year: self.year,
            cover_url: copy_opt(&self.cover_url),
            stream_url: copy_opt(&self.stream_url),
            file_path: copy_opt(&self.file_path),
            provider: self.provider.clone(),
            is_local: self.is_local,
        }
    }
}

impl CatalogItem for Album {
    open spec fn item_id(&self) -> Seq<char> {
        self.id@
    }

    open spec fn search_key(&self) -> Seq<char> {
        self.title@
    }

    fn id_text(&self) -> (s: &str) {
        self.id.as_str()
    }

    fn key_text(&self) -> (s: &str) {
        self.title.as_str()
    }

    open spec fn same_as(&self, other: &Self) -> bool {
        &&& self.id == other.id
        &&& self.title == other.title
        &&& self.artist == other.artist
        &&& self.artist_id == other.artist_id
        &&& self.tracks@ == other.tracks@
        &&& self.cover_url == other.cover_url
        &&& self.year == other.year
        &&& self.track_count == other.track_count
        &&& self.duration_ns == other.duration_ns
        &&& self.provider == other.provider
    }

    fn duplicate(&self) -> (r: Self) {
        let tracks = copy_strings(&self.tracks);
        Album {
            id: self.id.clone(),
            title: self.title.clone(),
            artist: self.artist.clone(),
            artist_id: self.artist_id.clone(),
            tracks,
            cover_url: copy_opt(&self.cover_url),
            year: self.year,
            track_count: self.track_count,
            duration_ns: self.duration_ns,
            provider: self.provider.clone(),
        }
    }
}

impl CatalogItem for Artist {
    open spec fn item_id(&self) -> Seq<char> {
        self.id@
    }

    open spec fn search_key(&self) -> Seq<char> {
        self.name@
    }

    fn id_text(&self) -> (s: &str) {
        self.id.as_str()
    }

    fn key_text(&self) -> (s: &str) {
        self.name.as_str()
    }

    open spec fn same_as(&self, other: &Self) -> bool {
        &&& self.id == other.id
        &&& self.name == other.name
        &&& self.image_url == other.image_url
        &&& self.genres@ == other.genres@
        &&& self.album_count == other.album_count
        &&& self.provider == other.provider
    }

    fn duplicate(&self) -> (r: Self) {
        Artist {
            id: self.id.clone(),
            name: self.name.clone(),
            image_url: copy_opt(&self.image_url),
            genres: copy_strings(&self.genres),
            album_count: self.album_count,
            provider: self.provider.clone(),
        }
    }
}

impl CatalogItem for Playlist {
    open spec fn item_id(&self) -> Seq<char> {
        self.id@
    }

    open spec fn search_key(&self) -> Seq<char> {
        self.name@
    }

    fn id_text(&self) -> (s: &str) {
        self.id.as_str()
    }

    fn key_text(&self) -> (s: &str) {
        self.name.as_str()
    }

    open spec fn same_as(&self, other: &Self) -> bool {
        &&& self.id == other.id
        &&& self.name == other.name
        &&& self.description == other.description
        &&& self.tracks@ == other.tracks@
        &&& self.cover_url == other.cover_url
        &&& self.owner == other.owner
        &&& self.provider == other.provider
        &&& self.is_user_created == other.is_user_created
        &&& self.created_at == other.created_at
        &&& self.updated_at == other.updated_at
    }

    fn duplicate(&self) -> (r: Self) {
        Playlist {
            id: self.id.clone(),
            name: self.name.clone(),
            description: self.description.clone(),
            tracks: copy_strings(&self.tracks),
            cover_url: copy_opt(&self.cover_url),
            owner: self.owner.clone(),
            provider: self.provider.clone(),
            is_user_created: self.is_user_created,
            created_at: self.created_at,
            updated_at: self.updated_at,
        }
    }
}

/// Whether an item's search text, lowercased, holds `q`.
pub open spec fn key_matches<T: CatalogItem>(item: T, q: Seq<char>) -> bool {
    occurs(lowercase(item.search_key()), q)
}

/// The items whose search text holds `q`, in their order.
pub open spec fn matching<T: CatalogItem>(items: Seq<T>, q: Seq<char>) -> Seq<T>
    decreases items.len(),
{
    if items.len() == 0 {
        Seq::<T>::empty()
    } else {
        let m = matching(items.drop_last(), q);
        if key_matches(items.last(), q) {
            m.push(items.last())
        } else {
            m
        }
    }
}

/// `hay` is some text, then `needle`, then some text.
pub open spec fn holds_run(hay: Seq<char>, needle: Seq<char>) -> bool {
    exists|pre: Seq<char>, post: Seq<char>| hay == pre + needle + post
}

/// A run occurs in a text exactly when the text is something, the run, and
/// something more.
pub proof fn lemma_occurs_is_holding(hay: Seq<char>, needle: Seq<char>)
    ensures
        occurs(hay, needle) <==> holds_run(hay, needle),
{
    if occurs(hay, needle) {
        let i = choose|i: int| 0 <= i <= hay.len() - needle.len() && #[trigger] hay.subrange(i, i + needle.len()) == needle;
        let pre = hay.subrange(0, i);
        let post = hay.subrange(i + needle.len(), hay.len() as int);
        assert(hay =~= pre + needle + post);
    }
    if holds_run(hay, needle) {
        let (pre, post) = choose|pre: Seq<char>, post: Seq<char>| hay == pre + needle + post;
        let i = pre.len() as int;
        assert(hay.subrange(i, i + needle.len()) =~= needle);
    }
}

/// A search with a non-empty query keeps, in their order, exactly the items
/// whose search text, lowercased, holds the lowercased query somewhere in
/// it.
pub proof fn lemma_search_keeps_what_holds_query<T: CatalogItem>(items: Seq<T>, query: Seq<char>)
    requires
        query.len() > 0,
    ensures
        searched(items, query) == items.filter(|x: T| holds_run(lowercase(x.search_key()), lowercase(query))),
{
    lemma_matching_is_filter(items, lowercase(query));
}

proof fn lemma_matching_is_filter<T: CatalogItem>(items: Seq<T>, q: Seq<char>)
    ensures
        matching(items, q) == items.filter(|x: T| holds_run(lowercase(x.search_key()), q)),
    decreases items.len(),
{
    reveal(Seq::filter);
    if items.len() > 0 {
        lemma_matching_is_filter(items.drop_last(), q);
        lemma_occurs_is_holding(lowercase(items.last().search_key()), q);
    }
}

/// What a search for `query` keeps: everything for an empty query, else the
/// items whose search text holds the query, both taken in lowercase.
pub open spec fn searched<T: CatalogItem>(items: Seq<T>, query: Seq<char>) -> Seq<T> {
    if query.len() == 0 {
        items
    } else {
        matching(items, lowercase(query))
    }
}

/// The page of `items` that starts at `offset` and holds at most `limit`.
pub open spec fn page_of<T>(items: Seq<T>, limit: nat, offset: nat) -> Seq<T> {
    let start = if offset < items.len() {
        offset
    } else {
        items.len()
    };
    let end = if start + limit < items.len() {
        start + limit
    } else {
        items.len()
    };
    items.subrange(start as int, end as int)
}

/// A page that starts at or past the end of the results is empty.
pub proof fn lemma_page_past_end<T>(items: Seq<T>, limit: nat, offset: nat)
    requires
        offset >= items.len(),
    ensures
        page_of(items, limit, offset).len() == 0,
{
}

/// A page holds at most `limit` items, each the result at its place.
pub proof fn lemma_page_within<T>(items: Seq<T>, limit: nat, offset: nat)
    requires
        offset <= items.len(),
    ensures
        page_of(items, limit, offset).len() <= limit,
        forall|k: int| 0 <= k < page_of(items, limit, offset).len() ==> #[trigger] page_of(items, limit, offset)[k]
            == items[offset + k],
{
}

/// Content-equal sequences stay content-equal in their pages.
pub proof fn lemma_same_items_page<T: CatalogItem>(a: Seq<T>, b: Seq<T>, limit: nat, offset: nat)
    requires
        same_items(a, b),
    ensures
        same_items(page_of(a, limit, offset), page_of(b, limit, offset)),
{
    let pa = page_of(a, limit, offset);
    let pb = page_of(b, limit, offset);
    let start = if offset < a.len() {
        offset
    } else {
        a.len()
    };
    assert forall|i: int| 0 <= i < pa.len() implies #[trigger] pa[i].same_as(&pb[i]) by {
        assert(pa[i] == a[start + i]);
        assert(pb[i] == b[start + i]);
    }
}

/// Keeps the items whose search text holds `query`, ignoring case; an empty
/// query keeps all items.
pub fn search_filter<T: CatalogItem>(items: &Vec<T>, query: &str) -> (r: Vec<T>)
    ensures
        same_items(r@, searched(items@, query@)),
{
    let mut out: Vec<T> = Vec::new();
    let n = items.len();
    if query.is_empty() {
        let mut i: usize = 0;
        while i < n
            invariant
                n == items@.len(),
                i <= n,
                same_items(out@, items@.take(i as int)),
            decreases n - i,
        {
            out.push(items[i].duplicate());
            assert(out@.len() == i + 1);
            assert forall|k: int| 0 <= k < i + 1 implies #[trigger] out@[k].same_as(
                &items@.take(i as int + 1)[k],
            ) by {
                if k < i {
                    assert(items@.take(i as int + 1)[k] == items@.take(i as int)[k]);
                }
            }
            i = i + 1;
        }
        assert(items@.take(n as int) =~= items@);
        return out;
    }
    let q = to_lower(query);
    let mut i: usize = 0;
    while i < n
        invariant
            n == items@.len(),
            i <= n,
            q@ == lowercase(query@),
            same_items(out@, matching(items@.take(i as int), q@)),
        decreases n - i,
    {
        let key = to_lower(items[i].key_text());
        let ghost before = out@;
        assert(items@.take(i as int + 1).drop_last() =~= items@.take(i as int));
        if contains_text(key.as_str(), q.as_str()) {
            out.push(items[i].duplicate());
            assert forall|k: int| 0 <= k < out@.len() implies #[trigger] out@[k].same_as(
                &matching(items@.take(i as int + 1), q@)[k],
            ) by {
                if k < before.len() {
                    assert(out@[k] == before[k]);
                }
            }
        }
        i = i + 1;
    }
    assert(items@.take(n as int) =~= items@);
    out
}

/// The page of `items` that starts at `offset` and holds at most `limit`.
pub fn page<T>(items: Vec<T>, limit: u32, offset: u32) -> (r: Vec<T>)
    ensures
        r@ == page_of(items@, limit as nat, offset as nat),
{
    let mut items = items;
    let start = offset as usize;
    if start >= items.len() {
        return Vec::new();
    }
    let mut rest = items.split_off(start);
    let count = limit as usize;
    if count < rest.len() {
        rest.truncate(count);
    }
    rest
}

/// The position of the first item with id `id`.
pub open spec fn position_of_id<T: CatalogItem>(items: Seq<T>, id: Seq<char>) -> Option<int>
    decreases items.len(),
{
    if items.len() == 0 {
        None
    } else if items[0].item_id() == id {
        Some(0)
    } else {
        match position_of_id(items.drop_first(), id) {
            Some(k) => Some(k + 1),
            None => None,
        }
    }
}

proof fn lemma_position_of_id<T: CatalogItem>(items: Seq<T>, id: Seq<char>)
    ensures
        match position_of_id(items, id) {
            Some(k) => 0 <= k < items.len() && items[k].item_id() == id,
            None => forall|k: int| 0 <= k < items.len() ==> #[trigger] items[k].item_id() != id,
        },
    decreases items.len(),
{
    if items.len() > 0 {
        lemma_position_of_id(items.drop_first(), id);
        if items[0].item_id() != id {
            assert forall|k: int| 0 < k < items.len() implies #[trigger] items[k] == items.drop_first()[k - 1] by {}
        }
    }
}

/// A copy of the first item whose id is `id`.
pub fn find_by_id<T: CatalogItem>(items: &Vec<T>, id: &str) -> (r: Option<T>)
    ensures
        match position_of_id(items@, id@) {
            Some(k) => r is Some && r->0.same_as(&items@[k]) && r->0.item_id() == id@,
            None => r is None,
        },
{
    proof {
        lemma_position_of_id(items@, id@);
    }
    let n = items.len();
    let mut i: usize = 0;
    assert(items@.skip(0) =~= items@);
    while i < n
        invariant
            n == items@.len(),
            i <= n,
            match position_of_id(items@, id@) {
                Some(k) => k >= i && position_of_id(items@.skip(i as int), id@) == Some(k - i),
                None => position_of_id(items@.skip(i as int), id@) is None,
            },
        decreases n - i,
    {
        assert(items@.skip(i as int).drop_first() =~= items@.skip(i as int + 1));
        assert(items@.skip(i as int)[0] == items@[i as int]);
        if same_text(items[i].id_text(), id) {
            return Some(items[i].duplicate());
        }
        proof {
            let rest = items@.skip(i as int);
            assert(rest[0].item_id() != id@);
            assert(position_of_id(rest, id@) == match position_of_id(rest.drop_first(), id@) {
                Some(k) => Some(k + 1),
                None => None::<int>,
            });
            assert(rest.drop_first() == items@.skip(i as int + 1));
            match position_of_id(items@, id@) {
                Some(k) => {
                    assert(position_of_id(rest, id@) == Some(k - i));
                    assert(position_of_id(items@.skip(i as int + 1), id@) == Some(k - i - 1));
                    lemma_position_of_id(items@.skip(i as int + 1), id@);
                    assert(k >= i + 1);
                },
                None => {},
            }
        }
        i = i + 1;
    }
    None
}

/// Copies of the first `count` items (all of them when there are fewer).
pub fn take_first<T: CatalogItem>(items: &Vec<T>, count: usize) -> (r: Vec<T>)
    ensures
        same_items(r@, items@.take(if count < items@.len() { count as int } else { items@.len() as int })),
{
    let n = if count < items.len() {
        count
    } else {
        items.len()
    };
    let mut out: Vec<T> = Vec::new();
    let mut i: usize = 0;
    while i < n
        invariant
            n <= items@.len(),
            i <= n,
            same_items(out@, items@.take(i as int)),
        decreases n - i,
    {
        out.push(items[i].duplicate());
        assert forall|k: int| 0 <= k < i + 1 implies #[trigger] out@[k].same_as(
            &items@.take(i as int + 1)[k],
        ) by {
            if k < i {
                assert(items@.take(i as int + 1)[k] == items@.take(i as int)[k]);
            }
        }
        i = i + 1;
    }
    out
}

/// Copies of the last `count` items, last first.
pub fn take_last_reversed<T: CatalogItem>(items: &Vec<T>, count: usize) -> (r: Vec<T>)
    ensures
        same_items(
            r@,
            items@.reverse().take(if count < items@.len() { count as int } else { items@.len() as int }),
        ),
{
    let len = items.len();
    let n = if count < len {
        count
    } else {
        len
    };
    let mut out: Vec<T> = Vec::new();
    let mut i: usize = 0;
    while i < n
        invariant
            len == items@.len(),
            n <= len,
            i <= n,
            same_items(out@, items@.reverse().take(i as int)),
        decreases n - i,
    {
        out.push(items[len - 1 - i].duplicate());
        assert forall|k: int| 0 <= k < i + 1 implies #[trigger] out@[k].same_as(
            &items@.reverse().take(i as int + 1)[k],
        ) by {
            if k < i {
                assert(items@.reverse().take(i as int + 1)[k] == items@.reverse().take(i as int)[k]);
            } else {
                assert(items@.reverse()[k] == items@[len - 1 - k]);
            }
        }
        i = i + 1;
    }
    out
}

/// "<kind> '<id>' not found".
pub open spec fn not_found_text(kind: Seq<char>, id: Seq<char>) -> Seq<char> {
    kind + " '"@ + id + "' not found"@
}

/// "<kind> '<id>' not found".
pub fn not_found_message(kind: &str, id: &str) -> (s: String)
    ensures
        s@ == not_found_text(kind@, id@),
{
    let mut s = String::from_str(kind);
    s.append(" '");
    s.append(id);
    s.append("' not found");
    s
}

/// The error for an id that no item has.
pub fn not_found_error(kind: &str, id: &str) -> (e: SymphonyError)
    ensures
        e matches SymphonyError::NotFound(m) && m@ == not_found_text(kind@, id@),
{
    SymphonyError::not_found(not_found_message(kind, id))
}

/// How many leading characters `a` and `b` share from position `i` on.
pub open spec fn common_len(a: Seq<char>, b: Seq<char>, i: int) -> int
    decreases a.len() - i,
{
    if 0 <= i < a.len() && i < b.len() && a[i] == b[i] {
        common_len(a, b, i + 1)
    } else {
        i
    }
}

/// The order of texts: by the first character that differs, by code point,
/// and a text before any longer text that begins with it.
pub open spec fn text_less(a: Seq<char>, b: Seq<char>) -> bool {
    let d = common_len(a, b, 0);
    if d < a.len() && d < b.len() {
        (a[d] as int) < (b[d] as int)
    } else {
        a.len() < b.len()
    }
}

/// `a` and `b` agree on their first `n` characters.
pub open spec fn agree_below(a: Seq<char>, b: Seq<char>, n: int) -> bool {
    forall|j: int| 0 <= j < n ==> a[j] == b[j]
}

proof fn lemma_common_len(a: Seq<char>, b: Seq<char>, i: int)
    requires
        0 <= i <= a.len(),
        i <= b.len(),
    ensures
        i <= common_len(a, b, i) <= a.len(),
        common_len(a, b, i) <= b.len(),
        forall|j: int| i <= j < common_len(a, b, i) ==> a[j] == b[j],
        ({
            let d = common_len(a, b, i);
            d == a.len() || d == b.len() || a[d] != b[d]
        }),
    decreases a.len() - i,
{
    if i < a.len() && i < b.len() && a[i] == b[i] {
        lemma_common_len(a, b, i + 1);
    }
}

/// The first place where two texts part is the only place where they agree
/// before and part at.
proof fn lemma_common_len_unique(a: Seq<char>, b: Seq<char>, m: int)
    requires
        0 <= m <= a.len(),
        m <= b.len(),
        agree_below(a, b, m),
        m == a.len() || m == b.len() || a[m] != b[m],
    ensures
        common_len(a, b, 0) == m,
{
    lemma_common_len(a, b, 0);
    let d = common_len(a, b, 0);
    if d < m {
        assert(a[d] == b[d]);
    } else if d > m {
        assert(a[m] == b[m]);
    }
}

/// Two different texts are ordered one way or the other.
pub proof fn lemma_text_less_total(a: Seq<char>, b: Seq<char>)
    requires
        a != b,
    ensures
        text_less(a, b) || text_less(b, a),
{
    lemma_common_len(a, b, 0);
    lemma_common_len(b, a, 0);
    let d = common_len(a, b, 0);
    assert(agree_below(b, a, d));
    if d < a.len() && d < b.len() {
        lemma_common_len_unique(b, a, d);
    } else if a.len() == b.len() {
        assert(a =~= b);
    } else {
        lemma_common_len_unique(b, a, d);
    }
}

/// No text comes before itself.
pub proof fn lemma_text_less_irreflexive(a: Seq<char>)
    ensures
        !text_less(a, a),
{
    lemma_common_len_unique(a, a, a.len() as int);
}

/// The order of texts is transitive.
pub proof fn lemma_text_less_transitive(a: Seq<char>, b: Seq<char>, c: Seq<char>)
    requires
        text_less(a, b),
        text_less(b, c),
    ensures
        text_less(a, c),
{
    lemma_common_len(a, b, 0);
    lemma_common_len(b, c, 0);
    let x = common_len(a, b, 0);
    let y = common_len(b, c, 0);
    if x < y {
        assert(agree_below(a, c, x));
        if x < a.len() {
            assert(b[x] == c[x]);
            lemma_common_len_unique(a, c, x);
        } else {
            lemma_common_len_unique(a, c, x);
        }
    } else if y < x {
        assert(agree_below(a, c, y));
        assert(a[y] == b[y]);
        lemma_common_len_unique(a, c, y);
    } else {
        assert(agree_below(a, c, x));
        if x < a.len() && x < b.len() {
            lemma_common_len_unique(a, c, x);
        } else {
            lemma_common_len_unique(a, c, x);
        }
    }
}

/// Whether `a` comes before `b` in the order of texts.
pub fn text_before(a: &str, b: &str) -> (r: bool)
    ensures
        r == text_less(a@, b@),
{
    let x = chars_of(a);
    let y = chars_of(b);
    let mut i: usize = 0;
    while i < x.len() && i < y.len() && x[i] == y[i]
        invariant
            x@ == a@,
            y@ == b@,
            i <= x@.len(),
            i <= y@.len(),
            common_len(a@, b@, 0) == common_len(a@, b@, i as int),
        decreases x@.len() - i,
    {
        i = i + 1;
    }
    assert(common_len(a@, b@, i as int) == i);
    if i < x.len() && i < y.len() {
        x[i] < y[i]
    } else {
        x.len() < y.len()
    }
}

/// The texts of `v` stand in strictly increasing order.
pub open spec fn strictly_sorted(v: Seq<Seq<char>>) -> bool {
    forall|i: int, j: int| 0 <= i < j < v.len() ==> text_less(#[trigger] v[i], #[trigger] v[j])
}

/// The distinct texts of `items`, in increasing order.
pub fn sorted_distinct(items: &Vec<String>) -> (r: Vec<String>)
    ensures
        strictly_sorted(string_views(r@)),
        forall|x: Seq<char>| string_views(r@).contains(x) <==> string_views(items@).contains(x),
{
    let mut out: Vec<String> = Vec::new();
    let n = items.len();
    let mut i: usize = 0;
    while i < n
        invariant
            n == items@.len(),
            i <= n,
            strictly_sorted(string_views(out@)),
            forall|x: Seq<char>| string_views(out@).contains(x) <==> string_views(items@.take(i as int)).contains(x),
        decreases n - i,
    {
        let s = &items[i];
        let m = out.len();
        let mut p: usize = 0;
        while p < m && text_before(out[p].as_str(), s.as_str())
            invariant
                m == out@.len(),
                p <= m,
                forall|j: int| 0 <= j < p ==> text_less(#[trigger] out@[j]@, s@),
            decreases m - p,
        {
            p = p + 1;
        }
        let ghost before = out@;
        let ghost vb = string_views(before);
        assert(string_views(items@.take(i as int + 1)) =~= string_views(items@.take(i as int)).push(s@));
        if p < m && same_text(out[p].as_str(), s.as_str()) {
            assert(vb[p as int] == s@);
            let ghost vt = string_views(items@.take(i as int));
            let ghost vt1 = string_views(items@.take(i as int + 1));
            assert forall|x: Seq<char>| string_views(out@).contains(x) <==> vt1.contains(x) by {
                if x == s@ {
                    assert(vb[p as int] == x);
                    assert(vt1[i as int] == x);
                }
                if vt.contains(x) {
                    let k = choose|k: int| 0 <= k < vt.len() && vt[k] == x;
                    assert(vt1[k] == x);
                }
                if vt1.contains(x) {
                    let k = choose|k: int| 0 <= k < vt1.len() && vt1[k] == x;
                    if k < i {
                        assert(vt[k] == x);
                    }
                }
            }
        } else {
            out.insert(p, s.clone());
            let ghost va = string_views(out@);
            proof {
                if p < m {
                    assert(!text_less(vb[p as int], s@));
                    assert(vb[p as int] != s@);
                    lemma_text_less_total(vb[p as int], s@);
                }
                assert forall|x: int, y: int| 0 <= x < y < va.len() implies text_less(#[trigger] va[x], #[trigger] va[y]) by {
                    if y < p {
                        assert(va[x] == vb[x] && va[y] == vb[y]);
                    } else if y == p {
                        assert(va[x] == vb[x]);
                        assert(text_less(before[x]@, s@));
                    } else if x < p {
                        assert(va[x] == vb[x] && va[y] == vb[y - 1]);
                        assert(text_less(vb[x], vb[y - 1]));
                    } else if x == p {
                        assert(va[y] == vb[y - 1]);
                        if y - 1 > p {
                            assert(text_less(vb[p as int], vb[y - 1]));
                            lemma_text_less_transitive(s@, vb[p as int], vb[y - 1]);
                        }
                    } else {
                        assert(va[x] == vb[x - 1] && va[y] == vb[y - 1]);
                    }
                }
                let vt = string_views(items@.take(i as int));
                let vt1 = string_views(items@.take(i as int + 1));
                assert forall|x: Seq<char>| va.contains(x) <==> vt1.contains(x) by {
                    if vt.contains(x) {
                        let k = choose|k: int| 0 <= k < vt.len() && vt[k] == x;
                        assert(vt1[k] == x);
                    }
                    if vt1.contains(x) {
                        let k = choose|k: int| 0 <= k < vt1.len() && vt1[k] == x;
                        if k < i {
                            assert(vt[k] == x);
                        }
                    }
                    if x == s@ {
                        assert(vt1[i as int] == x);
                    }
                    if va.contains(x) {
                        let k = choose|k: int| 0 <= k < va.len() && va[k] == x;
                        if k < p {
                            assert(vb[k] == x);
                        } else if k > p {
                            assert(vb[k - 1] == x);
                        }
                    }
                    if vb.contains(x) {
                        let k = choose|k: int| 0 <= k < vb.len() && vb[k] == x;
                        if k < p {
                            assert(va[k] == x);
                        } else {
                            assert(va[k + 1] == x);
                        }
                    }
                    if x == s@ {
                        assert(va[p as int] == x);
                    }
                }
            }
        }
        i = i + 1;
    }
    assert(items@.take(n as int) =~= items@);
    out
}

} // verus!
