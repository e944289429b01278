//! Where the cache keeps cover art and metadata: file names made from a hash
//! of the key, the picture's extension read from its address, and when an
//! entry counts as expired. Reading and writing the files is done by the
//! program around the library.

use vstd::prelude::*;
use vstd::string::*;

use crate::config::{adjoined, join_path, joined};
use crate::provider::catalog::{chars_of, lowercase, to_lower};
use crate::text::push_char;

verus! {

/// What `std::collections::hash_map::DefaultHasher`, made by `new`, gives
/// for a text after hashing it with `Hash::hash`. The algorithm takes pages
/// to state and is fixed for a build, so the result is named.
pub uninterp spec fn default_hash(key: Seq<char>) -> u64;

/// Hashes a text with a new `DefaultHasher`; the result is named by
/// `default_hash`.
#[verifier::external_body]
fn hash_of(key: &str) -> (h: u64)
    ensures
        h == default_hash(key@),
{
    let mut hasher = std::collections::hash_map::DefaultHasher::new();
    std::hash::Hash::hash(key, &mut hasher);
    std::hash::Hasher::finish(&hasher)
}

/// `Path::exists`: whether something is at the path now. It depends on
/// what is on disk, so nothing is stated of it.
#[verifier::external_body]
fn path_exists(path: &str) -> bool {
    std::path::Path::new(path).exists()
}

/// The lowercase hexadecimal digit of `d` (below 16).
pub open spec fn hex_char(d: nat) -> char {
    if d < 10 {
        ((48 + d) as char)
    } else {
        ((87 + d) as char)
    }
}

/// The last `count` hexadecimal digits of `n`, most significant first.
pub open spec fn hex_digits(n: nat, count: nat) -> Seq<char>
    decreases count,
{
    if count == 0 {
        Seq::<char>::empty()
    } else {
        hex_digits(n / 16, (count - 1) as nat).push(hex_char(n % 16))
    }
}

fn hex_digit_char(d: u64) -> (c: char)
    requires
        d < 16,
    ensures
        c == hex_char(d as nat),
{
    if d < 10 {
        ((48 + d) as u8) as char
    } else {
        ((87 + d) as u8) as char
    }
}

fn hex_text(n: u64, count: u32) -> (s: String)
    ensures
        s@ == hex_digits(n as nat, count as nat),
    decreases count,
{
    if count == 0 {
        String::new()
    } else {
        let mut s = hex_text(n / 16, count - 1);
        push_char(&mut s, hex_digit_char(n % 16));
        s
    }
}

/// The name a key gets in the cache: its hash as sixteen lowercase
/// hexadecimal digits.
pub open spec fn key_name(key: Seq<char>) -> Seq<char> {
    hex_digits(default_hash(key) as nat, 16)
}

/// The hash of `key` as sixteen lowercase hexadecimal digits.
pub fn hash_key(key: &str) -> (s: String)
    ensures
        s@ == key_name(key@),
        s@.len() == 16,
{
    proof {
        lemma_hex_digits_len(default_hash(key@) as nat, 16);
    }
    hex_text(hash_of(key), 16)
}

/// Whether `s` ends with `suffix`.
pub open spec fn ends_with(s: Seq<char>, suffix: Seq<char>) -> bool {
    suffix.len() <= s.len() && s.subrange(s.len() - suffix.len(), s.len() as int) == suffix
}

fn text_ends_with(s: &Vec<char>, suffix: &str) -> (b: bool)
    ensures
        b == ends_with(s@, suffix@),
{
    let t = chars_of(suffix);
    if t.len() > s.len() {
        return false;
    }
    let n = s.len();
    let off = n - t.len();
    let mut i: usize = 0;
    while i < t.len()
        invariant
            n == s@.len(),
            t@ == suffix@,
            t@.len() <= s@.len(),
            off == s@.len() - t@.len(),
            i <= t@.len(),
            forall|j: int| 0 <= j < i ==> s@[off + j] == t@[j],
        decreases t@.len() - i,
    {
        if s[off + i] != t[i] {
            assert(s@.subrange(off as int, s@.len() as int)[i as int] != suffix@[i as int]);
            return false;
        }
        i = i + 1;
    }
    assert(s@.subrange(off as int, s@.len() as int) =~= suffix@);
    true
}

/// The extension a cover picture is saved with: the first of webp, png,
/// jpg, jpeg, gif, bmp and svg that the address ends with, in lowercase,
/// jpeg written as jpg; jpg where none fits.
pub open spec fn cover_extension(url: Seq<char>) -> Seq<char> {
    let u = lowercase(url);
    if ends_with(u, "webp"@) {
        "webp"@
    } else if ends_with(u, "png"@) {
        "png"@
    } else if ends_with(u, "jpg"@) {
        "jpg"@
    } else if ends_with(u, "jpeg"@) {
        "jpg"@
    } else if ends_with(u, "gif"@) {
        "gif"@
    } else if ends_with(u, "bmp"@) {
        "bmp"@
    } else if ends_with(u, "svg"@) {
        "svg"@
    } else {
        "jpg"@
    }
}

/// Where the cache keeps its files, how large it may grow, and how long an
/// entry lives.
#[derive(Debug)]
pub struct CacheManager {
    cache_dir: String,
    max_size: u64,
    ttl_secs: u64,
}

impl CacheManager {
    pub closed spec fn spec_dir(&self) -> Seq<char> {
        self.cache_dir@
    }

    pub closed spec fn spec_max_size(&self) -> nat {
        self.max_size as nat
    }

    pub closed spec fn spec_ttl(&self) -> nat {
        self.ttl_secs as nat
    }

    /// A cache in `cache_dir` of at most `max_size_mb` megabytes whose entries
    /// live `ttl_hours` hours. The directories are made by the caller, see
    /// `directories`.
    pub fn new(cache_dir: String, max_size_mb: u64, ttl_hours: u64) -> (c: Self)
        requires
            max_size_mb * 1024 * 1024 <= u64::MAX,
            ttl_hours * 3600 <= u64::MAX,
        ensures
            c.spec_dir() == cache_dir@,
            c.spec_max_size() == max_size_mb * 1024 * 1024,
            c.spec_ttl() == ttl_hours * 3600,
    {
        CacheManager { cache_dir, max_size: max_size_mb * 1024 * 1024, ttl_secs: ttl_hours * 3600 }
    }

    /// The directories the cache needs: its own, and those for covers and
    /// metadata in it.
    pub fn directories(&self) -> (v: Vec<String>)
        ensures
            v@.len() == 3,
            v@[0]@ == self.spec_dir(),
            self.spec_dir().len() > 0 ==> adjoined(v@[1]@, self.spec_dir(), "covers"@) && adjoined(
                v@[2]@,
                self.spec_dir(),
                "metadata"@,
            ),
            self.spec_dir().len() > 0 && self.spec_dir().last() != '/' ==> v@[1]@ == joined(self.spec_dir(), "covers"@)
                && v@[2]@ == joined(self.spec_dir(), "metadata"@),
    {
        proof {
            reveal_strlit("covers");
            reveal_strlit("metadata");
        }
        let covers = join_path(self.cache_dir.as_str(), "covers");
        let metadata = join_path(self.cache_dir.as_str(), "metadata");
        vec![self.cache_dir.clone(), covers, metadata]
    }

    /// The extension a cover from `url` is saved with.
    pub fn extension_for_url(&self, url: &str) -> (e: &'static str)
        ensures
            e@ == cover_extension(url@),
    {
        let lower = to_lower(url);
        let u = chars_of(lower.as_str());
        if text_ends_with(&u, "webp") {
            "webp"
        } else if text_ends_with(&u, "png") {
            "png"
        } else if text_ends_with(&u, "jpg") {
            "jpg"
        } else if text_ends_with(&u, "jpeg") {
            "jpg"
        } else if text_ends_with(&u, "gif") {
            "gif"
        } else if text_ends_with(&u, "bmp") {
            "bmp"
        } else if text_ends_with(&u, "svg") {
            "svg"
        } else {
            "jpg"
        }
    }

    /// The file of the cover from `url`: in the covers folder, named by the
    /// hash of the address with the picture's extension.
    pub fn get_cover_path(&self, url: &str) -> (p: String)
        ensures
            self.spec_dir().len() > 0 ==> exists|d: Seq<char>|
                adjoined(d, self.spec_dir(), "covers"@) && p@ == joined(
                    d,
                    key_name(url@) + "."@ + cover_extension(url@),
                ),
            self.spec_dir().len() > 0 && self.spec_dir().last() != '/' ==> p@ == joined(
                joined(self.spec_dir(), "covers"@),
                key_name(url@) + "."@ + cover_extension(url@),
            ),
    {
        proof {
            reveal_strlit("covers");
        }
        let ext = self.extension_for_url(url);
        let mut filename = hash_key(url);
        filename.append(".");
        filename.append(ext);
        let covers = join_path(self.cache_dir.as_str(), "covers");
        proof {
            lemma_hex_digits_len(default_hash(url@) as nat, 16);
            if self.cache_dir@.len() > 0 {
                let n = covers@.len();
                reveal_strlit("/");
                assert(covers@.last() == covers@.subrange(n - 7, n as int)[6]);
                assert(("/"@ + "covers"@)[6] == 's');
                assert(covers@.last() == 's');
                assert(filename@[0] == key_name(url@)[0]);
                lemma_hex_char_not_slash(default_hash(url@) as nat, 16);
            }
        }
        join_path(covers.as_str(), filename.as_str())
    }

    /// Whether the cover from `url` is on disk now.
    pub fn has_cover(&self, url: &str) -> bool {
        let p = self.get_cover_path(url);
        path_exists(p.as_str())
    }

    /// The file of the cached value under `key`: in the metadata folder,
    /// named by the hash of the key, as JSON.
    pub fn metadata_path(&self, key: &str) -> (p: String)
        ensures
            self.spec_dir().len() > 0 ==> exists|d: Seq<char>|
                adjoined(d, self.spec_dir(), "metadata"@) && p@ == joined(d, key_name(key@) + ".json"@),
            self.spec_dir().len() > 0 && self.spec_dir().last() != '/' ==> p@ == joined(
                joined(self.spec_dir(), "metadata"@),
                key_name(key@) + ".json"@,
            ),
    {
        proof {
            reveal_strlit("metadata");
        }
        let mut filename = hash_key(key);
        filename.append(".json");
        let dir = join_path(self.cache_dir.as_str(), "metadata");
        proof {
            lemma_hex_digits_len(default_hash(key@) as nat, 16);
            if self.cache_dir@.len() > 0 {
                let n = dir@.len();
                reveal_strlit("/");
                assert(dir@.last() == dir@.subrange(n - 9, n as int)[8]);
                assert(("/"@ + "metadata"@)[8] == 'a');
                assert(dir@.last() == 'a');
                assert(filename@[0] == key_name(key@)[0]);
                lemma_hex_char_not_slash(default_hash(key@) as nat, 16);
            }
        }
        join_path(dir.as_str(), filename.as_str())
    }

    /// Whether an entry last written `elapsed_secs` seconds and
    /// `elapsed_nanos` nanoseconds ago has outlived its time.
    pub fn is_expired_after(&self, elapsed_secs: u64, elapsed_nanos: u32) -> (b: bool)
        ensures
            b == (elapsed_secs > self.spec_ttl() || (elapsed_secs == self.spec_ttl() && elapsed_nanos > 0)),
    {
        elapsed_secs > self.ttl_secs || (elapsed_secs == self.ttl_secs && elapsed_nanos > 0)
    }
}

proof fn lemma_hex_digits_len(n: nat, count: nat)
    ensures
        hex_digits(n, count).len() == count,
    decreases count,
{
    if count > 0 {
        lemma_hex_digits_len(n / 16, (count - 1) as nat);
    }
}

/// No hexadecimal digit is a separator.
proof fn lemma_hex_char_not_slash(n: nat, count: nat)
    requires
        count > 0,
    ensures
        hex_digits(n, count)[0] != '/',
    decreases count,
{
    lemma_hex_digits_len(n, count);
    if count == 1 {
        assert(hex_digits(n, count)[0] == hex_char(n % 16));
    } else {
        lemma_hex_digits_len(n / 16, (count - 1) as nat);
        lemma_hex_char_not_slash(n / 16, (count - 1) as nat);
        assert(hex_digits(n, count)[0] == hex_digits(n / 16, (count - 1) as nat)[0]);
    }
}

} // verus!
