//! The settings of the player and their defaults. Directories are held as
//! texts; the playback settings, which hold fractions, and loading and saving
//! live with the program around the library.

use vstd::prelude::*;

verus! {

/// `dirs::data_dir`: the user's data directory, read from the environment and
/// the platform's conventions. Which directory it is depends on the machine;
/// what dirs documents of every outcome is that it is a path from its table
/// (an absolute `$XDG_DATA_HOME`, or a folder under a non-empty home), so a
/// found directory is not empty.
#[verifier::external_body]
fn user_data_dir() -> (r: Option<String>)
    ensures
        r matches Some(d) ==> d@.len() > 0,
{
    dirs::data_dir().map(|p| p.to_string_lossy().to_string())
}

/// `dirs::config_dir`: the user's configuration directory. Which directory
/// it is depends on the machine; a found directory is a path from dirs'
/// table, so it is not empty.
#[verifier::external_body]
fn user_config_dir() -> (r: Option<String>)
    ensures
        r matches Some(d) ==> d@.len() > 0,
{
    dirs::config_dir().map(|p| p.to_string_lossy().to_string())
}

/// `dirs::cache_dir`: the user's cache directory. Which directory it is
/// depends on the machine; a found directory is a path from dirs' table, so
/// it is not empty.
#[verifier::external_body]
fn user_cache_dir() -> (r: Option<String>)
    ensures
        r matches Some(d) ==> d@.len() > 0,
{
    dirs::cache_dir().map(|p| p.to_string_lossy().to_string())
}

/// `dirs::audio_dir`: the user's music directory; it depends on the machine,
/// so nothing is stated of it.
#[verifier::external_body]
fn user_audio_dir() -> Option<String> {
    dirs::audio_dir().map(|p| p.to_string_lossy().to_string())
}

/// `dirs::home_dir`: the user's home directory; it depends on the machine,
/// so nothing is stated of it.
#[verifier::external_body]
fn user_home_dir() -> Option<String> {
    dirs::home_dir().map(|p| p.to_string_lossy().to_string())
}

/// `base` and a relative `rel` joined with one separator.
pub open spec fn joined(base: Seq<char>, rel: Seq<char>) -> Seq<char> {
    base + "/"@ + rel
}

/// `p` is `base` with the relative path `rel` adjoined: it begins with
/// `base`, ends with a separator and `rel`, and at most one separator was
/// put between them.
pub open spec fn adjoined(p: Seq<char>, base: Seq<char>, rel: Seq<char>) -> bool {
    &&& base.len() + rel.len() <= p.len() <= base.len() + 1 + rel.len()
    &&& rel.len() + 1 <= p.len()
    &&& p.subrange(0, base.len() as int) == base
    &&& p.subrange(p.len() - rel.len() - 1, p.len() as int) == "/"@ + rel
}

/// `p` ends with a separator and the folder or file `name`.
pub open spec fn ends_in(p: Seq<char>, name: Seq<char>) -> bool {
    &&& name.len() + 1 <= p.len()
    &&& p.subrange(p.len() - name.len() - 1, p.len() as int) == "/"@ + name
}

/// `PathBuf::join`. Its documentation says that a relative path is adjoined
/// to the base, with a separator put in where the base lacks one. That is
/// stated for a non-empty base and a non-empty relative path: exactly for a
/// base without a trailing separator, and as `adjoined` for any non-empty
/// base. What an empty base gives, and that an absolute `rel` replaces the
/// base, are left unsaid.
#[verifier::external_body]
pub(crate) fn join_path(base: &str, rel: &str) -> (r: String)
    ensures
        base@.len() > 0 && rel@.len() > 0 && rel@[0] != '/' ==> adjoined(r@, base@, rel@),
        base@.len() > 0 && base@.last() != '/' && rel@.len() > 0 && rel@[0] != '/' ==> r@ == joined(
            base@,
            rel@,
        ),
{
    std::path::Path::new(base).join(rel).to_string_lossy().to_string()
}

/// A directory of the user with a fallback, and the program's own folder in it.
fn app_dir(found: Option<String>, fallback: &str) -> (r: String)
    ensures
        match found {
            Some(d) => d@.len() > 0 ==> adjoined(r@, d@, "symphony"@),
            None => fallback@.len() > 0 && fallback@.last() != '/' ==> r@ == joined(fallback@, "symphony"@),
        },
        (match found {
            Some(d) => d@.len() > 0,
            None => fallback@.len() > 0,
        }) ==> ends_in(r@, "symphony"@),
{
    let base = match found {
        Some(d) => d,
        None => String::from_str(fallback),
    };
    proof {
        reveal_strlit("symphony");
    }
    join_path(base.as_str(), "symphony")
}

/// Where the player keeps its files, and general choices.
#[derive(Debug, Clone)]
pub struct GeneralConfig {
    pub data_dir: String,
    pub config_dir: String,
    pub cache_dir: String,
    pub log_level: String,
    pub check_updates: bool,
    pub default_provider: String,
}

impl Default for GeneralConfig {
    /// The user's data, configuration and cache directories, each with a
    /// `symphony` folder; without such a directory, `.symphony`, `.config` or
    /// `.cache` stands in its place.
    fn default() -> (c: Self)
        ensures
            ends_in(c.data_dir@, "symphony"@),
            ends_in(c.config_dir@, "symphony"@),
            ends_in(c.cache_dir@, "symphony"@),
            c.log_level@ == "info"@,
            c.check_updates,
            c.default_provider@ == "youtube"@,
    {
        proof {
            reveal_strlit(".symphony");
            reveal_strlit(".config");
            reveal_strlit(".cache");
        }
        let data_dir = app_dir(user_data_dir(), ".symphony");
        let config_dir = app_dir(user_config_dir(), ".config");
        let cache_dir = app_dir(user_cache_dir(), ".cache");
        GeneralConfig {
            data_dir,
            config_dir,
            cache_dir,
            log_level: String::from_str("info"),
            check_updates: true,
            default_provider: String::from_str("youtube"),
        }
    }
}

/// How the interface looks.
#[derive(Debug, Clone)]
pub struct UIConfig {
    pub show_clock: bool,
    pub show_cover_art: bool,
    pub cover_art_size: u16,
    pub sidebar_width: u16,
    pub progress_bar_char: String,
    pub progress_bar_fill: String,
    pub show_status_bar: bool,
    pub scroll_offset: usize,
    pub animation_fps: u8,
    pub mouse_support: bool,
}

impl Default for UIConfig {
    fn default() -> (c: Self)
        ensures
            c.show_clock && c.show_cover_art && c.show_status_bar && c.mouse_support,
            c.cover_art_size == 8,
            c.sidebar_width == 22,
            c.progress_bar_char@ == "─"@,
            c.progress_bar_fill@ == "━"@,
            c.scroll_offset == 5,
            c.animation_fps == 30,
    {
        UIConfig {
            show_clock: true,
            show_cover_art: true,
            cover_art_size: 8,
            sidebar_width: 22,
            progress_bar_char: String::from_str("─"),
            progress_bar_fill: String::from_str("━"),
            show_status_bar: true,
            scroll_offset: 5,
            animation_fps: 30,
            mouse_support: true,
        }
    }
}

/// How much is cached, and for how long.
#[derive(Debug, Clone)]
pub struct CacheConfig {
    pub max_size_mb: u64,
    pub ttl_hours: u64,
    pub cache_metadata: bool,
    pub cache_cover_art: bool,
    pub cache_stream_urls: bool,
}

impl Default for CacheConfig {
    fn default() -> (c: Self)
        ensures
            c.max_size_mb == 500,
            c.ttl_hours == 24,
            c.cache_metadata && c.cache_cover_art && c.cache_stream_urls,
    {
        CacheConfig {
            max_size_mb: 500,
            ttl_hours: 24,
            cache_metadata: true,
            cache_cover_art: true,
            cache_stream_urls: true,
        }
    }
}

/// The file extensions of audio that the local provider reads.
pub open spec fn audio_extensions() -> Seq<Seq<char>> {
    seq!["mp3"@, "flac"@, "wav"@, "ogg"@, "aac"@, "m4a"@, "opus"@]
}

/// The texts of a list.
pub open spec fn texts(v: Seq<String>) -> Seq<Seq<char>> {
    Seq::new(v.len(), |i: int| v[i]@)
}

/// Where the local provider looks for music.
#[derive(Debug, Clone)]
pub struct LocalProviderConfig {
    pub music_directories: Vec<String>,
    pub file_extensions: Vec<String>,
    pub scan_recursive: bool,
    pub follow_symlinks: bool,
    pub watch_for_changes: bool,
}

fn audio_extension_list() -> (v: Vec<String>)
    ensures
        texts(v@) == audio_extensions(),
{
    let v = vec![
        String::from_str("mp3"),
        String::from_str("flac"),
        String::from_str("wav"),
        String::from_str("ogg"),
        String::from_str("aac"),
        String::from_str("m4a"),
        String::from_str("opus"),
    ];
    assert(texts(v@) =~= audio_extensions());
    v
}

impl Default for LocalProviderConfig {
    /// The user's music directory, else the folder `Music` in the home
    /// directory, else none; the common audio extensions; a recursive scan.
    fn default() -> (c: Self)
        ensures
            c.music_directories@.len() <= 1,
            texts(c.file_extensions@) == audio_extensions(),
            c.scan_recursive,
            !c.follow_symlinks,
            !c.watch_for_changes,
    {
        let music_dir = match user_audio_dir() {
            Some(d) => Some(d),
            None => match user_home_dir() {
                Some(h) => Some(join_path(h.as_str(), "Music")),
                None => None,
            },
        };
        let music_directories = match music_dir {
            Some(d) => vec![d],
            None => Vec::new(),
        };
        LocalProviderConfig {
            music_directories,
            file_extensions: audio_extension_list(),
            scan_recursive: true,
            follow_symlinks: false,
            watch_for_changes: false,
        }
    }
}

/// The credentials of the Spotify provider.
#[derive(Debug, Clone)]
pub struct SpotifyConfig {
    pub client_id: String,
    pub client_secret: String,
    pub redirect_uri: String,
    pub cache_token: bool,
}

impl Default for SpotifyConfig {
    fn default() -> (c: Self)
        ensures
            c.client_id@.len() == 0,
            c.client_secret@.len() == 0,
            c.redirect_uri@ == "http://localhost:8888/callback"@,
            c.cache_token,
    {
        SpotifyConfig {
            client_id: String::new(),
            client_secret: String::new(),
            redirect_uri: String::from_str("http://localhost:8888/callback"),
            cache_token: true,
        }
    }
}

/// The settings of the YouTube provider.
#[derive(Debug, Clone)]
pub struct YouTubeMusicConfig {
    pub cookies_path: Option<String>,
    pub use_oauth: bool,
    pub stream_quality: String,
    pub download_limit_mbps: u32,
}

impl Default for YouTubeMusicConfig {
    fn default() -> (c: Self)
        ensures
            c.cookies_path is None,
            !c.use_oauth,
            c.stream_quality@ == "high"@,
            c.download_limit_mbps == 0,
    {
        YouTubeMusicConfig {
            cookies_path: None,
            use_oauth: false,
            stream_quality: String::from_str("high"),
            download_limit_mbps: 0,
        }
    }
}

/// Which providers run, and their settings.
#[derive(Debug, Clone)]
pub struct ProviderConfig {
    pub enabled_providers: Vec<String>,
    pub local: LocalProviderConfig,
    pub spotify: Option<SpotifyConfig>,
    pub youtube_music: Option<YouTubeMusicConfig>,
}

impl Default for ProviderConfig {
    fn default() -> (c: Self)
        ensures
            texts(c.enabled_providers@) == seq!["mock"@, "local"@],
            texts(c.local.file_extensions@) == audio_extensions(),
            c.local.scan_recursive,
            c.spotify is None,
            c.youtube_music is None,
    {
        let enabled_providers = vec![String::from_str("mock"), String::from_str("local")];
        assert(texts(enabled_providers@) =~= seq!["mock"@, "local"@]);
        ProviderConfig {
            enabled_providers,
            local: LocalProviderConfig::default(),
            spotify: None,
            youtube_music: None,
        }
    }
}

/// The texts of a list of pairs.
pub open spec fn pair_texts(v: Seq<(String, String)>) -> Seq<(Seq<char>, Seq<char>)> {
    Seq::new(v.len(), |i: int| (v[i].0@, v[i].1@))
}

/// The default key of each command, in a fixed order.
pub open spec fn default_keys() -> Seq<(Seq<char>, Seq<char>)> {
    seq![
        ("play_pause"@, "space"@),
        ("stop"@, "s"@),
        ("next"@, "l"@),
        ("previous"@, "h"@),
        ("volume_up"@, "up"@),
        ("volume_down"@, "down"@),
        ("seek_forward"@, "right"@),
        ("seek_backward"@, "left"@),
        ("search"@, "ctrl+k"@),
        ("command_palette"@, "ctrl+p"@),
        ("help"@, "?"@),
        ("quit"@, "q"@),
        ("enter"@, "enter"@),
        ("escape"@, "esc"@),
        ("delete"@, "delete"@),
        ("toggle_sidebar"@, "ctrl+b"@),
        ("focus_search"@, "/"@),
        ("queue"@, "ctrl+q"@),
        ("save_playlist"@, "ctrl+s"@),
        ("toggle_shuffle"@, "z"@),
        ("toggle_repeat"@, "x"@),
    ]
}

/// The key of each command: pairs of a command and its key, no command twice.
#[derive(Debug, Clone)]
pub struct KeybindingConfig {
    pub keys: Vec<(String, String)>,
}

fn binding(command: &str, key: &str) -> (p: (String, String))
    ensures
        p.0@ == command@,
        p.1@ == key@,
{
    (String::from_str(command), String::from_str(key))
}

impl Default for KeybindingConfig {
    fn default() -> (c: Self)
        ensures
            pair_texts(c.keys@) == default_keys(),
    {
        let keys = vec![
            binding("play_pause", "space"),
            binding("stop", "s"),
            binding("next", "l"),
            binding("previous", "h"),
            binding("volume_up", "up"),
            binding("volume_down", "down"),
            binding("seek_forward", "right"),
            binding("seek_backward", "left"),
            binding("search", "ctrl+k"),
            binding("command_palette", "ctrl+p"),
            binding("help", "?"),
            binding("quit", "q"),
            binding("enter", "enter"),
            binding("escape", "esc"),
            binding("delete", "delete"),
            binding("toggle_sidebar", "ctrl+b"),
            binding("focus_search", "/"),
            binding("queue", "ctrl+q"),
            binding("save_playlist", "ctrl+s"),
            binding("toggle_shuffle", "z"),
            binding("toggle_repeat", "x"),
        ];
        assert(pair_texts(keys@) =~= default_keys());
        KeybindingConfig { keys }
    }
}

/// The theme by name, and single colors that replace its own.
#[derive(Debug, Clone)]
pub struct ThemeConfig {
    pub name: String,
    pub custom_colors: Option<Vec<(String, String)>>,
}

impl Default for ThemeConfig {
    fn default() -> (c: Self)
        ensures
            c.name@ == "default"@,
            c.custom_colors is None,
    {
        ThemeConfig { name: String::from_str("default"), custom_colors: None }
    }
}

} // verus!
