use symphony::errors::SymphonyError;
use symphony::config::LocalProviderConfig;
use symphony::plugin::{PluginCategory, PluginManager, TickCounterPlugin};
use symphony::provider::local::{read_metadata, LocalProvider, ScannedFile};
use symphony::provider::mock::ALBUM_COUNT;
use symphony::provider::registry::ProviderRegistry;
use symphony::provider::youtube::{
    entry_to_track, search_argument, search_count, search_failure, SearchEntry, Thumbnail,
    YouTubeProvider,
};
use symphony::provider::MockProvider;
use symphony::config::YouTubeMusicConfig;

#[test]
fn catalog_ids_and_content_are_stable() {
    let first = MockProvider::new();
    let second = MockProvider::new();

    let first_tracks = first.search_tracks("", 100, 0).unwrap();
    let second_tracks = second.search_tracks("", 100, 0).unwrap();

    assert_eq!(first.id(), "mock");
    assert_eq!(first_tracks, second_tracks);
    assert_eq!(first_tracks.len(), ALBUM_COUNT * 6);
}

#[test]
fn pagination_past_the_end_returns_an_empty_page() {
    let provider = MockProvider::new();

    let page = provider.search_tracks("", 10, 10_000).unwrap();

    assert!(page.is_empty());
}

#[test]
fn converts_search_metadata_to_track() {
    let track = entry_to_track(SearchEntry {
        id: "abc123".to_string(),
        title: "Example Song".to_string(),
        uploader: Some("Example Artist".to_string()),
        channel: None,
        channel_id: Some("artist123".to_string()),
        duration_ns: Some(183_000_000_000),
        thumbnails: vec![Thumbnail {
            url: "https://example.test/cover.jpg".to_string(),
            width: Some(720),
        }],
    });

    assert_eq!(track.id, "youtube:abc123");
    assert_eq!(track.artist, "Example Artist");
    assert_eq!(track.duration_ns, 183_000_000_000);
    assert_eq!(track.provider, "youtube");
}

fn entry(id: &str, title: &str) -> SearchEntry {
    SearchEntry {
        id: id.to_string(),
        title: title.to_string(),
        uploader: None,
        channel: None,
        channel_id: None,
        duration_ns: None,
        thumbnails: Vec::new(),
    }
}

#[test]
fn youtube_track_falls_back_to_channel_and_widest_thumbnail() {
    let mut e = entry("v1", "Song");
    e.channel = Some("Chan".to_string());
    e.thumbnails = vec![
        Thumbnail { url: "a".to_string(), width: Some(100) },
        Thumbnail { url: "b".to_string(), width: Some(300) },
        Thumbnail { url: "c".to_string(), width: Some(300) },
        Thumbnail { url: "d".to_string(), width: None },
    ];
    let t = entry_to_track(e);
    assert_eq!(t.artist, "Chan");
    assert_eq!(t.artist_id, "youtube:artist:Chan");
    assert_eq!(t.cover_url, Some("c".to_string()));
    assert_eq!(t.stream_url, Some("https://www.youtube.com/watch?v=v1".to_string()));
    assert_eq!(t.album, "YouTube");
    assert_eq!(t.duration_ns, 0);

    let plain = entry_to_track(entry("v2", "Other"));
    assert_eq!(plain.artist, "YouTube");
    assert_eq!(plain.artist_id, "youtube:artist:YouTube");
    assert_eq!(plain.cover_url, None);
}

#[test]
fn youtube_search_asks_for_the_page_end_within_bounds() {
    assert_eq!(search_count(10, 0), 10);
    assert_eq!(search_count(0, 0), 1);
    assert_eq!(search_count(15, 10), 20);
    assert_eq!(search_count(u32::MAX, 5), 20);
    assert_eq!(search_argument("  lofi beats ", 7), Some("ytsearch7:lofi beats".to_string()));
    assert_eq!(search_argument("   ", 7), None);
    assert_eq!(
        search_argument("\u{3000}\t jazz  trio\u{a0}\u{2028}", 3),
        Some("ytsearch3:jazz  trio".to_string())
    );
    assert_eq!(search_argument("\u{200b}x", 3), Some("ytsearch3:\u{200b}x".to_string()));
}

#[test]
fn youtube_failure_message_uses_error_output() {
    match search_failure("  boom \n") {
        SymphonyError::Provider { provider, message } => {
            assert_eq!(provider, "youtube");
            assert_eq!(message, "boom");
        }
        other => panic!("unexpected {:?}", other),
    }
    match search_failure("   ") {
        SymphonyError::Provider { message, .. } => assert_eq!(message, "YouTube search failed"),
        other => panic!("unexpected {:?}", other),
    }
}

#[test]
fn youtube_answers_are_filtered_remembered_and_paged() {
    let mut yt = YouTubeProvider::new(YouTubeMusicConfig::default(), "yt-dlp".to_string());
    assert!(!yt.is_authenticated());
    let tracks = yt.take_answer(vec![entry("a", "A"), entry("", "No id"), entry("b", ""), entry("c", "C")]);
    let ids: Vec<String> = tracks.iter().map(|t| t.id.clone()).collect();
    assert_eq!(ids, vec!["youtube:a".to_string(), "youtube:c".to_string()]);
    assert_eq!(yt.track(&"youtube:c".to_string()).unwrap().title, "C");
    match yt.track(&"youtube:zzz".to_string()) {
        Err(SymphonyError::NotFound(m)) => assert_eq!(m, "Track 'youtube:zzz' not found"),
        other => panic!("unexpected {:?}", other),
    }
    let page = YouTubeProvider::search_page(tracks, 1, 1);
    assert_eq!(page.len(), 1);
    assert_eq!(page[0].id, "youtube:c");
    let results = YouTubeProvider::search_results("q", page);
    assert_eq!(results.total_results, 1);
    assert_eq!(results.query, "q");
}

#[test]
fn youtube_stream_url_needs_its_prefix() {
    let yt = YouTubeProvider::new(YouTubeMusicConfig::default(), "yt-dlp".to_string());
    let mut t = entry_to_track(entry("xyz", "T"));
    t.duration_ns = 61_900_000_000;
    assert_eq!(yt.resolve_stream_url(&t).unwrap(), "youtube://xyz?duration=61");
    t.id = "local:1".to_string();
    match yt.resolve_stream_url(&t) {
        Err(SymphonyError::Provider { message, .. }) => assert_eq!(message, "Invalid track id 'local:1'"),
        other => panic!("unexpected {:?}", other),
    }
    match yt.album(&"x".to_string()) {
        Err(SymphonyError::Unsupported(m)) => assert_eq!(m, "YouTube album lookup is not implemented for 'x'"),
        other => panic!("unexpected {:?}", other),
    }
}

fn local_config() -> LocalProviderConfig {
    LocalProviderConfig {
        music_directories: vec!["/music".to_string()],
        file_extensions: vec!["mp3".to_string(), "flac".to_string(), "txt".to_string()],
        scan_recursive: true,
        follow_symlinks: false,
        watch_for_changes: false,
    }
}

fn tags(t: &str, a: &str, al: &str) -> Option<(String, String, String)> {
    Some((t.to_string(), a.to_string(), al.to_string()))
}

#[test]
fn reading_metadata_falls_back_and_refuses_other_files() {
    let (t, a, al, secs) = read_metadata("/m/song one.MP3", &None).unwrap();
    assert_eq!((t.as_str(), a.as_str(), al.as_str(), secs), ("song one", "Unknown Artist", "Unknown Album", 0));
    let (t, a, al, _) = read_metadata("/m/x.flac", &tags("Title", "", "Alb")).unwrap();
    assert_eq!((t.as_str(), a.as_str(), al.as_str()), ("Title", "Unknown Artist", "Alb"));
    match read_metadata("/m/notes.TXT", &None) {
        Err(SymphonyError::Unsupported(m)) => assert_eq!(m, "Unsupported file extension: txt"),
        other => panic!("unexpected {:?}", other),
    }
}

#[test]
fn scanning_groups_tracks_into_artists_and_albums() {
    let mut p = LocalProvider::new(&local_config());
    assert_eq!(p.scan_patterns(), vec!["/music/**/*".to_string()]);
    assert!(p.accepts_file("/music/a.MP3"));
    assert!(!p.accepts_file("/music/a.wav"));
    let files = vec![
        ScannedFile { path: "/music/1.mp3".to_string(), tags: tags("Beta", "Ann", "First") },
        ScannedFile { path: "/music/2.mp3".to_string(), tags: tags("Alpha", "Ann", "First") },
        ScannedFile { path: "/music/3.flac".to_string(), tags: tags("Gamma", "Bob", "Second") },
        ScannedFile { path: "/music/4.wav".to_string(), tags: tags("Skip", "Bob", "Second") },
        ScannedFile { path: "/music/5.txt".to_string(), tags: None },
        ScannedFile { path: "/music/6.mp3".to_string(), tags: tags("Delta", "Ann", "Third") },
        ScannedFile { path: "/music/1.mp3".to_string(), tags: tags("Beta2", "Ann", "First") },
    ];
    p.load_scanned(&files);

    let all = p.search_tracks("", 50, 0).unwrap();
    let titles: Vec<&str> = all.iter().map(|t| t.title.as_str()).collect();
    assert_eq!(titles, vec!["Beta2", "Alpha", "Gamma", "Delta"]);
    assert_eq!(all[0].id, "local:/music/1.mp3");
    assert_eq!(all[0].stream_url, Some("file:///music/1.mp3".to_string()));
    assert_eq!(all[0].album_id, "local:album:Ann/First");

    let ann = p.artist(&"local:artist:Ann".to_string()).unwrap();
    assert_eq!(ann.name, "Ann");
    assert_eq!(ann.album_count, 3);
    let bob = p.artist(&"local:artist:Bob".to_string()).unwrap();
    assert_eq!(bob.album_count, 2);

    let first = p.album(&"local:album:Ann/First".to_string()).unwrap();
    assert_eq!(first.tracks, vec!["local:/music/1.mp3".to_string(), "local:/music/2.mp3".to_string()]);
    assert_eq!(first.track_count, 2);

    let top = p.artist_top_tracks(&"local:artist:Ann".to_string()).unwrap();
    let top_titles: Vec<&str> = top.iter().map(|t| t.title.as_str()).collect();
    assert_eq!(top_titles, vec!["Alpha", "Beta2", "Delta"]);

    let albums = p.artist_albums(&"local:artist:Bob".to_string()).unwrap();
    assert_eq!(albums.len(), 1);
    assert_eq!(albums[0].title, "Second");

    let results = p.search("", 2, 0).unwrap();
    assert_eq!(results.tracks.len(), 2);
    assert_eq!(results.total_results, 2 + 2 + 2);
    assert!(p.browse_categories().unwrap().is_empty());
    assert_eq!(p.browse_new_releases(2).unwrap().len(), 2);
    match p.playlist(&"any".to_string()) {
        Err(SymphonyError::NotFound(m)) => assert_eq!(m, "Playlist 'any' not found"),
        other => panic!("unexpected {:?}", other),
    }
}

#[test]
fn fuzzy_search_keeps_matches_best_first() {
    let mut p = LocalProvider::new(&local_config());
    let files = vec![
        ScannedFile { path: "/music/1.mp3".to_string(), tags: tags("Moonlight Sonata", "A", "X") },
        ScannedFile { path: "/music/2.mp3".to_string(), tags: tags("Sunrise", "A", "X") },
        ScannedFile { path: "/music/3.mp3".to_string(), tags: tags("moon", "A", "X") },
    ];
    p.load_scanned(&files);
    let found = p.search_tracks("MOON", 10, 0).unwrap();
    let titles: Vec<&str> = found.iter().map(|t| t.title.as_str()).collect();
    assert_eq!(titles.len(), 2);
    assert!(titles.contains(&"moon"));
    assert!(titles.contains(&"Moonlight Sonata"));
    assert!(p.search_tracks("zzz", 10, 0).unwrap().is_empty());
}

#[test]
fn local_stream_url_needs_one() {
    let p = LocalProvider::new(&local_config());
    let mut t = entry_to_track(entry("q", "Q"));
    t.stream_url = None;
    t.id = "local:x".to_string();
    match p.resolve_stream_url(&t) {
        Err(SymphonyError::NotFound(m)) => assert_eq!(m, "No stream URL for track 'local:x'"),
        other => panic!("unexpected {:?}", other),
    }
}

#[test]
fn registry_registers_switches_and_forgets() {
    let mut r: ProviderRegistry<u32> = ProviderRegistry::new();
    assert!(!r.has_active());
    r.register("mock".to_string(), 1);
    r.register("local".to_string(), 2);
    assert_eq!(*r.active(), 2);
    assert_eq!(r.active_id(), "local");
    assert!(r.set_active(&"mock".to_string()).is_ok());
    assert_eq!(*r.active(), 1);
    match r.set_active(&"nope".to_string()) {
        Err(SymphonyError::NotFound(m)) => assert_eq!(m, "Provider 'nope' not found"),
        other => panic!("unexpected {:?}", other),
    }
    r.register("mock".to_string(), 5);
    assert_eq!(r.len(), 2);
    assert_eq!(r.get(&"mock".to_string()), Some(&5));
    if let Some(p) = r.get_mut(&"mock".to_string()) {
        *p = 6;
    }
    assert!(r.get_mut(&"none".to_string()).is_none());
    assert_eq!(r.get(&"mock".to_string()), Some(&6));
    *r.active_mut() = 7;
    assert_eq!(*r.active(), 7);
    assert_eq!(r.get(&"mock".to_string()), Some(&7));
    *r.active_mut() = 5;
    assert_eq!(r.unregister(&"mock".to_string()), Some(5));
    assert_eq!(r.active_id(), "local");
    assert!(!r.has_provider(&"mock".to_string()));
    assert_eq!(r.list_ids(), vec!["local".to_string()]);
    assert_eq!(r.unregister(&"local".to_string()), Some(2));
    assert!(!r.has_active());
}

#[test]
fn plugins_load_once_and_list_by_category() {
    let mut m: PluginManager<&str> = PluginManager::new();
    assert!(m.register("a".to_string(), PluginCategory::Extension, "A").is_ok());
    assert!(m.register("b".to_string(), PluginCategory::Other, "B").is_ok());
    match m.register("a".to_string(), PluginCategory::Other, "A2") {
        Err(SymphonyError::Plugin(msg)) => assert_eq!(msg, "Plugin already registered: a"),
        other => panic!("unexpected {:?}", other),
    }
    assert_eq!(m.loaded_count(), 2);
    assert_eq!(m.list(), vec![&"A", &"B"]);
    assert_eq!(m.list_by_category(PluginCategory::Other), vec![&"B"]);
    *m.plugin_at_mut(0) = "A3";
    assert_eq!(m.get("a"), Some(&"A3"));
    if let Some(p) = m.get_mut("b") {
        *p = "B2";
    }
    assert!(m.get_mut("c").is_none());
    assert_eq!(m.list(), vec![&"A3", &"B2"]);
    assert_eq!(m.unregister("a"), Some("A3"));
    assert_eq!(m.get("a"), None);
    assert_eq!(m.loaded_count(), 1);
}

#[test]
fn tick_counter_reports_every_thousand() {
    let mut t = TickCounterPlugin::new();
    let mut reports = 0;
    for _ in 0..2500 {
        if t.count_tick() {
            reports += 1;
        }
    }
    assert_eq!(t.ticks(), 2500);
    assert_eq!(reports, 2);
    t.reset();
    assert_eq!(t.ticks(), 0);
}
