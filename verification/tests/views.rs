use symphony::config::{GeneralConfig, UIConfig};
use symphony::state::AppState;
use symphony::types::{Album, Artist, Library, PlaybackStatus, Playlist, Screen, SearchResults, Track};
use symphony::ui::components::{PlayerBar, Rect, Sidebar};
use symphony::ui::layout::AppLayout;
use symphony::ui::views;

fn track(id: &str, artist: &str, title: &str, secs: u64) -> Track {
    Track {
        id: id.to_string(),
        title: title.to_string(),
        artist: artist.to_string(),
        artist_id: format!("a:{artist}"),
        album: "Alb".to_string(),
        album_id: "alb".to_string(),
        duration_ns: secs * 1_000_000_000,
        track_number: 1,
        disc_number: 1,
        genre: String::new(),
        year: 0,
        cover_url: None,
        stream_url: None,
        file_path: None,
        provider: "mock".to_string(),
        is_local: false,
    }
}

fn album(artist: &str, title: &str, n: u32) -> Album {
    Album {
        id: format!("{artist}/{title}"),
        title: title.to_string(),
        artist: artist.to_string(),
        artist_id: format!("a:{artist}"),
        tracks: Vec::new(),
        cover_url: None,
        year: 0,
        track_count: n,
        duration_ns: 0,
        provider: "mock".to_string(),
    }
}

#[test]
fn lists_sort_by_artist_then_title() {
    let tracks = vec![
        track("1", "Bea", "Zed", 61),
        track("2", "Ann", "Yes", 5),
        track("3", "Bea", "Alpha", 600),
    ];
    assert_eq!(
        views::list_rows(&tracks),
        vec![
            " Ann \u{2014} Yes  [0:05]".to_string(),
            " Bea \u{2014} Alpha  [10:00]".to_string(),
            " Bea \u{2014} Zed  [1:01]".to_string(),
        ]
    );
    let albums = vec![album("Zoe", "B", 2), album("Al", "C", 10)];
    assert_eq!(
        views::list_rows(&albums),
        vec![" Al \u{2014} C  (10 tracks)".to_string(), " Zoe \u{2014} B  (2 tracks)".to_string()]
    );
    let artists = vec![Artist {
        id: "x".to_string(),
        name: "Solo".to_string(),
        image_url: None,
        genres: Vec::new(),
        album_count: 3,
        provider: "mock".to_string(),
    }];
    assert_eq!(views::list_rows(&artists), vec![" Solo  (3 albums)".to_string()]);
    let playlists = vec![Playlist {
        id: "p".to_string(),
        name: "Mix".to_string(),
        description: String::new(),
        tracks: vec!["1".to_string(), "2".to_string()],
        cover_url: None,
        owner: String::new(),
        provider: "mock".to_string(),
        is_user_created: true,
        created_at: 0,
        updated_at: 0,
    }];
    assert_eq!(views::list_rows(&playlists), vec![" Mix  (2 tracks)".to_string()]);
}

#[test]
fn library_lines_count_and_total() {
    let mut lib = Library::default();
    lib.tracks = vec![track("1", "A", "T", 3600), track("2", "B", "U", 125)];
    assert_eq!(views::library_stats_line(&lib), " Tracks: 2   Albums: 0   Artists: 0   Playlists: 0");
    assert_eq!(
        views::library_summary_line(&lib),
        " Tracks: 2  |  Albums: 0  |  Artists: 0  |  Playlists: 0  |  Total: 1h 2m"
    );
}

#[test]
fn library_total_adds_parts_of_seconds() {
    let mut lib = Library::default();
    let mut a = track("1", "A", "T", 0);
    a.duration_ns = 3_599_500_000_000;
    let mut b = track("2", "B", "U", 0);
    b.duration_ns = 500_000_000;
    lib.tracks = vec![a.clone(), b];
    assert_eq!(lib.duration_total(), 3_600_000_000_000);
    assert_eq!(
        views::library_summary_line(&lib),
        " Tracks: 2  |  Albums: 0  |  Artists: 0  |  Playlists: 0  |  Total: 1h 0m"
    );
    assert_eq!(a.duration_formatted(), "59:59");
}

#[test]
fn playing_track_is_described() {
    let mut s = AppState::new();
    assert_eq!(views::now_playing_line(&s), " No track currently playing");
    assert_eq!(views::player_track_info(&s), " No track ");
    s.library.tracks.push(track("t1", "Ann", "Song", 90));
    s.playback.current_track_id = Some("t1".to_string());
    assert_eq!(views::now_playing_line(&s), " Now Playing: Ann \u{2014} Song  (1:30)");
    assert_eq!(views::player_track_info(&s), " Ann \u{2014} Song ");
    s.playback.position_ms = 61_500;
    s.playback.duration_ms = 240_000;
    assert_eq!(views::player_time_label(&s.playback), " 1:01 / 4:00 ");
}

#[test]
fn queue_rows_mark_the_playing_track() {
    let mut s = AppState::new();
    s.library.tracks.push(track("t1", "Ann", "Song", 90));
    s.queue = vec!["t1".to_string(), "zz".to_string()];
    s.queue_index = Some(1);
    s.selected_index = 0;
    let rows = views::queue_rows(&s);
    assert_eq!(rows[0], ("   Ann \u{2014} Song".to_string(), false, true));
    assert_eq!(rows[1], ("\u{25b6} zz".to_string(), true, false));
    assert_eq!(views::queue_title(2), " Queue (2 items) ");
}

#[test]
fn search_screen_texts() {
    let mut s = AppState::new();
    assert!(views::search_notice(&s).unwrap().starts_with(" Type a search"));
    s.search_query = "abc".to_string();
    assert_eq!(views::search_notice(&s), Some(" No results found"));
    s.search_results = SearchResults {
        tracks: vec![track("1", "A", "T", 1), track("2", "B", "U", 1)],
        albums: vec![album("A", "L", 1)],
        artists: Vec::new(),
        playlists: Vec::new(),
        query: "abc".to_string(),
        total_results: 3,
    };
    assert_eq!(views::search_notice(&s), None);
    s.selected_index = 1;
    let rows = views::search_track_rows(&s);
    assert_eq!(rows[0], (" \u{266b} A \u{2014} T".to_string(), false));
    assert_eq!(rows[1].1, true);
    s.search_focused = true;
    assert!(!views::search_track_rows(&s)[1].1);
    assert_eq!(views::search_album_rows(&s.search_results.albums), vec![" \u{f0025} A \u{2014} L".to_string()]);
    assert_eq!(views::search_cursor_x(0, 80, "abc"), 4);
    assert_eq!(views::search_cursor_x(0, 5, "abcdef"), 3);
    assert_eq!(views::section_height(2, 10), 5);
    assert_eq!(views::section_height(20, 5), 8);
}

#[test]
fn sidebar_rows_mark_the_current_screen() {
    let sidebar = Sidebar::new();
    let mut s = AppState::new();
    s.navigate_to(Screen::Library);
    let rows = views::sidebar_rows(&sidebar, &s);
    assert_eq!(rows.len(), 9);
    assert!(rows[2].1);
    assert!(rows[2].0.starts_with("\u{25b8} "));
    assert!(rows[2].0.ends_with(" Library"));
    assert!(rows[0].0.starts_with("  "));
    assert!(rows[0].2);
    s.sidebar_focused = false;
    assert!(!views::sidebar_rows(&sidebar, &s)[0].2);
}

#[test]
fn settings_lines_read_the_settings() {
    let ui = UIConfig::default();
    assert_eq!(
        views::interface_line(&ui),
        " Sidebar Width: 22    Show Clock: true    Show Cover Art: true    Mouse Support: true"
    );
    let general = GeneralConfig::default();
    assert_eq!(views::general_line(&general), " Default Provider: youtube    Log Level: info");
}

#[test]
fn layout_places_sidebar_main_and_player_bar() {
    let layout = AppLayout { sidebar_visible: true };
    let r = layout.render_area(Rect { x: 0, y: 0, width: 100, height: 30 }, 22);
    assert_eq!(r.player_bar, Rect { x: 0, y: 27, width: 100, height: 3 });
    assert_eq!(r.sidebar, Rect { x: 0, y: 0, width: 22, height: 27 });
    assert_eq!(r.main, Rect { x: 22, y: 0, width: 78, height: 27 });
    let hidden = AppLayout { sidebar_visible: false }.render_area(Rect { x: 0, y: 0, width: 100, height: 30 }, 22);
    assert_eq!(hidden.main, Rect { x: 0, y: 0, width: 100, height: 27 });
    assert_eq!(hidden.sidebar, Rect { x: 0, y: 0, width: 0, height: 0 });
}

#[test]
fn clicks_are_tested_before_reading() {
    let bar = Rect { x: 0, y: 27, width: 100, height: 3 };
    assert!(PlayerBar::click_fits(50, 28, bar, PlaybackStatus::Playing));
    let narrow = Rect { x: 0, y: 27, width: 5, height: 3 };
    assert!(!PlayerBar::click_fits(3, 28, narrow, PlaybackStatus::Stopped));
    let side = Rect { x: 0, y: 0, width: 22, height: 27 };
    assert!(Sidebar::click_fits(3, 4, side));
    let edge = Rect { x: 65535, y: 0, width: 1, height: 2 };
    assert!(!Sidebar::click_fits(65535, 0, edge));
    assert_eq!(views::section_height(2, 1000), 5);
    assert_eq!(views::section_height(40, 10), 13);
}
