use symphony::cache::CacheManager;
use symphony::config::{
    CacheConfig, GeneralConfig, KeybindingConfig, LocalProviderConfig, ProviderConfig, SpotifyConfig, ThemeConfig, UIConfig,
};
use symphony::errors::SymphonyError;
use symphony::playback::{MockPlaybackEngine, PlaybackQueue};
use symphony::state::commands::{command_for, seek_target, AppEvent, Command};
use symphony::state::AppState;
use symphony::theme::{parse_color, Color, Theme};
use symphony::types::{format_duration, parse_duration, PlaybackStatus, RepeatMode, Screen, ShuffleMode};
use symphony::ui::input::{handle_key, Action, KeyCode, KeyEvent, Modifiers};

#[test]
fn durations_format_and_read_back() {
    assert_eq!(format_duration(0), "0:00");
    assert_eq!(format_duration(75), "1:15");
    assert_eq!(format_duration(3725), "1:02:05");
    assert_eq!(parse_duration("1:15"), Ok(75));
    assert_eq!(parse_duration("1:02:05"), Ok(3725));
    assert!(parse_duration("abc").is_err());
    assert_eq!(parse_duration("+2:05"), Ok(125));
    assert!(parse_duration("18446744073709551616:00").is_err());
    assert!(parse_duration("1:-5").is_err());
    assert_eq!(format_duration(18446744073709551615), "5124095576030431:00:15");
    for secs in [0u64, 59, 60, 3599, 3600, 86399, 123456] {
        assert_eq!(parse_duration(&format_duration(secs)), Ok(secs));
    }
}

fn ids(names: &[&str]) -> Vec<String> {
    names.iter().map(|s| s.to_string()).collect()
}

#[test]
fn queue_walks_forward_and_back() {
    let mut q = PlaybackQueue::new();
    assert_eq!(q.next(), None);
    for id in ids(&["a", "b", "c"]) {
        q.add(id);
    }
    assert_eq!(q.next(), Some("a".to_string()));
    assert_eq!(q.next(), Some("b".to_string()));
    assert_eq!(q.previous(), Some("a".to_string()));
    assert_eq!(q.next(), Some("b".to_string()));
    assert_eq!(q.next(), Some("c".to_string()));
    assert_eq!(q.next(), None);
    assert_eq!(q.current_index, None);
    q.toggle_repeat();
    assert_eq!(q.repeat, RepeatMode::All);
    q.play_index(2);
    assert_eq!(q.next(), Some("a".to_string()));
    q.toggle_repeat();
    assert_eq!(q.repeat, RepeatMode::One);
    assert_eq!(q.next(), Some("a".to_string()));
    q.toggle_repeat();
    assert_eq!(q.repeat, RepeatMode::Off);
}

#[test]
fn queue_keeps_the_current_track_when_rearranged() {
    let mut q = PlaybackQueue::new();
    q.set_queue(ids(&["a", "b", "c", "d"]), 2);
    assert_eq!(q.current(), Some(&"c".to_string()));
    assert!(q.remove(0));
    assert_eq!(q.current(), Some(&"c".to_string()));
    q.move_track(1, 0);
    assert_eq!(q.current(), Some(&"c".to_string()));
    assert_eq!(q.tracks, ids(&["c", "b", "d"]));
    assert!(!q.remove(9));
    assert_eq!(q.queue_from_current(), ids(&["c", "b", "d"]));
}

#[test]
fn shuffled_queue_visits_every_track_once() {
    let mut q = PlaybackQueue::new();
    q.set_queue(ids(&["a", "b", "c", "d", "e"]), 0);
    q.current_index = None;
    q.toggle_shuffle();
    assert_eq!(q.shuffle, ShuffleMode::On);
    let mut seen = Vec::new();
    let order = q.shuffle_indices();
    let mut sorted = order.clone();
    sorted.sort();
    assert_eq!(sorted, vec![0, 1, 2, 3, 4]);
    for _ in 0..5 {
        if let Some(t) = q.next_shuffled_in(&order) {
            seen.push(t);
        }
    }
    seen.sort();
    assert_eq!(seen, ids(&["a", "b", "c", "d", "e"]));
}

#[test]
fn navigation_goes_back_where_it_came_from() {
    let mut s = AppState::new();
    s.navigate_to(Screen::Library);
    s.navigate_to(Screen::Albums);
    s.navigate_to(Screen::Albums);
    assert_eq!(s.screen_history.len(), 2);
    s.navigate_back();
    assert_eq!(s.current_screen, Screen::Library);
    s.navigate_back();
    assert_eq!(s.current_screen, Screen::Home);
    assert!(!s.can_navigate_back());
}

#[test]
fn commands_follow_requests() {
    assert_eq!(command_for(Action::Quit), Command::Quit);
    assert_eq!(command_for(Action::Search), Command::FocusSearch);
    assert_eq!(command_for(Action::ScrollUp(1, 2)), Command::SelectPrevious);
    assert_eq!(command_for(Action::SeekBackward(5)), Command::SeekBackward(5));
    assert_eq!(command_for(Action::MouseClick(3, 4)), Command::Click(3, 4));
    assert_eq!(command_for(Action::SavePlaylist), Command::Nothing);
    assert_eq!(seek_target(10_000, 20_000, true, 5), 15_000);
    assert_eq!(seek_target(18_000, 20_000, true, 5), 20_000);
    assert_eq!(seek_target(3_000, 20_000, false, 5), 0);
    assert_eq!(seek_target(9_000, 20_000, false, 5), 4_000);
}

#[test]
fn state_takes_in_events_and_commands() {
    let mut s = AppState::new();
    s.focus_search();
    assert!(s.search_focused);
    assert_eq!(s.current_screen, Screen::Search);
    s.go_back();
    assert!(!s.search_focused);
    assert_eq!(s.current_screen, Screen::Search);
    s.go_back();
    assert_eq!(s.current_screen, Screen::Home);
    s.apply_event(AppEvent::Error("disk".to_string()));
    assert_eq!(s.notification.as_ref().map(|n| n.0.clone()), Some("Error: disk".to_string()));
    s.apply_event(AppEvent::TrackChanged("t1".to_string()));
    assert_eq!(s.playback.current_track_id, Some("t1".to_string()));
    s.record_repeat(RepeatMode::All);
    assert_eq!(s.notification.as_ref().map(|n| n.0.clone()), Some("Repeat: All".to_string()));
    s.record_shuffle(ShuffleMode::On);
    assert_eq!(s.notification.as_ref().map(|n| n.0.clone()), Some("Shuffle: On".to_string()));
    s.playback_stopped();
    assert_eq!(s.playback.current_track_id, None);
    s.add_to_queue("a".to_string());
    s.add_to_queue("b".to_string());
    s.navigate_to(Screen::Queue);
    assert_eq!(s.list_len(), 2);
    s.select_next_item();
    s.select_next_item();
    assert_eq!(s.selected_index, 1);
    assert!(!s.sidebar_focused);
    s.select_previous_item();
    assert_eq!(s.selected_index, 0);
}

#[test]
fn keys_map_to_requests() {
    let key = |m, c| KeyEvent { modifiers: m, code: c };
    assert_eq!(handle_key(key(Modifiers::Plain, KeyCode::Char(' '))), Action::PlayPause);
    assert_eq!(handle_key(key(Modifiers::Plain, KeyCode::Right)), Action::SeekForward(5));
    assert_eq!(handle_key(key(Modifiers::Control, KeyCode::Char('k'))), Action::FocusSearch);
    assert_eq!(handle_key(key(Modifiers::Control, KeyCode::Char('z'))), Action::NoOp);
}

#[test]
fn colors_read_from_hex_and_names() {
    assert_eq!(parse_color("#ff8000").unwrap(), Color::Rgb(255, 128, 0));
    assert_eq!(parse_color("#0f0").unwrap(), Color::Rgb(0, 255, 0));
    assert_eq!(parse_color("#FF00aA").unwrap(), Color::Rgb(255, 0, 170));
    assert_eq!(parse_color("#+f+f+f").unwrap(), Color::Rgb(15, 15, 15));
    assert_eq!(parse_color("Light_Blue").unwrap(), Color::LightBlue);
    match parse_color("#zzzzzz") {
        Err(SymphonyError::Theme(m)) => assert_eq!(m, "Invalid color hex: #zzzzzz"),
        other => panic!("unexpected {:?}", other),
    }
    match parse_color("mauve") {
        Err(SymphonyError::Theme(m)) => assert_eq!(m, "Unknown color: mauve"),
        other => panic!("unexpected {:?}", other),
    }
}

#[test]
fn themes_are_found_and_customized() {
    let t = Theme::from_name("dracula").unwrap();
    assert_eq!(t.name, "dracula");
    match Theme::from_name("solarized") {
        Err(SymphonyError::Theme(m)) => assert_eq!(m, "Unknown theme: solarized"),
        other => panic!("unexpected {:?}", other),
    }
    let custom = Theme::default()
        .customize(vec![("accent".to_string(), "#010203".to_string())])
        .unwrap();
    assert_eq!(custom.colors.accent, Color::Rgb(1, 2, 3));
    match Theme::default().customize(vec![("nope".to_string(), "red".to_string())]) {
        Err(SymphonyError::Theme(m)) => assert_eq!(m, "Unknown theme color key: nope"),
        other => panic!("unexpected {:?}", other.map(|t| t.name)),
    }
}

#[test]
fn cache_names_files_by_hash_and_extension() {
    let c = CacheManager::new("/tmp/sym".to_string(), 500, 24);
    assert_eq!(c.extension_for_url("http://x/a.PNG"), "png");
    assert_eq!(c.extension_for_url("http://x/a.jpeg"), "jpg");
    assert_eq!(c.extension_for_url("http://x/a"), "jpg");
    let p = c.get_cover_path("http://x/a.webp");
    assert!(p.starts_with("/tmp/sym/covers/"));
    assert!(p.ends_with(".webp"));
    assert_eq!(p.len(), "/tmp/sym/covers/".len() + 16 + ".webp".len());
    assert_eq!(p, c.get_cover_path("http://x/a.webp"));
    let m = c.metadata_path("key");
    assert!(m.starts_with("/tmp/sym/metadata/"));
    assert!(m.ends_with(".json"));
    assert_eq!(c.directories(), vec!["/tmp/sym".to_string(), "/tmp/sym/covers".to_string(), "/tmp/sym/metadata".to_string()]);
    assert!(!c.is_expired_after(86_400, 0));
    assert!(c.is_expired_after(86_400, 1));
    assert!(c.is_expired_after(86_401, 0));
    let slashed = CacheManager::new("/tmp/sym/".to_string(), 500, 24);
    let q = slashed.get_cover_path("http://x/a.webp");
    assert!(q.starts_with("/tmp/sym/"));
    assert!(q.contains("/covers/"));
    assert!(q.ends_with(".webp"));
}

#[test]
fn settings_have_their_defaults() {
    let ui = UIConfig::default();
    assert_eq!(ui.sidebar_width, 22);
    assert_eq!(ui.progress_bar_fill, "━");
    assert_eq!(CacheConfig::default().ttl_hours, 24);
    let local = LocalProviderConfig::default();
    assert_eq!(local.file_extensions.len(), 7);
    assert!(local.scan_recursive);
    assert_eq!(ProviderConfig::default().enabled_providers, ids(&["mock", "local"]));
    assert_eq!(SpotifyConfig::default().redirect_uri, "http://localhost:8888/callback");
    let keys = KeybindingConfig::default();
    assert_eq!(keys.keys.len(), 21);
    assert_eq!(keys.keys[0], ("play_pause".to_string(), "space".to_string()));
    assert_eq!(ThemeConfig::default().name, "default");
    let general = GeneralConfig::default();
    assert!(general.data_dir.ends_with("/symphony"));
    assert!(general.config_dir.ends_with("/symphony"));
    assert!(general.cache_dir.ends_with("/symphony"));
}

#[test]
fn engine_refuses_seeks_past_the_end() {
    let mut e = MockPlaybackEngine::new();
    assert!(e.pause().is_err());
    e.play(&"t".to_string(), "x").unwrap();
    assert_eq!(e.status(), PlaybackStatus::Playing);
    assert!(e.seek(120_000).is_ok());
    assert_eq!(e.position_ms(), 120_000);
    match e.seek(300_000) {
        Err(SymphonyError::Playback(m)) => assert_eq!(m, "Seek position 300s exceeds duration 240s"),
        other => panic!("unexpected {:?}", other),
    }
    assert!(e.advance());
    assert_eq!(e.position_ms(), 120_250);
    e.stop().unwrap();
    assert_eq!(e.current_track_id(), None);
}

#[test]
fn documented_controls_map_to_their_actions() {
    let plain = |c| handle_key(KeyEvent { modifiers: Modifiers::Plain, code: c });
    let ctrl = |c| handle_key(KeyEvent { modifiers: Modifiers::Control, code: c });
    assert_eq!(plain(KeyCode::Char('/')), Action::FocusSearch);
    assert_eq!(plain(KeyCode::Enter), Action::Enter);
    assert_eq!(plain(KeyCode::Esc), Action::Back);
    assert_eq!(plain(KeyCode::Char('j')), Action::SelectNext);
    assert_eq!(plain(KeyCode::Char('k')), Action::SelectPrevious);
    assert_eq!(plain(KeyCode::Char(' ')), Action::PlayPause);
    assert_eq!(plain(KeyCode::Char('h')), Action::Previous);
    assert_eq!(plain(KeyCode::Char('l')), Action::Next);
    assert_eq!(plain(KeyCode::Left), Action::SeekBackward(5));
    assert_eq!(plain(KeyCode::Right), Action::SeekForward(5));
    assert_eq!(plain(KeyCode::Up), Action::VolumeUp);
    assert_eq!(plain(KeyCode::Down), Action::VolumeDown);
    assert_eq!(plain(KeyCode::Char('z')), Action::ToggleShuffle);
    assert_eq!(plain(KeyCode::Char('x')), Action::ToggleRepeat);
    assert_eq!(ctrl(KeyCode::Char('q')), Action::ShowQueue);
    assert_eq!(ctrl(KeyCode::Char('b')), Action::ToggleSidebar);
    assert_eq!(plain(KeyCode::Char('?')), Action::Help);
    assert_eq!(plain(KeyCode::Char('q')), Action::Quit);
    assert_eq!(command_for(plain(KeyCode::Char('q'))), Command::Quit);
}

#[test]
fn youtube_is_the_default_provider() {
    assert_eq!(GeneralConfig::default().default_provider, "youtube");
}

#[test]
fn queue_steps_from_an_index_past_the_end() {
    let mut q = PlaybackQueue::new();
    for id in ids(&["a", "b", "c"]) {
        q.add(id);
    }
    q.current_index = Some(7);
    assert!(q.can_step_forward());
    assert_eq!(q.next(), None);
    assert_eq!(q.current_index, None);
    q.current_index = Some(7);
    q.toggle_repeat();
    assert_eq!(q.next(), Some("c".to_string()));
    q.current_index = Some(3);
    assert!(q.can_step_back());
    assert_eq!(q.previous(), Some("c".to_string()));
    q.current_index = Some(5);
    assert!(!q.can_step_back());
    q.current_index = Some(usize::MAX);
    q.repeat = RepeatMode::Off;
    assert!(!q.can_step_forward());
}

#[test]
fn themes_carry_their_styles() {
    let d = Theme::by_name("dracula").unwrap();
    assert_eq!(d.styles.selected.fg, Some(d.colors.background));
    assert_eq!(d.styles.selected.bg, Some(d.colors.primary));
    assert_eq!(d.styles.highlighted.fg, Some(d.colors.accent));
    let t = Theme::default();
    assert_eq!(t.styles.selected.fg, Some(t.colors.text_bright));
    assert_eq!(t.styles.selected.bg, Some(t.colors.highlight));
    assert_eq!(t.styles.link.fg, Some(t.colors.secondary));
    assert!(t.styles.link.underlined);
}

#[test]
fn checked_customizing_refuses_unreadable_codes() {
    let r = Theme::default().customize_checked(vec![("accent".to_string(), "#12".to_string())]);
    assert!(r.is_none());
    let r = Theme::default().customize_checked(vec![
        ("nope".to_string(), "red".to_string()),
        ("accent".to_string(), "#1".to_string()),
    ]);
    match r {
        Some(Err(SymphonyError::Theme(m))) => assert_eq!(m, "Unknown theme color key: nope"),
        other => panic!("unexpected {:?}", other.map(|x| x.map(|t| t.name))),
    }
    let t = Theme::default()
        .customize_checked(vec![("accent".to_string(), "#abc".to_string())])
        .unwrap()
        .unwrap();
    assert_eq!(t.colors.accent, Color::Rgb(0xaa, 0xbb, 0xcc));
    assert!(symphony::theme::color_readable("#zz"));
    assert!(!symphony::theme::color_readable("#0"));
    assert!(!symphony::theme::color_readable("#é12345"));
    assert!(symphony::theme::color_readable("red"));
}

#[test]
fn events_change_only_what_they_name() {
    let mut s = AppState::new();
    s.selected_index = 3;
    s.search_focused = false;
    s.apply_event(AppEvent::TrackChanged("t9".to_string()));
    assert_eq!(s.playback.current_track_id, Some("t9".to_string()));
    assert_eq!(s.selected_index, 3);
    assert!(!s.search_focused);
    s.apply_event(AppEvent::Tick);
    assert_eq!(s.selected_index, 3);
}

#[test]
fn enter_submits_or_plays_the_selection() {
    let mut s = AppState::new();
    assert!(matches!(s.enter_outcome(), symphony::state::commands::EnterOutcome::Nothing));
    s.focus_search();
    let typed = symphony::state::commands::typed_char(
        KeyEvent { modifiers: Modifiers::Plain, code: KeyCode::Char('q') },
        s.search_focused,
    );
    assert_eq!(typed, Some('q'));
    s.type_char('a');
    s.type_char('b');
    s.delete_char();
    s.type_char('x');
    assert_eq!(s.search_query, "ax");
    match s.enter_outcome() {
        symphony::state::commands::EnterOutcome::Search(q) => assert_eq!(q, "ax"),
        other => panic!("unexpected {:?}", other),
    }
    s.go_back();
    s.add_to_queue("t1".to_string());
    s.navigate_to(Screen::Queue);
    match s.enter_outcome() {
        symphony::state::commands::EnterOutcome::Play(id) => assert_eq!(id, "t1"),
        other => panic!("unexpected {:?}", other),
    }
    assert_eq!(command_for(Action::Delete), Command::DeleteChar);
    assert_eq!(
        symphony::state::commands::typed_char(KeyEvent { modifiers: Modifiers::Plain, code: KeyCode::Char('q') }, false),
        None
    );
}

#[test]
fn playback_start_is_recorded() {
    let mut s = AppState::new();
    let cached = s.playback_started("t1".to_string(), vec!["t1".to_string(), "t2".to_string()], Some(0));
    assert!(!cached);
    assert_eq!(s.playback.status, PlaybackStatus::Playing);
    assert_eq!(s.playback.position_ms, 0);
    assert_eq!(s.queue.len(), 2);
    assert_eq!(s.queue_index, Some(0));
    assert!(s.can_select_next());
    assert!(s.can_select_previous());
}
