use bgc::config::{initialize, parse_config, record_selection, render_config, ConfigError, ConfigRecord, Field};

fn record(dir: &str, prev: Option<&str>) -> ConfigRecord {
    ConfigRecord { wallpaper_path: dir.to_string(), prev_wallpaper: prev.map(|p| p.to_string()) }
}

#[test]
fn initialize_then_load_round_trip() {
    let rec = initialize("/tmp/walls", true).unwrap();
    let text = render_config(&rec);
    assert_eq!(text, "wallpaper_path = /tmp/walls\n");
    let loaded = parse_config(&text).unwrap();
    assert_eq!(loaded.wallpaper_path, "/tmp/walls");
    assert_eq!(loaded.prev_wallpaper, None);
}

#[test]
fn initialize_rejects_missing_directory() {
    match initialize("/no/such/dir", false) {
        Err(ConfigError::InvalidDirectory(d)) => assert_eq!(d, "/no/such/dir"),
        other => panic!("unexpected: {:?}", other),
    }
}

#[test]
fn record_selection_twice_keeps_one_history_line() {
    let rec = record("/w", None);
    let once = record_selection(&rec, "/w/a.png");
    let twice = record_selection(&once, "/w/b.png");
    let text = render_config(&twice);
    assert_eq!(text, "wallpaper_path = /w\nprev_wallpaper = /w/b.png\n");
    let history_lines = text.lines().filter(|l| l.trim().starts_with("prev_wallpaper")).count();
    assert_eq!(history_lines, 1);
    let loaded = parse_config(&text).unwrap();
    assert_eq!(loaded.wallpaper_path, "/w");
    assert_eq!(loaded.prev_wallpaper, Some("/w/b.png".to_string()));
}

#[test]
fn record_selection_appends_history_when_absent() {
    let rec = record("/w", None);
    let text = render_config(&record_selection(&rec, "/w/x.png"));
    assert_eq!(text, "wallpaper_path = /w\nprev_wallpaper = /w/x.png\n");
}

#[test]
fn record_selection_replaces_history_even_when_paths_share_text() {
    let rec = record("/w", Some("/w/a.png"));
    let next = record_selection(&rec, "/w/a.png.bak.png");
    assert_eq!(next.wallpaper_path, "/w");
    assert_eq!(next.prev_wallpaper, Some("/w/a.png.bak.png".to_string()));
}

#[test]
fn parse_requires_wallpaper_path() {
    match parse_config("prev_wallpaper = /w/a.png\n") {
        Err(ConfigError::MissingField(f)) => assert_eq!(f, Field::WallpaperPath),
        other => panic!("unexpected: {:?}", other),
    }
    assert!(matches!(parse_config(""), Err(ConfigError::MissingField(Field::WallpaperPath))));
}

#[test]
fn parse_trims_and_ignores_unknown_keys() {
    let rec = parse_config("  theme = dark\nwallpaper_path=   /a/b  \n\nno equals here\n").unwrap();
    assert_eq!(rec.wallpaper_path, "/a/b");
    assert_eq!(rec.prev_wallpaper, None);
}

#[test]
fn parse_splits_at_first_equals() {
    let rec = parse_config("wallpaper_path = /a=b\nprev_wallpaper = /a=b/c=d.png").unwrap();
    assert_eq!(rec.wallpaper_path, "/a=b");
    assert_eq!(rec.prev_wallpaper, Some("/a=b/c=d.png".to_string()));
}

#[test]
fn parse_keys_are_case_sensitive() {
    assert!(matches!(parse_config("Wallpaper_Path = /a\n"), Err(ConfigError::MissingField(Field::WallpaperPath))));
}

#[test]
fn parse_last_line_wins() {
    let rec = parse_config("wallpaper_path = /old\nwallpaper_path = /new\n").unwrap();
    assert_eq!(rec.wallpaper_path, "/new");
}

#[test]
fn parse_handles_crlf_lines() {
    let rec = parse_config("wallpaper_path = /x\r\nprev_wallpaper = /x/y.png\r\n").unwrap();
    assert_eq!(rec.wallpaper_path, "/x");
    assert_eq!(rec.prev_wallpaper, Some("/x/y.png".to_string()));
}

#[test]
fn parse_trims_unicode_whitespace() {
    let rec = parse_config("wallpaper_path =\u{3000}/a b\u{a0}\t\nprev_wallpaper\u{2003}= /a b/c.png").unwrap();
    assert_eq!(rec.wallpaper_path, "/a b");
    assert_eq!(rec.prev_wallpaper, Some("/a b/c.png".to_string()));
}
