use bgc::catalog::{scan, ListedEntry};
use bgc::config::{initialize, parse_config, record_selection, render_config, ConfigError, Field};
use bgc::session::{
    check_wallpaper_dir, exit_code, menu_labels, replay_target, resolve_config_path, resolve_selection, Outcome,
    SessionError,
};

fn file(name: &str) -> ListedEntry {
    ListedEntry { name: name.to_string(), is_file: true }
}

fn applied(r: Result<Outcome, SessionError>) -> String {
    match r {
        Ok(Outcome::Applied(p)) => p,
        other => panic!("unexpected: {:?}", other),
    }
}

#[test]
fn exact_match_does_not_cross_match() {
    let cat = scan("/w", &vec![file("wall2.png"), file("wall.png")]);
    assert_eq!(applied(resolve_selection(&cat, "wall.png")), "/w/wall.png");
    assert_eq!(applied(resolve_selection(&cat, "wall2.png")), "/w/wall2.png");
    let cat = scan("/w", &vec![file("wall.png"), file("wall2.png")]);
    assert_eq!(applied(resolve_selection(&cat, "wall.png")), "/w/wall.png");
    assert_eq!(applied(resolve_selection(&cat, "wall2.png")), "/w/wall2.png");
}

#[test]
fn fixed_entries_and_unknown_labels() {
    let cat = scan("/w", &vec![file("a.png")]);
    assert!(matches!(resolve_selection(&cat, "Quit"), Ok(Outcome::Quit)));
    assert!(matches!(resolve_selection(&cat, "Online wallpaper"), Ok(Outcome::Unavailable)));
    match resolve_selection(&cat, "a.pn") {
        Err(SessionError::SelectionNotFound(l)) => assert_eq!(l, "a.pn"),
        other => panic!("unexpected: {:?}", other),
    }
}

#[test]
fn menu_lists_catalog_then_fixed_entries() {
    let cat = scan("/w", &vec![file("b.png"), file("a.bmp")]);
    assert_eq!(menu_labels(&cat), vec!["b.png", "a.bmp", "Online wallpaper", "Quit"]);
}

#[test]
fn end_to_end_first_run() {
    let config_path = resolve_config_path(Some("/home/u/.config".to_string())).unwrap();
    assert_eq!(config_path, "/home/u/.config/bgc/config.conf");
    let rec = initialize("/tmp/walls", true).unwrap();
    let loaded = parse_config(&render_config(&rec)).unwrap();
    assert!(check_wallpaper_dir(&loaded, true).is_ok());
    let cat = scan(&loaded.wallpaper_path, &vec![file("x.png")]);
    assert_eq!(menu_labels(&cat), vec!["x.png", "Online wallpaper", "Quit"]);
    let outcome = resolve_selection(&cat, "x.png");
    let path = match &outcome {
        Ok(Outcome::Applied(p)) => p.clone(),
        other => panic!("unexpected: {:?}", other),
    };
    assert_eq!(path, "/tmp/walls/x.png");
    let text = render_config(&record_selection(&loaded, &path));
    assert_eq!(text, "wallpaper_path = /tmp/walls\nprev_wallpaper = /tmp/walls/x.png\n");
    assert_eq!(exit_code(&outcome), 0);
}

#[test]
fn replay_reads_history_only() {
    let text = "wallpaper_path = /tmp/walls\nprev_wallpaper = /tmp/walls/x.png\n";
    let rec = parse_config(text).unwrap();
    assert_eq!(replay_target(&rec).unwrap(), "/tmp/walls/x.png");
}

#[test]
fn replay_without_history_fails() {
    let rec = parse_config("wallpaper_path = /tmp/walls\n").unwrap();
    assert!(matches!(
        replay_target(&rec),
        Err(SessionError::Config(ConfigError::MissingField(Field::PrevWallpaper)))
    ));
}

#[test]
fn config_path_needs_config_directory() {
    assert!(matches!(resolve_config_path(None), Err(SessionError::Environment)));
    assert_eq!(resolve_config_path(Some("/c/".to_string())).unwrap(), "/c/bgc/config.conf");
}

#[test]
fn moved_wallpaper_directory_is_reported() {
    let rec = parse_config("wallpaper_path = /gone\n").unwrap();
    match check_wallpaper_dir(&rec, false) {
        Err(SessionError::ConfigPathInvalid(p)) => assert_eq!(p, "/gone"),
        other => panic!("unexpected: {:?}", other),
    }
}

#[test]
fn exit_codes_follow_outcome() {
    assert_eq!(exit_code(&Ok(Outcome::Applied("/a.png".to_string()))), 0);
    assert_eq!(exit_code(&Ok(Outcome::Unavailable)), 0);
    assert_eq!(exit_code(&Ok(Outcome::Quit)), 1);
    assert_eq!(exit_code(&Err(SessionError::BackendUnavailable("swww".to_string()))), 1);
    assert_eq!(exit_code(&Err(SessionError::DirectoryUnreadable("/w".to_string()))), 1);
}
