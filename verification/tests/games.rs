use rustris::games::{game_data_from_db, LutrisGame, ParsedGameConfig};

fn game_with(playtime: Option<&str>, lastplayed: Option<&str>) -> LutrisGame {
    LutrisGame {
        id: Some(1),
        slug: "test-game".to_string(),
        name: "Test Game".to_string(),
        runner: Some("wine".to_string()),
        platform: None,
        year: None,
        directory: Some("/games/test".to_string()),
        playtime: playtime.map(|s| s.to_string()),
        lastplayed: lastplayed.map(|s| s.to_string()),
        configpath: Some("test-game-1".to_string()),
        installer_slug: None,
        installed: Some(true),
    }
}

#[test]
fn playtime_clock_only() {
    let game = game_with(Some("04:12:14.367846"), None);
    assert_eq!(game.playtime_seconds(), 4 * 3600 + 12 * 60 + 14);
}

#[test]
fn playtime_with_days() {
    let game = game_with(Some("3 days, 01:02:03.5"), None);
    assert_eq!(game.playtime_seconds(), 3 * 86400 + 3600 + 2 * 60 + 3);
}

#[test]
fn playtime_single_day() {
    let game = game_with(Some("1 day, 00:00:01"), None);
    assert_eq!(game.playtime_seconds(), 86400 + 1);
}

#[test]
fn playtime_missing_is_zero() {
    let game = game_with(None, None);
    assert_eq!(game.playtime_seconds(), 0);
}

#[test]
fn playtime_malformed_is_zero() {
    assert_eq!(game_with(Some("whatever"), None).playtime_seconds(), 0);
    assert_eq!(game_with(Some("1:2"), None).playtime_seconds(), 0);
    // a days-form without the comma-separated clock counts nothing
    assert_eq!(game_with(Some("2 days"), None).playtime_seconds(), 0);
}

#[test]
fn parse_time_variants() {
    assert_eq!(LutrisGame::parse_time_to_seconds("00:00:00"), 0);
    assert_eq!(LutrisGame::parse_time_to_seconds("10:00:00.25"), 36000);
    assert_eq!(LutrisGame::parse_time_to_seconds("00:59:59"), 3599);
    assert_eq!(LutrisGame::parse_time_to_seconds("not a clock"), 0);
    assert_eq!(LutrisGame::parse_time_to_seconds(""), 0);
}

#[test]
fn last_played_formats_rfc3339() {
    let game = game_with(None, Some("2023-01-15 10:30:00"));
    let formatted = game.last_played_rfc3339().unwrap();
    assert_eq!(formatted, "2023-01-15T10:30:00+00:00");
}

#[test]
fn last_played_absent_or_malformed() {
    assert!(game_with(None, None).last_played_rfc3339().is_none());
    assert!(game_with(None, Some("yesterday")).last_played_rfc3339().is_none());
}

#[test]
fn to_game_data_resolves_config() {
    let game = game_with(Some("00:30:00"), Some("2023-01-15 10:30:00"));
    let config = ParsedGameConfig {
        exe: Some("drive_c/game.exe".to_string()),
        prefix: Some("/prefixes/test".to_string()),
        env: vec![
            ("DXVK_HUD".to_string(), "fps".to_string()),
            ("PROTON_LOG".to_string(), "1".to_string()),
        ],
        wine_version: None,
    };
    let data = game.to_game_data(Some(&config));
    assert_eq!(data.slug, "test-game");
    assert_eq!(data.name, "Test Game");
    assert_eq!(data.playtime, 1800);
    assert_eq!(data.last_played.as_deref(), Some("2023-01-15T10:30:00+00:00"));
    assert_eq!(data.wine_prefix.as_deref(), Some("/prefixes/test"));
    assert_eq!(
        data.executable.as_deref(),
        Some("/prefixes/test/drive_c/game.exe")
    );
    assert_eq!(
        data.environment_vars.as_deref(),
        Some("DXVK_HUD=fps;PROTON_LOG=1")
    );
    assert!(!data.debug_output);
}

#[test]
fn to_game_data_absolute_exe_and_directory_fallback() {
    let game = game_with(None, None);
    let config = ParsedGameConfig {
        exe: Some("/abs/game.bin".to_string()),
        prefix: None,
        env: Vec::new(),
        wine_version: None,
    };
    let data = game.to_game_data(Some(&config));
    // an absolute executable is kept as is; the prefix falls back to the
    // install directory
    assert_eq!(data.executable.as_deref(), Some("/abs/game.bin"));
    assert_eq!(data.wine_prefix.as_deref(), Some("/games/test"));
    assert!(data.environment_vars.is_none());
}

#[test]
fn to_game_data_without_config() {
    let game = game_with(None, None);
    let data = game.to_game_data(None);
    assert!(data.executable.is_none());
    assert!(data.wine_prefix.is_none());
    assert!(data.wine_version.is_none());
    assert!(data.environment_vars.is_none());
    assert_eq!(data.playtime, 0);
}

#[test]
fn db_row_to_game_data() {
    let data = game_data_from_db(
        "db-game".to_string(),
        "DB Game".to_string(),
        Some("wine".to_string()),
        None,
        Some("/fallback/exe".to_string()),
        2,
        Some(0),
        None,
    );
    assert_eq!(data.playtime, 7200);
    assert_eq!(data.last_played.as_deref(), Some("1970-01-01T00:00:00+00:00"));
    // no config file: the database's executable column is used
    assert_eq!(data.executable.as_deref(), Some("/fallback/exe"));
}
