use freally_player::eula::{eula_status, is_current, EULA_VERSION};
use freally_player::paths::{config_dir, config_file, crash_dir, data_dir, settings_path, strip_bom};
use freally_player::settings::{
    geometry_to_save,
    OpenSubtitlesSettings, Settings, Theme, UserSettings, WindowSettings, MAX_DIMENSION,
    MIN_HEIGHT, MIN_WIDTH, SETTINGS_SCHEMA_VERSION,
};

fn fresh() -> Settings<u8> {
    Settings::defaults(0u8)
}

fn user(theme: Theme, tray: bool, language: Option<&str>) -> UserSettings<u8> {
    UserSettings {
        theme,
        minimize_to_tray: tray,
        subtitle_style: 0,
        opensubtitles: OpenSubtitlesSettings::default(),
        language: language.map(|l| l.to_owned()),
    }
}

#[test]
fn first_run_settings_are_the_documented_defaults() {
    let s = fresh();
    assert_eq!(s.schema_version, SETTINGS_SCHEMA_VERSION);
    assert_eq!(s.window, WindowSettings { width: 1200, height: 800, maximized: false });
    assert_eq!(s.theme, Theme::Dark);
    assert!(!s.minimize_to_tray);
    assert!(!s.opensubtitles.enabled);
    assert_eq!(s.language, None);
    assert_eq!(s.accepted_eula_version, None);
}

#[test]
fn out_of_range_geometry_falls_back_to_the_default() {
    let mut w = WindowSettings { width: 1, height: 9_999_999, maximized: true };
    w.clamp();
    assert_eq!(w, WindowSettings { width: 1200, height: 800, maximized: true });
    let mut ok = WindowSettings { width: MIN_WIDTH, height: MAX_DIMENSION, maximized: false };
    ok.clamp();
    assert_eq!(ok, WindowSettings { width: MIN_WIDTH, height: MAX_DIMENSION, maximized: false });
    let mut low = WindowSettings { width: 1600, height: MIN_HEIGHT - 1, maximized: false };
    low.clamp();
    assert_eq!(low.height, 800);
    assert_eq!(low.width, 1600);
}

#[test]
fn writing_preferences_keeps_acceptance_and_geometry() {
    let s = fresh()
        .with_eula_accepted("2026-07-21")
        .with_window(WindowSettings { width: 1600, height: 900, maximized: true })
        .prepared();
    let after = s.with_user_settings(user(Theme::Light, true, Some("ja"))).prepared();
    assert_eq!(after.theme, Theme::Light);
    assert!(after.minimize_to_tray);
    assert_eq!(after.language.as_deref(), Some("ja"));
    assert_eq!(after.accepted_eula_version.as_deref(), Some("2026-07-21"));
    assert_eq!(after.window.width, 1600);
    assert!(after.window.maximized);
}

#[test]
fn the_modal_reads_back_what_it_wrote() {
    let u = user(Theme::Light, true, Some("pt-BR"));
    let back = fresh().with_user_settings(u.clone()).user_settings();
    assert_eq!(back, u);
}

#[test]
fn accepting_the_eula_twice_is_accepting_it_once() {
    let once = fresh().with_eula_accepted(EULA_VERSION);
    let twice = once.clone().with_eula_accepted(EULA_VERSION);
    assert_eq!(once, twice);
    assert_eq!(twice.accepted_eula_version.as_deref(), Some("2026-07-01"));
}

#[test]
fn saved_settings_carry_the_schema_and_a_reachable_window() {
    let mut s = fresh().with_window(WindowSettings { width: 20_000, height: 700, maximized: false });
    s.schema_version = 0;
    let p = s.prepared();
    assert_eq!(p.schema_version, SETTINGS_SCHEMA_VERSION);
    assert_eq!(p.window, WindowSettings { width: 1200, height: 700, maximized: false });
    let l = fresh().with_window(WindowSettings { width: 5, height: 5, maximized: true }).loaded();
    assert_eq!(l.window, WindowSettings { width: 1200, height: 800, maximized: true });
}

#[test]
fn the_gate_opens_only_for_the_current_version() {
    assert!(is_current(Some("2026-07-01")));
    assert!(!is_current(Some("2025-01-01")));
    assert!(!is_current(None));
    let status = eula_status(Some(EULA_VERSION), "terms");
    assert_eq!(status.version, "2026-07-01");
    assert_eq!(status.text, "terms");
    assert!(status.accepted);
    assert!(!eula_status(None, "terms").accepted);
    assert_eq!(EULA_VERSION.split('-').count(), 3, "date-stamped version");
}

#[test]
fn a_byte_order_mark_is_stripped_before_parsing() {
    assert_eq!(strip_bom("\u{feff}{\"theme\":\"light\"}"), "{\"theme\":\"light\"}");
    assert_eq!(strip_bom("{}"), "{}");
    assert_eq!(strip_bom(""), "");
    assert_eq!(strip_bom("a\u{feff}"), "a\u{feff}");
}

#[test]
fn a_maximized_window_keeps_its_last_windowed_size() {
    let stored = WindowSettings { width: 1600, height: 900, maximized: false };
    assert_eq!(
        geometry_to_save(true, stored, Some((3840, 2160))),
        Some(WindowSettings { width: 1600, height: 900, maximized: true })
    );
    assert_eq!(
        geometry_to_save(false, stored, Some((1024, 640))),
        Some(WindowSettings { width: 1024, height: 640, maximized: false })
    );
    assert_eq!(geometry_to_save(false, stored, None), None);
}

#[test]
fn the_player_files_sit_in_its_own_directories() {
    if let Some(dir) = config_dir() {
        assert!(!dir.is_empty());
        assert!(settings_path().expect("settings path").ends_with("settings.json"));
    }
    if let Some(dir) = data_dir() {
        assert!(!dir.is_empty());
        assert!(crash_dir().expect("crash dir").ends_with("crash-reports"));
    }
    assert!(config_file("watch_state.json").ends_with("watch_state.json"));
}
