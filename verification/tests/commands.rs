use freally_player::commands::{
    ticker_step, SAVE_EVERY_TICKS, TICK_MS,
    check_snapshot_path, check_target, client_key, loaded_subtitle_info, looks_like_url,
    recent_limit, search_query, toggle_action, user_agent, validate_target, LoadedSubtitleInfo,
    OpenSubtitlesState, Transport,
};
use freally_player::player::Status;
use freally_player::subtitles::LoadedSubtitle;

#[test]
fn an_empty_target_is_refused() {
    assert!(validate_target("").is_err());
    assert!(validate_target("   ").is_err());
}

#[test]
fn a_missing_local_file_is_refused_by_name() {
    let err = validate_target("Z:/definitely/not/here.mkv").expect_err("should fail");
    assert!(err.contains("no such file"));
}

#[test]
fn a_url_is_passed_through_without_a_filesystem_check() {
    assert!(validate_target("https://example.com/stream.m3u8").is_ok());
    assert!(validate_target("rtsp://camera.local/live").is_ok());
    assert!(looks_like_url("smb://nas/share/movie.mkv"));
    assert!(!looks_like_url("C:/Videos/movie.mkv"));
}

#[test]
fn each_target_refusal_names_the_target() {
    assert_eq!(check_target(" ", true, true), Err("no media path was given".to_owned()));
    assert_eq!(check_target("a.mkv", false, false), Err("no such file: a.mkv".to_owned()));
    assert_eq!(check_target("dir", true, false), Err("not a file: dir".to_owned()));
    assert_eq!(check_target("a.mkv", true, true), Ok(()));
    assert_eq!(check_target("http://x", false, false), Ok(()));
}

#[test]
fn the_recent_list_is_capped() {
    assert_eq!(recent_limit(10), 10);
    assert_eq!(recent_limit(50), 50);
    assert_eq!(recent_limit(usize::MAX), 50);
}

#[test]
fn a_blank_snapshot_path_is_refused() {
    assert_eq!(check_snapshot_path("  "), Err("no snapshot path was given".to_owned()));
    assert_eq!(check_snapshot_path("/tmp/frame.png"), Ok(()));
}

#[test]
fn toggling_pauses_only_while_playing() {
    assert_eq!(toggle_action(Status::Playing), Transport::Pause);
    assert_eq!(toggle_action(Status::Paused), Transport::Play);
    assert_eq!(toggle_action(Status::Idle), Transport::Play);
}

#[test]
fn the_opensubtitles_client_needs_it_enabled_and_a_key() {
    assert_eq!(
        client_key(false, Some("k".to_owned())),
        Err("online subtitle fetch is turned off".to_owned())
    );
    assert_eq!(
        client_key(true, Some("  ".to_owned())),
        Err("no OpenSubtitles API key is set — add yours in Settings".to_owned())
    );
    assert_eq!(
        client_key(true, None),
        Err("no OpenSubtitles API key is set — add yours in Settings".to_owned())
    );
    assert_eq!(client_key(true, Some(" key ".to_owned())), Ok(" key ".to_owned()));
    assert_eq!(user_agent(), "Freally Player v0.30.0");
}

#[test]
fn a_search_needs_something_to_search_for() {
    assert_eq!(search_query(" \t"), Err("enter something to search for".to_owned()));
    assert_eq!(search_query("  Arrival "), Ok("Arrival".to_owned()));
}

#[test]
fn a_download_needs_a_signed_in_session() {
    let mut session = OpenSubtitlesState::new();
    assert_eq!(session.session_token(), Err("sign in to OpenSubtitles first".to_owned()));
    session.sign_in("tok".to_owned());
    assert_eq!(session.session_token(), Ok("tok".to_owned()));
}

#[test]
fn a_loaded_subtitle_is_reported_with_its_track() {
    let loaded = LoadedSubtitle {
        path: "/tmp/s.srt".to_owned(),
        source_encoding: Some("Shift_JIS".to_owned()),
        image_based: false,
    };
    assert_eq!(
        loaded_subtitle_info(3, loaded),
        LoadedSubtitleInfo { track_id: 3, source_encoding: Some("Shift_JIS".to_owned()), image_based: false }
    );
}

#[test]
fn the_ticker_saves_every_twentieth_tick() {
    let mut ticks = 0;
    let mut saves = Vec::new();
    for n in 1..=45u32 {
        let (save, next) = ticker_step(ticks);
        ticks = next;
        if save {
            saves.push(n);
        }
    }
    assert_eq!(saves, vec![20, 40]);
    assert_eq!(SAVE_EVERY_TICKS, 20);
    assert_eq!(TICK_MS, 250);
}
