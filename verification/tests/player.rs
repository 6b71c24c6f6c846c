use freally_player::player::{
    is_image_subtitle, is_image_track, is_invalid_proc, media_key_action, newest_sub_track,
    pack_size, sub_add_flag, title_for, title_from_stem, track_kind, unpack_size, EngineError, HostWindow,
    KeyAction, MediaKey, NullEngine, Status, TrackKind,
};
use freally_player::surface::{no_surface, should_diagnose, Placement, Shared, VideoSurface};

#[test]
fn an_unavailable_backend_reports_its_real_reason() {
    let mut engine = NullEngine::unavailable("libmpv: no audio device");
    assert_eq!(
        engine.open("clip.mkv"),
        Err(EngineError::Backend("libmpv: no audio device".to_owned()))
    );
    assert!(engine.play().unwrap_err().message().contains("no audio device"));
}

#[test]
fn the_no_backend_message_explains_itself() {
    let message = EngineError::NoBackend.message();
    assert!(message.contains("no playback engine"));
    assert!(message.contains("libmpv"));
}

#[test]
fn a_title_is_the_file_stem() {
    assert_eq!(title_for("/media/movies/Arrival.2016.mkv"), "Arrival.2016");
    assert_eq!(title_for("clip.mp4"), "clip");
    assert_eq!(title_for(""), "");
}

#[test]
fn image_based_subtitle_codecs_are_recognised() {
    assert!(is_image_subtitle(Some("hdmv_pgs_subtitle")));
    assert!(is_image_subtitle(Some("dvd_subtitle")));
    assert!(is_image_subtitle(Some("dvb_subtitle")));
    assert!(!is_image_subtitle(Some("subrip")));
    assert!(!is_image_subtitle(Some("ass")));
    assert!(!is_image_subtitle(Some("webvtt")));
    assert!(!is_image_subtitle(None));
}

#[test]
fn wgl_sentinel_return_values_are_treated_as_failures() {
    for sentinel in [0, 1, 2, 3, -1] {
        assert!(is_invalid_proc(sentinel), "{sentinel} must be rejected");
    }
    assert!(!is_invalid_proc(0x7FF6_1234_5678));
}

#[test]
fn size_packing_round_trips_and_never_yields_zero() {
    let mut shared = Shared::new(0, 0);
    shared.set_size(1920, 1080);
    assert_eq!(shared.size(), (1920, 1080));
    shared.set_size(0, 0);
    assert_eq!(shared.size(), (1, 1));
}

#[test]
fn a_redraw_request_is_observable() {
    let mut shared = Shared::new(0, 0);
    assert!(shared.take_redraw());
    assert!(!shared.redraw_requested());
    shared.request_redraw();
    assert!(shared.redraw_requested());
}

#[test]
fn every_engine_error_explains_itself() {
    assert_eq!(EngineError::NothingOpen.message(), "no media is open");
    assert_eq!(EngineError::InvalidSeek.message(), "seek target is not a valid position");
    assert_eq!(EngineError::Backend("gpu lost".to_owned()).message(), "gpu lost");
    assert_eq!(
        EngineError::NoBackend.message(),
        "this build has no playback engine — it was built without the libmpv backend"
    );
}

#[test]
fn the_null_engine_refuses_every_operation() {
    let mut engine = NullEngine::default();
    assert_eq!(engine.open("clip.mkv"), Err(EngineError::NoBackend));
    assert_eq!(engine.play(), Err(EngineError::NoBackend));
    assert_eq!(engine.pause(), Err(EngineError::NoBackend));
    assert_eq!(engine.attach_surface(HostWindow::Win32(0), 10, 10), Err(EngineError::NoBackend));
    assert_eq!(Status::default(), Status::Idle);
}

#[test]
fn a_title_falls_back_to_the_whole_path() {
    assert_eq!(title_from_stem("https://x/y", None), "https://x/y");
    assert_eq!(title_from_stem("a/.", Some("")), "a/.");
    assert_eq!(title_from_stem("a/b.mkv", Some("b")), "b");
}

#[test]
fn packed_sizes_hold_both_halves_and_clamp_zero() {
    assert_eq!(pack_size(2, 3), (2u64 << 32) | 3);
    assert_eq!(unpack_size((7u64 << 32) | 9), (7, 9));
    assert_eq!(unpack_size(0), (1, 1));
}

#[test]
fn a_surface_takes_exactly_the_stage_rectangle() {
    let mut surface = VideoSurface::new(42, 800, 600);
    assert_eq!(surface.placement(), Placement { x: 0, y: 0, width: 800, height: 600 });
    surface.set_rect(10, 20, 0, 300);
    assert_eq!(surface.placement(), Placement { x: 10, y: 20, width: 1, height: 300 });
    assert_eq!(surface.shared().size(), (1, 300));
    assert!(surface.shared().take_redraw());
    assert_eq!(surface.host(), 42);
}

#[test]
fn stopping_the_render_loop_wakes_it() {
    let mut shared = Shared::new(5, 5);
    let _ = shared.take_redraw();
    assert!(shared.running());
    shared.stop();
    assert!(!shared.running());
    assert!(shared.redraw_requested());
}

#[test]
fn a_platform_without_a_surface_says_so_plainly() {
    let message = no_surface().message();
    assert!(message.contains("not implemented on this platform yet"));
    assert!(message.contains("audio plays"));
}

#[test]
fn video_diagnostics_sample_about_a_second_in_and_then_every_two_hundred_frames() {
    assert!(should_diagnose(true, 40));
    assert!(should_diagnose(true, 400));
    assert!(!should_diagnose(true, 41));
    assert!(!should_diagnose(false, 40));
}

#[test]
fn only_offered_track_kinds_are_listed() {
    assert_eq!(track_kind("audio"), Some(TrackKind::Audio));
    assert_eq!(track_kind("sub"), Some(TrackKind::Sub));
    assert_eq!(track_kind("video"), Some(TrackKind::Video));
    assert_eq!(track_kind("attachment"), None);
    assert!(is_image_track(TrackKind::Sub, Some("hdmv_pgs_subtitle")));
    assert!(!is_image_track(TrackKind::Video, Some("hdmv_pgs_subtitle")));
    assert!(!is_image_track(TrackKind::Sub, Some("ass")));
}

#[test]
fn a_newly_added_subtitle_is_the_highest_sub_id() {
    let tracks = vec![(TrackKind::Sub, 1), (TrackKind::Audio, 9), (TrackKind::Sub, 3), (TrackKind::Sub, 2)];
    assert_eq!(newest_sub_track(&tracks), Some(3));
    assert_eq!(newest_sub_track(&vec![(TrackKind::Audio, 1)]), None);
}

#[test]
fn media_keys_map_to_transport_actions() {
    assert_eq!(media_key_action(MediaKey::Play), KeyAction::Play);
    assert_eq!(media_key_action(MediaKey::Pause), KeyAction::Pause);
    assert_eq!(media_key_action(MediaKey::Toggle), KeyAction::Toggle);
    assert_eq!(media_key_action(MediaKey::Stop), KeyAction::Pause);
    assert_eq!(media_key_action(MediaKey::Next), KeyAction::Ignore);
    assert_eq!(media_key_action(MediaKey::Previous), KeyAction::Ignore);
    assert_eq!(media_key_action(MediaKey::Seek), KeyAction::Seek);
    assert_eq!(media_key_action(MediaKey::Other), KeyAction::Ignore);
}

#[test]
fn a_title_follows_the_documented_stem_rules() {
    assert_eq!(title_for("archive.tar.gz"), "archive.tar");
    assert_eq!(title_for(".hidden"), ".hidden");
    assert_eq!(title_for("dir/.config.json"), ".config");
    assert_eq!(title_for("noext"), "noext");
}

#[test]
fn a_url_is_titled_whole() {
    assert_eq!(title_for("https://example.com/media/clip.mkv"), "https://example.com/media/clip.mkv");
    assert_eq!(title_for("rtsp://camera.local/live"), "rtsp://camera.local/live");
}

#[test]
fn an_added_subtitle_is_selected_only_when_asked() {
    assert_eq!(sub_add_flag(true), "select");
    assert_eq!(sub_add_flag(false), "auto");
}
