use freally_player::charset::decode_text;
use freally_player::subtitles::{
    after_temp_write, classify, classify_extension, idx_sibling, extension_or_default, extension_or_srt,
    finish_text_load, load_bytes, plan_load, FileProbe, Kind, LoadPlan, LoadedSubtitle,
    SubtitleError, TempWrite, TextLoad, MAX_IMAGE_SUBTITLE_BYTES, MAX_TEXT_SUBTITLE_BYTES,
};

/// Classifies `path` as the loader does: the `.idx` sibling of a `.sub` is looked up on disk.
fn classify_on_disk(path: &str) -> Kind {
    let beside = match idx_sibling(path) {
        Some(sibling) => std::path::Path::new(&sibling).exists(),
        None => false,
    };
    classify(path, beside)
}

#[test]
fn extension_classifies_image_versus_text() {
    assert_eq!(classify_on_disk("movie.sup"), Kind::Image);
    assert_eq!(classify_on_disk("movie.idx"), Kind::Image);
    assert_eq!(classify_on_disk("movie.srt"), Kind::Text);
    assert_eq!(classify_on_disk("movie.ass"), Kind::Text);
    assert_eq!(classify_on_disk("movie.sub"), Kind::Text);
}

#[test]
fn classification_ignores_letter_case_and_needs_the_idx_for_a_sub() {
    assert_eq!(classify_extension(Some("SUP"), false), Kind::Image);
    assert_eq!(classify_extension(Some("Idx"), false), Kind::Image);
    assert_eq!(classify_extension(Some("sub"), true), Kind::Image);
    assert_eq!(classify_extension(Some("SUB"), false), Kind::Text);
    assert_eq!(classify_extension(Some("srt"), true), Kind::Text);
    assert_eq!(classify_extension(None, true), Kind::Text);
}

#[test]
fn each_probe_outcome_is_planned_as_documented() {
    assert_eq!(
        plan_load("Z:/nope/missing.srt", FileProbe::Missing, Kind::Text),
        Err(SubtitleError::NotFound("Z:/nope/missing.srt".to_owned()))
    );
    assert_eq!(
        plan_load("d", FileProbe::Found { is_file: false, len: 0 }, Kind::Text),
        Err(SubtitleError::NotAFile("d".to_owned()))
    );
    assert_eq!(
        plan_load("x", FileProbe::Unreadable("denied".to_owned()), Kind::Text),
        Err(SubtitleError::Io("denied".to_owned()))
    );
    assert_eq!(
        plan_load("big.srt", FileProbe::Found { is_file: true, len: MAX_TEXT_SUBTITLE_BYTES + 1 }, Kind::Text),
        Err(SubtitleError::TooLarge {
            path: "big.srt".to_owned(),
            bytes: MAX_TEXT_SUBTITLE_BYTES + 1,
            limit: MAX_TEXT_SUBTITLE_BYTES
        })
    );
    // An image stream may be larger than any text file.
    assert_eq!(
        plan_load("m.sup", FileProbe::Found { is_file: true, len: MAX_TEXT_SUBTITLE_BYTES + 1 }, Kind::Image),
        Ok(LoadPlan::Ready(LoadedSubtitle {
            path: "m.sup".to_owned(),
            source_encoding: None,
            image_based: true
        }))
    );
    assert!(matches!(
        plan_load("m.sup", FileProbe::Found { is_file: true, len: MAX_IMAGE_SUBTITLE_BYTES + 1 }, Kind::Image),
        Err(SubtitleError::TooLarge { .. })
    ));
    assert_eq!(
        plan_load("a.srt", FileProbe::Found { is_file: true, len: 10 }, Kind::Text),
        Ok(LoadPlan::ReadText)
    );
}

#[test]
fn every_subtitle_error_reads_as_documented() {
    assert_eq!(SubtitleError::NotFound("a.srt".to_owned()).message(), "no such subtitle file: a.srt");
    assert_eq!(SubtitleError::NotAFile("dir".to_owned()).message(), "not a subtitle file: dir");
    assert_eq!(
        SubtitleError::TooLarge { path: "b.srt".to_owned(), bytes: 16777217, limit: 16777216 }.message(),
        "subtitle file is too large (16777217 bytes, limit 16777216): b.srt"
    );
    assert_eq!(SubtitleError::Io("disk full".to_owned()).message(), "disk full");
}

#[test]
fn clean_utf8_is_handed_over_untouched() {
    let body = "1\n00:00:01,000 --> 00:00:02,000\nHello, world.\n";
    let d = decode_text(body.as_bytes());
    assert_eq!(d.text, body);
    assert_eq!(d.label, None);
    assert_eq!(
        finish_text_load("clip.srt", body.as_bytes()),
        TextLoad::AsIs(LoadedSubtitle { path: "clip.srt".to_owned(), source_encoding: None, image_based: false })
    );
}

#[test]
fn a_shift_jis_subtitle_is_detected_and_transcoded() {
    let plain = "1\n00:00:01,000 --> 00:00:04,000\nこんにちは、これは字幕のテストです。\n\n".repeat(6);
    let (bytes, _, _) = encoding_rs::SHIFT_JIS.encode(&plain);
    let d = decode_text(&bytes);
    assert!(d.label.is_some());
    assert!(d.text.contains("字幕のテスト"), "got: {}", d.text);
    match finish_text_load("jp.srt", &bytes) {
        TextLoad::Write(w) => {
            assert_eq!(w.ext, "srt");
            assert!(w.text.contains("字幕のテスト"));
            assert!(w.source_encoding.is_some());
        }
        other => panic!("expected a transcode, got {other:?}"),
    }
}

#[test]
fn a_utf16le_bom_is_transcoded() {
    let plain = "1\n00:00:01,000 --> 00:00:02,000\nCafé déjà vu\n";
    let mut with_bom = vec![0xFF, 0xFE];
    for unit in plain.encode_utf16() {
        with_bom.extend_from_slice(&unit.to_le_bytes());
    }
    let d = decode_text(&with_bom);
    assert_eq!(d.label.as_deref(), Some("UTF-16LE"));
    assert!(d.text.contains("Café déjà vu"));
}

#[test]
fn a_utf16be_and_a_utf8_bom_are_named() {
    let plain = "Ünïcode";
    let mut be = vec![0xFE, 0xFF];
    for unit in plain.encode_utf16() {
        be.extend_from_slice(&unit.to_be_bytes());
    }
    let d = decode_text(&be);
    assert_eq!(d.label.as_deref(), Some("UTF-16BE"));
    assert_eq!(d.text, plain);

    let mut u8bom = vec![0xEF, 0xBB, 0xBF];
    u8bom.extend_from_slice(plain.as_bytes());
    let d = decode_text(&u8bom);
    assert_eq!(d.label.as_deref(), Some("UTF-8"));
    assert_eq!(d.text, plain);
}

#[test]
fn a_download_is_bounded_and_decoded() {
    let big = vec![b'a'; (MAX_TEXT_SUBTITLE_BYTES + 1) as usize];
    assert_eq!(
        load_bytes(&big, "srt"),
        Err(SubtitleError::TooLarge {
            path: "<download>.srt".to_owned(),
            bytes: MAX_TEXT_SUBTITLE_BYTES + 1,
            limit: MAX_TEXT_SUBTITLE_BYTES
        })
    );
    assert_eq!(
        load_bytes(b"hello", "vtt"),
        Ok(TempWrite { ext: "vtt".to_owned(), text: "hello".to_owned(), source_encoding: None })
    );
}

#[test]
fn a_temp_write_becomes_the_loaded_track_or_an_io_error() {
    let pending = TempWrite { ext: "srt".to_owned(), text: "x".to_owned(), source_encoding: Some("windows-1251".to_owned()) };
    assert_eq!(
        after_temp_write(pending.clone(), Ok("/tmp/sub-1.srt".to_owned())),
        Ok(LoadedSubtitle {
            path: "/tmp/sub-1.srt".to_owned(),
            source_encoding: Some("windows-1251".to_owned()),
            image_based: false
        })
    );
    assert_eq!(
        after_temp_write(pending, Err("read-only".to_owned())),
        Err(SubtitleError::Io("read-only".to_owned()))
    );
}

#[test]
fn a_temp_file_keeps_the_source_extension_or_defaults_to_srt() {
    assert_eq!(extension_or_srt("movie.ass"), "ass");
    assert_eq!(extension_or_srt("movie"), "srt");
    assert_eq!(extension_or_default(Some("")), "srt");
    assert_eq!(extension_or_default(None), "srt");
    assert_eq!(extension_or_default(Some("vtt")), "vtt");
}

#[test]
fn the_extension_is_what_follows_the_last_dot_of_the_file_name() {
    assert_eq!(extension_or_srt("dir/movie.en.ass"), "ass");
    assert_eq!(extension_or_srt(".srt"), "srt");
    assert_eq!(extension_or_srt("dir/.hidden"), "srt");
    assert_eq!(classify("dir/Movie.SUP", false), Kind::Image);
}

#[test]
fn a_sub_is_a_bitmap_only_beside_its_idx_sibling() {
    assert_eq!(idx_sibling("dir/movie.sub"), Some("dir/movie.idx".to_owned()));
    assert_eq!(idx_sibling("/media/Film.SUB"), Some("/media/Film.idx".to_owned()));
    assert_eq!(idx_sibling("dir/movie.srt"), None);
    assert_eq!(idx_sibling("dir/movie"), None);
    assert_eq!(classify("dir/movie.sub", true), Kind::Image);
    assert_eq!(classify("dir/movie.sub", false), Kind::Text);
    assert_eq!(classify("dir/movie.srt", true), Kind::Text);
}
