use freally_player::bugreport::{
    blind_wait_ms, bug_report_context, compose_body, crash_file_name, diagnostics_for,
    encode_bounded, github_url, gmail_url, keep_waiting, mailto_url, newest_crash_report,
    panic_report, scrub, scrub_with, stamped_crash, subject, submit_url, vet_url, BodyStyle,
    CrashFile, EXIT_WAIT_TRIES, MAX_MAILTO_URL,
};
use freally_player::launch::{crash_notice_request, media_from_args, parse_u32, wants_test_crash};
use freally_player::percent::{encode_bounded_with, urlencode};

fn diagnostics() -> String {
    diagnostics_for("linux", "x86_64")
}

#[test]
fn scrub_redacts_home_and_username() {
    if let Some(dirs) = directories::UserDirs::new() {
        let home = dirs.home_dir().to_string_lossy().to_string();
        if !home.is_empty() {
            let text = format!("error opening {home}/Videos/secret.mkv");
            let scrubbed = scrub(&text);
            assert!(!scrubbed.contains(&home), "home path must be redacted");
        }
    }
}

#[test]
fn urlencode_escapes_unsafe_and_keeps_unreserved() {
    assert_eq!(urlencode("a b&c"), "a%20b%26c");
    assert_eq!(urlencode("Aa0-_.~"), "Aa0-_.~");
    assert_eq!(urlencode("líne\n"), "l%C3%ADne%0A");
}

#[test]
fn github_and_mailto_urls_are_wellformed_and_bounded() {
    let long = "x".repeat(20_000);
    let gh = github_url("Bug report", &long);
    assert!(gh.starts_with("https://github.com/MikesRuthless12/freally-player/issues/new"));
    assert!(gh.contains("labels=bug"));
    assert!(gh.len() < 10_000, "github url must be bounded");

    let mail = mailto_url("Bug report", &long);
    assert!(mail.starts_with("mailto:mythodikalone@gmail.com?"));
    assert!(mail.len() < 4_000, "mailto url must be bounded");
}

#[test]
fn multibyte_bodies_cannot_blow_past_the_mailto_url_limit() {
    let body = "—".repeat(2_000);
    assert_eq!(body.chars().count(), 2_000);
    assert!(urlencode(&body).len() > 17_000, "premise: encoding inflates 9x");

    let mail = mailto_url("Bug report", &body);
    assert!(
        mail.len() < 2_048,
        "mailto url must stay under the ShellExecute limit, was {}",
        mail.len()
    );
}

#[test]
fn a_multibyte_subject_cannot_starve_the_body_or_blow_the_limit() {
    let subject = "🎬".repeat(80);
    let body = "a".repeat(5_000);
    let mail = mailto_url(&subject, &body);

    assert!(mail.len() < 2_048, "whole mailto URL stays bounded");
    let encoded_body = mail.split("&body=").nth(1).expect("body present");
    assert!(!encoded_body.is_empty(), "body must not be starved");
}

#[test]
fn truncation_never_splits_a_percent_escape() {
    let encoded = encode_bounded(&"—".repeat(500), 200);
    for (i, ch) in encoded.char_indices() {
        if ch == '%' {
            assert!(encoded[i + 1..].len() >= 2, "trailing escape was cut in half");
        }
    }
}

#[test]
fn the_subject_names_the_app_and_the_error() {
    let crash = "Crashed: now\nPanic at src/x.rs:1\nMessage: engine went away\n";
    assert_eq!(subject(Some(crash), ""), "[Freally Player] engine went away");
    assert_eq!(
        subject(None, "\n\nvideo is green\nmore detail"),
        "[Freally Player] video is green"
    );
    assert_eq!(subject(None, "   "), "[Freally Player] bug report");
}

#[test]
fn open_url_refuses_anything_but_https_and_mailto() {
    assert!(vet_url("file:///etc/passwd").is_err());
    assert!(vet_url("javascript:alert(1)").is_err());
    assert!(vet_url("http://example.com").is_err());
    assert!(vet_url("https://example.com/\nX-Injected: 1").is_err());
}

#[test]
fn the_body_carries_the_diagnostics_and_honours_the_style() {
    let md = compose_body("it broke", None, BodyStyle::Markdown, &diagnostics());
    assert!(md.contains("### What happened"));
    assert!(md.contains("From: Freally Player"));

    let plain = compose_body("it broke", None, BodyStyle::Plain, &diagnostics());
    assert!(plain.contains("WHAT HAPPENED"));
    assert!(!plain.contains("###"), "mail bodies carry no markdown noise");
}

#[test]
fn an_unknown_submit_target_is_rejected() {
    let err = submit_url("pastebin", "", None, &diagnostics())
        .expect_err("unknown target must be refused");
    assert!(err.contains("unknown report target"));
}

#[test]
fn every_known_submit_target_gives_its_own_kind_of_url() {
    let gh = submit_url("github", "it broke", None, &diagnostics()).expect("github");
    assert!(gh.starts_with("https://github.com/MikesRuthless12/freally-player/issues/new?"));
    assert!(gh.contains("%23%23%23%20What%20happened"));
    let gm = submit_url("gmail", "it broke", None, &diagnostics()).expect("gmail");
    assert!(gm.starts_with("https://mail.google.com/mail/?view=cm&fs=1&to=mythodikalone%40gmail.com&su="));
    assert!(gm.contains("WHAT%20HAPPENED"));
    let em = submit_url("email", "it broke", None, &diagnostics()).expect("email");
    assert!(em.starts_with("mailto:mythodikalone@gmail.com?subject="));
    assert_eq!(
        submit_url("GitHub", "", None, &diagnostics()).unwrap_err(),
        "unknown report target: GitHub"
    );
}

#[test]
fn an_allowed_url_is_vetted_and_a_control_character_is_not() {
    assert_eq!(vet_url("https://example.com/x"), Ok(()));
    assert_eq!(vet_url("mailto:a@b.c?subject=x"), Ok(()));
    assert_eq!(
        vet_url("ftp://example.com"),
        Err("refusing to open a non-https/mailto URL".to_owned())
    );
    assert_eq!(vet_url("https://a\u{7f}b"), Err("invalid URL".to_owned()));
}

#[test]
fn scrubbing_replaces_the_home_path_and_a_long_enough_user_name() {
    assert_eq!(
        scrub_with("/home/alice/x and alice", Some("/home/alice"), Some("alice")),
        "<home>/x and <user>"
    );
    // A name shorter than three characters is too common a substring to redact.
    assert_eq!(scrub_with("/home/al/x al", Some("/home/al"), Some("al")), "<home>/x al");
    assert_eq!(scrub_with("nothing here", None, None), "nothing here");
}

#[test]
fn mailto_url_has_an_exact_shape_for_short_input() {
    assert_eq!(
        mailto_url("Hi there", "a&b"),
        "mailto:mythodikalone@gmail.com?subject=Hi%20there&body=a%26b"
    );
    assert_eq!(
        gmail_url("S", "b"),
        "https://mail.google.com/mail/?view=cm&fs=1&to=mythodikalone%40gmail.com&su=S&body=b"
    );
    assert_eq!(
        github_url("T", "b"),
        "https://github.com/MikesRuthless12/freally-player/issues/new?labels=bug&title=T&body=b"
    );
    assert!(mailto_url("x", &"y".repeat(5_000)).len() <= MAX_MAILTO_URL);
}

#[test]
fn a_long_body_ends_with_the_truncation_note() {
    let encoded = encode_bounded(&"a".repeat(500), 400);
    assert!(encoded.len() <= 400);
    assert!(encoded.starts_with("aaaa"));
    assert!(encoded.ends_with(&urlencode("\n… (truncated — use “Copy report” for the full text)")));
    assert_eq!(encode_bounded("short", 100), "short");
}

#[test]
fn diagnostics_and_the_report_context_name_the_build() {
    assert_eq!(diagnostics(), "App: Freally Player 0.30.0\nOS: linux / x86_64\n");
    let ctx = bug_report_context("windows", "aarch64", Some("boom".to_owned()));
    assert_eq!(ctx.app_version, "0.30.0");
    assert_eq!(ctx.os, "windows");
    assert_eq!(ctx.arch, "aarch64");
    assert_eq!(ctx.diagnostics, "App: Freally Player 0.30.0\nOS: windows / aarch64\n");
    assert_eq!(ctx.pending_crash.as_deref(), Some("boom"));
}

#[test]
fn the_newest_txt_report_is_the_pending_crash() {
    let f = |ext: Option<&str>, t: u128| CrashFile { extension: ext.map(|e| e.to_owned()), modified_ms: t };
    let files = vec![
        f(Some("txt"), 10),
        f(Some("log"), 99),
        f(Some("txt"), 30),
        f(None, 50),
        f(Some("txt"), 30),
    ];
    assert_eq!(newest_crash_report(&files), Some(2));
    assert_eq!(newest_crash_report(&vec![f(Some("log"), 1)]), None);
    assert_eq!(newest_crash_report(&Vec::new()), None);
}

#[test]
fn crash_files_and_reports_have_their_documented_shape() {
    assert_eq!(crash_file_name(1_700_000_000_123), "crash-1700000000123.txt");
    assert_eq!(crash_file_name(0), "crash-0.txt");
    assert_eq!(
        stamped_crash("2026-01-02 03:04:05 +0100", "2026-01-02 02:04:05", "Panic at x"),
        "Crashed: 2026-01-02 03:04:05 +0100 (UTC 2026-01-02 02:04:05)\nPanic at x"
    );
    assert_eq!(
        panic_report(Some(("src/main.rs", 42)), Some("boom"), "bt"),
        "Panic at src/main.rs:42\nMessage: boom\n\nBacktrace:\nbt\n"
    );
    assert_eq!(
        panic_report(None, None, ""),
        "Panic at unknown\nMessage: (no message)\n\nBacktrace:\n\n"
    );
}

#[test]
fn the_crash_notice_helper_waits_only_while_the_process_lives() {
    assert!(keep_waiting(0, true));
    assert!(!keep_waiting(0, false));
    assert!(!keep_waiting(EXIT_WAIT_TRIES, true));
    assert_eq!(blind_wait_ms(), 2_000);
}

#[test]
fn launch_arguments_are_read_as_documented() {
    let args = |v: &[&str]| v.iter().map(|s| s.to_string()).collect::<Vec<String>>();
    assert_eq!(crash_notice_request(&args(&["app", "--crash-notice", "1234"])), Some(Some(1234)));
    assert_eq!(crash_notice_request(&args(&["app", "--crash-notice", "x"])), Some(None));
    assert_eq!(crash_notice_request(&args(&["app", "--crash-notice"])), Some(None));
    assert_eq!(crash_notice_request(&args(&["app", "movie.mkv"])), None);
    assert!(wants_test_crash(&args(&["app", "--test-crash"])));
    assert!(!wants_test_crash(&args(&["app"])));
    assert_eq!(
        media_from_args(&args(&["app", "--crash-notice", "12", "-v", "movie.mkv", "other.mkv"])),
        Some("movie.mkv".to_owned())
    );
    assert_eq!(media_from_args(&args(&["app", "--verbose"])), None);
    assert_eq!(media_from_args(&args(&["movie.mkv"])), None);
    assert_eq!(parse_u32("4294967295"), Some(4294967295));
    assert_eq!(parse_u32("4294967296"), None);
    assert_eq!(parse_u32("+7"), Some(7));
    assert_eq!(parse_u32(""), None);
}

#[test]
fn a_note_that_cannot_fit_is_left_out_and_the_bound_holds() {
    assert_eq!(encode_bounded_with("abcdef", 3, "long note"), "abc");
    assert_eq!(encode_bounded_with("abcdef", 8, "n"), "abcdef");
    assert_eq!(encode_bounded_with("abcdefgh", 5, "n"), "abcdn");
    assert!(encode_bounded("aaaa", 2).len() <= 2);
}

#[test]
fn a_scrubbed_text_keeps_no_trace_of_the_home_path_or_user_name() {
    let out = scrub_with(
        "/home/alice/a.log and /home/alice again, by alice",
        Some("/home/alice"),
        Some("alice"),
    );
    assert_eq!(out, "<home>/a.log and <home> again, by <user>");
    assert!(!out.contains("/home/alice"));
    assert!(!out.contains("alice"));
}
