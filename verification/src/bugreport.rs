//! The anonymous bug report: the pre-filled GitHub, Gmail and `mailto:` URLs it opens, their
//! bounds, the subject line and the report body, and the scrubbing of personal paths.
//!
//! Nothing here sends anything: the URLs are handed to the OS, and the user clicks send.
use vstd::prelude::*;
use vstd::utf8::*;

use crate::percent::{
    bounded_encoding, encode_bounded_with, lemma_bounded_encoding_shape,
    lemma_percent_encode_shape, percent_encode, saturating_sub, urlencode,
};
use crate::host::{final_file_name, home_dir_of, path_file_name, user_dirs};
use crate::percent::lemma_encode_utf8_concat;
use crate::text::{
    decimal, push_decimal, ascii_len, chars_of, collapse_range, collapse_ws, is_cc, is_control, line_bounds, lines,
    contains_seq, lacks, lemma_replace_all_keeps_absent, lemma_replace_all_removes,
    lemma_starts_outside_by_ends, lemma_starts_outside_by_first,
    matches_at, occurs_at, push_char, push_str, replace_all, replace_in, same_text,
    string_of_range, subvec, trim, trim_range,
};

verus! {

broadcast use vstd::string::group_string_axioms;

/// This app's name, put in the subject line and the body.
pub const APP_NAME: &'static str = "Freally Player";

/// The version this build reports.
pub const APP_VERSION: &'static str = "0.30.0";

/// The project's issue tracker.
pub const GITHUB_NEW_ISSUE: &'static str =
    "https://github.com/MikesRuthless12/freally-player/issues/new";

/// Where an emailed report goes.
pub const REPORT_EMAIL: &'static str = "mythodikalone@gmail.com";

/// Gmail's web compose window.
pub const GMAIL_COMPOSE: &'static str = "https://mail.google.com/mail/?view=cm&fs=1";

/// Bound on the percent-encoded body of a GitHub issue URL.
pub const MAX_GITHUB_ENCODED: usize = 6000;

/// Bound on the percent-encoded body of a Gmail compose URL.
pub const MAX_GMAIL_ENCODED: usize = 6000;

/// Bound on the whole `mailto:` URL (Windows' ShellExecute gives up near 2048).
pub const MAX_MAILTO_URL: usize = 1900;

/// Share of [`MAX_MAILTO_URL`] the encoded subject may claim.
pub const MAX_MAILTO_SUBJECT_ENCODED: usize = 300;

/// The note that ends a truncated title or body.
pub const TRUNCATION_NOTE: &'static str =
    "\n… (truncated — use “Copy report” for the full text)";

/// `s`, or its first `max` characters followed by [`TRUNCATION_NOTE`] when it is longer.
pub open spec fn truncated(s: Seq<char>, max: nat) -> Seq<char> {
    if s.len() <= max {
        s
    } else {
        s.take(max as int) + TRUNCATION_NOTE@
    }
}

/// Keeps at most `max` characters of `s`, marking the cut with [`TRUNCATION_NOTE`].
pub fn truncate_chars(s: &str, max: usize) -> (r: String)
    ensures
        r@ == truncated(s@, max as nat),
{
    let cs = chars_of(s);
    if cs.len() <= max {
        let r = string_of_range(&cs, 0, cs.len());
        assert(cs@.subrange(0, cs@.len() as int) =~= cs@);
        return r;
    }
    let mut out = string_of_range(&cs, 0, max);
    assert(cs@.subrange(0, max as int) =~= cs@.take(max as int));
    push_str(&mut out, TRUNCATION_NOTE);
    out
}

/// [`encode_bounded_with`] with the truncation note.
pub fn encode_bounded(s: &str, max_encoded: usize) -> (r: String)
    ensures
        r@ == bounded_encoding(s@, max_encoded as int, TRUNCATION_NOTE@),
{
    encode_bounded_with(s, max_encoded, TRUNCATION_NOTE)
}

/// [`encode_bounded_with`] with no note, for fields such as a subject line.
pub fn encode_capped(s: &str, max_encoded: usize) -> (r: String)
    ensures
        r@ == bounded_encoding(s@, max_encoded as int, Seq::empty()),
{
    proof {
        reveal_strlit("");
    }
    encode_bounded_with(s, max_encoded, "")
}

/// The GitHub "new issue" URL for `title` and `body`.
pub open spec fn github_url_spec(title: Seq<char>, body: Seq<char>) -> Seq<char> {
    GITHUB_NEW_ISSUE@ + "?labels=bug&title="@ + percent_encode(truncated(title, 200)) + "&body="@
        + bounded_encoding(body, MAX_GITHUB_ENCODED as int, TRUNCATION_NOTE@)
}

/// Everything of a `mailto:` URL before the body.
pub open spec fn mailto_head(subject: Seq<char>) -> Seq<char> {
    "mailto:"@ + REPORT_EMAIL@ + "?subject="@ + bounded_encoding(
        truncated(subject, 200),
        MAX_MAILTO_SUBJECT_ENCODED as int,
        Seq::empty(),
    ) + "&body="@
}

/// The `mailto:` URL for `subject` and `body`: the body gets whatever the head leaves of
/// [`MAX_MAILTO_URL`].
pub open spec fn mailto_url_spec(subject: Seq<char>, body: Seq<char>) -> Seq<char> {
    mailto_head(subject) + bounded_encoding(
        body,
        saturating_sub(MAX_MAILTO_URL as int, mailto_head(subject).len() as int),
        TRUNCATION_NOTE@,
    )
}

/// The Gmail compose URL for `subject` and `body`.
pub open spec fn gmail_url_spec(subject: Seq<char>, body: Seq<char>) -> Seq<char> {
    GMAIL_COMPOSE@ + "&to="@ + percent_encode(REPORT_EMAIL@) + "&su="@ + percent_encode(
        truncated(subject, 200),
    ) + "&body="@ + bounded_encoding(body, MAX_GMAIL_ENCODED as int, TRUNCATION_NOTE@)
}

/// A pre-filled GitHub "new issue" URL (the user submits it while signed in).
pub fn github_url(title: &str, body: &str) -> (r: String)
    ensures
        r@ == github_url_spec(title@, body@),
{
    let mut url = String::new();
    push_str(&mut url, GITHUB_NEW_ISSUE);
    push_str(&mut url, "?labels=bug&title=");
    let t = truncate_chars(title, 200);
    let te = urlencode(t.as_str());
    push_str(&mut url, te.as_str());
    push_str(&mut url, "&body=");
    let be = encode_bounded(body, MAX_GITHUB_ENCODED);
    push_str(&mut url, be.as_str());
    url
}

/// A pre-filled `mailto:` URL (the user's own mail client sends it). The bound is on the
/// whole URL, so a long or multibyte subject is charged against the body's budget.
pub fn mailto_url(subject: &str, body: &str) -> (r: String)
    ensures
        r@ == mailto_url_spec(subject@, body@),
{
    let t = truncate_chars(subject, 200);
    let se = encode_capped(t.as_str(), MAX_MAILTO_SUBJECT_ENCODED);
    proof {
        reveal_strlit("");
        lemma_percent_encode_shape(Seq::<char>::empty());
        lemma_bounded_encoding_shape(t@, MAX_MAILTO_SUBJECT_ENCODED as int, Seq::empty());
    }
    let se_len = ascii_len(&se);
    let mut head = String::new();
    push_str(&mut head, "mailto:");
    push_str(&mut head, REPORT_EMAIL);
    push_str(&mut head, "?subject=");
    push_str(&mut head, se.as_str());
    push_str(&mut head, "&body=");
    proof {
        reveal_strlit("mailto:");
        reveal_strlit("mythodikalone@gmail.com");
        reveal_strlit("?subject=");
        reveal_strlit("&body=");
    }
    let head_len = 7 + 23 + 9 + se_len + 6;
    assert(head_len == head@.len());
    let budget = if head_len < MAX_MAILTO_URL {
        MAX_MAILTO_URL - head_len
    } else {
        0
    };
    let be = encode_bounded(body, budget);
    let mut url = head;
    push_str(&mut url, be.as_str());
    url
}

/// A pre-filled Gmail web-compose URL.
pub fn gmail_url(subject: &str, body: &str) -> (r: String)
    ensures
        r@ == gmail_url_spec(subject@, body@),
{
    let mut url = String::new();
    push_str(&mut url, GMAIL_COMPOSE);
    push_str(&mut url, "&to=");
    let to = urlencode(REPORT_EMAIL);
    push_str(&mut url, to.as_str());
    push_str(&mut url, "&su=");
    let t = truncate_chars(subject, 200);
    let se = urlencode(t.as_str());
    push_str(&mut url, se.as_str());
    push_str(&mut url, "&body=");
    let be = encode_bounded(body, MAX_GMAIL_ENCODED);
    push_str(&mut url, be.as_str());
    url
}


proof fn lemma_note_len()
    ensures
        TRUNCATION_NOTE@.len() == 52,
        percent_encode(TRUNCATION_NOTE@).len() <= 624,
{
    reveal_strlit("\n… (truncated — use “Copy report” for the full text)");
    lemma_percent_encode_shape(TRUNCATION_NOTE@);
}

proof fn lemma_truncated_len(s: Seq<char>, max: nat)
    ensures
        truncated(s, max).len() <= max + 52,
{
    lemma_note_len();
}

/// Law: the encoded body of a bounded URL is empty exactly when the body is.
pub proof fn lemma_bounded_body_nonempty(body: Seq<char>, max: int)
    requires
        percent_encode(TRUNCATION_NOTE@).len() <= max,
    ensures
        bounded_encoding(body, max, TRUNCATION_NOTE@).len() == 0 <==> body.len() == 0,
{
    lemma_note_len();
    lemma_percent_encode_shape(body);
    lemma_percent_encode_shape(TRUNCATION_NOTE@);
    if body.len() == 0 {
        assert(body =~= Seq::<char>::empty());
        assert(encode_utf8(Seq::<char>::empty()) =~= Seq::<u8>::empty());
    }
}

/// Law: a `mailto:` URL never exceeds [`MAX_MAILTO_URL`] characters, whatever the subject and
/// body; it always addresses the report inbox; and its body is empty only when the report
/// body is.
pub proof fn lemma_mailto_url_bounded(subject: Seq<char>, body: Seq<char>)
    ensures
        mailto_url_spec(subject, body).len() <= MAX_MAILTO_URL,
        mailto_head(subject).len() <= 345,
        mailto_url_spec(subject, body).take(30) == "mailto:"@ + REPORT_EMAIL@,
        mailto_url_spec(subject, body).len() == mailto_head(subject).len() ==> body.len() == 0,
        is_ascii_chars(mailto_url_spec(subject, body).skip(39)),
{
    reveal_strlit("mailto:");
    reveal_strlit("mythodikalone@gmail.com");
    reveal_strlit("?subject=");
    reveal_strlit("&body=");
    reveal_strlit("");
    lemma_note_len();
    let t = truncated(subject, 200);
    lemma_percent_encode_shape(Seq::<char>::empty());
    lemma_bounded_encoding_shape(t, MAX_MAILTO_SUBJECT_ENCODED as int, Seq::empty());
    let head = mailto_head(subject);
    let budget = saturating_sub(MAX_MAILTO_URL as int, head.len() as int);
    assert(budget >= 1555);
    lemma_bounded_encoding_shape(body, budget, TRUNCATION_NOTE@);
    lemma_bounded_body_nonempty(body, budget);
    let url = mailto_url_spec(subject, body);
    assert(url.take(30) =~= "mailto:"@ + REPORT_EMAIL@);
    let se = bounded_encoding(t, MAX_MAILTO_SUBJECT_ENCODED as int, Seq::empty());
    let be = bounded_encoding(body, budget, TRUNCATION_NOTE@);
    assert(is_ascii_chars("&body="@));
    assert(url.skip(39) =~= se + "&body="@ + be);
    is_ascii_chars_concat(se + "&body="@, se, "&body="@);
    is_ascii_chars_concat(se + "&body="@ + be, se + "&body="@, be);
}

/// Law: a GitHub issue URL stays within 9108 characters whatever the title and body.
pub proof fn lemma_github_url_bounded(title: Seq<char>, body: Seq<char>)
    ensures
        github_url_spec(title, body).len() <= 9108,
{
    reveal_strlit("https://github.com/MikesRuthless12/freally-player/issues/new");
    reveal_strlit("?labels=bug&title=");
    reveal_strlit("&body=");
    lemma_note_len();
    lemma_truncated_len(title, 200);
    lemma_percent_encode_shape(truncated(title, 200));
    lemma_bounded_encoding_shape(body, MAX_GITHUB_ENCODED as int, TRUNCATION_NOTE@);
}

/// Law: a Gmail compose URL stays within 9400 characters whatever the subject and body.
pub proof fn lemma_gmail_url_bounded(subject: Seq<char>, body: Seq<char>)
    ensures
        gmail_url_spec(subject, body).len() <= 9400,
{
    reveal_strlit("https://mail.google.com/mail/?view=cm&fs=1");
    reveal_strlit("mythodikalone@gmail.com");
    reveal_strlit("&to=");
    reveal_strlit("&su=");
    reveal_strlit("&body=");
    lemma_note_len();
    lemma_percent_encode_shape(REPORT_EMAIL@);
    lemma_truncated_len(subject, 200);
    lemma_percent_encode_shape(truncated(subject, 200));
    lemma_bounded_encoding_shape(body, MAX_GMAIL_ENCODED as int, TRUNCATION_NOTE@);
}


/// The view of an optional string.
pub open spec fn opt_view(o: Option<&str>) -> Option<Seq<char>> {
    match o {
        Some(s) => Some(s@),
        None => None,
    }
}

/// The panic message a crash-report line carries, if it is a `Message: ` line.
pub open spec fn message_of(line: Seq<char>) -> Option<Seq<char>> {
    if occurs_at(line, 0, "Message: "@) {
        Some(line.skip("Message: "@.len() as int))
    } else {
        None
    }
}

/// The message of the first `Message: ` line among `ls`.
pub open spec fn first_message(ls: Seq<Seq<char>>) -> Option<Seq<char>>
    decreases ls.len(),
{
    if ls.len() == 0 {
        None
    } else if message_of(ls[0]) is Some {
        message_of(ls[0])
    } else {
        first_message(ls.drop_first())
    }
}

/// The first of `ls` that is not blank, trimmed.
pub open spec fn first_nonblank(ls: Seq<Seq<char>>) -> Option<Seq<char>>
    decreases ls.len(),
{
    if ls.len() == 0 {
        None
    } else if trim(ls[0]).len() > 0 {
        Some(trim(ls[0]))
    } else {
        first_nonblank(ls.drop_first())
    }
}

/// What the subject summarises before it is squeezed onto one line: the crash's panic
/// message if it has a non-blank one, else the first non-blank line of the description, else a
/// generic label.
pub open spec fn summary_source(crash: Option<Seq<char>>, description: Seq<char>) -> Seq<char> {
    let from_crash = match crash {
        Some(c) => first_message(lines(c)),
        None => None,
    };
    if from_crash is Some && trim(from_crash->0).len() > 0 {
        from_crash->0
    } else if first_nonblank(lines(description)) is Some {
        first_nonblank(lines(description))->0
    } else if crash is Some {
        "crash report"@
    } else {
        "bug report"@
    }
}

/// The one-line error summary: the source's words joined by single spaces, cut to 80
/// characters with an ellipsis.
pub open spec fn error_summary_spec(crash: Option<Seq<char>>, description: Seq<char>) -> Seq<
    char,
> {
    let one_line = collapse_ws(summary_source(crash, description));
    if one_line.len() > 80 {
        one_line.take(80).push('…')
    } else {
        one_line
    }
}

/// Law: a crash's panic message names the error. When the crash text has a `Message: ` line
/// whose message is not blank, the summary is that message squeezed onto one line (cut to 80
/// characters with an ellipsis), whatever the description says; otherwise the description's
/// first non-blank line is used, squeezed the same way.
pub proof fn lemma_crash_message_wins(crash: Option<Seq<char>>, description: Seq<char>, other: Seq<char>)
    ensures
        crash matches Some(c) ==> (first_message(lines(c)) matches Some(m) ==> (trim(m).len() > 0
            ==> {
            &&& error_summary_spec(crash, description) == error_summary_spec(crash, other)
            &&& collapse_ws(m).len() <= 80 ==> error_summary_spec(crash, description)
                == collapse_ws(m)
            &&& collapse_ws(m).len() > 80 ==> error_summary_spec(crash, description)
                == collapse_ws(m).take(80).push('…')
        })),
        (crash is None || (crash matches Some(c) && (first_message(lines(c)) is None || trim(
            first_message(lines(c))->0,
        ).len() == 0))) ==> (first_nonblank(lines(description)) matches Some(l) ==> (
        collapse_ws(l).len() <= 80 ==> error_summary_spec(crash, description) == collapse_ws(l))),
{
}

/// The subject line: `[<App>] <error summary>`.
pub open spec fn subject_spec(crash: Option<Seq<char>>, description: Seq<char>) -> Seq<char> {
    seq!['['] + APP_NAME@ + "] "@ + error_summary_spec(crash, description)
}

/// Where the message of the first `Message: ` line of `v` sits.
fn first_message_range(v: &Vec<char>, pat: &Vec<char>) -> (r: Option<(usize, usize)>)
    requires
        pat@ == "Message: "@,
    ensures
        match r {
            Some((a, b)) => a <= b <= v@.len() && first_message(lines(v@)) == Some(
                v@.subrange(a as int, b as int),
            ),
            None => first_message(lines(v@)) is None,
        },
{
    let mut i: usize = 0;
    assert(v@.skip(0) =~= v@);
    while i < v.len()
        invariant
            pat@ == "Message: "@,
            i <= v@.len(),
            first_message(lines(v@)) == first_message(lines(v@.skip(i as int))),
        decreases v@.len() - i,
    {
        let (e, next) = line_bounds(v, i);
        let ghost line = v@.subrange(i as int, e as int);
        let ghost ls = lines(v@.skip(i as int));
        assert(ls[0] == line);
        assert(ls.drop_first() =~= lines(v@.skip(next as int)));
        if e - i >= pat.len() && matches_at(v, i, pat) {
            assert(line.subrange(0, pat@.len() as int) =~= v@.subrange(
                i as int,
                i + pat@.len(),
            ));
            assert(line.skip(pat@.len() as int) =~= v@.subrange(i + pat@.len(), e as int));
            return Some((i + pat.len(), e));
        }
        assert(!occurs_at(line, 0, pat@)) by {
            if occurs_at(line, 0, pat@) {
                assert(line.subrange(0, pat@.len() as int) =~= v@.subrange(
                    i as int,
                    i + pat@.len(),
                ));
            }
        }
        i = next;
    }
    assert(v@.skip(i as int) =~= Seq::<char>::empty());
    None
}

/// Where the first non-blank line of `v`, trimmed, sits.
fn first_nonblank_range(v: &Vec<char>) -> (r: Option<(usize, usize)>)
    ensures
        match r {
            Some((a, b)) => a <= b <= v@.len() && first_nonblank(lines(v@)) == Some(
                v@.subrange(a as int, b as int),
            ),
            None => first_nonblank(lines(v@)) is None,
        },
{
    let mut i: usize = 0;
    assert(v@.skip(0) =~= v@);
    while i < v.len()
        invariant
            i <= v@.len(),
            first_nonblank(lines(v@)) == first_nonblank(lines(v@.skip(i as int))),
        decreases v@.len() - i,
    {
        let (e, next) = line_bounds(v, i);
        let ghost ls = lines(v@.skip(i as int));
        assert(ls[0] == v@.subrange(i as int, e as int));
        assert(ls.drop_first() =~= lines(v@.skip(next as int)));
        let (a, b) = trim_range(v, i, e);
        if a < b {
            return Some((a, b));
        }
        i = next;
    }
    assert(v@.skip(i as int) =~= Seq::<char>::empty());
    None
}

/// A short one-line summary of the error for the subject.
pub fn error_summary(crash: Option<&str>, description: &str) -> (r: String)
    ensures
        r@ == error_summary_spec(opt_view(crash), description@),
{
    let pat = chars_of("Message: ");
    let from_crash: Option<Vec<char>> = match crash {
        Some(c) => {
            let cv = chars_of(c);
            match first_message_range(&cv, &pat) {
                Some((a, b)) => Some(subvec(&cv, a, b)),
                None => None,
            }
        },
        None => None,
    };
    let kept: Option<Vec<char>> = match from_crash {
        Some(m) => {
            let (ta, tb) = trim_range(&m, 0, m.len());
            assert(m@.subrange(0, m@.len() as int) =~= m@);
            if ta < tb {
                Some(m)
            } else {
                None
            }
        },
        None => None,
    };
    let raw: Vec<char> = match kept {
        Some(m) => m,
        None => {
            let dv = chars_of(description);
            match first_nonblank_range(&dv) {
                Some((a, b)) => subvec(&dv, a, b),
                None => {
                    if crash.is_some() {
                        chars_of("crash report")
                    } else {
                        chars_of("bug report")
                    }
                },
            }
        },
    };
    assert(raw@ == summary_source(opt_view(crash), description@));
    let one = collapse_range(&raw, 0, raw.len());
    assert(raw@.subrange(0, raw@.len() as int) =~= raw@);
    if one.len() > 80 {
        let mut out = string_of_range(&one, 0, 80);
        push_char(&mut out, '…');
        assert(one@.subrange(0, 80) =~= one@.take(80));
        out
    } else {
        let out = string_of_range(&one, 0, one.len());
        assert(one@.subrange(0, one@.len() as int) =~= one@);
        out
    }
}

/// The subject line: which app, and what went wrong.
pub fn subject(crash: Option<&str>, description: &str) -> (r: String)
    ensures
        r@ == subject_spec(opt_view(crash), description@),
{
    let mut out = String::new();
    push_char(&mut out, '[');
    push_str(&mut out, APP_NAME);
    push_str(&mut out, "] ");
    let summary = error_summary(crash, description);
    push_str(&mut out, summary.as_str());
    out
}


/// How the report body is rendered; the content is the same either way.
#[derive(Debug, Clone, Copy, PartialEq, Eq)]
pub enum BodyStyle {
    /// GitHub renders it: `###` headings and a fenced diagnostics block.
    Markdown,
    /// Mail clients do not: plain headings, no fences.
    Plain,
}

/// The report body before scrubbing: the user's note (or a placeholder), the app's name, the
/// anonymous diagnostics and, when given, the crash excerpt, in the chosen syntax.
pub open spec fn body_text(
    description: Seq<char>,
    crash: Option<Seq<char>>,
    style: BodyStyle,
    diagnostics: Seq<char>,
) -> Seq<char> {
    let markdown = style == BodyStyle::Markdown;
    (if markdown {
        "### What happened\n"@
    } else {
        "WHAT HAPPENED\n"@
    }) + (if trim(description).len() == 0 {
        "(no description provided)"@
    } else {
        trim(description)
    }) + (if markdown {
        "\n\n### Anonymous diagnostics (no personal data)\n```\n"@
    } else {
        "\n\nANONYMOUS DIAGNOSTICS (no personal data)\n"@
    }) + "From: "@ + APP_NAME@ + "\n"@ + diagnostics + (match crash {
        Some(c) => "\n--- crash excerpt ---\n"@ + c,
        None => Seq::empty(),
    }) + (if markdown {
        "\n```\n"@
    } else {
        "\n"@
    })
}

/// Whether a name's UTF-8 form is at least three bytes long.
pub open spec fn long_enough_name(name: Seq<char>) -> bool {
    encode_utf8(name).len() >= 3
}

/// `text` with the home path replaced by `<home>` and then, when it is at least three bytes
/// long, the bare user name by `<user>`. Nothing is replaced without a non-empty home path.
pub open spec fn scrub_spec(text: Seq<char>, home: Option<Seq<char>>, user: Option<Seq<char>>) -> Seq<
    char,
> {
    if home is Some && home->0.len() > 0 {
        let once = replace_all(text, home->0, "<home>"@);
        if user is Some && long_enough_name(user->0) {
            replace_all(once, user->0, "<user>"@)
        } else {
            once
        }
    } else {
        text
    }
}

/// Whether `s` holds a path separator (`/` or a backslash).
pub open spec fn has_separator(s: Seq<char>) -> bool {
    exists|j: int| 0 <= j < s.len() && (s[j] == '/' || s[j] == '\\')
}

/// Law: a scrubbed text holds the home path nowhere, nor, when it was replaced, the user name.
/// The home path must hold no `<` and either hold a separator and no `>` (as a home path
/// does) or not begin with a character of the placeholders `<home>` and `<user>`; the user
/// name must hold no `<` and not begin with a character of `<user>`.
pub proof fn lemma_scrub_leaves_no_trace(text: Seq<char>, home: Seq<char>, user: Option<Seq<char>>)
    requires
        home.len() > 0,
        lacks(home, '<'),
        (has_separator(home) && lacks(home, '>')) || (lacks("<home>"@, home[0]) && lacks(
            "<user>"@,
            home[0],
        )),
    ensures
        !contains_seq(scrub_spec(text, Some(home), user), home),
        user matches Some(u) ==> (long_enough_name(u) && lacks(u, '<') && lacks("<user>"@, u[0])
            ==> !contains_seq(scrub_spec(text, Some(home), user), u)),
{
    reveal_strlit("<home>");
    reveal_strlit("<user>");
    if has_separator(home) && lacks(home, '>') {
        let j = choose|j: int| 0 <= j < home.len() && (home[j] == '/' || home[j] == '\\');
        lemma_starts_outside_by_ends("<home>"@, home, j);
        lemma_starts_outside_by_ends("<user>"@, home, j);
    } else {
        lemma_starts_outside_by_first("<home>"@, home);
        lemma_starts_outside_by_first("<user>"@, home);
    }
    let once = replace_all(text, home, "<home>"@);
    lemma_replace_all_removes(text, home, "<home>"@);
    if user is Some && long_enough_name(user->0) {
        let u = user->0;
        lemma_replace_all_keeps_absent(once, u, "<user>"@, home);
        if lacks(u, '<') && lacks("<user>"@, u[0]) {
            if u.len() == 0 {
                assert(u =~= Seq::<char>::empty());
                assert(encode_utf8(Seq::<char>::empty()) =~= Seq::<u8>::empty());
            }
            lemma_starts_outside_by_first("<user>"@, u);
            lemma_replace_all_removes(once, u, "<user>"@);
        }
    }
}

/// Whether the UTF-8 form of `v` is at least three bytes long.
fn utf8_at_least_three(v: &Vec<char>) -> (b: bool)
    ensures
        b == long_enough_name(v@),
{
    let mut total: usize = 0;
    let mut i: usize = 0;
    while i < v.len()
        invariant
            i <= v@.len(),
            total == encode_utf8(v@.take(i as int)).len(),
            total < 3,
        decreases v@.len() - i,
    {
        let x = v[i] as u32;
        let w: usize = if x <= 0x7F {
            1
        } else if x <= 0x7FF {
            2
        } else if x <= 0xFFFF {
            3
        } else {
            4
        };
        proof {
            char_is_scalar(v@[i as int]);
            assert(v@.take(i + 1) =~= v@.take(i as int) + seq![v@[i as int]]);
            lemma_encode_utf8_concat(v@.take(i as int), seq![v@[i as int]]);
            assert(seq![v@[i as int]].drop_first() =~= Seq::<char>::empty());
            assert(encode_utf8(seq![v@[i as int]]) == encode_scalar(x) + encode_utf8(
                Seq::<char>::empty(),
            ));
            assert(encode_utf8(seq![v@[i as int]]).len() == w);
            assert(v@ =~= v@.take(i + 1) + v@.skip(i + 1));
            lemma_encode_utf8_concat(v@.take(i + 1), v@.skip(i + 1));
        }
        total = total + w;
        i = i + 1;
        if total >= 3 {
            return true;
        }
    }
    assert(v@.take(i as int) =~= v@);
    false
}

/// Redacts `home` and the bare `user` name from `text`, as [`scrub_spec`] says.
pub fn scrub_with(text: &str, home: Option<&str>, user: Option<&str>) -> (r: String)
    ensures
        r@ == scrub_spec(text@, opt_view(home), opt_view(user)),
{
    let tv = chars_of(text);
    match home {
        Some(h) => {
            let hv = chars_of(h);
            if hv.len() == 0 {
                return string_of_range(&tv, 0, tv.len());
            }
            let once = replace_in(&tv, &hv, &chars_of("<home>"));
            let result = match user {
                Some(u) => {
                    let uv = chars_of(u);
                    if utf8_at_least_three(&uv) {
                        replace_in(&once, &uv, &chars_of("<user>"))
                    } else {
                        once
                    }
                },
                None => once,
            };
            string_of_range(&result, 0, result.len())
        },
        None => string_of_range(&tv, 0, tv.len()),
    }
}

/// Whether `user` is the name that `scrub` redacts for `home`: none without a home; the
/// home's final component where that reads alike on every platform ([`final_file_name`]);
/// none for an empty home. Other homes follow the platform's path rules.
pub open spec fn user_fits_home(home: Option<Seq<char>>, user: Option<Seq<char>>) -> bool {
    match home {
        None => user is None,
        Some(h) => match final_file_name(h) {
            Some(n) => user == Some(n),
            None => h.len() == 0 ==> user is None,
        },
    }
}

/// Redacts the OS user's home path and user name from `text`, so a report carries no
/// personal identifiers. Which home and name apply is the environment's answer.
pub fn scrub(text: &str) -> (r: String)
    ensures
        exists|home: Option<Seq<char>>, user: Option<Seq<char>>| user_fits_home(home, user) &&
            r@ == scrub_spec(text@, home, user),
{
    let home: Option<String> = match user_dirs() {
        Some(dirs) => Some(home_dir_of(&dirs)),
        None => None,
    };
    let user: Option<String> = match &home {
        Some(h) => path_file_name(h.as_str()),
        None => None,
    };
    let hs: Option<&str> = match &home {
        Some(h) => Some(h.as_str()),
        None => None,
    };
    let us: Option<&str> = match &user {
        Some(u) => Some(u.as_str()),
        None => None,
    };
    let r = scrub_with(text, hs, us);
    assert(user_fits_home(opt_view(hs), opt_view(us)));
    assert(r@ == scrub_spec(text@, opt_view(hs), opt_view(us)));
    r
}

/// Builds the report body from the user's note, the anonymous `diagnostics` and, when given,
/// the crash excerpt; the whole body is scrubbed once more.
pub fn compose_body(description: &str, crash: Option<&str>, style: BodyStyle, diagnostics: &str) -> (r:
    String)
    ensures
        exists|home: Option<Seq<char>>, user: Option<Seq<char>>| user_fits_home(home, user) &&
            r@ == scrub_spec(
                body_text(description@, opt_view(crash), style, diagnostics@),
                home,
                user,
            ),
{
    let markdown = match style {
        BodyStyle::Markdown => true,
        BodyStyle::Plain => false,
    };
    let mut body = String::new();
    push_str(
        &mut body,
        if markdown {
            "### What happened\n"
        } else {
            "WHAT HAPPENED\n"
        },
    );
    let dv = chars_of(description);
    let (a, b) = trim_range(&dv, 0, dv.len());
    assert(dv@.subrange(0, dv@.len() as int) =~= dv@);
    if a == b {
        push_str(&mut body, "(no description provided)");
    } else {
        let trimmed = string_of_range(&dv, a, b);
        push_str(&mut body, trimmed.as_str());
    }
    push_str(
        &mut body,
        if markdown {
            "\n\n### Anonymous diagnostics (no personal data)\n```\n"
        } else {
            "\n\nANONYMOUS DIAGNOSTICS (no personal data)\n"
        },
    );
    push_str(&mut body, "From: ");
    push_str(&mut body, APP_NAME);
    push_str(&mut body, "\n");
    push_str(&mut body, diagnostics);
    match crash {
        Some(c) => {
            push_str(&mut body, "\n--- crash excerpt ---\n");
            push_str(&mut body, c);
        },
        None => {},
    }
    push_str(
        &mut body,
        if markdown {
            "\n```\n"
        } else {
            "\n"
        },
    );
    assert(body@ =~= body_text(description@, opt_view(crash), style, diagnostics@));
    scrub(body.as_str())
}

/// Why a URL may not be handed to the OS, if it may not: only `https://` and `mailto:` URLs
/// without control characters are opened.
pub open spec fn url_refusal(url: Seq<char>) -> Option<Seq<char>> {
    if !(occurs_at(url, 0, "https://"@) || occurs_at(url, 0, "mailto:"@)) {
        Some("refusing to open a non-https/mailto URL"@)
    } else if exists|i: int| 0 <= i < url.len() && is_cc(url[i]) {
        Some("invalid URL"@)
    } else {
        None
    }
}

/// Vets a URL before it is opened with the OS handler.
pub fn vet_url(url: &str) -> (r: Result<(), String>)
    ensures
        match url_refusal(url@) {
            Some(reason) => r is Err && r->Err_0@ == reason,
            None => r is Ok,
        },
{
    let v = chars_of(url);
    let https = chars_of("https://");
    let mailto = chars_of("mailto:");
    if !(matches_at(&v, 0, &https) || matches_at(&v, 0, &mailto)) {
        let mut reason = String::new();
        push_str(&mut reason, "refusing to open a non-https/mailto URL");
        assert(reason@ =~= "refusing to open a non-https/mailto URL"@);
        return Err(reason);
    }
    let mut i: usize = 0;
    while i < v.len()
        invariant
            i <= v@.len(),
            v@ == url@,
            occurs_at(url@, 0, "https://"@) || occurs_at(url@, 0, "mailto:"@),
            forall|k: int| 0 <= k < i ==> !is_cc(v@[k]),
        decreases v@.len() - i,
    {
        if is_control(v[i]) {
            assert(is_cc(url@[i as int]));
            let mut reason = String::new();
            push_str(&mut reason, "invalid URL");
            assert(reason@ =~= "invalid URL"@);
            return Err(reason);
        }
        i = i + 1;
    }
    Ok(())
}

/// The report as a GitHub issue URL, with a Markdown body.
fn github_report(subj: &String, description: &str, crash: Option<&str>, diagnostics: &str) -> (r:
    String)
    ensures
        exists|home: Option<Seq<char>>, user: Option<Seq<char>>| user_fits_home(home, user) &&
            r@ == github_url_spec(
                subj@,
                scrub_spec(
                    body_text(description@, opt_view(crash), BodyStyle::Markdown, diagnostics@),
                    home,
                    user,
                ),
            ),
{
    let body = compose_body(description, crash, BodyStyle::Markdown, diagnostics);
    let ghost (h, u) = choose|h: Option<Seq<char>>, u: Option<Seq<char>>|
        body@ == scrub_spec(
            body_text(description@, opt_view(crash), BodyStyle::Markdown, diagnostics@),
            h,
            u,
        );
    let url = github_url(subj.as_str(), body.as_str());
    assert(url@ == github_url_spec(
        subj@,
        scrub_spec(
            body_text(description@, opt_view(crash), BodyStyle::Markdown, diagnostics@),
            h,
            u,
        ),
    ));
    url
}

/// The report as a Gmail compose URL, with a plain body.
fn gmail_report(subj: &String, description: &str, crash: Option<&str>, diagnostics: &str) -> (r:
    String)
    ensures
        exists|home: Option<Seq<char>>, user: Option<Seq<char>>| user_fits_home(home, user) &&
            r@ == gmail_url_spec(
                subj@,
                scrub_spec(
                    body_text(description@, opt_view(crash), BodyStyle::Plain, diagnostics@),
                    home,
                    user,
                ),
            ),
{
    let body = compose_body(description, crash, BodyStyle::Plain, diagnostics);
    let ghost (h, u) = choose|h: Option<Seq<char>>, u: Option<Seq<char>>|
        body@ == scrub_spec(
            body_text(description@, opt_view(crash), BodyStyle::Plain, diagnostics@),
            h,
            u,
        );
    let url = gmail_url(subj.as_str(), body.as_str());
    assert(url@ == gmail_url_spec(
        subj@,
        scrub_spec(
            body_text(description@, opt_view(crash), BodyStyle::Plain, diagnostics@),
            h,
            u,
        ),
    ));
    url
}

/// The report as a `mailto:` URL, with a plain body.
fn email_report(subj: &String, description: &str, crash: Option<&str>, diagnostics: &str) -> (r:
    String)
    ensures
        exists|home: Option<Seq<char>>, user: Option<Seq<char>>| user_fits_home(home, user) &&
            r@ == mailto_url_spec(
                subj@,
                scrub_spec(
                    body_text(description@, opt_view(crash), BodyStyle::Plain, diagnostics@),
                    home,
                    user,
                ),
            ),
{
    let body = compose_body(description, crash, BodyStyle::Plain, diagnostics);
    let ghost (h, u) = choose|h: Option<Seq<char>>, u: Option<Seq<char>>|
        body@ == scrub_spec(
            body_text(description@, opt_view(crash), BodyStyle::Plain, diagnostics@),
            h,
            u,
        );
    let url = mailto_url(subj.as_str(), body.as_str());
    assert(url@ == mailto_url_spec(
        subj@,
        scrub_spec(
            body_text(description@, opt_view(crash), BodyStyle::Plain, diagnostics@),
            h,
            u,
        ),
    ));
    url
}

/// The URL a report goes out through: a GitHub issue (Markdown body), a Gmail draft or a
/// `mailto:` draft (plain bodies), each with the subject line for the crash and description.
/// Any other target is refused by name.
pub fn submit_url(target: &str, description: &str, crash: Option<&str>, diagnostics: &str) -> (r:
    Result<String, String>)
    ensures
        target@ == "github"@ ==> r is Ok && exists|home: Option<Seq<char>>, user: Option<Seq<char>>| user_fits_home(home, user) &&
            r->Ok_0@ == github_url_spec(
                subject_spec(opt_view(crash), description@),
                scrub_spec(body_text(description@, opt_view(crash), BodyStyle::Markdown, diagnostics@), home, user),
            ),
        target@ == "gmail"@ ==> r is Ok && exists|home: Option<Seq<char>>, user: Option<Seq<char>>| user_fits_home(home, user) &&
            r->Ok_0@ == gmail_url_spec(
                subject_spec(opt_view(crash), description@),
                scrub_spec(body_text(description@, opt_view(crash), BodyStyle::Plain, diagnostics@), home, user),
            ),
        target@ == "email"@ ==> r is Ok && exists|home: Option<Seq<char>>, user: Option<Seq<char>>| user_fits_home(home, user) &&
            r->Ok_0@ == mailto_url_spec(
                subject_spec(opt_view(crash), description@),
                scrub_spec(body_text(description@, opt_view(crash), BodyStyle::Plain, diagnostics@), home, user),
            ),
        !(target@ == "github"@ || target@ == "gmail"@ || target@ == "email"@) ==> r is Err
            && r->Err_0@ == "unknown report target: "@ + target@,
{
    proof {
        reveal_strlit("github");
        reveal_strlit("gmail");
        reveal_strlit("email");
        assert("gmail"@[0] != "email"@[0]);
        assert("gmail"@ != "email"@);
        assert("github"@.len() != "gmail"@.len());
        assert("github"@ != "gmail"@);
        assert("github"@.len() != "email"@.len());
        assert("github"@ != "email"@);
    }
    let subj = subject(crash, description);
    if same_text(target, "github") {
        let url = github_report(&subj, description, crash, diagnostics);
        let ghost (h, u) = choose|h: Option<Seq<char>>, u: Option<Seq<char>>|
            url@ == github_url_spec(
                subj@,
                scrub_spec(
                    body_text(description@, opt_view(crash), BodyStyle::Markdown, diagnostics@),
                    h,
                    u,
                ),
            );
        assert(url@ == github_url_spec(
            subject_spec(opt_view(crash), description@),
            scrub_spec(
                body_text(description@, opt_view(crash), BodyStyle::Markdown, diagnostics@),
                h,
                u,
            ),
        ));
        Ok(url)
    } else if same_text(target, "gmail") {
        let url = gmail_report(&subj, description, crash, diagnostics);
        let ghost (h, u) = choose|h: Option<Seq<char>>, u: Option<Seq<char>>|
            url@ == gmail_url_spec(
                subj@,
                scrub_spec(
                    body_text(description@, opt_view(crash), BodyStyle::Plain, diagnostics@),
                    h,
                    u,
                ),
            );
        assert(url@ == gmail_url_spec(
            subject_spec(opt_view(crash), description@),
            scrub_spec(
                body_text(description@, opt_view(crash), BodyStyle::Plain, diagnostics@),
                h,
                u,
            ),
        ));
        Ok(url)
    } else if same_text(target, "email") {
        let url = email_report(&subj, description, crash, diagnostics);
        let ghost (h, u) = choose|h: Option<Seq<char>>, u: Option<Seq<char>>|
            url@ == mailto_url_spec(
                subj@,
                scrub_spec(
                    body_text(description@, opt_view(crash), BodyStyle::Plain, diagnostics@),
                    h,
                    u,
                ),
            );
        assert(url@ == mailto_url_spec(
            subject_spec(opt_view(crash), description@),
            scrub_spec(
                body_text(description@, opt_view(crash), BodyStyle::Plain, diagnostics@),
                h,
                u,
            ),
        ));
        Ok(url)
    } else {
        let mut reason = String::new();
        push_str(&mut reason, "unknown report target: ");
        push_str(&mut reason, target);
        Err(reason)
    }
}

/// The always-anonymous system lines of a report: the app and its version, and the OS family
/// and CPU architecture (`os`, `arch`). No personal data.
pub fn diagnostics_for(os: &str, arch: &str) -> (r: String)
    ensures
        r@ == "App: "@ + APP_NAME@ + " "@ + APP_VERSION@ + "\nOS: "@ + os@ + " / "@ + arch@ + "\n"@,
{
    let mut r = String::new();
    push_str(&mut r, "App: ");
    push_str(&mut r, APP_NAME);
    push_str(&mut r, " ");
    push_str(&mut r, APP_VERSION);
    push_str(&mut r, "\nOS: ");
    push_str(&mut r, os);
    push_str(&mut r, " / ");
    push_str(&mut r, arch);
    push_str(&mut r, "\n");
    r
}

/// What the "Report a bug" dialog shows: the anonymous system info, and any pending crash
/// report from the last run (already scrubbed). Nothing is sent here.
#[derive(Debug, Clone, PartialEq, Eq)]
pub struct BugReportContextDto {
    pub app_version: String,
    pub os: String,
    pub arch: String,
    pub diagnostics: String,
    /// The scrubbed crash text from the previous run, if the app crashed.
    pub pending_crash: Option<String>,
}

/// The report dialog's context on OS family `os` and architecture `arch`, with the pending
/// crash report, if any.
pub fn bug_report_context(os: &str, arch: &str, pending_crash: Option<String>) -> (c:
    BugReportContextDto)
    ensures
        c.app_version@ == APP_VERSION@,
        c.os@ == os@,
        c.arch@ == arch@,
        c.diagnostics@ == "App: "@ + APP_NAME@ + " "@ + APP_VERSION@ + "\nOS: "@ + os@ + " / "@
            + arch@ + "\n"@,
        c.pending_crash == pending_crash,
{
    let mut app_version = String::new();
    push_str(&mut app_version, APP_VERSION);
    let mut o = String::new();
    push_str(&mut o, os);
    let mut a = String::new();
    push_str(&mut a, arch);
    BugReportContextDto {
        app_version,
        os: o,
        arch: a,
        diagnostics: diagnostics_for(os, arch),
        pending_crash,
    }
}

/// A file found in the crash-report directory: its extension (when it has one that is valid
/// UTF-8) and its modification time in milliseconds since the epoch (0 when unreadable).
#[derive(Debug, Clone, PartialEq, Eq)]
pub struct CrashFile {
    pub extension: Option<String>,
    pub modified_ms: u128,
}

/// Whether `f` is a crash report: a `.txt` file.
pub open spec fn is_report(f: CrashFile) -> bool {
    f.extension matches Some(e) && e@ == "txt"@
}

/// Picks the newest crash report among `files`: the `.txt` file modified last, the first of
/// them when several share that time; `None` when there is no report.
pub fn newest_crash_report(files: &Vec<CrashFile>) -> (r: Option<usize>)
    ensures
        match r {
            Some(i) => i < files@.len() && is_report(files@[i as int]) && (forall|j: int|
                0 <= j < files@.len() && is_report(files@[j]) ==> files@[j].modified_ms
                    <= files@[i as int].modified_ms) && (forall|j: int|
                0 <= j < i && is_report(files@[j]) ==> files@[j].modified_ms
                    < files@[i as int].modified_ms),
            None => forall|j: int| 0 <= j < files@.len() ==> !is_report(files@[j]),
        },
{
    let mut newest: Option<usize> = None;
    let mut k: usize = 0;
    while k < files.len()
        invariant
            k <= files@.len(),
            match newest {
                Some(i) => i < k && is_report(files@[i as int]) && (forall|j: int|
                    0 <= j < k && is_report(files@[j]) ==> files@[j].modified_ms
                        <= files@[i as int].modified_ms) && (forall|j: int|
                    0 <= j < i && is_report(files@[j]) ==> files@[j].modified_ms
                        < files@[i as int].modified_ms),
                None => forall|j: int| 0 <= j < k ==> !is_report(files@[j]),
            },
        decreases files@.len() - k,
    {
        let report = match &files[k].extension {
            Some(e) => same_text(e.as_str(), "txt"),
            None => false,
        };
        if report {
            let newer = match newest {
                Some(i) => files[k].modified_ms > files[i].modified_ms,
                None => true,
            };
            if newer {
                newest = Some(k);
            }
        }
        k = k + 1;
    }
    newest
}

/// The name of the crash report written at `stamp_ms` (milliseconds since the epoch).
pub fn crash_file_name(stamp_ms: u128) -> (r: String)
    ensures
        r@ == "crash-"@ + decimal(stamp_ms as nat) + ".txt"@,
{
    let mut r = String::new();
    push_str(&mut r, "crash-");
    push_decimal(&mut r, stamp_ms);
    push_str(&mut r, ".txt");
    r
}

/// A crash report as written to disk: when it happened, on the user's clock (`local`) and in
/// UTC (`utc`), then the scrubbed report.
pub fn stamped_crash(local: &str, utc: &str, scrubbed: &str) -> (r: String)
    ensures
        r@ == "Crashed: "@ + local@ + " (UTC "@ + utc@ + ")\n"@ + scrubbed@,
{
    let mut r = String::new();
    push_str(&mut r, "Crashed: ");
    push_str(&mut r, local);
    push_str(&mut r, " (UTC ");
    push_str(&mut r, utc);
    push_str(&mut r, ")\n");
    push_str(&mut r, scrubbed);
    r
}

/// The raw text of a panic report: where it happened (`file:line`, or "unknown"), its message
/// (or "(no message)"), and the backtrace.
pub open spec fn panic_report_spec(
    location: Option<(Seq<char>, u32)>,
    message: Option<Seq<char>>,
    backtrace: Seq<char>,
) -> Seq<char> {
    "Panic at "@ + match location {
        Some((file, line)) => file + ":"@ + decimal(line as nat),
        None => "unknown"@,
    } + "\nMessage: "@ + match message {
        Some(m) => m,
        None => "(no message)"@,
    } + "\n\nBacktrace:\n"@ + backtrace + "\n"@
}

/// The raw text of a panic report, before it is scrubbed.
pub fn panic_report(location: Option<(&str, u32)>, message: Option<&str>, backtrace: &str) -> (r:
    String)
    ensures
        r@ == panic_report_spec(
            match location {
                Some((f, l)) => Some((f@, l)),
                None => None,
            },
            opt_view(message),
            backtrace@,
        ),
{
    let mut r = String::new();
    push_str(&mut r, "Panic at ");
    match location {
        Some((file, line)) => {
            push_str(&mut r, file);
            push_str(&mut r, ":");
            push_decimal(&mut r, line as u128);
        },
        None => push_str(&mut r, "unknown"),
    }
    push_str(&mut r, "\nMessage: ");
    match message {
        Some(m) => push_str(&mut r, m),
        None => push_str(&mut r, "(no message)"),
    }
    push_str(&mut r, "\n\nBacktrace:\n");
    push_str(&mut r, backtrace);
    push_str(&mut r, "\n");
    r
}

/// The report the `--test-crash` drill writes.
pub const TEST_CRASH_REPORT: &'static str =
    "Panic at src/testcrash.rs:1\nMessage: TEST CRASH — triggered by --test-crash; no real fault occurred.\n\nBacktrace:\n(test)\n";

/// How long the crash-notice helper sleeps between looks for the crashed process, in
/// milliseconds.
pub const EXIT_WAIT_MS: u64 = 250;

/// How many times the helper looks before relaunching anyway (at most ten seconds).
pub const EXIT_WAIT_TRIES: u32 = 40;

/// Whether the helper keeps waiting for the crashed process after `tries` looks, the last of
/// which found it `alive`: only while it is still there and the tries are not used up.
pub fn keep_waiting(tries: u32, alive: bool) -> (b: bool)
    ensures
        b == (alive && tries < EXIT_WAIT_TRIES),
{
    alive && tries < EXIT_WAIT_TRIES
}

/// How long the helper waits when it has no pid to watch, in milliseconds.
pub fn blind_wait_ms() -> (n: u64)
    ensures
        n == EXIT_WAIT_MS * 8,
{
    EXIT_WAIT_MS * 8
}

} // verus!
