//! The decisions behind the UI's commands: which media targets are refused and why, how far
//! the recently-watched list reaches, what a toggle does, and the opt-in OpenSubtitles
//! session (its configuration checks, the search query, the in-memory login token).
use vstd::prelude::*;

use crate::bugreport::APP_VERSION;
use crate::host::{path_exists, path_is_file};
use crate::player::Status;
use crate::subtitles::LoadedSubtitle;
use crate::text::{contains_seq, contains_text, is_blank, push_str, trim, trimmed};

verus! {

broadcast use vstd::string::group_string_axioms;

/// The most recently-watched items the UI may ask for at once.
pub const MAX_RECENT: usize = 50;

/// Whether `target` looks like a network address rather than a local path.
pub open spec fn is_url(target: Seq<char>) -> bool {
    contains_seq(target, "://"@)
}

/// Does this look like a network target rather than a local path?
pub fn looks_like_url(target: &str) -> (b: bool)
    ensures
        b == is_url(target@),
{
    contains_text(target, "://")
}

/// Why a media target is refused, given whether something exists at it on disk and whether
/// that is a regular file; `None` when it may be opened. A URL is never checked on disk.
pub open spec fn target_refusal(target: Seq<char>, exists: bool, is_file: bool) -> Option<Seq<char>> {
    if trim(target).len() == 0 {
        Some("no media path was given"@)
    } else if is_url(target) {
        None
    } else if !exists {
        Some("no such file: "@ + target)
    } else if !is_file {
        Some("not a file: "@ + target)
    } else {
        None
    }
}

/// Whether `r` reports `refusal`: `Ok` when there is none, the message otherwise.
pub open spec fn reports(r: Result<(), String>, refusal: Option<Seq<char>>) -> bool {
    match refusal {
        None => r is Ok,
        Some(m) => r matches Err(e) && e@ == m,
    }
}

/// Refuses a media target the UI has no business asking for, given what the disk says about
/// it: `exists` and `is_file` are only consulted for a local path.
pub fn check_target(target: &str, exists: bool, is_file: bool) -> (r: Result<(), String>)
    ensures
        reports(r, target_refusal(target@, exists, is_file)),
{
    let mut m = String::new();
    if is_blank(target) {
        push_str(&mut m, "no media path was given");
        return Err(m);
    }
    if looks_like_url(target) {
        return Ok(());
    }
    if !exists {
        push_str(&mut m, "no such file: ");
        push_str(&mut m, target);
        return Err(m);
    }
    if !is_file {
        push_str(&mut m, "not a file: ");
        push_str(&mut m, target);
        return Err(m);
    }
    Ok(())
}

/// Refuses a media target before it reaches a backend: a blank one, a local path with nothing
/// on disk, or one that is not a regular file. What is on disk is asked only for a local path.
pub fn validate_target(target: &str) -> (r: Result<(), String>)
    ensures
        exists|exists: bool, is_file: bool| reports(r, target_refusal(target@, exists, is_file)),
        trim(target@).len() == 0 ==> reports(r, Some("no media path was given"@)),
        trim(target@).len() > 0 && is_url(target@) ==> r is Ok,
{
    if is_blank(target) || looks_like_url(target) {
        let r = check_target(target, true, true);
        assert(reports(r, target_refusal(target@, true, true)));
        return r;
    }
    let exists = path_exists(target);
    let is_file = if exists {
        path_is_file(target)
    } else {
        false
    };
    let r = check_target(target, exists, is_file);
    assert(reports(r, target_refusal(target@, exists, is_file)));
    r
}

/// The number of recently-watched items served for a request of `limit`: at most
/// [`MAX_RECENT`], so a bad request can never make the store walk itself pathologically.
pub fn recent_limit(limit: usize) -> (n: usize)
    ensures
        n == if limit < MAX_RECENT {
            limit
        } else {
            MAX_RECENT
        },
{
    if limit < MAX_RECENT {
        limit
    } else {
        MAX_RECENT
    }
}

/// Refuses a blank snapshot path.
pub fn check_snapshot_path(path: &str) -> (r: Result<(), String>)
    ensures
        reports(
            r,
            if trim(path@).len() == 0 {
                Some("no snapshot path was given"@)
            } else {
                None
            },
        ),
{
    if is_blank(path) {
        let mut m = String::new();
        push_str(&mut m, "no snapshot path was given");
        Err(m)
    } else {
        Ok(())
    }
}

/// A transport command.
#[derive(Debug, Clone, Copy, PartialEq, Eq, Structural)]
pub enum Transport {
    Play,
    Pause,
}

/// What Space and the OS play/pause key do: pause while playing, play otherwise.
pub fn toggle_action(status: Status) -> (t: Transport)
    ensures
        t == if status == Status::Playing {
            Transport::Pause
        } else {
            Transport::Play
        },
{
    match status {
        Status::Playing => Transport::Pause,
        _ => Transport::Play,
    }
}

/// The User-Agent the OpenSubtitles API requires, naming the app and its version.
pub fn user_agent() -> (r: String)
    ensures
        r@ == "Freally Player v"@ + APP_VERSION@,
{
    let mut r = String::new();
    push_str(&mut r, "Freally Player v");
    push_str(&mut r, APP_VERSION);
    r
}

/// Why the stored OpenSubtitles configuration cannot make a client, if it cannot.
pub open spec fn client_refusal(enabled: bool, api_key: Option<Seq<char>>) -> Option<Seq<char>> {
    if !enabled {
        Some("online subtitle fetch is turned off"@)
    } else if api_key is None || trim(api_key->0).len() == 0 {
        Some("no OpenSubtitles API key is set — add yours in Settings"@)
    } else {
        None
    }
}

/// The API key to make a client with, refusing clearly when online fetch is off or has no key
/// rather than silently doing nothing.
pub fn client_key(enabled: bool, api_key: Option<String>) -> (r: Result<String, String>)
    ensures
        match client_refusal(
            enabled,
            match api_key {
                Some(k) => Some(k@),
                None => None,
            },
        ) {
            Some(m) => r matches Err(e) && e@ == m,
            None => r == Ok::<String, String>(api_key->0),
        },
{
    let mut m = String::new();
    if !enabled {
        push_str(&mut m, "online subtitle fetch is turned off");
        return Err(m);
    }
    match api_key {
        Some(k) => {
            if is_blank(k.as_str()) {
                push_str(&mut m, "no OpenSubtitles API key is set — add yours in Settings");
                Err(m)
            } else {
                Ok(k)
            }
        },
        None => {
            push_str(&mut m, "no OpenSubtitles API key is set — add yours in Settings");
            Err(m)
        },
    }
}

/// The query to search for: `query` trimmed, refused when that leaves nothing.
pub fn search_query(query: &str) -> (r: Result<String, String>)
    ensures
        trim(query@).len() == 0 ==> (r matches Err(e) && e@ == "enter something to search for"@),
        trim(query@).len() > 0 ==> (r matches Ok(q) && q@ == trim(query@)),
{
    let q = trimmed(query);
    if q.as_str().unicode_len() == 0 {
        let mut m = String::new();
        push_str(&mut m, "enter something to search for");
        Err(m)
    } else {
        Ok(q)
    }
}

/// The in-memory OpenSubtitles session. The login token lives only here, for the session; it
/// is never written to disk, and neither is the password that obtains it.
#[derive(Debug)]
pub struct OpenSubtitlesState {
    token: Option<String>,
}

impl OpenSubtitlesState {
    /// The session's token, if signed in.
    pub closed spec fn token(&self) -> Option<Seq<char>> {
        match self.token {
            Some(t) => Some(t@),
            None => None,
        }
    }

    /// A session not signed in.
    pub fn new() -> (s: Self)
        ensures
            s.token() is None,
    {
        OpenSubtitlesState { token: None }
    }

    /// Records the token a login gave.
    pub fn sign_in(&mut self, token: String)
        ensures
            final(self).token() == Some(token@),
    {
        self.token = Some(token);
    }

    /// The token to authorise a download with; refused until signed in.
    pub fn session_token(&self) -> (r: Result<String, String>)
        ensures
            match self.token() {
                Some(t) => r matches Ok(s) && s@ == t,
                None => r matches Err(e) && e@ == "sign in to OpenSubtitles first"@,
            },
    {
        let mut s = String::new();
        match &self.token {
            Some(t) => {
                push_str(&mut s, t.as_str());
                Ok(s)
            },
            None => {
                push_str(&mut s, "sign in to OpenSubtitles first");
                Err(s)
            },
        }
    }
}

/// What loading an external or downloaded subtitle produced, for the UI to confirm honestly.
#[derive(Debug, Clone, PartialEq, Eq)]
pub struct LoadedSubtitleInfo {
    /// The new subtitle track's id.
    pub track_id: i64,
    /// The charset a text subtitle was transcoded from; `None` when it was already UTF-8 or is
    /// image-based.
    pub source_encoding: Option<String>,
    /// Whether the track is image-based (no style or font override applies).
    pub image_based: bool,
}

/// The report for a subtitle `loaded` and attached as track `track_id`.
pub fn loaded_subtitle_info(track_id: i64, loaded: LoadedSubtitle) -> (i: LoadedSubtitleInfo)
    ensures
        i == (LoadedSubtitleInfo {
            track_id,
            source_encoding: loaded.source_encoding,
            image_based: loaded.image_based,
        }),
{
    LoadedSubtitleInfo {
        track_id,
        source_encoding: loaded.source_encoding,
        image_based: loaded.image_based,
    }
}

/// How often the transport ticker samples the engine, in milliseconds: fine enough that a
/// seconds display never looks stuck.
pub const TICK_MS: u64 = 250;

/// Every this many ticks (about five seconds of running) the resume point and subtitle
/// timing are saved, so a crash loses very little.
pub const SAVE_EVERY_TICKS: u32 = 20;

/// One tick of the transport ticker, `ticks` ticks after the last save: whether to save now,
/// and the count the next tick starts from.
pub fn ticker_step(ticks: u32) -> (r: (bool, u32))
    ensures
        ticks + 1 >= SAVE_EVERY_TICKS ==> r == (true, 0u32),
        ticks + 1 < SAVE_EVERY_TICKS ==> r == (false, (ticks + 1) as u32),
        r.1 < SAVE_EVERY_TICKS,
{
    if ticks >= SAVE_EVERY_TICKS - 1 {
        (true, 0)
    } else {
        (false, ticks + 1)
    }
}

} // verus!
