//! The engine boundary's own vocabulary: transport status, the errors every engine reports
//! verbatim, the host window handle, the engine that refuses honestly when no backend exists,
//! display titles, and the small pieces of logic the video surface relies on.
use vstd::prelude::*;

use crate::host::{
    after_last_slash, extension_of, file_stem_of, final_file_name, is_plain_file_name,
    lemma_final_name_of_joined, lemma_name_is_stem_and_extension, lemma_stem_not_empty,
    path_file_stem,
};
use crate::commands::{is_url, looks_like_url};
use crate::text::{occurs_at, chars_of, push_str, same_text, string_of_range};

verus! {

broadcast use vstd::string::group_string_axioms;

/// Transport status.
#[derive(Debug, Clone, Copy, PartialEq, Eq)]
pub enum Status {
    /// Nothing is open.
    Idle,
    Playing,
    Paused,
}

impl Default for Status {
    fn default() -> (s: Self)
        ensures
            s == Status::Idle,
    {
        Status::Idle
    }
}

/// Why an engine operation failed. Every variant is reported to the user verbatim.
#[derive(Debug, Clone, PartialEq, Eq)]
pub enum EngineError {
    /// This build has no decode/render backend compiled in.
    NoBackend,
    /// A transport command arrived with nothing open.
    NothingOpen,
    /// The requested seek target is not a usable time.
    InvalidSeek,
    /// The backend refused, with its own reason.
    Backend(String),
}

/// The message shown for `e`.
pub open spec fn engine_error_message(e: EngineError) -> Seq<char> {
    match e {
        EngineError::NoBackend => "this build has no playback engine — it was built without the libmpv backend"@,
        EngineError::NothingOpen => "no media is open"@,
        EngineError::InvalidSeek => "seek target is not a valid position"@,
        EngineError::Backend(reason) => reason@,
    }
}

impl EngineError {
    /// The message shown to the user.
    pub fn message(&self) -> (m: String)
        ensures
            m@ == engine_error_message(*self),
    {
        let mut m = String::new();
        match self {
            EngineError::NoBackend => push_str(
                &mut m,
                "this build has no playback engine — it was built without the libmpv backend",
            ),
            EngineError::NothingOpen => push_str(&mut m, "no media is open"),
            EngineError::InvalidSeek => push_str(&mut m, "seek target is not a valid position"),
            EngineError::Backend(reason) => push_str(&mut m, reason.as_str()),
        }
        m
    }
}

/// A handle to the OS window the native video surface is hosted inside.
#[derive(Debug, Clone, Copy, PartialEq, Eq)]
pub enum HostWindow {
    /// A Win32 `HWND`.
    Win32(isize),
}

/// The engine used when no usable decode/render backend exists. It refuses every operation
/// rather than pretending to play something: with no reason, because no backend was built in;
/// with the backend's own reason, because one was built in but could not start.
#[derive(Debug)]
pub struct NullEngine {
    reason: Option<String>,
}

impl Default for NullEngine {
    fn default() -> (e: Self)
        ensures
            e.reason() is None,
    {
        NullEngine { reason: None }
    }
}

impl NullEngine {
    /// Why the backend could not start, when one was built in.
    pub closed spec fn reason(&self) -> Option<Seq<char>> {
        match self.reason {
            Some(r) => Some(r@),
            None => None,
        }
    }

    /// Whether `e` is the refusal this engine gives: its reason as a backend error, or
    /// [`EngineError::NoBackend`] when it has none.
    pub open spec fn is_refusal(&self, e: EngineError) -> bool {
        match self.reason() {
            Some(r) => e is Backend && e->Backend_0@ == r,
            None => e == EngineError::NoBackend,
        }
    }

    /// A backend was compiled in but could not start; `reason` is shown to the user.
    pub fn unavailable(reason: &str) -> (e: Self)
        ensures
            e.reason() == Some(reason@),
    {
        let mut r = String::new();
        push_str(&mut r, reason);
        NullEngine { reason: Some(r) }
    }
}


impl NullEngine {
    /// The refusal every operation gets.
    pub fn refusal(&self) -> (e: EngineError)
        ensures
            self.is_refusal(e),
    {
        match &self.reason {
            Some(reason) => {
                let mut r = String::new();
                push_str(&mut r, reason.as_str());
                EngineError::Backend(r)
            },
            None => EngineError::NoBackend,
        }
    }

    /// Refuses to open anything.
    pub fn open(&mut self, path: &str) -> (r: Result<(), EngineError>)
        ensures
            r is Err && old(self).is_refusal(r->Err_0),
            final(self).reason() == old(self).reason(),
    {
        Err(self.refusal())
    }

    /// Refuses to play.
    pub fn play(&mut self) -> (r: Result<(), EngineError>)
        ensures
            r is Err && old(self).is_refusal(r->Err_0),
            final(self).reason() == old(self).reason(),
    {
        Err(self.refusal())
    }

    /// Refuses to pause.
    pub fn pause(&mut self) -> (r: Result<(), EngineError>)
        ensures
            r is Err && old(self).is_refusal(r->Err_0),
            final(self).reason() == old(self).reason(),
    {
        Err(self.refusal())
    }

    /// Refuses to create a video surface.
    pub fn attach_surface(&mut self, host: HostWindow, width: u32, height: u32) -> (r: Result<
        (),
        EngineError,
    >)
        ensures
            r is Err && old(self).is_refusal(r->Err_0),
            final(self).reason() == old(self).reason(),
    {
        Err(self.refusal())
    }
}

/// The display title for `path` given its file stem: the stem when it is there and not
/// empty, else the whole path.
pub open spec fn title_spec(path: Seq<char>, stem: Option<Seq<char>>) -> Seq<char> {
    match stem {
        Some(s) => if s.len() > 0 {
            s
        } else {
            path
        },
        None => path,
    }
}

/// The display title from a path and its file stem.
pub fn title_from_stem(path: &str, stem: Option<&str>) -> (r: String)
    ensures
        r@ == title_spec(
            path@,
            match stem {
                Some(s) => Some(s@),
                None => None,
            },
        ),
{
    let mut r = String::new();
    match stem {
        Some(s) => {
            if chars_of(s).len() > 0 {
                push_str(&mut r, s);
            } else {
                push_str(&mut r, path);
            }
        },
        None => push_str(&mut r, path),
    }
    r
}

/// A display title for `path`: its file stem (as the platform's path rules find it), falling
/// back to the whole string. A URL has no usable stem and is shown whole. Where the final
/// component reads alike on every platform, the title is that name's stem; an empty path gives
/// an empty title.
pub fn title_for(path: &str) -> (r: String)
    ensures
        exists|stem: Option<Seq<char>>| r@ == title_spec(path@, stem),
        is_url(path@) ==> r@ == path@,
        !is_url(path@) ==> (final_file_name(path@) matches Some(n) ==> r@ == file_stem_of(n)),
        r@.len() == 0 <==> path@.len() == 0,
{
    if looks_like_url(path) {
        proof {
            reveal_strlit("://");
            let i = choose|i: int| occurs_at(path@, i, "://"@);
            assert(path@[i] == path@.subrange(i, i + 3)[0]);
        }
        return title_from_stem(path, None);
    }
    let stem = path_file_stem(path);
    let s: Option<&str> = match &stem {
        Some(t) => Some(t.as_str()),
        None => None,
    };
    let r = title_from_stem(path, s);
    let ghost sv = match s {
        Some(t) => Some(t@),
        None => None,
    };
    proof {
        if final_file_name(path@) is Some {
            lemma_stem_not_empty(after_last_slash(path@));
        }
    }
    assert(r@ == title_spec(path@, sv));
    r
}

/// The flag the engine's `sub-add` takes for an added subtitle file: "select" makes it the
/// primary track now, "auto" adds it without switching.
pub fn sub_add_flag(select: bool) -> (r: &'static str)
    ensures
        r@ == if select {
            "select"@
        } else {
            "auto"@
        },
{
    if select {
        "select"
    } else {
        "auto"
    }
}

/// Law: the title of a local file is its name's stem in whatever directory it sits, a drive
/// letter included (`C:/Videos/Arrival.2016.mkv` is titled `Arrival.2016`): the path's final
/// component is the name, its stem is not empty, and the name is that stem followed by `.` and
/// the extension when it has one. [`title_for`] gives that stem for such a path.
pub proof fn lemma_title_of_local_file(dir: Seq<char>, name: Seq<char>)
    requires
        is_plain_file_name(name),
        forall|i: int| 0 <= i < dir.len() ==> dir[i] != '\\',
        !(dir.len() >= 1 && dir[0] == '/' && (dir.len() == 1 || dir[1] == '/')),
    ensures
        final_file_name(dir + seq!['/'] + name) == Some(name),
        file_stem_of(name).len() > 0,
        match extension_of(name) {
            Some(e) => name == file_stem_of(name) + seq!['.'] + e,
            None => file_stem_of(name) == name,
        },
{
    lemma_final_name_of_joined(dir, name);
    lemma_name_is_stem_and_extension(name);
}

/// Whether `codec` names an image-based (bitmap) subtitle format.
pub open spec fn is_image_codec(codec: Seq<char>) -> bool {
    ||| codec == "hdmv_pgs_subtitle"@
    ||| codec == "pgssub"@
    ||| codec == "dvd_subtitle"@
    ||| codec == "dvdsub"@
    ||| codec == "dvb_subtitle"@
    ||| codec == "dvbsub"@
    ||| codec == "dvb_teletext"@
    ||| codec == "xsub"@
}

/// Is this subtitle codec image-based rather than text? Style overrides apply to text only.
pub fn is_image_subtitle(codec: Option<&str>) -> (b: bool)
    ensures
        b == match codec {
            Some(c) => is_image_codec(c@),
            None => false,
        },
{
    match codec {
        Some(c) => same_text(c, "hdmv_pgs_subtitle") || same_text(c, "pgssub") || same_text(
            c,
            "dvd_subtitle",
        ) || same_text(c, "dvdsub") || same_text(c, "dvb_subtitle") || same_text(c, "dvbsub")
            || same_text(c, "dvb_teletext") || same_text(c, "xsub"),
        None => false,
    }
}

/// `wglGetProcAddress` reports failure with the sentinels 0, 1, 2, 3 and -1, not just null.
pub fn is_invalid_proc(address: isize) -> (b: bool)
    ensures
        b == (-1 <= address <= 3),
{
    -1 <= address && address <= 3
}

/// A client size packed as `(width << 32) | height`, so both halves are stored together.
pub fn pack_size(width: u32, height: u32) -> (p: u64)
    ensures
        p == width as int * 0x1_0000_0000 + height as int,
{
    let p = ((width as u64) << 32u64) | (height as u64);
    assert(p == width as int * 0x1_0000_0000 + height as int) by (bit_vector)
        requires
            p == ((width as u64) << 32u64) | (height as u64),
    ;
    p
}

/// `x`, but at least 1, as the `i32` the renderer takes (a width past `i32::MAX` wraps, as the
/// cast does).
pub open spec fn at_least_one_i32(x: u32) -> i32 {
    (if x == 0 {
        1u32
    } else {
        x
    }) as i32
}

/// The packed size read back, a half of 0 read as 1: the renderer rejects a zero-sized
/// framebuffer, and a minimised window reports 0. A half past `i32::MAX` wraps, as the cast
/// does.
pub fn unpack_size(packed: u64) -> (r: (i32, i32))
    ensures
        r.0 == at_least_one_i32((packed / 0x1_0000_0000) as u32),
        r.1 == at_least_one_i32((packed % 0x1_0000_0000) as u32),
{
    let hi = (packed >> 32u64) as u32;
    let lo = (packed & 0xFFFF_FFFFu64) as u32;
    assert(hi == (packed / 0x1_0000_0000) as u32 && lo == (packed % 0x1_0000_0000) as u32)
        by (bit_vector)
        requires
            hi == (packed >> 32u64) as u32,
            lo == (packed & 0xFFFF_FFFFu64) as u32,
    ;
    let w = if hi == 0 {
        1u32
    } else {
        hi
    };
    let h = if lo == 0 {
        1u32
    } else {
        lo
    };
    (w as i32, h as i32)
}

/// Law: a packed size reads back unchanged when both halves are usable sizes, and never reads
/// back as zero.
pub proof fn lemma_size_packing(width: u32, height: u32)
    ensures
        1 <= width <= i32::MAX && 1 <= height <= i32::MAX ==> at_least_one_i32(
            ((width as int * 0x1_0000_0000 + height as int) / 0x1_0000_0000) as u32,
        ) == width as i32 && at_least_one_i32(
            ((width as int * 0x1_0000_0000 + height as int) % 0x1_0000_0000) as u32,
        ) == height as i32,
        at_least_one_i32(((width as int * 0x1_0000_0000 + height as int) / 0x1_0000_0000) as u32)
            != 0,
        at_least_one_i32(((width as int * 0x1_0000_0000 + height as int) % 0x1_0000_0000) as u32)
            != 0,
{
    let p = width as int * 0x1_0000_0000 + height as int;
    assert(p / 0x1_0000_0000 == width as int);
    assert(p % 0x1_0000_0000 == height as int);
    assert(at_least_one_i32(width) != 0) by (bit_vector);
    assert(at_least_one_i32(height) != 0) by (bit_vector);
}

/// The kind of a selectable stream.
#[derive(Debug, Clone, Copy, PartialEq, Eq, Structural)]
pub enum TrackKind {
    Audio,
    Sub,
    Video,
}

/// The kind of a track by the engine's type name; `None` for what the player offers no
/// choice over (attachments such as fonts or cover art).
pub open spec fn kind_named(name: Seq<char>) -> Option<TrackKind> {
    if name == "audio"@ {
        Some(TrackKind::Audio)
    } else if name == "sub"@ {
        Some(TrackKind::Sub)
    } else if name == "video"@ {
        Some(TrackKind::Video)
    } else {
        None
    }
}

/// The kind of a track by the engine's type name.
pub fn track_kind(name: &str) -> (k: Option<TrackKind>)
    ensures
        k == kind_named(name@),
{
    if same_text(name, "audio") {
        Some(TrackKind::Audio)
    } else if same_text(name, "sub") {
        Some(TrackKind::Sub)
    } else if same_text(name, "video") {
        Some(TrackKind::Video)
    } else {
        None
    }
}

/// Whether a track of kind `kind` with codec `codec` is an image-based subtitle, to which no
/// style override applies.
pub fn is_image_track(kind: TrackKind, codec: Option<&str>) -> (b: bool)
    ensures
        b == (kind == TrackKind::Sub && match codec {
            Some(c) => is_image_codec(c@),
            None => false,
        }),
{
    match kind {
        TrackKind::Sub => is_image_subtitle(codec),
        _ => false,
    }
}

/// The id of the newest subtitle track among `tracks` (each a kind and an id): the highest
/// subtitle id, as the engine numbers a newly added subtitle after every other; `None` when
/// there is no subtitle track.
pub fn newest_sub_track(tracks: &Vec<(TrackKind, i64)>) -> (r: Option<i64>)
    ensures
        match r {
            Some(id) => (exists|i: int| 0 <= i < tracks@.len() && tracks@[i] == (TrackKind::Sub, id))
                && forall|i: int|
                0 <= i < tracks@.len() && tracks@[i].0 == TrackKind::Sub ==> tracks@[i].1 <= id,
            None => forall|i: int| 0 <= i < tracks@.len() ==> tracks@[i].0 != TrackKind::Sub,
        },
{
    let mut best: Option<i64> = None;
    let mut k: usize = 0;
    while k < tracks.len()
        invariant
            k <= tracks@.len(),
            match best {
                Some(id) => (exists|i: int| 0 <= i < k && tracks@[i] == (TrackKind::Sub, id))
                    && forall|i: int|
                    0 <= i < k && tracks@[i].0 == TrackKind::Sub ==> tracks@[i].1 <= id,
                None => forall|i: int| 0 <= i < k ==> tracks@[i].0 != TrackKind::Sub,
            },
        decreases tracks@.len() - k,
    {
        let (kind, id) = tracks[k];
        if kind == TrackKind::Sub {
            match best {
                Some(b) => {
                    if id > b {
                        best = Some(id);
                    }
                },
                None => {
                    best = Some(id);
                },
            }
        }
        k = k + 1;
    }
    best
}

/// What an OS media key asks for.
#[derive(Debug, Clone, Copy, PartialEq, Eq, Structural)]
pub enum MediaKey {
    Play,
    Pause,
    Toggle,
    Stop,
    Next,
    Previous,
    /// A seek by a fixed step, a seek by an amount, or a jump to a position.
    Seek,
    /// Anything else the OS can send.
    Other,
}

/// What the player does for a media key.
#[derive(Debug, Clone, Copy, PartialEq, Eq, Structural)]
pub enum KeyAction {
    Play,
    Pause,
    Toggle,
    Seek,
    /// Nothing: no playlist to step through yet, or a key the player does not handle.
    Ignore,
}

/// The player's answer to a media key. Stop pauses (there is nothing to stop to without a
/// playlist), and Next and Previous wait for playlists.
pub fn media_key_action(key: MediaKey) -> (a: KeyAction)
    ensures
        a == match key {
            MediaKey::Play => KeyAction::Play,
            MediaKey::Pause => KeyAction::Pause,
            MediaKey::Toggle => KeyAction::Toggle,
            MediaKey::Stop => KeyAction::Pause,
            MediaKey::Seek => KeyAction::Seek,
            _ => KeyAction::Ignore,
        },
{
    match key {
        MediaKey::Play => KeyAction::Play,
        MediaKey::Pause => KeyAction::Pause,
        MediaKey::Toggle => KeyAction::Toggle,
        MediaKey::Stop => KeyAction::Pause,
        MediaKey::Seek => KeyAction::Seek,
        _ => KeyAction::Ignore,
    }
}

} // verus!
