//! The settings kept between runs, and the rules for changing them: window geometry clamped
//! into a reachable range, the Settings modal's own fields written without touching the rest,
//! and the accepted EULA version.
//!
//! The subtitle style override carries a font size, so its type is a parameter here (`S`); the
//! caller supplies it and stores the whole as JSON.
use vstd::prelude::*;

use crate::text::{opt_chars, push_str};

verus! {

broadcast use vstd::string::group_string_axioms;

/// Bumped whenever the on-disk shape changes in a way that needs migration.
pub const SETTINGS_SCHEMA_VERSION: u32 = 1;

/// The smallest window width restored.
pub const MIN_WIDTH: u32 = 900;

/// The smallest window height restored.
pub const MIN_HEIGHT: u32 = 560;

/// The largest window width or height restored: a corrupt file can never ask for a window the
/// user cannot reach.
pub const MAX_DIMENSION: u32 = 16_384;

/// The UI colour scheme.
#[derive(Debug, Clone, Copy, PartialEq, Eq, Structural)]
pub enum Theme {
    Dark,
    Light,
}

impl Default for Theme {
    fn default() -> (t: Self)
        ensures
            t == Theme::Dark,
    {
        Theme::Dark
    }
}

/// The main window's restored geometry.
#[derive(Debug, Clone, Copy, PartialEq, Eq, Structural)]
pub struct WindowSettings {
    pub width: u32,
    pub height: u32,
    pub maximized: bool,
}

/// The geometry used when none is stored, or a stored one is out of range.
pub open spec fn default_window() -> WindowSettings {
    WindowSettings { width: 1200, height: 800, maximized: false }
}

impl Default for WindowSettings {
    fn default() -> (w: Self)
        ensures
            w == default_window(),
    {
        WindowSettings { width: 1200, height: 800, maximized: false }
    }
}

/// `w` with each dimension outside its reachable range put back to the default.
pub open spec fn clamped(w: WindowSettings) -> WindowSettings {
    WindowSettings {
        width: if w.width < MIN_WIDTH || w.width > MAX_DIMENSION {
            default_window().width
        } else {
            w.width
        },
        height: if w.height < MIN_HEIGHT || w.height > MAX_DIMENSION {
            default_window().height
        } else {
            w.height
        },
        maximized: w.maximized,
    }
}

/// Whether both dimensions of `w` are in their reachable ranges.
pub open spec fn reachable(w: WindowSettings) -> bool {
    MIN_WIDTH <= w.width <= MAX_DIMENSION && MIN_HEIGHT <= w.height <= MAX_DIMENSION
}

impl WindowSettings {
    /// Clamps the geometry into the reachable range, falling back to the default on nonsense.
    pub fn clamp(&mut self)
        ensures
            *final(self) == clamped(*old(self)),
    {
        if self.width < MIN_WIDTH || self.width > MAX_DIMENSION {
            self.width = 1200;
        }
        if self.height < MIN_HEIGHT || self.height > MAX_DIMENSION {
            self.height = 800;
        }
    }
}

/// Law: clamped geometry is reachable, geometry already reachable is left as it is, and
/// clamping twice is clamping once.
pub proof fn lemma_clamp(w: WindowSettings)
    ensures
        reachable(clamped(w)),
        reachable(w) ==> clamped(w) == w,
        clamped(clamped(w)) == clamped(w),
{
}

/// The opt-in OpenSubtitles configuration: off unless the user enables it and supplies their
/// own API key. The account password is never stored; only the username is kept.
#[derive(Debug, Clone, PartialEq, Eq)]
pub struct OpenSubtitlesSettings {
    /// Whether online subtitle fetch is turned on.
    pub enabled: bool,
    /// The user's own OpenSubtitles API key.
    pub api_key: Option<String>,
    /// The account username, kept to pre-fill the login.
    pub username: Option<String>,
}

impl Default for OpenSubtitlesSettings {
    fn default() -> (s: Self)
        ensures
            !s.enabled && s.api_key is None && s.username is None,
    {
        OpenSubtitlesSettings { enabled: false, api_key: None, username: None }
    }
}

/// Everything persisted between runs.
#[derive(Debug, Clone, PartialEq)]
pub struct Settings<S> {
    pub schema_version: u32,
    pub window: WindowSettings,
    /// The UI colour scheme.
    pub theme: Theme,
    /// Minimising hides to the system tray instead of the taskbar.
    pub minimize_to_tray: bool,
    /// The user's subtitle styling override (off by default).
    pub subtitle_style: S,
    /// Opt-in online subtitle fetch.
    pub opensubtitles: OpenSubtitlesSettings,
    /// The chosen UI language as a BCP-47 tag, or `None` while the first run follows the OS.
    pub language: Option<String>,
    /// The EULA version the user accepted, if any.
    pub accepted_eula_version: Option<String>,
}

/// The part of [`Settings`] the Settings modal owns.
#[derive(Debug, Clone, PartialEq)]
pub struct UserSettings<S> {
    pub theme: Theme,
    pub minimize_to_tray: bool,
    pub subtitle_style: S,
    pub opensubtitles: OpenSubtitlesSettings,
    pub language: Option<String>,
}

/// The Settings modal's part of `s`.
pub open spec fn user_part<S>(s: Settings<S>) -> UserSettings<S> {
    UserSettings {
        theme: s.theme,
        minimize_to_tray: s.minimize_to_tray,
        subtitle_style: s.subtitle_style,
        opensubtitles: s.opensubtitles,
        language: s.language,
    }
}

/// `s` with the Settings modal's part replaced by `u`, everything else (the EULA acceptance,
/// the window geometry) left as it was.
pub open spec fn with_user_part<S>(s: Settings<S>, u: UserSettings<S>) -> Settings<S> {
    Settings {
        theme: u.theme,
        minimize_to_tray: u.minimize_to_tray,
        subtitle_style: u.subtitle_style,
        opensubtitles: u.opensubtitles,
        language: u.language,
        ..s
    }
}

/// `s` as it is written: the current schema version, and the window clamped.
pub open spec fn prepared_spec<S>(s: Settings<S>) -> Settings<S> {
    Settings { schema_version: SETTINGS_SCHEMA_VERSION, window: clamped(s.window), ..s }
}

impl<S> Settings<S> {
    /// The settings of a first run, with `subtitle_style` as the style override's default.
    pub fn defaults(subtitle_style: S) -> (s: Self)
        ensures
            s.schema_version == SETTINGS_SCHEMA_VERSION,
            s.window == default_window(),
            s.theme == Theme::Dark,
            !s.minimize_to_tray,
            s.subtitle_style == subtitle_style,
            !s.opensubtitles.enabled && s.opensubtitles.api_key is None
                && s.opensubtitles.username is None,
            s.language is None,
            s.accepted_eula_version is None,
    {
        Settings {
            schema_version: SETTINGS_SCHEMA_VERSION,
            window: WindowSettings::default(),
            theme: Theme::default(),
            minimize_to_tray: false,
            subtitle_style,
            opensubtitles: OpenSubtitlesSettings::default(),
            language: None,
            accepted_eula_version: None,
        }
    }

    /// Settings just read from disk: the window clamped into the reachable range.
    pub fn loaded(self) -> (s: Self)
        ensures
            s == (Settings { window: clamped(self.window), ..self }),
    {
        let mut s = self;
        s.window.clamp();
        s
    }

    /// Settings as they are written: the current schema version, and the window clamped.
    pub fn prepared(self) -> (s: Self)
        ensures
            s == prepared_spec(self),
    {
        let mut s = self;
        s.schema_version = SETTINGS_SCHEMA_VERSION;
        s.window.clamp();
        s
    }

    /// These settings with the main window's geometry replaced.
    pub fn with_window(self, window: WindowSettings) -> (s: Self)
        ensures
            s == (Settings { window, ..self }),
    {
        let mut s = self;
        s.window = window;
        s
    }

    /// The settings the user can change from the Settings modal.
    pub fn user_settings(self) -> (u: UserSettings<S>)
        ensures
            u == user_part(self),
    {
        UserSettings {
            theme: self.theme,
            minimize_to_tray: self.minimize_to_tray,
            subtitle_style: self.subtitle_style,
            opensubtitles: self.opensubtitles,
            language: self.language,
        }
    }

    /// These settings with the Settings modal's part replaced by `next`. Only the fields the
    /// modal owns are taken, so writing preferences can never clobber the EULA acceptance or
    /// the window geometry.
    pub fn with_user_settings(self, next: UserSettings<S>) -> (s: Self)
        ensures
            s == with_user_part(self, next),
    {
        let mut s = self;
        s.theme = next.theme;
        s.minimize_to_tray = next.minimize_to_tray;
        s.subtitle_style = next.subtitle_style;
        s.opensubtitles = next.opensubtitles;
        s.language = next.language;
        s
    }

    /// These settings with acceptance of EULA `version` recorded.
    pub fn with_eula_accepted(self, version: &str) -> (s: Self)
        ensures
            opt_chars(s.accepted_eula_version) == Some(version@),
            s == (Settings { accepted_eula_version: s.accepted_eula_version, ..self }),
    {
        let mut v = String::new();
        push_str(&mut v, version);
        let mut s = self;
        s.accepted_eula_version = Some(v);
        s
    }
}

/// The geometry to remember as the main window closes: a maximized window's size is the
/// screen's, so it keeps the last windowed size stored; otherwise the window's inner size, when
/// it could be read (`None` when it could not, and nothing is saved).
pub fn geometry_to_save(maximized: bool, stored: WindowSettings, inner: Option<(u32, u32)>) -> (r:
    Option<WindowSettings>)
    ensures
        maximized ==> r == Some(
            WindowSettings { width: stored.width, height: stored.height, maximized: true },
        ),
        !maximized ==> r == match inner {
            Some((w, h)) => Some(WindowSettings { width: w, height: h, maximized: false }),
            None => None::<WindowSettings>,
        },
{
    if maximized {
        Some(WindowSettings { width: stored.width, height: stored.height, maximized: true })
    } else {
        match inner {
            Some((w, h)) => Some(WindowSettings { width: w, height: h, maximized: false }),
            None => None,
        }
    }
}

/// Law: writing the Settings modal's part keeps the EULA acceptance and the window geometry,
/// and reading the modal's part back gives what was written.
pub proof fn lemma_user_settings_write<S>(s: Settings<S>, u: UserSettings<S>)
    ensures
        with_user_part(s, u).accepted_eula_version == s.accepted_eula_version,
        with_user_part(s, u).window == s.window,
        user_part(with_user_part(s, u)) == u,
{
}

/// Law: saving the window geometry keeps the EULA acceptance and every preference.
pub proof fn lemma_window_write_keeps_the_rest<S>(s: Settings<S>, window: WindowSettings)
    ensures
        (Settings { window, ..s }).accepted_eula_version == s.accepted_eula_version,
        user_part(Settings { window, ..s }) == user_part(s),
        prepared_spec(Settings { window, ..s }).accepted_eula_version == s.accepted_eula_version,
{
}

/// Law: preparing settings for writing keeps the EULA acceptance and every preference, and
/// preparing twice is preparing once.
pub proof fn lemma_prepared<S>(s: Settings<S>)
    ensures
        prepared_spec(s).accepted_eula_version == s.accepted_eula_version,
        user_part(prepared_spec(s)) == user_part(s),
        reachable(prepared_spec(s).window),
        prepared_spec(prepared_spec(s)) == prepared_spec(s),
{
}

/// Law: recording an acceptance is idempotent. Accepting `version` on settings that already
/// record exactly that version changes nothing but the recorded string's identity.
pub proof fn lemma_accept_idempotent<S>(s: Settings<S>, once: Settings<S>, twice: Settings<S>, version: Seq<char>)
    requires
        opt_chars(once.accepted_eula_version) == Some(version),
        once == (Settings { accepted_eula_version: once.accepted_eula_version, ..s }),
        opt_chars(twice.accepted_eula_version) == Some(version),
        twice == (Settings { accepted_eula_version: twice.accepted_eula_version, ..once }),
    ensures
        opt_chars(twice.accepted_eula_version) == opt_chars(once.accepted_eula_version),
        twice == (Settings { accepted_eula_version: twice.accepted_eula_version, ..s }),
{
}

} // verus!
