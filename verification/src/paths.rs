//! Where the player keeps its files: every persistent path resolves through here, so one place
//! decides where user data lives. Both directories are per-user OS locations; on a platform
//! that exposes neither, callers get `None` and degrade to not persisting.
use vstd::prelude::*;

use crate::host::{
    ends_with, is_plain_file_name, path_join, project_config_dir, project_data_dir, project_dirs,
};
use crate::text::{push_char, push_str};

verus! {

broadcast use vstd::string::group_string_axioms;

/// The settings file's name, in the config directory.
pub const SETTINGS_FILE: &'static str = "settings.json";

/// The watch-state store's file name, in the config directory.
pub const WATCH_STATE_FILE: &'static str = "watch_state.json";

/// The subtitle-preferences store's file name, in the config directory.
pub const SUBTITLE_PREFS_FILE: &'static str = "subtitle_prefs.json";

/// The crash-report directory's name, in the data directory.
pub const CRASH_REPORTS_DIR: &'static str = "crash-reports";

/// User configuration: `settings.json` and the stores live here. `None` when the platform
/// exposes no such directory; whether it does is the environment's answer.
pub fn config_dir() -> (r: Option<String>)
    ensures
        r matches Some(d) ==> d@.len() > 0,
{
    match project_dirs("com", "Freally", "Freally Player") {
        Some(dirs) => Some(project_config_dir(&dirs)),
        None => None,
    }
}

/// App data: crash reports live here. `None` when the platform exposes no such directory;
/// whether it does is the environment's answer.
pub fn data_dir() -> (r: Option<String>)
    ensures
        r matches Some(d) ==> d@.len() > 0,
{
    match project_dirs("com", "Freally", "Freally Player") {
        Some(dirs) => Some(project_data_dir(&dirs)),
        None => None,
    }
}

/// `<config dir>/settings.json`, or `None` when there is no config directory.
pub fn settings_path() -> (r: Option<String>)
    ensures
        r matches Some(p) ==> ends_with(p@, SETTINGS_FILE@),
{
    proof {
        lemma_plain_settings_file();
    }
    match config_dir() {
        Some(dir) => Some(path_join(dir.as_str(), SETTINGS_FILE)),
        None => None,
    }
}

/// The file `name` in the config directory, or `name` itself (in the working directory) when
/// there is no config directory. For a plain file name, either way the result ends with it.
pub fn config_file(name: &str) -> (r: String)
    ensures
        is_plain_file_name(name@) ==> ends_with(r@, name@),
{
    match config_dir() {
        Some(dir) => path_join(dir.as_str(), name),
        None => {
            let mut r = String::new();
            push_str(&mut r, name);
            assert(r@.skip(0) =~= r@);
            r
        },
    }
}

/// `<data dir>/crash-reports`, or `None` when there is no data directory.
pub fn crash_dir() -> (r: Option<String>)
    ensures
        r matches Some(p) ==> ends_with(p@, CRASH_REPORTS_DIR@),
{
    proof {
        lemma_plain_crash_dir();
    }
    match data_dir() {
        Some(dir) => Some(path_join(dir.as_str(), CRASH_REPORTS_DIR)),
        None => None,
    }
}

proof fn lemma_plain_settings_file()
    ensures
        is_plain_file_name(SETTINGS_FILE@),
{
    reveal_strlit("settings.json");
    reveal_strlit(".");
    reveal_strlit("..");
    assert(SETTINGS_FILE@.len() != "."@.len());
    assert(SETTINGS_FILE@.len() != ".."@.len());
}

proof fn lemma_plain_crash_dir()
    ensures
        is_plain_file_name(CRASH_REPORTS_DIR@),
{
    reveal_strlit("crash-reports");
    reveal_strlit(".");
    reveal_strlit("..");
    assert(CRASH_REPORTS_DIR@.len() != "."@.len());
    assert(CRASH_REPORTS_DIR@.len() != ".."@.len());
}

/// `raw` without a leading UTF-8 byte-order mark, which Windows tools (Notepad, PowerShell)
/// prepend and a JSON parser rejects.
pub fn strip_bom(raw: &str) -> (r: String)
    ensures
        r@ == if raw@.len() > 0 && raw@[0] == '\u{feff}' {
            raw@.drop_first()
        } else {
            raw@
        },
{
    let mut r = String::new();
    let mut first = true;
    for c in it: raw.chars()
        invariant
            first == (it.index() == 0),
            r@ == if it.index() > 0 && it.seq()[0] == '\u{feff}' {
                it.seq().take(it.index() as int).drop_first()
            } else {
                it.seq().take(it.index() as int)
            },
    {
        let ghost i = it.index() as int;
        if !(first && c == '\u{feff}') {
            push_char(&mut r, c);
        }
        first = false;
        proof {
            let s = it.seq();
            if i > 0 {
                assert(s.take(i + 1).drop_first() =~= s.take(i).drop_first().push(c));
            }
            assert(s.take(i + 1) =~= s.take(i).push(c));
            if i == 0 {
                assert(s.take(1).drop_first() =~= Seq::<char>::empty());
            }
        }
    }
    r
}

} // verus!
