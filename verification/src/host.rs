//! What the host machine reports: the user's directories (`directories`) and the parts of a
//! path (std's `Path`). These answers depend on the environment, the platform's path rules or
//! the disk, so the contracts here state only what holds on every platform; the verified code
//! takes the rest as it comes.
use vstd::prelude::*;

use crate::text::opt_chars;

verus! {

/// The `directories` crate's per-user directories.
#[verifier::external_type_specification]
#[verifier::external_body]
pub struct ExUserDirs(directories::UserDirs);

/// The `directories` crate's per-application directories.
#[verifier::external_type_specification]
#[verifier::external_body]
pub struct ExProjectDirs(directories::ProjectDirs);

/// `directories::UserDirs::new`: the user's directories, when the platform has a home
/// directory. Depends on the environment, so nothing is stated of the result.
#[verifier::external_body]
pub(crate) fn user_dirs() -> Option<directories::UserDirs> {
    directories::UserDirs::new()
}

/// `directories::UserDirs::home_dir`, as text (lossily converted). Nothing is stated of it.
#[verifier::external_body]
pub(crate) fn home_dir_of(dirs: &directories::UserDirs) -> String {
    dirs.home_dir().to_string_lossy().into_owned()
}

/// `directories::ProjectDirs::from`: this application's directories, when the platform
/// exposes a home directory. Nothing is stated of the result.
#[verifier::external_body]
pub(crate) fn project_dirs(qualifier: &str, organization: &str, application: &str) -> Option<
    directories::ProjectDirs,
> {
    directories::ProjectDirs::from(qualifier, organization, application)
}

/// `directories::ProjectDirs::config_dir`, as text. On every platform the crate builds it by
/// joining components onto a base directory, so it is not empty; which path it is depends on
/// the platform and the environment and is not stated.
#[verifier::external_body]
pub(crate) fn project_config_dir(dirs: &directories::ProjectDirs) -> (r: String)
    ensures
        r@.len() > 0,
{
    dirs.config_dir().to_string_lossy().into_owned()
}

/// `directories::ProjectDirs::data_dir`, as text. Built like the config directory, so it is
/// not empty; which path it is is not stated.
#[verifier::external_body]
pub(crate) fn project_data_dir(dirs: &directories::ProjectDirs) -> (r: String)
    ensures
        r@.len() > 0,
{
    dirs.data_dir().to_string_lossy().into_owned()
}

/// The text after the last `/` of `path` (all of it when it has none).
pub open spec fn after_last_slash(path: Seq<char>) -> Seq<char>
    decreases path.len(),
{
    if path.len() == 0 {
        path
    } else if path.last() == '/' {
        Seq::empty()
    } else {
        after_last_slash(path.drop_last()).push(path.last())
    }
}

/// The final component of `path` where std's path rules read it alike on every platform: the
/// path holds no backslash (a separator only on Windows) and does not begin with two `/` (a
/// network prefix on Windows), and what follows its last `/` is a plain file name, which holds
/// no `:` (so a drive prefix such as `C:` can only stand before a `/`). `None` where this does
/// not hold.
pub open spec fn final_file_name(path: Seq<char>) -> Option<Seq<char>> {
    if (forall|i: int| 0 <= i < path.len() ==> path[i] != '\\') && !(path.len() >= 2 && path[0]
        == '/' && path[1] == '/') && is_plain_file_name(after_last_slash(path)) {
        Some(after_last_slash(path))
    } else {
        None
    }
}

/// Whether `c` separates path components on some platform (`/`, or a backslash on Windows).
pub open spec fn is_separator(c: char) -> bool {
    c == '/' || c == '\\'
}

/// The text after the last separator of either kind in `path` (all of it when it has none).
pub open spec fn after_last_separator(path: Seq<char>) -> Seq<char>
    decreases path.len(),
{
    if path.len() == 0 {
        path
    } else if is_separator(path.last()) {
        Seq::empty()
    } else {
        after_last_separator(path.drop_last()).push(path.last())
    }
}

/// The extension of `path` where every platform's path rules agree on it, backslash and drive
/// paths included: the text after the last separator of either kind is not `..` and has a `.`
/// past its first character, so that on every platform it ends the file name and holds its
/// last `.`; the path does not begin with two separators (a network or verbatim prefix on
/// Windows); and that text is not at the start of a path whose second character is `:` (a
/// drive prefix on Windows). Then the extension is what follows that last `.`. `None` where
/// this does not hold (the platforms may differ there, or there is no extension).
pub open spec fn portable_extension(path: Seq<char>) -> Option<Seq<char>> {
    let seg = after_last_separator(path);
    if !(path.len() >= 2 && is_separator(path[0]) && is_separator(path[1])) && seg != ".."@
        && last_dot(seg) > 0 && !(seg.len() == path.len() && path.len() >= 2 && path[1] == ':') {
        Some(seg.skip(last_dot(seg) + 1))
    } else {
        None
    }
}

/// The index of the last `.` in `name`, or -1 when it has none.
pub open spec fn last_dot(name: Seq<char>) -> int
    decreases name.len(),
{
    if name.len() == 0 {
        -1
    } else if name.last() == '.' {
        name.len() - 1
    } else {
        last_dot(name.drop_last())
    }
}

/// The stem of the file name `name`, as std's `Path::file_stem` documents it: the whole name
/// when it has no `.` or its only `.` is the first character, otherwise what precedes the
/// last `.`.
pub open spec fn file_stem_of(name: Seq<char>) -> Seq<char> {
    if last_dot(name) <= 0 {
        name
    } else {
        name.take(last_dot(name))
    }
}

/// The extension of the file name `name`, as std's `Path::extension` documents it: none when
/// the name has no `.` or its only `.` is the first character, otherwise what follows the last
/// `.`.
pub open spec fn extension_of(name: Seq<char>) -> Option<Seq<char>> {
    if last_dot(name) <= 0 {
        None
    } else {
        Some(name.skip(last_dot(name) + 1))
    }
}

/// `last_dot` is -1 or an index of `name`, and an index holds a `.`.
pub(crate) proof fn lemma_last_dot(name: Seq<char>)
    ensures
        -1 <= last_dot(name) < name.len(),
        last_dot(name) >= 0 ==> name[last_dot(name)] == '.',
        forall|i: int| last_dot(name) < i < name.len() ==> name[i] != '.',
    decreases name.len(),
{
    if name.len() > 0 && name.last() != '.' {
        let t = name.drop_last();
        lemma_last_dot(t);
        assert forall|i: int| last_dot(name) < i < name.len() implies name[i] != '.' by {
            if i < t.len() {
                assert(name[i] == t[i]);
            }
        }
    }
}

/// A file name that is not empty has a stem that is not empty.
pub(crate) proof fn lemma_stem_not_empty(name: Seq<char>)
    requires
        name.len() > 0,
    ensures
        file_stem_of(name).len() > 0,
{
    lemma_last_dot(name);
}

proof fn lemma_after_last_separator_suffix(p: Seq<char>, name: Seq<char>)
    requires
        p.len() > 0,
        is_separator(p.last()),
        forall|i: int| 0 <= i < name.len() ==> !is_separator(name[i]),
    ensures
        after_last_separator(p + name) == name,
        after_last_slash(p + name) == name || p.last() != '/',
    decreases name.len(),
{
    if name.len() == 0 {
        assert(p + name =~= p);
        assert(name =~= Seq::<char>::empty());
    } else {
        let t = name.drop_last();
        lemma_after_last_separator_suffix(p, t);
        assert((p + name).drop_last() =~= p + t);
        assert((p + name).last() == name.last());
        assert(t.push(name.last()) =~= name);
    }
}

/// Law: a file name keeps its name under any directory. A plain file name after a `/` is the
/// final component of the path, whatever the directory holds before it (a drive letter such
/// as `C:` included), provided the path has no backslash and does not begin with `//`.
pub proof fn lemma_final_name_of_joined(dir: Seq<char>, name: Seq<char>)
    requires
        is_plain_file_name(name),
        forall|i: int| 0 <= i < dir.len() ==> dir[i] != '\\',
        !(dir.len() >= 1 && dir[0] == '/' && (dir.len() == 1 || dir[1] == '/')),
    ensures
        final_file_name(dir + seq!['/'] + name) == Some(name),
{
    let p = dir + seq!['/'];
    assert(p.last() == '/');
    lemma_after_last_separator_suffix(p, name);
    let path = dir + seq!['/'] + name;
    assert(path =~= p + name);
    assert forall|i: int| 0 <= i < path.len() implies path[i] != '\\' by {
        if i < dir.len() {
            assert(path[i] == dir[i]);
        } else if i > dir.len() {
            assert(path[i] == name[i - dir.len() - 1]);
        }
    }
    if dir.len() == 0 {
        assert(path[0] == '/');
        assert(path[1] == name[0]);
    } else if dir.len() == 1 {
        assert(path[1] == '/');
    } else {
        assert(path[0] == dir[0] && path[1] == dir[1]);
    }
}

/// Law: the extension of a path is the extension of its file name, whatever directory holds
/// it and whichever separator ends that directory: backslash and drive-letter paths included,
/// provided the path does not begin with two separators and the name holds a `.` past its
/// first character.
pub proof fn lemma_extension_of_joined(dir: Seq<char>, sep: char, name: Seq<char>)
    requires
        is_separator(sep),
        forall|i: int| 0 <= i < name.len() ==> !is_separator(name[i]),
        name != ".."@,
        last_dot(name) > 0,
        !(dir.len() >= 1 && is_separator(dir[0]) && (dir.len() == 1 || is_separator(dir[1]))),
    ensures
        portable_extension(dir + seq![sep] + name) == extension_of(name),
        extension_of(name) is Some,
{
    let p = dir + seq![sep];
    assert(p.last() == sep);
    lemma_after_last_separator_suffix(p, name);
    let path = dir + seq![sep] + name;
    assert(path =~= p + name);
    lemma_last_dot(name);
    if dir.len() == 0 {
        assert(path[0] == sep);
        assert(path[1] == name[0]);
    } else if dir.len() == 1 {
        assert(path[0] == dir[0] && path[1] == sep);
    } else {
        assert(path[0] == dir[0] && path[1] == dir[1]);
    }
}

/// Law: a file name is its stem, then a `.` and its extension when it has one; the stem is
/// never empty for a non-empty name.
pub proof fn lemma_name_is_stem_and_extension(name: Seq<char>)
    requires
        name.len() > 0,
    ensures
        file_stem_of(name).len() > 0,
        match extension_of(name) {
            Some(e) => name == file_stem_of(name) + seq!['.'] + e,
            None => file_stem_of(name) == name,
        },
{
    lemma_last_dot(name);
    if last_dot(name) > 0 {
        let i = last_dot(name);
        assert(name =~= name.take(i) + seq!['.'] + name.skip(i + 1));
    }
}

/// Whether `s` holds no path separator of any platform (`/` or a backslash).
pub open spec fn has_no_separator(s: Seq<char>) -> bool {
    forall|i: int| 0 <= i < s.len() ==> s[i] != '/' && s[i] != '\\'
}

/// std's `Path::file_name`, when it is valid UTF-8: for a path whose final component is read
/// alike on every platform ([`final_file_name`]), that component; for the empty path, none.
/// Other paths follow the platform's rules and nothing is stated of them.
#[verifier::external_body]
pub(crate) fn path_file_name(path: &str) -> (r: Option<String>)
    ensures
        final_file_name(path@) matches Some(n) ==> opt_chars(r) == Some(n),
        path@.len() == 0 ==> r is None,
{
    std::path::Path::new(path).file_name().and_then(|n| n.to_str()).map(|n| n.to_owned())
}

/// std's `Path::file_stem`, when it is valid UTF-8: for a path whose final component is read
/// alike on every platform, the stem of that name as the documentation defines it
/// ([`file_stem_of`]); for the empty path, none. Other paths are not stated.
#[verifier::external_body]
pub(crate) fn path_file_stem(path: &str) -> (r: Option<String>)
    ensures
        final_file_name(path@) matches Some(n) ==> opt_chars(r) == Some(file_stem_of(n)),
        path@.len() == 0 ==> r is None,
{
    std::path::Path::new(path).file_stem().and_then(|n| n.to_str()).map(|n| n.to_owned())
}

/// std's `Path::extension`, when it is valid UTF-8: for a path whose final component is read
/// alike on every platform, the extension of that name as the documentation defines it
/// ([`extension_of`]); where the platforms agree on an extension though they may split the
/// path differently ([`portable_extension`]), that extension; for the empty path, none. Other
/// paths are not stated.
#[verifier::external_body]
pub(crate) fn path_extension(path: &str) -> (r: Option<String>)
    ensures
        final_file_name(path@) matches Some(n) ==> opt_chars(r) == extension_of(n),
        portable_extension(path@) matches Some(e) ==> opt_chars(r) == Some(e),
        path@.len() == 0 ==> r is None,
{
    std::path::Path::new(path).extension().and_then(|n| n.to_str()).map(|n| n.to_owned())
}

/// std's `Path::with_extension`: `path` with its extension replaced by `ext` (added when it
/// has none), as `PathBuf::set_extension` documents it. It panics when `ext` holds a path
/// separator, so such an `ext` is refused. For a path whose final component reads alike on
/// every platform and a non-empty `ext`, the result is the path up to that name, then the
/// name's stem, a `.` and `ext`; other paths follow the platform's rules and are not stated.
#[verifier::external_body]
pub(crate) fn path_with_extension(path: &str, ext: &str) -> (r: String)
    requires
        has_no_separator(ext@),
    ensures
        final_file_name(path@) matches Some(n) ==> (ext@.len() > 0 ==> r@ == path@.take(
            path@.len() - n.len(),
        ) + file_stem_of(n) + "."@ + ext@),
{
    std::path::Path::new(path).with_extension(ext).to_string_lossy().into_owned()
}

/// Whether `name` is a plain file name: one path component with no separator (`/` or a
/// backslash), no drive or prefix mark (`:`), and neither `.` nor `..`.
pub open spec fn is_plain_file_name(name: Seq<char>) -> bool {
    &&& name.len() > 0
    &&& name != "."@
    &&& name != ".."@
    &&& forall|i: int| 0 <= i < name.len() ==> name[i] != '/' && name[i] != '\\' && name[i] != ':'
}

/// Whether `s` ends with `suffix`.
pub open spec fn ends_with(s: Seq<char>, suffix: Seq<char>) -> bool {
    s.len() >= suffix.len() && s.skip(s.len() - suffix.len()) == suffix
}

/// std's `PathBuf::join`: `name` appended to `dir` as a path component. A plain file name
/// extends the path, so the result ends with it; the separator (if any) follows the platform's
/// path rules and is not stated.
#[verifier::external_body]
pub(crate) fn path_join(dir: &str, name: &str) -> (r: String)
    ensures
        is_plain_file_name(name@) ==> ends_with(r@, name@),
{
    std::path::Path::new(dir).join(name).to_string_lossy().into_owned()
}

/// std's `Path::exists`: whether something is on disk at `path`. Depends on the disk, so
/// nothing is stated of it.
#[verifier::external_body]
pub(crate) fn path_exists(path: &str) -> bool {
    std::path::Path::new(path).exists()
}

/// std's `Path::is_file`: whether a regular file is on disk at `path`. Depends on the disk,
/// so nothing is stated of it.
#[verifier::external_body]
pub(crate) fn path_is_file(path: &str) -> bool {
    std::path::Path::new(path).is_file()
}

} // verus!
