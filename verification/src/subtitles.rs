//! Loading an external subtitle: bounded, untrusted, and encoding-normalising.
//!
//! A subtitle file is untrusted input. Its size is bounded before anything is read, text
//! subtitles are transcoded to UTF-8 (see [`crate::charset`]), and image-based ones (PGS
//! `.sup`, VobSub `.idx`/`.sub`) are only size-bounded and handed over by path. The reads, the
//! look for a `.sub`'s `.idx` sibling and the temp-file write are the caller's; every
//! decision between them is made here.
use vstd::prelude::*;

use crate::charset::{decode_text, decodable_len, decoded_from, Decoded};
use crate::host::{
    extension_of, file_stem_of, final_file_name, is_separator, last_dot,
    lemma_extension_of_joined, path_extension, path_with_extension, portable_extension,
};
use crate::text::{
    ascii_lowercase, ascii_lowered, decimal, opt_chars, push_decimal, push_str, same_text,
};

verus! {

broadcast use vstd::string::group_string_axioms;

/// The largest external text subtitle that is read.
pub const MAX_TEXT_SUBTITLE_BYTES: u64 = 16 * 1024 * 1024;

/// The largest external image subtitle (a VobSub/PGS bitmap stream) handed to the engine.
pub const MAX_IMAGE_SUBTITLE_BYTES: u64 = 256 * 1024 * 1024;

/// Why loading an external subtitle failed. Reported to the user verbatim.
#[derive(Debug, Clone, PartialEq, Eq)]
pub enum SubtitleError {
    /// The path does not exist.
    NotFound(String),
    /// The path is not a regular file.
    NotAFile(String),
    /// The file is larger than the bound for its kind.
    TooLarge { path: String, bytes: u64, limit: u64 },
    /// The filesystem refused the read or write.
    Io(String),
}

/// The message shown for `e`.
pub open spec fn subtitle_error_message(e: SubtitleError) -> Seq<char> {
    match e {
        SubtitleError::NotFound(path) => "no such subtitle file: "@ + path@,
        SubtitleError::NotAFile(path) => "not a subtitle file: "@ + path@,
        SubtitleError::TooLarge { path, bytes, limit } => "subtitle file is too large ("@
            + decimal(bytes as nat) + " bytes, limit "@ + decimal(limit as nat) + "): "@ + path@,
        SubtitleError::Io(reason) => reason@,
    }
}

impl SubtitleError {
    /// The message shown to the user.
    pub fn message(&self) -> (m: String)
        ensures
            m@ == subtitle_error_message(*self),
    {
        let mut m = String::new();
        match self {
            SubtitleError::NotFound(path) => {
                push_str(&mut m, "no such subtitle file: ");
                push_str(&mut m, path.as_str());
            },
            SubtitleError::NotAFile(path) => {
                push_str(&mut m, "not a subtitle file: ");
                push_str(&mut m, path.as_str());
            },
            SubtitleError::TooLarge { path, bytes, limit } => {
                push_str(&mut m, "subtitle file is too large (");
                push_decimal(&mut m, *bytes as u128);
                push_str(&mut m, " bytes, limit ");
                push_decimal(&mut m, *limit as u128);
                push_str(&mut m, "): ");
                push_str(&mut m, path.as_str());
            },
            SubtitleError::Io(reason) => push_str(&mut m, reason.as_str()),
        }
        m
    }
}

/// The result of loading an external subtitle: the path to hand the engine, and what had to
/// be done to get there.
#[derive(Debug, Clone, PartialEq, Eq)]
pub struct LoadedSubtitle {
    /// A freshly written UTF-8 temp file when the text had to be transcoded; the original path
    /// when it was already clean UTF-8, or image-based.
    pub path: String,
    /// The charset a text subtitle was decoded from; `None` when nothing was transcoded.
    pub source_encoding: Option<String>,
    /// Whether the track is image-based (PGS/VobSub).
    pub image_based: bool,
}

/// Whether a subtitle file is text (transcodable) or an image-based bitmap stream.
#[derive(Debug, Clone, Copy, PartialEq, Eq, Structural)]
pub enum Kind {
    Text,
    Image,
}

/// The kind of a subtitle with extension `ext` (as the path has it), where `idx_beside` says
/// whether an `.idx` file sits beside it: `.sup` and `.idx` are image streams, a `.sub` is a
/// VobSub bitmap when paired with an `.idx` and MicroDVD text otherwise.
pub open spec fn kind_for(ext: Option<Seq<char>>, idx_beside: bool) -> Kind {
    let e = match ext {
        Some(e) => ascii_lowered(e),
        None => Seq::empty(),
    };
    if e == "sup"@ || e == "idx"@ {
        Kind::Image
    } else if e == "sub"@ && idx_beside {
        Kind::Image
    } else {
        Kind::Text
    }
}

/// Whether the extension is `.sub` in any letter case: the one case where the sibling `.idx`
/// decides.
pub open spec fn is_sub_extension(ext: Option<Seq<char>>) -> bool {
    ext matches Some(e) && ascii_lowered(e) == "sub"@
}

fn opt_str(o: &Option<String>) -> (r: Option<&str>)
    ensures
        match r {
            Some(s) => o matches Some(t) && s@ == t@,
            None => o is None,
        },
{
    match o {
        Some(t) => Some(t.as_str()),
        None => None,
    }
}

/// Classifies by extension; `idx_beside` answers whether the `.idx` sibling exists.
pub fn classify_extension(ext: Option<&str>, idx_beside: bool) -> (k: Kind)
    ensures
        k == kind_for(
            match ext {
                Some(e) => Some(e@),
                None => None,
            },
            idx_beside,
        ),
{
    let e = match ext {
        Some(e) => ascii_lowercase(e),
        None => String::new(),
    };
    let es = e.as_str();
    if same_text(es, "sup") || same_text(es, "idx") {
        Kind::Image
    } else if same_text(es, "sub") && idx_beside {
        Kind::Image
    } else {
        Kind::Text
    }
}

/// The file whose presence makes the `.sub` subtitle at `path` a VobSub bitmap: the same
/// path with the extension `idx` in place of the name's extension.
pub open spec fn idx_sibling_of(path: Seq<char>, name: Seq<char>) -> Seq<char> {
    path.take(path.len() - name.len()) + file_stem_of(name) + "."@ + "idx"@
}

/// Where to look for the `.idx` that would make the subtitle at `path` a VobSub bitmap:
/// `path.with_extension("idx")`, asked only for a `.sub` (in any letter case); `None` for
/// any other extension, whose kind the disk does not decide.
pub fn idx_sibling(path: &str) -> (r: Option<String>)
    ensures
        final_file_name(path@) matches Some(n) ==> match r {
            Some(s) => is_sub_extension(extension_of(n)) && s@ == idx_sibling_of(path@, n),
            None => !is_sub_extension(extension_of(n)),
        },
{
    let ext = path_extension(path);
    let e = opt_str(&ext);
    let lowered = match e {
        Some(x) => ascii_lowercase(x),
        None => String::new(),
    };
    if e.is_some() && same_text(lowered.as_str(), "sub") {
        proof {
            reveal_strlit("idx");
        }
        Some(path_with_extension(path, "idx"))
    } else {
        None
    }
}

/// Classifies the subtitle at `path` by its extension. `idx_beside` is what the disk says
/// about [`idx_sibling`]: whether that `.idx` exists (`false` when there is none to ask
/// about); it decides only a `.sub`, which is a VobSub bitmap beside an `.idx` and MicroDVD
/// text otherwise. Where the final component reads alike on every platform, or the platforms
/// agree on the extension (drive-letter and backslash paths included), the kind is that of the
/// documented extension.
pub fn classify(path: &str, idx_beside: bool) -> (k: Kind)
    ensures
        exists|ext: Option<Seq<char>>| k == kind_for(ext, idx_beside),
        final_file_name(path@) matches Some(n) ==> k == kind_for(extension_of(n), idx_beside),
        portable_extension(path@) matches Some(e) ==> k == kind_for(Some(e), idx_beside),
{
    let ext = path_extension(path);
    let e = opt_str(&ext);
    let k = classify_extension(e, idx_beside);
    let ghost ev = match e {
        Some(x) => Some(x@),
        None => None,
    };
    assert(k == kind_for(ev, idx_beside));
    k
}

/// Law: a subtitle's kind follows its file name's extension in whatever directory it sits,
/// drive-letter and backslash paths included: the extension [`classify`] decides by is the
/// name's, so a `.sup` or `.idx` (in any letter case) is an image stream whatever the disk
/// says, and any other extension but `.sub` is text.
pub proof fn lemma_kind_follows_file_name(dir: Seq<char>, sep: char, name: Seq<char>, beside: bool)
    requires
        is_separator(sep),
        forall|i: int| 0 <= i < name.len() ==> !is_separator(name[i]),
        name != ".."@,
        last_dot(name) > 0,
        !(dir.len() >= 1 && is_separator(dir[0]) && (dir.len() == 1 || is_separator(dir[1]))),
    ensures
        portable_extension(dir + seq![sep] + name) == extension_of(name),
        extension_of(name) matches Some(e) && (ascii_lowered(e) == "sup"@ || ascii_lowered(e)
            == "idx"@) ==> kind_for(portable_extension(dir + seq![sep] + name), beside)
            == Kind::Image,
        extension_of(name) matches Some(e) && ascii_lowered(e) != "sup"@ && ascii_lowered(e)
            != "idx"@ && ascii_lowered(e) != "sub"@ ==> kind_for(
            portable_extension(dir + seq![sep] + name),
            beside,
        ) == Kind::Text,
{
    lemma_extension_of_joined(dir, sep, name);
}

/// The extension, or "srt" when there is none or it is empty.
pub open spec fn extension_or_srt_spec(ext: Option<Seq<char>>) -> Seq<char> {
    match ext {
        Some(e) => if e.len() > 0 {
            e
        } else {
            "srt"@
        },
        None => "srt"@,
    }
}

/// The extension to give a transcoded temp file: the given one, or "srt".
pub fn extension_or_default(ext: Option<&str>) -> (r: String)
    ensures
        r@ == extension_or_srt_spec(
            match ext {
                Some(e) => Some(e@),
                None => None,
            },
        ),
{
    let mut r = String::new();
    match ext {
        Some(e) => {
            if e.unicode_len() > 0 {
                push_str(&mut r, e);
            } else {
                push_str(&mut r, "srt");
            }
        },
        None => push_str(&mut r, "srt"),
    }
    r
}

/// The extension of `path` (by the platform's path rules), or "srt" when it has none. Where
/// the final component reads alike on every platform, that is its documented extension.
pub fn extension_or_srt(path: &str) -> (r: String)
    ensures
        exists|ext: Option<Seq<char>>| r@ == extension_or_srt_spec(ext),
        final_file_name(path@) matches Some(n) ==> r@ == extension_or_srt_spec(extension_of(n)),
        portable_extension(path@) matches Some(e) ==> r@ == extension_or_srt_spec(Some(e)),
{
    let ext = path_extension(path);
    let e = opt_str(&ext);
    let r = extension_or_default(e);
    let ghost ev = match e {
        Some(x) => Some(x@),
        None => None,
    };
    assert(r@ == extension_or_srt_spec(ev));
    r
}

/// What the filesystem said about a subtitle path before it is read.
#[derive(Debug, Clone, PartialEq, Eq)]
pub enum FileProbe {
    /// Nothing is at the path.
    Missing,
    /// The metadata could not be read, for this reason.
    Unreadable(String),
    /// Something is there: whether it is a regular file, and its length in bytes.
    Found { is_file: bool, len: u64 },
}

/// What to do next with a subtitle file that passed its checks.
#[derive(Debug, Clone, PartialEq, Eq)]
pub enum LoadPlan {
    /// An image-based track: hand it over as it is.
    Ready(LoadedSubtitle),
    /// A text subtitle within its bound: read its bytes and decode them.
    ReadText,
}

/// The bound for a subtitle of kind `k`.
pub open spec fn limit_for(k: Kind) -> u64 {
    match k {
        Kind::Image => MAX_IMAGE_SUBTITLE_BYTES,
        Kind::Text => MAX_TEXT_SUBTITLE_BYTES,
    }
}

/// Whether `r` is what `plan_load` decides for `path`, given the probe and the file's kind.
pub open spec fn is_plan(
    path: Seq<char>,
    probe: FileProbe,
    k: Kind,
    r: Result<LoadPlan, SubtitleError>,
) -> bool {
    match probe {
        FileProbe::Missing => r matches Err(SubtitleError::NotFound(p)) && p@ == path,
        FileProbe::Unreadable(reason) => r == Err::<LoadPlan, SubtitleError>(
            SubtitleError::Io(reason),
        ),
        FileProbe::Found { is_file, len } => if !is_file {
            r matches Err(SubtitleError::NotAFile(p)) && p@ == path
        } else if len > limit_for(k) {
            r matches Err(SubtitleError::TooLarge { path: p, bytes, limit }) && p@ == path && bytes
                == len && limit == limit_for(k)
        } else {
            match k {
                Kind::Image => r matches Ok(LoadPlan::Ready(l)) && l.path@ == path
                    && l.source_encoding is None && l.image_based,
                Kind::Text => r matches Ok(LoadPlan::ReadText),
            }
        },
    }
}

fn owned(s: &str) -> (r: String)
    ensures
        r@ == s@,
{
    let mut r = String::new();
    push_str(&mut r, s);
    r
}

/// Decides, from what the filesystem said about `path` and the file's kind, whether loading
/// fails (and with which error), is done (an image track), or goes on to read the text.
pub fn plan_load(path: &str, probe: FileProbe, k: Kind) -> (r: Result<LoadPlan, SubtitleError>)
    ensures
        is_plan(path@, probe, k, r),
{
    match probe {
        FileProbe::Missing => Err(SubtitleError::NotFound(owned(path))),
        FileProbe::Unreadable(reason) => Err(SubtitleError::Io(reason)),
        FileProbe::Found { is_file, len } => {
            let limit = match k {
                Kind::Image => MAX_IMAGE_SUBTITLE_BYTES,
                Kind::Text => MAX_TEXT_SUBTITLE_BYTES,
            };
            if !is_file {
                Err(SubtitleError::NotAFile(owned(path)))
            } else if len > limit {
                Err(SubtitleError::TooLarge { path: owned(path), bytes: len, limit })
            } else {
                match k {
                    Kind::Image => Ok(
                        LoadPlan::Ready(
                            LoadedSubtitle {
                                path: owned(path),
                                source_encoding: None,
                                image_based: true,
                            },
                        ),
                    ),
                    Kind::Text => Ok(LoadPlan::ReadText),
                }
            }
        },
    }
}

/// A transcoded text subtitle waiting to be written to a UTF-8 temp file.
#[derive(Debug, Clone, PartialEq, Eq)]
pub struct TempWrite {
    /// The temp file's extension, so the engine sniffs the right format.
    pub ext: String,
    /// The UTF-8 text to write.
    pub text: String,
    /// The charset it was decoded from (`None` when the bytes were already clean UTF-8).
    pub source_encoding: Option<String>,
}

/// What a text subtitle read from disk needs next.
#[derive(Debug, Clone, PartialEq, Eq)]
pub enum TextLoad {
    /// Already clean UTF-8: the original file is handed over.
    AsIs(LoadedSubtitle),
    /// Transcoded: the text goes to a temp file first.
    Write(TempWrite),
}

/// Whether `r` is what a text file at `path` whose bytes decoded to `text` (from `label`)
/// needs next.
pub open spec fn is_text_load(path: Seq<char>, text: Seq<char>, label: Option<Seq<char>>, r: TextLoad) -> bool {
    match label {
        None => r matches TextLoad::AsIs(l) && l.path@ == path && l.source_encoding is None
            && !l.image_based,
        Some(name) => r matches TextLoad::Write(w) && w.text@ == text && opt_chars(
            w.source_encoding,
        ) == Some(name) && (exists|ext: Option<Seq<char>>| w.ext@ == extension_or_srt_spec(ext))
            && (final_file_name(path) matches Some(n) ==> w.ext@ == extension_or_srt_spec(
            extension_of(n),
        )),
    }
}

/// The text subtitle at `path`, read as `bytes`: handed over as it is when it was clean
/// UTF-8, otherwise transcoded and bound for a temp file with the source's extension.
pub fn finish_text_load(path: &str, bytes: &[u8]) -> (r: TextLoad)
    requires
        decodable_len(bytes@.len() as int),
    ensures
        exists|text: Seq<char>, label: Option<Seq<char>>|
            decoded_from(bytes@, text, label) && is_text_load(path@, text, label, r),
{
    let Decoded { text, label } = decode_text(bytes);
    let ghost tv = text@;
    let ghost lv = opt_chars(label);
    let r = match label {
        None => TextLoad::AsIs(
            LoadedSubtitle { path: owned(path), source_encoding: None, image_based: false },
        ),
        Some(name) => {
            let ext = extension_or_srt(path);
            TextLoad::Write(TempWrite { ext, text, source_encoding: Some(name) })
        },
    };
    assert(decoded_from(bytes@, tv, lv) && is_text_load(path@, tv, lv, r));
    r
}

/// Whether `r` is what `load_bytes` gives for a download of `bytes` with extension `ext`.
pub open spec fn is_bytes_load(bytes: Seq<u8>, ext: Seq<char>, r: Result<TempWrite, SubtitleError>) -> bool {
    if bytes.len() > MAX_TEXT_SUBTITLE_BYTES {
        r matches Err(SubtitleError::TooLarge { path, bytes: n, limit }) && path@ == "<download>."@
            + ext && n == bytes.len() && limit == MAX_TEXT_SUBTITLE_BYTES
    } else {
        r matches Ok(w) && w.ext@ == ext && decoded_from(
            bytes,
            w.text@,
            opt_chars(w.source_encoding),
        )
    }
}

/// A subtitle held in memory (an online download): size-bounded, then decoded for a UTF-8
/// temp file with extension `ext`. A temp file is written even for clean UTF-8, as there is
/// no original file to hand over.
pub fn load_bytes(bytes: &[u8], ext: &str) -> (r: Result<TempWrite, SubtitleError>)
    ensures
        is_bytes_load(bytes@, ext@, r),
{
    let n = bytes.len() as u64;
    if n > MAX_TEXT_SUBTITLE_BYTES {
        let mut path = String::new();
        push_str(&mut path, "<download>.");
        push_str(&mut path, ext);
        return Err(SubtitleError::TooLarge { path, bytes: n, limit: MAX_TEXT_SUBTITLE_BYTES });
    }
    let Decoded { text, label } = decode_text(bytes);
    Ok(TempWrite { ext: owned(ext), text, source_encoding: label })
}

/// The loaded subtitle once a [`TempWrite`] has been attempted: `written` is the temp file's
/// path, or why the filesystem refused it.
pub fn after_temp_write(pending: TempWrite, written: Result<String, String>) -> (r: Result<
    LoadedSubtitle,
    SubtitleError,
>)
    ensures
        match written {
            Ok(path) => r == Ok::<LoadedSubtitle, SubtitleError>(
                LoadedSubtitle {
                    path,
                    source_encoding: pending.source_encoding,
                    image_based: false,
                },
            ),
            Err(reason) => r == Err::<LoadedSubtitle, SubtitleError>(SubtitleError::Io(reason)),
        },
{
    match written {
        Ok(path) => Ok(
            LoadedSubtitle { path, source_encoding: pending.source_encoding, image_based: false },
        ),
        Err(reason) => Err(SubtitleError::Io(reason)),
    }
}

} // verus!
