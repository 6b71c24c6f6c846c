//! Turning subtitle bytes into UTF-8 text: a byte-order mark names the encoding outright,
//! clean UTF-8 passes through untouched, and anything else is charset-detected (`chardetng`)
//! and transcoded (`encoding_rs`).
use vstd::prelude::*;
use vstd::utf8::*;

use crate::text::push_str;

verus! {

broadcast use vstd::string::group_string_axioms;

/// An `encoding_rs` character encoding.
#[verifier::external_type_specification]
#[verifier::external_body]
pub struct ExEncoding(encoding_rs::Encoding);

/// A `chardetng` detector.
#[verifier::external_type_specification]
#[verifier::external_body]
pub struct ExEncodingDetector(chardetng::EncodingDetector);

/// What std's `String::from_utf8_lossy` makes of `bytes`: each malformed sequence replaced by
/// U+FFFD.
pub uninterp spec fn lossy_utf8(bytes: Seq<u8>) -> Seq<char>;

/// What `encoding_rs`'s `Encoding::decode` makes of `bytes` with the encoding named `encoding`
/// (a byte-order mark at the start overriding it, malformed sequences replaced by U+FFFD).
pub uninterp spec fn decoded_with(encoding: Seq<char>, bytes: Seq<u8>) -> Seq<char>;

/// The longest input the decoders are handed: `Encoding::decode` panics when the size of its
/// output buffer overflows `usize`, which cannot happen below this.
pub open spec fn decodable_len(len: int) -> bool {
    len <= usize::MAX / 4
}

/// std's `str::from_utf8`: the text, exactly when `bytes` are valid UTF-8.
#[verifier::external_body]
fn utf8_text(bytes: &[u8]) -> (r: Option<String>)
    ensures
        r is Some <==> valid_utf8(bytes@),
        r matches Some(t) ==> t@ == decode_utf8(bytes@),
{
    std::str::from_utf8(bytes).ok().map(|t| t.to_owned())
}

/// std's `String::from_utf8_lossy`: valid UTF-8 is decoded as it is; otherwise the result is
/// named, not stated.
#[verifier::external_body]
fn utf8_lossy(bytes: &[u8]) -> (r: String)
    ensures
        r@ == lossy_utf8(bytes@),
        valid_utf8(bytes@) ==> r@ == decode_utf8(bytes@),
{
    String::from_utf8_lossy(bytes).into_owned()
}

/// What `chardetng` guesses a whole stream of `bytes` to be (ISO-2022-JP allowed, no
/// top-level domain, UTF-8 allowed): the guessed encoding's name. The detector is
/// deterministic, so the guess is a function of the bytes alone.
pub uninterp spec fn guessed_charset(bytes: Seq<u8>) -> Seq<char>;

/// An `encoding_rs` encoding together with its name (`Encoding::name`), so that contracts can
/// say which encoding it is. Only the trusted items below make one, and each reads the name
/// from the encoding itself.
struct NamedEncoding {
    encoding: &'static encoding_rs::Encoding,
    name: String,
}

/// `encoding_rs::UTF_16LE`, whose name the crate's source fixes as "UTF-16LE".
#[verifier::external_body]
fn utf_16le() -> (r: NamedEncoding)
    ensures
        r.name@ == "UTF-16LE"@,
{
    let encoding = encoding_rs::UTF_16LE;
    NamedEncoding { encoding, name: encoding.name().to_owned() }
}

/// `encoding_rs::UTF_16BE`, whose name the crate's source fixes as "UTF-16BE".
#[verifier::external_body]
fn utf_16be() -> (r: NamedEncoding)
    ensures
        r.name@ == "UTF-16BE"@,
{
    let encoding = encoding_rs::UTF_16BE;
    NamedEncoding { encoding, name: encoding.name().to_owned() }
}

/// `chardetng`'s detector run over `bytes` as one whole stream: `EncodingDetector::new` with
/// ISO-2022-JP allowed, `feed` with `last` set (once, so it cannot panic), then `guess` with
/// no top-level domain and UTF-8 allowed. The guessed encoding's name is named, not stated.
#[verifier::external_body]
fn guess_charset(bytes: &[u8]) -> (r: NamedEncoding)
    ensures
        r.name@ == guessed_charset(bytes@),
{
    let mut detector = chardetng::EncodingDetector::new(chardetng::Iso2022JpDetection::Allow);
    detector.feed(bytes, true);
    let encoding = detector.guess(None, chardetng::Utf8Detection::Allow);
    NamedEncoding { encoding, name: encoding.name().to_owned() }
}

/// `encoding_rs`'s `Encoding::decode` with `encoding`: the text is the named decoding of
/// `bytes` under the encoding's name.
#[verifier::external_body]
fn decode_with(encoding: &NamedEncoding, bytes: &[u8]) -> (r: String)
    requires
        decodable_len(bytes@.len() as int),
    ensures
        r@ == decoded_with(encoding.name@, bytes@),
{
    let (text, _, _) = encoding.encoding.decode(bytes);
    text.into_owned()
}

/// The UTF-8 byte-order mark.
pub open spec fn utf8_bom() -> Seq<u8> {
    seq![0xEFu8, 0xBBu8, 0xBFu8]
}

/// The UTF-16 little-endian byte-order mark.
pub open spec fn utf16le_bom() -> Seq<u8> {
    seq![0xFFu8, 0xFEu8]
}

/// The UTF-16 big-endian byte-order mark.
pub open spec fn utf16be_bom() -> Seq<u8> {
    seq![0xFEu8, 0xFFu8]
}

/// Whether `bytes` begin with `prefix`.
pub open spec fn has_prefix(bytes: Seq<u8>, prefix: Seq<u8>) -> bool {
    bytes.len() >= prefix.len() && bytes.take(prefix.len() as int) == prefix
}

/// The UTF-8 text of subtitle bytes, and how it got there.
pub struct Decoded {
    /// The text.
    pub text: String,
    /// The charset that was transcoded from (a temp file is needed), or `None` when the bytes
    /// were already clean UTF-8 and the original can be handed over as it is.
    pub label: Option<String>,
}

/// What `decode_text` gives for `bytes`: `label` is the charset named, and the text is the
/// bytes after any byte-order mark decoded in that charset.
pub open spec fn decoded_from(bytes: Seq<u8>, text: Seq<char>, label: Option<Seq<char>>) -> bool {
    if has_prefix(bytes, utf8_bom()) {
        &&& label == Some("UTF-8"@)
        &&& text == lossy_utf8(bytes.skip(3))
        &&& valid_utf8(bytes.skip(3)) ==> text == decode_utf8(bytes.skip(3))
    } else if has_prefix(bytes, utf16le_bom()) {
        label == Some("UTF-16LE"@) && text == decoded_with("UTF-16LE"@, bytes.skip(2))
    } else if has_prefix(bytes, utf16be_bom()) {
        label == Some("UTF-16BE"@) && text == decoded_with("UTF-16BE"@, bytes.skip(2))
    } else if valid_utf8(bytes) {
        label is None && text == decode_utf8(bytes)
    } else {
        label == Some(guessed_charset(bytes)) && text == decoded_with(guessed_charset(bytes), bytes)
    }
}

fn owned(s: &str) -> (r: String)
    ensures
        r@ == s@,
{
    let mut r = String::new();
    push_str(&mut r, s);
    r
}

/// Decodes subtitle bytes to UTF-8. A byte-order mark is authoritative; otherwise valid UTF-8
/// is passed through untouched, and anything else is charset-detected and transcoded.
pub fn decode_text(bytes: &[u8]) -> (d: Decoded)
    requires
        decodable_len(bytes@.len() as int),
    ensures
        decoded_from(
            bytes@,
            d.text@,
            match d.label {
                Some(l) => Some(l@),
                None => None,
            },
        ),
{
    let n = bytes.len();
    if n >= 3 && bytes[0] == 0xEF && bytes[1] == 0xBB && bytes[2] == 0xBF {
        assert(bytes@.take(3) =~= utf8_bom());
        let rest = slice_from(bytes, 3);
        return Decoded { text: utf8_lossy(rest), label: Some(owned("UTF-8")) };
    }
    assert(!has_prefix(bytes@, utf8_bom()));
    if n >= 2 && bytes[0] == 0xFF && bytes[1] == 0xFE {
        assert(bytes@.take(2) =~= utf16le_bom());
        let rest = slice_from(bytes, 2);
        let encoding = utf_16le();
        let text = decode_with(&encoding, rest);
        return Decoded { text, label: Some(encoding.name) };
    }
    assert(!has_prefix(bytes@, utf16le_bom()));
    if n >= 2 && bytes[0] == 0xFE && bytes[1] == 0xFF {
        assert(bytes@.take(2) =~= utf16be_bom());
        let rest = slice_from(bytes, 2);
        let encoding = utf_16be();
        let text = decode_with(&encoding, rest);
        return Decoded { text, label: Some(encoding.name) };
    }
    assert(!has_prefix(bytes@, utf16be_bom()));
    match utf8_text(bytes) {
        Some(text) => Decoded { text, label: None },
        None => {
            let encoding = guess_charset(bytes);
            let text = decode_with(&encoding, bytes);
            Decoded { text, label: Some(encoding.name) }
        },
    }
}

/// `bytes[from..]`.
fn slice_from(bytes: &[u8], from: usize) -> (r: &[u8])
    requires
        from <= bytes@.len(),
    ensures
        r@ == bytes@.skip(from as int),
{
    let r = vstd::slice::slice_subrange(bytes, from, bytes.len());
    r
}

} // verus!
