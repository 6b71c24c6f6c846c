//! Percent-encoding of query components (RFC 3986 unreserved characters kept verbatim) and
//! its length-bounded variants, which never cut an escape in half.
use vstd::prelude::*;
use vstd::utf8::*;

use crate::text::{chars_of, push_char, push_str};

verus! {

broadcast use vstd::string::group_string_axioms;

/// RFC 3986 unreserved bytes: `A-Z a-z 0-9 - _ . ~`.
pub open spec fn is_unreserved(b: u8) -> bool {
    ||| 0x41 <= b <= 0x5A
    ||| 0x61 <= b <= 0x7A
    ||| 0x30 <= b <= 0x39
    ||| b == 0x2D
    ||| b == 0x5F
    ||| b == 0x2E
    ||| b == 0x7E
}

/// The upper-case hexadecimal digit for `n < 16`.
pub open spec fn hex_digit(n: u8) -> char {
    if n < 10 {
        (0x30 + n) as char
    } else {
        (0x41 + (n - 10)) as char
    }
}

/// One byte as it appears in an encoded component.
pub open spec fn encode_byte(b: u8) -> Seq<char> {
    if is_unreserved(b) {
        seq![b as char]
    } else {
        seq!['%', hex_digit(b / 16), hex_digit(b % 16)]
    }
}

/// A byte string, byte by byte.
pub open spec fn encode_bytes(bs: Seq<u8>) -> Seq<char>
    decreases bs.len(),
{
    if bs.len() == 0 {
        Seq::empty()
    } else {
        encode_byte(bs[0]) + encode_bytes(bs.drop_first())
    }
}

/// The percent-encoding of the UTF-8 bytes of `s`.
pub open spec fn percent_encode(s: Seq<char>) -> Seq<char> {
    encode_bytes(encode_utf8(s))
}

/// An unreserved character (the character form of [`is_unreserved`]).
pub open spec fn is_unreserved_char(c: char) -> bool {
    ||| 'A' <= c <= 'Z'
    ||| 'a' <= c <= 'z'
    ||| '0' <= c <= '9'
    ||| c == '-'
    ||| c == '_'
    ||| c == '.'
    ||| c == '~'
}

/// A hexadecimal digit character.
pub open spec fn is_hex_char(c: char) -> bool {
    ('0' <= c <= '9') || ('A' <= c <= 'F')
}

/// Every `%` opens a complete escape of two hexadecimal digits, and everything else is an
/// unreserved character.
pub open spec fn well_formed_encoding(e: Seq<char>) -> bool
    decreases e.len(),
{
    if e.len() == 0 {
        true
    } else if e[0] == '%' {
        e.len() >= 3 && is_hex_char(e[1]) && is_hex_char(e[2]) && well_formed_encoding(
            e.subrange(3, e.len() as int),
        )
    } else {
        is_unreserved_char(e[0]) && well_formed_encoding(e.drop_first())
    }
}

pub proof fn lemma_hex_digit(n: u8)
    requires
        n < 16,
    ensures
        is_hex_char(hex_digit(n)),
        '\0' <= hex_digit(n) <= '\u{7f}',
{
}

pub proof fn lemma_encode_bytes_concat(a: Seq<u8>, b: Seq<u8>)
    ensures
        encode_bytes(a + b) == encode_bytes(a) + encode_bytes(b),
    decreases a.len(),
{
    if a.len() == 0 {
        assert(a + b =~= b);
    } else {
        assert((a + b).drop_first() =~= a.drop_first() + b);
        lemma_encode_bytes_concat(a.drop_first(), b);
        assert(encode_bytes(a + b) =~= encode_byte(a[0]) + (encode_bytes(a.drop_first())
            + encode_bytes(b)));
    }
}

pub proof fn lemma_encode_utf8_concat(a: Seq<char>, b: Seq<char>)
    ensures
        encode_utf8(a + b) == encode_utf8(a) + encode_utf8(b),
    decreases a.len(),
{
    if a.len() == 0 {
        assert(a + b =~= b);
    } else {
        assert((a + b).drop_first() =~= a.drop_first() + b);
        lemma_encode_utf8_concat(a.drop_first(), b);
        assert(encode_utf8(a + b) =~= encode_scalar(a[0] as u32) + (encode_utf8(a.drop_first())
            + encode_utf8(b)));
    }
}

/// Percent-encoding distributes over concatenation.
pub proof fn lemma_percent_encode_concat(a: Seq<char>, b: Seq<char>)
    ensures
        percent_encode(a + b) == percent_encode(a) + percent_encode(b),
{
    lemma_encode_utf8_concat(a, b);
    lemma_encode_bytes_concat(encode_utf8(a), encode_utf8(b));
}

pub proof fn lemma_encode_byte_shape(b: u8)
    ensures
        1 <= encode_byte(b).len() <= 3,
        well_formed_encoding(encode_byte(b)),
        is_ascii_chars(encode_byte(b)),
{
    let e = encode_byte(b);
    assert(well_formed_encoding(Seq::<char>::empty()));
    if is_unreserved(b) {
        assert(e.drop_first() =~= Seq::<char>::empty());
        assert(is_unreserved_char(e[0]));
    } else {
        assert(e.subrange(3, 3) =~= Seq::<char>::empty());
        lemma_hex_digit(b / 16);
        lemma_hex_digit(b % 16);
    }
}

pub proof fn lemma_well_formed_concat(a: Seq<char>, b: Seq<char>)
    requires
        well_formed_encoding(a),
        well_formed_encoding(b),
    ensures
        well_formed_encoding(a + b),
    decreases a.len(),
{
    if a.len() == 0 {
        assert(a + b =~= b);
    } else if a[0] == '%' {
        assert((a + b).subrange(3, (a + b).len() as int) =~= a.subrange(3, a.len() as int) + b);
        lemma_well_formed_concat(a.subrange(3, a.len() as int), b);
    } else {
        assert((a + b).drop_first() =~= a.drop_first() + b);
        lemma_well_formed_concat(a.drop_first(), b);
    }
}

/// What any encoding looks like: well formed, ASCII, and between one and three characters
/// per byte.
pub proof fn lemma_encode_bytes_shape(bs: Seq<u8>)
    ensures
        bs.len() <= encode_bytes(bs).len() <= 3 * bs.len(),
        well_formed_encoding(encode_bytes(bs)),
        is_ascii_chars(encode_bytes(bs)),
    decreases bs.len(),
{
    if bs.len() > 0 {
        lemma_encode_byte_shape(bs[0]);
        lemma_encode_bytes_shape(bs.drop_first());
        lemma_well_formed_concat(encode_byte(bs[0]), encode_bytes(bs.drop_first()));
        is_ascii_chars_concat(
            encode_bytes(bs),
            encode_byte(bs[0]),
            encode_bytes(bs.drop_first()),
        );
    }
}

pub proof fn lemma_encode_utf8_len(s: Seq<char>)
    ensures
        s.len() <= encode_utf8(s).len() <= 4 * s.len(),
    decreases s.len(),
{
    if s.len() > 0 {
        let x = encode_scalar(s[0] as u32);
        assert(1 <= x.len() <= 4);
        lemma_encode_utf8_len(s.drop_first());
        assert(encode_utf8(s) == x + encode_utf8(s.drop_first()));
    }
}

/// The encoding of a character string is well formed, ASCII, and at most twelve characters
/// per input character.
pub proof fn lemma_percent_encode_shape(s: Seq<char>)
    ensures
        s.len() <= percent_encode(s).len() <= 12 * s.len(),
        well_formed_encoding(percent_encode(s)),
        is_ascii_chars(percent_encode(s)),
{
    lemma_encode_utf8_len(s);
    lemma_encode_bytes_shape(encode_utf8(s));
}

/// The hexadecimal digit for `n < 16`.
fn hex_char(n: u8) -> (c: char)
    requires
        n < 16,
    ensures
        c == hex_digit(n),
{
    if n < 10 {
        (0x30 + n) as char
    } else {
        (0x41 + (n - 10)) as char
    }
}

/// Appends the encoding of every byte of `bytes` to `out`, returning how many characters
/// were appended.
fn encode_bytes_into(out: &mut String, bytes: &[u8]) -> (added: u128)
    ensures
        final(out)@ == old(out)@ + encode_bytes(bytes@),
        added == encode_bytes(bytes@).len(),
{
    let ghost start = out@;
    let mut added: u128 = 0;
    let mut i: usize = 0;
    while i < bytes.len()
        invariant
            i <= bytes@.len(),
            out@ == start + encode_bytes(bytes@.take(i as int)),
            added == encode_bytes(bytes@.take(i as int)).len(),
            added <= 3 * i,
        decreases bytes@.len() - i,
    {
        let b = bytes[i];
        let ghost before = out@;
        if (0x41 <= b && b <= 0x5A) || (0x61 <= b && b <= 0x7A) || (0x30 <= b && b <= 0x39)
            || b == 0x2D || b == 0x5F || b == 0x2E || b == 0x7E {
            push_char(out, b as char);
            added = added + 1;
        } else {
            push_char(out, '%');
            push_char(out, hex_char(b / 16));
            push_char(out, hex_char(b % 16));
            added = added + 3;
        }
        proof {
            assert(bytes@.take(i + 1) =~= bytes@.take(i as int) + seq![b]);
            lemma_encode_bytes_concat(bytes@.take(i as int), seq![b]);
            assert(seq![b].drop_first() =~= Seq::<u8>::empty());
            assert(encode_bytes(seq![b]) == encode_byte(b) + encode_bytes(seq![b].drop_first()));
            assert(encode_bytes(seq![b]) =~= encode_byte(b));
            assert(out@ =~= start + encode_bytes(bytes@.take(i + 1)));
        }
        i = i + 1;
    }
    assert(bytes@.take(i as int) =~= bytes@);
    added
}

/// Percent-encodes `s`: RFC 3986 unreserved bytes are kept, every other byte of its UTF-8
/// form becomes `%XX` with upper-case hexadecimal digits.
pub fn urlencode(s: &str) -> (r: String)
    ensures
        r@ == percent_encode(s@),
{
    let mut out = String::new();
    let _ = encode_bytes_into(&mut out, s.as_bytes());
    out
}


/// How many leading characters of `cs` fit, whole, into `budget` encoded characters.
pub open spec fn fit_count(cs: Seq<char>, budget: int) -> nat
    decreases cs.len(),
{
    if cs.len() == 0 {
        0
    } else if percent_encode(seq![cs[0]]).len() > budget {
        0
    } else {
        1 + fit_count(cs.drop_first(), budget - percent_encode(seq![cs[0]]).len())
    }
}

/// `a - b`, or zero when that would be negative.
pub open spec fn saturating_sub(a: int, b: int) -> int {
    if a > b {
        a - b
    } else {
        0
    }
}

/// The encoding of `s` when it fits in `max` characters; otherwise the encoding of the longest
/// prefix of whole characters that fits beside the encoded `note`, followed by that note. When
/// the encoded note alone would outgrow `max`, it is left out and the prefix gets all of `max`.
pub open spec fn bounded_encoding(s: Seq<char>, max: int, note: Seq<char>) -> Seq<char> {
    if percent_encode(s).len() <= max {
        percent_encode(s)
    } else if percent_encode(note).len() <= max {
        percent_encode(s.take(fit_count(s, max - percent_encode(note).len()) as int))
            + percent_encode(note)
    } else {
        percent_encode(s.take(fit_count(s, max) as int))
    }
}

pub proof fn lemma_single_char_len(c: char)
    ensures
        1 <= percent_encode(seq![c]).len() <= 12,
{
    lemma_percent_encode_shape(seq![c]);
}

/// The prefix chosen by [`fit_count`] fits its budget.
pub proof fn lemma_fit_prefix_fits(cs: Seq<char>, budget: int)
    requires
        budget >= 0,
    ensures
        fit_count(cs, budget) <= cs.len(),
        percent_encode(cs.take(fit_count(cs, budget) as int)).len() <= budget,
    decreases cs.len(),
{
    if cs.len() == 0 || percent_encode(seq![cs[0]]).len() > budget {
        assert(cs.take(0) =~= Seq::<char>::empty());
        assert(encode_utf8(Seq::<char>::empty()) =~= Seq::<u8>::empty());
    } else {
        let p = percent_encode(seq![cs[0]]).len() as int;
        let k = fit_count(cs.drop_first(), budget - p);
        lemma_fit_prefix_fits(cs.drop_first(), budget - p);
        assert(cs.take(k + 1 as int) =~= seq![cs[0]] + cs.drop_first().take(k as int));
        lemma_percent_encode_concat(seq![cs[0]], cs.drop_first().take(k as int));
    }
}

/// Law: a bounded encoding never outgrows its bound, and it is always made of whole escapes.
pub proof fn lemma_bounded_encoding_shape(s: Seq<char>, max: int, note: Seq<char>)
    requires
        max >= 0,
    ensures
        bounded_encoding(s, max, note).len() <= max,
        well_formed_encoding(bounded_encoding(s, max, note)),
        is_ascii_chars(bounded_encoding(s, max, note)),
{
    lemma_percent_encode_shape(s);
    lemma_percent_encode_shape(note);
    if percent_encode(s).len() > max {
        if percent_encode(note).len() <= max {
            let budget = max - percent_encode(note).len();
            lemma_fit_prefix_fits(s, budget);
            let prefix = s.take(fit_count(s, budget) as int);
            lemma_percent_encode_shape(prefix);
            lemma_well_formed_concat(percent_encode(prefix), percent_encode(note));
            is_ascii_chars_concat(
                percent_encode(prefix) + percent_encode(note),
                percent_encode(prefix),
                percent_encode(note),
            );
        } else {
            lemma_fit_prefix_fits(s, max);
            lemma_percent_encode_shape(s.take(fit_count(s, max) as int));
        }
    }
}

/// The UTF-8 bytes of one character.
fn utf8_of_char(c: char) -> (v: Vec<u8>)
    ensures
        v@ == encode_utf8(seq![c]),
{
    let x = c as u32;
    proof {
        char_is_scalar(c);
        assert(seq![c].drop_first() =~= Seq::<char>::empty());
        assert(encode_utf8(seq![c]) == encode_scalar(x) + encode_utf8(
            Seq::<char>::empty(),
        ));
        assert(encode_utf8(seq![c]) =~= encode_scalar(x));
    }
    let mut v: Vec<u8> = Vec::new();
    if x <= 0x7F {
        v.push((x & 0x7F) as u8);
    } else if x <= 0x7FF {
        v.push(0xC0 | ((x >> 6) & 0x1F) as u8);
        v.push(0x80 | (x & 0x3F) as u8);
    } else if x <= 0xFFFF {
        v.push(0xE0 | ((x >> 12) & 0x0F) as u8);
        v.push(0x80 | ((x >> 6) & 0x3F) as u8);
        v.push(0x80 | (x & 0x3F) as u8);
    } else {
        v.push(0xF0 | ((x >> 18) & 0x7) as u8);
        v.push(0x80 | ((x >> 12) & 0x3F) as u8);
        v.push(0x80 | ((x >> 6) & 0x3F) as u8);
        v.push(0x80 | (x & 0x3F) as u8);
    }
    assert(v@ =~= encode_scalar(x));
    v
}

/// Percent-encodes `s` so that the result never exceeds `max_encoded` characters: whole
/// encoded characters only, and, when anything was cut, the encoded `note` at the end (its
/// length reserved out of the budget; left out when it alone would not fit).
pub fn encode_bounded_with(s: &str, max_encoded: usize, note: &str) -> (r: String)
    ensures
        r@ == bounded_encoding(s@, max_encoded as int, note@),
        r@.len() <= max_encoded,
{
    proof {
        lemma_bounded_encoding_shape(s@, max_encoded as int, note@);
    }
    let mut full = String::new();
    let full_len = encode_bytes_into(&mut full, s.as_bytes());
    if full_len <= max_encoded as u128 {
        return full;
    }
    let mut note_enc = String::new();
    let note_len = encode_bytes_into(&mut note_enc, note.as_bytes());
    let with_note = note_len <= max_encoded as u128;
    let budget: usize = if with_note {
        max_encoded - note_len as usize
    } else {
        max_encoded
    };
    let ghost b = if percent_encode(note@).len() <= max_encoded {
        max_encoded - percent_encode(note@).len()
    } else {
        max_encoded as int
    };
    assert(budget == b);
    let cs = chars_of(s);
    let mut out = String::new();
    let mut used: usize = 0;
    let mut i: usize = 0;
    proof {
        assert(cs@.skip(0) =~= cs@);
        assert(cs@.take(0) =~= Seq::<char>::empty());
        assert(encode_utf8(Seq::<char>::empty()) =~= Seq::<u8>::empty());
    }
    while i < cs.len()
        invariant
            cs@ == s@,
            i <= cs@.len(),
            used <= budget,
            budget == b,
            out@ == percent_encode(cs@.take(i as int)),
            used == out@.len(),
            fit_count(cs@, b) == i + fit_count(cs@.skip(i as int), b - used),
        ensures
            fit_count(cs@, b) == i,
            i <= cs@.len(),
            out@ == percent_encode(cs@.take(i as int)),
        decreases cs@.len() - i,
    {
        let c = cs[i];
        let bytes = utf8_of_char(c);
        let mut piece = String::new();
        let plen = encode_bytes_into(&mut piece, bytes.as_slice());
        proof {
            lemma_single_char_len(c);
            assert(cs@.skip(i as int)[0] == c);
            assert(cs@.skip(i as int).drop_first() =~= cs@.skip(i + 1));
            assert(seq![cs@.skip(i as int)[0]] =~= seq![c]);
        }
        if plen > (budget - used) as u128 {
            proof {
                assert(seq![cs@.skip(i as int)[0]] =~= seq![c]);
                assert(fit_count(cs@.skip(i as int), b - used) == 0);
            }
            break;
        }
        let plen = plen as usize;
        push_str(&mut out, piece.as_str());
        proof {
            assert(cs@.take(i + 1) =~= cs@.take(i as int) + seq![c]);
            lemma_percent_encode_concat(cs@.take(i as int), seq![c]);
        }
        used = used + plen;
        i = i + 1;
    }
    if with_note {
        push_str(&mut out, note_enc.as_str());
    }
    out
}

} // verus!
