//! Character-level helpers shared by the text-producing parts of the player.
use vstd::prelude::*;
use vstd::utf8::*;

verus! {

broadcast use {vstd::string::group_string_axioms, vstd::utf8::group_utf8_lib};

/// Appends one character to a `String` (std's `String::push`).
#[verifier::external_body]
pub(crate) fn push_char(s: &mut String, c: char)
    ensures
        final(s)@ == old(s)@.push(c),
{
    s.push(c);
}

/// Appends every character of `t` to `s`.
pub fn push_str(s: &mut String, t: &str)
    ensures
        final(s)@ == old(s)@ + t@,
{
    let ghost start = s@;
    for c in it: t.chars()
        invariant
            s@ == start + it.seq().take(it.index() as int),
    {
        push_char(s, c);
        assert(it.seq().take(it.index() + 1) =~= it.seq().take(it.index() as int).push(c));
    }
}

/// The characters of `s`, in order.
pub fn chars_of(s: &str) -> (v: Vec<char>)
    ensures
        v@ == s@,
{
    let mut v: Vec<char> = Vec::new();
    for c in it: s.chars()
        invariant
            v@ == it.seq().take(it.index() as int),
    {
        v.push(c);
    }
    v
}

/// A `String` holding the characters `v[from..to]`.
pub fn string_of_range(v: &Vec<char>, from: usize, to: usize) -> (s: String)
    requires
        from <= to <= v@.len(),
    ensures
        s@ == v@.subrange(from as int, to as int),
{
    let mut s = String::new();
    let mut i = from;
    while i < to
        invariant
            from <= i <= to <= v@.len(),
            s@ == v@.subrange(from as int, i as int),
        decreases to - i,
    {
        push_char(&mut s, v[i]);
        assert(v@.subrange(from as int, i + 1) =~= v@.subrange(from as int, i as int).push(v@[i as int]));
        i += 1;
    }
    s
}

/// The length of an all-ASCII string, which is both its byte and its character count.
pub fn ascii_len(s: &String) -> (n: usize)
    requires
        is_ascii_chars(s@),
        s@.len() <= usize::MAX,
    ensures
        n == s@.len(),
{
    let t = s.as_str();
    proof {
        is_ascii_chars_encode_utf8(t@);
    }
    t.len()
}


/// Unicode `White_Space`, the set std's `char::is_whitespace` tests for.
pub open spec fn is_ws(c: char) -> bool {
    ||| '\u{9}' <= c <= '\u{d}'
    ||| c == ' '
    ||| c == '\u{85}'
    ||| c == '\u{a0}'
    ||| c == '\u{1680}'
    ||| '\u{2000}' <= c <= '\u{200a}'
    ||| c == '\u{2028}'
    ||| c == '\u{2029}'
    ||| c == '\u{202f}'
    ||| c == '\u{205f}'
    ||| c == '\u{3000}'
}

/// Whether `c` is Unicode white space.
pub fn is_whitespace(c: char) -> (b: bool)
    ensures
        b == is_ws(c),
{
    ('\u{9}' <= c && c <= '\u{d}') || c == ' ' || c == '\u{85}' || c == '\u{a0}' || c
        == '\u{1680}' || ('\u{2000}' <= c && c <= '\u{200a}') || c == '\u{2028}' || c
        == '\u{2029}' || c == '\u{202f}' || c == '\u{205f}' || c == '\u{3000}'
}

/// `s` without its leading white space.
pub open spec fn trim_start(s: Seq<char>) -> Seq<char>
    decreases s.len(),
{
    if s.len() > 0 && is_ws(s[0]) {
        trim_start(s.drop_first())
    } else {
        s
    }
}

/// `s` without its trailing white space.
pub open spec fn trim_end(s: Seq<char>) -> Seq<char>
    decreases s.len(),
{
    if s.len() > 0 && is_ws(s.last()) {
        trim_end(s.drop_last())
    } else {
        s
    }
}

/// `s` without leading or trailing white space.
pub open spec fn trim(s: Seq<char>) -> Seq<char> {
    trim_end(trim_start(s))
}

/// The bounds of `v[from..to]` once trimmed.
pub fn trim_range(v: &Vec<char>, from: usize, to: usize) -> (r: (usize, usize))
    requires
        from <= to <= v@.len(),
    ensures
        from <= r.0 <= r.1 <= to,
        v@.subrange(r.0 as int, r.1 as int) == trim(v@.subrange(from as int, to as int)),
{
    let mut a = from;
    while a < to && is_whitespace(v[a])
        invariant
            from <= a <= to <= v@.len(),
            trim_start(v@.subrange(from as int, to as int)) == trim_start(
                v@.subrange(a as int, to as int),
            ),
        decreases to - a,
    {
        assert(v@.subrange(a as int, to as int).drop_first() =~= v@.subrange(a + 1, to as int));
        a = a + 1;
    }
    let mut b = to;
    while b > a && is_whitespace(v[b - 1])
        invariant
            from <= a <= b <= to <= v@.len(),
            trim_end(v@.subrange(a as int, to as int)) == trim_end(
                v@.subrange(a as int, b as int),
            ),
        decreases b - a,
    {
        assert(v@.subrange(a as int, b as int).drop_last() =~= v@.subrange(a as int, b - 1));
        b = b - 1;
    }
    (a, b)
}

/// Whether `pat` occurs in `s` at `i`.
pub open spec fn occurs_at(s: Seq<char>, i: int, pat: Seq<char>) -> bool {
    0 <= i && i + pat.len() <= s.len() && s.subrange(i, i + pat.len()) == pat
}

/// Whether `pat` occurs in `v` at `i`.
pub fn matches_at(v: &Vec<char>, i: usize, pat: &Vec<char>) -> (b: bool)
    ensures
        b == occurs_at(v@, i as int, pat@),
{
    if i > v.len() || pat.len() > v.len() - i {
        return false;
    }
    let mut k: usize = 0;
    while k < pat.len()
        invariant
            i + pat@.len() <= v@.len(),
            v@.len() == v.len(),
            k <= pat@.len(),
            forall|m: int| 0 <= m < k ==> v@[i + m] == pat@[m],
        decreases pat@.len() - k,
    {
        if v[i + k] != pat[k] {
            assert(v@.subrange(i as int, i + pat@.len())[k as int] != pat@[k as int]);
            return false;
        }
        k = k + 1;
    }
    assert(v@.subrange(i as int, i + pat@.len()) =~= pat@);
    true
}

/// `s` with every non-overlapping occurrence of the non-empty `pat`, scanning left to right,
/// replaced by `with` (std's `str::replace`).
pub open spec fn replace_all(s: Seq<char>, pat: Seq<char>, with: Seq<char>) -> Seq<char>
    recommends
        pat.len() > 0,
    decreases s.len(),
{
    if s.len() == 0 || pat.len() == 0 {
        s
    } else if occurs_at(s, 0, pat) {
        with + replace_all(s.skip(pat.len() as int), pat, with)
    } else {
        seq![s[0]] + replace_all(s.drop_first(), pat, with)
    }
}

/// Whether no character of `s` is `c`.
pub open spec fn lacks(s: Seq<char>, c: char) -> bool {
    forall|j: int| 0 <= j < s.len() ==> s[j] != c
}

proof fn lemma_occurs_after(a: Seq<char>, b: Seq<char>, i: int, p: Seq<char>)
    requires
        occurs_at(a + b, i, p),
        i >= a.len(),
    ensures
        occurs_at(b, i - a.len(), p),
{
    assert((a + b).subrange(i, i + p.len()) =~= b.subrange(i - a.len(), i - a.len() + p.len()));
}

proof fn lemma_occurs_suffix(t: Seq<char>, k: int, i: int, p: Seq<char>)
    requires
        0 <= k <= t.len(),
        occurs_at(t.skip(k), i, p),
    ensures
        occurs_at(t, i + k, p),
{
    assert(t.skip(k).subrange(i, i + p.len()) =~= t.subrange(i + k, i + k + p.len()));
}

/// Whether no occurrence of `p` can begin inside `with`, whatever follows it.
pub open spec fn starts_outside(with: Seq<char>, p: Seq<char>) -> bool {
    forall|x: Seq<char>, i: int| 0 <= i < with.len() ==> !#[trigger] occurs_at(with + x, i, p)
}

/// A `p` that does not begin with a character of `with` cannot begin inside it.
pub proof fn lemma_starts_outside_by_first(with: Seq<char>, p: Seq<char>)
    requires
        p.len() > 0,
        lacks(with, p[0]),
    ensures
        starts_outside(with, p),
{
    assert forall|x: Seq<char>, i: int| 0 <= i < with.len() implies !#[trigger] occurs_at(
        with + x,
        i,
        p,
    ) by {
        if occurs_at(with + x, i, p) {
            assert((with + x)[i] == with[i]);
            assert(p[0] == (with + x).subrange(i, i + p.len())[0]);
        }
    }
}

/// A `p` holding neither `with`'s last character nor, at `j`, any character of `with`'s
/// inside cannot begin inside `with`: it would have to end inside `with` (and hold its `j`th
/// character there) or run past its last character.
pub proof fn lemma_starts_outside_by_ends(with: Seq<char>, p: Seq<char>, j: int)
    requires
        with.len() > 0,
        0 <= j < p.len(),
        lacks(p, with.last()),
        lacks(with, p[j]),
    ensures
        starts_outside(with, p),
{
    assert forall|x: Seq<char>, i: int| 0 <= i < with.len() implies !#[trigger] occurs_at(
        with + x,
        i,
        p,
    ) by {
        if occurs_at(with + x, i, p) {
            let w = with + x;
            if i + p.len() >= with.len() {
                let k = with.len() - 1 - i;
                assert(w[with.len() - 1] == with.last());
                assert(p[k] == w.subrange(i, i + p.len())[k]);
            } else {
                assert(w[i + j] == with[i + j]);
                assert(p[j] == w.subrange(i, i + p.len())[j]);
            }
        }
    }
}

/// A `q` holding no `with[0]` that opens a replaced text already opened the original: the
/// characters before the first replacement are the original's.
proof fn lemma_replace_keeps_opening(s: Seq<char>, pat: Seq<char>, with: Seq<char>, q: Seq<char>)
    requires
        with.len() > 0,
        lacks(q, with[0]),
        occurs_at(replace_all(s, pat, with), 0, q),
    ensures
        occurs_at(s, 0, q),
    decreases s.len(),
{
    let r = replace_all(s, pat, with);
    if q.len() == 0 {
        assert(s.subrange(0, 0) =~= q);
    } else if s.len() == 0 || pat.len() == 0 {
        assert(r == s);
    } else {
        if occurs_at(s, 0, pat) {
            let rt = replace_all(s.skip(pat.len() as int), pat, with);
            assert(r == with + rt);
            assert(r[0] == with[0]);
            assert(q[0] == r.subrange(0, q.len() as int)[0]);
        } else {
            let t = s.drop_first();
            let rt = replace_all(t, pat, with);
            assert(r == seq![s[0]] + rt);
            assert(q[0] == r.subrange(0, q.len() as int)[0]);
            assert(r.subrange(1, q.len() as int) =~= rt.subrange(0, q.len() - 1));
            assert(rt.subrange(0, q.len() - 1) =~= q.drop_first()) by {
                assert forall|j: int| 0 <= j < q.len() - 1 implies rt.subrange(0, q.len() - 1)[j]
                    == q.drop_first()[j] by {
                    assert(r.subrange(0, q.len() as int)[j + 1] == q[j + 1]);
                }
            }
            lemma_replace_keeps_opening(t, pat, with, q.drop_first());
            assert(s.subrange(0, q.len() as int) =~= q) by {
                assert forall|j: int| 0 <= j < q.len() implies s.subrange(0, q.len() as int)[j]
                    == q[j] by {
                    if j > 0 {
                        assert(t.subrange(0, q.len() - 1)[j - 1] == q.drop_first()[j - 1]);
                    }
                }
            }
        }
    }
}

/// Replacing every `pat` leaves none behind, when `pat` holds no `with[0]` and does not begin
/// with a character of `with`.
pub proof fn lemma_replace_all_removes(s: Seq<char>, pat: Seq<char>, with: Seq<char>)
    requires
        pat.len() > 0,
        with.len() > 0,
        lacks(pat, with[0]),
        starts_outside(with, pat),
    ensures
        !contains_seq(replace_all(s, pat, with), pat),
    decreases s.len(),
{
    let r = replace_all(s, pat, with);
    if s.len() > 0 {
        if occurs_at(s, 0, pat) {
            let rt = replace_all(s.skip(pat.len() as int), pat, with);
            lemma_replace_all_removes(s.skip(pat.len() as int), pat, with);
            assert forall|i: int| !occurs_at(r, i, pat) by {
                if occurs_at(r, i, pat) {
                    if i < with.len() {
                        assert(r == with + rt);
                        assert(!occurs_at(with + rt, i, pat));
                    } else {
                        lemma_occurs_after(with, rt, i, pat);
                    }
                }
            }
        } else {
            let rt = replace_all(s.drop_first(), pat, with);
            lemma_replace_all_removes(s.drop_first(), pat, with);
            assert forall|i: int| !occurs_at(r, i, pat) by {
                if occurs_at(r, i, pat) {
                    if i == 0 {
                        lemma_replace_keeps_opening(s, pat, with, pat);
                    } else {
                        lemma_occurs_after(seq![s[0]], rt, i, pat);
                    }
                }
            }
        }
    }
}

/// Replacing `pat` brings in no `h` that was not there, when `h` holds no `with[0]` and does
/// not begin with a character of `with`.
pub proof fn lemma_replace_all_keeps_absent(t: Seq<char>, pat: Seq<char>, with: Seq<char>, h: Seq<char>)
    requires
        h.len() > 0,
        with.len() > 0,
        lacks(h, with[0]),
        starts_outside(with, h),
        !contains_seq(t, h),
    ensures
        !contains_seq(replace_all(t, pat, with), h),
    decreases t.len(),
{
    let r = replace_all(t, pat, with);
    if t.len() > 0 && pat.len() > 0 {
        if occurs_at(t, 0, pat) {
            let k = pat.len() as int;
            let rt = replace_all(t.skip(k), pat, with);
            assert forall|i: int| !occurs_at(t.skip(k), i, h) by {
                if occurs_at(t.skip(k), i, h) {
                    lemma_occurs_suffix(t, k, i, h);
                }
            }
            lemma_replace_all_keeps_absent(t.skip(k), pat, with, h);
            assert forall|i: int| !occurs_at(r, i, h) by {
                if occurs_at(r, i, h) {
                    if i < with.len() {
                        assert(r == with + rt);
                        assert(!occurs_at(with + rt, i, h));
                    } else {
                        lemma_occurs_after(with, rt, i, h);
                    }
                }
            }
        } else {
            let rt = replace_all(t.drop_first(), pat, with);
            assert forall|i: int| !occurs_at(t.drop_first(), i, h) by {
                if occurs_at(t.drop_first(), i, h) {
                    lemma_occurs_suffix(t, 1, i, h);
                }
            }
            lemma_replace_all_keeps_absent(t.drop_first(), pat, with, h);
            assert forall|i: int| !occurs_at(r, i, h) by {
                if occurs_at(r, i, h) {
                    if i == 0 {
                        lemma_replace_keeps_opening(t, pat, with, h);
                    } else {
                        lemma_occurs_after(seq![t[0]], rt, i, h);
                    }
                }
            }
        }
    }
}

/// Replaces every non-overlapping occurrence of `pat` (non-empty) in `v`, left to right.
pub fn replace_in(v: &Vec<char>, pat: &Vec<char>, with: &Vec<char>) -> (r: Vec<char>)
    requires
        pat@.len() > 0,
    ensures
        r@ == replace_all(v@, pat@, with@),
{
    let mut out: Vec<char> = Vec::new();
    let mut i: usize = 0;
    assert(v@.skip(0) =~= v@);
    while i < v.len()
        invariant
            pat@.len() > 0,
            i <= v@.len(),
            replace_all(v@, pat@, with@) == out@ + replace_all(v@.skip(i as int), pat@, with@),
        decreases v@.len() - i,
    {
        let ghost rest = v@.skip(i as int);
        if matches_at(v, i, pat) {
            assert(occurs_at(rest, 0, pat@)) by {
                assert(rest.subrange(0, pat@.len() as int) =~= v@.subrange(
                    i as int,
                    i + pat@.len(),
                ));
            }
            assert(rest.skip(pat@.len() as int) =~= v@.skip(i + pat@.len()));
            let mut k: usize = 0;
            let ghost before = out@;
            while k < with.len()
                invariant
                    k <= with@.len(),
                    out@ == before + with@.take(k as int),
                decreases with@.len() - k,
            {
                out.push(with[k]);
                assert(with@.take(k + 1) =~= with@.take(k as int).push(with@[k as int]));
                k = k + 1;
            }
            assert(with@.take(k as int) =~= with@);
            assert(out@ + replace_all(v@.skip(i + pat@.len()), pat@, with@) =~= before + (with@
                + replace_all(rest.skip(pat@.len() as int), pat@, with@)));
            i = i + pat.len();
        } else {
            assert(!occurs_at(rest, 0, pat@)) by {
                if occurs_at(rest, 0, pat@) {
                    assert(rest.subrange(0, pat@.len() as int) =~= v@.subrange(
                        i as int,
                        i + pat@.len(),
                    ));
                }
            }
            assert(rest.drop_first() =~= v@.skip(i + 1));
            let ghost before = out@;
            out.push(v[i]);
            assert(out@ + replace_all(v@.skip(i + 1), pat@, with@) =~= before + (seq![rest[0]]
                + replace_all(rest.drop_first(), pat@, with@)));
            i = i + 1;
        }
    }
    assert(v@.skip(i as int) =~= Seq::<char>::empty());
    assert(out@ + Seq::<char>::empty() =~= out@);
    out
}


/// Where the first `'\n'` of `s` is, or `s.len()` when there is none.
pub open spec fn newline_index(s: Seq<char>) -> nat
    decreases s.len(),
{
    if s.len() == 0 {
        0
    } else if s[0] == '\n' {
        0
    } else {
        1 + newline_index(s.drop_first())
    }
}

/// A line without the `'\r'` of a `"\r\n"` ending.
pub open spec fn strip_cr(line: Seq<char>) -> Seq<char> {
    if line.len() > 0 && line.last() == '\r' {
        line.drop_last()
    } else {
        line
    }
}

/// The lines of `s` as std's `str::lines` gives them: split at `"\n"` or `"\r\n"`, with an
/// optional final line ending and no line at all for the empty string.
pub open spec fn lines(s: Seq<char>) -> Seq<Seq<char>>
    decreases s.len(),
{
    if s.len() == 0 {
        Seq::empty()
    } else if newline_index(s) < s.len() {
        seq![strip_cr(s.take(newline_index(s) as int))] + lines(
            s.skip(newline_index(s) as int + 1),
        )
    } else {
        seq![s]
    }
}

/// The end of the line of `v` that starts at `i`: the index of the next `'\n'`, or the end.
pub fn line_end(v: &Vec<char>, i: usize) -> (j: usize)
    requires
        i <= v@.len(),
    ensures
        i <= j <= v@.len(),
        newline_index(v@.skip(i as int)) == j - i,
        j < v@.len() ==> v@[j as int] == '\n',
{
    let mut j = i;
    while j < v.len() && v[j] != '\n'
        invariant
            i <= j <= v@.len(),
            newline_index(v@.skip(i as int)) == (j - i) + newline_index(v@.skip(j as int)),
        decreases v@.len() - j,
    {
        assert(v@.skip(j as int).drop_first() =~= v@.skip(j + 1));
        j = j + 1;
    }
    j
}

/// The lines of `v@.skip(i)`, unfolded once at a line that ends at `j`.
pub proof fn lemma_lines_step(s: Seq<char>, i: int, j: int)
    requires
        0 <= i < j <= s.len() || (0 <= i == j < s.len()),
        newline_index(s.skip(i)) == j - i,
    ensures
        j < s.len() ==> lines(s.skip(i)) == seq![strip_cr(s.subrange(i, j))] + lines(
            s.skip(j + 1),
        ),
        j == s.len() ==> lines(s.skip(i)) == seq![s.subrange(i, j)],
{
    let rest = s.skip(i);
    assert(rest.len() > 0);
    assert(rest.take(j - i) =~= s.subrange(i, j));
    if j < s.len() {
        assert(rest.skip(j - i + 1) =~= s.skip(j + 1));
    }
    assert(rest =~= s.subrange(i, s.len() as int));
}

/// Whether `c` is a control character (general category `Cc`), as std's `char::is_control`.
pub open spec fn is_cc(c: char) -> bool {
    ('\u{0}' <= c <= '\u{1f}') || ('\u{7f}' <= c <= '\u{9f}')
}

/// Whether `c` is a control character.
pub fn is_control(c: char) -> (b: bool)
    ensures
        b == is_cc(c),
{
    ('\u{0}' <= c && c <= '\u{1f}') || ('\u{7f}' <= c && c <= '\u{9f}')
}

/// The words of `s` (runs of non-white-space) joined by single spaces, from a state where a
/// word has or has not been emitted and white space has or has not been seen since.
pub open spec fn collapse_from(s: Seq<char>, started: bool, gap: bool) -> Seq<char>
    decreases s.len(),
{
    if s.len() == 0 {
        Seq::empty()
    } else if is_ws(s[0]) {
        collapse_from(s.drop_first(), started, true)
    } else {
        (if started && gap {
            seq![' ']
        } else {
            Seq::empty()
        }) + seq![s[0]] + collapse_from(s.drop_first(), true, false)
    }
}

/// The words of `s` joined by single spaces (std's `split_whitespace` then `join(" ")`).
pub open spec fn collapse_ws(s: Seq<char>) -> Seq<char> {
    collapse_from(s, false, false)
}

/// Joins the words of `v[from..to]` with single spaces.
pub fn collapse_range(v: &Vec<char>, from: usize, to: usize) -> (r: Vec<char>)
    requires
        from <= to <= v@.len(),
    ensures
        r@ == collapse_ws(v@.subrange(from as int, to as int)),
{
    let mut out: Vec<char> = Vec::new();
    let mut started = false;
    let mut gap = false;
    let mut i = from;
    while i < to
        invariant
            from <= i <= to <= v@.len(),
            collapse_ws(v@.subrange(from as int, to as int)) == out@ + collapse_from(
                v@.subrange(i as int, to as int),
                started,
                gap,
            ),
        decreases to - i,
    {
        let c = v[i];
        let ghost rest = v@.subrange(i as int, to as int);
        assert(rest.drop_first() =~= v@.subrange(i + 1, to as int));
        if is_whitespace(c) {
            gap = true;
        } else {
            let ghost before = out@;
            if started && gap {
                out.push(' ');
            }
            out.push(c);
            assert(out@ =~= before + (if started && gap {
                seq![' ']
            } else {
                Seq::<char>::empty()
            }) + seq![c]);
            started = true;
            gap = false;
        }
        i = i + 1;
    }
    assert(out@ + Seq::<char>::empty() =~= out@);
    out
}


/// A copy of `v[from..to]`.
pub fn subvec(v: &Vec<char>, from: usize, to: usize) -> (r: Vec<char>)
    requires
        from <= to <= v@.len(),
    ensures
        r@ == v@.subrange(from as int, to as int),
{
    let mut r: Vec<char> = Vec::new();
    let mut i = from;
    while i < to
        invariant
            from <= i <= to <= v@.len(),
            r@ == v@.subrange(from as int, i as int),
        decreases to - i,
    {
        r.push(v[i]);
        assert(v@.subrange(from as int, i + 1) =~= v@.subrange(from as int, i as int).push(
            v@[i as int],
        ));
        i = i + 1;
    }
    r
}

/// Whether two strings hold the same characters.
pub fn same_text(a: &str, b: &str) -> (r: bool)
    ensures
        r == (a@ == b@),
{
    let av = chars_of(a);
    let bv = chars_of(b);
    if av.len() != bv.len() {
        return false;
    }
    let m = matches_at(&av, 0, &bv);
    assert(av@.subrange(0, av@.len() as int) =~= av@);
    m
}

/// The bounds of the line of `v` that starts at `i` (without its line ending), and where the
/// next line starts.
pub fn line_bounds(v: &Vec<char>, i: usize) -> (r: (usize, usize))
    requires
        i < v@.len(),
    ensures
        i <= r.0 <= r.1 <= v@.len(),
        i < r.1,
        lines(v@.skip(i as int)) == seq![v@.subrange(i as int, r.0 as int)] + lines(
            v@.skip(r.1 as int),
        ),
{
    let j = line_end(v, i);
    proof {
        lemma_lines_step(v@, i as int, j as int);
    }
    if j < v.len() {
        let e = if j > i && v[j - 1] == '\r' {
            j - 1
        } else {
            j
        };
        assert(strip_cr(v@.subrange(i as int, j as int)) =~= v@.subrange(i as int, e as int));
        (e, j + 1)
    } else {
        assert(v@.skip(j as int) =~= Seq::<char>::empty());
        assert(seq![v@.subrange(i as int, j as int)] + Seq::<Seq<char>>::empty() =~= seq![
            v@.subrange(i as int, j as int),
        ]);
        (j, j)
    }
}

/// The character for a decimal digit.
pub open spec fn digit_char(d: int) -> char {
    if d == 0 {
        '0'
    } else if d == 1 {
        '1'
    } else if d == 2 {
        '2'
    } else if d == 3 {
        '3'
    } else if d == 4 {
        '4'
    } else if d == 5 {
        '5'
    } else if d == 6 {
        '6'
    } else if d == 7 {
        '7'
    } else if d == 8 {
        '8'
    } else {
        '9'
    }
}

/// `n` written in decimal, most significant digit first, without leading zeros.
pub open spec fn decimal(n: nat) -> Seq<char>
    decreases n,
{
    if n < 10 {
        seq![digit_char(n as int)]
    } else {
        decimal(n / 10).push(digit_char((n % 10) as int))
    }
}

fn digit(d: u128) -> (c: char)
    requires
        d < 10,
    ensures
        c == digit_char(d as int),
{
    if d == 0 {
        '0'
    } else if d == 1 {
        '1'
    } else if d == 2 {
        '2'
    } else if d == 3 {
        '3'
    } else if d == 4 {
        '4'
    } else if d == 5 {
        '5'
    } else if d == 6 {
        '6'
    } else if d == 7 {
        '7'
    } else if d == 8 {
        '8'
    } else {
        '9'
    }
}

/// Appends `n` in decimal to `s`.
pub fn push_decimal(s: &mut String, n: u128)
    ensures
        final(s)@ == old(s)@ + decimal(n as nat),
    decreases n,
{
    if n >= 10 {
        push_decimal(s, n / 10);
    }
    push_char(s, digit(n % 10));
}

/// `c` with ASCII upper-case letters made lower-case, as `char::to_ascii_lowercase` does.
pub open spec fn ascii_lower(c: char) -> char {
    if 'A' <= c <= 'Z' {
        ((c as u32) + 32) as char
    } else {
        c
    }
}

/// `s` with its ASCII letters made lower-case.
pub open spec fn ascii_lowered(s: Seq<char>) -> Seq<char> {
    s.map_values(|c: char| ascii_lower(c))
}

/// A copy of `s` with its ASCII letters made lower-case (`str::to_ascii_lowercase`).
pub fn ascii_lowercase(s: &str) -> (r: String)
    ensures
        r@ == ascii_lowered(s@),
{
    let mut r = String::new();
    for c in it: s.chars()
        invariant
            r@ == ascii_lowered(it.seq().take(it.index() as int)),
    {
        let l = if 'A' <= c && c <= 'Z' {
            ((c as u32) + 32) as u8 as char
        } else {
            c
        };
        push_char(&mut r, l);
        assert(ascii_lowered(it.seq().take(it.index() + 1)) =~= ascii_lowered(
            it.seq().take(it.index() as int),
        ).push(ascii_lower(c)));
    }
    r
}

/// The characters of an optional `String`.
pub open spec fn opt_chars(o: Option<String>) -> Option<Seq<char>> {
    match o {
        Some(s) => Some(s@),
        None => None,
    }
}

/// A copy of `s` without its leading and trailing white space (`str::trim`).
pub fn trimmed(s: &str) -> (r: String)
    ensures
        r@ == trim(s@),
{
    let v = chars_of(s);
    let (a, b) = trim_range(&v, 0, v.len());
    assert(v@.subrange(0, v@.len() as int) =~= v@);
    string_of_range(&v, a, b)
}

/// Whether `s` is empty once trimmed, without copying it.
pub fn is_blank(s: &str) -> (b: bool)
    ensures
        b == (trim(s@).len() == 0),
{
    let v = chars_of(s);
    let (a, b) = trim_range(&v, 0, v.len());
    assert(v@.subrange(0, v@.len() as int) =~= v@);
    a == b
}

/// `parts` joined with `sep` between each two.
pub open spec fn joined(parts: Seq<Seq<char>>, sep: Seq<char>) -> Seq<char>
    decreases parts.len(),
{
    if parts.len() == 0 {
        Seq::empty()
    } else if parts.len() == 1 {
        parts[0]
    } else {
        joined(parts.drop_last(), sep) + sep + parts.last()
    }
}

/// The characters of each string.
pub open spec fn all_chars(v: Seq<String>) -> Seq<Seq<char>> {
    v.map_values(|s: String| s@)
}

/// The strings of `parts` joined with `sep` (`[String]::join`).
pub fn join(parts: &Vec<String>, sep: &str) -> (r: String)
    ensures
        r@ == joined(all_chars(parts@), sep@),
{
    let mut r = String::new();
    let mut i: usize = 0;
    while i < parts.len()
        invariant
            i <= parts@.len(),
            r@ == joined(all_chars(parts@.take(i as int)), sep@),
        decreases parts@.len() - i,
    {
        if i > 0 {
            push_str(&mut r, sep);
        }
        push_str(&mut r, parts[i].as_str());
        assert(all_chars(parts@.take(i + 1)).drop_last() =~= all_chars(parts@.take(i as int)));
        assert(all_chars(parts@.take(i + 1)).last() == parts@[i as int]@);
        if i == 0 {
            assert(all_chars(parts@.take(1)) =~= seq![parts@[0]@]);
        }
        i = i + 1;
    }
    assert(parts@.take(parts@.len() as int) =~= parts@);
    r
}

/// Whether `pat` occurs anywhere in `s`.
pub open spec fn contains_seq(s: Seq<char>, pat: Seq<char>) -> bool {
    exists|i: int| occurs_at(s, i, pat)
}

/// Whether `pat` occurs anywhere in `hay` (`str::contains`).
pub fn contains_text(hay: &str, pat: &str) -> (b: bool)
    ensures
        b == contains_seq(hay@, pat@),
{
    let v = chars_of(hay);
    let p = chars_of(pat);
    let mut i: usize = 0;
    while i < v.len()
        invariant
            v@ == hay@,
            p@ == pat@,
            i <= v@.len(),
            forall|j: int| 0 <= j < i ==> !occurs_at(v@, j, p@),
        decreases v@.len() - i,
    {
        if matches_at(&v, i, &p) {
            return true;
        }
        i = i + 1;
    }
    matches_at(&v, i, &p)
}

} // verus!
