//! Reading the command line the player was started with: the media to open, the post-crash
//! notice helper's flag and the crash drill's flag.
use vstd::prelude::*;

use crate::text::{chars_of, same_text};

verus! {

broadcast use vstd::string::group_string_axioms;

/// Argv flag that turns this executable into the post-crash notice helper:
/// `freally-player --crash-notice <pid-of-the-process-that-died>`.
pub const CRASH_NOTICE_FLAG: &'static str = "--crash-notice";

/// Argv flag that crashes the app on purpose a few seconds after launch, to drill the crash
/// loop.
pub const TEST_CRASH_FLAG: &'static str = "--test-crash";

/// The value of a string of decimal digits.
pub open spec fn digits_value(s: Seq<char>) -> int
    decreases s.len(),
{
    if s.len() == 0 {
        0
    } else {
        digits_value(s.drop_last()) * 10 + (s.last() as int - '0' as int)
    }
}

/// Whether every character of `s` is an ASCII digit.
pub open spec fn all_digits(s: Seq<char>) -> bool {
    forall|i: int| 0 <= i < s.len() ==> '0' <= #[trigger] s[i] <= '9'
}

/// `s` read as a `u32` the way std's `str::parse::<u32>` reads it: an optional `+`, then one
/// or more decimal digits whose value fits.
pub open spec fn parsed_u32(s: Seq<char>) -> Option<u32> {
    let d = if s.len() > 0 && s[0] == '+' {
        s.drop_first()
    } else {
        s
    };
    if d.len() > 0 && all_digits(d) && digits_value(d) <= u32::MAX {
        Some(digits_value(d) as u32)
    } else {
        None
    }
}

proof fn lemma_digits_value_nonneg(s: Seq<char>)
    requires
        all_digits(s),
    ensures
        digits_value(s) >= 0,
    decreases s.len(),
{
    if s.len() > 0 {
        assert(all_digits(s.drop_last())) by {
            assert forall|i: int| 0 <= i < s.drop_last().len() implies '0' <= #[trigger] s.drop_last()[i] <= '9' by {
                assert(s.drop_last()[i] == s[i]);
            }
        }
        lemma_digits_value_nonneg(s.drop_last());
        assert('0' <= s[s.len() - 1] <= '9');
    }
}

/// Reads a decimal `u32` as std's `str::parse::<u32>` does.
pub fn parse_u32(s: &str) -> (r: Option<u32>)
    ensures
        r == parsed_u32(s@),
{
    let v = chars_of(s);
    let start: usize = if v.len() > 0 && v[0] == '+' {
        1
    } else {
        0
    };
    let ghost d = if s@.len() > 0 && s@[0] == '+' {
        s@.drop_first()
    } else {
        s@
    };
    assert(d =~= v@.skip(start as int));
    if start >= v.len() {
        return None;
    }
    let mut acc: u64 = 0;
    let mut over = false;
    let mut i = start;
    while i < v.len()
        invariant
            start <= i <= v@.len(),
            start < v@.len(),
            d == v@.skip(start as int),
            v@ == s@,
            d == (if s@.len() > 0 && s@[0] == '+' {
                s@.drop_first()
            } else {
                s@
            }),
            all_digits(v@.subrange(start as int, i as int)),
            !over ==> acc == digits_value(v@.subrange(start as int, i as int)) && acc
                <= u32::MAX,
            over ==> digits_value(v@.subrange(start as int, i as int)) > u32::MAX,
        decreases v@.len() - i,
    {
        let c = v[i];
        if !('0' <= c && c <= '9') {
            assert(d[i - start] == c);
            assert(!all_digits(d));
            return None;
        }
        let ghost prev = v@.subrange(start as int, i as int);
        let ghost next = v@.subrange(start as int, i + 1);
        assert(next.drop_last() =~= prev);
        assert(all_digits(next)) by {
            assert forall|k: int| 0 <= k < next.len() implies '0' <= #[trigger] next[k] <= '9' by {
                if k < prev.len() {
                    assert(next[k] == prev[k]);
                }
            }
        }
        proof {
            lemma_digits_value_nonneg(prev);
        }
        let digit = (c as u32 - '0' as u32) as u64;
        if !over {
            let candidate = acc * 10 + digit;
            if candidate > 0xFFFF_FFFF {
                over = true;
            } else {
                acc = candidate;
            }
        }
        i = i + 1;
    }
    assert(v@.subrange(start as int, v@.len() as int) =~= d);
    if over {
        None
    } else {
        Some(acc as u32)
    }
}

/// Whether this process is the post-crash notice helper and, if so, which process died: the
/// first `--crash-notice` argument, and the pid that follows it when it reads as a `u32`.
pub fn crash_notice_request(args: &Vec<String>) -> (r: Option<Option<u32>>)
    ensures
        r is None <==> forall|i: int| 0 <= i < args@.len() ==> args@[i]@ != CRASH_NOTICE_FLAG@,
        r is Some ==> exists|i: int|
            0 <= i < args@.len() && #[trigger] args@[i]@ == CRASH_NOTICE_FLAG@ && (forall|k: int|
                0 <= k < i ==> args@[k]@ != CRASH_NOTICE_FLAG@) && r->0 == (if i + 1 < args@.len() {
                parsed_u32(args@[i + 1]@)
            } else {
                None
            }),
{
    let mut i: usize = 0;
    while i < args.len()
        invariant
            i <= args@.len(),
            forall|k: int| 0 <= k < i ==> args@[k]@ != CRASH_NOTICE_FLAG@,
        decreases args@.len() - i,
    {
        if same_text(args[i].as_str(), CRASH_NOTICE_FLAG) {
            let pid = if i + 1 < args.len() {
                parse_u32(args[i + 1].as_str())
            } else {
                None
            };
            return Some(pid);
        }
        i = i + 1;
    }
    None
}

/// Whether the crash drill was asked for.
pub fn wants_test_crash(args: &Vec<String>) -> (r: bool)
    ensures
        r == exists|i: int| 0 <= i < args@.len() && args@[i]@ == TEST_CRASH_FLAG@,
{
    let mut i: usize = 0;
    while i < args.len()
        invariant
            i <= args@.len(),
            forall|k: int| 0 <= k < i ==> args@[k]@ != TEST_CRASH_FLAG@,
        decreases args@.len() - i,
    {
        if same_text(args[i].as_str(), TEST_CRASH_FLAG) {
            return true;
        }
        i = i + 1;
    }
    false
}

/// Whether an argument is a flag (it starts with `-`).
pub open spec fn is_flag(arg: Seq<char>) -> bool {
    arg.len() > 0 && arg[0] == '-'
}

/// The first argument after the program name that is not a flag, skipping the value that
/// follows `--crash-notice`, from position `i` on.
pub open spec fn media_arg_from(args: Seq<String>, i: int) -> Option<Seq<char>>
    decreases args.len() - i,
{
    if i < 1 || i >= args.len() {
        None
    } else if args[i]@ == CRASH_NOTICE_FLAG@ {
        if i + 1 < args.len() {
            media_arg_from(args, i + 2)
        } else {
            None
        }
    } else if is_flag(args[i]@) {
        media_arg_from(args, i + 1)
    } else {
        Some(args[i]@)
    }
}

/// The media target the app was launched with, if any: flags and the crash helper's pid are
/// never taken for a file name.
pub fn media_from_args(args: &Vec<String>) -> (r: Option<String>)
    ensures
        match r {
            Some(s) => media_arg_from(args@, 1) == Some(s@),
            None => media_arg_from(args@, 1) is None,
        },
{
    let mut i: usize = 1;
    while i < args.len()
        invariant
            1 <= i,
            media_arg_from(args@, 1) == media_arg_from(args@, i as int),
        decreases args@.len() - i,
    {
        let arg = args[i].as_str();
        if same_text(arg, CRASH_NOTICE_FLAG) {
            if i + 1 >= args.len() {
                return None;
            }
            i = i + 2;
            continue;
        }
        let v = chars_of(arg);
        if v.len() > 0 && v[0] == '-' {
            i = i + 1;
            continue;
        }
        return Some(args[i].clone());
    }
    None
}

} // verus!
