//! Startup configuration: the idle timeout taken from the command line.
//!
//! The single configuration value is the idle timeout in seconds: the minimum
//! duration of continuous no-motion required before the display may be
//! powered off. It is passed as `--timeout <n>` or `-t <n>`, accepts only
//! positive integers, and any invalid or missing input falls back to the
//! default of 30 seconds with a warning, never an abort.

use vstd::prelude::*;

verus! {

/// The idle timeout used when none (or an invalid one) is supplied.
pub const DEFAULT_TIMEOUT_SECS: i64 = 30;

/// Why the configured timeout fell back to the default.
#[derive(Clone, Copy, Debug, PartialEq, Eq, Structural)]
pub enum ConfigWarning {
    /// The value after the timeout flag was not a positive integer.
    NotAPositiveInteger,
    /// The arguments did not form a single flag-and-value pair.
    UnpairedArgs,
}

/// A decimal digit, `'0'` through `'9'`.
pub open spec fn is_dec_digit(c: char) -> bool {
    48 <= c as int <= 57
}

/// The numeric value of a decimal digit.
pub open spec fn digit_value(c: char) -> int {
    c as int - 48
}

/// The value of a sequence of decimal digits, most significant first.
pub open spec fn dec_value(s: Seq<char>) -> int
    decreases s.len(),
{
    if s.len() == 0 {
        0
    } else {
        dec_value(s.drop_last()) * 10 + digit_value(s.last())
    }
}

/// Every character of the sequence is a decimal digit.
pub open spec fn all_digits(s: Seq<char>) -> bool {
    forall|i: int| 0 <= i < s.len() ==> is_dec_digit(#[trigger] s[i])
}

/// The digits of a numeral: the whole string, less one optional leading `'+'`.
pub open spec fn digits_of(s: Seq<char>) -> Seq<char> {
    if s.len() > 0 && s[0] == '+' {
        s.subrange(1, s.len() as int)
    } else {
        s
    }
}

/// Whether the string is a positive integer that fits an `i64`: an optional
/// leading `'+'`, then at least one decimal digit, with value between 1 and
/// `i64::MAX`.
pub open spec fn is_positive_numeral(s: Seq<char>) -> bool {
    let d = digits_of(s);
    d.len() > 0 && all_digits(d) && 1 <= dec_value(d) <= i64::MAX
}

/// The value of a positive numeral.
pub open spec fn numeral_value(s: Seq<char>) -> int {
    dec_value(digits_of(s))
}

/// The timeout the argument list configures: the supplied value when the
/// arguments are exactly a timeout flag followed by a positive integer, and
/// the default in every other case.
pub open spec fn spec_parse_args(args: Seq<Seq<char>>) -> int {
    if args.len() == 3 && (args[1] == "--timeout"@ || args[1] == "-t"@) {
        if is_positive_numeral(args[2]) {
            numeral_value(args[2])
        } else {
            DEFAULT_TIMEOUT_SECS as int
        }
    } else {
        DEFAULT_TIMEOUT_SECS as int
    }
}

/// The warning the argument list deserves: none when no arguments are passed
/// (the program name alone) or when a valid pair is passed; otherwise which
/// of the two ways the input was rejected.
pub open spec fn spec_arg_warning(args: Seq<Seq<char>>) -> Option<ConfigWarning> {
    if args.len() == 3 && (args[1] == "--timeout"@ || args[1] == "-t"@) {
        if is_positive_numeral(args[2]) {
            None
        } else {
            Some(ConfigWarning::NotAPositiveInteger)
        }
    } else if args.len() == 1 {
        None
    } else {
        Some(ConfigWarning::UnpairedArgs)
    }
}

/// The value of a sequence of digits is never negative.
proof fn lemma_dec_value_nonneg(s: Seq<char>)
    requires
        all_digits(s),
    ensures
        dec_value(s) >= 0,
    decreases s.len(),
{
    if s.len() > 0 {
        assert(all_digits(s.drop_last())) by {
            assert(forall|i: int|
                0 <= i < s.drop_last().len() ==> s.drop_last()[i] == s[i]);
        }
        lemma_dec_value_nonneg(s.drop_last());
        assert(is_dec_digit(s.last()));
    }
}

/// Parses a positive decimal integer: an optional leading `'+'`, then at
/// least one digit, with value between 1 and `i64::MAX`. Returns `None` for
/// anything else — an empty string, a stray character, zero, or a value too
/// large for an `i64`.
pub fn parse_positive_i64(s: &str) -> (r: Option<i64>)
    ensures
        r is Some <==> is_positive_numeral(s@),
        r matches Some(v) ==> v == numeral_value(s@),
{
    let n = s.unicode_len();
    let has_plus: bool = n > 0 && s.get_char(0) == '+';
    let start: usize = if has_plus {
        1
    } else {
        0
    };
    assert(digits_of(s@) =~= s@.subrange(start as int, n as int));
    if n == start {
        assert(digits_of(s@).len() == 0);
        return None;
    }
    let bound: i128 = i64::MAX as i128;
    let mut acc: i128 = 0;
    let mut i: usize = start;
    while i < n
        invariant
            start <= i <= n,
            n == s@.len(),
            start == 0 || start == 1,
            digits_of(s@) =~= s@.subrange(start as int, n as int),
            bound == i64::MAX as i128,
            all_digits(s@.subrange(start as int, i as int)),
            0 <= acc <= bound + 1,
            acc <= bound ==> acc == dec_value(s@.subrange(start as int, i as int)),
            acc == bound + 1 ==> dec_value(s@.subrange(start as int, i as int)) > bound,
        decreases n - i,
    {
        let c = s.get_char(i);
        let cv = c as u32;
        if cv < 48 || cv > 57 {
            assert(!is_dec_digit(s@[i as int]));
            assert(digits_of(s@)[i as int - start as int] == s@[i as int]);
            assert(!all_digits(digits_of(s@)));
            return None;
        }
        let ghost pre = s@.subrange(start as int, i as int);
        let ghost cur = s@.subrange(start as int, i as int + 1);
        assert(cur.drop_last() =~= pre);
        assert(cur.last() == s@[i as int]);
        proof {
            lemma_dec_value_nonneg(pre);
        }
        let dv = (cv - 48) as i128;
        let grown = acc * 10 + dv;
        proof {
            if acc == bound + 1 {
                assert(dec_value(pre) * 10 + digit_value(s@[i as int]) > bound);
            }
        }
        if grown > bound {
            acc = bound + 1;
        } else {
            acc = grown;
        }
        i = i + 1;
    }
    assert(s@.subrange(start as int, i as int) =~= digits_of(s@));
    if acc == 0 || acc > bound {
        return None;
    }
    Some(acc as i64)
}

/// Evaluates the command-line arguments (the program name included, as the
/// first element): the idle timeout to use, and the warning the caller should
/// report, if any. The timeout is the supplied value when the arguments are
/// exactly `--timeout <n>` or `-t <n>` with `n` a positive integer, and the
/// default of 30 seconds in every other case; it is therefore always
/// positive.
pub fn evaluate_args(args: &Vec<String>) -> (r: (i64, Option<ConfigWarning>))
    ensures
        r.0 == spec_parse_args(args.deep_view()),
        r.1 == spec_arg_warning(args.deep_view()),
        r.0 >= 1,
{
    proof {
        if args@.len() == 3 {
            assert(args.deep_view()[1] == args@[1]@);
            assert(args.deep_view()[2] == args@[2]@);
        }
    }
    if args.len() == 3 {
        let flag_long: String = "--timeout".to_owned();
        let flag_short: String = "-t".to_owned();
        let is_flag = args[1] == flag_long || args[1] == flag_short;
        if is_flag {
            match parse_positive_i64(args[2].as_str()) {
                Some(v) => (v, None),
                None => (DEFAULT_TIMEOUT_SECS, Some(ConfigWarning::NotAPositiveInteger)),
            }
        } else {
            (DEFAULT_TIMEOUT_SECS, Some(ConfigWarning::UnpairedArgs))
        }
    } else if args.len() == 1 {
        (DEFAULT_TIMEOUT_SECS, None)
    } else {
        (DEFAULT_TIMEOUT_SECS, Some(ConfigWarning::UnpairedArgs))
    }
}

/// Parses the command-line arguments into the idle timeout seconds, falling
/// back to the default of 30 on any invalid or missing input.
pub fn parse_args(args: Vec<String>) -> (t: i64)
    ensures
        t == spec_parse_args(args.deep_view()),
        t >= 1,
{
    let r = evaluate_args(&args);
    r.0
}

} // verus!
