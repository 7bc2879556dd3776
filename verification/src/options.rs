//! Driver options and the pure part of command-line parsing: turning an
//! argument list into an `Options` value. Reading the process arguments and
//! printing help are the surrounding application's concern.

use vstd::arithmetic::div_mod::{lemma_fundamental_div_mod, lemma_mod_bound};
use vstd::prelude::*;

verus! {

/// Options of the interactive driver: code length, attempt budget, and the
/// half-open symbol range `number_min..number_max`.
#[derive(Clone, Copy, Debug, PartialEq, Eq, Structural)]
pub struct Options {
    pub length: usize,
    pub max_attempts: usize,
    pub number_min: i32,
    pub number_max: i32,
}

impl Options {
    /// The built-in defaults: four symbols per code, ten attempts, symbols
    /// drawn from zero to nine.
    pub open spec fn spec_default() -> Options {
        Options { length: 4, max_attempts: 10, number_min: 0, number_max: 9 }
    }
}

impl Default for Options {
    fn default() -> (r: Self)
        ensures
            r == Options::spec_default(),
    {
        Options { length: 4, max_attempts: 10, number_min: 0, number_max: 9 }
    }
}

/// `c` is a decimal digit character.
pub open spec fn is_digit(c: char) -> bool {
    48 <= (c as u32) && (c as u32) <= 57
}

/// Numeric value of a decimal digit character.
pub open spec fn digit_val(c: char) -> int {
    (c as u32) - 48
}

/// Every character of `s` is a decimal digit.
pub open spec fn all_digits(s: Seq<char>) -> bool {
    forall|i: int| 0 <= i < s.len() ==> is_digit(#[trigger] s[i])
}

/// Value of a digit string read in base ten.
pub open spec fn digits_val(s: Seq<char>) -> int
    decreases s.len(),
{
    if s.len() == 0 {
        0
    } else {
        digits_val(s.drop_last()) * 10 + digit_val(s.last())
    }
}

/// The digit body of an unsigned numeral: what follows an optional `+`.
pub open spec fn unsigned_body(s: Seq<char>) -> Seq<char> {
    if s.len() > 0 && s[0] == '+' {
        s.drop_first()
    } else {
        s
    }
}

/// `s` is a well-formed unsigned numeral whose value fits a `usize`.
pub open spec fn usize_ok(s: Seq<char>) -> bool {
    let d = unsigned_body(s);
    d.len() > 0 && all_digits(d) && digits_val(d) <= usize::MAX
}

/// The digit body of a signed numeral: what follows an optional sign.
pub open spec fn signed_body(s: Seq<char>) -> Seq<char> {
    if s.len() > 0 && (s[0] == '+' || s[0] == '-') {
        s.drop_first()
    } else {
        s
    }
}

/// The numeral `s` carries a minus sign.
pub open spec fn signed_neg(s: Seq<char>) -> bool {
    s.len() > 0 && s[0] == '-'
}

/// `s` is a well-formed signed numeral whose value fits an `i32`.
pub open spec fn i32_ok(s: Seq<char>) -> bool {
    let d = signed_body(s);
    d.len() > 0 && all_digits(d) && (if signed_neg(s) {
        digits_val(d) <= 0x8000_0000
    } else {
        digits_val(d) <= 0x7fff_ffff
    })
}

/// Value of a well-formed signed numeral.
pub open spec fn i32_val(s: Seq<char>) -> int {
    if signed_neg(s) {
        -digits_val(signed_body(s))
    } else {
        digits_val(signed_body(s))
    }
}

proof fn lemma_all_digits_drop_last(s: Seq<char>)
    requires
        all_digits(s),
        s.len() > 0,
    ensures
        all_digits(s.drop_last()),
{
    assert forall|i: int| 0 <= i < s.drop_last().len() implies is_digit(#[trigger] s.drop_last()[i]) by {
        assert(s.drop_last()[i] == s[i]);
    }
}

proof fn lemma_digits_val_nonneg(s: Seq<char>)
    requires
        all_digits(s),
    ensures
        digits_val(s) >= 0,
    decreases s.len(),
{
    if s.len() > 0 {
        lemma_all_digits_drop_last(s);
        lemma_digits_val_nonneg(s.drop_last());
    }
}

/// A longer digit prefix never has a smaller value.
proof fn lemma_digits_val_monotone(s: Seq<char>, k: int)
    requires
        0 <= k <= s.len(),
        all_digits(s),
    ensures
        digits_val(s.take(k)) <= digits_val(s),
    decreases s.len() - k,
{
    if k < s.len() {
        assert forall|i: int| 0 <= i < s.take(k).len() implies is_digit(#[trigger] s.take(k)[i]) by {
            assert(s.take(k)[i] == s[i]);
        }
        lemma_digits_val_nonneg(s.take(k));
        assert(s.take(k + 1).drop_last() =~= s.take(k));
        assert(s.take(k + 1).last() == s[k]);
        lemma_digits_val_monotone(s, k + 1);
    } else {
        assert(s.take(k) =~= s);
    }
}

/// Character-wise string equality.
fn str_eq(a: &str, b: &str) -> (r: bool)
    ensures
        r == (a@ == b@),
{
    let na = a.unicode_len();
    let nb = b.unicode_len();
    if na != nb {
        return false;
    }
    let mut i: usize = 0;
    while i < na
        invariant
            i <= na,
            na == a@.len(),
            na == b@.len(),
            forall|j: int| 0 <= j < i ==> a@[j] == b@[j],
        decreases na - i,
    {
        if a.get_char(i) != b.get_char(i) {
            return false;
        }
        i = i + 1;
    }
    proof {
        assert(a@ =~= b@);
    }
    true
}

/// Parse a base-ten unsigned numeral with an optional leading `+`, exactly
/// when it is well formed and its value fits a `usize`.
pub fn parse_usize(s: &str) -> (r: Option<usize>)
    ensures
        r is Some <==> usize_ok(s@),
        r matches Some(v) ==> v == digits_val(unsigned_body(s@)),
{
    let n = s.unicode_len();
    let mut start: usize = 0;
    if n > 0 && s.get_char(0) == '+' {
        start = 1;
    }
    let ghost d = unsigned_body(s@);
    proof {
        assert(d =~= s@.skip(start as int));
    }
    if start == n {
        return None;
    }
    let mut acc: usize = 0;
    let mut i: usize = start;
    while i < n
        invariant
            start <= i <= n,
            start < n,
            n == s@.len(),
            d == unsigned_body(s@),
            d =~= s@.skip(start as int),
            forall|j: int| start <= j < i ==> is_digit(#[trigger] s@[j]),
            acc == digits_val(d.take(i - start)),
        decreases n - i,
    {
        let c = s.get_char(i);
        let u = c as u32;
        if u < 48 || u > 57 {
            proof {
                assert(d[i - start] == s@[i as int]);
                assert(!is_digit(d[i - start]));
            }
            return None;
        }
        let dv = (u - 48) as usize;
        proof {
            assert(d.take(i + 1 - start).drop_last() =~= d.take(i - start));
            assert(d.take(i + 1 - start).last() == s@[i as int]);
        }
        proof {
            lemma_fundamental_div_mod((usize::MAX - dv) as int, 10);
            lemma_mod_bound((usize::MAX - dv) as int, 10);
        }
        if acc > (usize::MAX - dv) / 10 {
            proof {
                if all_digits(d) {
                    assert(acc * 10 + dv > usize::MAX);
                    lemma_digits_val_monotone(d, i + 1 - start);
                }
            }
            return None;
        }
        proof {
            assert(acc * 10 + dv <= usize::MAX);
        }
        acc = acc * 10 + dv;
        i = i + 1;
    }
    proof {
        assert(d.take(n - start) =~= d);
    }
    Some(acc)
}

/// Parse a base-ten signed numeral with an optional leading sign, exactly
/// when it is well formed and its value fits an `i32`.
pub fn parse_i32(s: &str) -> (r: Option<i32>)
    ensures
        r is Some <==> i32_ok(s@),
        r matches Some(v) ==> v == i32_val(s@),
{
    let n = s.unicode_len();
    let mut start: usize = 0;
    let mut neg: bool = false;
    if n > 0 {
        let c0 = s.get_char(0);
        if c0 == '+' {
            start = 1;
        } else if c0 == '-' {
            start = 1;
            neg = true;
        }
    }
    let ghost d = signed_body(s@);
    proof {
        assert(d =~= s@.skip(start as int));
        assert(neg == signed_neg(s@));
    }
    if start == n {
        return None;
    }
    let limit: u32 = if neg {
        0x8000_0000
    } else {
        0x7fff_ffff
    };
    let mut acc: u32 = 0;
    let mut i: usize = start;
    while i < n
        invariant
            start <= i <= n,
            start < n,
            n == s@.len(),
            d == signed_body(s@),
            d =~= s@.skip(start as int),
            neg == signed_neg(s@),
            limit == (if neg {
                0x8000_0000u32
            } else {
                0x7fff_ffffu32
            }),
            forall|j: int| start <= j < i ==> is_digit(#[trigger] s@[j]),
            acc == digits_val(d.take(i - start)),
            acc <= limit,
        decreases n - i,
    {
        let c = s.get_char(i);
        let u = c as u32;
        if u < 48 || u > 57 {
            proof {
                assert(d[i - start] == s@[i as int]);
                assert(!is_digit(d[i - start]));
            }
            return None;
        }
        let dv = u - 48;
        proof {
            assert(d.take(i + 1 - start).drop_last() =~= d.take(i - start));
            assert(d.take(i + 1 - start).last() == s@[i as int]);
        }
        proof {
            lemma_fundamental_div_mod((limit - dv) as int, 10);
            lemma_mod_bound((limit - dv) as int, 10);
        }
        if acc > (limit - dv) / 10 {
            proof {
                if all_digits(d) {
                    assert(acc * 10 + dv > limit);
                    lemma_digits_val_monotone(d, i + 1 - start);
                }
            }
            return None;
        }
        proof {
            assert(acc * 10 + dv <= limit);
        }
        acc = acc * 10 + dv;
        i = i + 1;
    }
    proof {
        assert(d.take(n - start) =~= d);
    }
    if neg {
        if acc == 0x8000_0000 {
            Some(i32::MIN)
        } else {
            Some(-(acc as i32))
        }
    } else {
        Some(acc as i32)
    }
}

/// The views of a vector of argument strings.
pub open spec fn views_of(args: Seq<String>) -> Seq<Seq<char>> {
    args.map_values(|a: String| a@)
}

/// The argument asks for the help text.
pub open spec fn is_flag_help(a: Seq<char>) -> bool {
    a == "--help"@ || a == "-h"@
}

/// The effect of the argument at position `i` on the accumulated options:
/// a recognised flag followed by a well-formed number updates one field,
/// anything else changes nothing.
pub open spec fn apply_arg(acc: Options, args: Seq<Seq<char>>, i: int) -> Options {
    let a = args[i];
    if a == "--length"@ || a == "-l"@ {
        if i + 1 < args.len() && usize_ok(args[i + 1]) {
            Options { length: digits_val(unsigned_body(args[i + 1])) as usize, ..acc }
        } else {
            acc
        }
    } else if a == "--attempts"@ || a == "-a"@ {
        if i + 1 < args.len() && usize_ok(args[i + 1]) {
            Options { max_attempts: digits_val(unsigned_body(args[i + 1])) as usize, ..acc }
        } else {
            acc
        }
    } else if a == "--min"@ {
        if i + 1 < args.len() && i32_ok(args[i + 1]) {
            Options { number_min: i32_val(args[i + 1]) as i32, ..acc }
        } else {
            acc
        }
    } else if a == "--max"@ {
        if i + 1 < args.len() && i32_ok(args[i + 1]) {
            Options { number_max: i32_val(args[i + 1]) as i32, ..acc }
        } else {
            acc
        }
    } else {
        acc
    }
}

/// The options, and whether help was requested, after reading the arguments
/// from position `i` onward: a help flag stops the scan, every other
/// argument is applied in order.
pub open spec fn parse_from(args: Seq<Seq<char>>, i: int, acc: Options) -> (Options, bool)
    decreases args.len() - i,
{
    if i >= args.len() {
        (acc, false)
    } else if is_flag_help(args[i]) {
        (acc, true)
    } else {
        parse_from(args, i + 1, apply_arg(acc, args, i))
    }
}

impl Options {
    /// Read an argument list, starting from the defaults. Returns the
    /// resulting options and whether the help text was requested; collecting
    /// the process arguments and printing the help stay with the caller.
    pub fn parse_args(args: &Vec<String>) -> (r: (Options, bool))
        ensures
            r == parse_from(views_of(args@), 0, Options::spec_default()),
    {
        let ghost va = views_of(args@);
        let mut options = Options::default();
        let n = args.len();
        let mut i: usize = 0;
        while i < n
            invariant
                i <= n,
                n == args@.len(),
                va == views_of(args@),
                va.len() == n,
                parse_from(va, 0, Options::spec_default()) == parse_from(va, i as int, options),
            decreases n - i,
        {
            let a = &args[i];
            proof {
                assert(va[i as int] == args@[i as int]@);
            }
            if str_eq(a.as_str(), "--help") || str_eq(a.as_str(), "-h") {
                return (options, true);
            }
            if str_eq(a.as_str(), "--length") || str_eq(a.as_str(), "-l") {
                if i + 1 < n {
                    proof {
                        assert(va[i + 1] == args@[i + 1]@);
                    }
                    if let Some(v) = parse_usize(args[i + 1].as_str()) {
                        options.length = v;
                    }
                }
            } else if str_eq(a.as_str(), "--attempts") || str_eq(a.as_str(), "-a") {
                if i + 1 < n {
                    proof {
                        assert(va[i + 1] == args@[i + 1]@);
                    }
                    if let Some(v) = parse_usize(args[i + 1].as_str()) {
                        options.max_attempts = v;
                    }
                }
            } else if str_eq(a.as_str(), "--min") {
                if i + 1 < n {
                    proof {
                        assert(va[i + 1] == args@[i + 1]@);
                    }
                    if let Some(v) = parse_i32(args[i + 1].as_str()) {
                        options.number_min = v;
                    }
                }
            } else if str_eq(a.as_str(), "--max") {
                if i + 1 < n {
                    proof {
                        assert(va[i + 1] == args@[i + 1]@);
                    }
                    if let Some(v) = parse_i32(args[i + 1].as_str()) {
                        options.number_max = v;
                    }
                }
            }
            i = i + 1;
        }
        (options, false)
    }
}

} // verus!
