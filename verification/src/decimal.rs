//! Exact parsing of string-encoded, non-negative decimal currency amounts.
//!
//! An accepted amount is a run of one to nine decimal digits, optionally
//! followed by a dot and a second run of one to nine digits (`"10"`,
//! `"10.5"`, `"0.005"`). Parsing produces the exact value scaled to
//! nanodollars (fixed point, nine fractional digits), so later truncation to
//! whole cents is exact integer arithmetic, never floating point.

use vstd::prelude::*;

verus! {

/// Every parsed amount is strictly below this many nanodollars (ten to the
/// eighteenth), so the sum of two parsed amounts fits comfortably in a `u64`.
pub const MAX_PARSED_NANOS: u64 = 1_000_000_000_000_000_000;

pub open spec fn is_dec_digit(c: char) -> bool {
    48 <= c as int && c as int <= 57
}

pub open spec fn digit_value(c: char) -> int {
    c as int - 48
}

pub open spec fn all_dec_digits(s: Seq<char>) -> bool {
    forall|i: int| 0 <= i < s.len() ==> is_dec_digit(s[i])
}

/// The non-negative integer denoted by a digit run, most significant first.
pub open spec fn digits_value(s: Seq<char>) -> int
    decreases s.len(),
{
    if s.len() == 0 {
        0
    } else {
        digits_value(s.drop_last()) * 10 + digit_value(s.last())
    }
}

pub open spec fn pow10(e: nat) -> int
    decreases e,
{
    if e == 0 {
        1
    } else {
        10 * pow10((e - 1) as nat)
    }
}

/// A digit run acceptable on either side of the dot: one to nine digits.
pub open spec fn is_digit_run(s: Seq<char>) -> bool {
    1 <= s.len() <= 9 && all_dec_digits(s)
}

/// The string splits at position `i` into an integer digit run, a dot, and a
/// fractional digit run.
pub open spec fn splits_at_dot(s: Seq<char>, i: int) -> bool {
    &&& 0 <= i < s.len()
    &&& s[i] == '.'
    &&& is_digit_run(s.take(i))
    &&& is_digit_run(s.skip(i + 1))
}

/// The grammar of accepted amounts: digits, or digits dot digits.
pub open spec fn is_decimal_string(s: Seq<char>) -> bool {
    is_digit_run(s) || (exists|i: int| splits_at_dot(s, i))
}

/// The exact value of an accepted amount, in nanodollars.
pub open spec fn decimal_nanos(s: Seq<char>) -> int {
    if is_digit_run(s) {
        digits_value(s) * 1_000_000_000
    } else {
        let i = choose|i: int| splits_at_dot(s, i);
        let frac = s.skip(i + 1);
        digits_value(s.take(i)) * 1_000_000_000 + digits_value(frac) * pow10(
            (9 - frac.len()) as nat,
        )
    }
}

pub proof fn lemma_pow10_values()
    ensures
        pow10(0) == 1,
        pow10(1) == 10,
        pow10(2) == 100,
        pow10(3) == 1000,
        pow10(4) == 10000,
        pow10(5) == 100000,
        pow10(6) == 1000000,
        pow10(7) == 10000000,
        pow10(8) == 100000000,
        pow10(9) == 1000000000,
{
    reveal_with_fuel(pow10, 11);
}

pub proof fn lemma_digits_value_bound(s: Seq<char>)
    requires
        all_dec_digits(s),
    ensures
        0 <= digits_value(s) < pow10(s.len()),
    decreases s.len(),
{
    if s.len() == 0 {
    } else {
        assert(all_dec_digits(s.drop_last()));
        lemma_digits_value_bound(s.drop_last());
    }
}

/// There is at most one way to split an accepted string at a dot.
pub proof fn lemma_split_unique(s: Seq<char>, i: int, j: int)
    requires
        splits_at_dot(s, i),
        splits_at_dot(s, j),
    ensures
        i == j,
{
    if i < j {
        assert(is_dec_digit(s.take(j)[i]));
    } else if j < i {
        assert(is_dec_digit(s.take(i)[j]));
    }
}

/// Reads the digit run `s[from..to]` as an integer; `None` unless the range
/// holds one to nine decimal digits and nothing else.
fn digit_run_value(s: &str, from: usize, to: usize) -> (r: Option<u64>)
    requires
        from <= to <= s@.len(),
    ensures
        (r matches Some(v) ==> is_digit_run(s@.subrange(from as int, to as int)) && v
            == digits_value(s@.subrange(from as int, to as int)) && v < 1_000_000_000),
        (r is None ==> !is_digit_run(s@.subrange(from as int, to as int))),
{
    if to - from < 1 || to - from > 9 {
        return None;
    }
    let mut acc: u64 = 0;
    let mut i: usize = from;
    while i < to
        invariant
            from <= i <= to <= s@.len(),
            1 <= to - from <= 9,
            all_dec_digits(s@.subrange(from as int, i as int)),
            acc == digits_value(s@.subrange(from as int, i as int)),
            acc < pow10((i - from) as nat),
        decreases to - i,
    {
        let c = s.get_char(i);
        let cv = c as u32;
        if cv < 48 || cv > 57 {
            proof {
                assert(s@.subrange(from as int, to as int)[i - from] == s@[i as int]);
                assert(!is_dec_digit(s@[i as int]));
            }
            return None;
        }
        proof {
            lemma_pow10_values();
            assert(pow10((i - from) as nat) <= pow10(8)) by {
                lemma_pow10_increases((i - from) as nat, 8);
            }
            let prefix = s@.subrange(from as int, i as int);
            let next = s@.subrange(from as int, i + 1 as int);
            assert(next.drop_last() =~= prefix);
            assert(next.last() == s@[i as int]);
        }
        acc = acc * 10 + (cv - 48) as u64;
        i = i + 1;
    }
    proof {
        assert(s@.subrange(from as int, i as int) =~= s@.subrange(from as int, to as int));
        lemma_pow10_values();
        lemma_pow10_increases((i - from) as nat, 9);
    }
    Some(acc)
}

pub proof fn lemma_pow10_increases(a: nat, b: nat)
    requires
        a <= b,
    ensures
        0 < pow10(a) <= pow10(b),
    decreases b,
{
    if b > 0 {
        if a == b {
            lemma_pow10_increases((a - 1) as nat, (b - 1) as nat);
        } else {
            lemma_pow10_increases(a, (b - 1) as nat);
        }
    }
}

/// Ten to the `e`, for small `e`.
fn pow10_u64(e: usize) -> (r: u64)
    requires
        e <= 9,
    ensures
        r == pow10(e as nat),
{
    proof {
        lemma_pow10_values();
    }
    if e == 0 {
        1
    } else if e == 1 {
        10
    } else if e == 2 {
        100
    } else if e == 3 {
        1000
    } else if e == 4 {
        10000
    } else if e == 5 {
        100000
    } else if e == 6 {
        1000000
    } else if e == 7 {
        10000000
    } else if e == 8 {
        100000000
    } else {
        1000000000
    }
}

/// Parses a non-negative decimal amount into exact nanodollars, or `None`
/// when the string does not match the accepted grammar.
pub fn parse_decimal_nanos(s: &str) -> (r: Option<u64>)
    ensures
        (r matches Some(n) ==> is_decimal_string(s@) && n == decimal_nanos(s@) && n
            < MAX_PARSED_NANOS),
        (r is None ==> !is_decimal_string(s@)),
{
    let n = s.unicode_len();
    let mut dot: Option<usize> = None;
    let mut i: usize = 0;
    while i < n
        invariant
            i <= n,
            n == s@.len(),
            (dot matches Some(d) ==> d < i && s@[d as int] == '.'),
            (dot is None ==> forall|j: int| 0 <= j < i ==> s@[j] != '.'),
        decreases n - i,
    {
        if dot.is_none() && s.get_char(i) == '.' {
            dot = Some(i);
        }
        i = i + 1;
    }
    match dot {
        None => {
            match digit_run_value(s, 0, n) {
                Some(v) => {
                    proof {
                        assert(s@.subrange(0, n as int) =~= s@);
                        lemma_digits_value_bound(s@);
                        lemma_pow10_values();
                    }
                    Some(v * 1_000_000_000)
                },
                None => {
                    proof {
                        assert(s@.subrange(0, n as int) =~= s@);
                        assert forall|j: int| !splits_at_dot(s@, j) by {
                            if 0 <= j < s@.len() {
                                assert(s@[j] != '.');
                            }
                        }
                    }
                    None
                },
            }
        },
        Some(d) => {
            let ip = digit_run_value(s, 0, d);
            let fp = digit_run_value(s, d + 1, n);
            proof {
                assert(s@.subrange(0, d as int) =~= s@.take(d as int));
                assert(s@.subrange(d + 1 as int, n as int) =~= s@.skip(d + 1));
            }
            match (ip, fp) {
                (Some(iv), Some(fv)) => {
                    let frac_len = n - (d + 1);
                    let scale = pow10_u64(9 - frac_len);
                    proof {
                        assert(splits_at_dot(s@, d as int));
                        assert(!is_digit_run(s@)) by {
                            assert(!is_dec_digit(s@[d as int]));
                        }
                        let c = choose|i: int| splits_at_dot(s@, i);
                        lemma_split_unique(s@, c, d as int);
                        lemma_pow10_values();
                        let frac = s@.skip(d + 1);
                        lemma_digits_value_bound(frac);
                        assert(fv * pow10((9 - frac.len()) as nat) < pow10(frac.len()) * pow10(
                            (9 - frac.len()) as nat,
                        )) by (nonlinear_arith)
                            requires
                                fv < pow10(frac.len()),
                                pow10((9 - frac.len()) as nat) > 0,
                        ;
                        lemma_pow10_mul(frac.len(), (9 - frac.len()) as nat);
                        lemma_digits_value_bound(s@.take(d as int));
                    }
                    Some(iv * 1_000_000_000 + fv * scale)
                },
                _ => {
                    proof {
                        assert(!is_digit_run(s@)) by {
                            assert(!is_dec_digit(s@[d as int]));
                        }
                        assert forall|j: int| !splits_at_dot(s@, j) by {
                            if splits_at_dot(s@, j) {
                                lemma_split_unique_dot(s@, j, d as int);
                            }
                        }
                    }
                    None
                },
            }
        },
    }
}

/// A dot inside an accepted split must be the split point itself.
proof fn lemma_split_unique_dot(s: Seq<char>, i: int, d: int)
    requires
        splits_at_dot(s, i),
        0 <= d < s.len(),
        s[d] == '.',
    ensures
        i == d,
{
    if i < d {
        assert(is_dec_digit(s.skip(i + 1)[d - i - 1]));
    } else if d < i {
        assert(is_dec_digit(s.take(i)[d]));
    }
}

pub proof fn lemma_pow10_mul(a: nat, b: nat)
    ensures
        pow10(a) * pow10(b) == pow10(a + b),
    decreases a,
{
    if a == 0 {
    } else {
        lemma_pow10_mul((a - 1) as nat, b);
        assert(pow10(a) * pow10(b) == 10 * (pow10((a - 1) as nat) * pow10(b)))
            by (nonlinear_arith)
            requires
                pow10(a) == 10 * pow10((a - 1) as nat),
        ;
    }
}

} // verus!

