//! Conversion from decimal amounts to the ledger's fixed-point
//! representation.
//!
//! The ledger and the external settlement system both count value in
//! minor units of 10^-6 of a currency unit, so the documented conversion
//! factor between a decimal amount and its fixed-point form is 10^6. The
//! conversion is exact: a decimal amount is representable exactly when it
//! is a whole number of micro-units, and anything finer is rejected
//! rather than rounded.

use vstd::prelude::*;

verus! {

/// Micro-units per whole currency unit: the documented conversion factor.
pub const MICRO_PER_UNIT: u64 = 1000000;

/// Converts the decimal amount `units.micros` (whole currency units plus
/// a count of millionths) into micro-units. Returns `None` exactly when
/// `micros` is not a valid fractional part (a millionth count must be
/// below 10^6) or the result would not fit the ledger's amount type.
pub fn to_micro_units(units: u64, micros: u32) -> (r: Option<i64>)
    ensures
        match r {
            Some(v) => micros < MICRO_PER_UNIT && units * MICRO_PER_UNIT + micros <= i64::MAX && v
                == units * MICRO_PER_UNIT + micros,
            None => !(micros < MICRO_PER_UNIT && units * MICRO_PER_UNIT + micros <= i64::MAX),
        },
{
    if micros as u64 >= MICRO_PER_UNIT {
        return None;
    }
    let max: u64 = i64::MAX as u64;
    let budget = max - micros as u64;
    let quotient = budget / MICRO_PER_UNIT;
    if units > quotient {
        proof {
            assert(units * MICRO_PER_UNIT >= (quotient + 1) * MICRO_PER_UNIT) by (nonlinear_arith)
                requires
                    units >= quotient + 1,
            ;
            vstd::arithmetic::div_mod::lemma_fundamental_div_mod(
                budget as int,
                MICRO_PER_UNIT as int,
            );
            assert(units * MICRO_PER_UNIT + micros > max);
        }
        return None;
    }
    proof {
        assert(units * MICRO_PER_UNIT <= quotient * MICRO_PER_UNIT) by (nonlinear_arith)
            requires
                units <= quotient,
        ;
        vstd::arithmetic::div_mod::lemma_fundamental_div_mod(budget as int, MICRO_PER_UNIT as int);
        assert(quotient * MICRO_PER_UNIT <= budget);
    }
    let v = units * MICRO_PER_UNIT + micros as u64;
    Some(v as i64)
}

/// An ASCII decimal digit.
pub open spec fn is_digit_char(c: char) -> bool {
    48 <= c as u32 <= 57
}

/// The numeric value of an ASCII decimal digit.
pub open spec fn digit_value(c: char) -> int {
    c as u32 - 48
}

/// Every character of `s` is a decimal digit.
pub open spec fn all_digits(s: Seq<char>) -> bool {
    forall|i: int| 0 <= i < s.len() ==> is_digit_char(#[trigger] s[i])
}

/// The number a digit string denotes, most significant digit first.
pub open spec fn digits_value(s: Seq<char>) -> int
    decreases s.len(),
{
    if s.len() == 0 {
        0
    } else {
        digits_value(s.drop_last()) * 10 + digit_value(s.last())
    }
}

/// `s` is a decimal literal whose dot sits at position `d`: at least one
/// integer digit before it, at least one fraction digit after it, digits
/// everywhere else.
pub open spec fn decimal_split_at(s: Seq<char>, d: int) -> bool {
    &&& 1 <= d
    &&& d + 2 <= s.len()
    &&& s[d] == '.'
    &&& all_digits(s.subrange(0, d))
    &&& all_digits(s.subrange(d + 1, s.len() as int))
}

/// `s` is a decimal amount literal: digits, or digits dot digits.
pub open spec fn valid_decimal_literal(s: Seq<char>) -> bool {
    (s.len() >= 1 && all_digits(s)) || (exists|d: int| decimal_split_at(s, d))
}

/// The position of the dot of a dotted decimal literal.
pub open spec fn dot_pos(s: Seq<char>) -> int {
    choose|d: int| decimal_split_at(s, d)
}

/// How many fraction digits the literal carries.
pub open spec fn fraction_digits(s: Seq<char>) -> int {
    if all_digits(s) {
        0
    } else {
        s.len() - dot_pos(s) - 1
    }
}

/// 10^(6-f): what one unit of the f-th fraction place is worth in
/// micro-units.
pub open spec fn micro_scale(f: int) -> int {
    if f <= 0 {
        1000000
    } else if f == 1 {
        100000
    } else if f == 2 {
        10000
    } else if f == 3 {
        1000
    } else if f == 4 {
        100
    } else if f == 5 {
        10
    } else {
        1
    }
}

/// 10^n.
pub open spec fn pow10(n: int) -> int
    decreases n,
{
    if n <= 0 {
        1
    } else {
        10 * pow10(n - 1)
    }
}

/// The exact micro-unit value a decimal literal denotes.
pub open spec fn decimal_micro_value(s: Seq<char>) -> int {
    if all_digits(s) {
        digits_value(s) * 1000000
    } else {
        let d = dot_pos(s);
        digits_value(s.subrange(0, d)) * 1000000 + digits_value(
            s.subrange(d + 1, s.len() as int),
        ) * micro_scale(s.len() - d - 1)
    }
}

/// A digit string denotes a non-negative number.
proof fn lemma_digits_value_nonneg(s: Seq<char>)
    requires
        all_digits(s),
    ensures
        digits_value(s) >= 0,
    decreases s.len(),
{
    if s.len() > 0 {
        lemma_digits_value_nonneg(s.drop_last());
    }
}

/// A digit string of length n denotes less than 10^n.
proof fn lemma_digits_value_bound(s: Seq<char>)
    requires
        all_digits(s),
    ensures
        digits_value(s) < pow10(s.len() as int),
    decreases s.len(),
{
    if s.len() > 0 {
        lemma_digits_value_bound(s.drop_last());
    }
}

/// Extending a digit string never shrinks its value.
proof fn lemma_digits_value_prefix(s: Seq<char>, k: int)
    requires
        all_digits(s),
        0 <= k <= s.len(),
    ensures
        digits_value(s) >= digits_value(s.take(k)),
    decreases s.len(),
{
    if k == s.len() {
        assert(s.take(k) =~= s);
    } else {
        assert(s.drop_last().take(k) =~= s.take(k));
        lemma_digits_value_prefix(s.drop_last(), k);
        lemma_digits_value_nonneg(s.drop_last());
    }
}

/// A decimal literal has only one possible dot position.
pub proof fn lemma_split_unique(s: Seq<char>, d1: int, d2: int)
    requires
        decimal_split_at(s, d1),
        decimal_split_at(s, d2),
    ensures
        d1 == d2,
{
    if d1 < d2 {
        assert(s.subrange(d1 + 1, s.len() as int)[d2 - d1 - 1] == s[d2]);
    } else if d2 < d1 {
        assert(s.subrange(d2 + 1, s.len() as int)[d1 - d2 - 1] == s[d1]);
    }
}

/// A dotted literal is not a plain digit string.
pub proof fn lemma_split_not_all_digits(s: Seq<char>, d: int)
    requires
        decimal_split_at(s, d),
    ensures
        !all_digits(s),
        dot_pos(s) == d,
        fraction_digits(s) == s.len() - d - 1,
{
    assert(!is_digit_char(s[d]));
    lemma_split_unique(s, dot_pos(s), d);
}

/// Parses a decimal amount literal — digits, optionally a dot and one to
/// six fraction digits — into micro-units, exactly. Returns `None` for
/// anything that is not such a literal, for a literal finer than one
/// micro-unit (the conversion rejects precision loss rather than round),
/// and for a value beyond the ledger's amount type.
#[verifier::loop_isolation(false)]
pub fn amount_from_decimal_str(s: &str) -> (r: Option<i64>)
    ensures
        match r {
            Some(v) => {
                &&& valid_decimal_literal(s@)
                &&& fraction_digits(s@) <= 6
                &&& decimal_micro_value(s@) <= i64::MAX
                &&& v == decimal_micro_value(s@)
                &&& v >= 0
            },
            None => !(valid_decimal_literal(s@) && fraction_digits(s@) <= 6
                && decimal_micro_value(s@) <= i64::MAX),
        },
{
    let n = s.unicode_len();
    if n == 0 {
        return None;
    }
    // one pass to find the dot and refuse anything but digits around it
    let mut dot: Option<usize> = None;
    let mut i: usize = 0;
    while i < n
        invariant
            i <= n,
            match dot {
                Some(d) => d < i && s@[d as int] == '.' && forall|m: int|
                    0 <= m < i && m != d ==> is_digit_char(#[trigger] s@[m]),
                None => forall|m: int| 0 <= m < i ==> is_digit_char(#[trigger] s@[m]),
            },
        decreases n - i,
    {
        let c = s.get_char(i);
        if c == '.' {
            if dot.is_some() {
                proof {
                    let d0 = dot.unwrap() as int;
                    assert forall|d: int| !decimal_split_at(s@, d) by {
                        if decimal_split_at(s@, d) {
                            if d0 < d {
                                if d0 > 0 {
                                    assert(s@.subrange(0, d)[d0] == s@[d0]);
                                } else {
                                    assert(s@.subrange(0, d)[0] == s@[0]);
                                }
                            } else if d < d0 {
                                assert(s@.subrange(d + 1, n as int)[d0 - d - 1] == s@[d0]);
                            } else {
                                assert(s@.subrange(d + 1, n as int)[i - d - 1] == s@[i as int]);
                            }
                        }
                    }
                    assert(!all_digits(s@));
                }
                return None;
            }
            dot = Some(i);
        } else {
            let u = c as u32;
            if u < 48 || u > 57 {
                proof {
                    assert(!is_digit_char(s@[i as int]));
                    assert forall|d: int| !decimal_split_at(s@, d) by {
                        if decimal_split_at(s@, d) {
                            if i < d {
                                assert(s@.subrange(0, d)[i as int] == s@[i as int]);
                            } else if d < i {
                                assert(s@.subrange(d + 1, n as int)[i - d - 1] == s@[i as int]);
                            }
                        }
                    }
                }
                return None;
            }
        }
        i = i + 1;
    }
    // shape checks around the dot
    let int_end: usize = match dot {
        Some(d) => d,
        None => n,
    };
    if let Some(d) = dot {
        if d == 0 || d + 1 >= n {
            proof {
                assert(!is_digit_char('.'));
                assert(!all_digits(s@));
                assert forall|d2: int| !decimal_split_at(s@, d2) by {
                    if decimal_split_at(s@, d2) {
                        if d2 < d as int {
                            assert(s@.subrange(d2 + 1, n as int)[d - d2 - 1] == s@[d as int]);
                        } else if (d as int) < d2 {
                            if d > 0 {
                                assert(s@.subrange(0, d2)[d as int] == s@[d as int]);
                            } else {
                                assert(s@.subrange(0, d2)[0] == s@[0]);
                            }
                        }
                    }
                }
            }
            return None;
        }
        if n - d - 1 > 6 {
            proof {
                assert(decimal_split_at(s@, d as int));
                lemma_split_not_all_digits(s@, d as int);
            }
            return None;
        }
        proof {
            assert(decimal_split_at(s@, d as int));
            lemma_split_not_all_digits(s@, d as int);
        }
    } else {
        proof {
            assert(all_digits(s@));
        }
    }
    // accumulate the integer part, watching for overflow
    let mut value: i64 = 0;
    let mut k: usize = 0;
    while k < int_end
        invariant
            k <= int_end,
            int_end <= n,
            all_digits(s@.subrange(0, int_end as int)),
            value == digits_value(s@.subrange(0, k as int)),
            value >= 0,
        decreases int_end - k,
    {
        let digit = (s.get_char(k) as u32 - 48) as i64;
        proof {
            assert(s@.subrange(0, int_end as int)[k as int] == s@[k as int]);
            assert(s@.subrange(0, k + 1).drop_last() =~= s@.subrange(0, k as int));
        }
        if value > (i64::MAX - digit) / 10 {
            proof {
                let intpart = s@.subrange(0, int_end as int);
                vstd::arithmetic::div_mod::lemma_fundamental_div_mod(
                    i64::MAX - digit,
                    10,
                );
                assert(digits_value(s@.subrange(0, k + 1)) > i64::MAX);
                lemma_digits_value_prefix(intpart, k + 1);
                assert(intpart.take(k + 1) =~= s@.subrange(0, k + 1));
                assert(digits_value(intpart) > i64::MAX);
                if dot is Some {
                    let d = dot_pos(s@);
                    let frac = s@.subrange(d + 1, s@.len() as int);
                    lemma_digits_value_nonneg(frac);
                    let fv = digits_value(frac);
                    let sc = micro_scale(s@.len() - d - 1);
                    assert(sc >= 1);
                    assert(fv * sc >= 0) by (nonlinear_arith)
                        requires
                            fv >= 0,
                            sc >= 1,
                    ;
                    assert(decimal_micro_value(s@) > i64::MAX);
                } else {
                    assert(s@.subrange(0, int_end as int) =~= s@);
                    assert(decimal_micro_value(s@) > i64::MAX);
                }
            }
            return None;
        }
        value = value * 10 + digit;
        k = k + 1;
    }
    // accumulate the fraction part; at most six digits, so it fits easily
    let mut scaled: i64 = 0;
    if let Some(d) = dot {
        let flen = n - d - 1;
        let mut frac: i64 = 0;
        let mut m: usize = d + 1;
        while m < n
            invariant
                d + 1 <= m <= n,
                dot == Some(d),
                decimal_split_at(s@, d as int),
                frac == digits_value(s@.subrange(d + 1, m as int)),
                frac >= 0,
                frac < pow10(m - d - 1),
            decreases n - m,
        {
            let digit = (s.get_char(m) as u32 - 48) as i64;
            proof {
                assert(s@.subrange(d + 1, n as int)[m - d - 1] == s@[m as int]);
                assert(s@.subrange(d + 1, m + 1).drop_last() =~= s@.subrange(d + 1, m as int));
                assert(pow10(m + 1 - d - 1) == 10 * pow10(m - d - 1));
                assert(pow10(m - d - 1) <= pow10(6)) by {
                    lemma_pow10_monotone(m - d - 1, 6);
                };
                reveal_with_fuel(pow10, 8);
                assert(pow10(6) == 1000000);
            }
            frac = frac * 10 + digit;
            m = m + 1;
        }
        // one unit of the last fraction place in micro-units
        let scale: i64 = if flen == 1 {
            100000
        } else if flen == 2 {
            10000
        } else if flen == 3 {
            1000
        } else if flen == 4 {
            100
        } else if flen == 5 {
            10
        } else {
            1
        };
        proof {
            assert(scale == micro_scale(flen as int));
            lemma_scale_product(flen as int);
        }
        assert(frac < pow10(flen as int));
        proof {
            lemma_mul_bound(frac as int, pow10(flen as int), micro_scale(flen as int));
        }
        scaled = frac * scale;
        assert(scaled < 1000000);
        assert(scaled == digits_value(s@.subrange(d + 1, n as int)) * micro_scale(
            s@.len() - d - 1,
        ));
    }
    // combine, watching for overflow
    proof {
        match dot {
            Some(d) => {
                assert(decimal_micro_value(s@) == value * 1000000 + scaled);
            },
            None => {
                assert(s@.subrange(0, int_end as int) =~= s@);
                assert(decimal_micro_value(s@) == value * 1000000);
            },
        }
    }
    let budget = i64::MAX - scaled;
    let quotient = budget / 1000000;
    if value > quotient {
        proof {
            vstd::arithmetic::div_mod::lemma_fundamental_div_mod(budget as int, 1000000);
            assert(value * 1000000 + scaled > i64::MAX);
        }
        return None;
    }
    proof {
        vstd::arithmetic::div_mod::lemma_fundamental_div_mod(budget as int, 1000000);
        assert(value * 1000000 <= quotient * 1000000) by (nonlinear_arith)
            requires
                0 <= value <= quotient,
        ;
    }
    Some(value * 1000000 + scaled)
}

/// 10^f times the worth of the f-th fraction place is one whole unit.
proof fn lemma_scale_product(f: int)
    requires
        1 <= f <= 6,
    ensures
        pow10(f) * micro_scale(f) == 1000000,
{
    reveal_with_fuel(pow10, 8);
    if f == 1 {
        assert(pow10(1) * micro_scale(1) == 1000000);
    } else if f == 2 {
        assert(pow10(2) * micro_scale(2) == 1000000);
    } else if f == 3 {
        assert(pow10(3) * micro_scale(3) == 1000000);
    } else if f == 4 {
        assert(pow10(4) * micro_scale(4) == 1000000);
    } else if f == 5 {
        assert(pow10(5) * micro_scale(5) == 1000000);
    } else {
        assert(pow10(6) * micro_scale(6) == 1000000);
    }
}

/// 10^a <= 10^b when a <= b.
proof fn lemma_pow10_monotone(a: int, b: int)
    requires
        a <= b,
    ensures
        pow10(a) <= pow10(b),
    decreases b - a,
{
    if a < b && b > 0 {
        lemma_pow10_monotone(a, b - 1);
        assert(pow10(b) == 10 * pow10(b - 1));
        assert(pow10(b - 1) >= 1) by {
            lemma_pow10_pos(b - 1);
        };
    }
}

/// 10^n is positive.
proof fn lemma_pow10_pos(n: int)
    ensures
        pow10(n) >= 1,
    decreases n,
{
    if n > 0 {
        lemma_pow10_pos(n - 1);
    }
}

/// If x < b then x * s < b * s for positive s — stated for the fraction
/// scaling, where b * s is one whole unit in micro-units.
proof fn lemma_mul_bound(x: int, b: int, s: int)
    requires
        0 <= x < b,
        s >= 1,
    ensures
        x * s <= (b - 1) * s,
        x * s >= 0,
{
    assert(x * s <= (b - 1) * s) by (nonlinear_arith)
        requires
            x <= b - 1,
            s >= 1,
    ;
    assert(x * s >= 0) by (nonlinear_arith)
        requires
            x >= 0,
            s >= 1,
    ;
}

} // verus!
