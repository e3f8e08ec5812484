//! Parsing of decimal integer arguments.
//!
//! A command argument declared as an integer is accepted exactly when it is
//! an optional minus sign followed by one or more decimal digits and its
//! value fits in an `i64`.

use vstd::prelude::*;

verus! {

/// A decimal digit.
pub open spec fn is_digit(c: char) -> bool {
    48 <= c as u32 <= 57
}

/// The numeric value of one digit.
pub open spec fn digit_val(c: char) -> int {
    c as u32 as int - 48
}

/// Every character of the sequence is a decimal digit.
pub open spec fn all_digits(s: Seq<char>) -> bool {
    forall|i: int| 0 <= i < s.len() ==> is_digit(#[trigger] s[i])
}

/// The value of a digit string, most significant digit first.
pub open spec fn digits_value(s: Seq<char>) -> int
    decreases s.len(),
{
    if s.len() == 0 {
        0
    } else {
        digits_value(s.drop_last()) * 10 + digit_val(s.last())
    }
}

/// An integer literal: an optional minus sign, then one or more digits.
pub open spec fn is_int_literal(s: Seq<char>) -> bool {
    if s.len() == 0 {
        false
    } else if s[0] == '-' {
        s.len() >= 2 && all_digits(s.subrange(1, s.len() as int))
    } else {
        all_digits(s)
    }
}

/// The mathematical value of an integer literal.
pub open spec fn int_literal_value(s: Seq<char>) -> int {
    if s.len() > 0 && s[0] == '-' {
        -digits_value(s.subrange(1, s.len() as int))
    } else {
        digits_value(s)
    }
}

/// A digit string is worth at least as much as any of its prefixes, and at
/// least zero.
proof fn lemma_digits_value_prefix(s: Seq<char>, i: int)
    requires
        all_digits(s),
        0 <= i <= s.len(),
    ensures
        digits_value(s) >= digits_value(s.take(i)),
        digits_value(s) >= 0,
    decreases s.len(),
{
    if s.len() == 0 {
        assert(s.take(i) =~= s);
    } else if i == s.len() {
        assert(s.take(i) =~= s);
        let d = s.drop_last();
        assert(all_digits(d)) by {
            assert(forall|j: int| 0 <= j < d.len() ==> #[trigger] d[j] == s[j]);
        }
        lemma_digits_value_prefix(d, d.len() as int);
        assert(digits_value(d) * 10 + digit_val(s.last()) >= 0) by (nonlinear_arith)
            requires
                digits_value(d) >= 0,
                digit_val(s.last()) >= 0,
        ;
    } else {
        let d = s.drop_last();
        assert(all_digits(d)) by {
            assert(forall|j: int| 0 <= j < d.len() ==> #[trigger] d[j] == s[j]);
        }
        lemma_digits_value_prefix(d, i);
        assert(s.take(i) =~= d.take(i));
        assert(digits_value(d) * 10 + digit_val(s.last()) >= digits_value(d)) by (nonlinear_arith)
            requires
                digits_value(d) >= 0,
                digit_val(s.last()) >= 0,
        ;
    }
}

/// Parse a decimal integer argument. Returns the value exactly when the
/// argument is an integer literal whose value fits in an `i64`.
#[verifier::loop_isolation(false)]
pub fn parse_i64(s: &str) -> (r: Option<i64>)
    ensures
        match r {
            Some(v) => is_int_literal(s@) && i64::MIN <= int_literal_value(s@) <= i64::MAX && v
                == int_literal_value(s@),
            None => !(is_int_literal(s@) && i64::MIN <= int_literal_value(s@) <= i64::MAX),
        },
{
    let n = s.unicode_len();
    if n == 0 {
        return None;
    }
    let neg = s.get_char(0) as u32 == 45;
    let start: usize = if neg {
        1
    } else {
        0
    };
    if neg && n == 1 {
        return None;
    }
    let ghost mag = s@.subrange(start as int, n as int);
    // Largest magnitude that still fits: one more for the negative side.
    let head_max: u64 = 922337203685477580;
    let last_max: u64 = if neg {
        8
    } else {
        7
    };
    let ghost limit: int = 9223372036854775807int + (if neg {
        1int
    } else {
        0int
    });
    let mut acc: u64 = 0;
    let mut i: usize = start;
    while i < n
        invariant
            start <= i <= n,
            n == s@.len(),
            start == (if neg {
                1int
            } else {
                0int
            }),
            neg ==> s@[0] == '-',
            !neg ==> s@[0] != '-',
            n >= 1,
            neg ==> n >= 2,
            mag == s@.subrange(start as int, n as int),
            all_digits(mag.take(i - start)),
            acc == digits_value(mag.take(i - start)),
            acc <= limit,
            limit == 9223372036854775807int + (if neg {
                1int
            } else {
                0int
            }),
        decreases n - i,
    {
        let c = s.get_char(i);
        let cu = c as u32;
        if cu < 48 || cu > 57 {
            proof {
                assert(mag[i - start] == s@[i as int]);
                assert(!is_int_literal(s@));
            }
            return None;
        }
        let d = (cu - 48) as u64;
        let ghost prev = mag.take(i - start);
        proof {
            assert(mag.take(i + 1 - start).drop_last() =~= prev);
            assert(mag.take(i + 1 - start).last() == s@[i as int]);
        }
        if acc > head_max || (acc == head_max && d > last_max) {
            proof {
                let ext = mag.take(i + 1 - start);
                assert(digits_value(ext) == acc * 10 + d);
                assert(acc * 10 + d > limit) by (nonlinear_arith)
                    requires
                        acc > head_max || (acc == head_max && d > last_max),
                        head_max == 922337203685477580,
                        d >= 0,
                        (last_max == 7 && limit == 9223372036854775807int) || (last_max == 8
                            && limit == 9223372036854775808int),
                ;
                if is_int_literal(s@) {
                    assert(all_digits(mag));
                    lemma_digits_value_prefix(mag, i + 1 - start);
                    assert(digits_value(mag) > limit);
                    if neg {
                        assert(int_literal_value(s@) == -digits_value(mag));
                        assert(int_literal_value(s@) < i64::MIN);
                    } else {
                        assert(mag =~= s@);
                        assert(int_literal_value(s@) > i64::MAX);
                    }
                }
            }
            return None;
        }
        proof {
            assert(acc * 10 + d <= limit) by (nonlinear_arith)
                requires
                    !(acc > head_max || (acc == head_max && d > last_max)),
                    head_max == 922337203685477580,
                    0 <= d <= 9,
                    (last_max == 7 && limit == 9223372036854775807int) || (last_max == 8
                        && limit == 9223372036854775808int),
            ;
        }
        acc = acc * 10 + d;
        proof {
            assert(all_digits(mag.take(i + 1 - start))) by {
                assert(forall|j: int|
                    0 <= j < prev.len() ==> #[trigger] mag.take(i + 1 - start)[j] == prev[j]);
            }
        }
        i = i + 1;
    }
    proof {
        assert(mag.take(n - start) =~= mag);
        if neg {
            assert(mag =~= s@.subrange(1, s@.len() as int));
        } else {
            assert(mag =~= s@);
        }
        assert(is_int_literal(s@));
    }
    if neg {
        if acc == 9223372036854775808 {
            Some(i64::MIN)
        } else {
            Some(-(acc as i64))
        }
    } else {
        Some(acc as i64)
    }
}

} // verus!
