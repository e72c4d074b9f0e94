//! Parsing of exchange-supplied decimal strings (`"100.05"`) into the
//! fixed-point integers the order-book engine works with. A parse failure is
//! a local, per-message condition: callers drop the frame as
//! `MalformedPayload` instead of crashing the connection.

use vstd::prelude::*;

use crate::book::Level;
use crate::model::DataError;

verus! {

/// Number of fractional decimal digits of the fixed-point representation.
pub const FIXED_POINT_DECIMALS: usize = 8;

/// Scale of the fixed-point representation: `10 ^ FIXED_POINT_DECIMALS`.
pub const FIXED_POINT_SCALE: u64 = 100_000_000;

/// `c` is an ASCII decimal digit.
pub open spec fn is_decimal_digit(c: char) -> bool {
    48 <= c as int && c as int <= 57
}

/// Numeric value of an ASCII decimal digit.
pub open spec fn digit_val(c: char) -> int {
    c as int - 48
}

/// Every character of `s` is an ASCII decimal digit.
pub open spec fn all_digits(s: Seq<char>) -> bool {
    forall|i: int| 0 <= i < s.len() ==> is_decimal_digit(#[trigger] s[i])
}

/// The integer a digit string denotes, most significant digit first.
pub open spec fn digits_val(s: Seq<char>) -> int
    decreases s.len(),
{
    if s.len() == 0 {
        0
    } else {
        digits_val(s.drop_last()) * 10 + digit_val(s.last())
    }
}

/// `10 ^ n`.
pub open spec fn pow10(n: nat) -> int
    decreases n,
{
    if n == 0 {
        1
    } else {
        10 * pow10((n - 1) as nat)
    }
}

/// Index of the first `'.'` of `s`, or `s.len()` when there is none.
pub open spec fn first_dot(s: Seq<char>) -> int
    decreases s.len(),
{
    if s.len() == 0 {
        0
    } else if s[0] == '.' {
        0
    } else {
        1 + first_dot(s.drop_first())
    }
}

/// `s` is a well-formed decimal token: a non-empty digit string, optionally
/// followed by `'.'` and one to [`FIXED_POINT_DECIMALS`] fractional digits.
pub open spec fn decimal_struct_ok(s: Seq<char>) -> bool {
    let d = first_dot(s);
    if d == s.len() {
        s.len() > 0 && all_digits(s)
    } else {
        &&& 0 < d
        &&& d + 1 < s.len()
        &&& s.len() - (d + 1) <= FIXED_POINT_DECIMALS as int
        &&& all_digits(s.take(d))
        &&& all_digits(s.skip(d + 1))
    }
}

/// The fixed-point value a well-formed decimal token denotes, as a
/// mathematical integer.
pub open spec fn decimal_value(s: Seq<char>) -> int {
    let d = first_dot(s);
    if d == s.len() {
        digits_val(s) * (FIXED_POINT_SCALE as int)
    } else {
        digits_val(s.take(d)) * (FIXED_POINT_SCALE as int) + digits_val(s.skip(d + 1)) * pow10(
            (FIXED_POINT_DECIMALS - (s.len() - d - 1)) as nat,
        )
    }
}

/// What parsing a decimal token yields: its fixed-point value, when the
/// token is well-formed and the value representable.
pub open spec fn spec_parse_decimal(s: Seq<char>) -> Option<u64> {
    if decimal_struct_ok(s) && decimal_value(s) <= u64::MAX {
        Some(decimal_value(s) as u64)
    } else {
        None
    }
}

proof fn lemma_all_digits_drop_last(s: Seq<char>)
    requires
        all_digits(s),
        s.len() > 0,
    ensures
        all_digits(s.drop_last()),
{
    assert forall|i: int| 0 <= i < s.drop_last().len() implies is_decimal_digit(
        #[trigger] s.drop_last()[i],
    ) by {
        assert(s.drop_last()[i] == s[i]);
    }
}

proof fn lemma_digits_val_nonneg(s: Seq<char>)
    requires
        all_digits(s),
    ensures
        digits_val(s) >= 0,
    decreases s.len(),
{
    if s.len() > 0 {
        lemma_all_digits_drop_last(s);
        lemma_digits_val_nonneg(s.drop_last());
        assert(s[s.len() - 1] == s.last());
    }
}

proof fn lemma_digits_val_bound(s: Seq<char>)
    requires
        all_digits(s),
    ensures
        0 <= digits_val(s) < pow10(s.len() as nat),
    decreases s.len(),
{
    if s.len() > 0 {
        lemma_all_digits_drop_last(s);
        lemma_digits_val_bound(s.drop_last());
        assert(s[s.len() - 1] == s.last());
    }
}

proof fn lemma_digits_val_prefix(s: Seq<char>, i: int)
    requires
        all_digits(s),
        0 <= i <= s.len(),
    ensures
        digits_val(s.take(i)) <= digits_val(s),
    decreases s.len() - i,
{
    if i < s.len() {
        lemma_digits_val_prefix(s, i + 1);
        assert(s.take(i + 1).drop_last() =~= s.take(i));
        assert(s.take(i + 1).last() == s[i]);
        assert(all_digits(s.take(i))) by {
            assert forall|k: int| 0 <= k < s.take(i).len() implies is_decimal_digit(
                #[trigger] s.take(i)[k],
            ) by {
                assert(s.take(i)[k] == s[k]);
            }
        }
        lemma_digits_val_nonneg(s.take(i));
        assert(digits_val(s.take(i + 1)) == digits_val(s.take(i)) * 10 + digit_val(s[i]));
    } else {
        assert(s.take(i) =~= s);
    }
}

proof fn lemma_first_dot_bounds(s: Seq<char>)
    ensures
        0 <= first_dot(s) <= s.len(),
    decreases s.len(),
{
    if s.len() > 0 && s[0] != '.' {
        lemma_first_dot_bounds(s.drop_first());
    }
}

proof fn lemma_first_dot_ge(s: Seq<char>, i: int)
    requires
        0 <= i <= s.len(),
        forall|k: int| 0 <= k < i ==> #[trigger] s[k] != '.',
    ensures
        first_dot(s) >= i,
    decreases i,
{
    lemma_first_dot_bounds(s);
    if i > 0 {
        assert(s[0] != '.');
        assert forall|k: int| 0 <= k < i - 1 implies #[trigger] s.drop_first()[k] != '.' by {
            assert(s.drop_first()[k] == s[k + 1]);
        }
        lemma_first_dot_ge(s.drop_first(), i - 1);
    }
}

proof fn lemma_first_dot_at(s: Seq<char>, i: int)
    requires
        0 <= i < s.len(),
        forall|k: int| 0 <= k < i ==> #[trigger] s[k] != '.',
        s[i] == '.',
    ensures
        first_dot(s) == i,
    decreases i,
{
    if i > 0 {
        assert(s[0] != '.');
        assert forall|k: int| 0 <= k < i - 1 implies #[trigger] s.drop_first()[k] != '.' by {
            assert(s.drop_first()[k] == s[k + 1]);
        }
        assert(s.drop_first()[i - 1] == s[i]);
        lemma_first_dot_at(s.drop_first(), i - 1);
    }
}

proof fn lemma_first_dot_max(s: Seq<char>)
    requires
        forall|k: int| 0 <= k < s.len() ==> #[trigger] s[k] != '.',
    ensures
        first_dot(s) == s.len(),
    decreases s.len(),
{
    if s.len() > 0 {
        assert(s[0] != '.');
        assert forall|k: int| 0 <= k < s.drop_first().len() implies #[trigger] s.drop_first()[k]
            != '.' by {
            assert(s.drop_first()[k] == s[k + 1]);
        }
        lemma_first_dot_max(s.drop_first());
    }
}

proof fn lemma_mul_nonneg(a: int, b: int)
    requires
        a >= 0,
        b >= 0,
    ensures
        a * b >= 0,
{
    assert(a * b >= 0) by (nonlinear_arith)
        requires
            a >= 0,
            b >= 0,
    ;
}

/// When the token is well formed, its value is at least the value of any
/// prefix of its integer part.
proof fn lemma_value_ge_int_prefix(s: Seq<char>, i: int)
    requires
        decimal_struct_ok(s),
        0 <= i,
        i <= first_dot(s),
        first_dot(s) <= s.len(),
    ensures
        decimal_value(s) >= digits_val(s.take(i)),
{
    let d = first_dot(s);
    if d == s.len() {
        lemma_digits_val_prefix(s, i);
        lemma_digits_val_nonneg(s.take(i));
    } else {
        let ipart = s.take(d);
        assert(ipart.take(i) =~= s.take(i));
        lemma_digits_val_prefix(ipart, i);
        lemma_digits_val_nonneg(ipart.take(i));
        lemma_digits_val_nonneg(s.skip(d + 1));
        let e = (FIXED_POINT_DECIMALS - (s.len() - d - 1)) as nat;
        assert(pow10(e) >= 1) by {
            lemma_pow10_pos(e);
        }
        lemma_mul_nonneg(digits_val(s.skip(d + 1)), pow10(e));
    }
}

proof fn lemma_pow10_pos(n: nat)
    ensures
        pow10(n) >= 1,
    decreases n,
{
    if n > 0 {
        lemma_pow10_pos((n - 1) as nat);
    }
}

/// Parses a decimal token into its fixed-point value.
///
/// Returns `Some` exactly when the token is well formed — digits, optionally
/// followed by a dot and one to eight fractional digits — and its scaled
/// value fits a `u64`; the result is then exactly [`decimal_value`].
pub fn parse_decimal(s: &str) -> (r: Option<u64>)
    ensures
        r == spec_parse_decimal(s@),
{
    let n = s.unicode_len();
    if n == 0 {
        return None;
    }
    let mut i: usize = 0;
    let mut int_val: u64 = 0;
    while i < n && s.get_char(i) != '.'
        invariant
            0 <= i <= n,
            n == s@.len(),
            forall|k: int| 0 <= k < i ==> #[trigger] s@[k] != '.',
            forall|k: int| 0 <= k < i ==> is_decimal_digit(#[trigger] s@[k]),
            int_val == digits_val(s@.take(i as int)),
        decreases n - i,
    {
        let c = s.get_char(i);
        let cv = c as u32;
        if cv < 48 || cv > 57 {
            proof {
                assert(c as int == cv as int);
                assert(!is_decimal_digit(s@[i as int]));
                if decimal_struct_ok(s@) {
                    let d = first_dot(s@);
                    assert(s@[i as int] != '.');
                    lemma_first_dot_ge(s@, i + 1);
                    if d == s@.len() {
                        assert(!all_digits(s@));
                    } else {
                        assert(s@.take(d)[i as int] == s@[i as int]);
                        assert(!all_digits(s@.take(d)));
                    }
                    assert(false);
                }
            }
            return None;
        }
        proof {
            assert(s@.take(i + 1).drop_last() =~= s@.take(i as int));
            assert(s@.take(i + 1).last() == s@[i as int]);
        }
        let digit = (cv - 48) as u64;
        let stepped = match int_val.checked_mul(10) {
            Some(m) => m.checked_add(digit),
            None => None,
        };
        match stepped {
            Some(v) => {
                int_val = v;
            },
            None => {
                // the integer part alone already exceeds the representable
                // range, wherever the token ends
                proof {
                    if decimal_struct_ok(s@) {
                        let d = first_dot(s@);
                        lemma_first_dot_ge(s@, i + 1);
                        lemma_value_ge_int_prefix(s@, i + 1);
                        assert(digits_val(s@.take(i + 1)) > u64::MAX);
                    }
                }
                return None;
            },
        }
        i += 1;
    }
    if i == 0 {
        // the token starts with the dot: no integer part
        proof {
            lemma_first_dot_at(s@, 0);
        }
        return None;
    }
    if i == n {
        // integer-only token
        proof {
            lemma_first_dot_max(s@);
            assert(s@.take(n as int) =~= s@);
        }
        match int_val.checked_mul(FIXED_POINT_SCALE) {
            Some(v) => {
                return Some(v);
            },
            None => {
                proof {
                    lemma_digits_val_nonneg(s@);
                }
                return None;
            },
        }
    }
    // fractional part
    proof {
        lemma_first_dot_at(s@, i as int);
    }
    let frac_len = n - i - 1;
    if frac_len == 0 || frac_len > FIXED_POINT_DECIMALS {
        return None;
    }
    let mut j: usize = i + 1;
    let mut frac_val: u64 = 0;
    while j < n
        invariant
            i + 1 <= j <= n,
            n == s@.len(),
            n - i - 1 <= FIXED_POINT_DECIMALS,
            first_dot(s@) == i as int,
            forall|k: int| i + 1 <= k < j ==> is_decimal_digit(#[trigger] s@[k]),
            frac_val == digits_val(s@.subrange(i + 1, j as int)),
            frac_val < pow10((j - i - 1) as nat),
        decreases n - j,
    {
        let c = s.get_char(j);
        let cv = c as u32;
        if cv < 48 || cv > 57 {
            proof {
                assert(c as int == cv as int);
                assert(!is_decimal_digit(s@[j as int]));
                if decimal_struct_ok(s@) {
                    let d = first_dot(s@);
                    assert(s@.skip(d + 1)[j - (i + 1)] == s@[j as int]);
                    assert(!all_digits(s@.skip(d + 1)));
                    assert(false);
                }
            }
            return None;
        }
        proof {
            assert(s@.subrange(i + 1, j + 1).drop_last() =~= s@.subrange(i + 1, j as int));
            assert(s@.subrange(i + 1, j + 1).last() == s@[j as int]);
            reveal_with_fuel(pow10, 10);
        }
        frac_val = frac_val * 10 + ((cv - 48) as u64);
        j += 1;
    }
    let scale_factor: u64 = if frac_len == 1 {
        10_000_000
    } else if frac_len == 2 {
        1_000_000
    } else if frac_len == 3 {
        100_000
    } else if frac_len == 4 {
        10_000
    } else if frac_len == 5 {
        1_000
    } else if frac_len == 6 {
        100
    } else if frac_len == 7 {
        10
    } else {
        1
    };
    proof {
        reveal_with_fuel(pow10, 10);
        assert(scale_factor == pow10((FIXED_POINT_DECIMALS - frac_len) as nat));
        assert(frac_val < pow10(frac_len as nat));
    }
    let frac_scaled = frac_val * scale_factor;
    proof {
        assert(frac_val * scale_factor < 100_000_000) by (nonlinear_arith)
            requires
                frac_val < pow10(frac_len as nat),
                scale_factor == pow10((FIXED_POINT_DECIMALS - frac_len) as nat),
                1 <= frac_len <= 8,
                FIXED_POINT_DECIMALS == 8,
                pow10(1) == 10 && pow10(2) == 100 && pow10(3) == 1000 && pow10(4) == 10000 && pow10(
                    5,
                ) == 100000 && pow10(6) == 1000000 && pow10(7) == 10000000 && pow10(8) == 100000000
                    && pow10(0) == 1,
                frac_val >= 0,
        ;
        assert(s@.subrange(i + 1, n as int) =~= s@.skip(i + 1));
    }
    let total = match int_val.checked_mul(FIXED_POINT_SCALE) {
        Some(m) => m.checked_add(frac_scaled),
        None => None,
    };
    match total {
        Some(v) => Some(v),
        None => {
            proof {
                lemma_digits_val_nonneg(s@.take(i as int));
                lemma_digits_val_nonneg(s@.skip(i + 1));
            }
            None
        },
    }
}

/// What parsing one raw price/amount pair yields.
pub open spec fn spec_parse_level(price: Seq<char>, amount: Seq<char>) -> Option<Level> {
    match (spec_parse_decimal(price), spec_parse_decimal(amount)) {
        (Some(p), Some(a)) => Some(Level { price: p, amount: a }),
        _ => None,
    }
}

/// Parses one raw `(price, amount)` pair of decimal tokens into a [`Level`],
/// or reports the frame malformed.
pub fn parse_level(price: &str, amount: &str) -> (r: Result<Level, DataError>)
    ensures
        r matches Ok(l) ==> spec_parse_level(price@, amount@) == Some(l),
        r is Err <==> spec_parse_level(price@, amount@) is None,
        r is Err ==> r matches Err(DataError::MalformedPayload),
{
    match (parse_decimal(price), parse_decimal(amount)) {
        (Some(p), Some(a)) => Ok(Level { price: p, amount: a }),
        _ => Err(DataError::MalformedPayload),
    }
}

/// What parsing a list of raw pairs yields: every pair parsed, in order, or
/// nothing if any pair is malformed.
pub open spec fn spec_parse_levels(raw: Seq<(String, String)>) -> Option<Seq<Level>>
    decreases raw.len(),
{
    if raw.len() == 0 {
        Some(Seq::empty())
    } else {
        match spec_parse_levels(raw.drop_last()) {
            None => None,
            Some(levels) => match spec_parse_level(raw.last().0@, raw.last().1@) {
                None => None,
                Some(level) => Some(levels.push(level)),
            },
        }
    }
}

/// Parses a list of raw `(price, amount)` pairs into levels, in order; one
/// malformed pair rejects the whole list as `MalformedPayload`.
pub fn parse_levels(raw: &Vec<(String, String)>) -> (r: Result<Vec<Level>, DataError>)
    ensures
        r matches Ok(levels) ==> spec_parse_levels(raw@) == Some(levels@),
        r is Err <==> spec_parse_levels(raw@) is None,
        r is Err ==> r matches Err(DataError::MalformedPayload),
{
    let mut levels: Vec<Level> = Vec::new();
    let mut i: usize = 0;
    while i < raw.len()
        invariant
            0 <= i <= raw@.len(),
            spec_parse_levels(raw@.take(i as int)) == Some(levels@),
        decreases raw@.len() - i,
    {
        proof {
            assert(raw@.take(i + 1).drop_last() =~= raw@.take(i as int));
            assert(raw@.take(i + 1).last() == raw@[i as int]);
        }
        match parse_level(raw[i].0.as_str(), raw[i].1.as_str()) {
            Ok(level) => {
                levels.push(level);
            },
            Err(e) => {
                proof {
                    lemma_parse_levels_failure(raw@, i as int);
                }
                return Err(DataError::MalformedPayload);
            },
        }
        i += 1;
    }
    proof {
        assert(raw@.take(raw@.len() as int) =~= raw@);
    }
    Ok(levels)
}

proof fn lemma_parse_levels_failure(raw: Seq<(String, String)>, i: int)
    requires
        0 <= i < raw.len(),
        spec_parse_level(raw[i].0@, raw[i].1@) is None,
    ensures
        spec_parse_levels(raw) is None,
    decreases raw.len(),
{
    if raw.len() > 0 {
        if i == raw.len() - 1 {
            assert(raw.last() == raw[i]);
        } else {
            lemma_parse_levels_failure(raw.drop_last(), i);
            assert(raw.drop_last()[i] == raw[i]);
        }
    }
}

} // verus!
