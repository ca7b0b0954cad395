//! Decimal text for 64-bit signed integers: a mathematical model of decimal
//! digit strings, a verified parser and a verified formatter.

use vstd::prelude::*;

verus! {

/// A decimal digit character.
pub open spec fn is_digit(c: char) -> bool {
    '0' <= c && c <= '9'
}

/// Numeric value of a decimal digit character.
pub open spec fn digit_value(c: char) -> int {
    c as int - '0' as int
}

/// Every character of `s` is a decimal digit.
pub open spec fn all_digits(s: Seq<char>) -> bool {
    forall|i: int| 0 <= i < s.len() ==> is_digit(#[trigger] s[i])
}

/// The value of a string of decimal digits, most significant digit first.
pub open spec fn digits_value(s: Seq<char>) -> int
    decreases s.len(),
{
    if s.len() == 0 {
        0
    } else {
        10 * digits_value(s.drop_last()) + digit_value(s.last())
    }
}

/// Ten to the power `n`.
pub open spec fn pow10(n: nat) -> int
    decreases n,
{
    if n == 0 {
        1
    } else {
        10 * pow10((n - 1) as nat)
    }
}

/// The two powers of ten that bracket the 64-bit range: nineteen digits can
/// exceed it, eighteen never do.
pub proof fn lemma_pow10_values()
    ensures
        pow10(18) == 1_000_000_000_000_000_000,
        pow10(19) == 10_000_000_000_000_000_000,
{
    reveal_with_fuel(pow10, 20);
}

/// A digit string's value is nonnegative and below ten to its length.
pub proof fn lemma_digits_value_bounds(s: Seq<char>)
    requires
        all_digits(s),
    ensures
        0 <= digits_value(s) < pow10(s.len()),
    decreases s.len(),
{
    if s.len() > 0 {
        assert(all_digits(s.drop_last()));
        lemma_digits_value_bounds(s.drop_last());
    }
}

/// A digit string that starts with a nonzero digit has a value of at least
/// ten to one less than its length.
pub proof fn lemma_digits_value_lower(s: Seq<char>)
    requires
        all_digits(s),
        s.len() > 0,
        s[0] != '0',
    ensures
        digits_value(s) >= pow10((s.len() - 1) as nat),
    decreases s.len(),
{
    if s.len() == 1 {
        assert(digits_value(s) == 10 * digits_value(s.drop_last()) + digit_value(s.last()));
        assert(s.drop_last() =~= Seq::<char>::empty());
        assert(digits_value(s.drop_last()) == 0);
        assert(is_digit(s[0]) && s[0] != '0');
        assert(digit_value(s[0]) >= 1);
        assert(digits_value(s) == digit_value(s[0]));
    } else {
        assert(all_digits(s.drop_last()));
        assert(s.drop_last()[0] == s[0]);
        lemma_digits_value_lower(s.drop_last());
        assert(digit_value(s.last()) >= 0);
        assert(pow10((s.len() - 1) as nat) == 10 * pow10((s.len() - 2) as nat));
    }
}

/// A leading zero does not change a digit string's value.
pub proof fn lemma_drop_leading_zero(s: Seq<char>)
    requires
        s.len() > 0,
        s[0] == '0',
    ensures
        digits_value(s) == digits_value(s.skip(1)),
    decreases s.len(),
{
    if s.len() == 1 {
        assert(s.skip(1) =~= Seq::<char>::empty());
        assert(digits_value(s) == 10 * digits_value(s.drop_last()) + digit_value(s.last()));
        assert(s.drop_last() =~= Seq::<char>::empty());
        assert(digit_value('0') == 0);
    } else {
        lemma_drop_leading_zero(s.drop_last());
        assert(s.skip(1).drop_last() =~= s.drop_last().skip(1));
        assert(s.skip(1).last() == s.last());
    }
}

/// Leading zeros do not change a digit string's value.
pub proof fn lemma_drop_leading_zeros(s: Seq<char>, k: int)
    requires
        0 <= k <= s.len(),
        forall|i: int| 0 <= i < k ==> s[i] == '0',
    ensures
        digits_value(s) == digits_value(s.skip(k)),
    decreases k,
{
    if k > 0 {
        lemma_drop_leading_zero(s);
        assert forall|i: int| 0 <= i < k - 1 implies s.skip(1)[i] == '0' by {
            assert(s[i + 1] == '0');
        }
        lemma_drop_leading_zeros(s.skip(1), k - 1);
        assert(s.skip(1).skip(k - 1) =~= s.skip(k));
    } else {
        assert(s.skip(0) =~= s);
    }
}

/// Why a token failed to parse as a 64-bit signed integer.
#[derive(Clone, Copy, Debug, PartialEq, Eq, Structural)]
pub enum ParseIntError {
    /// The token was empty.
    Empty,
    /// A character other than a decimal digit stood where a digit belongs.
    InvalidDigit,
    /// The value exceeds the largest 64-bit signed integer.
    PosOverflow,
    /// The value is below the smallest 64-bit signed integer.
    NegOverflow,
}

/// The human-readable message for each parse failure.
pub open spec fn parse_error_text(e: ParseIntError) -> Seq<char> {
    match e {
        ParseIntError::Empty => "cannot parse integer from empty string"@,
        ParseIntError::InvalidDigit => "invalid digit found in string"@,
        ParseIntError::PosOverflow => "number too large to fit in target type"@,
        ParseIntError::NegOverflow => "number too small to fit in target type"@,
    }
}

impl ParseIntError {
    /// The message for this parse failure.
    pub fn message(&self) -> (r: String)
        ensures
            r@ == parse_error_text(*self),
    {
        match self {
            ParseIntError::Empty => String::from_str("cannot parse integer from empty string"),
            ParseIntError::InvalidDigit => String::from_str("invalid digit found in string"),
            ParseIntError::PosOverflow => String::from_str(
                "number too large to fit in target type",
            ),
            ParseIntError::NegOverflow => String::from_str(
                "number too small to fit in target type",
            ),
        }
    }
}

/// What a token means as a 64-bit signed integer: an optional sign, then one
/// or more decimal digits, rejected when the value falls outside the type's
/// range.
pub open spec fn parse_i64_spec(s: Seq<char>) -> Result<i64, ParseIntError> {
    if s.len() == 0 {
        Err(ParseIntError::Empty)
    } else {
        let neg = s[0] == '-';
        let digits = if s[0] == '-' || s[0] == '+' {
            s.skip(1)
        } else {
            s
        };
        if digits.len() == 0 || !all_digits(digits) {
            Err(ParseIntError::InvalidDigit)
        } else if !neg && digits_value(digits) > i64::MAX {
            Err(ParseIntError::PosOverflow)
        } else if neg && digits_value(digits) > i64::MAX + 1 {
            Err(ParseIntError::NegOverflow)
        } else if neg {
            Ok((-digits_value(digits)) as i64)
        } else {
            Ok(digits_value(digits) as i64)
        }
    }
}

/// Parses a token as a 64-bit signed integer: an optional `+` or `-` sign,
/// then one or more decimal digits.
#[verifier::loop_isolation(false)]
pub fn parse_i64(s: &str) -> (r: Result<i64, ParseIntError>)
    ensures
        r == parse_i64_spec(s@),
{
    let n = s.unicode_len();
    if n == 0 {
        return Err(ParseIntError::Empty);
    }
    let c0 = s.get_char(0);
    let neg = c0 == '-';
    let start: usize = if c0 == '-' || c0 == '+' {
        1
    } else {
        0
    };
    let ghost digits: Seq<char> = s@.skip(start as int);
    proof {
        if start == 0 {
            assert(s@.skip(0) =~= s@);
        }
    }
    if start == n {
        return Err(ParseIntError::InvalidDigit);
    }
    let mut j: usize = start;
    while j < n
        invariant
            start <= j <= n,
            n == s@.len(),
            digits == s@.skip(start as int),
            forall|k: int| start <= k < j ==> is_digit(#[trigger] s@[k]),
        decreases n - j,
    {
        let c = s.get_char(j);
        if c < '0' || c > '9' {
            assert(digits[j - start] == s@[j as int]);
            assert(!all_digits(digits));
            return Err(ParseIntError::InvalidDigit);
        }
        j += 1;
    }
    assert forall|k: int| 0 <= k < digits.len() implies is_digit(#[trigger] digits[k]) by {
        assert(digits[k] == s@[k + start]);
    }
    assert(all_digits(digits));
    // Skip leading zeros so that at most 19 significant digits remain.
    let mut z: usize = start;
    while z < n && s.get_char(z) == '0'
        invariant
            start <= z <= n,
            forall|k: int| start <= k < z ==> s@[k] == '0',
        decreases n - z,
    {
        z += 1;
    }
    let ghost sig: Seq<char> = s@.skip(z as int);
    proof {
        assert forall|i: int| 0 <= i < z - start implies digits[i] == '0' by {
            assert(digits[i] == s@[i + start]);
        }
        lemma_drop_leading_zeros(digits, z - start);
        assert(digits.skip(z - start) =~= sig);
        assert(digits_value(digits) == digits_value(sig));
        assert forall|k: int| 0 <= k < sig.len() implies is_digit(#[trigger] sig[k]) by {
            assert(sig[k] == s@[k + z]);
        }
    }
    if n - z > 19 {
        proof {
            assert(sig[0] == s@[z as int]);
            lemma_digits_value_lower(sig);
            lemma_pow10_values();
            lemma_pow10_monotone(19, (sig.len() - 1) as nat);
            assert(digits_value(digits) >= pow10(19));
        }
        if neg {
            return Err(ParseIntError::NegOverflow);
        } else {
            return Err(ParseIntError::PosOverflow);
        }
    }
    let mut acc: u64 = 0;
    let mut i: usize = z;
    while i < n
        invariant
            z <= i <= n,
            n == s@.len(),
            n - z <= 19,
            sig == s@.skip(z as int),
            all_digits(sig),
            acc == digits_value(sig.take(i - z)),
        decreases n - i,
    {
        let c = s.get_char(i);
        proof {
            assert(sig[i - z] == s@[i as int]);
            assert(is_digit(c));
            let pre = sig.take(i - z);
            assert(all_digits(pre));
            lemma_digits_value_bounds(pre);
            lemma_pow10_monotone((i - z) as nat, 18);
            lemma_pow10_values();
            assert(sig.take(i + 1 - z).drop_last() =~= pre);
            assert(sig.take(i + 1 - z).last() == sig[i - z]);
        }
        let d: u64 = (c as u32 - 48) as u64;
        acc = acc * 10 + d;
        i += 1;
    }
    proof {
        assert(sig.take(n - z as int) =~= sig);
        assert(acc == digits_value(digits));
        lemma_digits_value_bounds(sig);
    }
    if neg {
        if acc > 9_223_372_036_854_775_808u64 {
            return Err(ParseIntError::NegOverflow);
        }
        if acc == 9_223_372_036_854_775_808u64 {
            Ok(i64::MIN)
        } else {
            Ok(-(acc as i64))
        }
    } else {
        if acc > i64::MAX as u64 {
            return Err(ParseIntError::PosOverflow);
        }
        Ok(acc as i64)
    }
}

/// `pow10` does not decrease as the exponent grows.
pub proof fn lemma_pow10_monotone(m: nat, n: nat)
    requires
        m <= n,
    ensures
        pow10(m) <= pow10(n),
    decreases n,
{
    if m < n {
        lemma_pow10_monotone(m, (n - 1) as nat);
        assert(pow10(n) == 10 * pow10((n - 1) as nat));
        assert(pow10((n - 1) as nat) >= 1) by {
            lemma_pow10_positive((n - 1) as nat);
        }
    }
}

/// `pow10` is positive.
pub proof fn lemma_pow10_positive(n: nat)
    ensures
        pow10(n) >= 1,
    decreases n,
{
    if n > 0 {
        lemma_pow10_positive((n - 1) as nat);
    }
}

/// The digit character for a value between zero and nine.
pub open spec fn digit_char(d: int) -> char {
    if d == 0 {
        '0'
    } else if d == 1 {
        '1'
    } else if d == 2 {
        '2'
    } else if d == 3 {
        '3'
    } else if d == 4 {
        '4'
    } else if d == 5 {
        '5'
    } else if d == 6 {
        '6'
    } else if d == 7 {
        '7'
    } else if d == 8 {
        '8'
    } else {
        '9'
    }
}

/// The decimal digit string of a nonnegative value, most significant digit
/// first and without leading zeros.
pub open spec fn nat_string(v: int) -> Seq<char>
    decreases v,
{
    if v <= 9 {
        seq![digit_char(v)]
    } else {
        nat_string(v / 10) + seq![digit_char(v % 10)]
    }
}

/// The decimal digit string of a 64-bit signed value: a `-` sign for a
/// negative value, then the digits of its magnitude.
pub open spec fn i64_string(v: int) -> Seq<char> {
    if v < 0 {
        seq!['-'] + nat_string(-v)
    } else {
        nat_string(v)
    }
}

/// Every character of a rendered magnitude is a decimal digit.
pub proof fn lemma_nat_string_digits(v: int)
    requires
        v >= 0,
    ensures
        all_digits(nat_string(v)),
        nat_string(v).len() >= 1,
    decreases v,
{
    if v <= 9 {
        assert(is_digit(digit_char(v)));
        assert(forall|i: int|
            0 <= i < nat_string(v).len() ==> is_digit(#[trigger] nat_string(v)[i]));
    } else {
        lemma_nat_string_digits(v / 10);
        assert(is_digit(digit_char(v % 10)));
        assert forall|i: int| 0 <= i < nat_string(v).len() implies is_digit(
            #[trigger] nat_string(v)[i],
        ) by {
            if i < nat_string(v / 10).len() {
                assert(nat_string(v)[i] == nat_string(v / 10)[i]);
            } else {
                assert(nat_string(v)[i] == digit_char(v % 10));
            }
        }
    }
}

/// Rendering a nonnegative value and reading the digits back yields the
/// value.
pub proof fn lemma_nat_string_value(v: int)
    requires
        v >= 0,
    ensures
        digits_value(nat_string(v)) == v,
    decreases v,
{
    if v <= 9 {
        assert(nat_string(v).drop_last() =~= Seq::<char>::empty());
        assert(digits_value(nat_string(v).drop_last()) == 0);
        assert(nat_string(v).last() == digit_char(v));
        assert(digits_value(nat_string(v)) == digit_value(digit_char(v)));
    } else {
        lemma_nat_string_value(v / 10);
        let s = nat_string(v);
        assert(s.drop_last() =~= nat_string(v / 10));
        assert(s.last() == digit_char(v % 10));
        assert(digit_value(digit_char(v % 10)) == v % 10);
        assert(v == 10 * (v / 10) + v % 10) by {
            vstd::arithmetic::div_mod::lemma_fundamental_div_mod(v, 10);
        }
    }
}

/// Rendering a 64-bit signed value and parsing the text back yields exactly
/// that value: the formatter and the parser are mutually inverse.
pub proof fn lemma_render_parse_round_trip(v: i64)
    ensures
        parse_i64_spec(i64_string(v as int)) == Ok::<i64, ParseIntError>(v),
{
    reveal_strlit("0");
    if v >= 0 {
        let s = i64_string(v as int);
        lemma_nat_string_digits(v as int);
        lemma_nat_string_value(v as int);
        assert(is_digit(s[0]));
        assert(s[0] != '-' && s[0] != '+');
    } else {
        let s = i64_string(v as int);
        let m = -(v as int);
        lemma_nat_string_digits(m);
        lemma_nat_string_value(m);
        assert(s[0] == '-');
        assert(s.skip(1) =~= nat_string(m));
        assert(digits_value(s.skip(1)) == m);
    }
}

/// The one-character string slice for a decimal digit value.
fn digit_str(d: u64) -> (r: &'static str)
    requires
        d < 10,
    ensures
        r@ =~= seq![digit_char(d as int)],
{
    proof {
        reveal_strlit("0");
        reveal_strlit("1");
        reveal_strlit("2");
        reveal_strlit("3");
        reveal_strlit("4");
        reveal_strlit("5");
        reveal_strlit("6");
        reveal_strlit("7");
        reveal_strlit("8");
        reveal_strlit("9");
    }
    match d {
        0 => "0",
        1 => "1",
        2 => "2",
        3 => "3",
        4 => "4",
        5 => "5",
        6 => "6",
        7 => "7",
        8 => "8",
        _ => "9",
    }
}

/// The digit characters of `ds`, read back to front.
pub open spec fn rev_digit_chars(ds: Seq<u64>) -> Seq<char> {
    Seq::new(ds.len(), |i: int| digit_char(ds[ds.len() - 1 - i] as int))
}

/// Renders a 64-bit signed value as its decimal digit string.
#[verifier::loop_isolation(false)]
pub fn i64_to_string(v: i64) -> (r: String)
    ensures
        r@ == i64_string(v as int),
{
    let neg = v < 0;
    let m0: u64 = if v == i64::MIN {
        9_223_372_036_854_775_808u64
    } else if v < 0 {
        (-v) as u64
    } else {
        v as u64
    };
    let mut ds: Vec<u64> = Vec::new();
    if m0 == 0 {
        ds.push(0);
        proof {
            assert(rev_digit_chars(ds@) =~= seq![digit_char(0)]);
            assert(nat_string(m0 as int) == rev_digit_chars(ds@));
        }
    }
    let mut m: u64 = m0;
    while m > 0
        invariant
            m <= m0,
            forall|i: int| 0 <= i < ds@.len() ==> #[trigger] ds@[i] < 10,
            m > 0 ==> nat_string(m0 as int) == nat_string(m as int) + rev_digit_chars(ds@),
            m == 0 ==> nat_string(m0 as int) == rev_digit_chars(ds@),
            m0 == 0 ==> m == 0,
        decreases m,
    {
        let d = m % 10;
        let ghost old_ds = ds@;
        ds.push(d);
        proof {
            assert(rev_digit_chars(ds@) =~= seq![digit_char(d as int)] + rev_digit_chars(old_ds));
            if m >= 10 {
                assert(nat_string(m as int) == nat_string(m as int / 10) + seq![
                    digit_char(m as int % 10),
                ]);
                assert((nat_string(m as int / 10) + seq![digit_char(d as int)])
                    + rev_digit_chars(old_ds) =~= nat_string(m as int / 10) + (seq![
                    digit_char(d as int),
                ] + rev_digit_chars(old_ds)));
            } else {
                assert(nat_string(m as int) == seq![digit_char(m as int)]);
                assert((seq![digit_char(d as int)] + rev_digit_chars(old_ds)) =~= nat_string(
                    m as int,
                ) + rev_digit_chars(old_ds));
            }
        }
        m = m / 10;
    }
    let mut out = String::new();
    if neg {
        out.append("-");
        proof {
            reveal_strlit("-");
            assert(out@ =~= seq!['-']);
        }
    }
    let ghost prefix: Seq<char> = out@;
    let ghost target: Seq<char> = rev_digit_chars(ds@);
    let digit_count = ds.len();
    let mut k = digit_count;
    while k > 0
        invariant
            k <= digit_count,
            digit_count == ds@.len(),
            out@ == prefix + target.take(digit_count - k),
        decreases k,
    {
        k -= 1;
        let d = ds[k];
        out.append(digit_str(d));
        proof {
            assert(target[digit_count - k - 1] == digit_char(ds@[k as int] as int));
            assert(out@ =~= prefix + target.take(digit_count - k));
        }
    }
    proof {
        assert(target.take(digit_count as int) =~= target);
        assert(nat_string(m0 as int) == target);
        if neg {
            assert(m0 == -(v as int));
            assert(out@ =~= seq!['-'] + nat_string(-(v as int)));
        } else {
            assert(out@ =~= nat_string(v as int));
        }
    }
    out
}

} // verus!
