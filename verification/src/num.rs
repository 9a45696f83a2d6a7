//! Verified parsing and formatting of the numeric attribute values that the
//! map markup dialect uses: unsigned and signed integers in decimal notation,
//! plain decimal fractions for pixel coordinates, and the rounded division
//! that converts a pixel coordinate into a tile coordinate.

use vstd::prelude::*;

verus! {

// ---------------------------------------------------------------------------
// Decimal digits
// ---------------------------------------------------------------------------

/// Whether `c` is a decimal digit.
pub open spec fn is_digit_char(c: char) -> bool {
    48 <= c as u32 <= 57
}

/// The value of a digit character; zero for any other character.
pub open spec fn digit_of(c: char) -> nat {
    if is_digit_char(c) {
        (c as u32 - 48) as nat
    } else {
        0
    }
}

/// Whether `c` is a decimal digit.
pub fn is_digit(c: char) -> (r: bool)
    ensures
        r == is_digit_char(c),
{
    let u = c as u32;
    48 <= u && u <= 57
}

/// Whether every character of `s` is a decimal digit.
pub open spec fn all_digits(s: Seq<char>) -> bool {
    forall|i: int| 0 <= i < s.len() ==> is_digit_char(s[i])
}

/// The number denoted by a sequence of digit characters, most significant
/// first.
pub open spec fn digits_val(s: Seq<char>) -> nat
    decreases s.len(),
{
    if s.len() == 0 {
        0
    } else {
        digits_val(s.drop_last()) * 10 + digit_of(s.last())
    }
}

pub proof fn lemma_digits_val_push(s: Seq<char>, c: char)
    ensures
        digits_val(s.push(c)) == digits_val(s) * 10 + digit_of(c),
{
    assert(s.push(c).drop_last() =~= s);
    assert(s.push(c).last() == c);
}

/// A prefix of a digit string never denotes more than the whole string.
pub proof fn lemma_digits_val_take_le(s: Seq<char>, i: int, j: int)
    requires
        0 <= i <= j <= s.len(),
    ensures
        digits_val(s.take(i)) <= digits_val(s.take(j)),
    decreases j - i,
{
    if i < j {
        lemma_digits_val_take_le(s, i, j - 1);
        assert(s.take(j).drop_last() =~= s.take(j - 1));
        assert(digits_val(s.take(j)) == digits_val(s.take(j - 1)) * 10 + digit_of(
            s.take(j).last(),
        ));
        assert(digits_val(s.take(j - 1)) * 10 >= digits_val(s.take(j - 1))) by (nonlinear_arith);
    }
}

// ---------------------------------------------------------------------------
// Unsigned integer parsing
// ---------------------------------------------------------------------------

/// The number denoted by a non-empty, all-digit sequence, if it fits in `max`.
pub open spec fn spec_parse_digits(s: Seq<char>, max: nat) -> Option<nat> {
    if s.len() > 0 && all_digits(s) && digits_val(s) <= max {
        Some(digits_val(s))
    } else {
        None
    }
}

/// Parses the characters of `v` from position `from` to the end as an
/// unsigned decimal number.
pub fn parse_digits_u64(v: &Vec<char>, from: usize) -> (r: Option<u64>)
    requires
        from <= v@.len(),
    ensures
        match r {
            Some(n) => spec_parse_digits(v@.skip(from as int), u64::MAX as nat) == Some(n as nat),
            None => spec_parse_digits(v@.skip(from as int), u64::MAX as nat) is None,
        },
{
    let ghost s = v@.skip(from as int);
    if from == v.len() {
        return None;
    }
    let mut acc: u64 = 0;
    let mut i: usize = from;
    while i < v.len()
        invariant
            from <= i <= v@.len(),
            s == v@.skip(from as int),
            all_digits(s.take(i - from)),
            acc == digits_val(s.take(i - from)),
        decreases v@.len() - i,
    {
        let c = v[i];
        let u = c as u32;
        proof {
            assert(s[i - from] == v@[i as int]);
        }
        if !(48 <= u && u <= 57) {
            proof {
                assert(!is_digit_char(s[i - from]));
            }
            return None;
        }
        let d = (u - 48) as u64;
        proof {
            assert(s.take(i - from + 1).drop_last() =~= s.take(i - from));
            assert(digits_val(s.take(i - from + 1)) == acc * 10 + d);
        }
        let step = match acc.checked_mul(10) {
            Some(m) => m.checked_add(d),
            None => None,
        };
        match step {
            Some(next) => {
                acc = next;
            },
            None => {
                proof {
                    assert(digits_val(s.take(i - from + 1)) > u64::MAX);
                    lemma_digits_val_take_le(s, i - from + 1, s.len() as int);
                    assert(s.take(s.len() as int) =~= s);
                }
                return None;
            },
        }
        i = i + 1;
    }
    proof {
        assert(s.take(s.len() as int) =~= s);
    }
    Some(acc)
}

/// An unsigned decimal number with an optional leading `+`, as `str::parse`
/// accepts for the unsigned integer types.
pub open spec fn spec_parse_unsigned(s: Seq<char>, max: nat) -> Option<nat> {
    if s.len() > 0 && s[0] == '+' {
        spec_parse_digits(s.skip(1), max)
    } else {
        spec_parse_digits(s, max)
    }
}

pub fn parse_u64_chars(v: &Vec<char>) -> (r: Option<u64>)
    ensures
        match r {
            Some(n) => spec_parse_unsigned(v@, u64::MAX as nat) == Some(n as nat),
            None => spec_parse_unsigned(v@, u64::MAX as nat) is None,
        },
{
    if v.len() > 0 && v[0] == '+' {
        parse_digits_u64(v, 1)
    } else {
        proof {
            assert(v@.skip(0) =~= v@);
        }
        parse_digits_u64(v, 0)
    }
}

/// `str::parse::<u16>`-like parsing: the value must fit in 16 bits.
pub open spec fn spec_parse_u16(s: Seq<char>) -> Option<u16> {
    match spec_parse_unsigned(s, u64::MAX as nat) {
        Some(n) => if n <= u16::MAX {
            Some(n as u16)
        } else {
            None
        },
        None => None,
    }
}

pub fn parse_u16_chars(v: &Vec<char>) -> (r: Option<u16>)
    ensures
        r == spec_parse_u16(v@),
{
    match parse_u64_chars(v) {
        Some(n) => if n <= u16::MAX as u64 {
            Some(n as u16)
        } else {
            None
        },
        None => None,
    }
}

/// `str::parse::<u8>`-like parsing: the value must fit in 8 bits.
pub open spec fn spec_parse_u8(s: Seq<char>) -> Option<u8> {
    match spec_parse_unsigned(s, u64::MAX as nat) {
        Some(n) => if n <= u8::MAX {
            Some(n as u8)
        } else {
            None
        },
        None => None,
    }
}

pub fn parse_u8_chars(v: &Vec<char>) -> (r: Option<u8>)
    ensures
        r == spec_parse_u8(v@),
{
    match parse_u64_chars(v) {
        Some(n) => if n <= u8::MAX as u64 {
            Some(n as u8)
        } else {
            None
        },
        None => None,
    }
}

/// `str::parse::<u32>`-like parsing: the value must fit in 32 bits.
pub open spec fn spec_parse_u32(s: Seq<char>) -> Option<u32> {
    match spec_parse_unsigned(s, u64::MAX as nat) {
        Some(n) => if n <= u32::MAX {
            Some(n as u32)
        } else {
            None
        },
        None => None,
    }
}

pub fn parse_u32_chars(v: &Vec<char>) -> (r: Option<u32>)
    ensures
        r == spec_parse_u32(v@),
{
    match parse_u64_chars(v) {
        Some(n) => if n <= u32::MAX as u64 {
            Some(n as u32)
        } else {
            None
        },
        None => None,
    }
}

/// `str::parse::<usize>`-like parsing: the value must fit in a `usize`.
pub open spec fn spec_parse_usize(s: Seq<char>) -> Option<usize> {
    match spec_parse_unsigned(s, u64::MAX as nat) {
        Some(n) => if n <= usize::MAX {
            Some(n as usize)
        } else {
            None
        },
        None => None,
    }
}

pub fn parse_usize_chars(v: &Vec<char>) -> (r: Option<usize>)
    ensures
        r == spec_parse_usize(v@),
{
    match parse_u64_chars(v) {
        Some(n) => if n <= usize::MAX as u64 {
            Some(n as usize)
        } else {
            None
        },
        None => None,
    }
}

// ---------------------------------------------------------------------------
// Signed integer parsing
// ---------------------------------------------------------------------------

/// `str::parse::<i64>`-like parsing: an optional sign followed by digits.
pub open spec fn spec_parse_i64(s: Seq<char>) -> Option<i64> {
    if s.len() > 0 && s[0] == '-' {
        match spec_parse_digits(s.skip(1), u64::MAX as nat) {
            Some(n) => if n <= 0x8000_0000_0000_0000 {
                Some((0 - n) as i64)
            } else {
                None
            },
            None => None,
        }
    } else if s.len() > 0 && s[0] == '+' {
        match spec_parse_digits(s.skip(1), u64::MAX as nat) {
            Some(n) => if n <= i64::MAX {
                Some(n as i64)
            } else {
                None
            },
            None => None,
        }
    } else {
        match spec_parse_digits(s, u64::MAX as nat) {
            Some(n) => if n <= i64::MAX {
                Some(n as i64)
            } else {
                None
            },
            None => None,
        }
    }
}

pub fn parse_i64_chars(v: &Vec<char>) -> (r: Option<i64>)
    ensures
        r == spec_parse_i64(v@),
{
    if v.len() > 0 && v[0] == '-' {
        match parse_digits_u64(v, 1) {
            Some(n) => if n <= 0x8000_0000_0000_0000 {
                if n == 0x8000_0000_0000_0000 {
                    Some(i64::MIN)
                } else {
                    Some(-(n as i64))
                }
            } else {
                None
            },
            None => None,
        }
    } else {
        let start: usize = if v.len() > 0 && v[0] == '+' {
            1
        } else {
            0
        };
        proof {
            assert(v@.skip(0) =~= v@);
        }
        match parse_digits_u64(v, start) {
            Some(n) => if n <= i64::MAX as u64 {
                Some(n as i64)
            } else {
                None
            },
            None => None,
        }
    }
}

// ---------------------------------------------------------------------------
// Integer formatting
// ---------------------------------------------------------------------------

/// The digit character for a value below ten.
pub open spec fn digit_char(d: nat) -> char
    recommends
        d < 10,
{
    ((48 + d) as u8) as char
}

/// The shortest decimal notation of `n`, most significant digit first.
pub open spec fn spec_fmt_nat(n: nat) -> Seq<char>
    decreases n,
{
    if n < 10 {
        seq![digit_char(n)]
    } else {
        spec_fmt_nat(n / 10).push(digit_char(n % 10))
    }
}

/// The decimal notation of a signed value: a `-` sign ahead of the digits of
/// its magnitude.
pub open spec fn spec_fmt_i64(x: i64) -> Seq<char> {
    if x >= 0 {
        spec_fmt_nat(x as nat)
    } else {
        seq!['-'] + spec_fmt_nat((0 - x as int) as nat)
    }
}

pub proof fn lemma_fmt_nat_digits(n: nat)
    ensures
        spec_fmt_nat(n).len() >= 1,
        all_digits(spec_fmt_nat(n)),
        digits_val(spec_fmt_nat(n)) == n,
    decreases n,
{
    if n < 10 {
        assert(spec_fmt_nat(n) =~= seq![digit_char(n)]);
        assert(is_digit_char(digit_char(n))) by {
            assert(digit_char(n) as u32 == 48 + n);
        }
        assert(seq![digit_char(n)].drop_last() =~= Seq::<char>::empty());
        assert(digits_val(Seq::<char>::empty()) == 0);
        assert(digits_val(seq![digit_char(n)]) == digit_of(digit_char(n)));
        assert(digit_of(digit_char(n)) == n) by {
            assert(digit_char(n) as u32 == 48 + n);
        }
    } else {
        lemma_fmt_nat_digits(n / 10);
        let p = spec_fmt_nat(n / 10);
        let c = digit_char(n % 10);
        lemma_digits_val_push(p, c);
        assert(is_digit_char(c)) by {
            assert(c as u32 == 48 + n % 10);
        }
        assert(digit_of(c) == n % 10) by {
            assert(c as u32 == 48 + n % 10);
        }
        assert(forall|i: int|
            0 <= i < p.push(c).len() ==> is_digit_char(
                #[trigger] p.push(c)[i],
            )) by {
            assert(forall|i: int| 0 <= i < p.len() ==> p.push(c)[i] == p[i]);
        }
        assert(digits_val(p.push(c)) == (n / 10) * 10 + n % 10);
        assert((n / 10) * 10 + n % 10 == n) by (nonlinear_arith);
    }
}

/// Appends the decimal digits of `n` to `out`.
fn fmt_u64_into(n: u64, out: &mut Vec<char>)
    ensures
        final(out)@ == old(out)@ + spec_fmt_nat(n as nat),
    decreases n,
{
    if n < 10 {
        let c = ((48 + n as u8) as u8) as char;
        out.push(c);
        proof {
            assert(final(out)@ =~= old(out)@ + spec_fmt_nat(n as nat));
        }
    } else {
        fmt_u64_into(n / 10, out);
        let c = (48 + (n % 10) as u8) as char;
        out.push(c);
        proof {
            assert(final(out)@ =~= old(out)@ + spec_fmt_nat(n as nat));
        }
    }
}

/// The decimal notation of `n`.
pub fn fmt_u64_chars(n: u64) -> (r: Vec<char>)
    ensures
        r@ == spec_fmt_nat(n as nat),
{
    let mut out: Vec<char> = Vec::new();
    fmt_u64_into(n, &mut out);
    proof {
        assert(out@ =~= spec_fmt_nat(n as nat));
    }
    out
}

/// The decimal notation of `x`, with a `-` sign when negative.
pub fn fmt_i64_chars(x: i64) -> (r: Vec<char>)
    ensures
        r@ == spec_fmt_i64(x),
{
    if x >= 0 {
        fmt_u64_chars(x as u64)
    } else {
        let mag: u64 = if x == i64::MIN {
            0x8000_0000_0000_0000
        } else {
            (-x) as u64
        };
        let mut out: Vec<char> = Vec::new();
        out.push('-');
        fmt_u64_into(mag, &mut out);
        proof {
            assert(out@ =~= spec_fmt_i64(x));
        }
        out
    }
}

/// Formatting a signed value and parsing it back returns the value.
pub proof fn lemma_fmt_parse_i64(x: i64)
    ensures
        spec_parse_i64(spec_fmt_i64(x)) == Some(x),
{
    if x >= 0 {
        lemma_fmt_nat_digits(x as nat);
        let s = spec_fmt_i64(x);
        assert(is_digit_char(s[0]));
        assert(s[0] != '+' && s[0] != '-') by {
            assert(('+' as u32) == 43 && ('-' as u32) == 45);
        }
    } else {
        let m = (0 - x as int) as nat;
        lemma_fmt_nat_digits(m);
        let s = spec_fmt_i64(x);
        assert(s[0] == '-');
        assert(s.skip(1) =~= spec_fmt_nat(m));
        assert(m <= 0x8000_0000_0000_0000);
    }
}

// ---------------------------------------------------------------------------
// Plain decimal fractions
// ---------------------------------------------------------------------------

/// The end of the run of digit characters that starts at `i`: the first
/// position at or after `i` holding a non-digit, or the end of the sequence.
pub open spec fn digit_run_end(s: Seq<char>, i: int) -> int
    decreases s.len() - i,
{
    if i < 0 || i >= s.len() {
        s.len() as int
    } else if !is_digit_char(s[i]) {
        i
    } else {
        digit_run_end(s, i + 1)
    }
}

pub proof fn lemma_digit_run_end(s: Seq<char>, i: int)
    requires
        0 <= i <= s.len(),
    ensures
        i <= digit_run_end(s, i) <= s.len(),
        forall|m: int| i <= m < digit_run_end(s, i) ==> is_digit_char(s[m]),
        digit_run_end(s, i) < s.len() ==> !is_digit_char(s[digit_run_end(s, i)]),
    decreases s.len() - i,
{
    if i < s.len() && is_digit_char(s[i]) {
        lemma_digit_run_end(s, i + 1);
    }
}

/// The unsigned part of a decimal literal: the characters after an optional
/// single sign character.
pub open spec fn decimal_body(s: Seq<char>) -> Seq<char> {
    if s.len() > 0 && (s[0] == '+' || s[0] == '-') {
        s.skip(1)
    } else {
        s
    }
}

/// A plain decimal number: an optional sign, one or more digits, and an
/// optional fractional part of one or more digits introduced by a full stop.
pub open spec fn is_plain_decimal(s: Seq<char>) -> bool {
    let u = decimal_body(s);
    let k = digit_run_end(u, 0);
    k > 0 && (k == u.len() || (u[k] == '.' && k + 1 < u.len() && digit_run_end(u, k + 1)
        == u.len()))
}

/// A parsed plain decimal number: the sign, the integer digits, and the
/// fractional digits (empty when there is no fractional part).
pub struct DecimalParts {
    pub negative: bool,
    pub int_digits: Vec<char>,
    pub frac_digits: Vec<char>,
}

/// The integer digits of a plain decimal literal.
pub open spec fn spec_decimal_int_digits(s: Seq<char>) -> Seq<char> {
    let u = decimal_body(s);
    u.take(digit_run_end(u, 0))
}

/// The fractional digits of a plain decimal literal; empty when it has no
/// fractional part.
pub open spec fn spec_decimal_frac_digits(s: Seq<char>) -> Seq<char> {
    let u = decimal_body(s);
    let k = digit_run_end(u, 0);
    if k == u.len() {
        Seq::<char>::empty()
    } else {
        u.skip(k + 1)
    }
}

/// Whether a plain decimal literal carries a minus sign.
pub open spec fn spec_decimal_negative(s: Seq<char>) -> bool {
    s.len() > 0 && s[0] == '-'
}

/// Splits a plain decimal number into sign, integer digits and fractional
/// digits; `None` when the characters are not a plain decimal number.
pub fn split_decimal(v: &Vec<char>) -> (r: Option<DecimalParts>)
    ensures
        r is Some <==> is_plain_decimal(v@),
        r matches Some(p) ==> {
            &&& p.negative == spec_decimal_negative(v@)
            &&& p.int_digits@ == spec_decimal_int_digits(v@)
            &&& p.frac_digits@ == spec_decimal_frac_digits(v@)
        },
{
    let negative = v.len() > 0 && v[0] == '-';
    let start: usize = if v.len() > 0 && (v[0] == '+' || v[0] == '-') {
        1
    } else {
        0
    };
    let ghost u = decimal_body(v@);
    proof {
        assert(u =~= v@.skip(start as int));
    }
    let mut i: usize = start;
    while i < v.len() && is_digit(v[i])
        invariant
            start <= i <= v@.len(),
            u =~= v@.skip(start as int),
            digit_run_end(u, 0) == digit_run_end(u, i - start),
        decreases v@.len() - i,
    {
        proof {
            assert(u[i - start] == v@[i as int]);
        }
        i = i + 1;
    }
    proof {
        if i < v.len() {
            assert(u[i - start] == v@[i as int]);
            assert(digit_run_end(u, i - start) == i - start);
        } else {
            assert(digit_run_end(u, i - start) == u.len());
        }
    }
    let k = i - start;
    if k == 0 {
        return None;
    }
    if i == v.len() {
        let int_digits = crate::text::subrange_chars(v, start, i);
        proof {
            assert(int_digits@ =~= spec_decimal_int_digits(v@));
        }
        return Some(DecimalParts { negative, int_digits, frac_digits: Vec::new() });
    }
    if v[i] != '.' {
        return None;
    }
    if i + 1 == v.len() {
        return None;
    }
    let mut j: usize = i + 1;
    while j < v.len() && is_digit(v[j])
        invariant
            i + 1 <= j <= v@.len(),
            start <= i < v@.len(),
            u =~= v@.skip(start as int),
            digit_run_end(u, i - start + 1) == digit_run_end(u, j - start),
        decreases v@.len() - j,
    {
        proof {
            assert(u[j - start] == v@[j as int]);
        }
        j = j + 1;
    }
    proof {
        if j < v.len() {
            assert(u[j - start] == v@[j as int]);
            assert(digit_run_end(u, j - start) == j - start);
        } else {
            assert(digit_run_end(u, j - start) == u.len());
        }
    }
    if j != v.len() {
        return None;
    }
    let int_digits = crate::text::subrange_chars(v, start, i);
    let frac_digits = crate::text::subrange_chars(v, i + 1, j);
    proof {
        assert(u[k as int] == v@[i as int]);
        assert(int_digits@ =~= spec_decimal_int_digits(v@));
        assert(frac_digits@ =~= spec_decimal_frac_digits(v@));
    }
    Some(DecimalParts { negative, int_digits, frac_digits })
}

/// Whether the characters of `v` form a plain decimal number.
pub fn is_plain_decimal_chars(v: &Vec<char>) -> (r: bool)
    ensures
        r == is_plain_decimal(v@),
{
    match split_decimal(v) {
        Some(_) => true,
        None => false,
    }
}

// ---------------------------------------------------------------------------
// Pixel coordinates
// ---------------------------------------------------------------------------

/// Ten to the `k`.
pub open spec fn pow10(k: nat) -> nat
    decreases k,
{
    if k == 0 {
        1
    } else {
        10 * pow10((k - 1) as nat)
    }
}

/// The mathematical value of a non-negative decimal literal with integer
/// digits `ip` and fractional digits `fp`, scaled by ten to the number of
/// fractional digits.
pub open spec fn decimal_scaled(ip: Seq<char>, fp: Seq<char>) -> nat {
    digits_val(ip) * pow10(fp.len()) + digits_val(fp)
}

/// Division of a non-negative decimal coordinate by the tile width, rounded
/// to the nearest integer with halves rounded up: the value is
/// `scaled / (pow10(k) * tw)` where `scaled` is the coordinate times
/// `pow10(k)`.
pub open spec fn spec_round_div(scaled: nat, k: nat, tw: nat) -> nat
    recommends
        tw > 0,
{
    (2 * scaled + pow10(k) * tw) / (2 * pow10(k) * tw)
}


/// The digits of a plain decimal literal are digits, and the integer part is
/// never empty.
pub proof fn lemma_decimal_digits(s: Seq<char>)
    requires
        is_plain_decimal(s),
    ensures
        spec_decimal_int_digits(s).len() > 0,
        all_digits(spec_decimal_int_digits(s)),
        all_digits(spec_decimal_frac_digits(s)),
{
    let u = decimal_body(s);
    let k = digit_run_end(u, 0);
    lemma_digit_run_end(u, 0);
    if k < u.len() {
        lemma_digit_run_end(u, k + 1);
        assert forall|m: int|
            0 <= m < spec_decimal_frac_digits(s).len() implies is_digit_char(
            #[trigger] spec_decimal_frac_digits(s)[m],
        ) by {
            assert(spec_decimal_frac_digits(s)[m] == u[k + 1 + m]);
        }
    }
    assert forall|m: int|
        0 <= m < spec_decimal_int_digits(s).len() implies is_digit_char(
        #[trigger] spec_decimal_int_digits(s)[m],
    ) by {
        assert(spec_decimal_int_digits(s)[m] == u[m]);
    }
}

/// A digit string of `n` digits denotes less than ten to the `n`.
pub proof fn lemma_digits_val_bound(s: Seq<char>)
    ensures
        digits_val(s) < pow10(s.len()),
    decreases s.len(),
{
    if s.len() == 0 {
    } else {
        lemma_digits_val_bound(s.drop_last());
        assert(pow10(s.len()) == 10 * pow10((s.len() - 1) as nat));
        assert(digits_val(s.drop_last()) * 10 + digit_of(s.last()) < 10 * pow10(
            (s.len() - 1) as nat,
        )) by (nonlinear_arith)
            requires
                digits_val(s.drop_last()) < pow10((s.len() - 1) as nat),
                digit_of(s.last()) <= 9,
        ;
    }
}

/// Ten to the `k`, for `k` up to six.
pub fn pow10_u64(k: usize) -> (r: u64)
    requires
        k <= 6,
    ensures
        r == pow10(k as nat),
        1 <= r <= 1000000,
{
    proof {
        assert(pow10(0) == 1);
        assert(pow10(1) == 10);
        assert(pow10(2) == 100);
        assert(pow10(3) == 1000);
        assert(pow10(4) == 10000);
        assert(pow10(5) == 100000);
        assert(pow10(6) == 1000000);
    }
    if k == 0 {
        1
    } else if k == 1 {
        10
    } else if k == 2 {
        100
    } else if k == 3 {
        1000
    } else if k == 4 {
        10000
    } else if k == 5 {
        100000
    } else {
        1000000
    }
}

} // verus!
