//! Reading and writing whole numbers in decimal.
use vstd::prelude::*;
use vstd::string::*;

use crate::text::chars_of;

verus! {

/// The digit for `d`: `0` to `9`, then `a` to `z`.
pub open spec fn digit_char(d: int) -> char {
    if d < 10 {
        (48 + d) as char
    } else {
        (87 + d) as char
    }
}

/// Whether `c` is an ASCII decimal digit.
pub open spec fn is_digit(c: char) -> bool {
    48 <= c as u32 <= 57
}

/// What a decimal digit counts.
pub open spec fn digit_value(c: char) -> int {
    c as u32 - 48
}

/// The digit for `d`, in lower case.
pub fn digit(d: u32) -> (r: char)
    requires
        d < 36,
    ensures
        r == digit_char(d as int),
{
    if d < 10 {
        (48 + d as u8) as char
    } else {
        (87 + d as u8) as char
    }
}

/// Whether `c` is an ASCII decimal digit.
pub fn decimal_digit(c: char) -> (r: bool)
    ensures
        r == is_digit(c),
{
    48 <= c as u32 && c as u32 <= 57
}

// ---------------------------------------------------------------------------
// Writing.
// ---------------------------------------------------------------------------

/// `n` in decimal, without leading zeros.
pub open spec fn decimal_nat(n: nat) -> Seq<char>
    decreases n,
{
    if n < 10 {
        seq![digit_char(n as int)]
    } else {
        decimal_nat(n / 10).push(digit_char((n % 10) as int))
    }
}

/// `n` in decimal, with a minus sign where it is negative.
pub open spec fn decimal(n: int) -> Seq<char> {
    if n < 0 {
        seq!['-'] + decimal_nat((-n) as nat)
    } else {
        decimal_nat(n as nat)
    }
}

/// Appends `n` in decimal to `out`.
pub fn push_unsigned(out: &mut String, n: u64)
    ensures
        final(out)@ == old(out)@ + decimal(n as int),
    decreases n,
{
    if n < 10 {
        out.push(digit(n as u32));
    } else {
        push_unsigned(out, n / 10);
        out.push(digit((n % 10) as u32));
    }
    assert(out@ =~= old(out)@ + decimal(n as int));
}

/// Appends `n` in decimal to `out`.
pub fn push_signed(out: &mut String, n: i64)
    ensures
        final(out)@ == old(out)@ + decimal(n as int),
{
    if n < 0 {
        out.push('-');
        let below: i64 = -(n + 1);
        push_unsigned(out, below as u64 + 1);
    } else {
        push_unsigned(out, n as u64);
    }
    assert(out@ =~= old(out)@ + decimal(n as int));
}

// ---------------------------------------------------------------------------
// Reading.
// ---------------------------------------------------------------------------

/// Whether `s` is one decimal digit or more.
pub open spec fn is_digits(s: Seq<char>) -> bool {
    s.len() > 0 && forall|i: int| 0 <= i < s.len() ==> is_digit(#[trigger] s[i])
}

/// The number that the digits of `s` write.
pub open spec fn digits_value(s: Seq<char>) -> int
    decreases s.len(),
{
    if s.len() == 0 {
        0
    } else {
        10 * digits_value(s.drop_last()) + digit_value(s.last())
    }
}

/// The number that `s` writes as a `u64`: digits, with at most one plus sign
/// before them, for a number in range.
pub open spec fn read_u64(s: Seq<char>) -> Option<u64> {
    let digits = if s.len() > 0 && s[0] == '+' {
        s.skip(1)
    } else {
        s
    };
    if is_digits(digits) && digits_value(digits) <= u64::MAX {
        Some(digits_value(digits) as u64)
    } else {
        None
    }
}

/// The number that `s` writes as an `i64`: digits, with at most one sign before
/// them, for a number in range.
pub open spec fn read_i64(s: Seq<char>) -> Option<i64> {
    let signed = s.len() > 0 && (s[0] == '+' || s[0] == '-');
    let digits = if signed {
        s.skip(1)
    } else {
        s
    };
    let n = if signed && s[0] == '-' {
        -digits_value(digits)
    } else {
        digits_value(digits)
    };
    if is_digits(digits) && i64::MIN <= n <= i64::MAX {
        Some(n as i64)
    } else {
        None
    }
}

/// A longer run of digits never writes a smaller number.
pub proof fn lemma_digits_value_grows(s: Seq<char>, n: int)
    requires
        0 <= n <= s.len(),
        forall|i: int| 0 <= i < s.len() ==> is_digit(#[trigger] s[i]),
    ensures
        0 <= digits_value(s.take(n)) <= digits_value(s),
    decreases s.len(),
{
    if s.len() > 0 {
        let init = s.drop_last();
        assert forall|i: int| 0 <= i < init.len() implies is_digit(#[trigger] init[i]) by {
            assert(init[i] == s[i]);
        }
        assert(is_digit(s[s.len() - 1]));
        if n < s.len() {
            lemma_digits_value_grows(init, n);
            assert(init.take(n) =~= s.take(n));
        } else {
            lemma_digits_value_grows(init, init.len() as int);
            assert(init.take(init.len() as int) =~= init);
            assert(s.take(n) =~= s);
        }
    }
}

/// Reads the digits `chars[from..]`: their number where it is at most `max`.
fn read_digits(chars: &Vec<char>, from: usize, max: u64) -> (r: Option<u64>)
    requires
        from <= chars@.len(),
    ensures
        r == (if is_digits(chars@.skip(from as int)) && digits_value(chars@.skip(from as int)) <= max {
            Some(digits_value(chars@.skip(from as int)) as u64)
        } else {
            None::<u64>
        }),
{
    let ghost s = chars@.skip(from as int);
    if from == chars.len() {
        return None;
    }
    let mut n: u64 = 0;
    let mut i: usize = from;
    assert(s.take(0) =~= Seq::empty());
    while i < chars.len()
        invariant
            from <= i <= chars@.len(),
            s == chars@.skip(from as int),
            forall|j: int| 0 <= j < i - from ==> is_digit(#[trigger] s[j]),
            n == digits_value(s.take(i - from)),
            n <= max,
        decreases chars@.len() - i,
    {
        assert(s[i - from] == chars@[i as int]);
        if !decimal_digit(chars[i]) {
            return None;
        }
        let next: u128 = n as u128 * 10 + (chars[i] as u32 - 48) as u128;
        assert(s.take(i - from + 1).drop_last() =~= s.take(i - from));
        assert(s.take(i - from + 1).last() == chars@[i as int]);
        assert(next == digits_value(s.take(i - from + 1)));
        if next > max as u128 {
            proof {
                if is_digits(s) {
                    lemma_digits_value_grows(s, i - from + 1);
                }
            }
            return None;
        }
        n = next as u64;
        i += 1;
    }
    assert(s.take(i - from) =~= s);
    Some(n)
}

/// Reads a `u64` in decimal.
pub fn parse_u64(text: &str) -> (r: Option<u64>)
    ensures
        r == read_u64(text@),
{
    let chars: Vec<char> = chars_of(text);
    assert(chars@.skip(0) =~= chars@);
    if chars.len() > 0 && chars[0] == '+' {
        read_digits(&chars, 1, u64::MAX)
    } else {
        read_digits(&chars, 0, u64::MAX)
    }
}

/// Reads an `i64` in decimal.
pub fn parse_i64(text: &str) -> (r: Option<i64>)
    ensures
        r == read_i64(text@),
{
    let chars: Vec<char> = chars_of(text);
    let ghost s = chars@;
    assert(s.skip(0) =~= s);
    proof {
        if is_digits(s.skip(1)) {
            lemma_digits_value_grows(s.skip(1), 0);
        }
        if is_digits(s) {
            lemma_digits_value_grows(s, 0);
        }
    }
    if chars.len() > 0 && chars[0] == '-' {
        match read_digits(&chars, 1, 0x8000_0000_0000_0000) {
            Some(0) => Some(0),
            Some(n) => {
                let below: i64 = (n - 1) as i64;
                Some(-1 - below)
            },
            None => None,
        }
    } else if chars.len() > 0 && chars[0] == '+' {
        match read_digits(&chars, 1, 0x7fff_ffff_ffff_ffff) {
            Some(n) => Some(n as i64),
            None => None,
        }
    } else {
        match read_digits(&chars, 0, 0x7fff_ffff_ffff_ffff) {
            Some(n) => Some(n as i64),
            None => None,
        }
    }
}

// ---------------------------------------------------------------------------
// Laws.
// ---------------------------------------------------------------------------

/// What is written for a number is digits, and they write that number.
pub proof fn lemma_decimal_nat(n: nat)
    ensures
        is_digits(decimal_nat(n)),
        digits_value(decimal_nat(n)) == n,
    decreases n,
{
    let s = decimal_nat(n);
    if n < 10 {
        reveal_with_fuel(digits_value, 2);
        assert(s.drop_last() =~= Seq::empty());
    } else {
        lemma_decimal_nat(n / 10);
        let init = decimal_nat(n / 10);
        assert(s.drop_last() =~= init);
        assert forall|i: int| 0 <= i < s.len() implies is_digit(#[trigger] s[i]) by {
            if i < init.len() {
                assert(s[i] == init[i]);
            }
        }
    }
}

/// A number that was written is read back.
pub proof fn law_written_numbers_are_read_back(n: int)
    ensures
        i64::MIN <= n <= i64::MAX ==> read_i64(decimal(n)) == Some(n as i64),
        0 <= n <= u64::MAX ==> read_u64(decimal(n)) == Some(n as u64),
{
    let s = decimal(n);
    if n < 0 {
        lemma_decimal_nat((-n) as nat);
        assert(s.skip(1) =~= decimal_nat((-n) as nat));
    } else {
        lemma_decimal_nat(n as nat);
        assert(is_digit(s[0]));
    }
}

/// Numbers below ten are written by their digit, one more digit stands behind, and a
/// negative number has a minus sign before it.
pub proof fn law_decimal_digits(q: int, d: int)
    requires
        0 <= q,
        0 <= d < 10,
    ensures
        decimal(d).len() == 1 && decimal(d)[0] as u32 == 48 + d,
        q > 0 ==> decimal(10 * q + d) == decimal(q) + decimal(d),
        q > 0 ==> decimal(-q) == seq!['-'] + decimal(q),
{
    if q > 0 {
        assert((10 * q + d) / 10 == q);
        assert((10 * q + d) % 10 == d);
        assert(decimal(10 * q + d) =~= decimal(q) + decimal(d));
    }
}

/// Zeros, `n` of them.
pub open spec fn zeros(n: nat) -> Seq<char> {
    Seq::new(n, |i: int| '0')
}

proof fn lemma_digit_char(c: char)
    requires
        is_digit(c),
    ensures
        0 <= digit_value(c) < 10,
        digit_char(digit_value(c)) == c,
{
}

proof fn lemma_digits_write_their_value(s: Seq<char>) -> (n: nat)
    requires
        is_digits(s),
    ensures
        digits_value(s) >= 0,
        s == zeros(n) + decimal_nat(digits_value(s) as nat),
    decreases s.len(),
{
    let init = s.drop_last();
    let last = s.last();
    assert(is_digit(s[s.len() - 1]));
    lemma_digit_char(last);
    if init.len() == 0 {
        assert(digits_value(init) == 0);
        assert(decimal_nat(digits_value(s) as nat) =~= seq![last]);
        assert(s =~= zeros(0) + decimal_nat(digits_value(s) as nat));
        0
    } else {
        assert forall|i: int| 0 <= i < init.len() implies is_digit(#[trigger] init[i]) by {
            assert(init[i] == s[i]);
        }
        let n = lemma_digits_write_their_value(init);
        let q = digits_value(init);
        let d = digit_value(last);
        assert(s =~= init.push(last));
        if q == 0 {
            assert(decimal_nat(0) =~= seq!['0']);
            assert(zeros(n) + decimal_nat(0) =~= zeros(n + 1));
            assert(decimal_nat(d as nat) =~= seq![last]);
            assert(s =~= zeros(n + 1) + decimal_nat(digits_value(s) as nat));
            n + 1
        } else {
            assert((10 * q + d) / 10 == q);
            assert((10 * q + d) % 10 == d);
            assert(decimal_nat((10 * q + d) as nat) == decimal_nat(q as nat).push(last));
            assert(s =~= zeros(n) + decimal_nat(digits_value(s) as nat));
            n
        }
    }
}

/// A text reads as a number exactly where it is that number in decimal, with leading zeros
/// and a sign allowed.
pub proof fn law_only_decimals_are_read(s: Seq<char>)
    ensures
        read_u64(s) matches Some(n) ==> exists|k: nat|
            #![trigger zeros(k)]
            zeros(k) + decimal(n as int) == s || seq!['+'] + (zeros(k) + decimal(n as int)) == s,
        read_i64(s) matches Some(n) ==> exists|k: nat|
            #![trigger zeros(k)]
            (n >= 0 && (zeros(k) + decimal(n as int) == s || seq!['+'] + (zeros(k) + decimal(
                n as int,
            )) == s)) || (n <= 0 && seq!['-'] + (zeros(k) + decimal(-n)) == s),
{
    let tail = s.skip(1);
    if s.len() > 0 {
        assert(seq![s[0]] + tail =~= s);
    }
    if is_digits(s) {
        let k = lemma_digits_write_their_value(s);
        assert(zeros(k) + decimal(digits_value(s)) == s);
    }
    if s.len() > 0 && is_digits(tail) {
        let k = lemma_digits_write_their_value(tail);
        assert(zeros(k) + decimal(digits_value(tail)) == tail);
        if s[0] == '+' {
            assert(seq!['+'] + tail == s);
        }
        if s[0] == '-' {
            assert(seq!['-'] + tail == s);
        }
    }
}

/// Leading zeros and a plus sign change nothing; a minus sign turns the number round.
pub proof fn law_signs_and_zeros(k: nat, n: nat)
    ensures
        n <= u64::MAX ==> read_u64(zeros(k) + decimal(n as int)) == Some(n as u64)
            && read_u64(seq!['+'] + (zeros(k) + decimal(n as int))) == Some(n as u64),
        n <= i64::MAX ==> read_i64(zeros(k) + decimal(n as int)) == Some(n as i64)
            && read_i64(seq!['+'] + (zeros(k) + decimal(n as int))) == Some(n as i64),
        -n >= i64::MIN ==> read_i64(seq!['-'] + (zeros(k) + decimal(n as int))) == Some(-n as i64),
        n > u64::MAX ==> read_u64(zeros(k) + decimal(n as int)) is None,
        n > i64::MAX ==> read_i64(zeros(k) + decimal(n as int)) is None,
{
    let s = zeros(k) + decimal(n as int);
    lemma_zeros_count_nothing(k, n);
    assert((seq!['+'] + s).skip(1) =~= s);
    assert((seq!['-'] + s).skip(1) =~= s);
    assert(is_digit(s[0]));
}

proof fn lemma_zeros_count_nothing(k: nat, n: nat)
    ensures
        is_digits(zeros(k) + decimal(n as int)),
        digits_value(zeros(k) + decimal(n as int)) == n,
    decreases k + n,
{
    let s = zeros(k) + decimal(n as int);
    lemma_decimal_nat(n);
    assert forall|i: int| 0 <= i < s.len() implies is_digit(#[trigger] s[i]) by {
        if i >= k {
            assert(s[i] == decimal(n as int)[i - k]);
        }
    }
    if n < 10 {
        assert(s.drop_last() =~= zeros(k));
        lemma_zeros_are_nothing(k);
    } else {
        lemma_zeros_count_nothing(k, n / 10);
        assert(s.drop_last() =~= zeros(k) + decimal((n / 10) as int));
    }
}

proof fn lemma_zeros_are_nothing(k: nat)
    ensures
        digits_value(zeros(k)) == 0,
    decreases k,
{
    if k > 0 {
        lemma_zeros_are_nothing((k - 1) as nat);
        assert(zeros(k).drop_last() =~= zeros((k - 1) as nat));
    }
}

} // verus!
