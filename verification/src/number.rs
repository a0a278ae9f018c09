//! Decimal numbers as the kernel writes them, read and written digit by digit.
//!
//! An unsigned number is an optional `+` and at least one digit; a signed one
//! may start with `-` instead. Leading zeros are accepted. A number that does
//! not fit the target type is no number.

use vstd::prelude::*;

verus! {

/// Whether `c` is a decimal digit.
pub open spec fn is_digit(c: char) -> bool {
    '0' <= c <= '9'
}

/// The value of a digit character.
pub open spec fn digit_value(c: char) -> nat {
    if is_digit(c) {
        (c as int - '0' as int) as nat
    } else {
        0
    }
}

/// The character of a digit below ten.
pub open spec fn digit_char(d: nat) -> char {
    if d == 0 {
        '0'
    } else if d == 1 {
        '1'
    } else if d == 2 {
        '2'
    } else if d == 3 {
        '3'
    } else if d == 4 {
        '4'
    } else if d == 5 {
        '5'
    } else if d == 6 {
        '6'
    } else if d == 7 {
        '7'
    } else if d == 8 {
        '8'
    } else {
        '9'
    }
}

/// Whether `s` holds nothing but digits.
pub open spec fn all_digits(s: Seq<char>) -> bool {
    forall|i: int| 0 <= i < s.len() ==> is_digit(#[trigger] s[i])
}

/// The number that a run of digits writes, most significant digit first.
pub open spec fn digits_value(s: Seq<char>) -> nat
    decreases s.len(),
{
    if s.len() == 0 {
        0
    } else {
        digits_value(s.drop_last()) * 10 + digit_value(s.last())
    }
}

/// `s` without one leading `+`.
pub open spec fn without_plus(s: Seq<char>) -> Seq<char> {
    if s.len() > 0 && s[0] == '+' {
        s.skip(1)
    } else {
        s
    }
}

/// The natural number that `s` writes with nothing but digits, if it is one.
pub open spec fn plain_number(s: Seq<char>) -> Option<nat> {
    if s.len() > 0 && all_digits(s) {
        Some(digits_value(s))
    } else {
        None
    }
}

/// The `u64` that `s` writes in decimal, if it is one.
pub open spec fn decimal_u64(s: Seq<char>) -> Option<u64> {
    match plain_number(without_plus(s)) {
        Some(n) => if n <= u64::MAX {
            Some(n as u64)
        } else {
            None
        },
        None => None,
    }
}

/// The `i32` that `s` writes in decimal, if it is one.
pub open spec fn decimal_i32(s: Seq<char>) -> Option<i32> {
    if s.len() > 0 && s[0] == '-' {
        match plain_number(s.skip(1)) {
            Some(n) => if n <= 0x8000_0000 {
                Some((-(n as int)) as i32)
            } else {
                None
            },
            None => None,
        }
    } else {
        match plain_number(without_plus(s)) {
            Some(n) => if n <= i32::MAX {
                Some(n as i32)
            } else {
                None
            },
            None => None,
        }
    }
}

/// The `u64` that `s` writes, or zero where it writes none.
pub open spec fn u64_or_zero(s: Seq<char>) -> u64 {
    match decimal_u64(s) {
        Some(n) => n,
        None => 0,
    }
}

/// The `i32` that `s` writes, or zero where it writes none.
pub open spec fn i32_or_zero(s: Seq<char>) -> i32 {
    match decimal_i32(s) {
        Some(n) => n,
        None => 0,
    }
}

/// The shortest decimal writing of `n`.
pub open spec fn decimal_text(n: nat) -> Seq<char>
    decreases n,
{
    if n < 10 {
        seq![digit_char(n)]
    } else {
        decimal_text(n / 10).push(digit_char(n % 10))
    }
}

/// The decimal writing of a signed number: `-` before the magnitude of a
/// negative one.
pub open spec fn signed_text(n: int) -> Seq<char> {
    if n < 0 {
        seq!['-'] + decimal_text((-n) as nat)
    } else {
        decimal_text(n as nat)
    }
}

/// A longer run of digits writes no smaller a number than its beginning.
pub proof fn lemma_prefix_value(s: Seq<char>, k: int)
    requires
        0 <= k <= s.len(),
    ensures
        digits_value(s.take(k)) <= digits_value(s),
    decreases s.len(),
{
    if k == s.len() {
        assert(s.take(k) == s);
    } else {
        lemma_prefix_value(s.drop_last(), k);
        assert(s.drop_last().take(k) == s.take(k));
    }
}

/// Reading back what was written gives the number again.
pub proof fn lemma_decimal_text(n: nat)
    ensures
        decimal_text(n).len() > 0,
        all_digits(decimal_text(n)),
        digits_value(decimal_text(n)) == n,
        plain_number(decimal_text(n)) == Some(n),
        without_plus(decimal_text(n)) == decimal_text(n),
    decreases n,
{
    let t = decimal_text(n);
    if n < 10 {
        assert(t.drop_last() == Seq::<char>::empty());
        assert(digits_value(t.drop_last()) == 0);
        assert(t.last() == digit_char(n));
    } else {
        lemma_decimal_text(n / 10);
        assert(t.drop_last() == decimal_text(n / 10));
        assert(t.last() == digit_char(n % 10));
        assert(t[0] == decimal_text(n / 10)[0]);
    }
}

/// Whether `c` is a decimal digit.
pub fn is_digit_char(c: char) -> (b: bool)
    ensures
        b == is_digit(c),
{
    '0' <= c && c <= '9'
}

/// The value of the digit `c`.
pub fn digit_of(c: char) -> (d: u8)
    requires
        is_digit(c),
    ensures
        d == digit_value(c),
        d <= 9,
{
    (c as u32 - '0' as u32) as u8
}

/// The character of the digit `d`.
pub fn char_of_digit(d: u8) -> (c: char)
    requires
        d <= 9,
    ensures
        c == digit_char(d as nat),
        is_digit(c),
        digit_value(c) == d,
{
    if d == 0 {
        '0'
    } else if d == 1 {
        '1'
    } else if d == 2 {
        '2'
    } else if d == 3 {
        '3'
    } else if d == 4 {
        '4'
    } else if d == 5 {
        '5'
    } else if d == 6 {
        '6'
    } else if d == 7 {
        '7'
    } else if d == 8 {
        '8'
    } else {
        '9'
    }
}

/// Reads the digits of `v` from `from` to its end as a number that fits `u64`.
pub fn read_digits(v: &Vec<char>, from: usize) -> (r: Option<u64>)
    requires
        from <= v.len(),
    ensures
        r == match plain_number(v@.skip(from as int)) {
            Some(n) => if n <= u64::MAX {
                Some(n as u64)
            } else {
                None
            },
            None => None,
        },
{
    let ghost s = v@.skip(from as int);
    if from == v.len() {
        return None;
    }
    let mut acc: u64 = 0;
    let mut i: usize = from;
    proof {
        assert(s.take(0) == Seq::<char>::empty());
    }
    while i < v.len()
        invariant
            from <= i <= v.len(),
            s == v@.skip(from as int),
            all_digits(s.take(i - from)),
            acc == digits_value(s.take(i - from)),
        decreases v.len() - i,
    {
        let c = v[i];
        assert(s[i - from] == c);
        if !is_digit_char(c) {
            return None;
        }
        let d = digit_of(c);
        proof {
            let next = s.take(i - from + 1);
            assert(next.drop_last() == s.take(i - from));
            assert(next.last() == c);
            assert(all_digits(next)) by {
                assert forall|k: int| 0 <= k < next.len() implies is_digit(#[trigger] next[k]) by {
                    if k < i - from {
                        assert(next[k] == s.take(i - from)[k]);
                    }
                }
            }
            lemma_prefix_value(s, i - from + 1);
        }
        if acc > (u64::MAX - d as u64) / 10 {
            return None;
        }
        acc = acc * 10 + d as u64;
        i += 1;
    }
    proof {
        assert(s.take(i - from) == s);
    }
    Some(acc)
}

/// Whether `v` is a non-empty run of digits.
pub fn is_plain_number(v: &Vec<char>) -> (r: bool)
    ensures
        r == (plain_number(v@) is Some),
{
    if v.len() == 0 {
        return false;
    }
    let mut i: usize = 0;
    while i < v.len()
        invariant
            i <= v.len(),
            forall|k: int| 0 <= k < i ==> is_digit(#[trigger] v@[k]),
        decreases v.len() - i,
    {
        if !is_digit_char(v[i]) {
            return false;
        }
        i += 1;
    }
    true
}

/// No digit is white space, a point or an equals sign.
pub proof fn lemma_digits_are_plain(s: Seq<char>)
    requires
        all_digits(s),
    ensures
        forall|k: int|
            0 <= k < s.len() ==> !crate::text::is_space(#[trigger] s[k]) && s[k] != '.' && s[k]
                != '=',
{
    assert forall|k: int| 0 <= k < s.len() implies !crate::text::is_space(#[trigger] s[k]) && s[k]
        != '.' && s[k] != '=' by {
        assert(is_digit(s[k]));
    }
}

/// Reads an unsigned decimal number.
pub fn parse_u64(v: &Vec<char>) -> (r: Option<u64>)
    ensures
        r == decimal_u64(v@),
{
    if v.len() > 0 && v[0] == '+' {
        read_digits(v, 1)
    } else {
        assert(v@.skip(0) == v@);
        read_digits(v, 0)
    }
}

/// Reads a signed decimal number that fits `i32`.
pub fn parse_i32(v: &Vec<char>) -> (r: Option<i32>)
    ensures
        r == decimal_i32(v@),
{
    if v.len() > 0 && v[0] == '-' {
        match read_digits(v, 1) {
            Some(n) => {
                if n <= 0x7fff_ffff {
                    Some(-(n as i32))
                } else if n == 0x8000_0000 {
                    Some(i32::MIN)
                } else {
                    None
                }
            },
            None => None,
        }
    } else {
        let n = parse_u64(v);
        match n {
            Some(n) => {
                if n <= 0x7fff_ffff {
                    Some(n as i32)
                } else {
                    None
                }
            },
            None => None,
        }
    }
}

/// Reads an unsigned decimal number; what is no number counts as zero.
pub fn parse_u64_or_zero(v: &Vec<char>) -> (r: u64)
    ensures
        r == u64_or_zero(v@),
{
    match parse_u64(v) {
        Some(n) => n,
        None => 0,
    }
}

/// Reads a signed decimal number; what is no number counts as zero.
pub fn parse_i32_or_zero(v: &Vec<char>) -> (r: i32)
    ensures
        r == i32_or_zero(v@),
{
    match parse_i32(v) {
        Some(n) => n,
        None => 0,
    }
}

/// Appends the decimal writing of `n` to `out`.
pub fn write_u64(out: &mut Vec<char>, n: u64)
    ensures
        final(out)@ == old(out)@ + decimal_text(n as nat),
    decreases n,
{
    if n >= 10 {
        write_u64(out, n / 10);
    }
    let c = char_of_digit((n % 10) as u8);
    out.push(c);
    proof {
        if n >= 10 {
            assert(final(out)@ == old(out)@ + decimal_text((n / 10) as nat).push(c));
        } else {
            assert(final(out)@ == old(out)@ + seq![c]);
        }
    }
}

/// Appends the decimal writing of `n` to `out`.
pub fn write_i32(out: &mut Vec<char>, n: i32)
    ensures
        final(out)@ == old(out)@ + signed_text(n as int),
{
    if n < 0 {
        out.push('-');
        let m: u64 = (-(n as i64)) as u64;
        let ghost mid = out@;
        write_u64(out, m);
        assert(out@ == old(out)@ + (seq!['-'] + decimal_text(m as nat)));
    } else {
        write_u64(out, n as u64);
    }
}

/// Appends the characters of `s` to `out`.
pub fn write_str(out: &mut Vec<char>, s: &str)
    ensures
        final(out)@ == old(out)@ + s@,
{
    let v = crate::text::chars_of(s);
    write_chars(out, &v);
}

/// Appends the characters of `v` to `out`.
pub fn write_chars(out: &mut Vec<char>, v: &Vec<char>)
    ensures
        final(out)@ == old(out)@ + v@,
{
    let mut i: usize = 0;
    assert(out@ == old(out)@ + v@.take(0));
    while i < v.len()
        invariant
            i <= v.len(),
            out@ == old(out)@ + v@.take(i as int),
        decreases v.len() - i,
    {
        out.push(v[i]);
        assert(old(out)@ + v@.take(i + 1) == (old(out)@ + v@.take(i as int)).push(v@[i as int]));
        i += 1;
    }
    assert(v@.take(v.len() as int) == v@);
}

} // verus!
