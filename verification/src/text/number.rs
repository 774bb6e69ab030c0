//! Decimal notation of integers, written and read.

use vstd::prelude::*;

use super::chars::chars_of;

verus! {

/// The character of the decimal digit `d`.
pub open spec fn digit_char(d: nat) -> char {
    (48 + d) as char
}

/// Whether `c` is an ASCII decimal digit.
pub open spec fn is_digit(c: char) -> bool {
    '0' <= c && c <= '9'
}

/// The number that a decimal digit stands for.
pub open spec fn digit_value(c: char) -> nat {
    (c as u32 - 48) as nat
}

/// `n` in decimal notation, without leading zeros.
pub open spec fn decimal(n: nat) -> Seq<char>
    decreases n,
{
    if n < 10 {
        seq![digit_char(n)]
    } else {
        decimal(n / 10).push(digit_char(n % 10))
    }
}

/// `n` in decimal notation, with a minus sign where it is negative.
pub open spec fn decimal_int(n: int) -> Seq<char> {
    if n < 0 {
        seq!['-'] + decimal((-n) as nat)
    } else {
        decimal(n as nat)
    }
}

/// Whether `s` is made of decimal digits, at least one.
pub open spec fn is_number(s: Seq<char>) -> bool {
    s.len() > 0 && forall|i: int| 0 <= i < s.len() ==> is_digit(#[trigger] s[i])
}

/// The number that a row of decimal digits stands for.
pub open spec fn value_of(s: Seq<char>) -> nat
    decreases s.len(),
{
    if s.len() == 0 {
        0
    } else {
        value_of(s.drop_last()) * 10 + digit_value(s.last())
    }
}

/// `s` read as an integer from 0 to `max`: decimal digits, with an optional plus sign before them.
pub open spec fn read_unsigned(s: Seq<char>, max: nat) -> Option<nat> {
    let body = if s.len() > 0 && s[0] == '+' {
        s.drop_first()
    } else {
        s
    };
    if is_number(body) && value_of(body) <= max {
        Some(value_of(body))
    } else {
        None
    }
}

/// `s` read as a `u64`.
pub open spec fn read_u64(s: Seq<char>) -> Option<u64> {
    match read_unsigned(s, u64::MAX as nat) {
        Some(n) => Some(n as u64),
        None => None,
    }
}

/// `s` read as a `u32`.
pub open spec fn read_u32(s: Seq<char>) -> Option<u32> {
    match read_unsigned(s, u32::MAX as nat) {
        Some(n) => Some(n as u32),
        None => None,
    }
}

/// `s` read as an `i64`: decimal digits, with an optional sign before them.
pub open spec fn read_i64(s: Seq<char>) -> Option<i64> {
    if s.len() > 0 && s[0] == '-' {
        let body = s.drop_first();
        if is_number(body) && value_of(body) <= 0x8000_0000_0000_0000 {
            Some((-value_of(body)) as i64)
        } else {
            None
        }
    } else {
        match read_unsigned(s, i64::MAX as nat) {
            Some(n) => Some(n as i64),
            None => None,
        }
    }
}

proof fn lemma_value_grows(s: Seq<char>, i: int)
    requires
        0 <= i <= s.len(),
    ensures
        value_of(s.take(i)) <= value_of(s),
    decreases s.len(),
{
    if i < s.len() {
        lemma_value_grows(s.drop_last(), i);
        assert(s.drop_last().take(i) =~= s.take(i));
    } else {
        assert(s.take(i) =~= s);
    }
}

/// Decimal notation is made of digits, and reads back as the number written.
pub proof fn decimal_reads_back(n: nat)
    ensures
        is_number(decimal(n)),
        value_of(decimal(n)) == n,
    decreases n,
{
    reveal_with_fuel(value_of, 2);
    if n < 10 {
        assert(decimal(n).drop_last() =~= Seq::empty());
    } else {
        decimal_reads_back(n / 10);
        assert(decimal(n).drop_last() =~= decimal(n / 10));
    }
}

/// Every `u64` is read back from its decimal notation.
pub proof fn u64_reads_back(n: u64)
    ensures
        read_u64(decimal(n as nat)) == Some(n),
{
    decimal_reads_back(n as nat);
    assert(is_digit(decimal(n as nat)[0]));
}

/// Every `i64` is read back from its decimal notation.
pub proof fn i64_reads_back(n: i64)
    ensures
        read_i64(decimal_int(n as int)) == Some(n),
{
    if n < 0 {
        decimal_reads_back((-n) as nat);
        assert(decimal_int(n as int).drop_first() =~= decimal((-n) as nat));
    } else {
        decimal_reads_back(n as nat);
        assert(is_digit(decimal(n as nat)[0]));
    }
}

/// A number below a power of ten has at most that many digits.
pub proof fn decimal_is_short(n: nat)
    requires
        n <= u64::MAX,
    ensures
        1 <= decimal(n).len() <= 20,
{
    reveal_with_fuel(decimal, 21);
}

/// What is read is what the digits say, with or without a plus sign, and with a minus sign for the
/// negative; anything with another character in it is no number.
pub proof fn digits_are_read(digits: Seq<char>, n: nat)
    requires
        is_number(digits),
        value_of(digits) == n,
    ensures
        n <= u64::MAX ==> read_u64(digits) == Some(n as u64) && read_u64(seq!['+'] + digits) == Some(
            n as u64,
        ),
        n > u64::MAX ==> read_u64(digits) is None,
        n <= u32::MAX ==> read_u32(digits) == Some(n as u32),
        n > u32::MAX ==> read_u32(digits) is None,
        n <= i64::MAX ==> read_i64(digits) == Some(n as i64) && read_i64(seq!['+'] + digits) == Some(
            n as i64,
        ) && read_i64(seq!['-'] + digits) == Some((-n) as i64),
        n > i64::MAX ==> read_i64(digits) is None,
        read_u64(seq!['-'] + digits) is None,
{
    assert((seq!['+'] + digits).drop_first() =~= digits);
    assert((seq!['-'] + digits).drop_first() =~= digits);
    assert(is_digit(digits[0]));
    assert(!is_digit((seq!['-'] + digits)[0]));
}

/// A text with a character that is no digit behind its first place is no number, and neither is an
/// empty one.
pub proof fn other_texts_are_no_numbers(s: Seq<char>, i: int)
    requires
        0 < i < s.len(),
        !is_digit(s[i]),
    ensures
        read_u64(s) is None,
        read_u32(s) is None,
        read_i64(s) is None,
        read_u64(seq![]) is None,
        read_i64(seq![]) is None,
        read_i64(seq!['-']) is None,
{
    assert(s.drop_first()[i - 1] == s[i]);
    assert(seq!['-'].drop_first() =~= Seq::<char>::empty());
}

/// `decimal` as a string.
pub fn u64_text(n: u64) -> (r: String)
    ensures
        r@ == decimal(n as nat),
{
    let mut digits: Vec<char> = Vec::new();
    let mut m: u64 = n;
    assert(digits@.reverse() =~= Seq::empty());
    assert(decimal(n as nat) + Seq::<char>::empty() =~= decimal(n as nat));
    while m >= 10
        invariant
            decimal(n as nat) == decimal(m as nat) + digits@.reverse(),
        decreases m,
    {
        let d: u8 = (m % 10) as u8;
        let ghost before = digits@;
        digits.push((48 + d) as char);
        proof {
            assert(digits@.reverse() =~= seq![digit_char((m % 10) as nat)] + before.reverse());
            assert(decimal(m as nat) + before.reverse() =~= decimal((m / 10) as nat) + (
            seq![digit_char((m % 10) as nat)] + before.reverse()));
        }
        m = m / 10;
    }
    let mut out = String::new();
    out.push((48 + m as u8) as char);
    assert(out@ =~= decimal(m as nat));
    let mut k: usize = digits.len();
    assert(out@ + digits@.take(k as int).reverse() =~= decimal(n as nat)) by {
        assert(digits@.take(k as int) =~= digits@);
    }
    while k > 0
        invariant
            k <= digits@.len(),
            out@ + digits@.take(k as int).reverse() =~= decimal(n as nat),
        decreases k,
    {
        proof {
            let t = digits@.take(k as int);
            assert(t.reverse() =~= seq![digits@[k - 1]] + digits@.take(k - 1).reverse());
            assert(out@ + t.reverse() =~= out@.push(digits@[k - 1]) + digits@.take(
                k - 1,
            ).reverse());
        }
        out.push(digits[k - 1]);
        k = k - 1;
    }
    assert(digits@.take(0).reverse() =~= Seq::empty());
    out
}

/// `decimal_int` as a string.
pub fn i64_text(n: i64) -> (r: String)
    ensures
        r@ == decimal_int(n as int),
{
    if n < 0 {
        let magnitude: u64 = if n == i64::MIN {
            0x8000_0000_0000_0000
        } else {
            (-n) as u64
        };
        let mut out = String::new();
        out.push('-');
        let digits = u64_text(magnitude);
        out.append(&digits);
        assert(out@ =~= decimal_int(n as int));
        out
    } else {
        u64_text(n as u64)
    }
}

/// The number that the digits of `v` from `from` on stand for, where it is at most `max`.
fn read_digits(v: &Vec<char>, from: usize, max: u64) -> (r: Option<u64>)
    requires
        from <= v@.len(),
    ensures
        r == (if is_number(v@.skip(from as int)) && value_of(v@.skip(from as int)) <= max {
            Some(value_of(v@.skip(from as int)) as u64)
        } else {
            None
        }),
{
    let ghost body = v@.skip(from as int);
    if from == v.len() {
        return None;
    }
    let mut acc: u64 = 0;
    let mut i: usize = from;
    while i < v.len()
        invariant
            from <= i <= v@.len(),
            from < v@.len(),
            body == v@.skip(from as int),
            acc <= max,
            acc == value_of(body.take(i - from)),
            forall|m: int| 0 <= m < i - from ==> is_digit(#[trigger] body[m]),
        decreases v@.len() - i,
    {
        let c: char = v[i];
        assert(c == body[i - from]);
        if !('0' <= c && c <= '9') {
            return None;
        }
        let d: u64 = (c as u32 - 48) as u64;
        let wide: u128 = acc as u128 * 10 + d as u128;
        proof {
            assert(body.take(i - from + 1).drop_last() =~= body.take(i - from));
            assert(wide == value_of(body.take(i - from + 1)));
            lemma_value_grows(body, i - from + 1);
        }
        if wide > max as u128 {
            return None;
        }
        acc = wide as u64;
        i = i + 1;
    }
    assert(body.take(i - from) =~= body);
    Some(acc)
}

/// `read_u64` of a string.
pub fn parse_u64(s: &str) -> (r: Option<u64>)
    ensures
        r == read_u64(s@),
{
    let v = chars_of(s);
    assert(v@.skip(0) == v@);
    if v.len() > 0 && v[0] == '+' {
        assert(v@.skip(1) == v@.drop_first());
        read_digits(&v, 1, u64::MAX)
    } else {
        read_digits(&v, 0, u64::MAX)
    }
}

/// `read_u32` of a string.
pub fn parse_u32(s: &str) -> (r: Option<u32>)
    ensures
        r == read_u32(s@),
{
    match parse_u64(s) {
        Some(n) => if n <= u32::MAX as u64 {
            Some(n as u32)
        } else {
            None
        },
        None => None,
    }
}

/// `read_i64` of a string.
pub fn parse_i64(s: &str) -> (r: Option<i64>)
    ensures
        r == read_i64(s@),
{
    let v = chars_of(s);
    assert(v@.skip(0) == v@);
    if v.len() > 0 {
        assert(v@.skip(1) == v@.drop_first());
    }
    if v.len() > 0 && v[0] == '-' {
        match read_digits(&v, 1, 0x8000_0000_0000_0000) {
            Some(n) => if n == 0x8000_0000_0000_0000 {
                Some(i64::MIN)
            } else {
                Some(-(n as i64))
            },
            None => None,
        }
    } else if v.len() > 0 && v[0] == '+' {
        match read_digits(&v, 1, i64::MAX as u64) {
            Some(n) => Some(n as i64),
            None => None,
        }
    } else {
        match read_digits(&v, 0, i64::MAX as u64) {
            Some(n) => Some(n as i64),
            None => None,
        }
    }
}

/// Appends `n` in decimal notation.
pub fn append_u64(s: &mut String, n: u64)
    ensures
        final(s)@ == old(s)@ + decimal(n as nat),
{
    let digits = u64_text(n);
    s.append(&digits);
}

/// Appends `n` in decimal notation.
pub fn append_i64(s: &mut String, n: i64)
    ensures
        final(s)@ == old(s)@ + decimal_int(n as int),
{
    let digits = i64_text(n);
    s.append(&digits);
}

} // verus!
