use vstd::prelude::*;

verus! {

/// True for the ten decimal digits.
pub open spec fn is_digit(c: char) -> bool {
    '0' <= c && c <= '9'
}

/// The value of a decimal digit; zero for any other character.
pub open spec fn digit_value(c: char) -> nat {
    if is_digit(c) {
        (c as u32 - 48) as nat
    } else {
        0
    }
}

/// The character that writes the digit `d`.
pub open spec fn digit_char(d: nat) -> char
    recommends
        d < 10,
{
    ((d + 48) as u8) as char
}

/// True when every character of `s` is a decimal digit.
pub open spec fn all_digits(s: Seq<char>) -> bool {
    forall|i: int| 0 <= i < s.len() ==> is_digit(#[trigger] s[i])
}

/// The number that a run of decimal digits writes, most significant first.
pub open spec fn digits_value(s: Seq<char>) -> nat
    decreases s.len(),
{
    if s.len() == 0 {
        0
    } else {
        digits_value(s.drop_last()) * 10 + digit_value(s.last())
    }
}

/// What a text means as an unsigned 64-bit number: an optional `+`, then one
/// or more decimal digits whose value fits. Anything else means nothing.
pub open spec fn parsed_u64(s: Seq<char>) -> Option<u64> {
    let body = if s.len() > 0 && s[0] == '+' {
        s.drop_first()
    } else {
        s
    };
    if body.len() > 0 && all_digits(body) && digits_value(body) <= u64::MAX {
        Some(digits_value(body) as u64)
    } else {
        None
    }
}

/// The decimal writing of `n`, without leading zeros.
pub open spec fn decimal(n: nat) -> Seq<char>
    decreases n,
{
    if n < 10 {
        seq![digit_char(n)]
    } else {
        decimal(n / 10).push(digit_char(n % 10))
    }
}

/// The decimal writing of `n`, padded with a zero to at least two digits.
pub open spec fn two_digits(n: nat) -> Seq<char> {
    if n < 10 {
        seq!['0'] + decimal(n)
    } else {
        decimal(n)
    }
}

/// A number of seconds written as hours, minutes and seconds, each of at
/// least two digits, with colons between them.
pub open spec fn clock_text(seconds: nat) -> Seq<char> {
    two_digits(seconds / 3600) + seq![':'] + two_digits((seconds % 3600) / 60) + seq![':']
        + two_digits(seconds % 60)
}

/// A longer run of digits is worth at least as much as any of its prefixes.
pub proof fn lemma_digits_prefix(s: Seq<char>, k: int)
    requires
        0 <= k <= s.len(),
    ensures
        digits_value(s.subrange(0, k)) <= digits_value(s),
    decreases s.len() - k,
{
    if k == s.len() {
        assert(s.subrange(0, k) =~= s);
    } else {
        lemma_digits_prefix(s.drop_last(), k);
        assert(s.drop_last().subrange(0, k) =~= s.subrange(0, k));
    }
}

/// Tells whether `c` is a decimal digit.
pub fn is_digit_char(c: char) -> (r: bool)
    ensures
        r == is_digit(c),
{
    '0' <= c && c <= '9'
}

/// Reads a run of decimal digits. The result is `None` when `s` holds another
/// character or when the value does not fit.
pub fn parse_digits(s: &Vec<char>) -> (r: Option<u64>)
    ensures
        r == if all_digits(s@) && digits_value(s@) <= u64::MAX {
            Some(digits_value(s@) as u64)
        } else {
            None
        },
{
    let mut acc: u64 = 0;
    let mut i: usize = 0;
    assert(s@.subrange(0, 0) =~= Seq::<char>::empty());
    while i < s.len()
        invariant
            i <= s.len(),
            all_digits(s@.subrange(0, i as int)),
            acc == digits_value(s@.subrange(0, i as int)),
        decreases s.len() - i,
    {
        let c = s[i];
        if !is_digit_char(c) {
            return None;
        }
        let d: u64 = (c as u32 - 48) as u64;
        proof {
            let next = s@.subrange(0, i + 1);
            assert(next.drop_last() =~= s@.subrange(0, i as int));
            assert(next.last() == c);
            lemma_digits_prefix(s@, i + 1);
            assert(all_digits(next)) by {
                assert forall|j: int| 0 <= j < next.len() implies is_digit(#[trigger] next[j]) by {
                    if j < i {
                        assert(s@.subrange(0, i as int)[j] == next[j]);
                    }
                }
            }
        }
        if acc > (u64::MAX - d) / 10 {
            return None;
        }
        acc = acc * 10 + d;
        i = i + 1;
    }
    assert(s@.subrange(0, s.len() as int) =~= s@);
    Some(acc)
}

/// Reads an unsigned 64-bit number.
pub fn parse_u64(s: &Vec<char>) -> (r: Option<u64>)
    ensures
        r == parsed_u64(s@),
{
    if s.len() == 0 {
        return None;
    }
    if s[0] == '+' {
        let body = crate::text::slice_chars(s, 1, s.len());
        assert(body@ =~= s@.drop_first());
        if body.len() == 0 {
            return None;
        }
        parse_digits(&body)
    } else {
        parse_digits(s)
    }
}

/// Writes `n` in decimal.
pub fn decimal_text(n: u64) -> (out: Vec<char>)
    ensures
        out@ == decimal(n as nat),
        out.len() >= 1,
    decreases n,
{
    if n < 10 {
        let c: char = ((n + 48) as u8) as char;
        let mut out: Vec<char> = Vec::new();
        out.push(c);
        assert(out@ =~= seq![digit_char(n as nat)]);
        out
    } else {
        let mut out = decimal_text(n / 10);
        let c: char = ((n % 10 + 48) as u8) as char;
        out.push(c);
        out
    }
}

/// Writes `n` in decimal, with a leading zero when it is below ten.
pub fn two_digit_text(n: u64) -> (out: Vec<char>)
    ensures
        out@ == two_digits(n as nat),
{
    let digits = decimal_text(n);
    if n < 10 {
        let mut out: Vec<char> = Vec::new();
        out.push('0');
        crate::text::extend_chars(&mut out, &digits);
        assert(out@ =~= seq!['0'] + decimal(n as nat));
        out
    } else {
        digits
    }
}

/// Writes a number of seconds as `HH:MM:SS`.
pub fn format_clock(seconds: u64) -> (out: String)
    ensures
        out@ == clock_text(seconds as nat),
{
    let mut chars = two_digit_text(seconds / 3600);
    chars.push(':');
    let minutes = two_digit_text((seconds % 3600) / 60);
    crate::text::extend_chars(&mut chars, &minutes);
    chars.push(':');
    let secs = two_digit_text(seconds % 60);
    crate::text::extend_chars(&mut chars, &secs);
    assert(chars@ =~= clock_text(seconds as nat));
    crate::text::string_of(&chars)
}

/// The value of the digit at position `i` of `s`; zero past the end.
pub open spec fn digit_at(s: Seq<char>, i: int) -> nat {
    if 0 <= i < s.len() {
        digit_value(s[i])
    } else {
        0
    }
}

/// What a text means as a number of thousandths: one or more digits, then
/// optionally a point and further digits, of which the first three count.
/// Anything else, or a value that does not fit, means nothing.
pub open spec fn parsed_milli(s: Seq<char>) -> Option<u64> {
    let dot = crate::text::first_sep(s, '.') as int;
    let whole = s.take(dot);
    let frac = if dot < s.len() {
        s.skip(dot + 1)
    } else {
        Seq::<char>::empty()
    };
    let value = digits_value(whole) * 1000 + digit_at(frac, 0) * 100 + digit_at(frac, 1) * 10
        + digit_at(frac, 2);
    if whole.len() > 0 && all_digits(whole) && all_digits(frac) && value <= u64::MAX {
        Some(value as u64)
    } else {
        None
    }
}

/// Tells whether every character of `s` is a decimal digit.
pub fn all_digit_chars(s: &Vec<char>) -> (r: bool)
    ensures
        r == all_digits(s@),
{
    let mut i: usize = 0;
    while i < s.len()
        invariant
            i <= s.len(),
            forall|j: int| 0 <= j < i ==> is_digit(#[trigger] s@[j]),
        decreases s.len() - i,
    {
        if !is_digit_char(s[i]) {
            return false;
        }
        i = i + 1;
    }
    true
}

/// The value of the digit at position `i` of `s`, zero past the end.
fn digit_of(s: &Vec<char>, i: usize) -> (d: u64)
    requires
        all_digits(s@),
    ensures
        d == digit_at(s@, i as int),
        d <= 9,
{
    if i < s.len() {
        assert(is_digit(s@[i as int]));
        (s[i] as u32 - 48) as u64
    } else {
        0
    }
}

/// Reads a decimal number with an optional fraction as thousandths.
pub fn parse_milli(s: &Vec<char>) -> (r: Option<u64>)
    ensures
        r == parsed_milli(s@),
{
    let n: usize = s.len();
    let mut dot: usize = 0;
    while dot < n && s[dot] != '.'
        invariant
            n == s.len(),
            dot <= n,
            forall|j: int| 0 <= j < dot ==> s@[j] != '.',
        decreases n - dot,
    {
        dot = dot + 1;
    }
    proof {
        crate::text::lemma_first_sep(s@, '.', dot as int);
    }
    let whole = crate::text::slice_chars(s, 0, dot);
    assert(whole@ =~= s@.take(dot as int));
    let frac = if dot < n {
        crate::text::slice_chars(s, dot + 1, n)
    } else {
        Vec::new()
    };
    assert(frac@ =~= if dot < n {
        s@.skip(dot + 1)
    } else {
        Seq::<char>::empty()
    });
    if whole.len() == 0 || !all_digit_chars(&frac) {
        return None;
    }
    match parse_digits(&whole) {
        Some(units) => {
            let wide: u128 = (units as u128) * 1000u128 + (digit_of(&frac, 0) as u128) * 100u128
                + (digit_of(&frac, 1) as u128) * 10u128 + (digit_of(&frac, 2) as u128);
            if wide > u64::MAX as u128 {
                None
            } else {
                Some(wide as u64)
            }
        },
        None => None,
    }
}

} // verus!
