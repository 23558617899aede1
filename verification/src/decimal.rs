//! Decimal numbers in text: reading them as std's `FromStr` for integers
//! reads them, and writing them as `Display` and `{:02}` write them.
use vstd::prelude::*;

verus! {

pub open spec fn is_digit(c: char) -> bool {
    '0' <= c && c <= '9'
}

pub open spec fn digit_value(c: char) -> nat {
    (c as int - '0' as int) as nat
}

pub open spec fn all_digits(s: Seq<char>) -> bool {
    forall|i: int| 0 <= i < s.len() ==> is_digit(#[trigger] s[i])
}

/// The number that a run of decimal digits denotes.
pub open spec fn digits_value(s: Seq<char>) -> nat
    decreases s.len(),
{
    if s.len() == 0 {
        0
    } else {
        digits_value(s.drop_last()) * 10 + digit_value(s.last())
    }
}

/// `s` without one leading `+`.
pub open spec fn without_plus(s: Seq<char>) -> Seq<char> {
    if s.len() > 0 && s[0] == '+' {
        s.drop_first()
    } else {
        s
    }
}

/// Whether `d` is a non-empty run of digits whose value is at most `limit`.
pub open spec fn digits_within(d: Seq<char>, limit: nat) -> bool {
    d.len() > 0 && all_digits(d) && digits_value(d) <= limit
}

/// What `s.parse::<u8>()` gives: an optional `+`, then at least one digit,
/// with a value of at most 255.
pub open spec fn parse_u8_spec(s: Seq<char>) -> Option<u8> {
    let d = without_plus(s);
    if digits_within(d, 255) {
        Some(digits_value(d) as u8)
    } else {
        None
    }
}

/// What `s.parse::<u32>()` gives: an optional `+`, then at least one digit,
/// with a value in the range of `u32`.
pub open spec fn parse_u32_spec(s: Seq<char>) -> Option<u32> {
    let d = without_plus(s);
    if digits_within(d, 4294967295) {
        Some(digits_value(d) as u32)
    } else {
        None
    }
}

/// What `s.parse::<i32>()` gives: an optional sign, then at least one digit,
/// with a value in the range of `i32`.
pub open spec fn parse_i32_spec(s: Seq<char>) -> Option<i32> {
    if s.len() > 0 && s[0] == '-' {
        let d = s.drop_first();
        if digits_within(d, 2147483648) {
            Some((-digits_value(d)) as i32)
        } else {
            None
        }
    } else {
        let d = without_plus(s);
        if digits_within(d, 2147483647) {
            Some(digits_value(d) as i32)
        } else {
            None
        }
    }
}

/// The digit character for `d < 10`.
pub open spec fn digit_char(d: nat) -> char {
    ((48 + d) as u8) as char
}

/// The decimal notation of `n` without leading zeros, as `Display` writes it.
pub open spec fn decimal(n: nat) -> Seq<char>
    decreases n,
{
    if n < 10 {
        seq![digit_char(n)]
    } else {
        decimal(n / 10).push(digit_char(n % 10))
    }
}

/// The notation of `n` padded with zeros to at least two digits, as `{:02}`
/// writes it.
pub open spec fn pad2(n: nat) -> Seq<char> {
    if n < 10 {
        seq!['0'] + decimal(n)
    } else {
        decimal(n)
    }
}

/// A longer run of digits denotes at least as much as its prefix.
pub proof fn lemma_prefix_value_le(d: Seq<char>, i: int, j: int)
    requires
        0 <= i <= j <= d.len(),
        all_digits(d),
    ensures
        digits_value(d.take(i)) <= digits_value(d.take(j)),
    decreases j - i,
{
    if i < j {
        lemma_prefix_value_le(d, i, j - 1);
        assert(d.take(j).drop_last() =~= d.take(j - 1));
    }
}

/// The digits are decimal digits.
pub proof fn lemma_decimal_digits(n: nat)
    ensures
        decimal(n).len() >= 1,
        all_digits(decimal(n)),
        digits_value(decimal(n)) == n,
        n >= 10 ==> decimal(n)[0] != '0',
    decreases n,
{
    let d = n % 10;
    assert((((48 + d) as u8) as char) as int == 48 + d);
    if n >= 10 {
        lemma_decimal_digits(n / 10);
        assert(decimal(n).drop_last() =~= decimal(n / 10));
        assert(decimal(n)[0] == decimal(n / 10)[0]);
        assert(digits_value(decimal(n)) == digits_value(decimal(n / 10)) * 10 + d);
        assert(n == (n / 10) * 10 + d);
    } else {
        assert(decimal(n).drop_last() =~= Seq::<char>::empty());
        assert(digits_value(decimal(n)) == digits_value(Seq::<char>::empty()) * 10 + d);
    }
}

/// Reads `s[start..]` as a run of digits no larger than `limit`.
fn digits_at_most(s: &[char], start: usize, limit: u64) -> (r: Option<u64>)
    requires
        start <= s@.len(),
        limit <= 4294967296,
    ensures
        r == (if digits_within(s@.skip(start as int), limit as nat) {
            Some(digits_value(s@.skip(start as int)) as u64)
        } else {
            None::<u64>
        }),
{
    let ghost d = s@.skip(start as int);
    if start == s.len() {
        return None;
    }
    let mut acc: u64 = 0;
    let mut i: usize = start;
    while i < s.len()
        invariant
            start <= i <= s@.len(),
            d == s@.skip(start as int),
            limit <= 4294967296,
            all_digits(d.take(i - start)),
            acc == digits_value(d.take(i - start)),
            acc <= limit,
        decreases s@.len() - i,
    {
        let c = s[i];
        if c < '0' || c > '9' {
            assert(d[i - start] == c);
            return None;
        }
        let v: u64 = (c as u32 - '0' as u32) as u64;
        assert(d.take(i - start + 1).drop_last() =~= d.take(i - start));
        assert(d.take(i - start + 1).last() == c);
        acc = acc * 10 + v;
        i = i + 1;
        assert(all_digits(d.take(i - start))) by {
            assert forall|k: int| 0 <= k < d.take(i - start).len() implies is_digit(
                #[trigger] d.take(i - start)[k],
            ) by {
                if k < i - start - 1 {
                    assert(d.take(i - start)[k] == d.take(i - start - 1)[k]);
                }
            }
        }
        if acc > limit {
            proof {
                if all_digits(d) {
                    lemma_prefix_value_le(d, i - start, d.len() as int);
                    assert(d.take(d.len() as int) =~= d);
                }
            }
            return None;
        }
    }
    assert(d.take(i - start) =~= d);
    Some(acc)
}

/// Reads a `u8` as `str::parse::<u8>` does.
pub fn parse_u8(s: &[char]) -> (r: Option<u8>)
    ensures
        r == parse_u8_spec(s@),
{
    let start: usize = if s.len() > 0 && s[0] == '+' {
        1
    } else {
        0
    };
    assert(s@.skip(start as int) =~= without_plus(s@));
    match digits_at_most(s, start, 255) {
        Some(v) => Some(v as u8),
        None => None,
    }
}

/// Reads a `u32` as `str::parse::<u32>` does.
pub fn parse_u32(s: &[char]) -> (r: Option<u32>)
    ensures
        r == parse_u32_spec(s@),
{
    let start: usize = if s.len() > 0 && s[0] == '+' {
        1
    } else {
        0
    };
    assert(s@.skip(start as int) =~= without_plus(s@));
    match digits_at_most(s, start, 4294967295) {
        Some(v) => Some(v as u32),
        None => None,
    }
}

/// Reads an `i32` as `str::parse::<i32>` does.
pub fn parse_i32(s: &[char]) -> (r: Option<i32>)
    ensures
        r == parse_i32_spec(s@),
{
    if s.len() > 0 && s[0] == '-' {
        assert(s@.skip(1) =~= s@.drop_first());
        match digits_at_most(s, 1, 2147483648) {
            Some(v) => {
                let neg: i64 = -(v as i64);
                Some(neg as i32)
            },
            None => None,
        }
    } else {
        let start: usize = if s.len() > 0 && s[0] == '+' {
            1
        } else {
            0
        };
        assert(s@.skip(start as int) =~= without_plus(s@));
        match digits_at_most(s, start, 2147483647) {
            Some(v) => Some(v as i32),
            None => None,
        }
    }
}

/// The digit character for `d < 10`.
fn digit_char_of(d: u64) -> (c: char)
    requires
        d < 10,
    ensures
        c == digit_char(d as nat),
{
    let b: u8 = 48u8 + (d as u8);
    b as char
}

/// Writes `n` in decimal, as `Display` does.
pub fn decimal_chars(n: u64) -> (v: Vec<char>)
    ensures
        v@ == decimal(n as nat),
    decreases n,
{
    if n < 10 {
        let mut v: Vec<char> = Vec::new();
        v.push(digit_char_of(n));
        assert(v@ =~= decimal(n as nat));
        v
    } else {
        let mut v = decimal_chars(n / 10);
        v.push(digit_char_of(n % 10));
        v
    }
}

/// Writes `n` padded to two digits, as `{:02}` does.
pub fn pad2_chars(n: u64) -> (v: Vec<char>)
    ensures
        v@ == pad2(n as nat),
{
    let d = decimal_chars(n);
    if n < 10 {
        let mut v: Vec<char> = Vec::new();
        v.push('0');
        let mut i: usize = 0;
        while i < d.len()
            invariant
                i <= d@.len(),
                v@ == seq!['0'] + d@.take(i as int),
            decreases d@.len() - i,
        {
            v.push(d[i]);
            i = i + 1;
            assert(v@ =~= seq!['0'] + d@.take(i as int));
        }
        assert(d@.take(d@.len() as int) =~= d@);
        v
    } else {
        d
    }
}

} // verus!
