//! Decimal text of integers: the rendering used on the wire for `<i4>` and for
//! integers too wide for it, and the parser that reads it back.

use vstd::prelude::*;
use crate::text::chars_of;

verus! {

pub open spec fn is_digit(c: char) -> bool {
    '0' <= c <= '9'
}

pub open spec fn digit_value(c: char) -> nat {
    (c as int - '0' as int) as nat
}

pub open spec fn digit_char(d: nat) -> char {
    ('0' as int + d) as char
}

pub open spec fn all_digits(s: Seq<char>) -> bool {
    forall|i: int| 0 <= i < s.len() ==> is_digit(#[trigger] s[i])
}

/// The number that a run of decimal digits denotes; leading zeros are allowed.
pub open spec fn digits_value(s: Seq<char>) -> nat
    decreases s.len(),
{
    if s.len() == 0 {
        0
    } else {
        digits_value(s.drop_last()) * 10 + digit_value(s.last())
    }
}

/// Decimal digits of `n`, most significant first, without leading zeros.
pub open spec fn nat_text(n: nat) -> Seq<char>
    decreases n,
{
    if n < 10 {
        seq![digit_char(n)]
    } else {
        nat_text(n / 10).push(digit_char(n % 10))
    }
}

/// Decimal text of `v`: a minus sign for negative numbers, then the digits.
pub open spec fn int_text(v: int) -> Seq<char> {
    if v < 0 {
        seq!['-'] + nat_text((-v) as nat)
    } else {
        nat_text(v as nat)
    }
}

/// What a decimal literal denotes: an optional sign (`-` only where `signed`),
/// then at least one digit and nothing else. `None` for any other text.
pub open spec fn literal_value(s: Seq<char>, signed: bool) -> Option<int> {
    if s.len() > 0 && s[0] == '+' {
        if s.len() > 1 && all_digits(s.drop_first()) {
            Some(digits_value(s.drop_first()) as int)
        } else {
            None
        }
    } else if s.len() > 0 && s[0] == '-' && signed {
        if s.len() > 1 && all_digits(s.drop_first()) {
            Some(-(digits_value(s.drop_first()) as int))
        } else {
            None
        }
    } else if s.len() > 0 && all_digits(s) {
        Some(digits_value(s) as int)
    } else {
        None
    }
}

/// The value of a decimal literal that lies in `min..=max`, `None` otherwise.
pub open spec fn bounded_value(s: Seq<char>, min: int, max: int) -> Option<int> {
    match literal_value(s, min < 0) {
        Some(v) => if min <= v <= max {
            Some(v)
        } else {
            None
        },
        None => None,
    }
}

pub proof fn lemma_digits_value_push(s: Seq<char>, c: char)
    ensures
        digits_value(s.push(c)) == digits_value(s) * 10 + digit_value(c),
{
    assert(s.push(c).drop_last() =~= s);
}

/// A run of digits denotes at least what any of its prefixes denotes.
pub proof fn lemma_digits_value_prefix(s: Seq<char>, k: int)
    requires
        0 <= k <= s.len(),
        all_digits(s),
    ensures
        digits_value(s.take(k)) <= digits_value(s),
    decreases s.len() - k,
{
    if k == s.len() {
        assert(s.take(k) =~= s);
    } else {
        lemma_digits_value_prefix(s, k + 1);
        assert(s.take(k + 1).drop_last() =~= s.take(k));
        assert(is_digit(s[k]));
    }
}

pub proof fn lemma_nat_text_digits(n: nat)
    ensures
        nat_text(n).len() >= 1,
        all_digits(nat_text(n)),
        digits_value(nat_text(n)) == n,
    decreases n,
{
    if n < 10 {
        assert(nat_text(n) =~= seq![digit_char(n)]);
        assert(nat_text(n).drop_last() =~= Seq::<char>::empty());
        assert(digits_value(Seq::<char>::empty()) == 0);
    } else {
        lemma_nat_text_digits(n / 10);
        lemma_digits_value_push(nat_text(n / 10), digit_char(n % 10));
    }
}

/// Reading back the decimal text of an integer gives that integer.
pub proof fn lemma_int_text_round_trip(v: int)
    ensures
        literal_value(int_text(v), true) == Some(v),
        v >= 0 ==> literal_value(int_text(v), false) == Some(v),
{
    if v < 0 {
        let n = (-v) as nat;
        lemma_nat_text_digits(n);
        assert(int_text(v).drop_first() =~= nat_text(n));
    } else {
        lemma_nat_text_digits(v as nat);
        let t = nat_text(v as nat);
        assert(is_digit(t[0]));
    }
}

/// Reads an unsigned run of digits `chars[from..]` whose value is at most `limit`.
fn parse_digits(chars: &Vec<char>, from: usize, limit: u64) -> (r: Option<u64>)
    requires
        from <= chars.len(),
    ensures
        r == (if from < chars.len() && all_digits(chars@.skip(from as int)) && digits_value(
            chars@.skip(from as int),
        ) <= limit {
            Some(digits_value(chars@.skip(from as int)) as u64)
        } else {
            None
        }),
{
    let ghost body = chars@.skip(from as int);
    if from >= chars.len() {
        return None;
    }
    let mut acc: u64 = 0;
    let mut i: usize = from;
    while i < chars.len()
        invariant
            from <= i <= chars.len(),
            body == chars@.skip(from as int),
            all_digits(body.take(i - from)),
            acc == digits_value(body.take(i - from)),
            acc <= limit,
        decreases chars.len() - i,
    {
        let c = chars[i];
        assert(body[i - from] == c);
        if !('0' <= c && c <= '9') {
            return None;
        }
        let d: u64 = (c as u32 - '0' as u32) as u64;
        proof {
            assert(body.take(i - from + 1) =~= body.take(i - from).push(c));
            lemma_digits_value_push(body.take(i - from), c);
        }
        if d > limit || acc > (limit - d) / 10 {
            proof {
                if all_digits(body) {
                    lemma_digits_value_prefix(body, i - from + 1);
                }
            }
            return None;
        }
        acc = acc * 10 + d;
        i = i + 1;
    }
    proof {
        assert(body.take(i - from) =~= body);
    }
    Some(acc)
}

/// Reads a decimal literal in `min..=max`: magnitude and sign are checked
/// against the bounds, so the caller may cast the result without loss.
fn parse_bounded(s: &str, min: i64, max: u64) -> (r: Option<(bool, u64)>)
    requires
        min <= 0,
    ensures
        match r {
            Some((negative, magnitude)) => bounded_value(s@, min as int, max as int) == Some(
                if negative {
                    -(magnitude as int)
                } else {
                    magnitude as int
                },
            ) && (negative ==> magnitude > 0),
            None => bounded_value(s@, min as int, max as int) is None,
        },
{
    let chars = chars_of(s);
    if chars.len() == 0 {
        return None;
    }
    let first = chars[0];
    if first == '+' {
        match parse_digits(&chars, 1, max) {
            Some(m) => {
                proof {
                    assert(chars@.skip(1) =~= s@.drop_first());
                }
                Some((false, m))
            },
            None => {
                proof {
                    assert(chars@.skip(1) =~= s@.drop_first());
                }
                None
            },
        }
    } else if first == '-' && min < 0 {
        let limit: u64 = if min == i64::MIN {
            0x8000_0000_0000_0000u64
        } else {
            (-min) as u64
        };
        proof {
            assert(chars@.skip(1) =~= s@.drop_first());
        }
        match parse_digits(&chars, 1, limit) {
            Some(m) => {
                if m == 0 {
                    Some((false, 0))
                } else {
                    Some((true, m))
                }
            },
            None => None,
        }
    } else {
        proof {
            assert(chars@.skip(0) =~= s@);
        }
        match parse_digits(&chars, 0, max) {
            Some(m) => Some((false, m)),
            None => None,
        }
    }
}

/// Reads a signed decimal literal that lies in `min..=max`.
pub(crate) fn parse_signed(s: &str, min: i64, max: i64) -> (r: Option<i64>)
    requires
        min < 0 <= max,
    ensures
        match r {
            Some(v) => bounded_value(s@, min as int, max as int) == Some(v as int),
            None => bounded_value(s@, min as int, max as int) is None,
        },
{
    match parse_bounded(s, min, max as u64) {
        Some((negative, magnitude)) => {
            if !negative {
                Some(magnitude as i64)
            } else if magnitude == 0x8000_0000_0000_0000u64 {
                Some(i64::MIN)
            } else {
                Some(-(magnitude as i64))
            }
        },
        None => None,
    }
}

/// Reads an unsigned decimal literal that is at most `max`. A leading `-` is
/// refused, also before zero.
pub fn parse_unsigned(s: &str, max: u64) -> (r: Option<u64>)
    ensures
        match r {
            Some(v) => bounded_value(s@, 0, max as int) == Some(v as int),
            None => bounded_value(s@, 0, max as int) is None,
        },
{
    match parse_bounded(s, 0, max) {
        Some((_, magnitude)) => Some(magnitude),
        None => None,
    }
}

/// The decimal digits of `n`.
pub fn format_unsigned(n: u64) -> (r: String)
    ensures
        r@ == nat_text(n as nat),
{
    let mut digits: Vec<char> = Vec::new();
    let mut m: u64 = n;
    while m >= 10
        invariant
            nat_text(n as nat) == nat_text(m as nat) + digits@,
        decreases m,
    {
        let d: u8 = (m % 10) as u8;
        let c: char = (48u8 + d) as char;
        proof {
            assert(c == digit_char((m % 10) as nat));
            assert(nat_text(m as nat) == nat_text((m / 10) as nat).push(c));
            assert(nat_text((m / 10) as nat).push(c) + digits@ =~= nat_text((m / 10) as nat)
                + digits@.insert(0, c));
        }
        digits.insert(0, c);
        m = m / 10;
    }
    let c: char = (48u8 + (m as u8)) as char;
    proof {
        assert(c == digit_char(m as nat));
        assert(nat_text(m as nat) + digits@ =~= digits@.insert(0, c));
    }
    digits.insert(0, c);
    let r = crate::text::string_of(&digits, 0, digits.len());
    proof {
        assert(digits@.subrange(0, digits.len() as int) =~= digits@);
    }
    r
}

/// The decimal text of `v`, with a leading `-` when it is negative.
pub fn format_signed(v: i64) -> (r: String)
    ensures
        r@ == int_text(v as int),
{
    if v >= 0 {
        format_unsigned(v as u64)
    } else {
        let magnitude: u64 = if v == i64::MIN {
            0x8000_0000_0000_0000u64
        } else {
            (-v) as u64
        };
        let digits = format_unsigned(magnitude);
        let r = crate::text::concat("-", digits.as_str());
        proof {
            reveal_strlit("-");
            assert("-"@ =~= seq!['-']);
        }
        r
    }
}

} // verus!
