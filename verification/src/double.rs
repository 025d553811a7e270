//! The `<double>` leaf. The library never computes with floating point: it
//! keeps a double as the literal that stands on the wire and checks that
//! literal against the grammar of decimal floats.

use vstd::prelude::*;
use crate::decimal::is_digit;
use crate::text::{chars_of, str_is};

verus! {

/// Number of decimal digits that `s` starts with.
pub open spec fn digit_run(s: Seq<char>) -> nat
    decreases s.len(),
{
    if s.len() > 0 && is_digit(s[0]) {
        1 + digit_run(s.drop_first())
    } else {
        0
    }
}

/// `s` without its leading `+` or `-`, if it has one.
pub open spec fn unsigned_part(s: Seq<char>) -> Seq<char> {
    if s.len() > 0 && (s[0] == '+' || s[0] == '-') {
        s.drop_first()
    } else {
        s
    }
}

/// What follows the `e` of an exponent: an optional sign and at least one
/// digit, nothing else.
pub open spec fn is_exponent(s: Seq<char>) -> bool {
    let body = unsigned_part(s);
    body.len() > 0 && digit_run(body) == body.len()
}

/// An unsigned decimal number: digits, optionally a point and more digits,
/// with at least one digit on either side of the point, optionally followed
/// by an exponent.
pub open spec fn is_number(s: Seq<char>) -> bool {
    let whole = digit_run(s);
    let after_whole = s.skip(whole as int);
    let dotted = after_whole.len() > 0 && after_whole[0] == '.';
    let fraction = if dotted {
        digit_run(after_whole.drop_first())
    } else {
        0
    };
    let rest = if dotted {
        after_whole.skip(1 + fraction as int)
    } else {
        after_whole
    };
    &&& whole + fraction >= 1
    &&& (rest.len() == 0 || ((rest[0] == 'e' || rest[0] == 'E') && is_exponent(
        rest.drop_first(),
    )))
}

/// The literals accepted in a `<double>`: `inf`, `-inf`, `NaN`, or a decimal
/// number with an optional sign.
pub open spec fn is_double_literal(s: Seq<char>) -> bool {
    s == "inf"@ || s == "-inf"@ || s == "NaN"@ || is_number(unsigned_part(s))
}

proof fn lemma_digit_run_bound(s: Seq<char>)
    ensures
        digit_run(s) <= s.len(),
    decreases s.len(),
{
    if s.len() > 0 && is_digit(s[0]) {
        lemma_digit_run_bound(s.drop_first());
    }
}

/// Index of the first character at or after `from` that is no digit.
fn skip_digits(chars: &Vec<char>, from: usize) -> (to: usize)
    requires
        from <= chars.len(),
    ensures
        from <= to <= chars.len(),
        to - from == digit_run(chars@.skip(from as int)),
{
    let mut i: usize = from;
    while i < chars.len() && '0' <= chars[i] && chars[i] <= '9'
        invariant
            from <= i <= chars.len(),
            digit_run(chars@.skip(from as int)) == (i - from) + digit_run(chars@.skip(i as int)),
        decreases chars.len() - i,
    {
        proof {
            assert(chars@.skip(i as int).drop_first() =~= chars@.skip(i as int + 1));
            assert(chars@.skip(i as int)[0] == chars@[i as int]);
        }
        i = i + 1;
    }
    proof {
        if i < chars.len() {
            assert(chars@.skip(i as int)[0] == chars@[i as int]);
        }
    }
    i
}

fn check_exponent(chars: &Vec<char>, from: usize) -> (r: bool)
    requires
        from <= chars.len(),
    ensures
        r == is_exponent(chars@.skip(from as int)),
{
    let ghost s = chars@.skip(from as int);
    let mut i: usize = from;
    if i < chars.len() && (chars[i] == '+' || chars[i] == '-') {
        i = i + 1;
    }
    proof {
        if from < chars.len() {
            assert(s[0] == chars@[from as int]);
        }
        assert(unsigned_part(s) =~= chars@.skip(i as int));
    }
    let end = skip_digits(chars, i);
    i < chars.len() && end == chars.len()
}

fn check_number(chars: &Vec<char>, from: usize) -> (r: bool)
    requires
        from <= chars.len(),
    ensures
        r == is_number(chars@.skip(from as int)),
{
    let ghost s = chars@.skip(from as int);
    let whole_end = skip_digits(chars, from);
    let ghost after_whole = s.skip((whole_end - from) as int);
    proof {
        assert(after_whole =~= chars@.skip(whole_end as int));
        if whole_end < chars.len() {
            assert(after_whole[0] == chars@[whole_end as int]);
        }
    }
    let dotted = whole_end < chars.len() && chars[whole_end] == '.';
    let rest_start = if dotted {
        proof {
            assert(after_whole.drop_first() =~= chars@.skip(whole_end as int + 1));
        }
        skip_digits(chars, whole_end + 1)
    } else {
        whole_end
    };
    let digits = if dotted {
        (whole_end - from) + (rest_start - (whole_end + 1))
    } else {
        whole_end - from
    };
    let ghost rest = chars@.skip(rest_start as int);
    proof {
        if dotted {
            assert(after_whole.skip(1 + (rest_start - (whole_end + 1))) =~= rest);
        }
        if rest_start < chars.len() {
            assert(rest[0] == chars@[rest_start as int]);
            assert(rest.drop_first() =~= chars@.skip(rest_start as int + 1));
        }
    }
    if digits == 0 {
        false
    } else if rest_start == chars.len() {
        true
    } else if chars[rest_start] == 'e' || chars[rest_start] == 'E' {
        check_exponent(chars, rest_start + 1)
    } else {
        false
    }
}

/// Whether `text` is a literal that a `<double>` may hold.
pub fn check_double_literal(text: &str) -> (r: bool)
    ensures
        r == is_double_literal(text@),
{
    if str_is(text, "inf") || str_is(text, "-inf") || str_is(text, "NaN") {
        return true;
    }
    let chars = chars_of(text);
    let from: usize = if chars.len() > 0 && (chars[0] == '+' || chars[0] == '-') {
        1
    } else {
        0
    };
    proof {
        assert(unsigned_part(text@) =~= chars@.skip(from as int));
    }
    check_number(&chars, from)
}

/// A double-precision number, held as its decimal literal.
#[derive(Debug, PartialEq)]
pub struct Double {
    text: String,
}

impl View for Double {
    type V = Seq<char>;

    closed spec fn view(&self) -> Seq<char> {
        self.text@
    }
}

impl Clone for Double {
    fn clone(&self) -> (r: Double)
        ensures
            r@ == self@,
    {
        proof {
            use_type_invariant(self);
        }
        Double { text: self.text.clone() }
    }
}

impl Double {
    #[verifier::type_invariant]
    spec fn well_formed(self) -> bool {
        is_double_literal(self.text@)
    }

    /// The double that `text` spells, where `text` follows the grammar.
    pub fn parse(text: &str) -> (r: Option<Double>)
        ensures
            match r {
                Some(d) => is_double_literal(text@) && d@ == text@,
                None => !is_double_literal(text@),
            },
    {
        if check_double_literal(text) {
            Some(Double { text: String::from_str(text) })
        } else {
            None
        }
    }

    /// The literal itself.
    pub fn as_str(&self) -> (r: &str)
        ensures
            r@ == self@,
            is_double_literal(self@),
    {
        proof {
            use_type_invariant(self);
        }
        self.text.as_str()
    }
}

} // verus!
