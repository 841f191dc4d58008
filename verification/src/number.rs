//! Whole numbers written in decimal: what a text stands for, and a reader
//! that computes it.
//!
//! A number is an optional sign and then one or more of the digits `0` to
//! `9`, with nothing before, between or after. A `+` may stand before any
//! number; a `-` only where the number is read as a signed one.

use vstd::prelude::*;

verus! {

/// Whether `c` is one of the digits `0` to `9`.
pub open spec fn is_digit(c: char) -> bool {
    '0' <= c && c <= '9'
}

/// The digit `c` as a number.
pub open spec fn digit_value(c: char) -> nat {
    (c as u32 - '0' as u32) as nat
}

/// Whether `s` holds digits only.
pub open spec fn all_digits(s: Seq<char>) -> bool {
    forall|i: int| 0 <= i < s.len() ==> is_digit(#[trigger] s[i])
}

/// The number that the digits `s` write, the last digit counting least.
pub open spec fn digits_value(s: Seq<char>) -> nat
    decreases s.len(),
{
    if s.len() == 0 {
        0
    } else {
        10 * digits_value(s.drop_last()) + digit_value(s.last())
    }
}

/// Whether `c` is a sign that may stand before a number.
pub open spec fn is_sign(c: char, signed: bool) -> bool {
    c == '+' || (signed && c == '-')
}

/// The number that `text` writes, if it writes one.
pub open spec fn decimal(text: Seq<char>, signed: bool) -> Option<int> {
    let headed = text.len() > 0 && is_sign(text[0], signed);
    let body = if headed {
        text.skip(1)
    } else {
        text
    };
    if body.len() > 0 && all_digits(body) {
        if headed && text[0] == '-' {
            Some(-(digits_value(body) as int))
        } else {
            Some(digits_value(body) as int)
        }
    } else {
        None
    }
}

/// The number that `text` writes, if it writes one from `min` to `max`.
pub open spec fn decimal_within(text: Seq<char>, signed: bool, min: int, max: int) -> Option<int> {
    match decimal(text, signed) {
        Some(n) => if min <= n <= max {
            Some(n)
        } else {
            None
        },
        None => None,
    }
}

/// Writing one more digit after `s` multiplies its value by ten and adds the
/// digit.
pub proof fn lemma_digits_value_push(s: Seq<char>, c: char)
    ensures
        digits_value(s.push(c)) == 10 * digits_value(s) + digit_value(c),
{
    assert(s.push(c).drop_last() =~= s);
}

/// The digits that a number starts with write no more than the whole of it.
pub proof fn lemma_digits_value_prefix(s: Seq<char>, n: int)
    requires
        0 <= n <= s.len(),
    ensures
        digits_value(s.take(n)) <= digits_value(s),
    decreases s.len(),
{
    if n == s.len() {
        assert(s.take(n) =~= s);
    } else {
        assert(s.drop_last().take(n) =~= s.take(n));
        lemma_digits_value_prefix(s.drop_last(), n);
    }
}

/// Reads the sign and the digits of `text`. The result is whether a `-`
/// stands first, and the number that the digits write.
fn scan(text: &str, signed: bool) -> (r: Option<(bool, u128)>)
    ensures
        match r {
            Some((negative, magnitude)) => {
                &&& negative == (text@.len() > 0 && text@[0] == '-')
                &&& decimal(text@, signed) == Some(
                    if negative {
                        -(magnitude as int)
                    } else {
                        magnitude as int
                    },
                )
            },
            None => match decimal(text@, signed) {
                Some(n) => n > u128::MAX || n < -(u128::MAX as int),
                None => true,
            },
        },
{
    let ghost t = text@;
    let ghost start: int = if t.len() > 0 && is_sign(t[0], signed) {
        1
    } else {
        0
    };
    let ghost body = t.subrange(start, t.len() as int);
    assert(body =~= if start == 1 {
        t.skip(1)
    } else {
        t
    });
    let mut first = true;
    let mut negative = false;
    let mut any = false;
    let mut acc: u128 = 0;
    for c in it: text.chars()
        invariant
            it.seq() == t,
            t == text@,
            start == (if t.len() > 0 && is_sign(t[0], signed) {
                1int
            } else {
                0int
            }),
            body == t.subrange(start, t.len() as int),
            body == (if start == 1 {
                t.skip(1)
            } else {
                t
            }),
            first == (it.index() == 0),
            negative == (it.index() > 0 && signed && t[0] == '-'),
            any == (it.index() > start),
            it.index() < start ==> acc == 0,
            it.index() >= start ==> all_digits(t.subrange(start, it.index() as int)),
            it.index() >= start ==> acc == digits_value(t.subrange(start, it.index() as int)),
    {
        let ghost i: int = it.index();
        assert(c == t[i]);
        if first && (c == '+' || (signed && c == '-')) {
            negative = c == '-';
            assert(t.subrange(1, 1) =~= Seq::<char>::empty());
        } else {
            assert(i >= start);
            assert(body[i - start] == c);
            if !('0' <= c && c <= '9') {
                assert(!is_digit(body[i - start]));
                return None;
            }
            let d: u128 = (c as u32 - '0' as u32) as u128;
            proof {
                assert(t.subrange(start, i + 1) =~= t.subrange(start, i).push(c));
                lemma_digits_value_push(t.subrange(start, i), c);
                assert(body.take(i + 1 - start) =~= t.subrange(start, i + 1));
                lemma_digits_value_prefix(body, i + 1 - start);
            }
            if acc > (u128::MAX - d) / 10 {
                return None;
            }
            acc = acc * 10 + d;
            any = true;
        }
        first = false;
    }
    assert(t.subrange(start, t.len() as int) =~= body);
    if !any {
        return None;
    }
    Some((negative, acc))
}

/// Reads `text` as a number from 0 to `max`.
pub fn parse_unsigned(text: &str, max: u128) -> (r: Option<u128>)
    ensures
        match r {
            Some(n) => decimal_within(text@, false, 0, max as int) == Some(n as int),
            None => decimal_within(text@, false, 0, max as int) is None,
        },
{
    match scan(text, false) {
        Some((_, magnitude)) => if magnitude <= max {
            Some(magnitude)
        } else {
            None
        },
        None => None,
    }
}

/// Reads `text` as a number from `min` to `max`.
pub fn parse_signed(text: &str, min: i128, max: i128) -> (r: Option<i128>)
    ensures
        match r {
            Some(n) => decimal_within(text@, true, min as int, max as int) == Some(n as int),
            None => decimal_within(text@, true, min as int, max as int) is None,
        },
{
    match scan(text, true) {
        Some((negative, magnitude)) => {
            if negative {
                if magnitude > 0x8000_0000_0000_0000_0000_0000_0000_0000u128 {
                    return None;
                }
                let n: i128 = if magnitude == 0x8000_0000_0000_0000_0000_0000_0000_0000u128 {
                    i128::MIN
                } else {
                    -(magnitude as i128)
                };
                if min <= n && n <= max {
                    Some(n)
                } else {
                    None
                }
            } else {
                if magnitude > i128::MAX as u128 {
                    return None;
                }
                let n: i128 = magnitude as i128;
                if min <= n && n <= max {
                    Some(n)
                } else {
                    None
                }
            }
        },
        None => None,
    }
}

} // verus!
