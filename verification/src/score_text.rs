//! The stored form of a high score: its decimal digits in ASCII, with a
//! leading minus sign for a negative value, and nothing else.

use vstd::prelude::*;

verus! {

/// The byte of the minus sign.
pub const MINUS: u8 = 45;

/// The byte of the digit zero.
pub const ZERO: u8 = 48;

/// `b` is an ASCII digit.
pub open spec fn is_digit(b: u8) -> bool {
    48 <= b <= 57
}

/// Every byte of `s` is an ASCII digit.
pub open spec fn all_digits(s: Seq<u8>) -> bool {
    forall|i: int| 0 <= i < s.len() ==> is_digit(#[trigger] s[i])
}

/// The value of one byte as a digit; 0 for any other byte.
pub open spec fn digit_value(b: u8) -> nat {
    if is_digit(b) {
        (b - 48) as nat
    } else {
        0
    }
}

/// The number that the digits of `s` write.
pub open spec fn number_of(s: Seq<u8>) -> nat
    decreases s.len(),
{
    if s.len() == 0 {
        0
    } else {
        number_of(s.drop_last()) * 10 + digit_value(s.last())
    }
}

/// The digits that write `n`, without leading zeros.
pub open spec fn digits_of(n: nat) -> Seq<u8>
    decreases n,
{
    if n < 10 {
        seq![(48 + n) as u8]
    } else {
        digits_of(n / 10).push((48 + n % 10) as u8)
    }
}

/// The text of a score.
pub open spec fn score_text(v: i64) -> Seq<u8> {
    if v < 0 {
        seq![45u8] + digits_of((-v) as nat)
    } else {
        digits_of(v as nat)
    }
}

/// The score that a text holds: an optional minus sign, then one digit or
/// more, writing a number that an `i64` can hold. Any other text holds
/// none.
pub open spec fn score_of(s: Seq<u8>) -> Option<i64> {
    if s.len() > 0 && s[0] == 45 {
        let digits = s.subrange(1, s.len() as int);
        if digits.len() > 0 && all_digits(digits) && number_of(digits) <= 0x8000_0000_0000_0000 {
            Some((-number_of(digits)) as i64)
        } else {
            None
        }
    } else if s.len() > 0 && all_digits(s) && number_of(s) <= 0x7fff_ffff_ffff_ffff {
        Some(number_of(s) as i64)
    } else {
        None
    }
}

/// The digits of a number are digits, at least one, and write the number.
pub proof fn lemma_digits_write_the_number(n: nat)
    ensures
        digits_of(n).len() >= 1,
        all_digits(digits_of(n)),
        number_of(digits_of(n)) == n,
    decreases n,
{
    reveal_with_fuel(number_of, 2);
    if n < 10 {
        let s = seq![(48 + n) as u8];
        assert(s.drop_last() =~= Seq::<u8>::empty());
        assert(digits_of(n) == s);
    } else {
        lemma_digits_write_the_number(n / 10);
        let head = digits_of(n / 10);
        let s = head.push((48 + n % 10) as u8);
        assert(s.drop_last() =~= head);
        assert(s.last() == (48 + n % 10) as u8);
        assert(digits_of(n) == s);
    }
}

/// A text read back gives the score that was written.
pub proof fn lemma_score_text_round_trip(v: i64)
    ensures
        score_of(score_text(v)) == Some(v),
{
    if v < 0 {
        let n = (-v) as nat;
        lemma_digits_write_the_number(n);
        let s = score_text(v);
        assert(s.subrange(1, s.len() as int) =~= digits_of(n));
        assert(s[0] == 45);
    } else {
        lemma_digits_write_the_number(v as nat);
        let s = score_text(v);
        assert(is_digit(s[0]));
    }
}

/// The number written by a prefix is no larger than the number written by
/// the whole.
pub proof fn lemma_prefix_writes_no_more(s: Seq<u8>, i: int)
    requires
        0 <= i <= s.len(),
    ensures
        number_of(s.take(i)) <= number_of(s),
    decreases s.len() - i,
{
    if i < s.len() {
        lemma_prefix_writes_no_more(s, i + 1);
        assert(s.take(i + 1).drop_last() =~= s.take(i));
    } else {
        assert(s.take(i) =~= s);
    }
}

/// Appends the digits of `n` to `out`.
fn push_digits(n: u64, out: &mut Vec<u8>)
    ensures
        final(out)@ == old(out)@ + digits_of(n as nat),
    decreases n,
{
    if n >= 10 {
        push_digits(n / 10, out);
    }
    let digit: u8 = (n % 10) as u8;
    out.push(ZERO + digit);
    proof {
        if n >= 10 {
            assert(final(out)@ =~= old(out)@ + digits_of((n / 10) as nat).push((48 + n % 10) as u8));
        } else {
            assert(final(out)@ =~= old(out)@ + seq![(48 + n) as u8]);
        }
    }
}

/// Writes a score as text.
pub fn encode_score(v: i64) -> (text: Vec<u8>)
    ensures
        text@ == score_text(v),
        score_of(text@) == Some(v),
{
    let mut text: Vec<u8> = Vec::new();
    if v < 0 {
        text.push(MINUS);
        let magnitude: u64 = (-(v + 1)) as u64 + 1;
        push_digits(magnitude, &mut text);
    } else {
        push_digits(v as u64, &mut text);
        assert(text@ =~= digits_of(v as nat));
    }
    proof {
        lemma_score_text_round_trip(v);
    }
    text
}

/// Reads the number that the bytes of `text` from `from` onwards write, if
/// they are digits, at least one, and the number is at most `limit`.
fn parse_digits(text: &[u8], from: usize, limit: u64) -> (n: Option<u64>)
    requires
        from <= text.len(),
    ensures
        n == (if text@.len() > from && all_digits(text@.subrange(from as int, text@.len() as int))
            && number_of(text@.subrange(from as int, text@.len() as int)) <= limit {
            Some(number_of(text@.subrange(from as int, text@.len() as int)) as u64)
        } else {
            None
        }),
{
    let ghost digits = text@.subrange(from as int, text@.len() as int);
    if text.len() == from {
        return None;
    }
    let mut acc: u64 = 0;
    let mut i: usize = from;
    while i < text.len()
        invariant
            from <= i <= text.len(),
            digits == text@.subrange(from as int, text@.len() as int),
            all_digits(digits.take(i - from)),
            acc == number_of(digits.take(i - from)),
            acc <= limit,
        decreases text.len() - i,
    {
        let b: u8 = text[i];
        proof {
            assert(digits[i - from] == b);
            assert(digits.take(i - from + 1).drop_last() =~= digits.take(i - from));
            assert(digits.take(i - from + 1).last() == b);
            lemma_prefix_writes_no_more(digits, i - from + 1);
        }
        if b < 48 || b > 57 {
            return None;
        }
        let wide: u128 = (acc as u128) * 10 + ((b - ZERO) as u128);
        if wide > limit as u128 {
            return None;
        }
        acc = wide as u64;
        i += 1;
    }
    proof {
        assert(digits.take(i - from) =~= digits);
    }
    Some(acc)
}

/// Reads a score from its text. Gives `None` for any text that
/// [`encode_score`] cannot have written, but for leading zeros and a minus
/// sign before zero, which are read as well.
pub fn parse_score(text: &[u8]) -> (v: Option<i64>)
    ensures
        v == score_of(text@),
{
    if text.len() > 0 && text[0] == MINUS {
        match parse_digits(text, 1, 0x8000_0000_0000_0000) {
            Some(n) => {
                if n == 0x8000_0000_0000_0000 {
                    Some(i64::MIN)
                } else {
                    Some(-(n as i64))
                }
            },
            None => None,
        }
    } else {
        proof {
            assert(text@.subrange(0, text@.len() as int) =~= text@);
        }
        match parse_digits(text, 0, 0x7fff_ffff_ffff_ffff) {
            Some(n) => Some(n as i64),
            None => None,
        }
    }
}

} // verus!
