//! Decimal notation for run numbers: how a number is written into a
//! directory name and how a suffix is read back as a number.

use vstd::prelude::*;

verus! {

/// `c` is one of the ASCII digits `0` to `9`.
pub open spec fn is_digit(c: char) -> bool {
    48 <= c as u32 <= 57
}

/// The number that the ASCII digit `c` stands for.
pub open spec fn digit_value(c: char) -> nat {
    (c as u32 - 48) as nat
}

/// The ASCII digit that stands for `d`, for `d` below ten.
pub open spec fn digit_char(d: nat) -> char {
    ((48 + d) as u8) as char
}

/// Every character of `s` is an ASCII digit.
pub open spec fn all_digits(s: Seq<char>) -> bool {
    forall|i: int| 0 <= i < s.len() ==> is_digit(#[trigger] s[i])
}

/// The number that the digit string `s` denotes in base ten; leading zeros
/// count for nothing and the empty string denotes zero.
pub open spec fn digits_value(s: Seq<char>) -> nat
    decreases s.len(),
{
    if s.len() == 0 {
        0
    } else {
        digits_value(s.drop_last()) * 10 + digit_value(s.last())
    }
}

/// The shortest decimal notation of `n`: no sign, no leading zero but for
/// zero itself.
pub open spec fn decimal(n: nat) -> Seq<char>
    decreases n,
{
    if n < 10 {
        seq![digit_char(n)]
    } else {
        decimal(n / 10).push(digit_char(n % 10))
    }
}

/// The part of `s` that has to consist of digits: `s` without one leading
/// plus sign, if it has one.
pub open spec fn unsigned_body(s: Seq<char>) -> Seq<char> {
    if s.len() > 0 && s[0] == '+' {
        s.skip(1)
    } else {
        s
    }
}

/// What a string denotes as a 32-bit unsigned number: an optional plus sign
/// followed by at least one ASCII digit, the value fitting in 32 bits.
/// Anything else denotes no number.
pub open spec fn parse_u32(s: Seq<char>) -> Option<u32> {
    let body = unsigned_body(s);
    if body.len() > 0 && all_digits(body) && digits_value(body) <= u32::MAX {
        Some(digits_value(body) as u32)
    } else {
        None
    }
}

/// A prefix of a digit string never denotes more than the whole string.
pub proof fn lemma_digits_value_prefix(s: Seq<char>, k: int)
    requires
        0 <= k <= s.len(),
    ensures
        digits_value(s.take(k)) <= digits_value(s),
    decreases s.len(),
{
    if k == s.len() {
        assert(s.take(k) =~= s);
    } else {
        assert(s.drop_last().take(k) =~= s.take(k));
        lemma_digits_value_prefix(s.drop_last(), k);
    }
}

/// The decimal notation of a number is a non-empty run of digits that
/// denotes that number.
pub proof fn lemma_decimal_digits(n: nat)
    ensures
        decimal(n).len() > 0,
        all_digits(decimal(n)),
        digits_value(decimal(n)) == n,
    decreases n,
{
    if n < 10 {
        let s = decimal(n);
        assert(s.drop_last() =~= Seq::<char>::empty());
        assert(digits_value(s.drop_last()) == 0);
    } else {
        lemma_decimal_digits(n / 10);
        let s = decimal(n);
        assert(s.drop_last() =~= decimal(n / 10));
        assert(s.last() == digit_char(n % 10));
    }
}

/// Reading back what was written gives the number that was written.
pub proof fn lemma_parse_decimal(n: u32)
    ensures
        parse_u32(decimal(n as nat)) == Some(n),
{
    lemma_decimal_digits(n as nat);
    let s = decimal(n as nat);
    assert(is_digit(s[0]));
    assert(unsigned_body(s) == s);
}

/// Appends the decimal notation of `n` to `out`.
pub fn push_decimal(out: &mut Vec<char>, n: u32)
    ensures
        final(out)@ == old(out)@ + decimal(n as nat),
    decreases n,
{
    if n >= 10 {
        push_decimal(out, n / 10);
    }
    let d: u8 = (n % 10) as u8;
    let c: char = (48u8 + d) as char;
    assert(c == digit_char((n % 10) as nat));
    out.push(c);
    assert(final(out)@ =~= old(out)@ + decimal(n as nat));
}

/// Reads the characters of `chars` from position `start` on as a 32-bit
/// unsigned number.
pub fn parse_u32_from(chars: &Vec<char>, start: usize) -> (out: Option<u32>)
    requires
        start <= chars.len(),
    ensures
        out == parse_u32(chars@.skip(start as int)),
{
    let ghost s = chars@.skip(start as int);
    let n: usize = chars.len();
    let mut first: usize = start;
    if first < n && chars[first] == '+' {
        first += 1;
    }
    let ghost body = chars@.skip(first as int);
    assert(body =~= unsigned_body(s));
    if first == n {
        return None;
    }
    let mut acc: u64 = 0;
    let mut i: usize = first;
    while i < n
        invariant
            first <= i <= n,
            n == chars.len(),
            body == chars@.skip(first as int),
            body == unsigned_body(chars@.skip(start as int)),
            all_digits(body.take(i - first)),
            acc == digits_value(body.take(i - first)),
            acc <= u32::MAX,
        decreases n - i,
    {
        let v: u32 = chars[i] as u32;
        assert(chars[i as int] == body[i - first]);
        if v < 48 || v > 57 {
            assert(!is_digit(body[i - first]));
            return None;
        }
        let next: u64 = acc * 10 + (v - 48) as u64;
        let ghost longer = body.take(i + 1 - first);
        assert(longer.drop_last() =~= body.take(i - first));
        assert(longer.last() == body[i - first]);
        assert(next == digits_value(longer));
        if next > 0xffff_ffff {
            proof {
                lemma_digits_value_prefix(body, i + 1 - first);
            }
            return None;
        }
        assert(all_digits(longer)) by {
            assert forall|j: int| 0 <= j < longer.len() implies is_digit(#[trigger] longer[j]) by {
                if j < i - first {
                    assert(longer[j] == body.take(i - first)[j]);
                }
            }
        }
        acc = next;
        i += 1;
    }
    assert(body.take(n - first) =~= body);
    Some(acc as u32)
}

} // verus!
