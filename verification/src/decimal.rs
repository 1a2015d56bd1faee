//! Unsigned decimal numerals: reading one from text and writing one out.
//!
//! A numeral is a non-empty sequence of the digits `0` to `9`, without sign,
//! separator or fraction. Leading zeros are read and do not change the value.

use vstd::prelude::*;

verus! {

/// Whether `c` is one of the digits `0` to `9`.
pub open spec fn is_digit(c: char) -> bool {
    '0' <= c <= '9'
}

/// The value of the digit `c`.
pub open spec fn digit_value(c: char) -> nat
    recommends
        is_digit(c),
{
    (c as u32 - '0' as u32) as nat
}

/// Whether `s` is a numeral.
pub open spec fn is_numeral(s: Seq<char>) -> bool {
    &&& s.len() > 0
    &&& forall|i: int| 0 <= i < s.len() ==> is_digit(#[trigger] s[i])
}

/// The number that the digits of `s` denote in base ten.
pub open spec fn numeral_value(s: Seq<char>) -> nat
    decreases s.len(),
{
    if s.len() == 0 {
        0
    } else {
        numeral_value(s.drop_last()) * 10 + digit_value(s.last())
    }
}

/// What reading `s` as a `u64` gives: the value of `s` where `s` is a numeral
/// whose value fits, otherwise nothing.
pub open spec fn numeral_u64(s: Seq<char>) -> Option<u64> {
    if is_numeral(s) && numeral_value(s) <= u64::MAX {
        Some(numeral_value(s) as u64)
    } else {
        None
    }
}

/// Appending digits to a numeral never lowers its value.
pub proof fn lemma_prefix_value(s: Seq<char>, k: int)
    requires
        0 <= k <= s.len(),
    ensures
        numeral_value(s.take(k)) <= numeral_value(s),
    decreases s.len() - k,
{
    if k < s.len() {
        lemma_prefix_value(s.drop_last(), k);
        assert(s.drop_last().take(k) == s.take(k));
    } else {
        assert(s.take(k) == s);
    }
}

/// Reads `text` as an unsigned decimal numeral.
pub fn parse_decimal(text: &[char]) -> (value: Option<u64>)
    ensures
        value == numeral_u64(text@),
{
    let n: usize = text.len();
    if n == 0 {
        return None;
    }
    let mut value: u64 = 0;
    let mut i: usize = 0;
    while i < n
        invariant
            n == text@.len(),
            i <= n,
            forall|k: int| 0 <= k < i ==> is_digit(#[trigger] text@[k]),
            value == numeral_value(text@.take(i as int)),
        decreases n - i,
    {
        let c: char = text[i];
        if !('0' <= c && c <= '9') {
            return None;
        }
        let digit: u64 = (c as u32 - '0' as u32) as u64;
        proof {
            assert(text@.take(i + 1).drop_last() == text@.take(i as int));
            lemma_prefix_value(text@, i + 1);
        }
        match value.checked_mul(10) {
            None => {
                return None;
            },
            Some(shifted) => match shifted.checked_add(digit) {
                None => {
                    return None;
                },
                Some(next) => {
                    value = next;
                },
            },
        }
        i += 1;
    }
    assert(text@.take(n as int) == text@);
    Some(value)
}

/// The digit whose value is `d`.
pub open spec fn digit_char(d: nat) -> char
    recommends
        d < 10,
{
    ('0' as u32 + d) as char
}

/// The numeral that denotes `n`, without leading zeros.
pub open spec fn numeral_of(n: nat) -> Seq<char>
    decreases n,
{
    if n < 10 {
        seq![digit_char(n)]
    } else {
        numeral_of(n / 10).push(digit_char(n % 10))
    }
}

/// Writing a number out and reading it back gives the number: `numeral_of(n)`
/// is a numeral, its value is `n`, and it starts with `0` only where `n` is 0.
pub proof fn lemma_numeral_of(n: nat)
    ensures
        is_numeral(numeral_of(n)),
        numeral_value(numeral_of(n)) == n,
        n > 0 ==> numeral_of(n)[0] != '0',
    decreases n,
{
    let text = numeral_of(n);
    if n < 10 {
        assert(numeral_value(text.drop_last()) == 0);
    } else {
        lemma_numeral_of(n / 10);
        assert(text.drop_last() == numeral_of(n / 10));
    }
}

/// The one-character text that holds the digit of value `d`.
fn digit_str(d: u64) -> (s: &'static str)
    requires
        d < 10,
    ensures
        s@ == seq![digit_char(d as nat)],
{
    proof {
        reveal_strlit("0");
        reveal_strlit("1");
        reveal_strlit("2");
        reveal_strlit("3");
        reveal_strlit("4");
        reveal_strlit("5");
        reveal_strlit("6");
        reveal_strlit("7");
        reveal_strlit("8");
        reveal_strlit("9");
    }
    match d {
        0 => "0",
        1 => "1",
        2 => "2",
        3 => "3",
        4 => "4",
        5 => "5",
        6 => "6",
        7 => "7",
        8 => "8",
        _ => "9",
    }
}

/// Appends the numeral of `value` to `text`.
pub fn push_decimal(text: &mut String, value: u64)
    ensures
        final(text)@ == old(text)@ + numeral_of(value as nat),
    decreases value,
{
    if value >= 10 {
        push_decimal(text, value / 10);
    }
    text.append(digit_str(value % 10));
}

} // verus!
