//! Reading a quantity from text of the form `<value> <unit>`.

use vstd::prelude::*;
use crate::decimal::{
    is_digit, is_numeral, lemma_numeral_of, numeral_of, numeral_u64, numeral_value, parse_decimal,
};
use crate::sizes::{saturated, FileSize};
use crate::text::{
    chars_of, is_word, lemma_tokens_of_word, lemma_tokens_split, lemma_word_len,
    lemma_word_len_is, split_whitespace, tokens, whitespace, word_len,
};

verus! {

/// Why a text could not be read as a quantity.
#[derive(Clone, Copy, Debug, PartialEq, Eq, Structural)]
pub enum ParseError {
    /// The text does not consist of exactly two tokens.
    MalformedInput,
    /// The first token is not a numeral, or its value exceeds `u64::MAX`.
    InvalidNumber,
    /// The second token names none of the four units.
    InvalidUnit,
}

impl ParseError {
    /// The message that describes the error.
    pub open spec fn text(self) -> Seq<char> {
        match self {
            ParseError::MalformedInput => "Input should be in the format '<value> <unit>'"@,
            ParseError::InvalidNumber => "Invalid number format. Provide a valid number."@,
            ParseError::InvalidUnit => "Invalid unit. Supported units: b, kb, mb, gb."@,
        }
    }

    /// The message that describes the error.
    pub fn message(&self) -> (message: String)
        ensures
            message@ == self.text(),
    {
        match self {
            ParseError::MalformedInput => String::from_str(
                "Input should be in the format '<value> <unit>'",
            ),
            ParseError::InvalidNumber => String::from_str(
                "Invalid number format. Provide a valid number.",
            ),
            ParseError::InvalidUnit => String::from_str(
                "Invalid unit. Supported units: b, kb, mb, gb.",
            ),
        }
    }
}

/// The lower-case form of `c` where that form is a letter from `a` to `z`;
/// any other character is left as it is.
///
/// Besides `A` to `Z`, the Kelvin sign (U+212A) is the one character with
/// such a lower-case form: `k`.
pub open spec fn lower_case(c: char) -> char {
    if 'A' <= c <= 'Z' {
        (c as u32 + 32) as char
    } else if c == '\u{212A}' {
        'k'
    } else {
        c
    }
}

/// `s` with each character brought to lower case.
pub open spec fn lowered(s: Seq<char>) -> Seq<char> {
    s.map_values(|c: char| lower_case(c))
}

/// The quantity of `value` in the unit that `token` names, if it names one.
/// The names are `b`, `kb`, `mb` and `gb`, in any letter case.
pub open spec fn quantity(value: u64, token: Seq<char>) -> Option<FileSize> {
    let name = lowered(token);
    if name == seq!['b'] {
        Some(FileSize::Bytes(value))
    } else if name == seq!['k', 'b'] {
        Some(FileSize::Kilobytes(value))
    } else if name == seq!['m', 'b'] {
        Some(FileSize::Megabytes(value))
    } else if name == seq!['g', 'b'] {
        Some(FileSize::Gigabytes(value))
    } else {
        None
    }
}

/// What reading `input` gives: the quantity it denotes, or the reason why it
/// denotes none.
///
/// The number is judged before the unit, so that a text with a bad number
/// and a bad unit is an `InvalidNumber`.
pub open spec fn spec_parse_filesize(input: Seq<char>) -> Result<FileSize, ParseError> {
    let parts = tokens(input);
    if parts.len() != 2 {
        Err(ParseError::MalformedInput)
    } else {
        match numeral_u64(parts[0]) {
            None => Err(ParseError::InvalidNumber),
            Some(value) => match quantity(value, parts[1]) {
                None => Err(ParseError::InvalidUnit),
                Some(file_size) => Ok(file_size),
            },
        }
    }
}

/// Two words with one space between them are read as value and unit.
pub proof fn lemma_parse_value_unit(value: Seq<char>, unit: Seq<char>)
    requires
        is_word(value),
        is_word(unit),
    ensures
        tokens(value + seq![' '] + unit) == seq![value, unit],
        spec_parse_filesize(value + seq![' '] + unit) == match numeral_u64(value) {
            None => Err::<FileSize, ParseError>(ParseError::InvalidNumber),
            Some(v) => match quantity(v, unit) {
                None => Err(ParseError::InvalidUnit),
                Some(file_size) => Ok(file_size),
            },
        },
{
    lemma_tokens_split(value, ' ', unit);
    lemma_tokens_of_word(value);
    lemma_tokens_of_word(unit);
}

/// Every value can be given: the numeral of `value`, a space and a word are
/// read as `value` in the unit that the word names.
pub proof fn lemma_parse_written_value(value: u64, unit: Seq<char>)
    requires
        is_word(unit),
    ensures
        spec_parse_filesize(numeral_of(value as nat) + seq![' '] + unit) == match quantity(
            value,
            unit,
        ) {
            None => Err::<FileSize, ParseError>(ParseError::InvalidUnit),
            Some(file_size) => Ok(file_size),
        },
{
    lemma_numeral_of(value as nat);
    lemma_parse_value_unit(numeral_of(value as nat), unit);
}

/// Bytes given as text: a numeral, a space and `b` are read as that many
/// bytes; the other sizes are the quotients by 1000, 1000000 and 1000000000.
pub proof fn lemma_bytes_from_text(numeral: Seq<char>)
    requires
        is_numeral(numeral),
        numeral_value(numeral) <= u64::MAX,
    ensures
        ({
            let v = numeral_value(numeral) as u64;
            let sizes = FileSize::Bytes(v).sizes();
            &&& spec_parse_filesize(numeral + " b"@) == Ok::<FileSize, ParseError>(
                FileSize::Bytes(v),
            )
            &&& sizes.bytes == v
            &&& sizes.kilobytes == v / 1_000
            &&& sizes.megabytes == v / 1_000_000
            &&& sizes.gigabytes == v / 1_000_000_000
        }),
{
    let v = numeral_value(numeral) as u64;
    let unit = seq!['b'];
    reveal_strlit(" b");
    assert(numeral + " b"@ =~= numeral + seq![' '] + unit);
    assert(lowered(unit) =~= unit);
    lemma_parse_value_unit(numeral, unit);
}

/// Kilobytes given as text: a numeral, a space and `kb` are read as that
/// many kilobytes; the bytes are 1000 times the value, or `u64::MAX` where
/// that product does not fit.
pub proof fn lemma_kilobytes_from_text(numeral: Seq<char>)
    requires
        is_numeral(numeral),
        numeral_value(numeral) <= u64::MAX,
    ensures
        ({
            let v = numeral_value(numeral) as u64;
            let sizes = FileSize::Kilobytes(v).sizes();
            &&& spec_parse_filesize(numeral + " kb"@) == Ok::<FileSize, ParseError>(
                FileSize::Kilobytes(v),
            )
            &&& sizes.kilobytes == v
            &&& sizes.bytes == saturated(v as nat * 1_000)
            &&& v * 1_000 <= u64::MAX ==> sizes.bytes == v * 1_000
        }),
{
    let v = numeral_value(numeral) as u64;
    let unit = seq!['k', 'b'];
    reveal_strlit(" kb");
    assert(numeral + " kb"@ =~= numeral + seq![' '] + unit);
    assert(lowered(unit) =~= unit);
    lemma_parse_value_unit(numeral, unit);
}

/// Bringing a text to lower case leaves its tokens in place: the tokens of
/// the lowered text are the lowered tokens of the text.
pub proof fn lemma_tokens_lowered(s: Seq<char>)
    ensures
        tokens(lowered(s)) == tokens(s).map_values(|t: Seq<char>| lowered(t)),
    decreases s.len(),
{
    let low = lowered(s);
    if s.len() == 0 {
    } else if whitespace(s[0]) {
        lemma_tokens_lowered(s.drop_first());
        assert(low.drop_first() == lowered(s.drop_first()));
    } else {
        let n: int = word_len(s) as int;
        lemma_word_len(s);
        lemma_word_len_is(low, n);
        lemma_tokens_lowered(s.skip(n));
        assert(low.take(n) == lowered(s.take(n)));
        assert(low.skip(n) == lowered(s.skip(n)));
    }
}

/// Letter case does not matter: two texts that are equal once brought to
/// lower case are read alike.
pub proof fn lemma_parse_ignores_case(a: Seq<char>, b: Seq<char>)
    requires
        lowered(a) == lowered(b),
    ensures
        spec_parse_filesize(a) == spec_parse_filesize(b),
{
    lemma_parse_lowered(a);
    lemma_parse_lowered(b);
}

/// A text is read as its lower-case form is.
pub proof fn lemma_parse_lowered(s: Seq<char>)
    ensures
        spec_parse_filesize(lowered(s)) == spec_parse_filesize(s),
{
    let parts = tokens(s);
    lemma_tokens_lowered(s);
    if parts.len() == 2 {
        let number = parts[0];
        let unit = parts[1];
        assert(numeral_u64(lowered(number)) == numeral_u64(number)) by {
            if is_numeral(number) {
                assert(lowered(number) =~= number);
            } else if number.len() > 0 {
                let i = choose|i: int| 0 <= i < number.len() && !is_digit(number[i]);
                assert(!is_digit(lowered(number)[i]));
            }
        }
        assert(lowered(lowered(unit)) =~= lowered(unit));
    }
}

/// The lower-case form of `c`, as far as unit names are concerned.
pub fn to_lower_case(c: char) -> (lower: char)
    ensures
        lower == lower_case(c),
{
    if 'A' <= c && c <= 'Z' {
        (c as u8 + 32) as char
    } else if c == '\u{212A}' {
        'k'
    } else {
        c
    }
}

/// A text is a given one-letter name where it has one character, that letter.
proof fn lemma_one_letter(name: Seq<char>, letter: char)
    ensures
        name == seq![letter] <==> name.len() == 1 && name[0] == letter,
{
    if name.len() == 1 && name[0] == letter {
        assert(name =~= seq![letter]);
    }
}

/// A text is a given two-letter name where it has two characters, those
/// letters in order.
proof fn lemma_two_letters(name: Seq<char>, first: char, second: char)
    ensures
        name == seq![first, second] <==> name.len() == 2 && name[0] == first && name[1] == second,
{
    if name.len() == 2 && name[0] == first && name[1] == second {
        assert(name =~= seq![first, second]);
    }
}

/// The quantity of `value` in the unit that `token` names, if it names one.
pub fn quantity_of(value: u64, token: &[char]) -> (file_size: Option<FileSize>)
    ensures
        file_size == quantity(value, token@),
{
    proof {
        let name = lowered(token@);
        lemma_one_letter(name, 'b');
        lemma_two_letters(name, 'k', 'b');
        lemma_two_letters(name, 'm', 'b');
        lemma_two_letters(name, 'g', 'b');
    }
    let n: usize = token.len();
    if n == 1 {
        if to_lower_case(token[0]) == 'b' {
            Some(FileSize::Bytes(value))
        } else {
            None
        }
    } else if n == 2 {
        let first: char = to_lower_case(token[0]);
        if to_lower_case(token[1]) != 'b' {
            None
        } else if first == 'k' {
            Some(FileSize::Kilobytes(value))
        } else if first == 'm' {
            Some(FileSize::Megabytes(value))
        } else if first == 'g' {
            Some(FileSize::Gigabytes(value))
        } else {
            None
        }
    } else {
        None
    }
}

/// Reads a quantity from text of the form `<value> <unit>`.
///
/// The text must hold exactly two tokens, separated and possibly surrounded
/// by whitespace. The first is an unsigned decimal numeral whose value fits
/// in `u64`; the second is one of `b`, `kb`, `mb` and `gb`, in any letter
/// case.
pub fn parse_filesize(input: &str) -> (result: Result<FileSize, ParseError>)
    ensures
        result == spec_parse_filesize(input@),
        ({
            let parts = tokens(input@);
            let value = numeral_u64(parts[0]);
            &&& result == Err::<FileSize, ParseError>(ParseError::MalformedInput) <==> parts.len()
                != 2
            &&& result == Err::<FileSize, ParseError>(ParseError::InvalidNumber) <==> parts.len()
                == 2 && value is None
            &&& result == Err::<FileSize, ParseError>(ParseError::InvalidUnit) <==> parts.len()
                == 2 && value is Some && quantity(value->Some_0, parts[1]) is None
            &&& result is Ok <==> parts.len() == 2 && value is Some && quantity(
                value->Some_0,
                parts[1],
            ) is Some
        }),
{
    let chars: Vec<char> = chars_of(input);
    let parts: Vec<Vec<char>> = split_whitespace(chars.as_slice());
    if parts.len() != 2 {
        return Err(ParseError::MalformedInput);
    }
    let value: u64 = match parse_decimal(parts[0].as_slice()) {
        Some(value) => value,
        None => {
            return Err(ParseError::InvalidNumber);
        },
    };
    match quantity_of(value, parts[1].as_slice()) {
        Some(file_size) => Ok(file_size),
        None => Err(ParseError::InvalidUnit),
    }
}

} // verus!
