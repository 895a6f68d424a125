//! What the parsers and the constructors report when they refuse an input.

use vstd::prelude::*;
use vstd::string::*;
use crate::decimal::{decimal_text, Decimal, DecimalView};

verus! {

/// The error type returned when a size exceeds the representation range.
#[derive(Clone, Copy, Debug, PartialEq, Eq, Structural)]
pub struct ExceededBoundsError;

/// The error type returned when parsing units: the character that was
/// found, the characters that could have stood in its place, and whether
/// the text could also have ended there.
#[derive(Clone, Debug)]
pub struct UnitParseError {
    pub character: char,
    pub expected_characters: &'static [char],
    pub also_expect_no_character: bool,
}

/// A `UnitParseError` as a mathematical value.
pub ghost struct UnitParseErrorView {
    pub character: char,
    pub expected_characters: Seq<char>,
    pub also_expect_no_character: bool,
}

impl View for UnitParseError {
    type V = UnitParseErrorView;

    open spec fn view(&self) -> UnitParseErrorView {
        UnitParseErrorView {
            character: self.character,
            expected_characters: self.expected_characters@,
            also_expect_no_character: self.also_expect_no_character,
        }
    }
}

/// The error type returned when parsing values.
#[derive(Clone, Debug)]
pub enum ValueParseError {
    /// The value, in the unit that follows it, is a size out of range.
    ExceededBounds(Decimal),
    /// A character stands where a digit has to stand.
    NotNumber(char),
    /// The text is empty.
    NoValue,
    /// The number has more digits than a decimal holds.
    NumberTooLong,
}

/// A `ValueParseError` as a mathematical value.
pub ghost enum ValueParseErrorView {
    ExceededBounds(DecimalView),
    NotNumber(char),
    NoValue,
    NumberTooLong,
}

impl View for ValueParseError {
    type V = ValueParseErrorView;

    open spec fn view(&self) -> ValueParseErrorView {
        match *self {
            ValueParseError::ExceededBounds(d) => ValueParseErrorView::ExceededBounds(d@),
            ValueParseError::NotNumber(c) => ValueParseErrorView::NotNumber(c),
            ValueParseError::NoValue => ValueParseErrorView::NoValue,
            ValueParseError::NumberTooLong => ValueParseErrorView::NumberTooLong,
        }
    }
}

/// The error type returned when parsing values with a unit.
#[derive(Clone, Debug)]
pub enum ParseError {
    Value(ValueParseError),
    Unit(UnitParseError),
}

/// A `ParseError` as a mathematical value.
pub ghost enum ParseErrorView {
    Value(ValueParseErrorView),
    Unit(UnitParseErrorView),
}

impl View for ParseError {
    type V = ParseErrorView;

    open spec fn view(&self) -> ParseErrorView {
        match *self {
            ParseError::Value(e) => ParseErrorView::Value(e@),
            ParseError::Unit(e) => ParseErrorView::Unit(e@),
        }
    }
}

/// The error type that tells in words what was wrong: with the value,
/// or with the unit.
#[derive(Clone, Debug, PartialEq, Eq)]
pub enum ByteError {
    ValueIncorrect(String),
    UnitIncorrect(String),
}

/// What the standard library writes for a character between quotes, with
/// the escapes that `{:?}` gives it.
pub uninterp spec fn quoted(c: char) -> Seq<char>;

/// `{:?}` of `char` in the standard library. Trusted: the text is a
/// function of the character.
#[verifier::external_body]
fn quote(c: char) -> (r: String)
    ensures
        r@ == quoted(c),
{
    format!("{:?}", c)
}

/// The expected characters from index `i` up to `j`, each between quotes
/// and behind a comma.
pub open spec fn listed(expected: Seq<char>, i: int, j: int) -> Seq<char>
    decreases j - i,
{
    if i >= j {
        Seq::empty()
    } else {
        ", "@ + quoted(expected[i]) + listed(expected, i + 1, j)
    }
}

/// What the message says of the expected characters.
pub open spec fn expectation(expected: Seq<char>, or_nothing: bool) -> Seq<char> {
    if expected.len() == 0 {
        " (no character is expected)"@
    } else {
        let first = " ("@ + quoted(expected[0]);
        let more = if expected.len() > 1 {
            listed(expected, 1, expected.len() - 1) + (if or_nothing {
                ", "@ + quoted(expected.last()) + " or no character"@
            } else {
                " or "@ + quoted(expected.last()) + " is expected)"@
            })
        } else {
            Seq::empty()
        };
        let nothing = if or_nothing {
            " or no character"@
        } else {
            Seq::empty()
        };
        first + more + nothing + " is expected)"@
    }
}

impl ExceededBoundsError {
    /// The message of the error.
    pub fn to_string(&self) -> (r: String)
        ensures
            r@ == "value exceeds the valid range"@,
    {
        String::from_str("value exceeds the valid range")
    }
}

impl UnitParseErrorView {
    /// The message of the error.
    pub open spec fn message(self) -> Seq<char> {
        "the character "@ + quoted(self.character) + " is incorrect"@ + expectation(
            self.expected_characters,
            self.also_expect_no_character,
        )
    }
}

impl UnitParseError {
    /// The message of the error: the character that was found, and the
    /// characters that were expected in its place.
    pub fn to_string(&self) -> (r: String)
        ensures
            r@ == self@.message(),
    {
        let expected = self.expected_characters;
        let n = expected.len();
        let mut text = String::from_str("the character ");
        text.append(quote(self.character).as_str());
        text.append(" is incorrect");
        if n == 0 {
            text.append(" (no character is expected)");
            return text;
        }
        text.append(" (");
        text.append(quote(expected[0]).as_str());
        if n > 1 {
            let ghost before = text@;
            let mut i: usize = 1;
            while i < n - 1
                invariant
                    n == expected@.len(),
                    1 <= i <= n - 1,
                    text@ + listed(expected@, i as int, n - 1) == before + listed(
                        expected@,
                        1,
                        n - 1,
                    ),
                decreases n - i,
            {
                let ghost old_text = text@;
                text.append(", ");
                text.append(quote(expected[i]).as_str());
                proof {
                    assert(old_text + listed(expected@, i as int, n - 1) =~= text@ + listed(
                        expected@,
                        i + 1,
                        n - 1,
                    ));
                }
                i += 1;
            }
            if self.also_expect_no_character {
                text.append(", ");
                text.append(quote(expected[n - 1]).as_str());
                text.append(" or no character");
            } else {
                text.append(" or ");
                text.append(quote(expected[n - 1]).as_str());
                text.append(" is expected)");
            }
        }
        if self.also_expect_no_character {
            text.append(" or no character");
        }
        text.append(" is expected)");
        text
    }
}

impl ValueParseErrorView {
    /// The message of the error.
    pub open spec fn message(self) -> Seq<char> {
        match self {
            ValueParseErrorView::ExceededBounds(value) => "the value "@ + decimal_text(value)
                + " exceeds the valid range"@,
            ValueParseErrorView::NotNumber(c) => "the character "@ + quoted(c)
                + " is not a number"@,
            ValueParseErrorView::NoValue => "no value can be found"@,
            ValueParseErrorView::NumberTooLong => "value number is too long"@,
        }
    }
}

impl ValueParseError {
    /// The message of the error.
    pub fn to_string(&self) -> (r: String)
        ensures
            r@ == self@.message(),
    {
        match self {
            ValueParseError::ExceededBounds(value) => {
                let mut text = String::from_str("the value ");
                text.append(value.text().as_str());
                text.append(" exceeds the valid range");
                text
            },
            ValueParseError::NotNumber(c) => {
                let mut text = String::from_str("the character ");
                text.append(quote(*c).as_str());
                text.append(" is not a number");
                text
            },
            ValueParseError::NoValue => String::from_str("no value can be found"),
            ValueParseError::NumberTooLong => String::from_str("value number is too long"),
        }
    }
}

impl From<ValueParseError> for ParseError {
    fn from(error: ValueParseError) -> (r: ParseError) {
        ParseError::Value(error)
    }
}

impl vstd::std_specs::convert::FromSpecImpl<ValueParseError> for ParseError {
    open spec fn obeys_from_spec() -> bool {
        true
    }

    open spec fn from_spec(error: ValueParseError) -> ParseError {
        ParseError::Value(error)
    }
}

impl From<UnitParseError> for ParseError {
    fn from(error: UnitParseError) -> (r: ParseError) {
        ParseError::Unit(error)
    }
}

impl vstd::std_specs::convert::FromSpecImpl<UnitParseError> for ParseError {
    open spec fn obeys_from_spec() -> bool {
        true
    }

    open spec fn from_spec(error: UnitParseError) -> ParseError {
        ParseError::Unit(error)
    }
}

impl ParseErrorView {
    /// The message of the error.
    pub open spec fn message(self) -> Seq<char> {
        match self {
            ParseErrorView::Value(e) => e.message(),
            ParseErrorView::Unit(e) => e.message(),
        }
    }
}

impl ParseError {
    /// The message of the error.
    pub fn to_string(&self) -> (r: String)
        ensures
            r@ == self@.message(),
    {
        match self {
            ParseError::Value(e) => e.to_string(),
            ParseError::Unit(e) => e.to_string(),
        }
    }
}

} // verus!
