//! The ways in which reading a dictionary or a token can fail.

use vstd::prelude::*;

verus! {

/// An error of the operating system on opening or reading a file. Nothing of
/// its inside is known here.
#[verifier::external_type_specification]
#[verifier::external_body]
pub struct ExIoError(std::io::Error);

/// Errors for the Arpabet crate.
#[derive(Debug)]
pub enum ArpabetError {
    /// The file or stream being read from was empty.
    EmptyFile,
    /// The file or stream contained invalid syntax.
    InvalidFormat {
        /// Line where the error occurred.
        line_number: usize,
        /// Text of the offending line.
        text: String,
    },
    /// An error during file IO.
    Io(std::io::Error),
    /// A string that was to name a phoneme names none.
    StringParseError {
        /// What was wrong, with the offending string in it.
        description: String,
    },
}

/// The character for a digit.
pub open spec fn digit(d: nat) -> char {
    if d == 0 {
        '0'
    } else if d == 1 {
        '1'
    } else if d == 2 {
        '2'
    } else if d == 3 {
        '3'
    } else if d == 4 {
        '4'
    } else if d == 5 {
        '5'
    } else if d == 6 {
        '6'
    } else if d == 7 {
        '7'
    } else if d == 8 {
        '8'
    } else {
        '9'
    }
}

/// A number written in decimal, without leading zeros.
pub open spec fn decimal(n: nat) -> Seq<char>
    decreases n,
{
    if n < 10 {
        seq![digit(n)]
    } else {
        decimal(n / 10).push(digit(n % 10))
    }
}

/// What is said of a malformed line.
pub open spec fn invalid_format_message(line_number: nat, text: Seq<char>) -> Seq<char> {
    "Invalid format on line "@ + decimal(line_number) + ": "@ + text
}

/// The character for a digit.
fn digit_char(d: usize) -> (c: char)
    requires
        d < 10,
    ensures
        c == digit(d as nat),
{
    if d == 0 {
        '0'
    } else if d == 1 {
        '1'
    } else if d == 2 {
        '2'
    } else if d == 3 {
        '3'
    } else if d == 4 {
        '4'
    } else if d == 5 {
        '5'
    } else if d == 6 {
        '6'
    } else if d == 7 {
        '7'
    } else if d == 8 {
        '8'
    } else {
        '9'
    }
}

/// The digits of a number that stand before those already written: none
/// once nothing of the number is left.
spec fn leading(rest: nat) -> Seq<char> {
    if rest == 0 {
        Seq::empty()
    } else {
        decimal(rest)
    }
}

/// Appends a number in decimal to a string.
fn push_decimal(s: &mut String, n: usize)
    ensures
        final(s)@ == old(s)@ + decimal(n as nat),
{
    // The digits from the last to the first.
    let mut digits: Vec<char> = Vec::new();
    digits.push(digit_char(n % 10));
    let mut rest: usize = n / 10;
    assert(decimal(n as nat) =~= leading(rest as nat) + digits@.reverse());
    while rest > 0
        invariant
            digits@.len() > 0,
            decimal(n as nat) == leading(rest as nat) + digits@.reverse(),
        decreases rest,
    {
        let ghost before = digits@;
        digits.push(digit_char(rest % 10));
        assert(digits@.reverse() =~= seq![digit((rest % 10) as nat)] + before.reverse());
        assert(decimal(rest as nat) =~= leading((rest / 10) as nat) + seq![
            digit((rest % 10) as nat),
        ]);
        assert(leading(rest as nat) + before.reverse() =~= leading((rest / 10) as nat)
            + digits@.reverse());
        rest = rest / 10;
    }
    assert(decimal(n as nat) =~= digits@.reverse());
    let mut i: usize = digits.len();
    while i > 0
        invariant
            i <= digits@.len(),
            s@ == old(s)@ + digits@.reverse().take(digits@.len() - i),
        decreases i,
    {
        i -= 1;
        s.push(digits[i]);
        assert(digits@.reverse().take(digits@.len() - i) =~= digits@.reverse().take(
            digits@.len() - i - 1,
        ).push(digits@[i as int]));
    }
    assert(digits@.reverse().take(digits@.len() as int) =~= digits@.reverse());
}

/// `std::io::Error` says what went wrong through `Display`; this is that
/// text. What it holds is up to the operating system.
#[verifier::external_body]
fn io_message(err: &std::io::Error) -> (message: String) {
    err.to_string()
}

impl ArpabetError {
    /// What went wrong, in a sentence.
    pub fn message(&self) -> (message: String)
        ensures
            (match self {
                ArpabetError::EmptyFile => message@ == "The file was empty."@,
                ArpabetError::InvalidFormat { line_number, text } => message@
                    == invalid_format_message(*line_number as nat, text@),
                ArpabetError::Io(_) => true,
                ArpabetError::StringParseError { description } => message@ == description@,
            }),
    {
        match self {
            ArpabetError::EmptyFile => String::from_str("The file was empty."),
            ArpabetError::InvalidFormat { line_number, text } => {
                let mut message = String::from_str("Invalid format on line ");
                push_decimal(&mut message, *line_number);
                message.append(": ");
                message.append(text.as_str());
                message
            },
            ArpabetError::Io(err) => io_message(err),
            ArpabetError::StringParseError { description } => description.clone(),
        }
    }
}

} // verus!
