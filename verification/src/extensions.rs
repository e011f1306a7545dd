//! Tokens beyond ARPABET, and the small numbers that stand for every token.
//!
//! Punctuation is no part of ARPABET, but a sentence handed to a model is made
//! of phonemes and punctuation alike. Each token has a code of one byte:
//! consonants from 1, vowels from 101 in blocks of four (one per stress), and
//! punctuation from 201, with 254 kept for the end of an utterance.

use vstd::prelude::*;
use vstd::std_specs::convert::FromSpecImpl;
use crate::phoneme::{Consonant, Phoneme, Vowel, VowelStress};

verus! {

/// Punctuation devices.
/// These do not belong to Arpabet, but their inclusion can help with ML tasks.
#[derive(Copy, Clone, Debug, PartialEq, Eq, Structural)]
pub enum Punctuation {
    /// Denotes the beginning of an utterance.
    /// In a single clip, this is the start of audio.
    StartToken,
    /// Denotes the space between words or polyphones within a sentence of multiple words.
    Space,
    /// Denotes a comma (,) or shortened breath device within a sentence.
    Comma,
    /// Denotes a period (.) or full stop within a sentence.
    Period,
    /// Denotes a question mark (?) within a sentence.
    Question,
    /// Denotes an exclamation mark (!) within a sentence.
    Exclamation,
    /// Denotes an interjection (dash, parenthetical, etc.) within a sentence.
    Interjection,
    /// Denotes a quote (") within a sentence. Does not disambiguate between a start or end quote.
    Quote,
    /// Denotes an ellipsis (...) within a sentence.
    Ellipsis,
    /// Denotes the end of an utterance.
    /// In a single clip, this is the end of audio.
    EndToken,
}

impl Punctuation {
    /// The token of a punctuation device: its name in square brackets.
    pub open spec fn token(self) -> Seq<char> {
        match self {
            Punctuation::StartToken => "[start]"@,
            Punctuation::Space => "[space]"@,
            Punctuation::Comma => "[comma]"@,
            Punctuation::Period => "[period]"@,
            Punctuation::Question => "[question]"@,
            Punctuation::Exclamation => "[exclamation]"@,
            Punctuation::Interjection => "[interjection]"@,
            Punctuation::Quote => "[quote]"@,
            Punctuation::Ellipsis => "[ellipsis]"@,
            Punctuation::EndToken => "[end]"@,
        }
    }

    /// The code of a punctuation device.
    pub open spec fn code(self) -> u8 {
        match self {
            Punctuation::StartToken => 201,
            Punctuation::Space => 202,
            Punctuation::Comma => 203,
            Punctuation::Period => 204,
            Punctuation::Question => 205,
            Punctuation::Exclamation => 206,
            Punctuation::Interjection => 207,
            Punctuation::Quote => 208,
            Punctuation::Ellipsis => 209,
            Punctuation::EndToken => 254,
        }
    }

    /// Represent punctuation tokens as strings.
    pub fn to_str(&self) -> (s: &'static str)
        ensures
            s@ == self.token(),
    {
        match self {
            Punctuation::StartToken => "[start]",
            Punctuation::Space => "[space]",
            Punctuation::Comma => "[comma]",
            Punctuation::Period => "[period]",
            Punctuation::Question => "[question]",
            Punctuation::Exclamation => "[exclamation]",
            Punctuation::Interjection => "[interjection]",
            Punctuation::Quote => "[quote]",
            Punctuation::Ellipsis => "[ellipsis]",
            Punctuation::EndToken => "[end]",
        }
    }
}

impl From<Punctuation> for u8 {
    /// Map punctuation tokens to unsigned ints.
    /// These can serve as the numeric inputs into ML models.
    fn from(punctuation: Punctuation) -> (code: u8) {
        match punctuation {
            Punctuation::StartToken => 201,
            Punctuation::Space => 202,
            Punctuation::Comma => 203,
            Punctuation::Period => 204,
            Punctuation::Question => 205,
            Punctuation::Exclamation => 206,
            Punctuation::Interjection => 207,
            Punctuation::Quote => 208,
            Punctuation::Ellipsis => 209,
            Punctuation::EndToken => 254,
        }
    }
}

impl FromSpecImpl<Punctuation> for u8 {
    open spec fn obeys_from_spec() -> bool {
        true
    }

    open spec fn from_spec(punctuation: Punctuation) -> u8 {
        punctuation.code()
    }
}

/// The code of a consonant: one more than its place among the consonants.
pub open spec fn consonant_code(consonant: Consonant) -> u8 {
    (1 + consonant.rank()) as u8
}

/// The code of a vowel. Each vowel name has four codes in a row from 101 on,
/// for unknown, no, primary and secondary stress in that order.
pub open spec fn vowel_code(vowel: Vowel) -> u8 {
    (101 + 4 * vowel.rank() + (vowel.stress().number() + 1)) as u8
}

/// The code of a phoneme: that of the consonant or vowel it holds.
pub open spec fn phoneme_code(phoneme: Phoneme) -> u8 {
    match phoneme {
        Phoneme::Consonant(consonant) => consonant_code(consonant),
        Phoneme::Vowel(vowel) => vowel_code(vowel),
    }
}

impl From<Consonant> for u8 {
    /// Map consonants to unsigned ints.
    /// These can serve as the numeric inputs into ML models.
    fn from(consonant: Consonant) -> (code: u8) {
        match consonant {
            Consonant::B => 1,
            Consonant::CH => 2,
            Consonant::D => 3,
            Consonant::DH => 4,
            Consonant::DX => 5,
            Consonant::EL => 6,
            Consonant::EM => 7,
            Consonant::EN => 8,
            Consonant::F => 9,
            Consonant::G => 10,
            Consonant::HH => 11,
            Consonant::JH => 12,
            Consonant::K => 13,
            Consonant::L => 14,
            Consonant::M => 15,
            Consonant::N => 16,
            Consonant::NG => 17,
            Consonant::NX => 18,
            Consonant::P => 19,
            Consonant::Q => 20,
            Consonant::R => 21,
            Consonant::S => 22,
            Consonant::SH => 23,
            Consonant::T => 24,
            Consonant::TH => 25,
            Consonant::V => 26,
            Consonant::W => 27,
            Consonant::WH => 28,
            Consonant::Y => 29,
            Consonant::Z => 30,
            Consonant::ZH => 31,
        }
    }
}

impl FromSpecImpl<Consonant> for u8 {
    open spec fn obeys_from_spec() -> bool {
        true
    }

    open spec fn from_spec(consonant: Consonant) -> u8 {
        consonant_code(consonant)
    }
}

impl From<Vowel> for u8 {
    /// Map vowels to unsigned ints.
    /// These can serve as the numeric inputs into ML models.
    fn from(vowel: Vowel) -> (code: u8) {
        match vowel {
            Vowel::AA(stress) => match stress {
                VowelStress::UnknownStress => 101,
                VowelStress::NoStress => 102,
                VowelStress::PrimaryStress => 103,
                VowelStress::SecondaryStress => 104,
            },
            Vowel::AE(stress) => match stress {
                VowelStress::UnknownStress => 105,
                VowelStress::NoStress => 106,
                VowelStress::PrimaryStress => 107,
                VowelStress::SecondaryStress => 108,
            },
            Vowel::AH(stress) => match stress {
                VowelStress::UnknownStress => 109,
                VowelStress::NoStress => 110,
                VowelStress::PrimaryStress => 111,
                VowelStress::SecondaryStress => 112,
            },
            Vowel::AO(stress) => match stress {
                VowelStress::UnknownStress => 113,
                VowelStress::NoStress => 114,
                VowelStress::PrimaryStress => 115,
                VowelStress::SecondaryStress => 116,
            },
            Vowel::AW(stress) => match stress {
                VowelStress::UnknownStress => 117,
                VowelStress::NoStress => 118,
                VowelStress::PrimaryStress => 119,
                VowelStress::SecondaryStress => 120,
            },
            Vowel::AX(stress) => match stress {
                VowelStress::UnknownStress => 121,
                VowelStress::NoStress => 122,
                VowelStress::PrimaryStress => 123,
                VowelStress::SecondaryStress => 124,
            },
            Vowel::AXR(stress) => match stress {
                VowelStress::UnknownStress => 125,
                VowelStress::NoStress => 126,
                VowelStress::PrimaryStress => 127,
                VowelStress::SecondaryStress => 128,
            },
            Vowel::AY(stress) => match stress {
                VowelStress::UnknownStress => 129,
                VowelStress::NoStress => 130,
                VowelStress::PrimaryStress => 131,
                VowelStress::SecondaryStress => 132,
            },
            Vowel::EH(stress) => match stress {
                VowelStress::UnknownStress => 133,
                VowelStress::NoStress => 134,
                VowelStress::PrimaryStress => 135,
                VowelStress::SecondaryStress => 136,
            },
            Vowel::ER(stress) => match stress {
                VowelStress::UnknownStress => 137,
                VowelStress::NoStress => 138,
                VowelStress::PrimaryStress => 139,
                VowelStress::SecondaryStress => 140,
            },
            Vowel::EY(stress) => match stress {
                VowelStress::UnknownStress => 141,
                VowelStress::NoStress => 142,
                VowelStress::PrimaryStress => 143,
                VowelStress::SecondaryStress => 144,
            },
            Vowel::IH(stress) => match stress {
                VowelStress::UnknownStress => 145,
                VowelStress::NoStress => 146,
                VowelStress::PrimaryStress => 147,
                VowelStress::SecondaryStress => 148,
            },
            Vowel::IX(stress) => match stress {
                VowelStress::UnknownStress => 149,
                VowelStress::NoStress => 150,
                VowelStress::PrimaryStress => 151,
                VowelStress::SecondaryStress => 152,
            },
            Vowel::IY(stress) => match stress {
                VowelStress::UnknownStress => 153,
                VowelStress::NoStress => 154,
                VowelStress::PrimaryStress => 155,
                VowelStress::SecondaryStress => 156,
            },
            Vowel::OW(stress) => match stress {
                VowelStress::UnknownStress => 157,
                VowelStress::NoStress => 158,
                VowelStress::PrimaryStress => 159,
                VowelStress::SecondaryStress => 160,
            },
            Vowel::OY(stress) => match stress {
                VowelStress::UnknownStress => 161,
                VowelStress::NoStress => 162,
                VowelStress::PrimaryStress => 163,
                VowelStress::SecondaryStress => 164,
            },
            Vowel::UH(stress) => match stress {
                VowelStress::UnknownStress => 165,
                VowelStress::NoStress => 166,
                VowelStress::PrimaryStress => 167,
                VowelStress::SecondaryStress => 168,
            },
            Vowel::UW(stress) => match stress {
                VowelStress::UnknownStress => 169,
                VowelStress::NoStress => 170,
                VowelStress::PrimaryStress => 171,
                VowelStress::SecondaryStress => 172,
            },
            Vowel::UX(stress) => match stress {
                VowelStress::UnknownStress => 173,
                VowelStress::NoStress => 174,
                VowelStress::PrimaryStress => 175,
                VowelStress::SecondaryStress => 176,
            },
        }
    }
}

impl FromSpecImpl<Vowel> for u8 {
    open spec fn obeys_from_spec() -> bool {
        true
    }

    open spec fn from_spec(vowel: Vowel) -> u8 {
        vowel_code(vowel)
    }
}

/// A sentence token is any phoneme or punctuation token.
#[derive(Copy, Clone, Debug, PartialEq, Eq, Structural)]
pub enum SentenceToken {
    /// A phoneme within a sentence. Runs of phonemes constitute polyphones (words).
    Phoneme(Phoneme),
    /// Punctuation within a sentence.
    Punctuation(Punctuation),
}

impl SentenceToken {
    /// The token of a sentence token: that of the phoneme or punctuation it holds.
    pub open spec fn token(self) -> Seq<char> {
        match self {
            SentenceToken::Phoneme(phoneme) => phoneme.token(),
            SentenceToken::Punctuation(punctuation) => punctuation.token(),
        }
    }

    /// The code of a sentence token: that of the phoneme or punctuation it holds.
    pub open spec fn code(self) -> u8 {
        match self {
            SentenceToken::Phoneme(phoneme) => phoneme_code(phoneme),
            SentenceToken::Punctuation(punctuation) => punctuation.code(),
        }
    }

    /// Represent sentence tokens as strings.
    pub fn to_str(&self) -> (s: &'static str)
        ensures
            s@ == self.token(),
    {
        match self {
            SentenceToken::Phoneme(phoneme) => phoneme.to_str(),
            SentenceToken::Punctuation(punctuation) => punctuation.to_str(),
        }
    }
}

impl From<SentenceToken> for u8 {
    /// Map sentence tokens to unsigned ints.
    /// These can serve as the numeric inputs into ML models.
    fn from(sentence_token: SentenceToken) -> (code: u8) {
        match sentence_token {
            SentenceToken::Phoneme(phoneme) => match phoneme {
                Phoneme::Consonant(consonant) => u8::from(consonant),
                Phoneme::Vowel(vowel) => u8::from(vowel),
            },
            SentenceToken::Punctuation(punctuation) => u8::from(punctuation),
        }
    }
}

impl FromSpecImpl<SentenceToken> for u8 {
    open spec fn obeys_from_spec() -> bool {
        true
    }

    open spec fn from_spec(sentence_token: SentenceToken) -> u8 {
        sentence_token.code()
    }
}

/// No two tokens share a code: consonants lie in 1..=31, vowels in 101..=176
/// and punctuation in 201..=209 or at 254, and within each kind the code
/// tells the token.
pub proof fn lemma_codes_differ(a: SentenceToken, b: SentenceToken)
    requires
        a.code() == b.code(),
    ensures
        a == b,
{
    match (a, b) {
        (
            SentenceToken::Phoneme(Phoneme::Consonant(x)),
            SentenceToken::Phoneme(Phoneme::Consonant(y)),
        ) => {
            assert(x.rank() == y.rank());
        },
        (SentenceToken::Phoneme(Phoneme::Vowel(x)), SentenceToken::Phoneme(Phoneme::Vowel(y))) => {
            assert(4 * x.rank() + x.stress().number() == 4 * y.rank() + y.stress().number());
            assert(x.stress().number() == y.stress().number());
            assert(x.rank() == y.rank());
        },
        _ => {},
    }
}

} // verus!
