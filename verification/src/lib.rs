//! **Arpabet (_A1 R P AH0 B EH2 T_)**, a library for speech synthesis that
//! reads pronouncing dictionaries in the format of Carnegie Mellon University's
//! _[CMUdict](http://www.speech.cs.cmu.edu/cgi-bin/cmudict)_.
//!
//! The crate models the closed set of ARPABET symbols, resolves their
//! upper-case tokens, reads dictionaries written one entry per line, and keeps
//! them in a store that maps lower-case words to phoneme sequences.
//!
//! Usage:
//!
//! ```text
//! use arpabet::load_from_str;
//!
//! let arpabet = load_from_str("TEST  T EH1 S T\n").unwrap();
//!
//! assert_eq!(arpabet.get_polyphone_str("test"), Some(vec!["T", "EH1", "S", "T"]));
//! ```
//!
//! Every function states what it returns over a model of its arguments: a
//! string is the sequence of its characters, a dictionary the map from its
//! words to their phonemes. The modules say what the models are.

pub mod constants;
pub mod error;
pub mod extensions;
pub mod parser;
pub mod phoneme;
pub mod store;
pub mod symbols;
pub mod text;

pub use constants::{all_vowels, ALL_CONSONANTS, ALL_PUNCTUATION};
pub use error::ArpabetError;
pub use extensions::{Punctuation, SentenceToken};
pub use parser::{load_from_str, read_line, read_lines, ParsedLine};
pub use phoneme::{Consonant, Phoneme, Vowel, VowelStress};
pub use store::{Arpabet, Polyphone, Word};
pub use symbols::lookup;
