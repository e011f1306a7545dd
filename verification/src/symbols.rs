//! The symbol table: which token names which phoneme.
//!
//! The table holds every consonant under its name and every vowel under its
//! name with each of the four stresses, 107 tokens in all. Tokens are upper
//! case, and a token that differs from all of them names nothing.

use vstd::prelude::*;
use vstd::std_specs::convert::TryFromSpecImpl;
use crate::constants::{
    lemma_all_consonants, lemma_all_vowels, lemma_consonant_at, lemma_vowel_at, vowel_at,
};
use crate::error::ArpabetError;
use crate::phoneme::{Consonant, Phoneme, Vowel, VowelStress};
use crate::text::chars_of;

verus! {

/// The phoneme that a token names, if any.
pub open spec fn resolve(token: Seq<char>) -> Option<Phoneme> {
    if exists|p: Phoneme| p.token() == token {
        Some(choose|p: Phoneme| p.token() == token)
    } else {
        None
    }
}

/// The stress that the last character of a token stands for: that of its
/// digit, or unknown where the token ends in no stress digit.
pub open spec fn stress_marked(token: Seq<char>) -> VowelStress {
    if token.len() > 0 && token.last() == '0' {
        VowelStress::NoStress
    } else if token.len() > 0 && token.last() == '1' {
        VowelStress::PrimaryStress
    } else if token.len() > 0 && token.last() == '2' {
        VowelStress::SecondaryStress
    } else {
        VowelStress::UnknownStress
    }
}

/// No two consonants share a token.
pub proof fn lemma_consonant_token_injective(a: Consonant, b: Consonant)
    requires
        a.token() == b.token(),
    ensures
        a == b,
{
    lemma_consonant_token_shape(a);
    lemma_consonant_token_shape(b);
    let x = a.token();
    let y = b.token();
    assert(x.len() == y.len());
    assert(x[0] == y[0]);
    if x.len() == 2 {
        assert(x[1] == y[1]);
    }
}

/// No two vowels share a name, whatever their stress.
pub proof fn lemma_vowel_name_injective(a: Vowel, b: Vowel)
    requires
        a.base_token() == b.base_token(),
    ensures
        a.rank() == b.rank(),
{
    lemma_vowel_name_shape(a);
    lemma_vowel_name_shape(b);
    let x = a.base_token();
    let y = b.base_token();
    assert(x.len() == y.len());
    assert(x[0] == y[0]);
    assert(x[1] == y[1]);
}

/// A vowel is its name and its stress.
pub proof fn lemma_vowel_by_rank_and_stress(a: Vowel, b: Vowel)
    requires
        a.rank() == b.rank(),
        a.stress() == b.stress(),
    ensures
        a == b,
{
}

/// The name of a vowel is two or three letters, none of them a stress digit.
pub proof fn lemma_vowel_name_shape(v: Vowel)
    ensures
        2 <= v.base_token().len() <= 3,
        stress_marked(v.base_token()) == VowelStress::UnknownStress,
{
}

/// The token of a vowel tells its stress and its name.
pub proof fn lemma_vowel_token_parts(v: Vowel)
    ensures
        stress_marked(v.token()) == v.stress(),
        v.token().len() == v.base_token().len() + v.stress().suffix().len(),
        v.token().take(v.base_token().len() as int) == v.base_token(),
{
    lemma_vowel_name_shape(v);
    let name = v.base_token();
    let suffix = v.stress().suffix();
    assert(v.token().take(name.len() as int) =~= name);
    if suffix.len() > 0 {
        assert(v.token().last() == suffix[0]);
    } else {
        assert(v.token() =~= name);
    }
}

/// No two vowels share a token.
pub proof fn lemma_vowel_token_injective(a: Vowel, b: Vowel)
    requires
        a.token() == b.token(),
    ensures
        a == b,
{
    lemma_vowel_token_parts(a);
    lemma_vowel_token_parts(b);
    assert(a.stress() == b.stress());
    assert(a.base_token().len() == b.base_token().len());
    lemma_vowel_name_injective(a, b);
    lemma_vowel_by_rank_and_stress(a, b);
}

/// The token of a consonant is one or two letters, no stress digit among
/// them, and is the name of no vowel.
pub proof fn lemma_consonant_token_shape(c: Consonant)
    ensures
        1 <= c.token().len() <= 2,
        stress_marked(c.token()) == VowelStress::UnknownStress,
        forall|v: Vowel| v.base_token() != c.token(),
{
    assert forall|v: Vowel| v.base_token() != c.token() by {
        lemma_vowel_name_shape(v);
        let x = v.base_token();
        let y = c.token();
        if x == y {
            assert(x.len() == y.len());
            assert(x[0] == y[0]);
            assert(x[1] == y[1]);
        }
    }
}

/// No two phonemes share a token.
pub proof fn lemma_token_injective(p: Phoneme, q: Phoneme)
    requires
        p.token() == q.token(),
    ensures
        p == q,
{
    match (p, q) {
        (Phoneme::Consonant(a), Phoneme::Consonant(b)) => {
            lemma_consonant_token_injective(a, b);
        },
        (Phoneme::Vowel(a), Phoneme::Vowel(b)) => {
            lemma_vowel_token_injective(a, b);
        },
        (Phoneme::Consonant(c), Phoneme::Vowel(v)) => {
            lemma_consonant_vowel_differ(c, v);
        },
        (Phoneme::Vowel(v), Phoneme::Consonant(c)) => {
            lemma_consonant_vowel_differ(c, v);
        },
    }
}

/// No consonant shares its token with a vowel.
pub proof fn lemma_consonant_vowel_differ(c: Consonant, v: Vowel)
    ensures
        c.token() != v.token(),
{
    lemma_consonant_token_shape(c);
    lemma_vowel_token_parts(v);
    lemma_vowel_name_shape(v);
    if c.token() == v.token() {
        assert(v.stress() == VowelStress::UnknownStress);
        assert(v.token() =~= v.base_token());
    }
}

/// Every phoneme is found again under its own token: a consonant under its
/// name, a vowel under its name and the digit of its stress.
pub proof fn lemma_resolve_token(p: Phoneme)
    ensures
        resolve(p.token()) == Some(p),
{
    let q = choose|q: Phoneme| q.token() == p.token();
    lemma_token_injective(q, p);
}

/// Every consonant is found again under its own token.
pub proof fn lemma_resolve_consonant(c: Consonant)
    ensures
        resolve(c.token()) == Some(Phoneme::Consonant(c)),
{
    lemma_resolve_token(Phoneme::Consonant(c));
}

/// Every vowel, whatever its stress, is found again under its own token.
pub proof fn lemma_resolve_vowel(v: Vowel)
    ensures
        resolve(v.token()) == Some(Phoneme::Vowel(v)),
{
    lemma_resolve_token(Phoneme::Vowel(v));
}

/// A token names a phoneme exactly where it is that phoneme's token.
pub proof fn lemma_resolve_is_token(token: Seq<char>, p: Phoneme)
    ensures
        resolve(token) == Some(p) <==> p.token() == token,
{
    if p.token() == token {
        lemma_resolve_token(p);
    }
}


/// The consonant whose token is `name`, if there is one.
fn consonant_named(name: &Vec<char>) -> (found: Option<Consonant>)
    ensures
        (match found {
            Some(c) => c.token() == name@,
            None => forall|c: Consonant| c.token() != name@,
        }),
{
    let found = if name.len() == 1 {
        match name[0] {
            'B' => Some(Consonant::B),
            'D' => Some(Consonant::D),
            'F' => Some(Consonant::F),
            'G' => Some(Consonant::G),
            'K' => Some(Consonant::K),
            'L' => Some(Consonant::L),
            'M' => Some(Consonant::M),
            'N' => Some(Consonant::N),
            'P' => Some(Consonant::P),
            'Q' => Some(Consonant::Q),
            'R' => Some(Consonant::R),
            'S' => Some(Consonant::S),
            'T' => Some(Consonant::T),
            'V' => Some(Consonant::V),
            'W' => Some(Consonant::W),
            'Y' => Some(Consonant::Y),
            'Z' => Some(Consonant::Z),
            _ => None,
        }
    } else if name.len() == 2 {
        match (name[0], name[1]) {
            ('C', 'H') => Some(Consonant::CH),
            ('D', 'H') => Some(Consonant::DH),
            ('D', 'X') => Some(Consonant::DX),
            ('E', 'L') => Some(Consonant::EL),
            ('E', 'M') => Some(Consonant::EM),
            ('E', 'N') => Some(Consonant::EN),
            ('H', 'H') => Some(Consonant::HH),
            ('J', 'H') => Some(Consonant::JH),
            ('N', 'G') => Some(Consonant::NG),
            ('N', 'X') => Some(Consonant::NX),
            ('S', 'H') => Some(Consonant::SH),
            ('T', 'H') => Some(Consonant::TH),
            ('W', 'H') => Some(Consonant::WH),
            ('Z', 'H') => Some(Consonant::ZH),
            _ => None,
        }
    } else {
        None
    };
    proof {
        match found {
            Some(c) => {
                assert(c.token() =~= name@);
            },
            None => {
                assert forall|c: Consonant| c.token() != name@ by {
                    lemma_consonant_token_shape(c);
                    let x = c.token();
                    if x == name@ {
                        assert(x[0] == name@[0]);
                        if x.len() == 2 {
                            assert(x[1] == name@[1]);
                        }
                    }
                }
            },
        }
    }
    found
}

/// The vowel whose name is the first `len` characters of `token`, with the
/// stress given, if there is such a name.
fn vowel_named(token: &Vec<char>, len: usize, stress: VowelStress) -> (found: Option<Vowel>)
    requires
        len <= token.len(),
    ensures
        (match found {
            Some(v) => v.base_token() == token@.take(len as int) && v.stress() == stress,
            None => forall|v: Vowel| v.base_token() != token@.take(len as int),
        }),
{
    let ghost name = token@.take(len as int);
    let found = if len == 2 {
        match (token[0], token[1]) {
            ('A', 'A') => Some(Vowel::AA(stress)),
            ('A', 'E') => Some(Vowel::AE(stress)),
            ('A', 'H') => Some(Vowel::AH(stress)),
            ('A', 'O') => Some(Vowel::AO(stress)),
            ('A', 'W') => Some(Vowel::AW(stress)),
            ('A', 'X') => Some(Vowel::AX(stress)),
            ('A', 'Y') => Some(Vowel::AY(stress)),
            ('E', 'H') => Some(Vowel::EH(stress)),
            ('E', 'R') => Some(Vowel::ER(stress)),
            ('E', 'Y') => Some(Vowel::EY(stress)),
            ('I', 'H') => Some(Vowel::IH(stress)),
            ('I', 'X') => Some(Vowel::IX(stress)),
            ('I', 'Y') => Some(Vowel::IY(stress)),
            ('O', 'W') => Some(Vowel::OW(stress)),
            ('O', 'Y') => Some(Vowel::OY(stress)),
            ('U', 'H') => Some(Vowel::UH(stress)),
            ('U', 'W') => Some(Vowel::UW(stress)),
            ('U', 'X') => Some(Vowel::UX(stress)),
            _ => None,
        }
    } else if len == 3 {
        match (token[0], token[1], token[2]) {
            ('A', 'X', 'R') => Some(Vowel::AXR(stress)),
            _ => None,
        }
    } else {
        None
    };
    proof {
        match found {
            Some(v) => {
                assert(v.base_token() =~= name);
            },
            None => {
                assert forall|v: Vowel| v.base_token() != name by {
                    lemma_vowel_name_shape(v);
                    let x = v.base_token();
                    if x == name {
                        assert(x[0] == name[0]);
                        assert(x[1] == name[1]);
                        if x.len() == 3 {
                            assert(x[2] == name[2]);
                        }
                    }
                }
            },
        }
    }
    found
}

/// Looks a token up in the symbol table. The match is exact: tokens are
/// upper case, and nothing is trimmed or converted.
pub fn lookup(token: &str) -> (found: Option<Phoneme>)
    ensures
        found == resolve(token@),
{
    let chars = chars_of(token);
    let n = chars.len();
    if n == 0 {
        proof {
            lemma_no_empty_token(token@);
        }
        return None;
    }
    let stress = match chars[n - 1] {
        '0' => VowelStress::NoStress,
        '1' => VowelStress::PrimaryStress,
        '2' => VowelStress::SecondaryStress,
        _ => VowelStress::UnknownStress,
    };
    assert(stress == stress_marked(token@));
    let found = match stress {
        VowelStress::UnknownStress => match vowel_named(&chars, n, stress) {
            Some(v) => Some(Phoneme::Vowel(v)),
            None => match consonant_named(&chars) {
                Some(c) => Some(Phoneme::Consonant(c)),
                None => None,
            },
        },
        _ => match vowel_named(&chars, n - 1, stress) {
            Some(v) => Some(Phoneme::Vowel(v)),
            None => None,
        },
    };
    proof {
        assert(chars@.take(n as int) =~= token@);
        assert(chars@.take(n - 1) =~= token@.drop_last());
        lemma_lookup_found(token@, found);
    }
    found
}

/// No phoneme has the empty token.
proof fn lemma_no_empty_token(token: Seq<char>)
    requires
        token.len() == 0,
    ensures
        resolve(token) is None,
{
    assert forall|p: Phoneme| p.token() != token by {
        match p {
            Phoneme::Consonant(c) => lemma_consonant_token_shape(c),
            Phoneme::Vowel(v) => {
                lemma_vowel_token_parts(v);
                lemma_vowel_name_shape(v);
            },
        }
    }
}

/// What `lookup` finds by taking a token apart is what the table holds
/// under it.
proof fn lemma_lookup_found(token: Seq<char>, found: Option<Phoneme>)
    requires
        token.len() > 0,
        ({
            let stress = stress_marked(token);
            let name = if stress == VowelStress::UnknownStress {
                token
            } else {
                token.drop_last()
            };
            match found {
                Some(Phoneme::Vowel(v)) => v.base_token() == name && v.stress() == stress,
                Some(Phoneme::Consonant(c)) => stress == VowelStress::UnknownStress && c.token()
                    == token,
                None => (forall|v: Vowel| v.base_token() != name) && (stress
                    == VowelStress::UnknownStress ==> forall|c: Consonant| c.token() != token),
            }
        }),
    ensures
        found == resolve(token),
{
    let stress = stress_marked(token);
    match found {
        Some(Phoneme::Vowel(v)) => {
            if stress == VowelStress::UnknownStress {
                assert(v.token() =~= token);
            } else {
                assert(v.token() =~= token.drop_last().push(token.last()));
                assert(token.drop_last().push(token.last()) =~= token);
            }
            lemma_resolve_token(Phoneme::Vowel(v));
        },
        Some(Phoneme::Consonant(c)) => {
            lemma_resolve_token(Phoneme::Consonant(c));
        },
        None => {
            assert forall|p: Phoneme| p.token() != token by {
                match p {
                    Phoneme::Consonant(c) => {
                        lemma_consonant_token_shape(c);
                    },
                    Phoneme::Vowel(v) => {
                        lemma_vowel_token_parts(v);
                        if v.token() == token {
                            if stress == VowelStress::UnknownStress {
                                assert(v.token() =~= v.base_token());
                            } else {
                                assert(v.base_token() =~= token.drop_last());
                            }
                        }
                    },
                }
            }
        },
    }
}

/// The symbol table as a map from tokens to the phonemes they name.
pub open spec fn symbol_table() -> Map<Seq<char>, Phoneme> {
    Map::new(|token: Seq<char>| resolve(token) is Some, |token: Seq<char>| resolve(token).unwrap())
}

/// The phoneme at a place in the list of all phonemes: the 31 consonants,
/// then the 76 vowels.
pub open spec fn phoneme_at(i: int) -> Phoneme {
    if i < 31 {
        Phoneme::Consonant(Consonant::at(i))
    } else {
        Phoneme::Vowel(vowel_at(i - 31))
    }
}

/// The place of a phoneme in the list of all phonemes.
pub open spec fn place_of(p: Phoneme) -> int {
    match p {
        Phoneme::Consonant(c) => c.rank(),
        Phoneme::Vowel(v) => 31 + 4 * v.rank() + v.stress().number() + 1,
    }
}

/// The list of all phonemes holds each phoneme once, at its place.
pub proof fn lemma_phoneme_places(p: Phoneme, i: int)
    ensures
        0 <= place_of(p) < 107,
        phoneme_at(place_of(p)) == p,
        0 <= i < 107 ==> place_of(phoneme_at(i)) == i,
{
    match p {
        Phoneme::Consonant(c) => {
            lemma_all_consonants(c);
        },
        Phoneme::Vowel(v) => {
            lemma_all_vowels(v);
        },
    }
    if 0 <= i < 31 {
        lemma_consonant_at(i);
    } else if 31 <= i < 107 {
        lemma_vowel_at(i - 31);
    }
}

/// The symbol table has exactly 107 entries: one for each of the 31
/// consonants and one for each of the 19 vowels with each of the 4 stresses.
pub proof fn lemma_symbol_table_size()
    ensures
        symbol_table().dom().finite(),
        symbol_table().dom().len() == 107,
        symbol_table().dom().len() == 31 + 19 * 4,
{
    let tokens = Seq::new(107, |i: int| phoneme_at(i).token());
    assert forall|i: int, j: int|
        0 <= i < tokens.len() && 0 <= j < tokens.len() && i != j implies tokens[i] != tokens[j] by {
        if tokens[i] == tokens[j] {
            lemma_token_injective(phoneme_at(i), phoneme_at(j));
            lemma_phoneme_places(phoneme_at(i), i);
            lemma_phoneme_places(phoneme_at(j), j);
        }
    }
    tokens.unique_seq_to_set();
    vstd::seq_lib::seq_to_set_is_finite(tokens);
    assert forall|token: Seq<char>|
        tokens.to_set().contains(token) <==> symbol_table().dom().contains(token) by {
        if tokens.to_set().contains(token) {
            let i = choose|i: int| 0 <= i < tokens.len() && tokens[i] == token;
            lemma_resolve_token(phoneme_at(i));
        }
        if resolve(token) is Some {
            let p = choose|p: Phoneme| p.token() == token;
            lemma_phoneme_places(p, 0);
            assert(tokens[place_of(p)] == token);
        }
    }
    assert(tokens.to_set() =~= symbol_table().dom());
}

/// What is said of a string that names no phoneme.
pub open spec fn not_a_phoneme(token: Seq<char>) -> Seq<char> {
    "Not a phoneme: '"@ + token + "'"@
}

impl Phoneme {
    /// Attempt to parse a string-encoded phoneme into a strongly typed Phoneme.
    /// The string has to be the phoneme's token, in upper case.
    pub fn from_token(token: &str) -> (result: Result<Phoneme, ArpabetError>)
        ensures
            (match resolve(token@) {
                Some(p) => result matches Ok(q) && q == p,
                None => result matches Err(ArpabetError::StringParseError { description })
                    && description@ == not_a_phoneme(token@),
            }),
    {
        match lookup(token) {
            Some(p) => Ok(p),
            None => {
                let mut description = String::from_str("Not a phoneme: '");
                description.append(token);
                description.append("'");
                Err(ArpabetError::StringParseError { description })
            },
        }
    }
}

impl TryFrom<&str> for Phoneme {
    type Error = ArpabetError;

    /// Attempt to parse a string-encoded phoneme into a strongly typed Phoneme.
    fn try_from(maybe_phoneme: &str) -> (result: Result<Phoneme, ArpabetError>)
        ensures
            (match resolve(maybe_phoneme@) {
                Some(p) => result matches Ok(q) && q == p,
                None => result matches Err(ArpabetError::StringParseError { description })
                    && description@ == not_a_phoneme(maybe_phoneme@),
            }),
    {
        Phoneme::from_token(maybe_phoneme)
    }
}

impl TryFromSpecImpl<&str> for Phoneme {
    /// The error holds a string, so what `try_from` returns is stated by
    /// its own contract, over the characters, and not by an equation here.
    open spec fn obeys_try_from_spec() -> bool {
        false
    }

    open spec fn try_from_spec(maybe_phoneme: &str) -> Result<Phoneme, ArpabetError> {
        match resolve(maybe_phoneme@) {
            Some(p) => Ok(p),
            None => Err(arbitrary()),
        }
    }
}

} // verus!
