//! Lists of the tokens in given classes.
//!
//! The consonants stand in alphabetical order. The vowels stand in the
//! alphabetical order of their names, each name four times: with unknown, no,
//! primary and secondary stress.

use vstd::prelude::*;
use crate::extensions::Punctuation;
use crate::phoneme::{Consonant, Vowel, VowelStress};

verus! {

/// An array of all consonants.
pub const ALL_CONSONANTS: [Consonant; 31] = [
    Consonant::B,
    Consonant::CH,
    Consonant::D,
    Consonant::DH,
    Consonant::DX,
    Consonant::EL,
    Consonant::EM,
    Consonant::EN,
    Consonant::F,
    Consonant::G,
    Consonant::HH,
    Consonant::JH,
    Consonant::K,
    Consonant::L,
    Consonant::M,
    Consonant::N,
    Consonant::NG,
    Consonant::NX,
    Consonant::P,
    Consonant::Q,
    Consonant::R,
    Consonant::S,
    Consonant::SH,
    Consonant::T,
    Consonant::TH,
    Consonant::V,
    Consonant::W,
    Consonant::WH,
    Consonant::Y,
    Consonant::Z,
    Consonant::ZH,
];

/// An array of all punctuation.
pub const ALL_PUNCTUATION: [Punctuation; 10] = [
    Punctuation::StartToken,
    Punctuation::Space,
    Punctuation::Comma,
    Punctuation::Period,
    Punctuation::Question,
    Punctuation::Exclamation,
    Punctuation::Interjection,
    Punctuation::Quote,
    Punctuation::Ellipsis,
    Punctuation::EndToken,
];

/// The vowel at a place in the list of all vowels. Places run from 0 to 75.
pub open spec fn vowel_at(i: int) -> Vowel {
    Vowel::at(i / 4, VowelStress::of_number(i % 4 - 1))
}

/// Every consonant stands in the list of consonants, at the place of its
/// rank.
pub proof fn lemma_all_consonants(c: Consonant)
    ensures
        0 <= c.rank() < 31,
        ALL_CONSONANTS@[c.rank()] == c,
        Consonant::at(c.rank()) == c,
{
}

/// The list of consonants holds, at each place, the consonant of that rank.
pub proof fn lemma_consonant_at(rank: int)
    requires
        0 <= rank < 31,
    ensures
        ALL_CONSONANTS@[rank] == Consonant::at(rank),
        Consonant::at(rank).rank() == rank,
{
}

/// Every vowel stands in the list of vowels: four places for each name, one
/// for each stress.
pub proof fn lemma_all_vowels(v: Vowel)
    ensures
        0 <= v.rank() < 19,
        vowel_at(4 * v.rank() + v.stress().number() + 1) == v,
{
}

/// The vowel at a place has the name and the stress that the place stands for.
pub proof fn lemma_vowel_at(i: int)
    requires
        0 <= i < 76,
    ensures
        vowel_at(i).rank() == i / 4,
        vowel_at(i).stress().number() == i % 4 - 1,
{
}

/// An array of all vowels.
pub fn all_vowels() -> (list: [Vowel; 76])
    ensures
        forall|i: int| 0 <= i < 76 ==> #[trigger] list@[i] == vowel_at(i),
{
    let list = [
        Vowel::AA(VowelStress::UnknownStress),
        Vowel::AA(VowelStress::NoStress),
        Vowel::AA(VowelStress::PrimaryStress),
        Vowel::AA(VowelStress::SecondaryStress),
        Vowel::AE(VowelStress::UnknownStress),
        Vowel::AE(VowelStress::NoStress),
        Vowel::AE(VowelStress::PrimaryStress),
        Vowel::AE(VowelStress::SecondaryStress),
        Vowel::AH(VowelStress::UnknownStress),
        Vowel::AH(VowelStress::NoStress),
        Vowel::AH(VowelStress::PrimaryStress),
        Vowel::AH(VowelStress::SecondaryStress),
        Vowel::AO(VowelStress::UnknownStress),
        Vowel::AO(VowelStress::NoStress),
        Vowel::AO(VowelStress::PrimaryStress),
        Vowel::AO(VowelStress::SecondaryStress),
        Vowel::AW(VowelStress::UnknownStress),
        Vowel::AW(VowelStress::NoStress),
        Vowel::AW(VowelStress::PrimaryStress),
        Vowel::AW(VowelStress::SecondaryStress),
        Vowel::AX(VowelStress::UnknownStress),
        Vowel::AX(VowelStress::NoStress),
        Vowel::AX(VowelStress::PrimaryStress),
        Vowel::AX(VowelStress::SecondaryStress),
        Vowel::AXR(VowelStress::UnknownStress),
        Vowel::AXR(VowelStress::NoStress),
        Vowel::AXR(VowelStress::PrimaryStress),
        Vowel::AXR(VowelStress::SecondaryStress),
        Vowel::AY(VowelStress::UnknownStress),
        Vowel::AY(VowelStress::NoStress),
        Vowel::AY(VowelStress::PrimaryStress),
        Vowel::AY(VowelStress::SecondaryStress),
        Vowel::EH(VowelStress::UnknownStress),
        Vowel::EH(VowelStress::NoStress),
        Vowel::EH(VowelStress::PrimaryStress),
        Vowel::EH(VowelStress::SecondaryStress),
        Vowel::ER(VowelStress::UnknownStress),
        Vowel::ER(VowelStress::NoStress),
        Vowel::ER(VowelStress::PrimaryStress),
        Vowel::ER(VowelStress::SecondaryStress),
        Vowel::EY(VowelStress::UnknownStress),
        Vowel::EY(VowelStress::NoStress),
        Vowel::EY(VowelStress::PrimaryStress),
        Vowel::EY(VowelStress::SecondaryStress),
        Vowel::IH(VowelStress::UnknownStress),
        Vowel::IH(VowelStress::NoStress),
        Vowel::IH(VowelStress::PrimaryStress),
        Vowel::IH(VowelStress::SecondaryStress),
        Vowel::IX(VowelStress::UnknownStress),
        Vowel::IX(VowelStress::NoStress),
        Vowel::IX(VowelStress::PrimaryStress),
        Vowel::IX(VowelStress::SecondaryStress),
        Vowel::IY(VowelStress::UnknownStress),
        Vowel::IY(VowelStress::NoStress),
        Vowel::IY(VowelStress::PrimaryStress),
        Vowel::IY(VowelStress::SecondaryStress),
        Vowel::OW(VowelStress::UnknownStress),
        Vowel::OW(VowelStress::NoStress),
        Vowel::OW(VowelStress::PrimaryStress),
        Vowel::OW(VowelStress::SecondaryStress),
        Vowel::OY(VowelStress::UnknownStress),
        Vowel::OY(VowelStress::NoStress),
        Vowel::OY(VowelStress::PrimaryStress),
        Vowel::OY(VowelStress::SecondaryStress),
        Vowel::UH(VowelStress::UnknownStress),
        Vowel::UH(VowelStress::NoStress),
        Vowel::UH(VowelStress::PrimaryStress),
        Vowel::UH(VowelStress::SecondaryStress),
        Vowel::UW(VowelStress::UnknownStress),
        Vowel::UW(VowelStress::NoStress),
        Vowel::UW(VowelStress::PrimaryStress),
        Vowel::UW(VowelStress::SecondaryStress),
        Vowel::UX(VowelStress::UnknownStress),
        Vowel::UX(VowelStress::NoStress),
        Vowel::UX(VowelStress::PrimaryStress),
        Vowel::UX(VowelStress::SecondaryStress),
    ];
    list
}

} // verus!
