use arpabet::{Arpabet, Consonant, Phoneme, Vowel, VowelStress};

const YOSHI: &[Phoneme] = &[
    Phoneme::Consonant(Consonant::Y),
    Phoneme::Vowel(Vowel::OW(VowelStress::PrimaryStress)),
    Phoneme::Consonant(Consonant::SH),
    Phoneme::Vowel(Vowel::IY(VowelStress::NoStress)),
];

const YEP: &[Phoneme] = &[
    Phoneme::Consonant(Consonant::Y),
    Phoneme::Vowel(Vowel::EH(VowelStress::PrimaryStress)),
    Phoneme::Consonant(Consonant::P),
];

const ENTRIES: &[(&str, &[Phoneme])] = &[("yoshi", YOSHI), ("yep", YEP)];

// A table is laid out by `phf`'s generator; only the walk over its entries is
// read here, and that goes by the entries alone.
const TABLE: phf::Map<&'static str, &'static [Phoneme]> = phf::Map {
    key: 0,
    disps: &[(0, 0)],
    entries: ENTRIES,
};

#[test]
fn from_phf_map_copies_the_entries() {
    let arpabet = Arpabet::from_phf_map(&TABLE);
    assert_eq!(arpabet.len(), 2);
    assert_eq!(arpabet.get_polyphone("yoshi"), Some(YOSHI.to_vec()));
    assert_eq!(arpabet.get_polyphone_str("yep"), Some(vec!["Y", "EH1", "P"]));
    assert_eq!(arpabet.get_polyphone("yo"), None);
}

#[test]
fn from_phf_map_gives_a_dictionary_of_its_own() {
    let mut arpabet = Arpabet::from_phf_map(&TABLE);
    arpabet.remove("yep");
    arpabet.insert("yoshi".to_string(), YEP.to_vec());
    assert_eq!(arpabet.len(), 1);
    assert_eq!(arpabet.get_polyphone("yoshi"), Some(YEP.to_vec()));
    let again = Arpabet::from_phf_map(&TABLE);
    assert_eq!(again.len(), 2);
    assert_eq!(again.get_polyphone("yoshi"), Some(YOSHI.to_vec()));
}

#[test]
fn from_phf_map_of_an_empty_table() {
    let table: phf::Map<&'static str, &'static [Phoneme]> = phf::Map::new();
    let arpabet = Arpabet::from_phf_map(&table);
    assert_eq!(arpabet.len(), 0);
    assert_eq!(arpabet.keys().len(), 0);
}

#[test]
fn from_map_takes_the_pairs() {
    let arpabet = Arpabet::from_map(vec![
        ("yoshi".to_string(), YOSHI.to_vec()),
        ("yep".to_string(), YEP.to_vec()),
    ]);
    assert_eq!(arpabet.len(), 2);
    assert_eq!(arpabet.get_polyphone("yoshi"), Some(YOSHI.to_vec()));
    assert_eq!(arpabet.get_polyphone("yep"), Some(YEP.to_vec()));
}

#[test]
fn from_map_later_pair_counts() {
    let arpabet = Arpabet::from_map(vec![
        ("yep".to_string(), YOSHI.to_vec()),
        ("yoshi".to_string(), YOSHI.to_vec()),
        ("yep".to_string(), YEP.to_vec()),
    ]);
    assert_eq!(arpabet.len(), 2);
    assert_eq!(arpabet.get_polyphone("yep"), Some(YEP.to_vec()));
}

#[test]
fn from_map_of_nothing_is_empty() {
    let arpabet = Arpabet::from_map(Vec::new());
    assert_eq!(arpabet.len(), 0);
    assert_eq!(Arpabet::default().len(), 0);
}
