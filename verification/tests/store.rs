use arpabet::{Arpabet, Consonant, Phoneme, Vowel, VowelStress};

fn f_uw1() -> Vec<Phoneme> {
    vec![
        Phoneme::Consonant(Consonant::F),
        Phoneme::Vowel(Vowel::UW(VowelStress::PrimaryStress)),
    ]
}

fn b_uw1() -> Vec<Phoneme> {
    vec![
        Phoneme::Consonant(Consonant::B),
        Phoneme::Vowel(Vowel::UW(VowelStress::PrimaryStress)),
    ]
}

fn b_aa1_r() -> Vec<Phoneme> {
    vec![
        Phoneme::Consonant(Consonant::B),
        Phoneme::Vowel(Vowel::AA(VowelStress::PrimaryStress)),
        Phoneme::Consonant(Consonant::R),
    ]
}

fn b_ae1_z() -> Vec<Phoneme> {
    vec![
        Phoneme::Consonant(Consonant::B),
        Phoneme::Vowel(Vowel::AE(VowelStress::PrimaryStress)),
        Phoneme::Consonant(Consonant::Z),
    ]
}

#[test]
fn lib_insert() {
    let mut arpa = Arpabet::new();
    arpa.insert("foo".to_string(), f_uw1());

    assert_eq!(arpa.get_polyphone("foo"), Some(f_uw1()));
    assert_eq!(arpa.get_polyphone("bar"), None);

    arpa.insert("foo".to_string(), b_uw1());

    assert_eq!(arpa.get_polyphone("foo"), Some(b_uw1()));
}

#[test]
fn lib_remove() {
    let mut arpa = Arpabet::new();
    arpa.insert("foo".to_string(), f_uw1());
    arpa.insert("boo".to_string(), b_uw1());

    assert_eq!(arpa.get_polyphone("foo"), Some(f_uw1()));
    assert_eq!(arpa.get_polyphone("boo"), Some(b_uw1()));
    assert_eq!(arpa.len(), 2);

    arpa.remove("boo");
    assert_eq!(arpa.get_polyphone("foo"), Some(f_uw1()));
    assert_eq!(arpa.get_polyphone("boo"), None);
    assert_eq!(arpa.len(), 1);

    arpa.remove("foo");
    assert_eq!(arpa.get_polyphone("foo"), None);
    assert_eq!(arpa.get_polyphone("boo"), None);
    assert_eq!(arpa.len(), 0);
}

#[test]
fn lib_size() {
    let mut arpa = Arpabet::new();
    assert_eq!(arpa.len(), 0);

    arpa.insert("foo".to_string(), f_uw1());
    assert_eq!(arpa.len(), 1);

    arpa.insert("boo".to_string(), b_uw1());
    assert_eq!(arpa.len(), 2);

    arpa.remove("boo");
    assert_eq!(arpa.len(), 1);

    arpa.remove("foo");
    assert_eq!(arpa.len(), 0);
}

#[test]
fn lib_keys() {
    let mut arpa = Arpabet::new();
    arpa.insert("foo".to_string(), f_uw1());
    arpa.insert("boo".to_string(), b_uw1());

    let keys: Vec<String> = arpa.keys().iter().cloned().collect();
    assert_eq!(keys.len(), 2);

    assert!(keys.iter().any(|x| x == "foo"));
    assert!(keys.iter().any(|x| x == "boo"));
}

#[test]
fn lib_get_polyphone() {
    let mut a = Arpabet::new();
    a.insert("foo".to_string(), f_uw1());
    assert_eq!(a.get_polyphone("foo"), Some(f_uw1()));
    assert_eq!(a.get_polyphone("bar"), None);
}

#[test]
fn lib_get_polyphone_str() {
    let mut a = Arpabet::new();
    a.insert("foo".to_string(), f_uw1());
    assert_eq!(a.get_polyphone_str("foo"), Some(vec!["F", "UW1"]));
    assert_eq!(a.get_polyphone_str("bar"), None);
}

#[test]
fn lib_get_polyphone_ref() {
    let mut a = Arpabet::new();
    a.insert("foo".to_string(), f_uw1());
    assert_eq!(a.get_polyphone_ref("foo"), Some(&f_uw1()));
    assert_eq!(a.get_polyphone_ref("bar"), None);
}

#[test]
fn lib_combine() {
    let a = {
        let mut arpa = Arpabet::new();
        arpa.insert("foo".to_string(), f_uw1());
        arpa.insert("bar".to_string(), b_aa1_r());
        arpa
    };

    let b = {
        let mut arpa = Arpabet::new();
        arpa.insert("foo".to_string(), b_uw1());
        arpa.insert("baz".to_string(), b_ae1_z());
        arpa
    };

    let c = a.combine(&b);

    assert_eq!(c.get_polyphone("foo"), Some(b_uw1()));
    assert_eq!(c.get_polyphone("bar"), Some(b_aa1_r()));
    assert_eq!(c.get_polyphone("baz"), Some(b_ae1_z()));
    assert_eq!(c.get_polyphone("bin"), None);

    // Neither operand has changed.
    assert_eq!(a.get_polyphone("foo"), Some(f_uw1()));
    assert_eq!(a.len(), 2);
    assert_eq!(b.len(), 2);
    assert_eq!(c.len(), 3);
}

#[test]
fn lib_merge_from() {
    let mut a = Arpabet::new();
    a.insert("foo".to_string(), f_uw1());
    a.insert("bar".to_string(), b_aa1_r());

    let b = {
        let mut arpa = Arpabet::new();
        arpa.insert("foo".to_string(), b_uw1());
        arpa.insert("baz".to_string(), b_ae1_z());
        arpa
    };

    a.merge_from(&b);

    assert_eq!(a.get_polyphone("foo"), Some(b_uw1()));
    assert_eq!(a.get_polyphone("bar"), Some(b_aa1_r()));
    assert_eq!(a.get_polyphone("baz"), Some(b_ae1_z()));
    assert_eq!(a.get_polyphone("bin"), None);
    assert_eq!(b.len(), 2);
}

#[test]
fn remove_is_idempotent() {
    let mut arpa = Arpabet::new();
    arpa.insert("foo".to_string(), f_uw1());
    arpa.insert("boo".to_string(), b_uw1());

    assert_eq!(arpa.remove("bar"), None);
    assert_eq!(arpa.len(), 2);

    assert_eq!(arpa.remove("foo"), Some(f_uw1()));
    assert_eq!(arpa.len(), 1);
    assert_eq!(arpa.remove("foo"), None);
    assert_eq!(arpa.len(), 1);
    assert_eq!(arpa.get_polyphone("boo"), Some(b_uw1()));
    assert_eq!(arpa.keys(), vec!["boo".to_string()]);
}

#[test]
fn insert_returns_the_previous_value() {
    let mut arpa = Arpabet::new();
    assert_eq!(arpa.insert("foo".to_string(), f_uw1()), None);
    assert_eq!(arpa.insert("foo".to_string(), b_uw1()), Some(f_uw1()));
    assert_eq!(arpa.insert("foo".to_string(), Vec::new()), Some(b_uw1()));
    assert_eq!(arpa.get_polyphone("foo"), Some(Vec::new()));
    assert_eq!(arpa.get_polyphone_str("foo"), Some(Vec::new()));
    assert_eq!(arpa.len(), 1);
}

#[test]
fn lookup_takes_the_word_as_written() {
    let mut arpa = Arpabet::new();
    arpa.insert("foo".to_string(), f_uw1());
    assert_eq!(arpa.get_polyphone("Foo"), None);
    assert_eq!(arpa.get_polyphone("FOO"), None);
    assert_eq!(arpa.get_polyphone("fo"), None);
    assert_eq!(arpa.get_polyphone("foo "), None);
    assert_eq!(arpa.get_polyphone(""), None);
}

#[test]
fn lookup_hands_out_a_copy() {
    let mut arpa = Arpabet::new();
    arpa.insert("foo".to_string(), f_uw1());
    let mut phones = arpa.get_polyphone("foo").unwrap();
    phones.clear();
    assert_eq!(arpa.get_polyphone("foo"), Some(f_uw1()));
}

#[test]
fn clone_is_a_dictionary_of_its_own() {
    let mut arpa = Arpabet::new();
    arpa.insert("foo".to_string(), f_uw1());
    let mut copy = arpa.clone();
    copy.insert("foo".to_string(), b_uw1());
    copy.insert("bar".to_string(), b_aa1_r());
    assert_eq!(arpa.len(), 1);
    assert_eq!(arpa.get_polyphone("foo"), Some(f_uw1()));
    assert_eq!(copy.len(), 2);
    assert_eq!(copy.get_polyphone("foo"), Some(b_uw1()));
}

#[test]
fn many_words() {
    let mut arpa = Arpabet::new();
    for i in 0..2000 {
        arpa.insert(format!("word{}", i), f_uw1());
    }
    assert_eq!(arpa.len(), 2000);
    for i in 0..2000 {
        if i % 2 == 0 {
            assert_eq!(arpa.remove(&format!("word{}", i)), Some(f_uw1()));
        }
    }
    assert_eq!(arpa.len(), 1000);
    for i in 0..2000 {
        let found = arpa.get_polyphone(&format!("word{}", i));
        if i % 2 == 0 {
            assert_eq!(found, None);
        } else {
            assert_eq!(found, Some(f_uw1()));
        }
    }
    let mut keys = arpa.keys();
    keys.sort();
    keys.dedup();
    assert_eq!(keys.len(), 1000);
}
