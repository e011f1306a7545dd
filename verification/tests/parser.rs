use arpabet::{load_from_str, read_line, read_lines};
use arpabet::{Arpabet, ArpabetError, Consonant, ParsedLine, Phoneme, Vowel, VowelStress};

#[test]
fn test_load_from_str() {
    let text = "DOCTOR  D AA1 K T ER0\n\
                MARIO  M AA1 R IY0 OW0";

    let arpabet = load_from_str(text).expect("Text should load");

    assert_eq!(arpabet.get_polyphone_str("super"), None);

    assert_eq!(
        arpabet.get_polyphone_str("doctor"),
        Some(vec!["D", "AA1", "K", "T", "ER0"])
    );

    assert_eq!(
        arpabet.get_polyphone_str("mario"),
        Some(vec!["M", "AA1", "R", "IY0", "OW0"])
    );
}

#[test]
fn test_load_from_str_error() {
    let text = "DOCTOR  D AA1 K T ER0\n\
                MARIO  M AA1 R IY0 OW0\n\
                WAT    ";

    match load_from_str(text) {
        Ok(_) => panic!("Should have errored."),
        Err(err) => match err {
            ArpabetError::InvalidFormat { line_number, text } => {
                assert_eq!(line_number, 3);
                assert_eq!(text, "WAT    ");
            }
            _ => panic!("Wrong error"),
        },
    }
}

#[test]
fn case_is_normalized() {
    let arpabet = load_from_str("Test  t eh1 s t").expect("Text should load");
    assert_eq!(arpabet.len(), 1);
    assert_eq!(arpabet.keys(), vec!["test".to_string()]);
    assert_eq!(
        arpabet.get_polyphone("test"),
        Some(vec![
            Phoneme::Consonant(Consonant::T),
            Phoneme::Vowel(Vowel::EH(VowelStress::PrimaryStress)),
            Phoneme::Consonant(Consonant::S),
            Phoneme::Consonant(Consonant::T),
        ])
    );
    assert_eq!(arpabet.get_polyphone("Test"), None);
}

#[test]
fn comments_alone_are_an_empty_file() {
    assert!(matches!(
        load_from_str(";;; comment only\n"),
        Err(ArpabetError::EmptyFile)
    ));
    assert!(matches!(
        load_from_str(";;; one\n;;; two\n;;;\n"),
        Err(ArpabetError::EmptyFile)
    ));
}

#[test]
fn whitespace_alone_is_an_empty_file() {
    assert!(matches!(load_from_str(""), Err(ArpabetError::EmptyFile)));
    assert!(matches!(load_from_str("\n"), Err(ArpabetError::EmptyFile)));
    assert!(matches!(load_from_str("   "), Err(ArpabetError::EmptyFile)));
    assert!(matches!(
        load_from_str(" \t\n\n;;; note\n  \n"),
        Err(ArpabetError::EmptyFile)
    ));
}

#[test]
fn comments_and_blank_lines_count_as_lines() {
    let text = ";;; header\n\nGAME  G EY1 M\n;;; more\nthis is not arpabet\nBOY  B OY1\n";
    match load_from_str(text) {
        Err(ArpabetError::InvalidFormat { line_number, text }) => {
            assert_eq!(line_number, 5);
            assert_eq!(text, "this is not arpabet\n");
        }
        _ => panic!("Wrong outcome"),
    }
}

#[test]
fn malformed_line_wins_over_empty_file() {
    match load_from_str(";;; nothing here\n???\n") {
        Err(ArpabetError::InvalidFormat { line_number, text }) => {
            assert_eq!(line_number, 2);
            assert_eq!(text, "???\n");
        }
        _ => panic!("Wrong outcome"),
    }
}

#[test]
fn later_duplicate_replaces_earlier() {
    let arpabet = load_from_str("FOO  F UW1\nBAR  B AA1 R\nfoo  B UW1\n").expect("Text should load");
    assert_eq!(arpabet.len(), 2);
    assert_eq!(arpabet.get_polyphone_str("foo"), Some(vec!["B", "UW1"]));
    assert_eq!(arpabet.get_polyphone_str("bar"), Some(vec!["B", "AA1", "R"]));
}

#[test]
fn unknown_token_is_a_format_error() {
    match load_from_str("GAME  G EY1 M\nBOY  B OY9\n") {
        Err(ArpabetError::InvalidFormat { line_number, text }) => {
            assert_eq!(line_number, 2);
            assert_eq!(text, "BOY  B OY9\n");
        }
        _ => panic!("Wrong outcome"),
    }
}

#[test]
fn read_line_entry() {
    match read_line("ABBREVIATE  AH0 B R IY1 V IY0 EY2 T\n") {
        ParsedLine::Entry { word, phones } => {
            assert_eq!(word, "abbreviate");
            let tokens: Vec<&str> = phones.iter().map(|p| p.to_str()).collect();
            assert_eq!(tokens, vec!["AH0", "B", "R", "IY1", "V", "IY0", "EY2", "T"]);
        }
        _ => panic!("Should be an entry"),
    }
}

#[test]
fn read_line_word_characters() {
    match read_line("A(1).B-C'S2  AH0") {
        ParsedLine::Entry { word, phones } => {
            assert_eq!(word, "a(1).b-c's2");
            assert_eq!(phones, vec![Phoneme::Vowel(Vowel::AH(VowelStress::NoStress))]);
        }
        _ => panic!("Should be an entry"),
    }
    assert!(matches!(read_line("A_B  AH0"), ParsedLine::Malformed));
    assert!(matches!(read_line("!EXCLAIM  AH0"), ParsedLine::Malformed));
    assert!(matches!(read_line("  INDENTED  AH0"), ParsedLine::Malformed));
}

#[test]
fn read_line_trailing_whitespace_is_left_aside() {
    match read_line("BOY \t B OY1 \t\r\n") {
        ParsedLine::Entry { word, phones } => {
            assert_eq!(word, "boy");
            assert_eq!(
                phones,
                vec![
                    Phoneme::Consonant(Consonant::B),
                    Phoneme::Vowel(Vowel::OY(VowelStress::PrimaryStress)),
                ]
            );
        }
        _ => panic!("Should be an entry"),
    }
}

#[test]
fn read_line_tokens_take_single_spaces() {
    assert!(matches!(read_line("BOY  B  OY1"), ParsedLine::Malformed));
    assert!(matches!(read_line("BOY  B\tOY1"), ParsedLine::Malformed));
    assert!(matches!(read_line("BOY"), ParsedLine::Malformed));
    assert!(matches!(read_line("BOY   \n"), ParsedLine::Malformed));
    assert!(matches!(read_line("BOY:  B OY1"), ParsedLine::Malformed));
}

#[test]
fn read_line_skips_comments_and_blanks() {
    assert!(matches!(read_line(";;; a comment\n"), ParsedLine::Skipped));
    assert!(matches!(read_line(";;;\n"), ParsedLine::Skipped));
    assert!(matches!(read_line(";;;\tnote"), ParsedLine::Skipped));
    assert!(matches!(read_line("\n"), ParsedLine::Skipped));
    assert!(matches!(read_line(" \u{a0}\t"), ParsedLine::Skipped));
    assert!(matches!(read_line(""), ParsedLine::Skipped));
    assert!(matches!(read_line(";;;"), ParsedLine::Malformed));
    assert!(matches!(read_line(";;;note"), ParsedLine::Malformed));
    assert!(matches!(read_line(";; note"), ParsedLine::Malformed));
}

#[test]
fn read_lines_keeps_what_came_before_a_malformed_line() {
    let mut arpabet = Arpabet::new();
    arpabet.insert("old".to_string(), vec![Phoneme::Consonant(Consonant::D)]);
    let result = read_lines("GAME  G EY1 M\nnope\nBOY  B OY1\n", &mut arpabet);
    match result {
        Err(ArpabetError::InvalidFormat { line_number, text }) => {
            assert_eq!(line_number, 2);
            assert_eq!(text, "nope\n");
        }
        _ => panic!("Wrong outcome"),
    }
    assert_eq!(arpabet.len(), 2);
    assert_eq!(arpabet.get_polyphone_str("old"), Some(vec!["D"]));
    assert_eq!(arpabet.get_polyphone_str("game"), Some(vec!["G", "EY1", "M"]));
    assert_eq!(arpabet.get_polyphone_str("boy"), None);
}

#[test]
fn read_lines_adds_to_a_dictionary() {
    let mut arpabet = Arpabet::new();
    arpabet.insert("game".to_string(), vec![Phoneme::Consonant(Consonant::D)]);
    assert!(read_lines("GAME  G EY1 M\nBOY  B OY1", &mut arpabet).is_ok());
    assert_eq!(arpabet.len(), 2);
    assert_eq!(arpabet.get_polyphone_str("game"), Some(vec!["G", "EY1", "M"]));
    assert_eq!(arpabet.get_polyphone_str("boy"), Some(vec!["B", "OY1"]));
    assert!(read_lines("", &mut arpabet).is_ok());
    assert_eq!(arpabet.len(), 2);
}

#[test]
fn non_ascii_words_are_lowered() {
    let arpabet = load_from_str("\u{c9}T\u{c9}  EY0 T EY1\n").expect("Text should load");
    assert_eq!(
        arpabet.get_polyphone_str("\u{e9}t\u{e9}"),
        Some(vec!["EY0", "T", "EY1"])
    );
}

#[test]
fn dictionary_excerpt() {
    let text = ";;; # CMUdict  --  Major Version: 0.07\n\
                ;;;\n\
                ADVANCE  AH0 D V AE1 N S\n\
                BOY  B OY1\n\
                GAME  G EY1 M\n\
                YEP  Y EH1 P\n";
    let arpabet = load_from_str(text).expect("Text should load");

    assert_eq!(arpabet.get_polyphone_str("game"), Some(vec!["G", "EY1", "M"]));
    assert_eq!(arpabet.get_polyphone_str("boy"), Some(vec!["B", "OY1"]));
    assert_eq!(
        arpabet.get_polyphone_str("advance"),
        Some(vec!["AH0", "D", "V", "AE1", "N", "S"])
    );
    assert_eq!(arpabet.get_polyphone_str("sp"), None);
    assert_eq!(arpabet.get_polyphone_str("ZZZZZ"), None);
    assert_eq!(arpabet.get_polyphone_str("zzzzz"), None);
    assert_eq!(arpabet.len(), 4);
}

#[test]
fn round_trip_of_tokens() {
    let lines = [
        ("ABBREVIATE", "AH0 B R IY1 V IY0 EY2 T"),
        ("JUNGLE", "JH AH1 NG G AH0 L"),
        ("A", "AH0"),
        ("LETTER(1)", "L EH1 T AXR"),
    ];
    let mut text = String::new();
    for (word, tokens) in lines.iter() {
        text.push_str(word);
        text.push_str("  ");
        text.push_str(tokens);
        text.push('\n');
    }
    let arpabet = load_from_str(&text).expect("Text should load");
    for (word, tokens) in lines.iter() {
        let expected: Vec<&str> = tokens.split(' ').collect();
        assert_eq!(
            arpabet.get_polyphone_str(&word.to_lowercase()),
            Some(expected)
        );
    }
}

#[test]
fn large_dictionary() {
    let mut text = String::from(";;; a generated dictionary\n");
    for i in 0..50000 {
        text.push_str(&format!("WORD{}  W ER1 D {}\n", i, if i % 2 == 0 { "AH0" } else { "IY2" }));
    }
    let arpabet = load_from_str(&text).expect("Text should load");
    assert_eq!(arpabet.len(), 50000);
    for i in (0..50000).step_by(7) {
        let last = if i % 2 == 0 { "AH0" } else { "IY2" };
        assert_eq!(
            arpabet.get_polyphone_str(&format!("word{}", i)),
            Some(vec!["W", "ER1", "D", last])
        );
    }
    assert_eq!(arpabet.get_polyphone_str("word50000"), None);
}

#[test]
fn usage() {
    let arpabet = load_from_str("TEST  T EH1 S T\n").unwrap();
    assert_eq!(
        arpabet.get_polyphone_str("test"),
        Some(vec!["T", "EH1", "S", "T"])
    );
}
