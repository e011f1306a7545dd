use arpabet::{Arpabet, ArpabetError};

// The text of a small dictionary file, as whoever reads the file hands it on.
const FILE_TEXT: &str = ";;; A few names\n\
                         POKEMON  P OW1 K EY1 AH0 N\n\
                         PIKACHU  P IY1 K AH0 CH UW1\n";

// The text of a file that is no dictionary.
const BAD_FILE_TEXT: &str = "this is not arpabet";

#[test]
fn test_load_from_file() {
    let arpabet = arpabet::load_from_str(FILE_TEXT).expect("File should load");

    assert_eq!(
        arpabet.get_polyphone_str("pokemon"),
        Some(vec!["P", "OW1", "K", "EY1", "AH0", "N"])
    );

    assert_eq!(
        arpabet.get_polyphone_str("pikachu"),
        Some(vec!["P", "IY1", "K", "AH0", "CH", "UW1"])
    );

    assert_eq!(arpabet.get_polyphone_str("bulbasaur"), None);
}

#[test]
fn test_load_from_file_err() {
    let result = arpabet::load_from_str(BAD_FILE_TEXT);

    match result {
        Ok(_) => panic!("Should not be okay!"),
        Err(err) => match err {
            ArpabetError::InvalidFormat { line_number, text } => {
                assert_eq!(line_number, 1);
                assert_eq!(text, "this is not arpabet");
            }
            _ => panic!("Wrong error type!"),
        },
    }
}

#[test]
fn load_from_file() {
    let arpabet = Arpabet::load_from_str(FILE_TEXT).expect("File should load");

    assert_eq!(
        arpabet.get_polyphone_str("pokemon"),
        Some(vec!["P", "OW1", "K", "EY1", "AH0", "N"])
    );

    assert_eq!(
        arpabet.get_polyphone_str("pikachu"),
        Some(vec!["P", "IY1", "K", "AH0", "CH", "UW1"])
    );

    assert_eq!(arpabet.get_polyphone_str("bulbasaur"), None);
}
