use arpabet::{Arpabet, ArpabetError};

#[test]
fn load_from_str() {
    let text = "DOCTOR  D AA1 K T ER0\n\
                MARIO  M AA1 R IY0 OW0";

    let arpabet = Arpabet::load_from_str(text).expect("Text should load");

    assert_eq!(arpabet.get_polyphone_str("super"), None);

    assert_eq!(
        arpabet.get_polyphone_str("doctor"),
        Some(vec!["D", "AA1", "K", "T", "ER0"])
    );

    assert_eq!(
        arpabet.get_polyphone_str("mario"),
        Some(vec!["M", "AA1", "R", "IY0", "OW0"])
    );
}

#[test]
fn load_from_str_error() {
    let text = "DOCTOR  D AA1 K T ER0\n\
                MARIO  M AA1 R IY0 OW0\n\
                WAT    ";

    match Arpabet::load_from_str(text) {
        Ok(_) => panic!("Should have errored."),
        Err(err) => match err {
            ArpabetError::InvalidFormat { line_number, text } => {
                assert_eq!(line_number, 3);
                assert_eq!(text, "WAT    ");
            }
            _ => panic!("Wrong error"),
        },
    }
}
