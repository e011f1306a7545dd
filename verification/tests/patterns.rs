use arpabet::{lookup, read_line, ParsedLine, Phoneme};
use regex::Regex;

// The line format as two regular expressions. They say the same as the
// library for lines that are not blank and whose tokens run to the end of
// the line, with words of letters, digits and the five marks.
const COMMENT: &str = r"^;;;\s+";
const ENTRY: &str = r"^([\w\-\(\)\.']+)\s+([^\s].*)\s*$";

// What a line says by the two expressions: `None` for a malformed line,
// `Some(None)` for a comment, `Some(Some(..))` for an entry.
fn by_expressions(line: &str) -> Option<Option<(String, Vec<Phoneme>)>> {
    let comment = Regex::new(COMMENT).expect("Regex is correct.");
    let entry = Regex::new(ENTRY).expect("Regex is correct.");
    if comment.is_match(line) {
        return Some(None);
    }
    let caps = entry.captures(line)?;
    let word = caps.get(1)?.as_str().to_lowercase();
    let mut phones = Vec::new();
    for token in caps.get(2)?.as_str().split(' ') {
        phones.push(lookup(&token.to_uppercase())?);
    }
    Some(Some((word, phones)))
}

fn by_library(line: &str) -> Option<Option<(String, Vec<Phoneme>)>> {
    match read_line(line) {
        ParsedLine::Malformed => None,
        ParsedLine::Skipped => Some(None),
        ParsedLine::Entry { word, phones } => Some(Some((word, phones))),
    }
}

const LINES: &[&str] = &[
    "ABBREVIATE  AH0 B R IY1 V IY0 EY2 T",
    "ABBREVIATE  AH0 B R IY1 V IY0 EY2 T\n",
    "abbreviate ah0 b r iy1 v iy0 ey2 t\n",
    "A  AH0\n",
    "A(1)  EY1\n",
    "'ALLO  AA2 L OW1\n",
    "-DASH  D AE1 SH\n",
    ".POINT  P OY1 N T\n",
    "3-D  TH R IY1 D IY2\n",
    "2  T UW1\n",
    "\u{c9}T\u{c9}  EY0 T EY1\n",
    "NA\u{cf}VE\u{a0}\u{a0}N AY2 IY1 V\n",
    "STRASSE\u{2003}SH T R AA1 S AH0\n",
    "\u{663}  TH R IY1\n",
    "\u{4e09}  S AA1 N\n",
    "TAB\tT AE1 B\n",
    "MIXED \t \u{a0} M IH1 K S T\n",
    "BOY  B OY1",
    "BOY B OY1",
    "BOY  B  OY1\n",
    "BOY  B\tOY1\n",
    "BOY  B OY9\n",
    "BOY  B OY\n",
    "BOY  BOY1\n",
    "BOY  b oy1\n",
    "BOY  \u{c9}\n",
    "BOY\n",
    "BOY",
    "BOY:  B OY1\n",
    "!EXCLAMATION-POINT  EH2 K S K L AH0 M EY1 SH AH0 N P OY2 N T\n",
    "\"QUOTE  K W OW1 T\n",
    "#HASH  HH AE1 SH\n",
    "BO!Y  B OY1\n",
    "BO;Y  B OY1\n",
    " BOY  B OY1\n",
    "\tBOY  B OY1\n",
    ";;; a comment\n",
    ";;; a comment",
    ";;;\n",
    ";;;\t\n",
    ";;;\u{a0}note\n",
    ";;; \n",
    ";;;",
    ";;;note\n",
    ";;\n",
    ";; note\n",
    "; ; ; note\n",
    ";;;; note\n",
    "this is not arpabet",
    "WORD  ;;; AH0\n",
];

#[test]
fn lines_read_as_the_expressions_say() {
    for line in LINES.iter() {
        assert_eq!(
            by_library(line),
            by_expressions(line),
            "line {:?}",
            line
        );
    }
}

#[test]
fn generated_lines_read_as_the_expressions_say() {
    let starts = ["", ";;;", ";;; ", "GAME", "Game(2)", "G-'.", "\u{e9}", "G!", " "];
    let gaps = ["", " ", "  ", "\t", " \t", "\u{a0}"];
    let lists = ["", "G", "G EY1 M", "g ey1 m", "G  M", "G EY7", "EY1\tM", "ZH AXR2"];
    let ends = ["", "\n"];
    for start in starts.iter() {
        for gap in gaps.iter() {
            for list in lists.iter() {
                for end in ends.iter() {
                    let line = format!("{}{}{}{}", start, gap, list, end);
                    if line.chars().all(|c| c.is_whitespace()) {
                        // Blank lines are passed over, see below.
                        continue;
                    }
                    assert_eq!(
                        by_library(&line),
                        by_expressions(&line),
                        "line {:?}",
                        line
                    );
                }
            }
        }
    }
}

#[test]
fn blank_lines_and_closing_whitespace_are_let_pass() {
    // A blank line is passed over, and whitespace after the last token is
    // left aside, where the two expressions alone would refuse the line.
    assert_eq!(by_library("\n"), Some(None));
    assert_eq!(by_expressions("\n"), None);
    assert_eq!(by_library("  \t\n"), Some(None));
    assert_eq!(by_expressions("  \t\n"), None);
    assert_eq!(
        by_library("BOY  B OY1 \r\n"),
        by_library("BOY  B OY1\n")
    );
    assert_eq!(by_expressions("BOY  B OY1 \r\n"), None);
    // The underscore is no letter, digit or mark of a word.
    assert_eq!(by_library("BOY_2  B OY1\n"), None);
    assert!(by_expressions("BOY_2  B OY1\n").is_some());
}
