//! Reading dictionaries written one entry per line.
//!
//! A line is a comment, blank, an entry, or malformed. A comment starts with
//! three semicolons and a whitespace character. A blank line holds nothing but
//! whitespace. Both are passed over, and both count as lines.
//!
//! An entry is a word, whitespace, and the tokens of its phonemes with single
//! spaces between them; whitespace at the end of the line is left aside. The
//! word is made of letters, digits, hyphens, parentheses, periods and
//! apostrophes, and is stored in lower case. Each token is put in upper case
//! and looked up in the symbol table. A line that is none of these is
//! malformed, and reading stops at the first such line.
//!
//! ```text
//! ;;; a comment
//! ABBREVIATE  AH0 B R IY1 V IY0 EY2 T
//! ```

use vstd::prelude::*;
use crate::error::ArpabetError;
use crate::phoneme::Phoneme;
use crate::store::{Arpabet, Polyphone, Word};
use crate::symbols::{lookup, resolve};
use crate::text::{chars_of, is_letter_or_digit, is_space, lowercase, string_of, uppercase};

verus! {

/// Whether a character may stand in a word.
pub open spec fn is_word_char(c: char) -> bool {
    is_letter_or_digit(c) || c == '-' || c == '(' || c == ')' || c == '.' || c == '\''
}

/// Whether a line is a comment: three semicolons, then whitespace.
pub open spec fn is_comment(line: Seq<char>) -> bool {
    line.len() >= 4 && line[0] == ';' && line[1] == ';' && line[2] == ';' && is_space(line[3])
}

/// Whether a line holds nothing but whitespace.
pub open spec fn is_blank(line: Seq<char>) -> bool {
    forall|i: int| 0 <= i < line.len() ==> is_space(#[trigger] line[i])
}

/// Where the run of word characters that starts at `from` ends.
pub open spec fn word_end(line: Seq<char>, from: int) -> int
    decreases line.len() - from,
{
    if 0 <= from < line.len() && is_word_char(line[from]) {
        word_end(line, from + 1)
    } else {
        from
    }
}

/// Where the run of whitespace that starts at `from` ends.
pub open spec fn space_end(line: Seq<char>, from: int) -> int
    decreases line.len() - from,
{
    if 0 <= from < line.len() && is_space(line[from]) {
        space_end(line, from + 1)
    } else {
        from
    }
}

/// Where the first `to` characters of a line end once the whitespace at
/// their end is left aside.
pub open spec fn trim_end(line: Seq<char>, to: int) -> int
    decreases to,
{
    if 0 < to <= line.len() && is_space(line[to - 1]) {
        trim_end(line, to - 1)
    } else {
        to
    }
}

/// The pieces of a string between its spaces. A string with no space is one
/// piece, and two spaces in a row have an empty piece between them.
pub open spec fn raw_tokens(s: Seq<char>) -> Seq<Seq<char>>
    decreases s.len(),
{
    if s.len() == 0 {
        seq![Seq::empty()]
    } else {
        let front = raw_tokens(s.drop_last());
        if s.last() == ' ' {
            front.push(Seq::empty())
        } else {
            front.update(front.len() - 1, front.last().push(s.last()))
        }
    }
}

/// The phonemes that a list of tokens names, each token put in upper case
/// first; nothing where one of the tokens names no phoneme.
pub open spec fn phonemes_of(s: Seq<char>) -> Option<Seq<Phoneme>> {
    let tokens = raw_tokens(s);
    if forall|k: int| 0 <= k < tokens.len() ==> resolve(uppercase(#[trigger] tokens[k])) is Some {
        Some(Seq::new(tokens.len(), |k: int| resolve(uppercase(tokens[k])).unwrap()))
    } else {
        None
    }
}

/// What a line of a dictionary says.
pub enum Line {
    /// A comment or a blank line.
    Skipped,
    /// An entry: a word in lower case and its phonemes.
    Entry { word: Seq<char>, phones: Seq<Phoneme> },
    /// Anything else.
    Malformed,
}

/// What a line says. The line may end in a line feed or not.
pub open spec fn parse_line(line: Seq<char>) -> Line {
    if is_comment(line) || is_blank(line) {
        Line::Skipped
    } else {
        let word = word_end(line, 0);
        let first = space_end(line, word);
        let end = trim_end(line, line.len() as int);
        if word == 0 || first == word || first >= end {
            Line::Malformed
        } else {
            match phonemes_of(line.subrange(first, end)) {
                Some(phones) => Line::Entry { word: lowercase(line.subrange(0, word)), phones },
                None => Line::Malformed,
            }
        }
    }
}

/// The lines of a text. Each line but the last ends in a line feed, which is
/// part of the line; the last does where the text ends in one.
pub open spec fn lines_of(text: Seq<char>) -> Seq<Seq<char>>
    decreases text.len(),
{
    if text.len() == 0 {
        Seq::empty()
    } else {
        let front = lines_of(text.drop_last());
        if front.len() == 0 || front.last().last() == '\n' {
            front.push(seq![text.last()])
        } else {
            front.update(front.len() - 1, front.last().push(text.last()))
        }
    }
}

/// The place of the first malformed line, counted from zero.
pub open spec fn first_malformed(lines: Seq<Seq<char>>) -> Option<int>
    decreases lines.len(),
{
    if lines.len() == 0 {
        None
    } else {
        match first_malformed(lines.drop_last()) {
            Some(i) => Some(i),
            None => if parse_line(lines.last()) is Malformed {
                Some(lines.len() - 1)
            } else {
                None
            },
        }
    }
}

/// A map with the entries of some lines put into it in order, so that a later
/// entry for a word replaces an earlier one. Lines that are no entries change
/// nothing.
pub open spec fn entries_into(map: Map<Seq<char>, Seq<Phoneme>>, lines: Seq<Seq<char>>) -> Map<
    Seq<char>,
    Seq<Phoneme>,
>
    decreases lines.len(),
{
    if lines.len() == 0 {
        map
    } else {
        let before = entries_into(map, lines.drop_last());
        match parse_line(lines.last()) {
            Line::Entry { word, phones } => before.insert(word, phones),
            _ => before,
        }
    }
}

/// How loading a text ends.
pub enum Loaded {
    /// Every line was read, and there was at least one entry.
    Dictionary(Map<Seq<char>, Seq<Phoneme>>),
    /// Every line was read, and none was an entry.
    EmptyFile,
    /// A line was malformed: its number, counted from one, and its text.
    InvalidFormat { line_number: int, text: Seq<char> },
}

/// How loading a text ends. A malformed line counts before anything else;
/// a text without entries is an empty file.
pub open spec fn load(text: Seq<char>) -> Loaded {
    let lines = lines_of(text);
    match first_malformed(lines) {
        Some(i) => Loaded::InvalidFormat { line_number: i + 1, text: lines[i] },
        None => {
            let entries = entries_into(Map::empty(), lines);
            if forall|word: Seq<char>| !entries.contains_key(word) {
                Loaded::EmptyFile
            } else {
                Loaded::Dictionary(entries)
            }
        },
    }
}

/// What a line of a dictionary says, as values.
#[derive(Debug)]
pub enum ParsedLine {
    /// A comment or a blank line.
    Skipped,
    /// An entry: a word in lower case and its phonemes.
    Entry {
        /// The word, in lower case.
        word: Word,
        /// The phonemes of the word, in order.
        phones: Polyphone,
    },
    /// Anything else.
    Malformed,
}

impl View for ParsedLine {
    type V = Line;

    open spec fn view(&self) -> Line {
        match self {
            ParsedLine::Skipped => Line::Skipped,
            ParsedLine::Entry { word, phones } => Line::Entry { word: word@, phones: phones@ },
            ParsedLine::Malformed => Line::Malformed,
        }
    }
}

/// A list of tokens has at least one piece.
pub proof fn lemma_raw_tokens_len(s: Seq<char>)
    ensures
        raw_tokens(s).len() >= 1,
    decreases s.len(),
{
    if s.len() > 0 {
        lemma_raw_tokens_len(s.drop_last());
    }
}

/// Pieces put together again, with a space between each two.
pub open spec fn joined(pieces: Seq<Seq<char>>) -> Seq<char>
    decreases pieces.len(),
{
    if pieces.len() == 0 {
        Seq::empty()
    } else if pieces.len() == 1 {
        pieces[0]
    } else {
        joined(pieces.drop_last()) + seq![' '] + pieces.last()
    }
}

/// The pieces of a string are what stands between its spaces: no piece holds
/// a space, and the pieces put together with spaces are the string.
pub proof fn lemma_raw_tokens_split(s: Seq<char>)
    ensures
        forall|k: int, j: int|
            0 <= k < raw_tokens(s).len() && 0 <= j < raw_tokens(s)[k].len() ==> #[trigger] raw_tokens(
                s,
            )[k][j] != ' ',
        joined(raw_tokens(s)) == s,
    decreases s.len(),
{
    if s.len() == 0 {
        assert(joined(raw_tokens(s)) =~= s);
    } else {
        let front = s.drop_last();
        let pieces = raw_tokens(front);
        lemma_raw_tokens_split(front);
        lemma_raw_tokens_len(front);
        if s.last() == ' ' {
            let longer = pieces.push(Seq::empty());
            assert(longer.drop_last() =~= pieces);
            assert(joined(longer) =~= s);
        } else {
            let longer = pieces.update(pieces.len() - 1, pieces.last().push(s.last()));
            if pieces.len() == 1 {
                assert(joined(longer) =~= s);
            } else {
                assert(longer.drop_last() =~= pieces.drop_last());
                assert(longer.last() == pieces.last().push(s.last()));
                assert(front == joined(pieces.drop_last()) + seq![' '] + pieces.last());
                assert(joined(longer) == joined(pieces.drop_last()) + seq![' '] + pieces.last().push(
                    s.last(),
                ));
                assert(joined(longer) =~= front.push(s.last()));
                assert(front.push(s.last()) =~= s);
            }
        }
    }
}

/// The pieces before a space stay as they are, whatever follows the space.
proof fn lemma_raw_tokens_stay(s: Seq<char>, i: int)
    requires
        0 <= i < s.len(),
        s[i] == ' ',
    ensures
        raw_tokens(s).len() > raw_tokens(s.take(i)).len(),
        forall|k: int|
            0 <= k < raw_tokens(s.take(i)).len() ==> #[trigger] raw_tokens(s)[k] == raw_tokens(
                s.take(i),
            )[k],
    decreases s.len(),
{
    let front = s.drop_last();
    lemma_raw_tokens_len(s.take(i));
    if s.len() == i + 1 {
        assert(front =~= s.take(i));
    } else {
        assert(front.take(i) =~= s.take(i));
        lemma_raw_tokens_stay(front, i);
    }
}

/// Every line holds a character, and there are no more lines than characters.
pub proof fn lemma_lines_shape(text: Seq<char>)
    ensures
        lines_of(text).len() <= text.len(),
        text.len() > 0 ==> lines_of(text).len() > 0,
        forall|k: int| 0 <= k < lines_of(text).len() ==> (#[trigger] lines_of(text)[k]).len() > 0,
        text.len() > 0 ==> lines_of(text).last().last() == text.last(),
    decreases text.len(),
{
    if text.len() > 0 {
        lemma_lines_shape(text.drop_last());
    }
}

/// Lines put together again, one after the other.
pub open spec fn glued(lines: Seq<Seq<char>>) -> Seq<char>
    decreases lines.len(),
{
    if lines.len() == 0 {
        Seq::empty()
    } else {
        glued(lines.drop_last()) + lines.last()
    }
}

/// The lines of a text are the text cut after each line feed: the lines put
/// together are the text, every line but the last ends in a line feed, and no
/// line holds a line feed before its end.
pub proof fn lemma_lines_split(text: Seq<char>)
    ensures
        glued(lines_of(text)) == text,
        forall|i: int|
            0 <= i < lines_of(text).len() - 1 ==> (#[trigger] lines_of(text)[i]).last() == '\n',
        forall|i: int, k: int|
            0 <= i < lines_of(text).len() && 0 <= k < lines_of(text)[i].len() - 1
                ==> #[trigger] lines_of(text)[i][k] != '\n',
    decreases text.len(),
{
    if text.len() == 0 {
        assert(glued(lines_of(text)) =~= text);
    } else {
        let front = text.drop_last();
        let lines = lines_of(front);
        lemma_lines_split(front);
        lemma_lines_shape(front);
        if lines.len() == 0 || lines.last().last() == '\n' {
            let longer = lines.push(seq![text.last()]);
            assert(longer.drop_last() =~= lines);
            assert(glued(longer) =~= text);
        } else {
            let longer = lines.update(lines.len() - 1, lines.last().push(text.last()));
            assert(longer.drop_last() =~= lines.drop_last());
            assert(longer.last() == lines.last().push(text.last()));
            assert(front == glued(lines.drop_last()) + lines.last());
            assert(glued(longer) == glued(lines.drop_last()) + lines.last().push(text.last()));
            assert(glued(longer) =~= front.push(text.last()));
            assert(front.push(text.last()) =~= text);
        }
    }
}

/// A run of characters with no line feed before its last place, which starts
/// the text or follows a line feed, is one more line.
proof fn lemma_lines_extend(text: Seq<char>, start: int, end: int)
    requires
        0 <= start < end <= text.len(),
        start == 0 || text[start - 1] == '\n',
        forall|k: int| start <= k < end - 1 ==> text[k] != '\n',
    ensures
        lines_of(text.take(end)) == lines_of(text.take(start)).push(text.subrange(start, end)),
    decreases end - start,
{
    let upto = text.take(end);
    let front = upto.drop_last();
    assert(front =~= text.take(end - 1));
    lemma_lines_shape(text.take(start));
    if end == start + 1 {
        assert(text.subrange(start, end) =~= seq![text[start]]);
        if start > 0 {
            assert(text.take(start).last() == text[start - 1]);
        }
    } else {
        lemma_lines_extend(text, start, end - 1);
        let before = lines_of(text.take(start));
        let partial = text.subrange(start, end - 1);
        assert(partial.last() == text[end - 2]);
        assert(partial.push(text[end - 1]) =~= text.subrange(start, end));
        assert(text.take(end).last() == text[end - 1]);
        assert(before.push(partial).last() == partial);
        assert(before.push(partial).update(before.len() as int, partial.push(text[end - 1]))
            =~= before.push(text.subrange(start, end)));
    }
}

/// The lines up to a line feed stay as they are, whatever follows. So do the
/// lines of the whole text, which nothing follows.
proof fn lemma_lines_stay(text: Seq<char>, i: int)
    requires
        0 <= i <= text.len(),
        i == 0 || i == text.len() || text[i - 1] == '\n',
    ensures
        lines_of(text.take(i)).len() <= lines_of(text).len(),
        lines_of(text).take(lines_of(text.take(i)).len() as int) == lines_of(text.take(i)),
    decreases text.len(),
{
    if text.len() == i {
        assert(text.take(i) =~= text);
        assert(lines_of(text).take(lines_of(text).len() as int) =~= lines_of(text));
    } else {
        let front = text.drop_last();
        assert(front.take(i) =~= text.take(i));
        lemma_lines_stay(front, i);
        lemma_lines_shape(text.take(i));
        lemma_lines_shape(front);
        let done = lines_of(text.take(i));
        if front.len() > i {
            // The last line of `front` starts at or after `i`.
            lemma_last_line_is_new(front, i);
        }
        assert(lines_of(text).take(done.len() as int) =~= lines_of(front).take(done.len() as int));
    }
}

/// After a line feed at `i - 1` and at least one more character, the text has
/// more lines than its first `i` characters have.
proof fn lemma_last_line_is_new(text: Seq<char>, i: int)
    requires
        0 <= i < text.len(),
        i == 0 || text[i - 1] == '\n',
    ensures
        lines_of(text).len() > lines_of(text.take(i)).len(),
    decreases text.len(),
{
    let front = text.drop_last();
    assert(front.take(i) =~= text.take(i));
    lemma_lines_shape(front);
    if front.len() == i {
        assert(front =~= text.take(i));
        if i > 0 {
            assert(front.last() == text[i - 1]);
        }
    } else {
        lemma_last_line_is_new(front, i);
    }
}

/// The first malformed line among some lines is the first malformed line
/// among any lines that go on from them.
proof fn lemma_first_malformed_stays(lines: Seq<Seq<char>>, n: int)
    requires
        0 <= n <= lines.len(),
        first_malformed(lines.take(n)) is Some,
    ensures
        first_malformed(lines) == first_malformed(lines.take(n)),
    decreases lines.len(),
{
    if lines.len() == n {
        assert(lines.take(n) =~= lines);
    } else {
        assert(lines.drop_last().take(n) =~= lines.take(n));
        lemma_first_malformed_stays(lines.drop_last(), n);
    }
}

/// The first malformed line is malformed, and no line before it is.
pub proof fn lemma_first_malformed(lines: Seq<Seq<char>>)
    ensures
        (match first_malformed(lines) {
            Some(i) => 0 <= i < lines.len() && parse_line(lines[i]) is Malformed && forall|k: int|
                0 <= k < i ==> !(parse_line(#[trigger] lines[k]) is Malformed),
            None => forall|k: int|
                0 <= k < lines.len() ==> !(parse_line(#[trigger] lines[k]) is Malformed),
        }),
    decreases lines.len(),
{
    if lines.len() > 0 {
        let front = lines.drop_last();
        lemma_first_malformed(front);
        assert forall|k: int| 0 <= k < front.len() implies front[k] == lines[k] by {}
        match first_malformed(front) {
            Some(i) => {
                assert(front[i] == lines[i]);
                assert forall|k: int| 0 <= k < i implies !(parse_line(
                    #[trigger] lines[k],
                ) is Malformed) by {
                    assert(front[k] == lines[k]);
                }
            },
            None => {
                assert forall|k: int| 0 <= k < front.len() implies !(parse_line(
                    #[trigger] lines[k],
                ) is Malformed) by {
                    assert(front[k] == lines[k]);
                }
            },
        }
    }
}

/// The phonemes of an entry are those that the tokens of its line name: as
/// many as the line has tokens, in the order of the line, and the token of
/// each is the line's token in upper case.
pub proof fn lemma_entry_tokens(line: Seq<char>)
    requires
        parse_line(line) is Entry,
    ensures
        ({
            let first = space_end(line, word_end(line, 0));
            let end = trim_end(line, line.len() as int);
            let tokens = raw_tokens(line.subrange(first, end));
            let phones = parse_line(line)->phones;
            &&& parse_line(line)->word == lowercase(line.subrange(0, word_end(line, 0)))
            &&& phones.len() == tokens.len()
            &&& phones.len() >= 1
            &&& forall|k: int|
                0 <= k < tokens.len() ==> (#[trigger] phones[k]).token() == uppercase(tokens[k])
        }),
{
    let first = space_end(line, word_end(line, 0));
    let end = trim_end(line, line.len() as int);
    let tokens = raw_tokens(line.subrange(first, end));
    let phones = parse_line(line)->phones;
    lemma_raw_tokens_len(line.subrange(first, end));
    assert forall|k: int| 0 <= k < tokens.len() implies (#[trigger] phones[k]).token() == uppercase(
        tokens[k],
    ) by {
        assert(resolve(uppercase(tokens[k])) is Some);
        crate::symbols::lemma_resolve_is_token(uppercase(tokens[k]), phones[k]);
    }
}

/// The entries of some lines, put into a map, leave under each word the
/// phonemes of the last line that is an entry for it.
pub proof fn lemma_last_entry_stays(
    map: Map<Seq<char>, Seq<Phoneme>>,
    lines: Seq<Seq<char>>,
    i: int,
)
    requires
        0 <= i < lines.len(),
        parse_line(lines[i]) is Entry,
        forall|j: int|
            i < j < lines.len() && parse_line(#[trigger] lines[j]) is Entry ==> parse_line(
                lines[j],
            )->word != parse_line(lines[i])->word,
    ensures
        entries_into(map, lines).contains_key(parse_line(lines[i])->word),
        entries_into(map, lines)[parse_line(lines[i])->word] == parse_line(lines[i])->phones,
    decreases lines.len(),
{
    if i < lines.len() - 1 {
        let front = lines.drop_last();
        assert(front[i] == lines[i]);
        assert forall|j: int| i < j < front.len() && parse_line(
            #[trigger] front[j],
        ) is Entry implies parse_line(front[j])->word != parse_line(front[i])->word by {
            assert(front[j] == lines[j]);
        }
        lemma_last_entry_stays(map, front, i);
        assert(lines.last() == lines[lines.len() - 1]);
    }
}

/// Round trip. In a text that loads, take a line that is an entry and that no
/// later entry for the same word follows. The dictionary then holds, under
/// the line's word in lower case, one phoneme for each token of the line, in
/// the line's order, and the token of each phoneme is the line's token in
/// upper case.
pub proof fn lemma_round_trip(text: Seq<char>, i: int)
    requires
        load(text) is Dictionary,
        0 <= i < lines_of(text).len(),
        parse_line(lines_of(text)[i]) is Entry,
        forall|j: int|
            i < j < lines_of(text).len() && parse_line(#[trigger] lines_of(text)[j]) is Entry
                ==> parse_line(lines_of(text)[j])->word != parse_line(lines_of(text)[i])->word,
    ensures
        ({
            let line = lines_of(text)[i];
            let word = lowercase(line.subrange(0, word_end(line, 0)));
            let first = space_end(line, word_end(line, 0));
            let end = trim_end(line, line.len() as int);
            let tokens = raw_tokens(line.subrange(first, end));
            let dictionary = load(text)->Dictionary_0;
            &&& dictionary.contains_key(word)
            &&& dictionary[word].len() == tokens.len()
            &&& forall|k: int|
                0 <= k < tokens.len() ==> (#[trigger] dictionary[word][k]).token() == uppercase(
                    tokens[k],
                )
        }),
{
    lemma_entry_tokens(lines_of(text)[i]);
    lemma_last_entry_stays(Map::empty(), lines_of(text), i);
}

/// Entries put into a map of words with at least one phoneme each leave a
/// map of words with at least one phoneme each.
pub proof fn lemma_entries_hold_phonemes(
    map: Map<Seq<char>, Seq<Phoneme>>,
    lines: Seq<Seq<char>>,
)
    requires
        forall|word: Seq<char>| map.contains_key(word) ==> map[word].len() >= 1,
    ensures
        forall|word: Seq<char>|
            entries_into(map, lines).contains_key(word) ==> entries_into(map, lines)[word].len()
                >= 1,
    decreases lines.len(),
{
    if lines.len() > 0 {
        let before = entries_into(map, lines.drop_last());
        lemma_entries_hold_phonemes(map, lines.drop_last());
        if parse_line(lines.last()) is Entry {
            lemma_entry_tokens(lines.last());
        }
        assert forall|word: Seq<char>| entries_into(map, lines).contains_key(word) implies entries_into(
            map,
            lines,
        )[word].len() >= 1 by {
            if before.contains_key(word) {
                assert(before[word].len() >= 1);
            }
        }
    }
}

/// No word of a dictionary that was loaded from text is without a phoneme.
pub proof fn lemma_loaded_words_hold_phonemes(text: Seq<char>, word: Seq<char>)
    requires
        load(text) is Dictionary,
        load(text)->Dictionary_0.contains_key(word),
    ensures
        load(text)->Dictionary_0[word].len() >= 1,
{
    lemma_entries_hold_phonemes(Map::empty(), lines_of(text));
}

/// Lines that are comments or blank put nothing into a map and are not
/// malformed.
pub proof fn lemma_skipped_lines(map: Map<Seq<char>, Seq<Phoneme>>, lines: Seq<Seq<char>>)
    requires
        forall|i: int|
            0 <= i < lines.len() ==> is_comment(#[trigger] lines[i]) || is_blank(lines[i]),
    ensures
        first_malformed(lines) is None,
        entries_into(map, lines) == map,
    decreases lines.len(),
{
    if lines.len() > 0 {
        let front = lines.drop_last();
        assert forall|i: int| 0 <= i < front.len() implies is_comment(#[trigger] front[i])
            || is_blank(front[i]) by {
            assert(front[i] == lines[i]);
        }
        lemma_skipped_lines(map, front);
        assert(lines.last() == lines[lines.len() - 1]);
    }
}

/// A text in which every line is a comment or blank is an empty file.
pub proof fn lemma_comments_are_empty_file(text: Seq<char>)
    requires
        forall|i: int|
            0 <= i < lines_of(text).len() ==> is_comment(#[trigger] lines_of(text)[i]) || is_blank(
                lines_of(text)[i],
            ),
    ensures
        load(text) == Loaded::EmptyFile,
{
    lemma_skipped_lines(Map::empty(), lines_of(text));
}

/// Every character of a line of a text is a character of the text.
proof fn lemma_lines_hold_text(text: Seq<char>)
    ensures
        forall|i: int, k: int|
            0 <= i < lines_of(text).len() && 0 <= k < lines_of(text)[i].len() ==> text.contains(
                #[trigger] lines_of(text)[i][k],
            ),
    decreases text.len(),
{
    if text.len() > 0 {
        let front = text.drop_last();
        lemma_lines_hold_text(front);
        lemma_lines_shape(front);
        let before = lines_of(front);
        assert forall|i: int, k: int|
            0 <= i < lines_of(text).len() && 0 <= k < lines_of(text)[i].len() implies text.contains(
            #[trigger] lines_of(text)[i][k],
        ) by {
            let c = lines_of(text)[i][k];
            if c == text.last() {
                assert(text[text.len() - 1] == c);
            } else {
                assert(i < before.len() && k < before[i].len() && before[i][k] == c);
                assert(front.contains(c));
                let at = choose|at: int| 0 <= at < front.len() && front[at] == c;
                assert(text[at] == c);
            }
        }
    }
}

/// A text that holds nothing but whitespace is an empty file. So is the text
/// without a character.
pub proof fn lemma_whitespace_is_empty_file(text: Seq<char>)
    requires
        is_blank(text),
    ensures
        load(text) == Loaded::EmptyFile,
{
    lemma_lines_hold_text(text);
    assert forall|i: int| 0 <= i < lines_of(text).len() implies is_blank(
        #[trigger] lines_of(text)[i],
    ) by {
        let line = lines_of(text)[i];
        assert forall|k: int| 0 <= k < line.len() implies is_space(#[trigger] line[k]) by {
            assert(text.contains(lines_of(text)[i][k]));
            let at = choose|at: int| 0 <= at < text.len() && text[at] == line[k];
            assert(is_space(text[at]));
        }
    }
    lemma_comments_are_empty_file(text);
}

/// Whether a character may stand in a word.
fn word_char(c: char) -> (b: bool)
    ensures
        b == is_word_char(c),
{
    c.is_alphanumeric() || c == '-' || c == '(' || c == ')' || c == '.' || c == '\''
}

/// Whether a line holds nothing but whitespace.
fn blank(line: &Vec<char>) -> (b: bool)
    ensures
        b == is_blank(line@),
{
    let mut i: usize = 0;
    while i < line.len()
        invariant
            i <= line.len(),
            forall|k: int| 0 <= k < i ==> is_space(#[trigger] line@[k]),
        decreases line.len() - i,
    {
        if !line[i].is_whitespace() {
            return false;
        }
        i += 1;
    }
    true
}

/// The phonemes that a list of tokens names.
fn read_tokens(list: &Vec<char>) -> (found: Option<Polyphone>)
    ensures
        (match found {
            Some(phones) => phonemes_of(list@) == Some(phones@),
            None => phonemes_of(list@) is None,
        }),
{
    let n = list.len();
    let mut phones: Vec<Phoneme> = Vec::new();
    let mut start: usize = 0;
    let mut i: usize = 0;
    while i < n
        invariant
            n == list.len(),
            start <= i <= n,
            raw_tokens(list@.take(i as int)).len() == phones@.len() + 1,
            raw_tokens(list@.take(i as int)).last() == list@.subrange(start as int, i as int),
            forall|k: int|
                0 <= k < phones@.len() ==> resolve(
                    uppercase(#[trigger] raw_tokens(list@.take(i as int))[k]),
                ) == Some(phones@[k]),
        decreases n - i,
    {
        let ghost before = raw_tokens(list@.take(i as int));
        assert(list@.take(i + 1).drop_last() =~= list@.take(i as int));
        if list[i] == ' ' {
            let token = string_of(list, start, i);
            let upper = token.as_str().to_uppercase();
            match lookup(upper.as_str()) {
                Some(phoneme) => {
                    phones.push(phoneme);
                },
                None => {
                    proof {
                        lemma_raw_tokens_stay(list@, i as int);
                        assert(raw_tokens(list@)[before.len() - 1] == before.last());
                    }
                    return None;
                },
            }
            start = i + 1;
            assert(list@.subrange(start as int, start as int) =~= Seq::<char>::empty());
        } else {
            assert(list@.subrange(start as int, i + 1) =~= list@.subrange(
                start as int,
                i as int,
            ).push(list@[i as int]));
        }
        i += 1;
    }
    assert(list@.take(n as int) =~= list@);
    let token = string_of(list, start, n);
    let upper = token.as_str().to_uppercase();
    match lookup(upper.as_str()) {
        Some(phoneme) => {
            phones.push(phoneme);
            proof {
                let tokens = raw_tokens(list@);
                assert(phones@ =~= Seq::new(
                    tokens.len(),
                    |k: int| resolve(uppercase(tokens[k])).unwrap(),
                ));
            }
            Some(phones)
        },
        None => None,
    }
}

/// A copy of the characters of `line` from `from` up to `to`.
fn copy_chars(line: &Vec<char>, from: usize, to: usize) -> (copy: Vec<char>)
    requires
        from <= to <= line.len(),
    ensures
        copy@ == line@.subrange(from as int, to as int),
{
    let mut copy: Vec<char> = Vec::with_capacity(to - from);
    let mut i: usize = from;
    while i < to
        invariant
            from <= i <= to <= line.len(),
            copy@ == line@.subrange(from as int, i as int),
        decreases to - i,
    {
        copy.push(line[i]);
        i += 1;
        assert(line@.subrange(from as int, i as int) =~= line@.subrange(from as int, i - 1).push(
            line@[i - 1],
        ));
    }
    copy
}

/// Reads one line that is given by its characters.
fn parse_chars(line: &Vec<char>) -> (parsed: ParsedLine)
    ensures
        parsed@ == parse_line(line@),
{
    let n = line.len();
    if n >= 4 && line[0] == ';' && line[1] == ';' && line[2] == ';' && line[3].is_whitespace() {
        return ParsedLine::Skipped;
    }
    if blank(line) {
        return ParsedLine::Skipped;
    }
    let mut word: usize = 0;
    while word < n && word_char(line[word])
        invariant
            n == line.len(),
            word <= n,
            word_end(line@, 0) == word_end(line@, word as int),
        decreases n - word,
    {
        word += 1;
    }
    let mut first: usize = word;
    while first < n && line[first].is_whitespace()
        invariant
            n == line.len(),
            word <= first <= n,
            space_end(line@, word as int) == space_end(line@, first as int),
        decreases n - first,
    {
        first += 1;
    }
    let mut end: usize = n;
    while end > 0 && line[end - 1].is_whitespace()
        invariant
            n == line.len(),
            end <= n,
            trim_end(line@, n as int) == trim_end(line@, end as int),
        decreases end,
    {
        end -= 1;
    }
    if word == 0 || first == word || first >= end {
        return ParsedLine::Malformed;
    }
    let list = copy_chars(line, first, end);
    match read_tokens(&list) {
        Some(phones) => {
            let written = string_of(line, 0, word);
            let word = written.as_str().to_lowercase();
            ParsedLine::Entry { word, phones }
        },
        None => ParsedLine::Malformed,
    }
}

/// Reads one line of a dictionary. The line may end in a line feed or not.
pub fn read_line(line: &str) -> (parsed: ParsedLine)
    ensures
        parsed@ == parse_line(line@),
{
    let chars = chars_of(line);
    parse_chars(&chars)
}

/// Reads the lines of a text into a dictionary, in order: a later entry for a
/// word replaces an earlier one. Reading stops at the first malformed line,
/// with the entries of the lines before it in the dictionary.
pub fn read_lines(text: &str, map: &mut Arpabet) -> (result: Result<(), ArpabetError>)
    ensures
        (match first_malformed(lines_of(text@)) {
            Some(i) => {
                &&& result matches Err(ArpabetError::InvalidFormat { line_number, text: line })
                &&& line_number == i + 1
                &&& line@ == lines_of(text@)[i]
                &&& final(map)@ == entries_into(old(map)@, lines_of(text@).take(i))
            },
            None => result is Ok && final(map)@ == entries_into(old(map)@, lines_of(text@)),
        }),
{
    let chars = chars_of(text);
    let n = chars.len();
    let mut start: usize = 0;
    let mut done: usize = 0;
    assert(chars@.take(0) =~= Seq::<char>::empty());
    while start < n
        invariant
            chars@ == text@,
            n == chars.len(),
            start <= n,
            start == 0 || start == n || chars@[start - 1] == '\n',
            done == lines_of(chars@.take(start as int)).len(),
            done <= start,
            first_malformed(lines_of(chars@.take(start as int))) is None,
            map@ == entries_into(old(map)@, lines_of(chars@.take(start as int))),
        decreases n - start,
    {
        // The line runs up to its line feed, or to the end of the text.
        let mut end: usize = start;
        while end < n && chars[end] != '\n'
            invariant
                n == chars.len(),
                start <= end <= n,
                forall|k: int| start <= k < end ==> chars@[k] != '\n',
            decreases n - end,
        {
            end += 1;
        }
        if end < n {
            end += 1;
        }
        let line = copy_chars(&chars, start, end);
        let ghost before = lines_of(chars@.take(start as int));
        let ghost lines = lines_of(chars@.take(end as int));
        proof {
            lemma_lines_extend(chars@, start as int, end as int);
            lemma_lines_shape(chars@.take(end as int));
            assert(lines.drop_last() =~= before);
        }
        match parse_chars(&line) {
            ParsedLine::Malformed => {
                proof {
                    lemma_lines_stay(chars@, end as int);
                    lemma_first_malformed_stays(lines_of(chars@), lines.len() as int);
                    assert(lines_of(chars@).take(done as int) =~= lines.take(done as int));
                }
                let written = string_of(&chars, start, end);
                return Err(ArpabetError::InvalidFormat { line_number: done + 1, text: written });
            },
            ParsedLine::Entry { word, phones } => {
                map.insert(word, phones);
            },
            ParsedLine::Skipped => {},
        }
        start = end;
        done += 1;
    }
    assert(chars@.take(n as int) =~= chars@);
    Ok(())
}

/// Load a dictionary from text.
/// The format is that of [CMUdict](http://www.speech.cs.cmu.edu/cgi-bin/cmudict).
///
/// A text with a malformed line is refused with the number and the text of
/// the first such line. A text without any entry is refused as empty.
pub fn load_from_str(text: &str) -> (result: Result<Arpabet, ArpabetError>)
    ensures
        (match load(text@) {
            Loaded::Dictionary(entries) => result matches Ok(arpabet) && arpabet@ == entries,
            Loaded::EmptyFile => result matches Err(ArpabetError::EmptyFile),
            Loaded::InvalidFormat { line_number, text: line } => {
                &&& result matches Err(ArpabetError::InvalidFormat { line_number: n, text: t })
                &&& n == line_number
                &&& t@ == line
            },
        }),
{
    let mut arpabet = Arpabet::new();
    match read_lines(text, &mut arpabet) {
        Err(err) => Err(err),
        Ok(()) => {
            proof {
                arpabet.lemma_finite();
            }
            if arpabet.len() == 0 {
                assert(arpabet@.dom() =~= Set::empty());
                assert forall|word: Seq<char>| !arpabet@.contains_key(word) by {
                    assert(!arpabet@.dom().contains(word));
                }
                Err(ArpabetError::EmptyFile)
            } else {
                assert(exists|word: Seq<char>| arpabet@.contains_key(word)) by {
                    assert(arpabet@.dom().contains(arpabet@.dom().choose()));
                }
                Ok(arpabet)
            }
        },
    }
}

impl Arpabet {
    /// Load a dictionary from text, as [`load_from_str`] does.
    pub fn load_from_str(text: &str) -> (result: Result<Arpabet, ArpabetError>)
        ensures
            (match load(text@) {
                Loaded::Dictionary(entries) => result matches Ok(arpabet) && arpabet@ == entries,
                Loaded::EmptyFile => result matches Err(ArpabetError::EmptyFile),
                Loaded::InvalidFormat { line_number, text: line } => {
                    &&& result matches Err(ArpabetError::InvalidFormat { line_number: n, text: t })
                    &&& n == line_number
                    &&& t@ == line
                },
            }),
    {
        load_from_str(text)
    }
}

} // verus!
