//! The dictionary store: words and the phonemes they are spoken with.
//!
//! A store is a finite map from words to polyphones. Words are compared
//! character by character, as they are written: a dictionary read from text
//! holds lower-case words, and whoever looks a word up writes it the same way.
//!
//! The entries stand in a list, each word once. An index from the hash of a
//! word to the places of the entries with that hash finds a word without
//! walking the list.

use std::collections::HashMap;
use vstd::prelude::*;
use vstd::std_specs::hash::group_hash_axioms;
use crate::phoneme::Phoneme;

verus! {

/// A word is a simple string containing no space characters.
pub type Word = String;

/// A polyphone is several phonemes read in order, typically as a single word.
pub type Polyphone = Vec<Phoneme>;

/// One word of a dictionary with its pronunciation.
struct Entry {
    word: String,
    phones: Vec<Phoneme>,
}

/// The map that a list of entries stands for. Where a word occurs twice, the
/// later entry counts.
spec fn map_of(entries: Seq<Entry>) -> Map<Seq<char>, Seq<Phoneme>>
    decreases entries.len(),
{
    if entries.len() == 0 {
        Map::empty()
    } else {
        map_of(entries.drop_last()).insert(entries.last().word@, entries.last().phones@)
    }
}

/// Whether the entry at `i` is the one for `word`.
spec fn holds_at(entries: Seq<Entry>, i: int, word: Seq<char>) -> bool {
    0 <= i < entries.len() && entries[i].word@ == word
}

/// Whether no word has two entries.
spec fn distinct(entries: Seq<Entry>) -> bool {
    forall|i: int, j: int|
        0 <= i < j < entries.len() ==> #[trigger] entries[i].word@ != #[trigger] entries[j].word@
}

/// The hash of a word: its characters as the digits of a number to the base
/// 31, modulo the largest prime below 2^32.
spec fn hash_of(word: Seq<char>) -> u64
    decreases word.len(),
{
    if word.len() == 0 {
        0
    } else {
        ((hash_of(word.drop_last()) * 31 + word.last() as u32) % 4294967291) as u64
    }
}

/// Whether an index lists `place` under `hash`.
spec fn listed(index: Map<u64, Vec<usize>>, hash: u64, place: usize) -> bool {
    index.contains_key(hash) && index[hash]@.contains(place)
}

/// Whether an index fits a list of entries: it lists the place of each entry
/// under the hash of the entry's word, and lists nothing else.
spec fn indexed(entries: Seq<Entry>, index: Map<u64, Vec<usize>>) -> bool {
    &&& forall|place: usize|
        place < entries.len() ==> listed(
            index,
            hash_of((#[trigger] entries[place as int]).word@),
            place,
        )
    &&& forall|hash: u64, place: usize| #[trigger]
        listed(index, hash, place) ==> place < entries.len() && hash_of(
            entries[place as int].word@,
        ) == hash
}

/// The map of a list of entries has the words of the list as its keys, and
/// no others.
proof fn lemma_map_of_keys(entries: Seq<Entry>)
    ensures
        map_of(entries).dom().finite(),
        forall|word: Seq<char>| #[trigger]
            map_of(entries).contains_key(word) <==> exists|i: int| holds_at(entries, i, word),
    decreases entries.len(),
{
    if entries.len() > 0 {
        let front = entries.drop_last();
        lemma_map_of_keys(front);
        assert forall|word: Seq<char>| #[trigger]
            map_of(entries).contains_key(word) <==> exists|i: int| holds_at(
                entries,
                i,
                word,
            ) by {
            if map_of(entries).contains_key(word) {
                if word == entries.last().word@ {
                    assert(holds_at(entries, entries.len() - 1, word));
                } else {
                    let i = choose|i: int| holds_at(front, i, word);
                    assert(holds_at(entries, i, word));
                }
            }
            if exists|i: int| holds_at(entries, i, word) {
                let i = choose|i: int| holds_at(entries, i, word);
                if i < entries.len() - 1 {
                    assert(holds_at(front, i, word));
                }
            }
        }
    }
}

/// Where no word has two entries, each entry's word is mapped to that
/// entry's phonemes, and the map has as many keys as the list has entries.
proof fn lemma_map_of_values(entries: Seq<Entry>)
    requires
        distinct(entries),
    ensures
        forall|i: int|
            0 <= i < entries.len() ==> map_of(entries).contains_key(#[trigger] entries[i].word@)
                && map_of(entries)[entries[i].word@] == entries[i].phones@,
        map_of(entries).dom().len() == entries.len(),
    decreases entries.len(),
{
    if entries.len() > 0 {
        let front = entries.drop_last();
        lemma_map_of_values(front);
        lemma_map_of_keys(front);
        assert(!map_of(front).contains_key(entries.last().word@)) by {
            if exists|i: int| holds_at(front, i, entries.last().word@) {
                let i = choose|i: int| holds_at(front, i, entries.last().word@);
                assert(entries[i].word@ == entries[entries.len() - 1].word@);
            }
        }
        assert forall|i: int| 0 <= i < entries.len() implies map_of(entries).contains_key(
            #[trigger] entries[i].word@,
        ) && map_of(entries)[entries[i].word@] == entries[i].phones@ by {
            if i < entries.len() - 1 {
                assert(front[i] == entries[i]);
                assert(entries[i].word@ != entries[entries.len() - 1].word@);
            }
        }
    }
}

/// Adding an entry for a word adds the word to the map, or replaces what it
/// was mapped to.
proof fn lemma_map_of_push(entries: Seq<Entry>, entry: Entry)
    ensures
        map_of(entries.push(entry)) == map_of(entries).insert(entry.word@, entry.phones@),
        distinct(entries) && !map_of(entries).contains_key(entry.word@) ==> distinct(
            entries.push(entry),
        ),
{
    let longer = entries.push(entry);
    assert(longer.drop_last() =~= entries);
    lemma_map_of_keys(entries);
    if distinct(entries) && !map_of(entries).contains_key(entry.word@) {
        assert forall|i: int, j: int| 0 <= i < j < longer.len() implies #[trigger] longer[i].word@
            != #[trigger] longer[j].word@ by {
            if j == entries.len() {
                assert(holds_at(entries, i, longer[i].word@));
            }
        }
    }
}

/// Taking the entry at `i` out of a list, by moving the last entry into its
/// place, takes its word out of the map and leaves the rest as it was.
proof fn lemma_map_of_swap_remove(entries: Seq<Entry>, i: int)
    requires
        distinct(entries),
        0 <= i < entries.len(),
    ensures
        distinct(entries.update(i, entries.last()).drop_last()),
        map_of(entries.update(i, entries.last()).drop_last()) == map_of(entries).remove(
            entries[i].word@,
        ),
{
    let rest = entries.update(i, entries.last()).drop_last();
    let last = entries.len() - 1;
    assert forall|a: int, b: int| 0 <= a < b < rest.len() implies #[trigger] rest[a].word@
        != #[trigger] rest[b].word@ by {
        let a0 = if a == i {
            last
        } else {
            a
        };
        let b0 = if b == i {
            last
        } else {
            b
        };
        assert(rest[a] == entries[a0] && rest[b] == entries[b0]);
        if a0 < b0 {
            assert(entries[a0].word@ != entries[b0].word@);
        } else {
            assert(entries[b0].word@ != entries[a0].word@);
        }
    }
    lemma_map_of_keys(entries);
    lemma_map_of_keys(rest);
    lemma_map_of_values(entries);
    lemma_map_of_values(rest);
    let removed = map_of(entries).remove(entries[i].word@);
    assert forall|word: Seq<char>| map_of(rest).contains_key(word) <==> removed.contains_key(
        word,
    ) by {
        if map_of(rest).contains_key(word) {
            let a = choose|a: int| holds_at(rest, a, word);
            let a0 = if a == i {
                last
            } else {
                a
            };
            assert(holds_at(entries, a0, word));
            if a0 < i {
                assert(entries[a0].word@ != entries[i].word@);
            } else {
                assert(entries[i].word@ != entries[a0].word@);
            }
        }
        if removed.contains_key(word) {
            let a0 = choose|a0: int| holds_at(entries, a0, word);
            let a = if a0 == last {
                i
            } else {
                a0
            };
            assert(holds_at(rest, a, word));
        }
    }
    assert forall|word: Seq<char>| map_of(rest).contains_key(word) implies map_of(rest)[word]
        == removed[word] by {
        let a = choose|a: int| holds_at(rest, a, word);
        let a0 = if a == i {
            last
        } else {
            a
        };
        assert(rest[a] == entries[a0]);
        assert(map_of(rest)[rest[a].word@] == rest[a].phones@);
        assert(map_of(entries)[entries[a0].word@] == entries[a0].phones@);
    }
    assert(map_of(rest) =~= removed);
}

/// An index that fits a list of entries still fits once the entry at `gone`
/// has been taken out, the last entry has moved into its place, and the index
/// lists the moved entry at its new place and the taken one nowhere.
proof fn lemma_index_after_swap_remove(
    entries: Seq<Entry>,
    before: Map<u64, Vec<usize>>,
    after: Map<u64, Vec<usize>>,
    gone: usize,
)
    requires
        indexed(entries, before),
        gone < entries.len() <= usize::MAX,
        forall|hash: u64, place: usize|
            hash == hash_of(entries[gone as int].word@) || hash == hash_of(entries.last().word@)
                ==> (listed(after, hash, place) <==> mended(
                before,
                hash,
                place,
                gone,
                (entries.len() - 1) as usize,
            )),
        forall|hash: u64, place: usize|
            hash != hash_of(entries[gone as int].word@) && hash != hash_of(entries.last().word@)
                ==> (listed(after, hash, place) <==> listed(before, hash, place)),
    ensures
        indexed(entries.update(gone as int, entries.last()).drop_last(), after),
{
    let last = (entries.len() - 1) as usize;
    let rest = entries.update(gone as int, entries.last()).drop_last();
    assert forall|hash: u64, place: usize|
        listed(after, hash, place) <==> mended(before, hash, place, gone, last) by {
        if hash != hash_of(entries[gone as int].word@) && hash != hash_of(entries.last().word@) {
            assert(listed(after, hash, place) <==> listed(before, hash, place));
            if listed(before, hash, gone) {
                assert(hash_of(entries[gone as int].word@) == hash);
            }
            if listed(before, hash, last) {
                assert(hash_of(entries[last as int].word@) == hash);
            }
        }
    }
    assert forall|place: usize| place < rest.len() implies listed(
        after,
        hash_of((#[trigger] rest[place as int]).word@),
        place,
    ) by {
        if place == gone {
            assert(rest[place as int] == entries[last as int]);
            assert(listed(before, hash_of(entries[last as int].word@), last));
            assert(mended(before, hash_of(entries[last as int].word@), place, gone, last));
        } else {
            assert(rest[place as int] == entries[place as int]);
            assert(listed(before, hash_of(entries[place as int].word@), place));
            assert(mended(before, hash_of(entries[place as int].word@), place, gone, last));
        }
    }
    assert forall|hash: u64, place: usize| #[trigger] listed(after, hash, place) implies place
        < rest.len() && hash_of(rest[place as int].word@) == hash by {
        assert(mended(before, hash, place, gone, last));
        if place == gone {
            assert(listed(before, hash, last));
        } else {
            assert(listed(before, hash, place));
        }
    }
}

/// Whether an index lists `place` under `hash` once the entry at `gone` has
/// been taken out and the entry at `last` has moved into its place.
spec fn mended(
    index: Map<u64, Vec<usize>>,
    hash: u64,
    place: usize,
    gone: usize,
    last: usize,
) -> bool {
    if place == gone {
        gone != last && listed(index, hash, last)
    } else {
        place != last && listed(index, hash, place)
    }
}

/// Whether `place` is listed once the places in `seen` have been mended: the
/// place `gone` stands for `last`, and neither of the two for itself.
spec fn kept(seen: Seq<usize>, place: usize, gone: usize, last: usize) -> bool {
    if place == gone {
        gone != last && seen.contains(last)
    } else {
        place != last && seen.contains(place)
    }
}

/// A list with one more item holds that item and what it held before.
proof fn lemma_push_contains(list: Seq<usize>, item: usize, x: usize)
    ensures
        list.push(item).contains(x) <==> list.contains(x) || x == item,
{
    if list.contains(x) {
        let k = choose|k: int| 0 <= k < list.len() && list[k] == x;
        assert(list.push(item)[k] == x);
    }
    if x == item {
        assert(list.push(item)[list.len() as int] == x);
    }
}

/// The hash of a word.
fn hash(word: &str) -> (hash: u64)
    ensures
        hash == hash_of(word@),
{
    let mut hash: u64 = 0;
    for c in it: word.chars()
        invariant
            it.seq() == word@,
            hash == hash_of(word@.take(it.index())),
            hash < 4294967291,
    {
        assert(word@.take(it.index() + 1).drop_last() =~= word@.take(it.index()));
        hash = (hash * 31 + (c as u32) as u64) % 4294967291;
    }
    assert(word@.take(word@.len() as int) =~= word@);
    hash
}

/// Where the entry for `word` stands in a list with its index, if there is
/// one.
fn find(entries: &Vec<Entry>, index: &HashMap<u64, Vec<usize>>, word: &str) -> (found: Option<
    usize,
>)
    requires
        indexed(entries@, index@),
    ensures
        (match found {
            Some(i) => holds_at(entries@, i as int, word@),
            None => forall|i: int| !holds_at(entries@, i, word@),
        }),
{
    broadcast use group_hash_axioms;

    let key = word.to_owned();
    let hash = hash(word);
    match index.get(&hash) {
        Some(places) => {
            let mut j: usize = 0;
            while j < places.len()
                invariant
                    j <= places.len(),
                    key@ == word@,
                    index@.contains_key(hash) && index@[hash] == *places,
                    indexed(entries@, index@),
                    forall|k: int| 0 <= k < j ==> !holds_at(entries@, places@[k] as int, word@),
                decreases places.len() - j,
            {
                let place = places[j];
                assert(listed(index@, hash, place)) by {
                    assert(places@[j as int] == place);
                }
                if entries[place].word == key {
                    return Some(place);
                }
                j += 1;
            }
            assert forall|i: int| !holds_at(entries@, i, word@) by {
                if holds_at(entries@, i, word@) {
                    assert(entries@.len() == entries.len());
                    let place = i as usize;
                    assert(entries@[place as int].word@ == word@);
                    assert(listed(index@, hash, place));
                    let k = choose|k: int| 0 <= k < places@.len() && places@[k] == place;
                    assert(!holds_at(entries@, places@[k] as int, word@));
                }
            }
            None
        },
        None => {
            assert forall|i: int| !holds_at(entries@, i, word@) by {
                if holds_at(entries@, i, word@) {
                    assert(entries@.len() == entries.len());
                    let place = i as usize;
                    assert(entries@[place as int].word@ == word@);
                    assert(listed(index@, hash, place));
                }
            }
            None
        },
    }
}

/// Mends what an index lists under `hash` once the entry at `gone` has been
/// taken out and the entry at `last` has moved into its place. What it lists
/// under other hashes stays.
fn mend(index: &mut HashMap<u64, Vec<usize>>, hash: u64, gone: usize, last: usize)
    ensures
        forall|place: usize|
            listed(final(index)@, hash, place) <==> mended(old(index)@, hash, place, gone, last),
        forall|other: u64, place: usize|
            other != hash ==> (listed(final(index)@, other, place) <==> listed(
                old(index)@,
                other,
                place,
            )),
{
    broadcast use group_hash_axioms;

    match index.remove(&hash) {
        Some(places) => {
            assert(old(index)@.contains_key(hash) && old(index)@[hash] == places);
            let mut mended_places: Vec<usize> = Vec::new();
            let mut j: usize = 0;
            while j < places.len()
                invariant
                    j <= places.len(),
                    forall|place: usize|
                        mended_places@.contains(place) <==> kept(
                            places@.take(j as int),
                            place,
                            gone,
                            last,
                        ),
                decreases places.len() - j,
            {
                let place = places[j];
                let ghost seen = places@.take(j as int);
                let ghost before = mended_places@;
                assert(places@.take(j + 1) =~= seen.push(place));
                if place == gone {
                } else if place == last {
                    mended_places.push(gone);
                } else {
                    mended_places.push(place);
                }
                proof {
                    assert forall|x: usize|
                        mended_places@.contains(x) <==> kept(
                            seen.push(place),
                            x,
                            gone,
                            last,
                        ) by {
                        assert(before.contains(x) <==> kept(seen, x, gone, last));
                        lemma_push_contains(seen, place, x);
                        lemma_push_contains(seen, place, last);
                        lemma_push_contains(before, gone, x);
                        lemma_push_contains(before, place, x);
                    }
                }
                j += 1;
            }
            assert(places@.take(places.len() as int) =~= places@);
            let ghost mended_list = mended_places@;
            if mended_places.len() > 0 {
                index.insert(hash, mended_places);
            }
            assert forall|place: usize|
                listed(index@, hash, place) <==> mended(old(index)@, hash, place, gone, last) by {
                assert(mended_list.contains(place) <==> kept(places@, place, gone, last));
                assert(listed(index@, hash, place) <==> mended_list.contains(place));
                assert(listed(old(index)@, hash, place) <==> places@.contains(place));
                assert(listed(old(index)@, hash, last) <==> places@.contains(last));
            }
        },
        None => {
            assert forall|place: usize|
                listed(index@, hash, place) <==> mended(old(index)@, hash, place, gone, last) by {
                assert(!old(index)@.contains_key(hash));
            }
        },
    }
}

/// A copy of a polyphone.
fn copy_phones(phones: &Vec<Phoneme>) -> (copy: Vec<Phoneme>)
    ensures
        copy@ == phones@,
{
    let mut copy: Vec<Phoneme> = Vec::with_capacity(phones.len());
    let mut i: usize = 0;
    while i < phones.len()
        invariant
            i <= phones.len(),
            copy@ == phones@.take(i as int),
        decreases phones.len() - i,
    {
        copy.push(phones[i]);
        i += 1;
        assert(phones@.take(i as int) =~= phones@.take(i - 1).push(phones@[i - 1]));
    }
    assert(phones@.take(phones.len() as int) =~= phones@);
    copy
}

/// The map that a list of words with their phonemes stands for. Where a word
/// occurs twice, the later pair counts.
pub open spec fn map_of_pairs(pairs: Seq<(Seq<char>, Seq<Phoneme>)>) -> Map<
    Seq<char>,
    Seq<Phoneme>,
>
    decreases pairs.len(),
{
    if pairs.len() == 0 {
        Map::empty()
    } else {
        map_of_pairs(pairs.drop_last()).insert(pairs.last().0, pairs.last().1)
    }
}

/// A list of words with their polyphones, each taken by its characters and
/// its phonemes.
pub open spec fn views_of(pairs: Seq<(Word, Polyphone)>) -> Seq<(Seq<char>, Seq<Phoneme>)> {
    Seq::new(pairs.len(), |i: int| (pairs[i].0@, pairs[i].1@))
}

/// A table of `phf`, built when the program is compiled. Nothing of its
/// inside is known here.
#[verifier::external_type_specification]
#[verifier::external_body]
#[verifier::reject_recursive_types(K)]
#[verifier::reject_recursive_types(V)]
pub struct ExPhfMap<K: 'static, V: 'static>(phf::Map<K, V>);

/// The entries of a table of words and phonemes, in the order in which the
/// table hands them out.
pub uninterp spec fn table_entries(table: phf::Map<&'static str, &'static [Phoneme]>) -> Seq<
    (Seq<char>, Seq<Phoneme>),
>;

/// `phf::Map::entries` walks the table's entries in an arbitrary but fixed
/// order. This copies what it hands out, entry by entry: each key into a
/// `String`, each slice of phonemes into a `Vec`.
#[verifier::external_body]
fn entries_of_table(table: &phf::Map<&'static str, &'static [Phoneme]>) -> (pairs: Vec<
    (Word, Polyphone),
>)
    ensures
        views_of(pairs@) == table_entries(*table),
{
    table.entries().map(|(word, phones)| (word.to_string(), phones.to_vec())).collect()
}

/// Removing a word that a dictionary does not hold changes nothing, its size
/// included, and removing a word twice leaves what removing it once leaves.
pub proof fn lemma_remove_idempotent(dictionary: Map<Seq<char>, Seq<Phoneme>>, word: Seq<char>)
    ensures
        !dictionary.contains_key(word) ==> dictionary.remove(word) == dictionary
            && dictionary.remove(word).len() == dictionary.len(),
        !dictionary.remove(word).contains_key(word),
        dictionary.remove(word).remove(word) == dictionary.remove(word),
{
    if !dictionary.contains_key(word) {
        assert(dictionary.remove(word) =~= dictionary);
    }
    assert(dictionary.remove(word).remove(word) =~= dictionary.remove(word));
}

/// Where two dictionaries are combined, a word of the second has the
/// phonemes of the second, a word of the first alone those of the first, and
/// no other word is there.
pub proof fn lemma_combine_prefers_other(
    first: Map<Seq<char>, Seq<Phoneme>>,
    second: Map<Seq<char>, Seq<Phoneme>>,
    word: Seq<char>,
)
    ensures
        first.union_prefer_right(second).contains_key(word) <==> first.contains_key(word)
            || second.contains_key(word),
        second.contains_key(word) ==> first.union_prefer_right(second)[word] == second[word],
        first.contains_key(word) && !second.contains_key(word) ==> first.union_prefer_right(
            second,
        )[word] == first[word],
{
}

/// A dictionary that contains mappings of words to polyphones.
pub struct Arpabet {
    /// The entries of the dictionary, no two of them for the same word.
    /// eg. 'jungle' -> [JH, AH1, NG, G, AH0, L]
    entries: Vec<Entry>,
    /// For the hash of each word, the places of the entries with that hash.
    index: HashMap<u64, Vec<usize>>,
}

impl View for Arpabet {
    type V = Map<Seq<char>, Seq<Phoneme>>;

    /// The dictionary as a map from each word to its phonemes.
    closed spec fn view(&self) -> Self::V {
        map_of(self.entries@)
    }
}

impl Arpabet {
    /// No word has two entries, and the index fits the entries.
    #[verifier::type_invariant]
    closed spec fn well_formed(&self) -> bool {
        distinct(self.entries@) && indexed(self.entries@, self.index@)
    }

    /// A dictionary holds finitely many words.
    pub proof fn lemma_finite(&self)
        ensures
            self@.dom().finite(),
    {
        lemma_map_of_keys(self.entries@);
    }

    /// Create an empty Arpabet.
    pub fn new() -> (arpabet: Arpabet)
        ensures
            arpabet@ == Map::<Seq<char>, Seq<Phoneme>>::empty(),
    {
        Arpabet { entries: Vec::new(), index: HashMap::new() }
    }

    /// Create an Arpabet from a list of words with their polyphones.
    /// Consumes the list. Where a word occurs twice, the later pair counts.
    pub fn from_map(map: Vec<(Word, Polyphone)>) -> (arpabet: Arpabet)
        ensures
            arpabet@ == map_of_pairs(views_of(map@)),
    {
        let mut arpabet = Arpabet::new();
        let ghost pairs = views_of(map@);
        assert(pairs.take(0) =~= Seq::empty());
        for pair in it: map
            invariant
                pairs == views_of(it.seq()),
                arpabet@ == map_of_pairs(pairs.take(it.index())),
        {
            let (word, phones) = pair;
            proof {
                assert(pairs.take(it.index() + 1).drop_last() =~= pairs.take(it.index()));
                assert(pairs.take(it.index() + 1).last() == (word@, phones@));
            }
            arpabet.insert(word, phones);
        }
        assert(pairs.take(pairs.len() as int) =~= pairs);
        arpabet
    }

    /// Create an Arpabet from a table of `phf`.
    /// The table stays as it is; its entries are copied into a dictionary of
    /// their own, in the order in which the table hands them out.
    pub fn from_phf_map(map: &phf::Map<&'static str, &'static [Phoneme]>) -> (arpabet: Arpabet)
        ensures
            arpabet@ == map_of_pairs(table_entries(*map)),
    {
        Arpabet::from_map(entries_of_table(map))
    }

    /// Moves the entries and the index out and leaves the dictionary empty.
    fn take_parts(&mut self) -> (parts: (Vec<Entry>, HashMap<u64, Vec<usize>>))
        ensures
            parts.0 == old(self).entries,
            parts.1 == old(self).index,
            final(self).entries@.len() == 0,
    {
        let mut taken = Arpabet { entries: Vec::new(), index: HashMap::new() };
        std::mem::swap(self, &mut taken);
        let Arpabet { entries, index } = taken;
        (entries, index)
    }

    /// Where the entry for `word` stands, if there is one.
    fn position(&self, word: &str) -> (found: Option<usize>)
        ensures
            (match found {
                Some(i) => holds_at(self.entries@, i as int, word@),
                None => !self@.contains_key(word@),
            }),
    {
        proof {
            use_type_invariant(self);
            lemma_map_of_keys(self.entries@);
        }
        find(&self.entries, &self.index, word)
    }

    /// Get a polyphone from the dictionary.
    pub fn get_polyphone(&self, word: &str) -> (found: Option<Polyphone>)
        ensures
            (match found {
                Some(phones) => self@.contains_key(word@) && phones@ == self@[word@],
                None => !self@.contains_key(word@),
            }),
    {
        match self.get_polyphone_ref(word) {
            Some(phones) => Some(copy_phones(phones)),
            None => None,
        }
    }

    /// Get a polyphone from the dictionary.
    pub fn get_polyphone_ref(&self, word: &str) -> (found: Option<&Polyphone>)
        ensures
            (match found {
                Some(phones) => self@.contains_key(word@) && phones@ == self@[word@],
                None => !self@.contains_key(word@),
            }),
    {
        proof {
            use_type_invariant(self);
            lemma_map_of_values(self.entries@);
        }
        match self.position(word) {
            Some(i) => Some(&self.entries[i].phones),
            None => None,
        }
    }

    /// Get a polyphone from the dictionary, each phoneme as its token.
    pub fn get_polyphone_str(&self, word: &str) -> (found: Option<Vec<&'static str>>)
        ensures
            (match found {
                Some(tokens) => self@.contains_key(word@) && tokens@.len() == self@[word@].len()
                    && forall|i: int|
                    0 <= i < tokens@.len() ==> (#[trigger] tokens@[i])@ == self@[word@][i].token(),
                None => !self@.contains_key(word@),
            }),
    {
        match self.get_polyphone_ref(word) {
            Some(phones) => {
                let mut tokens: Vec<&'static str> = Vec::with_capacity(phones.len());
                let mut i: usize = 0;
                while i < phones.len()
                    invariant
                        i <= phones.len(),
                        tokens@.len() == i,
                        forall|k: int|
                            0 <= k < i ==> (#[trigger] tokens@[k])@ == phones@[k].token(),
                    decreases phones.len() - i,
                {
                    tokens.push(phones[i].to_str());
                    i += 1;
                }
                Some(tokens)
            },
            None => None,
        }
    }

    /// Combine two Arpabets and return the result.
    /// Items in the second Arpabet take precedence.
    pub fn combine(&self, other: &Arpabet) -> (combined: Arpabet)
        ensures
            combined@ == self@.union_prefer_right(other@),
    {
        let mut combined = self.clone();
        combined.merge_from(other);
        combined
    }

    /// Merge the supplied Arpabet into the current one.
    /// Items in the supplied Arpabet override existing entries
    /// should they already exist.
    pub fn merge_from(&mut self, other: &Arpabet)
        ensures
            final(self)@ == old(self)@.union_prefer_right(other@),
    {
        proof {
            use_type_invariant(other);
            lemma_map_of_keys(other.entries@);
            lemma_map_of_values(other.entries@);
        }
        let mut i: usize = 0;
        while i < other.entries.len()
            invariant
                i <= other.entries.len(),
                self@ == old(self)@.union_prefer_right(map_of(other.entries@.take(i as int))),
            decreases other.entries.len() - i,
        {
            let word = other.entries[i].word.clone();
            let phones = copy_phones(&other.entries[i].phones);
            proof {
                let before = other.entries@.take(i as int);
                let after = other.entries@.take(i + 1);
                assert(after.drop_last() =~= before);
                assert(after.last() == other.entries@[i as int]);
                assert(old(self)@.union_prefer_right(map_of(before)).insert(word@, phones@)
                    =~= old(self)@.union_prefer_right(map_of(after)));
            }
            self.insert(word, phones);
            i += 1;
        }
        assert(other.entries@.take(other.entries.len() as int) =~= other.entries@);
    }

    /// Insert an entry into the Arpabet. If the entry is already present,
    /// replace it and return the old value.
    pub fn insert(&mut self, key: Word, value: Polyphone) -> (previous: Option<Polyphone>)
        ensures
            final(self)@ == old(self)@.insert(key@, value@),
            (match previous {
                Some(phones) => old(self)@.contains_key(key@) && phones@ == old(self)@[key@],
                None => !old(self)@.contains_key(key@),
            }),
    {
        let previous = self.remove(key.as_str());
        proof {
            use_type_invariant(&*self);
            lemma_map_of_push(self.entries@, Entry { word: key, phones: value });
            assert(old(self)@.remove(key@).insert(key@, value@) =~= old(self)@.insert(
                key@,
                value@,
            ));
        }
        let hash = hash(key.as_str());
        let (mut entries, mut index) = self.take_parts();
        let place = entries.len();
        let ghost before = entries@;
        let ghost listing = index@;
        entries.push(Entry { word: key, phones: value });
        let mut places = match index.remove(&hash) {
            Some(places) => places,
            None => Vec::new(),
        };
        let ghost known = places@;
        places.push(place);
        index.insert(hash, places);
        proof {
            assert forall|at: usize| at < entries@.len() implies listed(
                index@,
                hash_of((#[trigger] entries@[at as int]).word@),
                at,
            ) by {
                if at < place {
                    assert(entries@[at as int] == before[at as int]);
                    let under = hash_of(before[at as int].word@);
                    assert(listed(listing, under, at));
                    if under == hash {
                        let j = choose|j: int| 0 <= j < known.len() && known[j] == at;
                        assert(places@[j] == at);
                    }
                } else {
                    assert(places@[known.len() as int] == place);
                }
            }
            assert forall|under: u64, at: usize| #[trigger]
                listed(index@, under, at) implies at < entries@.len() && hash_of(
                entries@[at as int].word@,
            ) == under by {
                if under == hash {
                    let j = choose|j: int| 0 <= j < places@.len() && places@[j] == at;
                    if j < known.len() {
                        assert(known[j] == at);
                        assert(listed(listing, under, at));
                    }
                } else {
                    assert(listed(listing, under, at));
                }
            }
        }
        *self = Arpabet { entries, index };
        previous
    }

    /// Remove an entry from the arpabet. If it is present, it will be returned.
    pub fn remove(&mut self, key: &str) -> (removed: Option<Polyphone>)
        ensures
            final(self)@ == old(self)@.remove(key@),
            (match removed {
                Some(phones) => old(self)@.contains_key(key@) && phones@ == old(self)@[key@],
                None => !old(self)@.contains_key(key@),
            }),
    {
        proof {
            use_type_invariant(&*self);
            lemma_map_of_keys(self.entries@);
            lemma_map_of_values(self.entries@);
        }
        match self.position(key) {
            Some(i) => {
                proof {
                    lemma_map_of_swap_remove(self.entries@, i as int);
                }
                let (mut entries, mut index) = self.take_parts();
                let last = entries.len() - 1;
                let gone = hash(entries[i].word.as_str());
                let moved = hash(entries[last].word.as_str());
                let ghost before = entries@;
                let ghost listing = index@;
                let entry = entries.swap_remove(i);
                mend(&mut index, gone, i, last);
                let ghost partly = index@;
                if moved != gone {
                    mend(&mut index, moved, i, last);
                    proof {
                        assert forall|place: usize|
                            listed(index@, moved, place) <==> mended(
                                listing,
                                moved,
                                place,
                                i,
                                last,
                            ) by {
                            assert(mended(partly, moved, place, i, last) <==> mended(
                                listing,
                                moved,
                                place,
                                i,
                                last,
                            ));
                        }
                    }
                }
                proof {
                    assert(before.last() == before[last as int]);
                    lemma_index_after_swap_remove(before, listing, index@, i);
                }
                *self = Arpabet { entries, index };
                Some(entry.phones)
            },
            None => {
                assert(self@.remove(key@) =~= self@);
                None
            },
        }
    }

    /// Return the words of the dictionary, each once, in no particular order.
    pub fn keys(&self) -> (words: Vec<Word>)
        ensures
            words@.len() == self@.len(),
            forall|i: int| 0 <= i < words@.len() ==> self@.contains_key(#[trigger] words@[i]@),
            forall|i: int, j: int|
                0 <= i < j < words@.len() ==> #[trigger] words@[i]@ != #[trigger] words@[j]@,
            forall|word: Seq<char>|
                self@.contains_key(word) ==> exists|i: int|
                    0 <= i < words@.len() && #[trigger] words@[i]@ == word,
    {
        proof {
            use_type_invariant(self);
            lemma_map_of_keys(self.entries@);
            lemma_map_of_values(self.entries@);
        }
        let mut words: Vec<Word> = Vec::with_capacity(self.entries.len());
        let mut i: usize = 0;
        while i < self.entries.len()
            invariant
                i <= self.entries.len(),
                words@.len() == i,
                forall|k: int| 0 <= k < i ==> (#[trigger] words@[k])@ == self.entries@[k].word@,
            decreases self.entries.len() - i,
        {
            words.push(self.entries[i].word.clone());
            i += 1;
        }
        proof {
            assert forall|word: Seq<char>| self@.contains_key(word) implies exists|i: int|
                0 <= i < words@.len() && #[trigger] words@[i]@ == word by {
                let k = choose|k: int| holds_at(self.entries@, k, word);
                assert(words@[k]@ == word);
            }
        }
        words
    }

    /// Reports the number of entries in the arpabet.
    pub fn len(&self) -> (count: usize)
        ensures
            count == self@.len(),
    {
        proof {
            use_type_invariant(self);
            lemma_map_of_values(self.entries@);
        }
        self.entries.len()
    }
}

impl Clone for Arpabet {
    /// A dictionary of its own with the same words and phonemes.
    fn clone(&self) -> (copy: Arpabet)
        ensures
            copy@ == self@,
    {
        let mut copy = Arpabet::new();
        let mut i: usize = 0;
        while i < self.entries.len()
            invariant
                i <= self.entries.len(),
                copy@ == map_of(self.entries@.take(i as int)),
            decreases self.entries.len() - i,
        {
            let word = self.entries[i].word.clone();
            let phones = copy_phones(&self.entries[i].phones);
            proof {
                assert(self.entries@.take(i + 1).drop_last() =~= self.entries@.take(i as int));
            }
            copy.insert(word, phones);
            i += 1;
        }
        assert(self.entries@.take(self.entries.len() as int) =~= self.entries@);
        copy
    }
}

impl Default for Arpabet {
    /// The empty dictionary.
    fn default() -> (arpabet: Arpabet)
        ensures
            arpabet@ == Map::<Seq<char>, Seq<Phoneme>>::empty(),
    {
        Arpabet::new()
    }
}

} // verus!
