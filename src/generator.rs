//! The dictionary index and the expansion engine.
use vstd::prelude::*;
use vstd::string::StrSliceExecFns;
use std::collections::HashMap;
use crate::random::random_below;
use crate::text::{chars_of, join, joined, to_upper, trim, trimmed, upper_char, upper_char_of, upper_of, views};

verus! {

broadcast use vstd::std_specs::hash::group_hash_axioms;

/// Index of a dictionary: for each letter, the candidate words that start
/// with it, in the order of the word list.
pub type Index = Map<char, Seq<Seq<char>>>;

/// What a line of the word list adds to the index, if anything: a line that
/// starts with `#` is a comment, and a line that is blank once trimmed adds
/// nothing. Any other line is stored trimmed, under the upper case of its
/// first character.
pub open spec fn entry_of(line: Seq<char>) -> Option<(char, Seq<char>)> {
    let t = trimmed(line);
    if line.len() > 0 && line[0] == '#' {
        None
    } else if t.len() == 0 {
        None
    } else {
        Some((upper_char_of(t[0]), t))
    }
}

/// The candidates of a letter; none where the letter is no key.
pub open spec fn candidates_in(idx: Index, c: char) -> Seq<Seq<char>> {
    if idx.contains_key(c) {
        idx[c]
    } else {
        Seq::empty()
    }
}

/// The entries that a word list adds to the index, in order.
pub open spec fn entries_of(lines: Seq<Seq<char>>) -> Seq<(char, Seq<char>)>
    decreases lines.len(),
{
    if lines.len() == 0 {
        Seq::empty()
    } else {
        let e = entries_of(lines.drop_last());
        match entry_of(lines.last()) {
            None => e,
            Some(x) => e.push(x),
        }
    }
}

/// The index that a sequence of entries builds: each word is appended to
/// the candidates of its letter.
pub open spec fn index_of_entries(entries: Seq<(char, Seq<char>)>) -> Index
    decreases entries.len(),
{
    if entries.len() == 0 {
        Map::empty()
    } else {
        let m = index_of_entries(entries.drop_last());
        let (c, w) = entries.last();
        m.insert(c, candidates_in(m, c).push(w))
    }
}

/// The index that a word list builds.
pub open spec fn index_of(lines: Seq<Seq<char>>) -> Index {
    index_of_entries(entries_of(lines))
}

/// The views of entries whose words are strings.
pub open spec fn entry_views(entries: Seq<(char, String)>) -> Seq<(char, Seq<char>)> {
    entries.map_values(|e: (char, String)| (e.0, e.1@))
}

/// The index held in a map keyed by character code.
spec fn index_by_code(m: Map<u32, Vec<String>>) -> Index {
    Map::new(|c: char| m.contains_key(c as u32), |c: char| views(m[c as u32]@))
}

/// Distinct characters have distinct codes.
proof fn lemma_code_injective(c: char, d: char)
    ensures
        (c as u32 == d as u32) == (c == d),
{
}

/// Every letter of the index has at least one candidate.
pub open spec fn nonempty_entries(idx: Index) -> bool {
    forall|c: char| #[trigger] idx.contains_key(c) ==> idx[c].len() > 0
}

/// A choice of one candidate for each letter: `picks[i]` is the position of
/// a candidate of `letters[i]`.
pub open spec fn valid_picks(idx: Index, letters: Seq<char>, picks: Seq<usize>) -> bool {
    &&& picks.len() == letters.len()
    &&& forall|i: int|
        0 <= i < letters.len() ==> #[trigger] idx.contains_key(letters[i]) && picks[i]
            < idx[letters[i]].len()
}

/// The words that the picks choose, one for each letter, in order.
pub open spec fn chosen_words(idx: Index, letters: Seq<char>, picks: Seq<usize>) -> Seq<
    Seq<char>,
> {
    Seq::new(letters.len(), |i: int| idx[letters[i]][picks[i] as int])
}

/// The letters can all be expanded, and there is at least one.
pub open spec fn resolvable(idx: Index, letters: Seq<char>) -> bool {
    &&& letters.len() > 0
    &&& forall|i: int| 0 <= i < letters.len() ==> #[trigger] idx.contains_key(letters[i])
}

/// `s` is one of the expansions of the letters: a candidate for each letter,
/// in order, joined with the delimiter.
pub open spec fn is_expansion(idx: Index, letters: Seq<char>, delim: Seq<char>, s: Seq<char>) -> bool {
    exists|picks: Seq<usize>|
        valid_picks(idx, letters, picks) && s == #[trigger] joined(
            chosen_words(idx, letters, picks),
            delim,
        )
}

/// Every letter of an index that entries build has at least one candidate.
pub proof fn lemma_index_entries_nonempty(entries: Seq<(char, Seq<char>)>)
    ensures
        nonempty_entries(index_of_entries(entries)),
    decreases entries.len(),
{
    if entries.len() > 0 {
        lemma_index_entries_nonempty(entries.drop_last());
    }
}

/// Builds expansions of terms from a dictionary index.
pub trait Generator: Send + Sync {
    /// An expansion of `term`, or `None` where it has none.
    fn generate(&self, term: &str) -> Option<String>;
}

/// A generator backed by a word list: each letter of the term becomes a word
/// of the list, drawn at random among those that start with that letter.
pub struct CompoundGenerator {
    dict: HashMap<u32, Vec<String>>,
    delimiter: String,
}

impl CompoundGenerator {
    /// The index, by letter.
    pub closed spec fn index(&self) -> Index {
        index_by_code(self.dict@)
    }

    /// The delimiter between the words of an expansion.
    pub closed spec fn delim(&self) -> Seq<char> {
        self.delimiter@
    }

    #[verifier::type_invariant]
    spec fn every_letter_has_candidates(&self) -> bool {
        nonempty_entries(self.index())
    }

    /// Builds the index from the lines of a word list. A line is a comment
    /// where its very first character is `#`, before any trimming; every
    /// other line that is not blank is stored with its surrounding white
    /// space trimmed, under the upper case of its first character.
    pub fn new(lines: &Vec<String>, delimiter: &str) -> (r: CompoundGenerator)
        ensures
            r.index() == index_of(views(lines@)),
            r.delim() == delimiter@,
    {
        let mut entries: Vec<(char, String)> = Vec::new();
        let mut i: usize = 0;
        while i < lines.len()
            invariant
                i <= lines.len(),
                entry_views(entries@) == entries_of(views(lines@.take(i as int))),
            decreases lines.len() - i,
        {
            let line = lines[i].as_str();
            let t = trim(line);
            proof {
                let seen = views(lines@.take(i + 1));
                assert(seen.drop_last() =~= views(lines@.take(i as int)));
                assert(seen.last() == line@);
            }
            let comment = !line.is_empty() && line.get_char(0) == '#';
            if !comment && !t.is_empty() {
                let c = upper_char(t.get_char(0));
                let ghost before = entries@;
                entries.push((c, t.to_owned()));
                assert(entry_views(entries@) =~= entry_views(before).push((c, t@)));
            }
            i = i + 1;
        }
        assert(lines@.take(lines.len() as int) =~= lines@);
        CompoundGenerator::from_entries(&entries, delimiter)
    }

    /// Builds the index from entries, each a letter and a word: the words
    /// of each letter are its candidates, in the order of the entries.
    pub fn from_entries(entries: &Vec<(char, String)>, delimiter: &str) -> (r: CompoundGenerator)
        ensures
            r.index() == index_of_entries(entry_views(entries@)),
            r.delim() == delimiter@,
    {
        let mut dict: HashMap<u32, Vec<String>> = HashMap::new();
        let mut i: usize = 0;
        while i < entries.len()
            invariant
                i <= entries.len(),
                index_by_code(dict@) == index_of_entries(entry_views(entries@.take(i as int))),
                nonempty_entries(index_by_code(dict@)),
            decreases entries.len() - i,
        {
            let (c, word) = &entries[i];
            let c = *c;
            let ghost before = index_by_code(dict@);
            let ghost before_map = dict@;
            proof {
                let seen = entry_views(entries@.take(i + 1));
                assert(seen.drop_last() =~= entry_views(entries@.take(i as int)));
                assert(seen.last() == (c, word@));
            }
            let key = c as u32;
            let mut words = match dict.remove(&key) {
                Some(w) => w,
                None => Vec::new(),
            };
            assert(views(words@) == candidates_in(before, c));
            words.push(word.clone());
            assert(views(words@) =~= candidates_in(before, c).push(word@));
            let ghost w = words;
            dict.insert(key, words);
            proof {
                let now = index_by_code(dict@);
                let target = before.insert(c, candidates_in(before, c).push(word@));
                assert forall|d: char| #[trigger] now.contains_key(d) == target.contains_key(d) by {
                    if d != c {
                        lemma_code_injective(c, d);
                    }
                }
                assert forall|d: char| now.contains_key(d) implies #[trigger] now[d] == target[d] by {
                    if d != c {
                        lemma_code_injective(c, d);
                    } else {
                        assert(now[d] == views(w@));
                    }
                }
                assert(now =~= target);
            }
            i = i + 1;
        }
        assert(entries@.take(entries.len() as int) =~= entries@);
        CompoundGenerator { dict, delimiter: delimiter.to_owned() }
    }

    /// The expansion of `letters` that `picks` chooses: for each letter, its
    /// candidate at the position that the pick gives, joined with the
    /// delimiter. `None` where there are no letters, where a letter has no
    /// candidates, or where a pick is out of range.
    pub fn expand(&self, letters: &Vec<char>, picks: &Vec<usize>) -> (r: Option<String>)
        ensures
            r is Some <==> letters@.len() > 0 && valid_picks(self.index(), letters@, picks@),
            r is Some ==> r->0@ == joined(
                chosen_words(self.index(), letters@, picks@),
                self.delim(),
            ),
    {
        if letters.len() == 0 || picks.len() != letters.len() {
            return None;
        }
        let ghost idx = self.index();
        let mut words: Vec<String> = Vec::new();
        let mut i: usize = 0;
        while i < letters.len()
            invariant
                idx == self.index(),
                picks.len() == letters.len(),
                i <= letters.len(),
                valid_picks(idx, letters@.take(i as int), picks@.take(i as int)),
                views(words@) == chosen_words(idx, letters@.take(i as int), picks@.take(i as int)),
            decreases letters.len() - i,
        {
            let c = letters[i];
            let k = picks[i];
            match self.dict.get(&(c as u32)) {
                None => {
                    assert(!idx.contains_key(letters@[i as int]));
                    return None;
                },
                Some(candidates) => {
                    if k >= candidates.len() {
                        assert(idx.contains_key(letters@[i as int]) && idx[letters@[i as int]].len()
                            <= picks@[i as int]);
                        assert(!valid_picks(idx, letters@, picks@));
                        return None;
                    }
                    let w = candidates[k].clone();
                    assert(w@ == idx[c][k as int]);
                    let ghost before = words@;
                    words.push(w);
                    assert(views(words@) =~= views(before).push(w@));
                },
            }
            proof {
                assert(letters@.take(i + 1) =~= letters@.take(i as int).push(c));
                assert(picks@.take(i + 1) =~= picks@.take(i as int).push(k));
                assert(chosen_words(idx, letters@.take(i + 1), picks@.take(i + 1)) =~= chosen_words(
                    idx,
                    letters@.take(i as int),
                    picks@.take(i as int),
                ).push(idx[c][k as int]));
            }
            i = i + 1;
        }
        assert(letters@.take(letters.len() as int) =~= letters@);
        assert(picks@.take(picks.len() as int) =~= picks@);
        Some(join(&words, self.delimiter.as_str()))
    }
    /// The candidates of a letter, in the order of the word list; `None`
    /// where the word list has no word for it.
    pub fn candidates(&self, letter: char) -> (r: Option<&Vec<String>>)
        ensures
            r is Some <==> self.index().contains_key(letter),
            r is Some ==> views(r->0@) == self.index()[letter],
    {
        self.dict.get(&(letter as u32))
    }
}

impl Generator for CompoundGenerator {
    /// Upper-cases the term and expands each of its letters with a candidate
    /// drawn at random. `None` where the term is empty or one of its letters
    /// has no candidates.
    fn generate(&self, term: &str) -> (r: Option<String>)
        ensures
            r is Some <==> resolvable(self.index(), upper_of(term@)),
            r is Some ==> is_expansion(self.index(), upper_of(term@), self.delim(), r->0@),
            term@.len() == 0 ==> r is None,
    {
        proof {
            use_type_invariant(self);
        }
        let upper = to_upper(term);
        let letters = chars_of(upper.as_str());
        let ghost idx = self.index();
        let mut rng = rand::rng();
        let mut picks: Vec<usize> = Vec::new();
        let mut i: usize = 0;
        while i < letters.len()
            invariant
                idx == self.index(),
                nonempty_entries(idx),
                letters@ == upper_of(term@),
                i <= letters.len(),
                valid_picks(idx, letters@.take(i as int), picks@),
            decreases letters.len() - i,
        {
            let c = letters[i];
            match self.dict.get(&(c as u32)) {
                None => {
                    assert(!resolvable(idx, letters@)) by {
                        assert(!idx.contains_key(letters@[i as int]));
                    }
                    return None;
                },
                Some(candidates) => {
                    assert(idx.contains_key(c));
                    let k = random_below(&mut rng, candidates.len());
                    picks.push(k);
                },
            }
            assert(letters@.take(i + 1) =~= letters@.take(i as int).push(c));
            i = i + 1;
        }
        assert(letters@.take(letters.len() as int) =~= letters@);
        let r = self.expand(&letters, &picks);
        proof {
            if r is Some {
                assert(joined(chosen_words(idx, letters@, picks@), self.delim()) == r->0@);
            }
        }
        r
    }
}

/// Each word of an expansion is a candidate of the letter it stands for.
pub proof fn lemma_chosen_words_are_candidates(idx: Index, letters: Seq<char>, picks: Seq<usize>)
    requires
        valid_picks(idx, letters, picks),
    ensures
        chosen_words(idx, letters, picks).len() == letters.len(),
        forall|i: int|
            0 <= i < letters.len() ==> idx[letters[i]].contains(
                #[trigger] chosen_words(idx, letters, picks)[i],
            ),
{
    assert forall|i: int| 0 <= i < letters.len() implies idx[letters[i]].contains(
        #[trigger] chosen_words(idx, letters, picks)[i],
    ) by {
        assert(idx.contains_key(letters[i]));
        assert(idx[letters[i]][picks[i] as int] == chosen_words(idx, letters, picks)[i]);
    }
}

/// `s` is `n` words joined with `delim`.
pub open spec fn has_shape(s: Seq<char>, n: nat, delim: Seq<char>) -> bool {
    exists|words: Seq<Seq<char>>| words.len() == n && s == #[trigger] joined(words, delim)
}

/// Two expansions of the same term from the same index agree in shape:
/// both succeed or both fail, and where they succeed each is one word per
/// letter joined with the same delimiter, though the words may differ.
pub proof fn lemma_expansions_share_shape(
    g: CompoundGenerator,
    term: Seq<char>,
    r1: Option<Seq<char>>,
    r2: Option<Seq<char>>,
)
    requires
        r1 is Some <==> resolvable(g.index(), upper_of(term)),
        r1 is Some ==> is_expansion(g.index(), upper_of(term), g.delim(), r1->0),
        r2 is Some <==> resolvable(g.index(), upper_of(term)),
        r2 is Some ==> is_expansion(g.index(), upper_of(term), g.delim(), r2->0),
    ensures
        r1 is Some == r2 is Some,
        r1 is Some ==> has_shape(r1->0, upper_of(term).len(), g.delim()),
        r2 is Some ==> has_shape(r2->0, upper_of(term).len(), g.delim()),
{
    let (idx, letters, delim) = (g.index(), upper_of(term), g.delim());
    if r1 is Some {
        let p = choose|p: Seq<usize>|
            valid_picks(idx, letters, p) && r1->0 == #[trigger] joined(chosen_words(idx, letters, p), delim);
        assert(chosen_words(idx, letters, p).len() == letters.len());
    }
    if r2 is Some {
        let p = choose|p: Seq<usize>|
            valid_picks(idx, letters, p) && r2->0 == #[trigger] joined(chosen_words(idx, letters, p), delim);
        assert(chosen_words(idx, letters, p).len() == letters.len());
    }
}

} // verus!
