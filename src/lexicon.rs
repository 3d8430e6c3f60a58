//! The dictionary against which guesses are checked.

use vstd::prelude::*;
use crate::text::{lines_of, lower_of, lowercase, same_text, split_lines, trim_of, trim_text};

verus! {

/// The entries that a word list gives: each of its lines, trimmed.
pub open spec fn entries_of(content: Seq<char>) -> Set<Seq<char>> {
    lines_of(content).map_values(|l: Seq<char>| trim_of(l)).to_set()
}

/// Whether a lexicon whose entries are `entries` accepts the query `q`:
/// the query is lower-cased, the entries are taken as they stand.
pub open spec fn accepts(entries: Set<Seq<char>>, q: Seq<char>) -> bool {
    entries.contains(lower_of(q))
}

/// An immutable set of dictionary words.
pub struct Lexicon {
    words: Vec<String>,
}

impl View for Lexicon {
    type V = Set<Seq<char>>;

    closed spec fn view(&self) -> Set<Seq<char>> {
        self.words@.map_values(|w: String| w@).to_set()
    }
}

impl Lexicon {
    /// Exact membership of `word` among the entries.
    pub fn contains(&self, word: &str) -> (r: bool)
        ensures
            r == self@.contains(word@),
    {
        let ghost ws = self.words@.map_values(|w: String| w@);
        let mut j: usize = 0;
        while j < self.words.len()
            invariant
                j <= self.words@.len(),
                ws == self.words@.map_values(|w: String| w@),
                forall|k: int| 0 <= k < j ==> ws[k] != word@,
            decreases self.words@.len() - j,
        {
            if same_text(self.words[j].as_str(), word) {
                assert(ws[j as int] == word@);
                assert(ws.contains(word@));
                return true;
            }
            j += 1;
        }
        proof {
            if ws.to_set().contains(word@) {
                let k = choose|k: int| 0 <= k < ws.len() && ws[k] == word@;
                assert(ws[k] != word@);
            }
        }
        false
    }
}

/// Builds the lexicon of a word list with one word per line; each line is
/// trimmed, and kept with its case.
pub fn load_word_list(file_content: &str) -> (r: Lexicon)
    ensures
        r@ == entries_of(file_content@),
{
    let lines = split_lines(file_content);
    let ghost ls = lines_of(file_content@);
    let mut words: Vec<String> = Vec::new();
    let mut i: usize = 0;
    while i < lines.len()
        invariant
            i <= lines@.len(),
            lines@.len() == ls.len(),
            ls == lines_of(file_content@),
            forall|k: int| 0 <= k < lines@.len() ==> (#[trigger] lines@[k])@ == ls[k],
            words@.len() == i,
            forall|k: int| 0 <= k < i ==> (#[trigger] words@[k])@ == trim_of(ls[k]),
        decreases lines@.len() - i,
    {
        let w = String::from_str(trim_text(lines[i]));
        words.push(w);
        i += 1;
    }
    let r = Lexicon { words };
    proof {
        assert(r.words@.map_values(|w: String| w@) == ls.map_values(|l: Seq<char>| trim_of(l)));
    }
    r
}

/// Case-insensitive lookup: `word` is lower-cased, then looked up.
pub fn is_valid_word(word: &str, word_list: &Lexicon) -> (r: bool)
    ensures
        r == accepts(word_list@, word@),
{
    let lower = lowercase(word);
    word_list.contains(lower.as_str())
}

/// Lookup sees a query only through its lower-case form: two queries with
/// the same lower-case form are both accepted or both refused.
pub proof fn lemma_lookup_ignores_case(entries: Set<Seq<char>>, q1: Seq<char>, q2: Seq<char>)
    requires
        lower_of(q1) == lower_of(q2),
    ensures
        accepts(entries, q1) == accepts(entries, q2),
{
}

} // verus!
