//! The round's letters and how they are drawn from a list of candidates.

use vstd::prelude::*;
use rand::seq::SliceRandom;
use rand::Rng;
use crate::text::{lines_of, split_lines};

verus! {

/// Relies on `rand::Rng::gen_range` over `0..n` with the thread's generator:
/// an index below `n`; the range is not empty, so it does not panic.
#[verifier::external_body]
fn random_below(n: usize) -> (r: usize)
    requires
        n > 0,
    ensures
        r < n,
{
    rand::thread_rng().gen_range(0..n)
}

/// Relies on `rand::seq::SliceRandom::shuffle` with the thread's generator:
/// it only swaps elements, so the same letters remain.
#[verifier::external_body]
fn shuffle_chars(v: &mut Vec<char>)
    ensures
        final(v)@.to_multiset() == old(v)@.to_multiset(),
{
    v.shuffle(&mut rand::thread_rng())
}

/// The characters of `s`, in order.
pub fn chars_of(s: &str) -> (r: Vec<char>)
    ensures
        r@ == s@,
{
    let n = s.unicode_len();
    let mut out: Vec<char> = Vec::new();
    let mut i: usize = 0;
    while i < n
        invariant
            n == s@.len(),
            i <= n,
            out@ == s@.take(i as int),
        decreases n - i,
    {
        out.push(s.get_char(i));
        assert(s@.take(i + 1) == s@.take(i as int).push(s@[i as int]));
        i += 1;
    }
    assert(s@.take(n as int) == s@);
    out
}

/// Line `index` of `file_content`, if there is such a line.
pub fn pick_line(file_content: &str, index: usize) -> (r: Option<String>)
    ensures
        match r {
            Some(line) => index < lines_of(file_content@).len() && line@
                == lines_of(file_content@)[index as int],
            None => index >= lines_of(file_content@).len(),
        },
{
    let lines = split_lines(file_content);
    if index < lines.len() {
        Some(String::from_str(lines[index]))
    } else {
        None
    }
}

/// A line of `file_content` chosen at random; `None` where it has no line.
pub fn get_random_line(file_content: &str) -> (r: Option<String>)
    ensures
        r is None <==> lines_of(file_content@).len() == 0,
        r matches Some(line) ==> lines_of(file_content@).contains(line@),
{
    let count = split_lines(file_content).len();
    if count == 0 {
        return None;
    }
    let index = random_below(count);
    let r = pick_line(file_content, index);
    proof {
        if r is Some {
            assert(lines_of(file_content@)[index as int] == r->0@);
        }
    }
    r
}

/// What a letter set holds: its letters, in display order, and the letter
/// that every guess must contain.
pub struct LetterSetView {
    pub letters: Seq<char>,
    pub required: char,
}

/// The round's letters; the required one is the first of them.
pub struct LetterSet {
    letters: Vec<char>,
    required: char,
}

/// Why no letter set could be drawn.
#[derive(Clone, Copy, Debug, PartialEq, Eq, Structural)]
pub enum GenerateError {
    /// The candidate list has no line.
    EmptySource,
    /// The line drawn holds no character.
    EmptyLine,
}

impl View for LetterSet {
    type V = LetterSetView;

    closed spec fn view(&self) -> LetterSetView {
        LetterSetView { letters: self.letters@, required: self.required }
    }
}

impl LetterSet {
    /// The letters are not empty and the required one comes first.
    pub open spec fn wf(&self) -> bool {
        self@.letters.len() > 0 && self@.required == self@.letters[0]
    }

    /// A letter set of `letters`, whose first letter is the required one;
    /// `None` where there is no letter.
    pub fn from_letters(letters: Vec<char>) -> (r: Option<LetterSet>)
        ensures
            match r {
                Some(ls) => ls.wf() && ls@.letters == letters@,
                None => letters@.len() == 0,
            },
    {
        if letters.len() == 0 {
            None
        } else {
            let required = letters[0];
            Some(LetterSet { letters, required })
        }
    }

    /// Draws a line of `source` at random, shuffles its characters and makes
    /// the first of them the required letter.
    pub fn generate(source: &str) -> (r: Result<LetterSet, GenerateError>)
        ensures
            r == Err::<LetterSet, GenerateError>(GenerateError::EmptySource) <==> lines_of(source@).len() == 0,
            r matches Ok(ls) ==> ls.wf() && exists|k: int|
                0 <= k < lines_of(source@).len() && ls@.letters.to_multiset()
                    == (#[trigger] lines_of(source@)[k]).to_multiset(),
            r == Err::<LetterSet, GenerateError>(GenerateError::EmptyLine) ==> lines_of(source@).contains(Seq::<char>::empty()),
    {
        let line = match get_random_line(source) {
            Some(line) => line,
            None => return Err(GenerateError::EmptySource),
        };
        let mut letters = chars_of(line.as_str());
        shuffle_chars(&mut letters);
        let ghost shuffled = letters@;
        match LetterSet::from_letters(letters) {
            Some(ls) => Ok(ls),
            None => {
                proof {
                    shuffled.to_multiset_ensures();
                    line@.to_multiset_ensures();
                    assert(line@ == Seq::<char>::empty());
                }
                Err(GenerateError::EmptyLine)
            }
        }
    }

    /// The letters, in display order.
    pub fn letters(&self) -> (r: &Vec<char>)
        ensures
            r@ == self@.letters,
    {
        &self.letters
    }

    /// The letter that every guess must contain.
    pub fn required(&self) -> (r: char)
        ensures
            r == self@.required,
    {
        self.required
    }
}

} // verus!
