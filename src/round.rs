//! The state of a round and the transition that applies one player action.

use vstd::prelude::*;
use crate::letters::{LetterSet, LetterSetView};
use crate::lexicon::{accepts, is_valid_word, Lexicon};
use crate::score::{compute_score, score_points};
use crate::text::{has_char, normalize, normalized, same_text};

verus! {

/// A line that starts with `/`.
#[derive(Clone, Copy, Debug, PartialEq, Eq, Structural)]
pub enum Command {
    Quit,
    Help,
    Info,
    Rules,
    Commands,
    Warranty,
    License,
    Stats,
    Score,
    Found,
    Unknown,
}

/// What became of a guess.
#[derive(Clone, Copy, Debug, PartialEq, Eq, Structural)]
pub enum Verdict {
    TooShort,
    MissingRequiredLetter(char),
    IllegalLetter,
    AlreadyUsed,
    NotAWord,
    /// Accepted, with the points it earned.
    Accepted(usize),
}

/// What one line of input was taken for.
#[derive(Clone, Copy, Debug, PartialEq, Eq, Structural)]
pub enum Outcome {
    Command(Command),
    Guess(Verdict),
}

/// Whether a normalised line is a command.
pub open spec fn is_command(w: Seq<char>) -> bool {
    w.len() > 0 && w[0] == '/'
}

/// The command that a normalised line names.
pub open spec fn command_of(w: Seq<char>) -> Command {
    if w == "/quit"@ {
        Command::Quit
    } else if w == "/help"@ {
        Command::Help
    } else if w == "/info"@ {
        Command::Info
    } else if w == "/rules"@ {
        Command::Rules
    } else if w == "/commands"@ {
        Command::Commands
    } else if w == "/warranty"@ {
        Command::Warranty
    } else if w == "/license"@ {
        Command::License
    } else if w == "/stats"@ {
        Command::Stats
    } else if w == "/score"@ {
        Command::Score
    } else if w == "/found"@ {
        Command::Found
    } else {
        Command::Unknown
    }
}

/// Every character of `w` is one of `letters`.
pub open spec fn only_letters(w: Seq<char>, letters: Seq<char>) -> bool {
    forall|i: int| 0 <= i < w.len() ==> letters.contains(#[trigger] w[i])
}

/// The judgement of guess `w`: the first rule that fails decides.
pub open spec fn verdict_of(
    used: Seq<Seq<char>>,
    w: Seq<char>,
    ls: LetterSetView,
    lex: Set<Seq<char>>,
) -> Verdict {
    if w.len() < 4 {
        Verdict::TooShort
    } else if !w.contains(ls.required) {
        Verdict::MissingRequiredLetter(ls.required)
    } else if !only_letters(w, ls.letters) {
        Verdict::IllegalLetter
    } else if used.contains(w) {
        Verdict::AlreadyUsed
    } else if !accepts(lex, w) {
        Verdict::NotAWord
    } else {
        Verdict::Accepted(score_points(w))
    }
}

/// `a + b`, held at `usize::MAX`.
pub open spec fn sat_add(a: usize, b: usize) -> usize {
    if a + b > usize::MAX { usize::MAX } else { (a + b) as usize }
}

/// The total after a guess judged `v`.
pub open spec fn next_total(total: usize, v: Verdict) -> usize {
    match v {
        Verdict::Accepted(p) => sat_add(total, p),
        _ => total,
    }
}

/// The used words after guess `w` was judged `v`.
pub open spec fn next_used(used: Seq<Seq<char>>, w: Seq<char>, v: Verdict) -> Seq<Seq<char>> {
    if v is Accepted {
        used.push(w)
    } else {
        used
    }
}

/// The state of a round: the score, the words accepted so far in order, and
/// the judgement of the last guess (none before the first).
pub struct RoundState {
    pub total_score: usize,
    pub used_words: Vec<String>,
    pub last: Option<Verdict>,
}

impl RoundState {
    /// The accepted words.
    pub open spec fn used(&self) -> Seq<Seq<char>> {
        self.used_words@.map_values(|w: String| w@)
    }

    /// A fresh round: no score, no word.
    pub fn new() -> (r: RoundState)
        ensures
            r.total_score == 0,
            r.used() == Seq::<Seq<char>>::empty(),
            r.last is None,
    {
        let r = RoundState { total_score: 0, used_words: Vec::new(), last: None };
        assert(r.used() == Seq::<Seq<char>>::empty());
        r
    }

    /// Whether `word` was accepted already.
    pub fn is_used(&self, word: &str) -> (r: bool)
        ensures
            r == self.used().contains(word@),
    {
        let ghost ws = self.used();
        let mut j: usize = 0;
        while j < self.used_words.len()
            invariant
                j <= self.used_words@.len(),
                ws == self.used(),
                forall|k: int| 0 <= k < j ==> ws[k] != word@,
            decreases self.used_words@.len() - j,
        {
            if same_text(self.used_words[j].as_str(), word) {
                assert(ws[j as int] == word@);
                return true;
            }
            j += 1;
        }
        false
    }

    /// Judges the normalised guess `word` and, where it is accepted, records
    /// it and adds its points; a rejection changes only the last judgement.
    pub fn apply_word(&mut self, word: &str, letters: &LetterSet, lexicon: &Lexicon) -> (r: Verdict)
        ensures
            r == verdict_of(old(self).used(), word@, letters@, lexicon@),
            final(self).used() == next_used(old(self).used(), word@, r),
            final(self).total_score == next_total(old(self).total_score, r),
            final(self).last == Some(r),
            !(r is Accepted) ==> final(self).used_words == old(self).used_words,
    {
        let v = self.judge(word, letters, lexicon);
        if let Verdict::Accepted(points) = v {
            self.used_words.push(String::from_str(word));
            self.total_score = self.total_score.saturating_add(points);
            assert(self.used() == old(self).used().push(word@));
        }
        self.last = Some(v);
        v
    }

    /// The judgement of `word`, with no change to the round.
    pub fn judge(&self, word: &str, letters: &LetterSet, lexicon: &Lexicon) -> (r: Verdict)
        ensures
            r == verdict_of(self.used(), word@, letters@, lexicon@),
    {
        if word.unicode_len() < 4 {
            return Verdict::TooShort;
        }
        let required = letters.required();
        if !has_char(word, required) {
            return Verdict::MissingRequiredLetter(required);
        }
        if !uses_only(word, letters.letters()) {
            return Verdict::IllegalLetter;
        }
        if self.is_used(word) {
            return Verdict::AlreadyUsed;
        }
        if !is_valid_word(word, lexicon) {
            return Verdict::NotAWord;
        }
        Verdict::Accepted(compute_score(word))
    }

    /// Applies one line of input: it is trimmed and lower-cased; a command
    /// leaves the round as it is, anything else is judged as a guess.
    pub fn apply(&mut self, action: &str, letters: &LetterSet, lexicon: &Lexicon) -> (r: Outcome)
        ensures
            ({
                let w = normalized(action@);
                if is_command(w) {
                    &&& r == Outcome::Command(command_of(w))
                    &&& *final(self) == *old(self)
                } else {
                    let v = verdict_of(old(self).used(), w, letters@, lexicon@);
                    &&& r == Outcome::Guess(v)
                    &&& final(self).used() == next_used(old(self).used(), w, v)
                    &&& final(self).total_score == next_total(old(self).total_score, v)
                    &&& final(self).last == Some(v)
                    &&& !(v is Accepted) ==> final(self).used_words == old(self).used_words
                }
            }),
    {
        let word = normalize(action);
        if word.unicode_len() > 0 && word.get_char(0) == '/' {
            Outcome::Command(parse_command(word.as_str()))
        } else {
            Outcome::Guess(self.apply_word(word.as_str(), letters, lexicon))
        }
    }
}

/// A guess shorter than four characters changes neither the used words nor
/// the score, whatever the letters and the lexicon.
pub proof fn lemma_short_guess_keeps_state(
    used: Seq<Seq<char>>,
    total: usize,
    w: Seq<char>,
    ls: LetterSetView,
    lex: Set<Seq<char>>,
)
    requires
        w.len() < 4,
    ensures
        verdict_of(used, w, ls, lex) == Verdict::TooShort,
        next_used(used, w, verdict_of(used, w, ls, lex)) == used,
        next_total(total, verdict_of(used, w, ls, lex)) == total,
{
}

/// A rejected guess changes neither the used words nor the score.
pub proof fn lemma_rejection_keeps_state(
    used: Seq<Seq<char>>,
    total: usize,
    w: Seq<char>,
    ls: LetterSetView,
    lex: Set<Seq<char>>,
)
    requires
        !(verdict_of(used, w, ls, lex) is Accepted),
    ensures
        next_used(used, w, verdict_of(used, w, ls, lex)) == used,
        next_total(total, verdict_of(used, w, ls, lex)) == total,
{
}

/// A word that is accepted earns its score once: the same word given again
/// is refused as already used, and the score stays where the first guess
/// left it.
pub proof fn lemma_repeat_guess_refused(
    used: Seq<Seq<char>>,
    total: usize,
    w: Seq<char>,
    ls: LetterSetView,
    lex: Set<Seq<char>>,
)
    requires
        verdict_of(used, w, ls, lex) is Accepted,
    ensures
        ({
            let v1 = verdict_of(used, w, ls, lex);
            let used1 = next_used(used, w, v1);
            let total1 = next_total(total, v1);
            let v2 = verdict_of(used1, w, ls, lex);
            &&& v1 == Verdict::Accepted(score_points(w))
            &&& total1 == sat_add(total, score_points(w))
            &&& used1 == used.push(w)
            &&& v2 == Verdict::AlreadyUsed
            &&& next_used(used1, w, v2) == used1
            &&& next_total(total1, v2) == total1
        }),
{
    let used1 = used.push(w);
    assert(used1[used.len() as int] == w);
    assert(used1.contains(w));
}

/// Whether every character of `word` is one of `letters`.
pub fn uses_only(word: &str, letters: &Vec<char>) -> (r: bool)
    ensures
        r == only_letters(word@, letters@),
{
    let n = word.unicode_len();
    let mut i: usize = 0;
    while i < n
        invariant
            n == word@.len(),
            i <= n,
            forall|k: int| 0 <= k < i ==> letters@.contains(#[trigger] word@[k]),
        decreases n - i,
    {
        let c = word.get_char(i);
        let mut found = false;
        let mut j: usize = 0;
        while j < letters.len()
            invariant
                j <= letters@.len(),
                found == (exists|k: int| 0 <= k < j && letters@[k] == c),
            decreases letters@.len() - j,
        {
            if letters[j] == c {
                found = true;
            }
            j += 1;
        }
        if !found {
            assert(!letters@.contains(word@[i as int]));
            return false;
        }
        i += 1;
    }
    true
}

/// The command that the normalised line `word` names.
pub fn parse_command(word: &str) -> (r: Command)
    ensures
        r == command_of(word@),
{
    if same_text(word, "/quit") {
        Command::Quit
    } else if same_text(word, "/help") {
        Command::Help
    } else if same_text(word, "/info") {
        Command::Info
    } else if same_text(word, "/rules") {
        Command::Rules
    } else if same_text(word, "/commands") {
        Command::Commands
    } else if same_text(word, "/warranty") {
        Command::Warranty
    } else if same_text(word, "/license") {
        Command::License
    } else if same_text(word, "/stats") {
        Command::Stats
    } else if same_text(word, "/score") {
        Command::Score
    } else if same_text(word, "/found") {
        Command::Found
    } else {
        Command::Unknown
    }
}

} // verus!
