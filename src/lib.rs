//! A single-player word puzzle: seven letters, one of them required, and a
//! stream of guesses that are checked against the letters and a word list,
//! then scored.

pub mod letters;
pub mod lexicon;
pub mod round;
pub mod score;
pub mod text;

pub use letters::{chars_of, get_random_line, pick_line, GenerateError, LetterSet};
pub use lexicon::{is_valid_word, load_word_list, Lexicon};
pub use round::{parse_command, uses_only, Command, Outcome, RoundState, Verdict};
pub use score::{compute_score, count_distinct, is_pangram};
pub use text::{normalize, same_text, split_lines};
