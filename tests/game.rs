use libre_bee::{
    compute_score, count_distinct, get_random_line, is_pangram, is_valid_word, load_word_list,
    normalize, parse_command, pick_line, same_text, split_lines, uses_only, Command,
    GenerateError, LetterSet, Outcome, RoundState, Verdict,
};

const WORD_LIST: &str = "apple\nface\nhello\nabcdefg\nworld\n";

fn abcdefg() -> LetterSet {
    LetterSet::from_letters(vec!['a', 'b', 'c', 'd', 'e', 'f', 'g']).unwrap()
}

#[test]
fn test_compute_score_pangram() {
    let word = "abcdefg";
    let score = compute_score(word);
    assert_eq!(score, 7 + word.len());
}

#[test]
fn test_compute_score_normal() {
    let word = "abcd";
    let score = compute_score(word);
    assert_eq!(score, 1);
}

#[test]
fn test_is_valid_word() {
    let word_list = load_word_list(WORD_LIST);
    let word = "hello";
    assert!(is_valid_word(word, &word_list));
}

#[test]
fn repeated_letters_earn_no_bonus() {
    assert_eq!(count_distinct("aabbccd"), 4);
    assert!(!is_pangram("aabbccd"));
    assert_eq!(compute_score("aabbccd"), 7);
}

#[test]
fn plain_words_score_their_length() {
    assert_eq!(compute_score(""), 0);
    assert_eq!(compute_score("abc"), 3);
    assert_eq!(compute_score("abcde"), 5);
    assert_eq!(compute_score("abcdefgh"), 8);
    assert_eq!(compute_score("aaaaaaaaaa"), 10);
}

#[test]
fn long_pangram_scores_length_plus_bonus() {
    assert!(is_pangram("abcdefga"));
    assert_eq!(compute_score("abcdefga"), 15);
}

#[test]
fn lookup_ignores_case_of_query() {
    let lex = load_word_list(WORD_LIST);
    assert!(is_valid_word("HELLO", &lex));
    assert!(is_valid_word("HeLLo", &lex));
    assert!(!is_valid_word("hellos", &lex));
}

#[test]
fn entries_are_trimmed_and_keep_case() {
    let lex = load_word_list("  apple \r\nBanana\n\tcherry");
    assert!(lex.contains("apple"));
    assert!(lex.contains("Banana"));
    assert!(lex.contains("cherry"));
    assert!(!lex.contains("banana"));
    assert!(!is_valid_word("banana", &lex));
    assert!(!lex.contains(""));
}

#[test]
fn empty_word_list_accepts_nothing() {
    let lex = load_word_list("");
    assert!(!is_valid_word("hello", &lex));
}

#[test]
fn lines_split_at_newlines() {
    let v = split_lines("a\r\nb\n");
    assert_eq!(v, vec!["a", "b"]);
    let v = split_lines("a\n\nb");
    assert_eq!(v, vec!["a", "", "b"]);
    let v = split_lines("");
    assert!(v.is_empty());
    let v = split_lines("\n");
    assert_eq!(v, vec![""]);
    let v = split_lines("x\ry");
    assert_eq!(v, vec!["x\ry"]);
}

#[test]
fn text_comparison() {
    assert!(same_text("abc", "abc"));
    assert!(!same_text("abc", "abd"));
    assert!(!same_text("abc", "ab"));
}

#[test]
fn normalize_trims_and_lowers() {
    assert_eq!(normalize("  HeLLo \n"), "hello");
    assert_eq!(normalize("/QUIT"), "/quit");
}

#[test]
fn pick_line_by_index() {
    assert_eq!(pick_line("one\ntwo\nthree", 1), Some("two".to_string()));
    assert_eq!(pick_line("one\ntwo\nthree", 3), None);
    assert_eq!(pick_line("", 0), None);
}

#[test]
fn random_line_is_one_of_the_lines() {
    assert_eq!(get_random_line(""), None);
    assert_eq!(get_random_line("only"), Some("only".to_string()));
    for _ in 0..20 {
        let l = get_random_line("abcdefg\nhijklmn\nopqrstu").unwrap();
        assert!(l == "abcdefg" || l == "hijklmn" || l == "opqrstu");
    }
}

#[test]
fn generate_uses_the_letters_of_a_line() {
    let ls = LetterSet::generate("abcdefg\n").unwrap();
    let mut got = ls.letters().clone();
    assert_eq!(ls.required(), got[0]);
    got.sort();
    assert_eq!(got, vec!['a', 'b', 'c', 'd', 'e', 'f', 'g']);
}

#[test]
fn generate_from_empty_source_fails() {
    assert!(matches!(LetterSet::generate(""), Err(GenerateError::EmptySource)));
    assert!(matches!(LetterSet::generate("\n"), Err(GenerateError::EmptyLine)));
}

#[test]
fn letter_set_needs_a_letter() {
    assert!(LetterSet::from_letters(vec![]).is_none());
    let ls = abcdefg();
    assert_eq!(ls.required(), 'a');
    assert!(uses_only("face", ls.letters()));
    assert!(!uses_only("faces", ls.letters()));
}

#[test]
fn commands_are_recognised() {
    assert_eq!(parse_command("/quit"), Command::Quit);
    assert_eq!(parse_command("/help"), Command::Help);
    assert_eq!(parse_command("/info"), Command::Info);
    assert_eq!(parse_command("/rules"), Command::Rules);
    assert_eq!(parse_command("/commands"), Command::Commands);
    assert_eq!(parse_command("/warranty"), Command::Warranty);
    assert_eq!(parse_command("/license"), Command::License);
    assert_eq!(parse_command("/stats"), Command::Stats);
    assert_eq!(parse_command("/score"), Command::Score);
    assert_eq!(parse_command("/found"), Command::Found);
    assert_eq!(parse_command("/nope"), Command::Unknown);
}

#[test]
fn each_rejection_is_named() {
    let ls = abcdefg();
    let lex = load_word_list("bead\nbadge\ncafe\n");
    let mut st = RoundState::new();
    assert_eq!(st.apply("abc", &ls, &lex), Outcome::Guess(Verdict::TooShort));
    assert_eq!(
        st.apply("bcde", &ls, &lex),
        Outcome::Guess(Verdict::MissingRequiredLetter('a'))
    );
    assert_eq!(st.apply("axle", &ls, &lex), Outcome::Guess(Verdict::IllegalLetter));
    assert_eq!(st.apply("abbe", &ls, &lex), Outcome::Guess(Verdict::NotAWord));
    assert_eq!(st.apply("  CAFE ", &ls, &lex), Outcome::Guess(Verdict::Accepted(1)));
    assert_eq!(st.apply("cafe", &ls, &lex), Outcome::Guess(Verdict::AlreadyUsed));
    assert_eq!(st.last, Some(Verdict::AlreadyUsed));
    assert_eq!(st.total_score, 1);
    assert_eq!(st.used_words, vec!["cafe".to_string()]);
}

#[test]
fn rule_order_decides_first_failure() {
    let ls = abcdefg();
    let lex = load_word_list("");
    let mut st = RoundState::new();
    // too short and missing the required letter: too short wins
    assert_eq!(st.apply("xyz", &ls, &lex), Outcome::Guess(Verdict::TooShort));
    // missing the required letter and illegal letters: the required letter wins
    assert_eq!(
        st.apply("xyzw", &ls, &lex),
        Outcome::Guess(Verdict::MissingRequiredLetter('a'))
    );
}

#[test]
fn short_guess_keeps_state() {
    let ls = abcdefg();
    let lex = load_word_list("abc\nab\n");
    let mut st = RoundState::new();
    for w in ["", "a", "ab", "abc", "ABC "] {
        assert_eq!(st.apply(w, &ls, &lex), Outcome::Guess(Verdict::TooShort));
        assert_eq!(st.total_score, 0);
        assert!(st.used_words.is_empty());
    }
}

#[test]
fn same_word_twice_scores_once() {
    let ls = abcdefg();
    let lex = load_word_list("badge\n");
    let mut st = RoundState::new();
    assert_eq!(st.apply("badge", &ls, &lex), Outcome::Guess(Verdict::Accepted(5)));
    assert_eq!(st.total_score, 5);
    assert_eq!(st.apply("badge", &ls, &lex), Outcome::Guess(Verdict::AlreadyUsed));
    assert_eq!(st.total_score, 5);
    assert_eq!(st.used_words.len(), 1);
}

#[test]
fn rejection_changes_only_the_feedback() {
    let ls = abcdefg();
    let lex = load_word_list("badge\n");
    let mut st = RoundState::new();
    st.apply("badge", &ls, &lex);
    let before_score = st.total_score;
    let before_words = st.used_words.clone();
    for w in ["bad", "bcde", "axle", "badge", "faded"] {
        let out = st.apply(w, &ls, &lex);
        assert!(!matches!(out, Outcome::Guess(Verdict::Accepted(_))));
        assert_eq!(st.total_score, before_score);
        assert_eq!(st.used_words, before_words);
        assert_eq!(Outcome::Guess(st.last.unwrap()), out);
    }
}

#[test]
fn commands_leave_state_alone() {
    let ls = abcdefg();
    let lex = load_word_list("badge\n");
    let mut st = RoundState::new();
    st.apply("badge", &ls, &lex);
    assert_eq!(st.apply(" /Score ", &ls, &lex), Outcome::Command(Command::Score));
    assert_eq!(st.apply("/x", &ls, &lex), Outcome::Command(Command::Unknown));
    assert_eq!(st.total_score, 5);
    assert_eq!(st.last, Some(Verdict::Accepted(5)));
}

#[test]
fn full_round_scenario() {
    let ls = abcdefg();
    let lex = load_word_list("abcdefg\nface\n");
    let mut st = RoundState::new();
    assert_eq!(st.total_score, 0);
    assert!(st.used_words.is_empty());
    assert_eq!(st.last, None);

    // "face" holds the required 'a' and only the round's letters, so the
    // rules accept it, for one point as a four-letter word.
    assert_eq!(st.apply("face", &ls, &lex), Outcome::Guess(Verdict::Accepted(1)));
    assert_eq!(st.total_score, 1);

    // a guess without the required letter is refused and changes nothing
    assert_eq!(
        st.apply("bede", &ls, &lex),
        Outcome::Guess(Verdict::MissingRequiredLetter('a'))
    );
    assert_eq!(
        st.apply("bedded", &ls, &lex),
        Outcome::Guess(Verdict::MissingRequiredLetter('a'))
    );
    assert_eq!(st.total_score, 1);

    assert_eq!(st.apply("abcdefg", &ls, &lex), Outcome::Guess(Verdict::Accepted(14)));
    assert_eq!(st.total_score, 15);
    assert_eq!(st.used_words, vec!["face".to_string(), "abcdefg".to_string()]);

    assert_eq!(st.apply("abcdefg", &ls, &lex), Outcome::Guess(Verdict::AlreadyUsed));
    assert_eq!(st.total_score, 15);

    assert_eq!(st.apply("/score", &ls, &lex), Outcome::Command(Command::Score));
    assert_eq!(st.total_score.to_string(), "15");

    assert_eq!(st.apply("/quit", &ls, &lex), Outcome::Command(Command::Quit));
    assert_eq!(st.total_score, 15);
    assert_eq!(st.used_words, vec!["face".to_string(), "abcdefg".to_string()]);
}

#[test]
fn pangram_round_from_a_fresh_state() {
    let ls = abcdefg();
    let lex = load_word_list("abcdefg\nface\n");
    let mut st = RoundState::new();
    assert_eq!(st.apply("abcdefg", &ls, &lex), Outcome::Guess(Verdict::Accepted(14)));
    assert_eq!(st.total_score, 14);
    assert_eq!(st.used_words, vec!["abcdefg".to_string()]);
    assert_eq!(st.apply("abcdefg", &ls, &lex), Outcome::Guess(Verdict::AlreadyUsed));
    assert_eq!(st.total_score, 14);
    assert_eq!(st.apply("/score", &ls, &lex), Outcome::Command(Command::Score));
    assert_eq!(st.apply("/quit", &ls, &lex), Outcome::Command(Command::Quit));
    assert_eq!(st.total_score, 14);
    assert_eq!(st.used_words, vec!["abcdefg".to_string()]);
}
