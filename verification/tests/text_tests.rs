use voice_service::text::{
    chars_of, contains_str, count_words, is_whitespace, sentence_word_spans, split_char,
    split_pattern, split_sentences, string_of, strip_chars, transcript_matches,
    whisper_last_result, whisper_result_line,
};

#[test]
fn count_words_counts_whitespace_separated_words() {
    assert_eq!(count_words("hello world  foo".to_string()), 3);
    assert_eq!(count_words("  a\tb\nc  ".to_string()), 3);
    assert_eq!(count_words(String::new()), 0);
    assert_eq!(count_words("   ".to_string()), 0);
    assert_eq!(count_words("\u{3000}x\u{2003}y".to_string()), 2);
}

#[test]
fn whitespace_follows_unicode() {
    assert!(is_whitespace(' '));
    assert!(is_whitespace('\u{85}'));
    assert!(is_whitespace('\u{3000}'));
    assert!(!is_whitespace('x'));
    assert!(!is_whitespace('\u{200b}'));
}

#[test]
fn chars_and_strings_round_trip() {
    let cs = chars_of("héllo");
    assert_eq!(cs, vec!['h', 'é', 'l', 'l', 'o']);
    assert_eq!(string_of(&cs), "héllo");
}

#[test]
fn split_char_keeps_empty_pieces() {
    assert_eq!(split_char("a/b//c", '/'), vec!["a", "b", "", "c"]);
    assert_eq!(split_char("", '/'), vec![""]);
    assert_eq!(split_char("/x/", '/'), vec!["", "x", ""]);
}

#[test]
fn contains_str_finds_substrings() {
    assert!(contains_str("Names/Temp/x.wav", "Names/Temp"));
    assert!(contains_str("hello world", "o w"));
    assert!(!contains_str("abc", "abd"));
    assert!(!contains_str("ab", "abc"));
}

#[test]
fn strip_chars_drops_the_set() {
    assert_eq!(strip_chars("a.b,c", &vec!['.', ',']), "abc");
    assert_eq!(strip_chars("...", &vec!['.']), "");
}

#[test]
fn whisper_result_is_the_last_but_one_line() {
    assert_eq!(whisper_result_line("progress\nresult text\n"), "result text");
    assert_eq!(whisper_result_line("a\nb"), "a");
}

#[test]
fn transcript_match_ignores_case_and_punctuation() {
    assert!(transcript_matches("Hi, John.", "john"));
    assert!(transcript_matches("hi (Mary-Ann)", "mary-ann"));
    assert!(!transcript_matches("Hi Jane", "john"));
    assert!(!transcript_matches("John", "john"));
}

#[test]
fn split_pattern_behaves_like_str_split() {
    assert_eq!(split_pattern("a. b. c", ". "), vec!["a", "b", "c"]);
    assert_eq!(split_pattern("a..b", ". "), vec!["a..b"]);
    assert_eq!(split_pattern(". x. ", ". "), vec!["", "x", ""]);
    let s = "one. two. . three";
    let expected: Vec<&str> = s.split(". ").collect();
    assert_eq!(split_pattern(s, ". "), expected);
}

#[test]
fn sentences_drop_empty_pieces_and_end_with_a_stop() {
    assert_eq!(
        split_sentences("Hello there. General Kenobi. "),
        vec!["Hello there.", "General Kenobi."]
    );
    assert_eq!(split_sentences(""), Vec::<String>::new());
}

#[test]
fn every_sentence_has_a_word() {
    for s in split_sentences("A b. . c d e. ") {
        assert!(count_words(s) >= 1);
    }
}

#[test]
fn sentence_spans_index_the_words() {
    let sentences = split_sentences("Hello there. General Kenobi. Yes.");
    assert_eq!(sentence_word_spans(&sentences), vec![(0, 1), (2, 3), (4, 4)]);
}

#[test]
fn split_pieces_join_back() {
    for s in ["", "/", "a/b//c/", "Names/folder/123.wav", "no separator"] {
        let parts = split_char(s, '/');
        assert_eq!(parts.join("/"), s);
        assert!(parts.iter().all(|p| !p.contains('/')));
    }
}

#[test]
fn last_whisper_result() {
    let r = "log\n[{\"a\":1},{\"Transcript\":\"Hi Ann\"}]\n";
    assert_eq!(whisper_last_result(r, false), Some(Some("{\"Transcript\":\"Hi Ann\"}".to_string())));
    assert_eq!(whisper_last_result(r, true), Some(Some("{\"transcript\":\"hi ann\"}".to_string())));
    assert_eq!(whisper_last_result("x\n[]\n", false), Some(None));
    assert_eq!(whisper_last_result("x\nnot json\n", true), None);
    assert_eq!(whisper_last_result("x\n{\"a\":1}\n", true), None);
}
