use website_checker::targets::{clean_targets, trim_line};
use website_checker::words::{most_frequent_word, split_words};

#[test]
fn trim_strips_both_ends_only() {
    assert_eq!(trim_line("  https://a.example  "), "https://a.example");
    assert_eq!(trim_line("\t\nx y\r\n"), "x y");
    assert_eq!(trim_line("plain"), "plain");
    assert_eq!(trim_line("   "), "");
    assert_eq!(trim_line(""), "");
}

#[test]
fn clean_targets_drops_blank_lines_and_keeps_order() {
    let lines = vec![
        "  https://a ".to_string(),
        "".to_string(),
        "   ".to_string(),
        "https://b".to_string(),
        "\thttps://a\n".to_string(),
    ];
    let targets = clean_targets(&lines);
    assert_eq!(targets, vec!["https://a", "https://b", "https://a"]);
}

#[test]
fn clean_targets_of_nothing_is_empty() {
    assert!(clean_targets(&Vec::new()).is_empty());
}

#[test]
fn whitespace_covers_the_unicode_set() {
    assert_eq!(trim_line("\u{a0}\u{2028}https://a\u{3000}\u{85}"), "https://a");
    let lines = vec!["\u{a0}\u{2000}\u{202f}".to_string(), "https://b".to_string()];
    assert_eq!(clean_targets(&lines), vec!["https://b"]);
    assert_eq!(split_words("a\u{2028}b\u{a0}c"), vec!["a", "b", "c"]);
}

#[test]
fn split_words_takes_maximal_runs() {
    assert_eq!(split_words("  a bb  c "), vec!["a", "bb", "c"]);
    assert!(split_words("   ").is_empty());
    assert!(split_words("").is_empty());
    assert_eq!(split_words("one"), vec!["one"]);
}

#[test]
fn most_frequent_word_matches_the_classic_text() {
    let text = "the quick brown fox jumps over the lazy dog the quick brown fox";
    let (word, count) = most_frequent_word(text);
    assert_eq!(word, "the");
    assert_eq!(count, 3);
}

#[test]
fn most_frequent_word_without_repeats_is_empty() {
    let (word, count) = most_frequent_word("all words here differ");
    assert_eq!(word, "");
    assert_eq!(count, 0);
    let (word, count) = most_frequent_word("solo");
    assert_eq!(word, "");
    assert_eq!(count, 0);
    let (word, count) = most_frequent_word("");
    assert_eq!(word, "");
    assert_eq!(count, 0);
}

#[test]
fn most_frequent_word_prefers_the_first_to_reach_the_top_count() {
    // b reaches two occurrences before a does.
    let (word, count) = most_frequent_word("a b b a");
    assert_eq!(word, "b");
    assert_eq!(count, 2);
}
