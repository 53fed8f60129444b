use workpool::graphemes::cluster_count;
use workpool::text::{contains_sub, lines_of, lowercase};
use workpool::words::{first_word, first_word2, first_word3, last_char_of_first_line};

#[test]
fn substring_search_finds_and_misses() {
    assert!(contains_sub("hello world", "o w"));
    assert!(contains_sub("hello", "hello"));
    assert!(contains_sub("hello", ""));
    assert!(!contains_sub("hello", "world"));
    assert!(!contains_sub("", "x"));
}

#[test]
fn lines_split_at_newlines() {
    assert_eq!(lines_of("a\nb\nc"), vec!["a", "b", "c"]);
    assert_eq!(lines_of("one\n"), vec!["one"]);
    assert_eq!(lines_of("dos\r\nunix\n"), vec!["dos", "unix"]);
    assert_eq!(lines_of(""), Vec::<&str>::new());
    assert_eq!(lines_of("\n\n"), vec!["", ""]);
}

#[test]
fn lowercasing_folds_case() {
    assert_eq!(lowercase("rUsT"), "rust");
    assert_eq!(lowercase(""), "");
}

#[test]
fn first_word_stops_at_the_space() {
    let s = String::from("xyz id fff");
    assert_eq!(first_word(&s), 3);
    assert_eq!(first_word2(&s), "xyz");
    assert_eq!(first_word3("hello world"), "hello");
    assert_eq!(first_word3("plain"), "plain");
    assert_eq!(first_word3(""), "");
}

#[test]
fn last_char_of_first_line_cases() {
    assert_eq!(last_char_of_first_line("ccc"), Some('c'));
    assert_eq!(last_char_of_first_line("ab\ncd"), Some('b'));
    assert_eq!(last_char_of_first_line("ab\r\ncd"), Some('b'));
    assert_eq!(last_char_of_first_line("\nabc"), None);
    assert_eq!(last_char_of_first_line(""), None);
}

#[test]
fn grapheme_clusters_are_letters_not_scalars() {
    // six scalar values, three letters once the conjunct joins
    let hindi = "नमस्ते";
    assert_eq!(hindi.chars().count(), 6);
    assert_eq!(cluster_count(hindi), 3);
    assert_eq!(cluster_count("abc"), 3);
    assert_eq!(cluster_count(""), 0);
}

#[test]
fn words_split_on_whitespace_runs() {
    assert_eq!(
        workpool::wordcount::words_of("  hello   world \n"),
        vec!["hello", "world"]
    );
    assert_eq!(workpool::wordcount::words_of(""), Vec::<&str>::new());
}

#[test]
fn word_tally_counts_each_word_once() {
    let tally = workpool::wordcount::word_tally("hello world wonderful world");
    assert_eq!(
        tally,
        vec![
            (String::from("hello"), 1),
            (String::from("world"), 2),
            (String::from("wonderful"), 1),
        ]
    );
}
