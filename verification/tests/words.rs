use oxide_seo::words::count_words;

#[test]
fn test_word_count() {
    assert_eq!(count_words("hello world foo bar"), 4);
    assert_eq!(count_words(""), 0);
    assert_eq!(count_words("   spaced   out   "), 2);
}

#[test]
fn word_count_treats_tabs_and_newlines_as_separators() {
    assert_eq!(count_words("one\ttwo\nthree"), 3);
    assert_eq!(count_words("\n\n"), 0);
}

#[test]
fn word_counts_add_across_a_space() {
    let a = "the quick  brown";
    let b = "\tfox jumps";
    let joined = format!("{a} {b}");
    assert_eq!(count_words(&joined), count_words(a) + count_words(b));
    assert_eq!(count_words(&joined), 5);
    assert_eq!(count_words(&format!("{} {}", "", "")), 0);
}
