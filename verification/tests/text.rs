use blog_pipeline::text::{chars_of, join, replace_all, starts_at, str_eq};

#[test]
fn chars_of_keeps_every_character_in_order() {
    assert_eq!(chars_of("a<é>"), vec!['a', '<', 'é', '>']);
    assert_eq!(chars_of(""), Vec::<char>::new());
}

#[test]
fn str_eq_compares_characters() {
    assert!(str_eq("toml", "toml"));
    assert!(str_eq("", ""));
    assert!(!str_eq("toml", "tom"));
    assert!(!str_eq("toml", "tomL"));
    assert!(!str_eq("", "x"));
}

#[test]
fn join_appends_in_order() {
    assert_eq!(join("posts/", "hello"), "posts/hello");
    assert_eq!(join("", "x"), "x");
    assert_eq!(join("x", ""), "x");
}

#[test]
fn starts_at_finds_pattern_only_at_position() {
    let text = chars_of("ab<p>cd");
    let pattern = chars_of("<p>");
    assert!(starts_at(&text, &pattern, 2));
    assert!(!starts_at(&text, &pattern, 1));
    assert!(!starts_at(&text, &pattern, 3));
}

#[test]
fn starts_at_rejects_positions_without_room() {
    let text = chars_of("a<p");
    let pattern = chars_of("<p>");
    assert!(!starts_at(&text, &pattern, 1));
    assert!(!starts_at(&text, &pattern, 3));
    assert!(!starts_at(&text, &pattern, 9));
    assert!(starts_at(&text, &Vec::new(), 3));
    assert!(!starts_at(&text, &Vec::new(), 4));
}

#[test]
fn replace_all_replaces_every_occurrence() {
    assert_eq!(replace_all("<p>a</p><p>b</p>", "<p>", "<q>"), "<q>a</p><q>b</p>");
    assert_eq!(replace_all("aaa", "a", "bb"), "bbbbbb");
    assert_eq!(replace_all("", "a", "b"), "");
    assert_eq!(replace_all("abc", "abcd", "x"), "abc");
    assert_eq!(replace_all("abc", "abc", ""), "");
}

#[test]
fn replace_all_takes_occurrences_left_to_right_without_overlap() {
    assert_eq!(replace_all("aaaa", "aa", "b"), "bb");
    assert_eq!(replace_all("aaa", "aa", "b"), "ba");
    assert_eq!(replace_all("ababa", "aba", "x"), "xba");
}

#[test]
fn replace_all_does_not_search_what_it_inserted() {
    assert_eq!(replace_all("ab", "a", "aa"), "aab");
    assert_eq!(replace_all("xx", "x", "xy"), "xyxy");
}

#[test]
fn replace_all_with_empty_pattern_inserts_at_every_boundary() {
    assert_eq!(replace_all("abc", "", "-"), "-a-b-c-");
    assert_eq!(replace_all("", "", "-"), "-");
}

#[test]
fn replace_all_agrees_with_std_replace() {
    let texts = ["", "a", "<h1>Hi</h1><p>Body</p>", "<<p>>", "ééé<p>é", "<p><p><p>", "<p"];
    let patterns = ["<p>", "<h1>", "é", "<", "", "<p><p>"];
    let replacements = ["", "<p class=\"text\">", "é", "<<"];
    for text in texts {
        for pattern in patterns {
            for replacement in replacements {
                assert_eq!(
                    replace_all(text, pattern, replacement),
                    text.replace(pattern, replacement)
                );
            }
        }
    }
}

#[test]
fn replace_all_counts_characters_not_bytes() {
    assert_eq!(replace_all("é<p>ü", "<p>", "é"), "ééü");
    assert_eq!(replace_all("日本語", "本", "<p>"), "日<p>語");
}
