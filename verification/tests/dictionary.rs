use fntype::dictionary::{Dictionary, DEFAULT_DICTIONARY};

fn dict(text: &str) -> Dictionary {
    Dictionary::parse(text)
}

#[test]
fn enforces_casing_for_plain_entries() {
    let d = dict("OpenWispr\nxAI");
    assert_eq!(d.apply("openwispr uses xai"), "OpenWispr uses xAI");
}

#[test]
fn replaces_spoken_forms() {
    let d = dict("gee pee you -> GPU");
    assert_eq!(d.apply("My gee pee you is fast."), "My GPU is fast.");
}

#[test]
fn respects_word_boundaries() {
    let d = dict("cat -> dog");
    assert_eq!(
        d.apply("concatenate the cat, please"),
        "concatenate the dog, please"
    );
}

#[test]
fn handles_punctuation_adjacent_matches() {
    let d = dict("openwispr -> OpenWispr");
    assert_eq!(
        d.apply("like openwispr, but faster"),
        "like OpenWispr, but faster"
    );
}

#[test]
fn skips_comments_and_blank_lines() {
    let d = dict("# comment\n\nGrok\n");
    assert_eq!(d.entries.len(), 1);
    assert_eq!(d.bias_terms(), vec!["Grok".to_string()]);
}

#[test]
fn bias_terms_deduplicates_and_caps_length() {
    let d = dict("GPU -> GPU\ngee pee you -> GPU");
    assert_eq!(
        d.bias_terms(),
        vec!["GPU".to_string(), "gee pee you".to_string()]
    );
}

#[test]
fn lines_are_trimmed_and_incomplete_entries_skipped() {
    let d = dict("  a ->  b -> c \r\n-> x\ny ->\n   # note\n\tz\t\r\n");
    let entries: Vec<(&str, &str)> =
        d.entries.iter().map(|e| (e.matcher.as_str(), e.output.as_str())).collect();
    assert_eq!(entries, vec![("a", "b -> c"), ("z", "z")]);
}

#[test]
fn a_comment_line_changes_nothing() {
    let with = dict("xAI\n# ignored -> really\n   \nGrok");
    let without = dict("xAI\nGrok");
    assert_eq!(with.entries.len(), without.entries.len());
    assert_eq!(with.bias_terms(), without.bias_terms());
}

#[test]
fn long_terms_are_not_sent() {
    let fifty = "x".repeat(50);
    let longer = "y".repeat(51);
    let wide = "ж".repeat(26);
    let widest = "é".repeat(50);
    let too_wide = "ä".repeat(51);
    let d = dict(&format!("{fifty}\n{longer}\n{wide}\n{widest}\n{too_wide}"));
    assert_eq!(d.entries.len(), 5);
    assert_eq!(d.bias_terms(), vec![fifty, wide, widest]);
}

#[test]
fn the_length_of_a_term_is_counted_in_characters() {
    let d = dict(&"é".repeat(26));
    assert_eq!(d.bias_terms(), vec!["é".repeat(26)]);
}

#[test]
fn at_most_a_hundred_terms_are_sent() {
    let lines: Vec<String> = (0..150).map(|i| format!("word{i}")).collect();
    let terms = dict(&lines.join("\n")).bias_terms();
    assert_eq!(terms.len(), 100);
    assert_eq!(terms[0], "word0");
    assert_eq!(terms[99], "word99");
}

#[test]
fn terms_are_unique_in_any_case() {
    assert_eq!(dict("GPU\ngpu\nGpu -> ÄPFEL\näpfel").bias_terms(), vec!["GPU", "ÄPFEL"]);
}

#[test]
fn matching_ignores_case_beyond_ascii() {
    assert_eq!(dict("äpfel -> Birnen").apply("Zwei ÄPFEL hier"), "Zwei Birnen hier");
    assert_eq!(dict("cat -> dog").apply("écat cat catà"), "écat dog catà");
}

#[test]
fn digits_are_part_of_a_word() {
    assert_eq!(dict("cat -> dog").apply("cat5 5cat cat"), "cat5 5cat dog");
}

#[test]
fn text_whose_lowercase_has_another_length_is_left_alone() {
    assert_eq!(dict("cat -> dog").apply("İ cat"), "İ cat");
}

#[test]
fn entries_apply_one_after_the_other() {
    assert_eq!(dict("a -> b\nb -> c").apply("a b"), "c c");
}

#[test]
fn text_without_the_word_is_unchanged() {
    assert_eq!(dict("cat -> dog").apply("nothing here"), "nothing here");
    assert_eq!(dict("").apply("cat"), "cat");
}

#[test]
fn an_unreadable_file_is_replaced_by_the_default() {
    let loaded = Dictionary::load(None);
    assert!(loaded.write_default);
    assert_eq!(loaded.dictionary.entries.len(), 5);
    assert_eq!(loaded.dictionary.bias_terms(), dict(DEFAULT_DICTIONARY).bias_terms());
    assert_eq!(
        loaded.dictionary.bias_terms(),
        vec!["xAI", "Grok", "FnType", "gee pee you", "GPU", "open whisper", "OpenWispr"]
    );
    let loaded = Dictionary::load(Some("one"));
    assert!(!loaded.write_default);
    assert_eq!(loaded.dictionary.entries.len(), 1);
}
