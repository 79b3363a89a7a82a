use fntype::inject::{
    activate, focused_element_is_secure, frontmost_app, post_key, KeyEvent, Target, KEY_RETURN,
    KEY_V,
};
use fntype::transcript::{clean, is_terminal_app, should_press_return, Accumulator, SttEvent};

fn ev(text: &str, is_final: bool, speech_final: bool) -> SttEvent {
    SttEvent {
        typ: "transcript.partial".into(),
        text: Some(text.into()),
        is_final: Some(is_final),
        speech_final: Some(speech_final),
        message: None,
    }
}

#[test]
fn accumulator_keeps_final_segments_and_cleans_whitespace() {
    let mut acc = Accumulator::default();
    acc.ingest(&ev("  hello   world ", false, false));
    assert_eq!(acc.preview(), "hello world");
    acc.ingest(&ev("hello world", true, true));
    acc.ingest(&ev("hello world", true, true));
    assert_eq!(acc.best_text(), "hello world");
}

#[test]
fn utterance_final_replaces_chunk_finals_with_stitched_text() {
    let mut acc = Accumulator::default();
    acc.ingest(&ev("first chunk", true, false));
    acc.ingest(&ev("second chunk", true, false));
    assert_eq!(acc.best_text(), "first chunk second chunk");

    acc.ingest(&ev("first chunk second chunk", true, true));
    assert_eq!(acc.best_text(), "first chunk second chunk");

    let done = SttEvent {
        typ: "transcript.done".into(),
        text: Some("corrected full transcript".into()),
        is_final: None,
        speech_final: None,
        message: None,
    };
    acc.ingest(&done);
    assert_eq!(acc.best_text(), "corrected full transcript");
}

#[test]
fn mid_hold_speech_finals_append_across_utterances() {
    // A speech_final while Fn is still held, then more speech, then another speech_final on
    // release. The first utterance must not be wiped.
    let mut acc = Accumulator::default();
    acc.ingest(&ev("read the recent logs of FnType", true, false));
    acc.ingest(&ev("read the recent logs of FnType", true, true));
    assert_eq!(acc.best_text(), "read the recent logs of FnType");

    acc.ingest(&ev(
        "there is an issue where the first half is cut off",
        false,
        false,
    ));
    acc.ingest(&ev(
        "there is an issue where the first half is cut off",
        true,
        false,
    ));
    acc.ingest(&ev(
        "there is an issue where the first half is cut off",
        true,
        true,
    ));

    assert_eq!(
        acc.best_text(),
        "read the recent logs of FnType there is an issue where the first half is cut off"
    );
}

#[test]
fn mid_hold_speech_final_keeps_following_interim_chunks() {
    let mut acc = Accumulator::default();
    acc.ingest(&ev("first half of the dictation", true, true));
    acc.ingest(&ev("second half", false, false));
    assert_eq!(acc.best_text(), "first half of the dictation second half");
    acc.ingest(&ev("second half continues", true, false));
    assert_eq!(
        acc.best_text(),
        "first half of the dictation second half continues"
    );
}

#[test]
fn best_text_falls_back_to_interim_on_timeout() {
    let mut acc = Accumulator::default();
    acc.ingest(&ev("still useful", false, false));
    assert_eq!(acc.best_text(), "still useful");
}

#[test]
fn never_returns_for_empty_or_secure_text() {
    assert!(!should_press_return("", true, false, true, true, false));
    assert!(!should_press_return("hello", true, false, true, true, true));
    assert!(!should_press_return(
        "hello", false, false, true, true, false
    ));
}

#[test]
fn terminal_needs_explicit_permission() {
    assert!(!should_press_return("ls", true, true, true, false, false));
    assert!(should_press_return("ls", true, true, true, true, false));
    assert!(is_terminal_app("iTerm2", "com.googlecode.iterm2"));
    assert!(!is_terminal_app("TextEdit", "com.apple.TextEdit"));
}

#[test]
fn return_needs_words_and_automatic_submission() {
    assert!(!should_press_return(" \n\t", true, false, true, true, false));
    assert!(!should_press_return("hello", true, false, false, true, false));
    assert!(should_press_return("hello", true, false, true, false, false));
}

#[test]
fn whitespace_of_every_kind_is_cleaned() {
    assert_eq!(clean(""), "");
    assert_eq!(clean(" \u{a0}\u{3000}"), "");
    assert_eq!(clean("a\u{2003}b\u{85}\u{2028}c\u{1680}d"), "a b c d");
    assert_eq!(clean("a\u{200b}b"), "a\u{200b}b");
    assert_eq!(clean(&clean("  x \n y ")), clean("  x \n y "));
}

#[test]
fn cleaning_agrees_with_splitting_at_whitespace() {
    for code in 0u32..0x3100 {
        if let Some(c) = char::from_u32(code) {
            let text = format!("a{c}b");
            let words: Vec<&str> = text.split_whitespace().collect();
            assert_eq!(clean(&text), words.join(" "));
        }
    }
}

#[test]
fn events_without_words_change_nothing() {
    let mut acc = Accumulator::default();
    acc.ingest(&ev("kept", true, false));
    acc.ingest(&ev("   ", true, true));
    let mut bare = ev("", false, false);
    bare.text = None;
    acc.ingest(&bare);
    assert_eq!(acc.best_text(), "kept");
}

#[test]
fn a_repeated_utterance_is_not_doubled() {
    let mut acc = Accumulator::default();
    acc.ingest(&ev("one", true, true));
    acc.ingest(&ev("two", true, true));
    acc.ingest(&ev("two", true, true));
    assert_eq!(acc.best_text(), "one two");
    acc.ingest(&ev("one two three", true, true));
    assert_eq!(acc.best_text(), "one two three");
}

#[test]
fn an_utterance_that_only_begins_with_the_same_letters_is_appended() {
    let mut acc = Accumulator::default();
    acc.ingest(&ev("I", true, true));
    acc.ingest(&ev("It works", true, true));
    assert_eq!(acc.best_text(), "I It works");
    acc.ingest(&ev("I It works now", true, true));
    assert_eq!(acc.best_text(), "I It works now");
    acc.ingest(&ev("I It works now", true, true));
    assert_eq!(acc.best_text(), "I It works now");
}

#[test]
fn a_restated_session_may_go_on_with_punctuation() {
    for (first, next, expected) in [
        ("Hello", "Hello, world", "Hello, world"),
        ("well", "well-known", "well-known"),
        ("Really?", "Really?Yes", "Really?Yes"),
        ("It", "It's fine", "It It's fine"),
        ("It", "It’s fine", "It It’s fine"),
        ("Zimmer", "Zimmerä", "Zimmer Zimmerä"),
        ("room 1", "room 12", "room 1 room 12"),
    ] {
        let mut acc = Accumulator::default();
        acc.ingest(&ev(first, true, true));
        acc.ingest(&ev(next, true, true));
        assert_eq!(acc.best_text(), expected);
    }
}

#[test]
fn whether_a_word_is_split_decides_what_takes_its_place() {
    for (split, expected) in [(false, "Item"), (true, "It Item")] {
        let mut acc = Accumulator::default();
        acc.commit_utterance("It".into());
        acc.commit_utterance_if("Item".into(), split);
        assert_eq!(acc.best_text(), expected);
    }
}

#[test]
fn a_repeated_chunk_final_is_not_doubled() {
    let mut acc = Accumulator::default();
    acc.ingest(&ev("chunk", true, false));
    acc.ingest(&ev("chunk", true, false));
    acc.ingest(&ev("next", false, false));
    assert_eq!(acc.preview(), "chunk next");
}

#[test]
fn reset_forgets_everything() {
    let mut acc = Accumulator::default();
    acc.ingest(&ev("one", true, true));
    acc.ingest(&ev("two", true, false));
    acc.ingest(&ev("three", false, false));
    assert_eq!(acc.preview(), "one two three");
    acc.reset();
    assert_eq!(acc.preview(), "");
}

#[test]
fn terminals_are_known_in_any_case() {
    for name in ["Terminal", "WARP", "Ghostty", "kitty", "Alacritty", "WezTerm", "Rio"] {
        assert!(is_terminal_app(name, ""));
        assert!(is_terminal_app("App", &format!("com.{name}")));
    }
    let target = Target { pid: 1, name: "iTerm2".into(), bundle_id: "x".into() };
    assert!(target.is_terminal());
}

#[test]
fn an_app_without_a_name_is_the_current_app() {
    let target = frontmost_app(7, None, None);
    assert_eq!((target.pid, target.name.as_str(), target.bundle_id.as_str()), (7, "Current app", ""));
    let target = frontmost_app(7, Some("".into()), Some("b".into()));
    assert_eq!((target.name.as_str(), target.bundle_id.as_str()), ("Current app", "b"));
    let target = frontmost_app(7, Some("Notes".into()), None);
    assert_eq!(target.name, "Notes");
}

#[test]
fn only_a_running_app_is_activated() {
    assert!(activate(true, false));
    assert!(!activate(true, true));
    assert!(!activate(false, false));
}

#[test]
fn a_password_field_is_recognised_by_its_subrole() {
    assert!(focused_element_is_secure(Some("AXSecureTextField")));
    assert!(!focused_element_is_secure(Some("AXTextField")));
    assert!(!focused_element_is_secure(None));
}

#[test]
fn a_key_goes_down_and_up() {
    assert_eq!(
        post_key(KEY_V, true),
        vec![
            KeyEvent { keycode: 9, down: true, command: true },
            KeyEvent { keycode: 9, down: false, command: true },
        ]
    );
    assert_eq!(post_key(KEY_RETURN, false)[1], KeyEvent { keycode: 36, down: false, command: false });
}
