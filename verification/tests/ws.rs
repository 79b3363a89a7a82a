use fntype::ws::{
    authorization, bearer, connection_needs_refresh, friendly, friendly_from, request_url, ConnectError,
    Session, WsConfig, BASE_URL, IDLE_REFRESH_AFTER, MAX_CONNECTION_AGE, MAX_PENDING_BYTES,
};

const SECOND: u64 = 1_000_000_000;

#[test]
fn refreshes_old_or_idle_connections() {
    let now = 10_000 * SECOND;
    assert!(!connection_needs_refresh(
        now - 30 * SECOND,
        now - 10 * SECOND,
        now,
    ));
    assert!(connection_needs_refresh(
        now - MAX_CONNECTION_AGE,
        now - 10 * SECOND,
        now,
    ));
    assert!(connection_needs_refresh(
        now - 30 * SECOND,
        now - IDLE_REFRESH_AFTER,
        now,
    ));
}

#[test]
fn a_clock_that_steps_back_does_not_age_a_connection() {
    assert!(!connection_needs_refresh(500 * SECOND, 500 * SECOND, 0));
}

fn config(language: &str, terms: &[&str]) -> WsConfig {
    WsConfig {
        api_key: "secret".into(),
        language: language.into(),
        bias_terms: terms.iter().map(|t| t.to_string()).collect(),
    }
}

#[test]
fn the_request_names_language_and_terms_encoded() {
    assert_eq!(
        request_url(&config(" en ", &["gee pee you", "C++", "Ä"])),
        format!("{BASE_URL}&language=en&keyterm=gee%20pee%20you&keyterm=C%2B%2B&keyterm=%C3%84")
    );
    assert_eq!(request_url(&config(" \n", &[])), BASE_URL);
    assert_eq!(
        request_url(&config("a-b_c.d~", &[])),
        format!("{BASE_URL}&language=a%2Db%5Fc%2Ed%7E")
    );
}

#[test]
fn encoding_agrees_with_the_outside_encoder() {
    let mut all = String::new();
    for code in 0u32..0x200 {
        all.push(char::from_u32(code).unwrap());
    }
    let expected = percent_encoding::utf8_percent_encode(&all, percent_encoding::NON_ALPHANUMERIC)
        .to_string();
    assert_eq!(
        request_url(&config("", &[&all])),
        format!("{BASE_URL}&keyterm={expected}")
    );
    let suffix = &request_url(&config("", &[&all]))[BASE_URL.len()..];
    assert!(suffix.is_ascii());
    assert!(!suffix.contains(' '));
}

#[test]
fn a_hundred_terms_are_requested() {
    let terms: Vec<String> = (0..120).map(|i| format!("t{i}")).collect();
    let refs: Vec<&str> = terms.iter().map(|t| t.as_str()).collect();
    let url = request_url(&config("", &refs));
    assert_eq!(url.matches("&keyterm=").count(), 100);
    assert!(url.ends_with("&keyterm=t99"));
}

#[test]
fn the_key_is_a_bearer_token() {
    assert_eq!(authorization(&config("en", &[])), "Bearer secret");
}

#[test]
fn a_key_with_control_characters_cannot_stand_in_a_header() {
    assert!(matches!(bearer(&config("en", &[])), Ok(value) if value == "Bearer secret"));
    for (key, fits) in [("a\tb", true), ("é", true), ("a\nb", false), ("\u{7f}", false), ("", true)] {
        let mut c = config("en", &[]);
        c.api_key = key.into();
        match bearer(&c) {
            Ok(value) => assert!(fits && value == format!("Bearer {key}")),
            Err(error) => assert!(!fits && error.message() == "bad API key format"),
        }
    }
}

#[test]
fn errors_of_connecting_have_their_words() {
    assert_eq!(ConnectError::BadRequest("x".into()).message(), "bad request: x");
    assert_eq!(ConnectError::BadKey.message(), "bad API key format");
    assert_eq!(ConnectError::TimedOut.message(), "timed out");
    assert_eq!(ConnectError::Failed("x".into()).message(), "x");
}

#[test]
fn failures_read_to_the_user() {
    assert_eq!(
        friendly("HTTP error: 401 Unauthorized"),
        "The xAI API key was rejected. Re-import it from the menu bar."
    );
    assert_eq!(
        friendly("UNAUTHORIZED timeout"),
        "The xAI API key was rejected. Re-import it from the menu bar."
    );
    assert_eq!(friendly("Timed Out"), "xAI took too long to respond.");
    assert_eq!(friendly("read TIMEOUT"), "xAI took too long to respond.");
    for error in ["DNS failure", "failed to Lookup", "Connection refused", "Network down"] {
        assert_eq!(friendly(error), "No connection to xAI. Check your internet.");
    }
    assert_eq!(friendly("Odd Thing"), "xAI connection issue: Odd Thing");
    assert_eq!(friendly_from("Odd", "odd"), "xAI connection issue: Odd");
}

#[test]
fn the_buffer_keeps_the_newest_audio() {
    let mut session = Session::new();
    for n in 0u8..101 {
        session.buffer_audio(vec![n; 3_200]);
    }
    assert_eq!(session.pending_bytes, MAX_PENDING_BYTES);
    assert_eq!(session.pending.len(), 100);
    assert_eq!(session.take_oldest(), Some(vec![1; 3_200]));
    assert_eq!(session.pending_bytes, MAX_PENDING_BYTES - 3_200);
}

#[test]
fn a_chunk_over_the_limit_is_not_kept() {
    let mut session = Session::new();
    session.buffer_audio(vec![1; 10]);
    session.buffer_audio(vec![2; MAX_PENDING_BYTES + 1]);
    assert_eq!(session.pending_bytes, 0);
    assert_eq!(session.take_oldest(), None);
    session.buffer_audio(vec![3; MAX_PENDING_BYTES]);
    assert_eq!(session.pending_bytes, MAX_PENDING_BYTES);
}
