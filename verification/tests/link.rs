use fntype::events::UiEvent;
use fntype::link::{
    Frame, Link, LinkAction, LinkEvent, Stage, INITIAL_BACKOFF, MAX_BACKOFF, RECONNECT_PAUSE,
};
use fntype::transcript::SttEvent;
use fntype::ws::{WsCmd, WsConfig, HEARTBEAT_TIMEOUT, IDLE_REFRESH_AFTER, MAX_CONNECTION_AGE};

fn config(key: &str) -> WsConfig {
    WsConfig { api_key: key.into(), language: "en".into(), bias_terms: vec![] }
}

fn stt(typ: &str, text: &str) -> SttEvent {
    SttEvent {
        typ: typ.into(),
        text: Some(text.into()),
        is_final: None,
        speech_final: None,
        message: None,
    }
}

fn is_conn(action: &LinkAction, up: bool, label: &str) -> bool {
    matches!(action, LinkAction::Notify(UiEvent::ConnChanged(u, l)) if *u == up && l == label)
}

fn open_link() -> Link {
    let mut link = Link::new();
    link.handle(LinkEvent::Command(WsCmd::Configure(config("k"))), 0);
    link.handle(LinkEvent::Connected, 0);
    link
}

fn ready_link() -> Link {
    let mut link = open_link();
    link.handle(LinkEvent::Received(stt("transcript.created", "")), 0);
    link
}

#[test]
fn nothing_happens_before_a_configuration() {
    let mut link = Link::new();
    assert!(link.config().is_none());
    assert!(link.handle(LinkEvent::Command(WsCmd::Audio(vec![1])), 0).is_empty());
    assert!(link.handle(LinkEvent::Command(WsCmd::Finalize), 0).is_empty());
    assert_eq!(link.stage(), Stage::Unconfigured);
    let actions = link.handle(LinkEvent::Command(WsCmd::Configure(config("k"))), 0);
    assert_eq!(actions.len(), 1);
    assert!(matches!(actions[0], LinkAction::Connect));
    assert_eq!(link.config().unwrap().api_key, "k");
}

#[test]
fn audio_waits_until_the_recogniser_is_ready_and_is_sent_in_order() {
    let mut link = open_link();
    assert!(link.handle(LinkEvent::Command(WsCmd::Audio(vec![1])), 1).is_empty());
    assert!(link.handle(LinkEvent::Command(WsCmd::Audio(vec![2])), 2).is_empty());
    assert!(link.handle(LinkEvent::Command(WsCmd::Finalize), 3).is_empty());
    let actions = link.handle(LinkEvent::Received(stt("transcript.created", "")), 4);
    assert_eq!(actions.len(), 2);
    assert!(is_conn(&actions[0], true, "xAI realtime ready"));
    assert!(matches!(&actions[1], LinkAction::Send(Frame::Audio(c)) if c == &vec![1]));
    let actions = link.handle(LinkEvent::Sent(true), 5);
    assert!(matches!(&actions[0], LinkAction::Send(Frame::Audio(c)) if c == &vec![2]));
    let actions = link.handle(LinkEvent::Sent(true), 6);
    assert!(matches!(&actions[0], LinkAction::Send(Frame::Finalize)));
    assert!(link.handle(LinkEvent::Sent(true), 7).is_empty());
    assert_eq!(link.stage(), Stage::Open);
}

#[test]
fn ready_audio_is_sent_at_once() {
    let mut link = ready_link();
    let actions = link.handle(LinkEvent::Command(WsCmd::Audio(vec![9])), 1);
    assert!(matches!(&actions[0], LinkAction::Send(Frame::Audio(c)) if c == &vec![9]));
    link.handle(LinkEvent::Sent(true), 1);
    let actions = link.handle(LinkEvent::Command(WsCmd::Finalize), 2);
    assert!(matches!(&actions[0], LinkAction::Send(Frame::Finalize)));
}

#[test]
fn a_failed_attempt_backs_off_twice_as_long_each_time() {
    let mut link = Link::new();
    link.handle(LinkEvent::Command(WsCmd::Configure(config("k"))), 0);
    let mut expected = INITIAL_BACKOFF;
    for _ in 0..8 {
        let actions = link.handle(LinkEvent::ConnectFailed("timed out".into()), 0);
        assert!(is_conn(&actions[0], false, "xAI took too long to respond."));
        assert!(matches!(&actions[1], LinkAction::Backoff(d) if *d == expected));
        let actions = link.handle(LinkEvent::BackoffElapsed, 0);
        assert!(matches!(actions[0], LinkAction::Connect));
        expected = std::cmp::min(expected * 2, MAX_BACKOFF);
    }
    assert_eq!(expected, MAX_BACKOFF);
    link.handle(LinkEvent::Connected, 0);
    link.handle(LinkEvent::ReadEnded, 0);
    link.handle(LinkEvent::PauseElapsed, 0);
    let actions = link.handle(LinkEvent::ConnectFailed("x".into()), 0);
    assert!(matches!(&actions[1], LinkAction::Backoff(d) if *d == INITIAL_BACKOFF));
}

#[test]
fn audio_is_buffered_while_backing_off() {
    let mut link = Link::new();
    link.handle(LinkEvent::Command(WsCmd::Configure(config("k"))), 0);
    link.handle(LinkEvent::ConnectFailed("x".into()), 0);
    assert!(link.handle(LinkEvent::Command(WsCmd::Audio(vec![5])), 0).is_empty());
    assert!(link.handle(LinkEvent::Command(WsCmd::Finalize), 0).is_empty());
    assert!(link.handle(LinkEvent::Command(WsCmd::Reconnect), 0).is_empty());
    let actions = link.handle(LinkEvent::Command(WsCmd::Configure(config("new"))), 0);
    assert!(matches!(actions[0], LinkAction::Connect));
    assert_eq!(link.config().unwrap().api_key, "new");
    link.handle(LinkEvent::Connected, 0);
    let actions = link.handle(LinkEvent::Received(stt("transcript.created", "")), 0);
    assert!(matches!(&actions[1], LinkAction::Send(Frame::Audio(c)) if c == &vec![5]));
}

#[test]
fn recogniser_events_reach_the_coordinator() {
    let mut link = ready_link();
    for typ in ["transcript.partial", "transcript.done"] {
        let actions = link.handle(LinkEvent::Received(stt(typ, "hi")), 1);
        assert!(matches!(&actions[0], LinkAction::Notify(UiEvent::Stt(e)) if e.typ == typ));
    }
    let mut error = stt("error", "");
    error.message = Some("quota".into());
    let actions = link.handle(LinkEvent::Received(error), 1);
    assert!(matches!(&actions[0], LinkAction::Notify(UiEvent::WsError(m)) if m == "quota"));
    let actions = link.handle(LinkEvent::Received(stt("error", "")), 1);
    assert!(matches!(
        &actions[0],
        LinkAction::Notify(UiEvent::WsError(m)) if m == "xAI returned an unknown transcription error."
    ));
    assert!(link.handle(LinkEvent::Received(stt("other", "")), 1).is_empty());
    assert!(link.handle(LinkEvent::ReceivedOther, 1).is_empty());
}

#[test]
fn a_lost_connection_is_reopened_after_a_pause() {
    for lost in [LinkEvent::ReceivedClose, LinkEvent::ReadEnded] {
        let mut link = ready_link();
        let actions = link.handle(lost, 1);
        assert_eq!(actions.len(), 3);
        assert!(is_conn(&actions[0], false, "xAI closed the connection."));
        assert!(is_conn(&actions[1], false, "Reconnecting to xAI…"));
        assert!(matches!(&actions[2], LinkAction::Pause(d) if *d == RECONNECT_PAUSE));
        let actions = link.handle(LinkEvent::PauseElapsed, 2);
        assert!(matches!(actions[0], LinkAction::Disconnect));
        assert!(matches!(actions[1], LinkAction::Connect));
    }
    let mut link = ready_link();
    let actions = link.handle(LinkEvent::ReadFailed("Odd".into()), 1);
    assert!(is_conn(&actions[0], false, "xAI connection issue: Odd"));
    let mut link = ready_link();
    link.handle(LinkEvent::Command(WsCmd::Audio(vec![1])), 1);
    let actions = link.handle(LinkEvent::Sent(false), 1);
    assert!(is_conn(&actions[0], false, "Reconnecting to xAI…"));
    assert_eq!(link.stage(), Stage::Pausing);
}

#[test]
fn the_heartbeat_pings_gives_up_or_refreshes() {
    let mut link = ready_link();
    let actions = link.handle(LinkEvent::Heartbeat, 1);
    assert!(matches!(&actions[0], LinkAction::Send(Frame::Ping)));

    let mut link = ready_link();
    let actions = link.handle(LinkEvent::Heartbeat, HEARTBEAT_TIMEOUT);
    assert!(is_conn(&actions[0], false, "xAI stopped responding. Reconnecting…"));
    assert!(matches!(&actions[2], LinkAction::Pause(_)));

    let mut link = ready_link();
    link.handle(LinkEvent::ReceivedOther, IDLE_REFRESH_AFTER - 1);
    let actions = link.handle(LinkEvent::Heartbeat, IDLE_REFRESH_AFTER);
    assert!(matches!(actions[0], LinkAction::Disconnect));
    assert!(matches!(actions[1], LinkAction::Connect));
}

#[test]
fn a_long_hold_is_not_torn_down() {
    let mut link = ready_link();
    let late = MAX_CONNECTION_AGE + 1;
    link.handle(LinkEvent::Command(WsCmd::Audio(vec![1])), late);
    link.handle(LinkEvent::Sent(true), late);
    link.handle(LinkEvent::ReceivedOther, late);
    let actions = link.handle(LinkEvent::Heartbeat, late);
    assert!(matches!(&actions[0], LinkAction::Send(Frame::Ping)));
    link.handle(LinkEvent::Sent(true), late);
    let actions = link.handle(LinkEvent::Command(WsCmd::BeginUtterance), late);
    assert!(matches!(
        &actions[0],
        LinkAction::Notify(UiEvent::ConnRefreshing(l)) if l == "Refreshing xAI connection…"
    ));
    assert!(matches!(actions[1], LinkAction::Disconnect));
    assert!(matches!(actions[2], LinkAction::Connect));
}

#[test]
fn a_fresh_connection_is_kept_for_an_utterance() {
    let mut link = ready_link();
    assert!(link.handle(LinkEvent::Command(WsCmd::BeginUtterance), 1).is_empty());
    let actions = link.handle(LinkEvent::Command(WsCmd::Reconnect), 1);
    assert!(matches!(
        &actions[0],
        LinkAction::Notify(UiEvent::ConnRefreshing(l)) if l == "Reconnecting to xAI…"
    ));
}

#[test]
fn a_new_configuration_replaces_the_connection() {
    let mut link = ready_link();
    let actions = link.handle(LinkEvent::Command(WsCmd::Configure(config("new"))), 1);
    assert!(matches!(&actions[0], LinkAction::Send(Frame::AudioDone)));
    assert_eq!(link.config().unwrap().api_key, "k");
    let actions = link.handle(LinkEvent::Sent(false), 2);
    assert!(matches!(actions[0], LinkAction::Disconnect));
    assert!(matches!(actions[1], LinkAction::Connect));
    assert_eq!(link.config().unwrap().api_key, "new");
}

#[test]
fn the_link_stops_when_no_command_can_come() {
    let mut link = Link::new();
    let actions = link.handle(LinkEvent::CommandsClosed, 0);
    assert!(matches!(actions[0], LinkAction::Stop));

    let mut link = ready_link();
    let actions = link.handle(LinkEvent::CommandsClosed, 0);
    assert!(matches!(&actions[0], LinkAction::Send(Frame::AudioDone)));
    let actions = link.handle(LinkEvent::Sent(true), 0);
    assert!(matches!(actions[0], LinkAction::Disconnect));
    assert!(matches!(actions[1], LinkAction::Stop));
    assert_eq!(link.stage(), Stage::Stopped);
}

#[test]
fn control_frames_have_their_text() {
    assert_eq!(Frame::Finalize.text(), Some(r#"{"type":"Finalize"}"#));
    assert_eq!(Frame::AudioDone.text(), Some(r#"{"type":"audio.done"}"#));
    assert_eq!(Frame::Ping.text(), None);
    assert_eq!(Frame::Audio(vec![1]).text(), None);
}

#[test]
fn events_out_of_turn_change_nothing() {
    let mut link = ready_link();
    assert!(link.handle(LinkEvent::Sent(false), 0).is_empty());
    assert!(link.handle(LinkEvent::PauseElapsed, 0).is_empty());
    assert!(link.handle(LinkEvent::Connected, 0).is_empty());
    assert_eq!(link.stage(), Stage::Open);
}
