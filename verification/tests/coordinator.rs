use fntype::audio::Cmd;
use fntype::config::Settings;
use fntype::coordinator::{Coordinator, Effect, Phase, Reply};
use fntype::dictionary::Dictionary;
use fntype::events::UiEvent;
use fntype::inject::{Target, KEY_RETURN, KEY_V};
use fntype::overlay::Mode;
use fntype::transcript::SttEvent;
use fntype::ws::WsCmd;

fn settings(auto_submit: bool, allow_terminal_submit: bool) -> Settings {
    Settings { language: "en".into(), auto_submit, allow_terminal_submit }
}

fn coordinator(settings: Settings) -> Coordinator {
    Coordinator::new(settings, Dictionary::parse("gee pee you -> GPU"), Some("key".into()))
}

fn target() -> Target {
    Target { pid: 42, name: "Notes".into(), bundle_id: "com.apple.Notes".into() }
}

fn terminal() -> Target {
    Target { pid: 42, name: "Terminal".into(), bundle_id: "com.apple.Terminal".into() }
}

fn heard(text: &str, speech_final: bool) -> UiEvent {
    UiEvent::Stt(SttEvent {
        typ: "transcript.partial".into(),
        text: Some(text.into()),
        is_final: Some(speech_final),
        speech_final: Some(speech_final),
        message: None,
    })
}

fn asks(effect: &Effect) -> bool {
    matches!(
        effect,
        Effect::OpenOverlay
            | Effect::LoadKey
            | Effect::FindTarget
            | Effect::ReadDictionary
            | Effect::ImportKey
            | Effect::Activate(_)
            | Effect::Wait(_)
            | Effect::CheckField
            | Effect::ReadClipboard
            | Effect::SetClipboard(_)
    )
}

/// Each turn asks exactly if the coordinator waits.
fn turn(c: &Coordinator, effects: Vec<Effect>) -> Vec<Effect> {
    assert_eq!(effects.iter().filter(|e| asks(e)).count(), usize::from(c.is_waiting()));
    effects
}

fn event(c: &mut Coordinator, event: UiEvent) -> Vec<Effect> {
    assert!(!c.is_waiting());
    let effects = c.handle(event);
    turn(c, effects)
}

fn reply(c: &mut Coordinator, reply: Reply) -> Vec<Effect> {
    assert!(c.is_waiting());
    let effects = c.resume(reply);
    turn(c, effects)
}

fn begin(c: &mut Coordinator, app: Target) {
    assert!(matches!(event(c, UiEvent::FnDown)[0], Effect::FindTarget));
    let effects = reply(c, Reply::Front(Some(app)));
    assert_eq!(effects.len(), 2);
    assert!(matches!(effects[0], Effect::Audio(Cmd::Start)));
    assert!(matches!(effects[1], Effect::ReadDictionary));
    reply(c, Reply::Dictionary(Some("gee pee you -> GPU".into())));
    if c.is_waiting() {
        assert!(reply(c, Reply::OverlayOpened(true)).is_empty());
    }
}

fn recording(settings: Settings, app: Target) -> Coordinator {
    let mut c = coordinator(settings);
    event(&mut c, UiEvent::ConnChanged(true, "up".into()));
    begin(&mut c, app);
    assert_eq!(c.phase(), Phase::Recording);
    c
}

/// A dictation of `text`, released, up to the question whether the target is still there.
fn inserting(settings: Settings, app: Target, text: &str) -> Coordinator {
    let mut c = recording(settings, app);
    event(&mut c, UiEvent::FnUp);
    let effects = event(&mut c, heard(text, true));
    assert!(matches!(effects.last(), Some(Effect::Activate(42))));
    assert_eq!(c.phase(), Phase::Inserting);
    assert_eq!(c.target().map(|t| t.pid), Some(42));
    c
}

/// The same, up to the question whether the text is on the clipboard.
fn prepared(settings: Settings, app: Target, text: &str, saved: Option<&str>) -> Coordinator {
    let mut c = inserting(settings, app.clone(), text);
    assert!(matches!(reply(&mut c, Reply::Activated(true))[0], Effect::Wait(120)));
    assert!(matches!(reply(&mut c, Reply::Elapsed)[0], Effect::FindTarget));
    assert!(matches!(reply(&mut c, Reply::Front(Some(app)))[0], Effect::CheckField));
    assert!(matches!(reply(&mut c, Reply::Secure(false))[0], Effect::ReadClipboard));
    let effects = reply(&mut c, Reply::Clipboard(saved.map(|s| s.to_string())));
    assert!(matches!(&effects[0], Effect::SetClipboard(_)));
    c
}

fn assert_failed(c: &Coordinator, effects: &[Effect], message: &str) {
    assert_eq!(c.phase(), Phase::Error);
    assert!(c.target().is_none());
    assert_eq!(c.overlay().mode, Mode::Error);
    assert_eq!(c.overlay().message, "Not inserted");
    assert_eq!(c.overlay().preview, message);
    assert!(effects.iter().any(|e| matches!(e, Effect::Audio(Cmd::StopDiscard))));
    assert!(!effects.iter().any(|e| matches!(e, Effect::PostKey { .. } | Effect::SetClipboard(_))));
    assert!(matches!(effects.last(), Some(Effect::After(2_300, UiEvent::Hide(_)))));
}

#[test]
fn startup_connects_with_a_key() {
    let mut c = coordinator(settings(false, false));
    let effects = c.startup_connect();
    assert_eq!(effects.len(), 2);
    assert!(matches!(
        &effects[0],
        Effect::Ws(WsCmd::Configure(config))
            if config.api_key == "key" && config.language == "en"
                && config.bias_terms == vec!["gee pee you", "GPU"]
    ));
    assert!(matches!(&effects[1], Effect::SetStatus(s) if s == "Connecting to xAI…"));
    let mut c = Coordinator::new(settings(false, false), Dictionary::parse(""), None);
    let effects = c.startup_connect();
    assert!(matches!(&effects[0], Effect::SetStatus(s) if s == "Copy your xAI key, then click Import"));
}

#[test]
fn a_dictation_is_pasted_and_the_clipboard_restored() {
    let mut c = prepared(settings(false, false), target(), "my gee pee you", Some("old"));
    assert_eq!(c.overlay().preview, "my GPU");
    let effects = reply(&mut c, Reply::ClipboardSet(true));
    assert_eq!(effects.len(), 3);
    assert!(matches!(effects[0], Effect::PostKey { pid: 42, keycode: KEY_V, command: true }));
    assert!(matches!(effects[1], Effect::ShowOverlay));
    assert!(matches!(effects[2], Effect::Wait(420)));
    assert_eq!(c.overlay().mode, Mode::Warning);
    assert_eq!(c.overlay().message, "Pasted • Return skipped");
    assert!(matches!(reply(&mut c, Reply::Elapsed)[0], Effect::ReadClipboard));
    let effects = reply(&mut c, Reply::Clipboard(Some("my GPU".into())));
    assert_eq!(effects.len(), 2);
    assert!(matches!(&effects[0], Effect::RestoreClipboard(s) if s == "old"));
    assert!(matches!(effects[1], Effect::After(1_250, UiEvent::Hide(1))));
    assert_eq!(c.phase(), Phase::Idle);
    assert!(!c.is_waiting());
    let effects = event(&mut c, UiEvent::Hide(1));
    assert!(matches!(effects[0], Effect::CloseOverlay));
}

#[test]
fn an_empty_clipboard_is_cleared_again() {
    let mut c = prepared(settings(false, false), target(), "hi", None);
    reply(&mut c, Reply::ClipboardSet(true));
    reply(&mut c, Reply::Elapsed);
    let effects = reply(&mut c, Reply::Clipboard(Some("hi".into())));
    assert!(matches!(effects[0], Effect::ClearClipboard));
}

#[test]
fn a_clipboard_that_was_used_meanwhile_is_left_alone() {
    let mut c = prepared(settings(false, false), target(), "hi", Some("old"));
    reply(&mut c, Reply::ClipboardSet(true));
    reply(&mut c, Reply::Elapsed);
    let effects = reply(&mut c, Reply::Clipboard(Some("other".into())));
    assert_eq!(effects.len(), 1);
    assert!(matches!(effects[0], Effect::After(..)));
}

#[test]
fn return_is_pressed_where_automatic_submission_is_on() {
    let mut c = prepared(settings(true, false), target(), "hi", None);
    let effects = reply(&mut c, Reply::ClipboardSet(true));
    assert_eq!(effects.len(), 2);
    assert!(matches!(effects[0], Effect::PostKey { keycode: KEY_V, .. }));
    assert!(matches!(effects[1], Effect::Wait(130)));
    let effects = reply(&mut c, Reply::Elapsed);
    assert!(matches!(
        effects[0],
        Effect::PostKey { pid: 42, keycode: KEY_RETURN, command: false }
    ));
    assert_eq!(c.overlay().message, "Sent");
    assert_eq!(c.overlay().mode, Mode::Success);
    reply(&mut c, Reply::Elapsed);
    let effects = reply(&mut c, Reply::Clipboard(None));
    assert!(matches!(effects[0], Effect::After(280, UiEvent::Hide(1))));
}

#[test]
fn return_in_a_terminal_needs_permission() {
    let mut c = prepared(settings(true, false), terminal(), "ls", None);
    let effects = reply(&mut c, Reply::ClipboardSet(true));
    assert_eq!(c.overlay().message, "Pasted • Return skipped");
    assert!(matches!(effects.last(), Some(Effect::Wait(420))));
    let mut c = prepared(settings(true, true), terminal(), "ls", None);
    let effects = reply(&mut c, Reply::ClipboardSet(true));
    assert!(matches!(effects.last(), Some(Effect::Wait(130))));
}

#[test]
fn empty_speech_is_not_inserted() {
    let mut c = recording(settings(false, false), target());
    event(&mut c, UiEvent::FnUp);
    let effects = event(&mut c, heard("   ", true));
    assert_failed(&c, &effects, "No speech was detected. Nothing was inserted.");
}

#[test]
fn a_password_field_gets_nothing() {
    let mut c = inserting(settings(true, true), target(), "hi");
    reply(&mut c, Reply::Activated(true));
    reply(&mut c, Reply::Elapsed);
    reply(&mut c, Reply::Front(Some(target())));
    let effects = reply(&mut c, Reply::Secure(true));
    assert_failed(&c, &effects, "FnType will not insert into a password field.");
}

#[test]
fn a_target_that_is_gone_gets_nothing() {
    let mut c = inserting(settings(true, true), target(), "hi");
    let effects = reply(&mut c, Reply::Activated(false));
    assert_failed(&c, &effects, "The target app is no longer open.");
}

#[test]
fn a_target_out_of_focus_gets_nothing() {
    for front in [None, Some(Target { pid: 43, ..target() })] {
        let mut c = inserting(settings(true, true), target(), "hi");
        reply(&mut c, Reply::Activated(true));
        reply(&mut c, Reply::Elapsed);
        let effects = reply(&mut c, Reply::Front(front));
        assert_failed(&c, &effects, "Could not restore focus to the target app.");
    }
}

#[test]
fn a_clipboard_that_cannot_be_set_fails() {
    let mut c = prepared(settings(true, true), target(), "hi", None);
    let effects = reply(&mut c, Reply::ClipboardSet(false));
    assert_failed(&c, &effects, "Could not prepare the transcript for insertion.");
}

#[test]
fn a_failed_transcription_inserts_nothing() {
    let mut c = recording(settings(false, false), target());
    let effects = event(&mut c, UiEvent::WsError("quota".into()));
    assert_failed(&c, &effects, "quota");

    let mut c = recording(settings(false, false), target());
    event(&mut c, UiEvent::FnUp);
    let effects = event(&mut c, UiEvent::ConnChanged(false, "down".into()));
    assert!(matches!(&effects[0], Effect::SetStatus(s) if s == "down"));
    assert_failed(&c, &effects, "down");

    let mut c = recording(settings(false, false), target());
    let effects = event(&mut c, UiEvent::AudioError("mic".into()));
    assert_failed(&c, &effects, "mic");
    assert!(event(&mut c, heard("late", true)).is_empty());
}

#[test]
fn errors_outside_a_dictation_are_only_shown() {
    let mut c = coordinator(settings(false, false));
    let effects = event(&mut c, UiEvent::WsError("quota".into()));
    assert_eq!(effects.len(), 1);
    assert!(matches!(&effects[0], Effect::SetStatus(s) if s == "quota"));
    assert!(event(&mut c, UiEvent::AudioError("mic".into())).is_empty());
    let effects = event(&mut c, UiEvent::MonitorFailed);
    assert!(matches!(
        &effects[0],
        Effect::SetStatus(s) if s == "Grant Input Monitoring, then relaunch FnType"
    ));
    assert_eq!(c.phase(), Phase::Idle);
}

#[test]
fn a_timeout_inserts_what_was_heard() {
    let mut c = recording(settings(false, false), target());
    event(&mut c, heard("so far", false));
    let effects = event(&mut c, UiEvent::FnUp);
    assert_eq!(effects.len(), 3);
    assert!(matches!(effects[0], Effect::Audio(Cmd::StopFinalize)));
    assert!(matches!(effects[2], Effect::After(2_800, UiEvent::FinalizeTimeout(1))));
    assert_eq!(c.overlay().message, "Transcribing");
    let effects = event(&mut c, UiEvent::FinalizeTimeout(1));
    assert!(matches!(effects.last(), Some(Effect::Activate(42))));
    assert_eq!(c.overlay().preview, "so far");
}

#[test]
fn a_timeout_without_words_reconnects() {
    let mut c = recording(settings(false, false), target());
    event(&mut c, UiEvent::FnUp);
    assert!(event(&mut c, UiEvent::FinalizeTimeout(0)).is_empty());
    let effects = event(&mut c, UiEvent::FinalizeTimeout(1));
    assert!(matches!(effects[0], Effect::Ws(WsCmd::Reconnect)));
    assert_failed(&c, &effects, "xAI did not return a transcript. Reconnecting—try again.");
}

#[test]
fn a_stale_timeout_is_void() {
    let mut c = recording(settings(false, false), target());
    event(&mut c, UiEvent::FnUp);
    event(&mut c, UiEvent::WsError("x".into()));
    begin(&mut c, target());
    event(&mut c, UiEvent::FnUp);
    assert!(event(&mut c, UiEvent::FinalizeTimeout(1)).is_empty());
    assert_eq!(c.phase(), Phase::Finalizing);
}

#[test]
fn a_chord_cancels_the_recording() {
    let mut c = recording(settings(true, true), target());
    event(&mut c, heard("half", false));
    let effects = event(&mut c, UiEvent::FnChord);
    assert_eq!(effects.len(), 3);
    assert!(matches!(effects[0], Effect::Audio(Cmd::StopDiscard)));
    assert!(matches!(effects[2], Effect::After(650, UiEvent::Hide(1))));
    assert_eq!(c.phase(), Phase::Idle);
    assert_eq!(c.overlay().message, "Cancelled");
    assert_eq!(c.overlay().preview, "Fn was used with another key");
    assert!(event(&mut c, UiEvent::FnUp).is_empty());
    assert!(event(&mut c, heard("half done", true)).is_empty());
}

#[test]
fn a_stale_plan_to_hide_is_void() {
    let mut c = recording(settings(false, false), target());
    event(&mut c, UiEvent::FnChord);
    begin(&mut c, target());
    assert!(event(&mut c, UiEvent::Hide(1)).is_empty());
    event(&mut c, UiEvent::FnChord);
    assert!(event(&mut c, UiEvent::Hide(1)).is_empty());
    assert!(matches!(event(&mut c, UiEvent::Hide(2))[0], Effect::CloseOverlay));
}

#[test]
fn a_recording_waits_for_the_connection() {
    let mut c = coordinator(settings(false, false));
    begin(&mut c, target());
    assert_eq!(c.phase(), Phase::Connecting);
    assert_eq!(c.overlay().mode, Mode::Connecting);
    assert_eq!(c.overlay().message, "Connecting");
    assert_eq!(c.overlay().target_name, "Notes");
    event(&mut c, heard("hello", false));
    assert_eq!(c.phase(), Phase::Recording);
    assert_eq!(c.overlay().mode, Mode::Listening);
    assert_eq!(c.overlay().preview, "hello");
    let effects = event(&mut c, UiEvent::ConnRefreshing("again".into()));
    assert_eq!(effects.len(), 2);
    assert_eq!(c.phase(), Phase::Connecting);
}

#[test]
fn a_recording_needs_a_key_and_a_target() {
    let mut c = Coordinator::new(settings(false, false), Dictionary::parse(""), None);
    assert!(matches!(event(&mut c, UiEvent::FnDown)[0], Effect::LoadKey));
    let effects = reply(&mut c, Reply::Key(None));
    assert_eq!(effects.len(), 3);
    assert!(matches!(effects[1], Effect::OpenOverlay));
    assert!(matches!(effects[2], Effect::After(2_400, UiEvent::Hide(1))));
    assert_eq!(c.phase(), Phase::Error);
    assert_eq!(c.overlay().message, "Setup needed");
    assert_eq!(c.overlay().preview, "Copy your xAI API key, then use the fn menu → Import.");
    assert_eq!(c.overlay().target_name, "FnType");
    reply(&mut c, Reply::OverlayOpened(false));
    assert!(matches!(event(&mut c, UiEvent::FnDown)[0], Effect::LoadKey));
    assert!(matches!(reply(&mut c, Reply::Key(Some("k".into())))[0], Effect::FindTarget));
    assert!(reply(&mut c, Reply::Front(None)).is_empty());
    assert!(!c.is_waiting());
    assert_eq!(c.phase(), Phase::Error);
}

#[test]
fn a_missing_dictionary_is_written() {
    let mut c = coordinator(settings(false, false));
    event(&mut c, UiEvent::FnDown);
    reply(&mut c, Reply::Front(Some(target())));
    let effects = reply(&mut c, Reply::Dictionary(None));
    assert!(matches!(effects[0], Effect::WriteDefaultDictionary));
    assert!(matches!(effects[1], Effect::ShowOverlay));
    assert!(matches!(effects[2], Effect::OpenOverlay));
    reply(&mut c, Reply::OverlayOpened(true));
    event(&mut c, heard("open whisper", false));
    assert_eq!(c.overlay().preview, "OpenWispr");
}

#[test]
fn a_changed_dictionary_configures_the_connection_when_idle() {
    let mut c = coordinator(settings(false, false));
    c.startup_connect();
    event(&mut c, UiEvent::FnDown);
    reply(&mut c, Reply::Front(Some(target())));
    reply(&mut c, Reply::Dictionary(Some("Grok".into())));
    reply(&mut c, Reply::OverlayOpened(true));
    event(&mut c, UiEvent::FnChord);
    let effects = event(&mut c, UiEvent::Hide(1));
    assert_eq!(effects.len(), 2);
    assert!(matches!(effects[0], Effect::CloseOverlay));
    assert!(matches!(
        &effects[1],
        Effect::Ws(WsCmd::Configure(config)) if config.bias_terms == vec!["Grok"]
    ));
    assert!(event(&mut c, UiEvent::Hide(1)).is_empty());
}

#[test]
fn the_menu_reconnects() {
    let mut c = coordinator(settings(false, false));
    assert!(matches!(event(&mut c, UiEvent::MenuReconnect)[0], Effect::LoadKey));
    let effects = reply(&mut c, Reply::Key(None));
    assert!(matches!(
        &effects[0],
        Effect::SetStatus(s) if s == "No API key saved. Copy it, then click Import"
    ));
    event(&mut c, UiEvent::MenuReconnect);
    assert!(matches!(reply(&mut c, Reply::Key(Some("new".into())))[0], Effect::ReadDictionary));
    let effects = reply(&mut c, Reply::Dictionary(Some("xAI".into())));
    assert!(matches!(
        &effects[0],
        Effect::Ws(WsCmd::Configure(config))
            if config.api_key == "new" && config.bias_terms == vec!["xAI"]
    ));
    assert!(matches!(&effects[1], Effect::SetStatus(s) if s == "Connecting to xAI…"));
}

#[test]
fn the_menu_imports_a_key() {
    let mut c = Coordinator::new(settings(false, false), Dictionary::parse(""), None);
    assert!(matches!(event(&mut c, UiEvent::MenuImportKey)[0], Effect::ImportKey));
    let effects = reply(&mut c, Reply::Imported(Err("too short".into())));
    assert!(matches!(&effects[0], Effect::SetStatus(s) if s == "Import failed: too short"));
    event(&mut c, UiEvent::MenuImportKey);
    assert!(matches!(reply(&mut c, Reply::Imported(Ok(())))[0], Effect::LoadKey));
    let effects = reply(&mut c, Reply::Key(Some("k".into())));
    assert_eq!(effects.len(), 2);
    assert!(matches!(&effects[0], Effect::Ws(WsCmd::Configure(config)) if config.api_key == "k"));
    assert!(matches!(&effects[1], Effect::SetStatus(s) if s == "Key imported. Connecting…"));
    event(&mut c, UiEvent::MenuImportKey);
    reply(&mut c, Reply::Imported(Ok(())));
    assert_eq!(reply(&mut c, Reply::Key(None)).len(), 1);
}

#[test]
fn the_menu_changes_the_settings() {
    let mut c = coordinator(settings(false, false));
    assert!(matches!(event(&mut c, UiEvent::MenuAutoSubmit(true))[0], Effect::SaveSettings));
    assert!(c.settings().auto_submit && !c.settings().allow_terminal_submit);
    assert!(matches!(event(&mut c, UiEvent::MenuTerminalSubmit(true))[0], Effect::SaveSettings));
    assert!(c.settings().auto_submit && c.settings().allow_terminal_submit);
}

#[test]
fn the_waveform_follows_the_level_while_the_overlay_is_open() {
    let mut c = coordinator(settings(false, false));
    event(&mut c, UiEvent::Level(7));
    assert!(event(&mut c, UiEvent::Tick).is_empty());
    let mut c = recording(settings(false, false), target());
    let half = 0.5f32.to_bits();
    assert!(event(&mut c, UiEvent::Level(half)).is_empty());
    assert_eq!(c.overlay().level, 0);
    assert!(matches!(event(&mut c, UiEvent::Tick)[0], Effect::Animate));
    assert_eq!(f32::from_bits(c.overlay().level), 0.5);
}

#[test]
fn a_press_during_a_dictation_is_ignored() {
    let mut c = recording(settings(false, false), target());
    assert!(event(&mut c, UiEvent::FnDown).is_empty());
    event(&mut c, UiEvent::FnUp);
    assert!(event(&mut c, UiEvent::FnDown).is_empty());
    assert!(event(&mut c, UiEvent::FnChord).is_empty());
    assert!(event(&mut c, UiEvent::FnUp).is_empty());
}

#[test]
fn replies_out_of_turn_change_nothing() {
    let mut c = inserting(settings(true, true), target(), "hi");
    assert!(c.resume(Reply::ClipboardSet(true)).is_empty());
    assert!(c.resume(Reply::Elapsed).is_empty());
    assert!(c.is_waiting());
    assert_eq!(c.phase(), Phase::Inserting);
    let mut c = coordinator(settings(true, true));
    assert!(c.resume(Reply::Secure(false)).is_empty());
    assert!(!c.is_waiting());
}

#[test]
fn without_secure_checks_no_key_is_pressed_in_any_short_run() {
    // Every reply but the one that says that the field is no password field.
    let replies: Vec<fn() -> Reply> = vec![
        || Reply::Activated(true),
        || Reply::Elapsed,
        || Reply::Front(Some(target())),
        || Reply::Secure(true),
        || Reply::Clipboard(None),
        || Reply::ClipboardSet(true),
    ];
    for n in 0..6usize.pow(5) {
        let mut c = inserting(settings(true, true), target(), "hi");
        let mut rest = n;
        for _ in 0..5 {
            let effects = c.resume(replies[rest % 6]());
            assert!(!effects.iter().any(|e| matches!(e, Effect::PostKey { .. })));
            rest /= 6;
        }
    }
}
