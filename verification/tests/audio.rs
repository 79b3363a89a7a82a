use fntype::audio::{
    capture_block, control, open_next, open_stream, pcm_bytes, recover_or_release, send_outs, CaptureGate, Cmd,
    GateOut, HealthClock, LevelClock, MicError, OpenStep, StreamAction, CHUNK_BYTES,
    LEVEL_INTERVAL, PREROLL_BYTES, REOPEN_BACKOFF,
};
use fntype::ws::WsCmd;

fn pcm(tag: u8, n: usize) -> Vec<u8> {
    vec![tag; n]
}

fn audio_bytes(out: &[GateOut]) -> Vec<u8> {
    out.iter()
        .filter_map(|event| match event {
            GateOut::Audio(bytes) => Some(bytes.as_slice()),
            _ => None,
        })
        .flatten()
        .copied()
        .collect()
}

#[test]
fn idle_samples_stay_local() {
    let mut gate = CaptureGate::new();
    assert!(gate.ingest(&pcm(1, CHUNK_BYTES * 2)).is_empty());
    assert!(gate.ingest(&pcm(1, PREROLL_BYTES)).is_empty());
    assert!(!gate.armed);
    assert!(gate.pending.is_empty());
}

#[test]
fn preroll_drops_oldest_bytes_past_cap() {
    let mut gate = CaptureGate::new();
    assert!(gate.ingest(&pcm(1, PREROLL_BYTES + 64)).is_empty());
    assert!(gate.ingest(&pcm(2, PREROLL_BYTES)).is_empty());
    let out = gate.start();
    assert_eq!(out.first(), Some(&GateOut::BeginUtterance));
    let bytes = audio_bytes(&out);
    assert!(bytes.iter().all(|b| *b == 2));
    assert!(bytes.len() <= PREROLL_BYTES);
    assert_eq!(bytes.len() + gate.pending.len(), PREROLL_BYTES);
}

#[test]
fn start_flushes_preroll_before_live_samples() {
    let mut gate = CaptureGate::new();
    assert!(gate.ingest(&pcm(1, CHUNK_BYTES)).is_empty());
    let started = gate.start();
    assert_eq!(started[0], GateOut::BeginUtterance);
    assert_eq!(started[1], GateOut::Audio(pcm(1, CHUNK_BYTES)));
    let live = gate.ingest(&pcm(2, CHUNK_BYTES));
    assert_eq!(live, vec![GateOut::Audio(pcm(2, CHUNK_BYTES))]);
}

#[test]
fn stop_finalize_emits_tail_then_finalize() {
    let mut gate = CaptureGate::new();
    assert_eq!(gate.start(), vec![GateOut::BeginUtterance]);
    assert!(gate.ingest(&pcm(3, 100)).is_empty());
    assert_eq!(
        gate.stop_finalize(),
        vec![GateOut::Audio(pcm(3, 100)), GateOut::Finalize]
    );
    assert!(!gate.armed);
    assert!(gate.ingest(&pcm(4, CHUNK_BYTES)).is_empty());
}

#[test]
fn stop_discard_drops_everything() {
    let mut gate = CaptureGate::new();
    assert!(gate.ingest(&pcm(1, CHUNK_BYTES)).is_empty());
    let _ = gate.start();
    let _ = gate.ingest(&pcm(2, 50));
    assert!(gate.stop_discard().is_empty());
    assert_eq!(gate.start(), vec![GateOut::BeginUtterance]);
    assert_eq!(gate.stop_finalize(), vec![GateOut::Finalize]);
}

#[test]
fn start_sends_begin_utterance_before_audio() {
    let mut gate = CaptureGate::new();
    assert_eq!(gate.start(), vec![GateOut::BeginUtterance]);
    assert!(gate.ingest(&pcm(9, CHUNK_BYTES - 1)).is_empty());
    assert_eq!(
        gate.ingest(&pcm(9, 1)),
        vec![GateOut::Audio(pcm(9, CHUNK_BYTES))]
    );
}

#[test]
fn armed_samples_emit_full_chunks_only() {
    let mut gate = CaptureGate::new();
    let _ = gate.start();
    assert!(gate.ingest(&pcm(7, CHUNK_BYTES - 1)).is_empty());
    assert_eq!(
        gate.ingest(&pcm(7, 1)),
        vec![GateOut::Audio(pcm(7, CHUNK_BYTES))]
    );
    assert!(gate.pending.is_empty());
}

#[test]
fn several_chunks_come_out_in_order_and_the_rest_stays() {
    let mut gate = CaptureGate::new();
    let _ = gate.start();
    let mut input = pcm(1, CHUNK_BYTES);
    input.extend(pcm(2, CHUNK_BYTES));
    input.extend(pcm(3, 10));
    assert_eq!(
        gate.ingest(&input),
        vec![
            GateOut::Audio(pcm(1, CHUNK_BYTES)),
            GateOut::Audio(pcm(2, CHUNK_BYTES)),
        ]
    );
    assert_eq!(gate.pending, pcm(3, 10));
}

#[test]
fn nothing_captured_during_an_utterance_is_lost() {
    let mut gate = CaptureGate::new();
    let mut sent = audio_bytes(&gate.start());
    let mut captured: Vec<u8> = Vec::new();
    for n in 0u32..50 {
        let block: Vec<u8> = (0..(n as usize * 37 % 5_000)).map(|i| (i % 251) as u8).collect();
        captured.extend(&block);
        sent.extend(audio_bytes(&gate.ingest(&block)));
    }
    sent.extend(audio_bytes(&gate.stop_finalize()));
    assert_eq!(sent, captured);
}

#[test]
fn starting_twice_begins_one_utterance() {
    let mut gate = CaptureGate::new();
    assert_eq!(gate.start(), vec![GateOut::BeginUtterance]);
    assert!(gate.start().is_empty());
    assert!(gate.armed);
}

#[test]
fn empty_input_changes_nothing() {
    let mut gate = CaptureGate::new();
    let _ = gate.start();
    assert!(gate.ingest(&[]).is_empty());
    assert!(gate.pending.is_empty());
}

#[test]
fn outputs_become_commands_in_order() {
    let cmds = send_outs(vec![
        GateOut::BeginUtterance,
        GateOut::Audio(vec![1, 2]),
        GateOut::Finalize,
    ]);
    assert_eq!(cmds.len(), 3);
    assert!(matches!(cmds[0], WsCmd::BeginUtterance));
    assert!(matches!(&cmds[1], WsCmd::Audio(bytes) if bytes == &vec![1, 2]));
    assert!(matches!(cmds[2], WsCmd::Finalize));
}

#[test]
fn commands_drive_gate_and_stream() {
    let mut gate = CaptureGate::new();
    let started = control(Cmd::Start, &mut gate, false);
    assert!(gate.armed);
    assert_eq!(started.stream, StreamAction::Open);
    assert_eq!(started.send.len(), 1);
    assert!(matches!(started.send[0], WsCmd::BeginUtterance));

    let again = control(Cmd::Start, &mut gate, true);
    assert_eq!(again.stream, StreamAction::Keep);
    assert!(again.send.is_empty());

    let _ = gate.ingest(&pcm(5, 8));
    let stopped = control(Cmd::StopFinalize, &mut gate, true);
    assert!(!gate.armed);
    assert_eq!(stopped.stream, StreamAction::Close);
    assert_eq!(stopped.send.len(), 2);
    assert!(matches!(&stopped.send[0], WsCmd::Audio(bytes) if bytes == &pcm(5, 8)));
    assert!(matches!(stopped.send[1], WsCmd::Finalize));

    let _ = control(Cmd::Start, &mut gate, false);
    let _ = gate.ingest(&pcm(5, 8));
    let dropped = control(Cmd::StopDiscard, &mut gate, true);
    assert!(dropped.send.is_empty());
    assert_eq!(dropped.stream, StreamAction::Close);
    assert!(gate.pending.is_empty());
}

#[test]
fn a_stream_is_released_when_idle_and_recovered_when_armed() {
    assert_eq!(recover_or_release(false, true, true), StreamAction::Close);
    assert_eq!(recover_or_release(false, true, false), StreamAction::Keep);
    assert_eq!(recover_or_release(true, false, true), StreamAction::Keep);
    assert_eq!(recover_or_release(true, true, true), StreamAction::Open);
    assert_eq!(recover_or_release(true, false, false), StreamAction::Open);
}

#[test]
fn the_stream_is_checked_every_two_seconds() {
    let mut clock = HealthClock::new(1_000);
    assert!(!clock.due(1_000 + REOPEN_BACKOFF - 1));
    assert!(clock.due(1_000 + REOPEN_BACKOFF));
    assert!(!clock.due(1_000 + REOPEN_BACKOFF + 1));
    assert_eq!(clock.next, 1_000 + 2 * REOPEN_BACKOFF);
    assert_eq!(HealthClock::new(u64::MAX - 1).next, u64::MAX);
}

#[test]
fn loudness_is_reported_only_while_armed_and_not_too_often() {
    let mut clock = LevelClock { last: 0 };
    assert!(!clock.due(false, LEVEL_INTERVAL * 3));
    assert!(!clock.due(true, LEVEL_INTERVAL - 1));
    assert!(clock.due(true, LEVEL_INTERVAL));
    assert_eq!(clock.last, LEVEL_INTERVAL);
    assert!(!clock.due(true, LEVEL_INTERVAL + 1));
}

#[test]
fn microphone_errors_read_as_sentences() {
    assert_eq!(MicError::NoInput.message(), "No microphone input is available.");
    assert_eq!(
        MicError::Unavailable { label: "Mic".into(), error: "busy".into() }.message(),
        "Microphone Mic is unavailable: busy"
    );
    assert_eq!(
        MicError::UnsupportedFormat("F64".into()).message(),
        "Unsupported microphone sample format: F64"
    );
    assert_eq!(
        MicError::CannotOpen { label: "Mic".into(), error: "busy".into() }.message(),
        "Could not open the microphone Mic: busy"
    );
    assert_eq!(
        MicError::CannotStart("gone".into()).message(),
        "Could not start the microphone: gone"
    );
}

#[test]
fn candidates_are_tried_in_turn_and_the_last_error_is_reported() {
    assert!(matches!(
        open_stream(0),
        OpenStep::GiveUp(message) if message == "No microphone input is available."
    ));
    assert!(matches!(open_stream(2), OpenStep::Try(0)));
    assert!(matches!(open_next(0, 2, "first".into()), OpenStep::Try(1)));
    assert!(matches!(
        open_next(1, 2, "second".into()),
        OpenStep::GiveUp(message) if message == "second"
    ));
}

#[test]
fn samples_are_written_little_endian() {
    assert_eq!(pcm_bytes(&[]), Vec::<u8>::new());
    assert_eq!(pcm_bytes(&[1, -1, 256, i16::MIN]), vec![1, 0, 255, 255, 0, 1, 0, 128]);
    for sample in [i16::MIN, -12_345, -1, 0, 1, 12_345, i16::MAX] {
        assert_eq!(pcm_bytes(&[sample]), sample.to_le_bytes().to_vec());
    }
    assert_eq!(pcm_bytes(&vec![7i16; 1_600]).len(), CHUNK_BYTES);
}

#[test]
fn a_block_reports_loudness_and_sends_whole_chunks() {
    let mut gate = CaptureGate::new();
    let mut clock = LevelClock { last: 0 };
    let idle = capture_block(&mut gate, &mut clock, &[1, 2], LEVEL_INTERVAL);
    assert!(!idle.report_level && idle.send.is_empty());
    assert_eq!(gate.preroll, vec![1, 0, 2, 0]);
    let _ = gate.stop_discard();
    let _ = gate.start();
    let nothing = capture_block(&mut gate, &mut clock, &[], LEVEL_INTERVAL);
    assert!(!nothing.report_level && nothing.send.is_empty());
    let block = capture_block(&mut gate, &mut clock, &vec![3i16; 1_601], LEVEL_INTERVAL);
    assert!(block.report_level);
    assert_eq!(clock.last, LEVEL_INTERVAL);
    assert_eq!(block.send.len(), 1);
    assert!(matches!(&block.send[0], WsCmd::Audio(chunk) if chunk.len() == CHUNK_BYTES));
    assert_eq!(gate.pending, vec![3, 0]);
}
