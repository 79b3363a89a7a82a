//! Microphone capture: a gate that frames PCM while Fn is held, and the decisions of the
//! capture loop.

use vstd::prelude::*;

use crate::ws::{self, Command, WsCmd};

verus! {

/// A command to the capture loop.
#[derive(Clone, Copy, PartialEq, Eq, Structural, Debug)]
pub enum Cmd {
    Start,
    /// Stop capturing, flush the tail chunk, then send `finalize` (order preserved).
    StopFinalize,
    StopDiscard,
}

/// 100 ms of PCM16 @ 16 kHz.
pub const CHUNK_BYTES: usize = 3_200;

/// Local lookback so FN-down -> arm latency does not clip the first phonemes:
/// 250 ms of PCM16 @ 16 kHz.
pub const PREROLL_BYTES: usize = 8_000;

/// What the capture gate hands on.
#[derive(Debug, Clone, PartialEq, Eq)]
pub enum GateOut {
    BeginUtterance,
    Audio(Vec<u8>),
    Finalize,
}

/// Arms/disarms capture. Idle samples stay on-device in a short preroll.
pub struct CaptureGate {
    pub armed: bool,
    pub preroll: Vec<u8>,
    pub pending: Vec<u8>,
}

// ---- Model of the capture gate ----

/// A [`GateOut`] by its contents.
pub enum Out {
    Begin,
    Audio(Seq<u8>),
    Finalize,
}

/// What a [`CaptureGate`] holds.
#[verifier::ext_equal]
pub struct Gate {
    pub armed: bool,
    pub preroll: Seq<u8>,
    pub pending: Seq<u8>,
}

impl View for GateOut {
    type V = Out;

    open spec fn view(&self) -> Out {
        match self {
            GateOut::BeginUtterance => Out::Begin,
            GateOut::Audio(bytes) => Out::Audio(bytes@),
            GateOut::Finalize => Out::Finalize,
        }
    }
}

impl View for CaptureGate {
    type V = Gate;

    open spec fn view(&self) -> Gate {
        Gate { armed: self.armed, preroll: self.preroll@, pending: self.pending@ }
    }
}

/// The contents of each of `outs`.
pub open spec fn out_views(outs: Seq<GateOut>) -> Seq<Out> {
    Seq::new(outs.len(), |i: int| outs[i]@)
}

/// The number of bytes of `s` that fill whole chunks.
pub open spec fn whole_bytes(s: Seq<u8>) -> int {
    (s.len() as int / CHUNK_BYTES as int) * CHUNK_BYTES as int
}

/// The whole chunks at the front of `s`, in order.
pub open spec fn full_chunks(s: Seq<u8>) -> Seq<Out> {
    Seq::new(
        (s.len() as int / CHUNK_BYTES as int) as nat,
        |k: int| Out::Audio(s.subrange(k * CHUNK_BYTES as int, (k + 1) * CHUNK_BYTES as int)),
    )
}

/// The last `n` elements of `s`, all of them if there are fewer.
pub open spec fn last_n(s: Seq<u8>, n: int) -> Seq<u8> {
    if s.len() > n {
        s.skip(s.len() - n)
    } else {
        s
    }
}

impl Gate {
    /// A gate that was never armed.
    pub open spec fn idle() -> Gate {
        Gate { armed: false, preroll: Seq::empty(), pending: Seq::empty() }
    }

    /// The lookback is short, it is empty while armed, and what waits to be sent is less than
    /// a chunk, and nothing while idle.
    pub open spec fn wf(self) -> bool {
        &&& self.preroll.len() <= PREROLL_BYTES
        &&& self.armed ==> self.preroll.len() == 0
        &&& self.pending.len() < CHUNK_BYTES
        &&& !self.armed ==> self.pending.len() == 0
    }

    /// The capture gate after `pcm` came in: idle, the last [`PREROLL_BYTES`] are kept; armed, what
    /// does not fill a chunk.
    pub open spec fn after_ingest(self, pcm: Seq<u8>) -> Gate {
        if pcm.len() == 0 {
            self
        } else if self.armed {
            let all = self.pending + pcm;
            Gate { pending: all.skip(whole_bytes(all)), ..self }
        } else {
            Gate { preroll: last_n(self.preroll + pcm, PREROLL_BYTES as int), ..self }
        }
    }

    /// What is handed on when `pcm` comes in: nothing while idle.
    pub open spec fn out_ingest(self, pcm: Seq<u8>) -> Seq<Out> {
        if self.armed && pcm.len() > 0 {
            full_chunks(self.pending + pcm)
        } else {
            Seq::empty()
        }
    }

    /// The capture gate after it was armed; the lookback comes first.
    pub open spec fn after_start(self) -> Gate {
        if self.armed {
            self
        } else {
            let all = self.preroll + self.pending;
            Gate { armed: true, preroll: Seq::empty(), pending: all.skip(whole_bytes(all)) }
        }
    }

    /// What arming hands on: the start of the utterance, then the whole chunks of the lookback.
    pub open spec fn out_start(self) -> Seq<Out> {
        if self.armed {
            Seq::empty()
        } else {
            seq![Out::Begin] + full_chunks(self.preroll + self.pending)
        }
    }

    /// What ending an utterance hands on: the tail, if any, then the end.
    pub open spec fn out_finalize(self) -> Seq<Out> {
        if self.pending.len() > 0 {
            seq![Out::Audio(self.pending), Out::Finalize]
        } else {
            seq![Out::Finalize]
        }
    }
}

impl CaptureGate {
    pub fn new() -> (r: Self)
        ensures
            r@ == Gate::idle(),
    {
        let r = CaptureGate {
            armed: false,
            preroll: Vec::with_capacity(PREROLL_BYTES),
            pending: Vec::with_capacity(CHUNK_BYTES),
        };
        assert(r@ =~= Gate::idle());
        r
    }

    /// Takes in captured samples.
    pub fn ingest(&mut self, pcm: &[u8]) -> (r: Vec<GateOut>)
        ensures
            final(self)@ == old(self)@.after_ingest(pcm@),
            out_views(r@) == old(self)@.out_ingest(pcm@),
    {
        if pcm.is_empty() {
            let r: Vec<GateOut> = Vec::new();
            assert(out_views(r@) =~= self@.out_ingest(pcm@));
            return r;
        }
        if !self.armed {
            self.preroll.extend_from_slice(pcm);
            assert(self.preroll@ =~= old(self).preroll@ + pcm@);
            if self.preroll.len() > PREROLL_BYTES {
                let excess = self.preroll.len() - PREROLL_BYTES;
                let kept = self.preroll.split_off(excess);
                self.preroll = kept;
            }
            assert(self@ =~= old(self)@.after_ingest(pcm@));
            let r: Vec<GateOut> = Vec::new();
            assert(out_views(r@) =~= old(self)@.out_ingest(pcm@));
            return r;
        }
        self.pending.extend_from_slice(pcm);
        assert(self.pending@ =~= old(self).pending@ + pcm@);
        let r = self.take_full_chunks();
        assert(self@ =~= old(self)@.after_ingest(pcm@));
        r
    }

    /// Arms the capture gate.
    pub fn start(&mut self) -> (r: Vec<GateOut>)
        ensures
            final(self)@ == old(self)@.after_start(),
            out_views(r@) == old(self)@.out_start(),
    {
        if self.armed {
            let r: Vec<GateOut> = Vec::new();
            assert(out_views(r@) =~= self@.out_start());
            return r;
        }
        self.armed = true;
        let mut out: Vec<GateOut> = Vec::new();
        out.push(GateOut::BeginUtterance);
        let mut preroll: Vec<u8> = Vec::new();
        preroll.append(&mut self.preroll);
        preroll.append(&mut self.pending);
        self.pending = preroll;
        assert(self.pending@ =~= old(self).preroll@ + old(self).pending@);
        let mut chunks = self.take_full_chunks();
        let ghost tail = chunks@;
        out.append(&mut chunks);
        assert(self@ =~= old(self)@.after_start());
        assert(out_views(out@) =~= old(self)@.out_start()) by {
            assert(out_views(tail) == full_chunks(old(self).preroll@ + old(self).pending@));
            assert forall|i: int| 0 <= i < tail.len() implies out_views(out@)[i + 1]
                == #[trigger] out_views(tail)[i] by {}
            assert forall|i: int| 0 <= i < out@.len() implies out_views(out@)[i]
                == old(self)@.out_start()[i] by {
                if i > 0 {
                    assert(out_views(out@)[(i - 1) + 1] == out_views(tail)[i - 1]);
                }
            }
        }
        out
    }

    /// Disarms the capture gate and ends the utterance.
    pub fn stop_finalize(&mut self) -> (r: Vec<GateOut>)
        ensures
            final(self)@ == Gate::idle(),
            out_views(r@) == old(self)@.out_finalize(),
    {
        self.armed = false;
        self.preroll.clear();
        let mut out: Vec<GateOut> = Vec::new();
        let mut tail: Vec<u8> = Vec::new();
        tail.append(&mut self.pending);
        assert(tail@ =~= old(self).pending@);
        if !tail.is_empty() {
            out.push(GateOut::Audio(tail));
        }
        out.push(GateOut::Finalize);
        assert(self@ =~= Gate::idle());
        assert(out_views(out@) =~= old(self)@.out_finalize());
        out
    }

    /// Disarms the capture gate and drops everything.
    pub fn stop_discard(&mut self) -> (r: Vec<GateOut>)
        ensures
            final(self)@ == Gate::idle(),
            r@.len() == 0,
    {
        self.armed = false;
        self.pending.clear();
        self.preroll.clear();
        assert(self@ =~= Gate::idle());
        Vec::new()
    }

    /// Hands on the whole chunks of what waits to be sent.
    pub fn take_full_chunks(&mut self) -> (r: Vec<GateOut>)
        ensures
            out_views(r@) == full_chunks(old(self).pending@),
            final(self).pending@ == old(self).pending@.skip(whole_bytes(old(self).pending@)),
            final(self).armed == old(self).armed,
            final(self).preroll@ == old(self).preroll@,
    {
        let ghost all = self.pending@;
        let c = CHUNK_BYTES;
        let mut out: Vec<GateOut> = Vec::new();
        assert(all.skip(0) == all);
        while self.pending.len() >= CHUNK_BYTES
            invariant
                c == CHUNK_BYTES,
                self.armed == old(self).armed,
                self.preroll@ == old(self).preroll@,
                out@.len() * CHUNK_BYTES <= all.len(),
                self.pending@ == all.skip(out@.len() * CHUNK_BYTES),
                forall|k: int|
                    0 <= k < out@.len() ==> (#[trigger] out@[k])@ == Out::Audio(
                        all.subrange(k * CHUNK_BYTES, (k + 1) * CHUNK_BYTES),
                    ),
            decreases self.pending@.len(),
        {
            let ghost k = out@.len() as int;
            let rest = self.pending.split_off(CHUNK_BYTES);
            let mut chunk: Vec<u8> = Vec::new();
            chunk.append(&mut self.pending);
            self.pending = rest;
            assert(chunk@ =~= all.subrange(k * CHUNK_BYTES, (k + 1) * CHUNK_BYTES));
            assert(self.pending@ =~= all.skip((k + 1) * CHUNK_BYTES));
            out.push(GateOut::Audio(chunk));
        }
        proof {
            let k = out@.len() as int;
            assert(all.len() - k * CHUNK_BYTES < CHUNK_BYTES);
            assert(all.len() as int / CHUNK_BYTES as int == k);
            assert(out_views(out@) =~= full_chunks(all));
        }
        out
    }
}

// ---- The capture loop ----

/// The capture loop waits this long for a command before it looks after the stream: 400 ms, in
/// nanoseconds.
pub const HEALTH_INTERVAL: u64 = 400_000_000;

/// The stream is checked, and reopened if need be, at most this often: 2 s, in nanoseconds.
pub const REOPEN_BACKOFF: u64 = 2_000_000_000;

/// The loudness is reported at most this often: 50 ms, in nanoseconds.
pub const LEVEL_INTERVAL: u64 = 50_000_000;

/// What is to be done with the microphone stream.
#[derive(Clone, Copy, PartialEq, Eq, Structural, Debug)]
pub enum StreamAction {
    Keep,
    Open,
    Close,
}

/// What a command leads to.
pub struct Control {
    /// To the connection, in this order.
    pub send: Vec<WsCmd>,
    /// Then to the stream.
    pub stream: StreamAction,
}

/// The command to the connection for one output of the capture gate.
pub open spec fn command_for(out: Out) -> Command {
    match out {
        Out::Begin => Command::BeginUtterance,
        Out::Audio(bytes) => Command::Audio(bytes),
        Out::Finalize => Command::Finalize,
    }
}

/// The contents of each command.
pub open spec fn command_views(cmds: Seq<WsCmd>) -> Seq<Command> {
    Seq::new(cmds.len(), |i: int| cmds[i]@)
}

/// The commands to the connection for the outputs of the capture gate, in order.
pub fn send_outs(outs: Vec<GateOut>) -> (r: Vec<WsCmd>)
    ensures
        command_views(r@) == out_views(outs@).map_values(|o: Out| command_for(o)),
{
    let mut cmds: Vec<WsCmd> = Vec::new();
    for out in it: outs
        invariant
            it.seq() == outs@,
            cmds@.len() == it.index(),
            forall|k: int|
                0 <= k < cmds@.len() ==> (#[trigger] cmds@[k])@ == command_for(outs@[k]@),
    {
        let cmd = match out {
            GateOut::BeginUtterance => WsCmd::BeginUtterance,
            GateOut::Audio(chunk) => WsCmd::Audio(chunk),
            GateOut::Finalize => WsCmd::Finalize,
        };
        cmds.push(cmd);
    }
    assert(command_views(cmds@) =~= out_views(outs@).map_values(|o: Out| command_for(o)));
    cmds
}

/// What the capture gate hands on for a command.
pub open spec fn out_control(cmd: Cmd, gate: Gate) -> Seq<Out> {
    match cmd {
        Cmd::Start => gate.out_start(),
        Cmd::StopFinalize => gate.out_finalize(),
        Cmd::StopDiscard => Seq::empty(),
    }
}

/// Carries out a command on the capture gate and says what follows for connection and stream.
pub fn control(cmd: Cmd, gate: &mut CaptureGate, stream_open: bool) -> (r: Control)
    ensures
        final(gate)@ == match cmd {
            Cmd::Start => old(gate)@.after_start(),
            _ => Gate::idle(),
        },
        command_views(r.send@) == out_control(cmd, old(gate)@).map_values(
            |o: Out| command_for(o),
        ),
        r.stream == match cmd {
            Cmd::Start => if stream_open {
                StreamAction::Keep
            } else {
                StreamAction::Open
            },
            _ => StreamAction::Close,
        },
{
    match cmd {
        Cmd::Start => {
            let outs = gate.start();
            Control {
                send: send_outs(outs),
                stream: if stream_open {
                    StreamAction::Keep
                } else {
                    StreamAction::Open
                },
            }
        },
        Cmd::StopFinalize => {
            let outs = gate.stop_finalize();
            Control { send: send_outs(outs), stream: StreamAction::Close }
        },
        Cmd::StopDiscard => {
            let outs = gate.stop_discard();
            assert(out_views(outs@) =~= Seq::<Out>::empty());
            Control { send: send_outs(outs), stream: StreamAction::Close }
        },
    }
}

/// What a check of the stream leads to: idle, a stream is closed; armed, one that failed or is
/// missing is opened. A failure counts once.
pub fn recover_or_release(armed: bool, failed: bool, stream_open: bool) -> (r: StreamAction)
    ensures
        r == if !armed {
            if stream_open {
                StreamAction::Close
            } else {
                StreamAction::Keep
            }
        } else if failed || !stream_open {
            StreamAction::Open
        } else {
            StreamAction::Keep
        },
{
    if !armed {
        if stream_open {
            return StreamAction::Close;
        }
        return StreamAction::Keep;
    }
    if !failed && stream_open {
        return StreamAction::Keep;
    }
    StreamAction::Open
}

/// When the stream is checked next, in nanoseconds on a monotonic clock.
pub struct HealthClock {
    pub next: u64,
}

/// `delay` after `now`, or the last representable point in time.
pub open spec fn later(now: u64, delay: u64) -> u64 {
    if now + delay <= u64::MAX {
        (now + delay) as u64
    } else {
        u64::MAX
    }
}

fn add_delay(now: u64, delay: u64) -> (r: u64)
    ensures
        r == later(now, delay),
{
    if now <= u64::MAX - delay {
        now + delay
    } else {
        u64::MAX
    }
}

impl HealthClock {
    pub fn new(now: u64) -> (r: Self)
        ensures
            r.next == later(now, REOPEN_BACKOFF),
    {
        HealthClock { next: add_delay(now, REOPEN_BACKOFF) }
    }

    /// Whether the stream is to be checked now; then the next check is set.
    pub fn due(&mut self, now: u64) -> (r: bool)
        ensures
            r == (now >= old(self).next),
            final(self).next == if now >= old(self).next {
                later(now, REOPEN_BACKOFF)
            } else {
                old(self).next
            },
    {
        if now >= self.next {
            self.next = add_delay(now, REOPEN_BACKOFF);
            true
        } else {
            false
        }
    }
}

/// When the loudness was reported last, in nanoseconds on a monotonic clock.
pub struct LevelClock {
    pub last: u64,
}

impl LevelClock {
    /// Whether the loudness is to be reported now: only while armed, and not too often.
    pub fn due(&mut self, armed: bool, now: u64) -> (r: bool)
        ensures
            r == (armed && ws::elapsed(old(self).last, now) >= LEVEL_INTERVAL),
            final(self).last == if r {
                now
            } else {
                old(self).last
            },
    {
        if armed && ws::since(self.last, now) >= LEVEL_INTERVAL {
            self.last = now;
            true
        } else {
            false
        }
    }
}

// ---- Opening a stream ----

/// Why there is no microphone stream.
pub enum MicError {
    NoInput,
    Unavailable { label: String, error: String },
    UnsupportedFormat(String),
    CannotOpen { label: String, error: String },
    CannotStart(String),
}

impl MicError {
    /// What the error reads.
    pub open spec fn reads(self) -> Seq<char> {
        match self {
            MicError::NoInput => "No microphone input is available."@,
            MicError::Unavailable { label, error } => "Microphone "@ + label@
                + " is unavailable: "@ + error@,
            MicError::UnsupportedFormat(format) => "Unsupported microphone sample format: "@
                + format@,
            MicError::CannotOpen { label, error } => "Could not open the microphone "@ + label@
                + ": "@ + error@,
            MicError::CannotStart(error) => "Could not start the microphone: "@ + error@,
        }
    }

    /// What the error reads.
    pub fn message(&self) -> (r: String)
        ensures
            r@ == self.reads(),
    {
        match self {
            MicError::NoInput => "No microphone input is available.".to_owned(),
            MicError::Unavailable { label, error } => {
                let mut out = "Microphone ".to_owned();
                out.append(label.as_str());
                out.append(" is unavailable: ");
                out.append(error.as_str());
                out
            },
            MicError::UnsupportedFormat(format) => {
                let mut out = "Unsupported microphone sample format: ".to_owned();
                out.append(format.as_str());
                out
            },
            MicError::CannotOpen { label, error } => {
                let mut out = "Could not open the microphone ".to_owned();
                out.append(label.as_str());
                out.append(": ");
                out.append(error.as_str());
                out
            },
            MicError::CannotStart(error) => {
                let mut out = "Could not start the microphone: ".to_owned();
                out.append(error.as_str());
                out
            },
        }
    }
}

/// How opening a stream goes on.
pub enum OpenStep {
    /// Try the candidate at this position.
    Try(usize),
    /// No candidate is left; report this.
    GiveUp(String),
}

/// Opens the first of `candidates` devices: without any, there is no input.
pub fn open_stream(candidates: usize) -> (r: OpenStep)
    ensures
        match r {
            OpenStep::Try(i) => candidates > 0 && i == 0,
            OpenStep::GiveUp(message) => candidates == 0 && message@ == MicError::NoInput.reads(),
        },
{
    if candidates == 0 {
        OpenStep::GiveUp(MicError::NoInput.message())
    } else {
        OpenStep::Try(0)
    }
}

/// Goes on after the candidate at `tried` failed: the next one is tried, and the last error is
/// the one that is reported.
pub fn open_next(tried: usize, candidates: usize, error: String) -> (r: OpenStep)
    requires
        tried < candidates,
    ensures
        match r {
            OpenStep::Try(i) => i == tried + 1 && i < candidates,
            OpenStep::GiveUp(message) => tried + 1 == candidates && message == error,
        },
{
    if tried + 1 < candidates {
        OpenStep::Try(tried + 1)
    } else {
        OpenStep::GiveUp(error)
    }
}

// ---- Samples ----

/// The bytes of a sample, little-endian.
pub open spec fn sample_bytes(sample: i16) -> Seq<u8> {
    let n: int = if sample >= 0 {
        sample as int
    } else {
        sample as int + 65536
    };
    seq![(n % 256) as u8, (n / 256) as u8]
}

/// The bytes of `samples`, one after the other.
pub open spec fn pcm_of(samples: Seq<i16>) -> Seq<u8>
    decreases samples.len(),
{
    if samples.len() == 0 {
        Seq::empty()
    } else {
        pcm_of(samples.drop_last()) + sample_bytes(samples.last())
    }
}

/// Samples as little-endian PCM16.
pub fn pcm_bytes(samples: &[i16]) -> (r: Vec<u8>)
    ensures
        r@ == pcm_of(samples@),
{
    let mut out: Vec<u8> = Vec::new();
    let mut i: usize = 0;
    while i < samples.len()
        invariant
            i <= samples@.len(),
            out@ == pcm_of(samples@.take(i as int)),
        decreases samples@.len() - i,
    {
        let sample = samples[i];
        let wide: i32 = if sample >= 0 {
            sample as i32
        } else {
            sample as i32 + 65536
        };
        let n: u32 = wide as u32;
        out.push((n % 256) as u8);
        out.push((n / 256) as u8);
        assert(samples@.take(i + 1).drop_last() == samples@.take(i as int));
        assert(samples@.take(i + 1).last() == sample);
        assert(out@ =~= pcm_of(samples@.take(i as int)) + sample_bytes(sample));
        i = i + 1;
    }
    assert(samples@.take(i as int) == samples@);
    out
}

/// What a block of samples leads to.
pub struct Block {
    /// The loudness of the block is to be reported.
    pub report_level: bool,
    /// To the connection, in this order.
    pub send: Vec<WsCmd>,
}

/// Takes in a block of samples at 16 kHz. An empty one changes nothing.
pub fn capture_block(
    gate: &mut CaptureGate,
    clock: &mut LevelClock,
    samples: &[i16],
    now: u64,
) -> (r: Block)
    ensures
        final(gate)@ == old(gate)@.after_ingest(pcm_of(samples@)),
        command_views(r.send@) == old(gate)@.out_ingest(pcm_of(samples@)).map_values(
            |o: Out| command_for(o),
        ),
        r.report_level == (samples@.len() > 0 && old(gate)@.armed && ws::elapsed(
            old(clock).last,
            now,
        ) >= LEVEL_INTERVAL),
        final(clock).last == if r.report_level {
            now
        } else {
            old(clock).last
        },
{
    if samples.len() == 0 {
        let send: Vec<WsCmd> = Vec::new();
        assert(command_views(send@) =~= old(gate)@.out_ingest(pcm_of(samples@)).map_values(
            |o: Out| command_for(o),
        ));
        return Block { report_level: false, send };
    }
    let pcm = pcm_bytes(samples);
    let report_level = clock.due(gate.armed, now);
    let outs = gate.ingest(&pcm);
    Block { report_level, send: send_outs(outs) }
}

/// Each sample takes two bytes, so a chunk holds 1600 samples: 100 ms at 16 kHz.
pub proof fn law_a_sample_takes_two_bytes(samples: Seq<i16>)
    ensures
        pcm_of(samples).len() == 2 * samples.len(),
        samples.len() == 1600 ==> pcm_of(samples).len() == CHUNK_BYTES,
    decreases samples.len(),
{
    if samples.len() > 0 {
        law_a_sample_takes_two_bytes(samples.drop_last());
    }
}

// ---- Laws of the capture gate ----

/// The audio of `outs`, concatenated.
pub open spec fn audio_bytes(outs: Seq<Out>) -> Seq<u8>
    decreases outs.len(),
{
    if outs.len() == 0 {
        Seq::empty()
    } else {
        match outs.last() {
            Out::Audio(bytes) => audio_bytes(outs.drop_last()) + bytes,
            _ => audio_bytes(outs.drop_last()),
        }
    }
}

proof fn lemma_audio_append(a: Seq<Out>, b: Seq<Out>)
    ensures
        audio_bytes(a + b) == audio_bytes(a) + audio_bytes(b),
    decreases b.len(),
{
    if b.len() == 0 {
        assert(a + b == a);
    } else {
        assert((a + b).drop_last() == a + b.drop_last());
        lemma_audio_append(a, b.drop_last());
        assert(audio_bytes(a + b) == audio_bytes(a) + audio_bytes(b));
    }
}

proof fn lemma_first_chunks(s: Seq<u8>, n: nat)
    requires
        n * CHUNK_BYTES <= s.len(),
    ensures
        audio_bytes(full_chunks(s).take(n as int)) == s.take(n * CHUNK_BYTES),
    decreases n,
{
    let chunks = full_chunks(s);
    assert(n <= chunks.len());
    if n == 0 {
        assert(chunks.take(0) == Seq::<Out>::empty());
    } else {
        let m = (n - 1) as nat;
        lemma_first_chunks(s, m);
        let front = chunks.take(n as int);
        assert(front.drop_last() == chunks.take(m as int));
        let piece = s.subrange(m * CHUNK_BYTES, (m + 1) * CHUNK_BYTES);
        assert(front.last() == Out::Audio(piece));
        assert(s.take(m * CHUNK_BYTES) + piece == s.take(n * CHUNK_BYTES));
    }
}

/// Framing loses nothing: the whole chunks of a byte stream and its rest make it up again.
pub proof fn law_framing_keeps_every_byte(s: Seq<u8>)
    ensures
        audio_bytes(full_chunks(s)) + s.skip(whole_bytes(s)) == s,
        s.skip(whole_bytes(s)).len() < CHUNK_BYTES,
{
    let chunks = full_chunks(s);
    let n = chunks.len();
    lemma_first_chunks(s, n);
    assert(chunks.take(n as int) == chunks);
    assert(s.take(whole_bytes(s)) + s.skip(whole_bytes(s)) == s);
}

/// The capture gate's invariant holds of a new gate and every operation keeps it.
pub proof fn law_gate_stays_well_formed(g: Gate, pcm: Seq<u8>)
    requires
        g.wf(),
    ensures
        Gate::idle().wf(),
        g.after_ingest(pcm).wf(),
        g.after_start().wf(),
{
    law_framing_keeps_every_byte(g.pending + pcm);
    law_framing_keeps_every_byte(g.preroll + g.pending);
}

/// Nothing that is captured while the capture gate is idle is handed on.
pub proof fn law_idle_samples_stay_local(g: Gate, pcm: Seq<u8>)
    requires
        !g.armed,
    ensures
        g.out_ingest(pcm).len() == 0,
        !g.after_ingest(pcm).armed,
        g.after_ingest(pcm).pending == g.pending,
{
}

/// While samples come in, only audio is handed on, in chunks of exactly [`CHUNK_BYTES`].
pub proof fn law_live_audio_comes_in_whole_chunks(g: Gate, pcm: Seq<u8>, i: int)
    requires
        0 <= i < g.out_ingest(pcm).len(),
    ensures
        g.out_ingest(pcm)[i] matches Out::Audio(bytes) && bytes.len() == CHUNK_BYTES,
{
}

/// The capture gate after each of `inputs` came in, one after the other.
pub open spec fn after_all(g: Gate, inputs: Seq<Seq<u8>>) -> Gate
    decreases inputs.len(),
{
    if inputs.len() == 0 {
        g
    } else {
        after_all(g, inputs.drop_last()).after_ingest(inputs.last())
    }
}

/// What is handed on while each of `inputs` comes in, one after the other.
pub open spec fn out_all(g: Gate, inputs: Seq<Seq<u8>>) -> Seq<Out>
    decreases inputs.len(),
{
    if inputs.len() == 0 {
        Seq::empty()
    } else {
        out_all(g, inputs.drop_last()) + after_all(g, inputs.drop_last()).out_ingest(
            inputs.last(),
        )
    }
}

/// The inputs, concatenated.
pub open spec fn concat(inputs: Seq<Seq<u8>>) -> Seq<u8>
    decreases inputs.len(),
{
    if inputs.len() == 0 {
        Seq::empty()
    } else {
        concat(inputs.drop_last()) + inputs.last()
    }
}

proof fn lemma_live_audio(g: Gate, inputs: Seq<Seq<u8>>)
    requires
        g.armed,
    ensures
        after_all(g, inputs).armed,
        audio_bytes(out_all(g, inputs)) + after_all(g, inputs).pending == g.pending + concat(
            inputs,
        ),
    decreases inputs.len(),
{
    if inputs.len() == 0 {
        assert(Seq::<u8>::empty() + g.pending == g.pending + Seq::<u8>::empty());
    } else {
        let mid = after_all(g, inputs.drop_last());
        let pcm = inputs.last();
        let sent = out_all(g, inputs.drop_last());
        lemma_live_audio(g, inputs.drop_last());
        lemma_audio_append(sent, mid.out_ingest(pcm));
        let all = mid.pending + pcm;
        if pcm.len() > 0 {
            law_framing_keeps_every_byte(all);
        } else {
            assert(all == mid.pending);
            assert(audio_bytes(mid.out_ingest(pcm)) == Seq::<u8>::empty());
        }
        let done = audio_bytes(sent);
        let more = audio_bytes(mid.out_ingest(pcm));
        let left = mid.after_ingest(pcm).pending;
        assert(more + left == all);
        assert((done + more) + left == done + (more + left));
        assert(done + (mid.pending + pcm) == (done + mid.pending) + pcm);
        assert(g.pending + concat(inputs) == (g.pending + concat(inputs.drop_last())) + pcm);
    }
}

/// One utterance is sent completely and in order: from arming an idle gate to finalizing it,
/// the audio handed on is the lookback followed by everything that came in.
pub proof fn law_an_utterance_is_sent_completely(g: Gate, inputs: Seq<Seq<u8>>)
    requires
        g.wf(),
        !g.armed,
    ensures
        audio_bytes(
            g.out_start() + out_all(g.after_start(), inputs) + after_all(
                g.after_start(),
                inputs,
            ).out_finalize(),
        ) == g.preroll + concat(inputs),
        g.out_start()[0] == Out::Begin,
        after_all(g.after_start(), inputs).out_finalize().last() == Out::Finalize,
{
    let armed = g.after_start();
    let live = out_all(armed, inputs);
    let end = after_all(armed, inputs);
    let first = g.preroll + g.pending;
    assert(first == g.preroll);
    law_framing_keeps_every_byte(first);
    let begin = seq![Out::Begin];
    assert(begin.drop_last() == Seq::<Out>::empty());
    assert(audio_bytes(begin) == Seq::<u8>::empty()) by {
        reveal_with_fuel(audio_bytes, 2);
    }
    lemma_audio_append(begin, full_chunks(first));
    assert(audio_bytes(g.out_start()) == audio_bytes(full_chunks(first)));
    lemma_live_audio(armed, inputs);
    assert(audio_bytes(end.out_finalize()) == end.pending) by {
        reveal_with_fuel(audio_bytes, 3);
        let fin = end.out_finalize();
        if end.pending.len() > 0 {
            assert(fin.drop_last() == seq![Out::Audio(end.pending)]);
            assert(fin.drop_last().drop_last() == Seq::<Out>::empty());
            assert(Seq::<u8>::empty() + end.pending == end.pending);
        } else {
            assert(fin.drop_last() == Seq::<Out>::empty());
            assert(end.pending == Seq::<u8>::empty());
        }
    }
    lemma_audio_append(g.out_start(), live);
    lemma_audio_append(g.out_start() + live, end.out_finalize());
    let a = audio_bytes(full_chunks(first));
    assert((a + audio_bytes(live)) + end.pending == a + (audio_bytes(live) + end.pending));
    assert(a + (armed.pending + concat(inputs)) == (a + armed.pending) + concat(inputs));
}

/// A discarded utterance leaves nothing behind: the next one starts and ends empty.
pub proof fn law_discard_drops_everything()
    ensures
        Gate::idle().out_start() == seq![Out::Begin],
        Gate::idle().after_start().out_finalize() == seq![Out::Finalize],
{
    let none = Gate::idle().preroll + Gate::idle().pending;
    assert(full_chunks(none) == Seq::<Out>::empty());
    assert(Gate::idle().out_start() =~= seq![Out::Begin]);
}

/// While idle, the newest 8000 bytes are kept for the start of the next utterance: 250 ms.
pub proof fn law_idle_samples_are_kept_for_a_quarter_of_a_second(g: Gate, pcm: Seq<u8>)
    requires
        !g.armed,
        g.preroll.len() <= 8_000,
    ensures
        ({
            let all = g.preroll + pcm;
            let next = g.after_ingest(pcm);
            &&& next.preroll.len() == if all.len() <= 8_000 {
                all.len()
            } else {
                8_000
            }
            &&& next.preroll == all.skip(all.len() - next.preroll.len())
            &&& !next.armed && next.pending == g.pending
        }),
{
    let all = g.preroll + pcm;
    assert(all.skip(0) == all);
    assert(pcm.len() == 0 ==> all == g.preroll);
}

/// While armed, every 3200 bytes are handed on as soon as they are there, in order; the rest
/// waits for more.
pub proof fn law_armed_samples_are_cut_into_chunks(g: Gate, pcm: Seq<u8>)
    requires
        g.armed,
        g.pending.len() < 3_200,
    ensures
        ({
            let all = g.pending + pcm;
            let n = all.len() as int / 3_200;
            let outs = g.out_ingest(pcm);
            let next = g.after_ingest(pcm);
            &&& outs.len() == n
            &&& forall|k: int|
                0 <= k < n ==> #[trigger] outs[k] == Out::Audio(
                    all.subrange(3_200 * k, 3_200 * k + 3_200),
                )
            &&& next.pending == all.skip(3_200 * n)
            &&& next.armed && next.preroll == g.preroll
        }),
{
    let all = g.pending + pcm;
    assert(all.skip(0) == all);
    assert(pcm.len() == 0 ==> all == g.pending);
}

/// Arming announces the utterance before anything else and then hands on the lookback, in
/// chunks; what does not fill one waits. Arming again changes nothing.
pub proof fn law_arming_hands_on_the_lookback(g: Gate)
    ensures
        g.armed ==> g.after_start() == g && g.out_start().len() == 0,
        (!g.armed && g.pending.len() == 0) ==> {
            let n = g.preroll.len() as int / 3_200;
            let outs = g.out_start();
            let next = g.after_start();
            &&& outs.len() == n + 1
            &&& outs[0] == Out::Begin
            &&& forall|k: int|
                0 <= k < n ==> outs[k + 1] == Out::Audio(
                    (#[trigger] g.preroll.subrange(3_200 * k, 3_200 * k + 3_200)),
                )
            &&& next.armed && next.preroll.len() == 0
            &&& next.pending == g.preroll.skip(3_200 * n)
        },
{
    if g.pending.len() == 0 {
        assert(g.preroll + g.pending == g.preroll);
    }
}

/// An utterance ends with what was not handed on yet, if there is anything, and nothing comes
/// after its end.
pub proof fn law_an_utterance_ends_once(g: Gate)
    ensures
        g.pending.len() > 0 ==> g.out_finalize() == seq![Out::Audio(g.pending), Out::Finalize],
        g.pending.len() == 0 ==> g.out_finalize() == seq![Out::Finalize],
        !Gate::idle().armed,
        Gate::idle().preroll.len() == 0,
        Gate::idle().pending.len() == 0,
{
}

/// Each command to the microphone leads to its own outputs, none where the recording is dropped,
/// and each output becomes the command to the connection that means the same.
pub proof fn law_outputs_reach_the_connection(g: Gate, bytes: Seq<u8>)
    ensures
        out_control(Cmd::Start, g) == g.out_start(),
        out_control(Cmd::StopFinalize, g) == g.out_finalize(),
        out_control(Cmd::StopDiscard, g) == Seq::<Out>::empty(),
        command_for(Out::Begin) == Command::BeginUtterance,
        command_for(Out::Audio(bytes)) == Command::Audio(bytes),
        command_for(Out::Finalize) == Command::Finalize,
{
}

/// A delay is added to the time; it ends at the last point in time that can be told.
pub proof fn law_delays_are_added(now: u64, delay: u64)
    ensures
        now + delay <= u64::MAX ==> later(now, delay) == now + delay,
        now + delay > u64::MAX ==> later(now, delay) == u64::MAX,
        now + 2_000_000_000 <= u64::MAX ==> later(now, REOPEN_BACKOFF) == now + 2_000_000_000,
{
}

/// Each sample is written in two bytes, the low one first: together they are its value modulo
/// 65536.
pub proof fn law_samples_are_little_endian(samples: Seq<i16>, i: int)
    requires
        0 <= i < samples.len(),
    ensures
        ({
            let pcm = pcm_of(samples);
            let value = pcm[2 * i] + 256 * pcm[2 * i + 1];
            pcm.len() == 2 * samples.len() && (value == samples[i] || value == samples[i] + 65536)
        }),
    decreases samples.len(),
{
    law_a_sample_takes_two_bytes(samples);
    let front = samples.drop_last();
    law_a_sample_takes_two_bytes(front);
    if i < front.len() {
        law_samples_are_little_endian(front, i);
        assert(pcm_of(samples)[2 * i] == pcm_of(front)[2 * i]);
        assert(pcm_of(samples)[2 * i + 1] == pcm_of(front)[2 * i + 1]);
    } else {
        let bytes = sample_bytes(samples.last());
        assert(pcm_of(samples)[2 * i] == bytes[0]);
        assert(pcm_of(samples)[2 * i + 1] == bytes[1]);
    }
}

/// An error of the microphone names the device and what went wrong.
pub proof fn law_microphone_errors_say_what_went_wrong(label: String, error: String)
    ensures
        (MicError::Unavailable { label, error }).reads() == "Microphone "@ + label@
            + " is unavailable: "@ + error@,
        MicError::UnsupportedFormat(error).reads() == "Unsupported microphone sample format: "@
            + error@,
        (MicError::CannotOpen { label, error }).reads() == "Could not open the microphone "@
            + label@ + ": "@ + error@,
        MicError::CannotStart(error).reads() == "Could not start the microphone: "@ + error@,
{
}

} // verus!
