//! One dictation from the press of Fn to the paste, as a state machine.
//!
//! [`Coordinator::handle`] takes an event and says what to do. Some effects ask for a reply,
//! at most one per turn: the caller performs all effects in order, gives the reply to
//! [`Coordinator::resume`], and goes on like that until nothing is asked. Only then comes the
//! next event. Delays are milliseconds.

use vstd::prelude::*;

use crate::audio::Cmd;
use crate::config::{Preferences, Settings};
use crate::dictionary::{self, Dictionary, DEFAULT_DICTIONARY};
use crate::events::{Ui, UiEvent};
use crate::inject::{App, Target, KEY_RETURN, KEY_V};
use crate::overlay::{Mode, Overlay, OverlayState};
use crate::text;
use crate::transcript::{
    self, clean, should_press_return, Accumulator, SttEvent, Transcript,
};
use crate::ws::{Command, Config, WsCmd, WsConfig};

verus! {

/// How long the recogniser may take for the last words.
pub const FINALIZE_TIMEOUT: u64 = 2_800;

/// The wait for the target app to come to the front.
pub const FOCUS_DELAY: u64 = 120;

/// The wait between the paste and Return.
pub const RETURN_DELAY: u64 = 130;

/// The wait before the clipboard is restored.
pub const PASTE_DELAY: u64 = 420;

/// How long the overlay stays after a cancelled dictation.
pub const CANCEL_HIDE: u64 = 650;

/// How long the overlay stays after text was sent.
pub const SENT_HIDE: u64 = 280;

/// How long the overlay stays after text was pasted without Return.
pub const PASTED_HIDE: u64 = 1_250;

/// How long the overlay stays after a failure.
pub const FAIL_HIDE: u64 = 2_300;

/// How long the overlay stays where setup is needed.
pub const SETUP_HIDE: u64 = 2_400;

/// How far a dictation has come.
#[derive(Clone, Copy, PartialEq, Eq, Structural, Debug)]
pub enum Phase {
    Idle,
    Connecting,
    Recording,
    Finalizing,
    Inserting,
    Error,
}

/// How far an insertion has come.
#[derive(Clone, Copy, PartialEq, Eq, Structural, Debug)]
pub enum InsertStage {
    /// The target app is brought to the front.
    Activating,
    /// It is given time to get there.
    Settling,
    /// Is it in front?
    CheckingFocus,
    /// Is a password field focused?
    CheckingField,
    /// What is on the clipboard?
    SavingClipboard,
    /// The text is put on the clipboard.
    SettingClipboard,
    /// The paste is given time before Return.
    BeforeReturn,
    /// The paste is given time before the clipboard is restored.
    Landing,
    /// Is the text still on the clipboard?
    CheckingClipboard,
}

/// What is inserted where.
pub struct Insertion {
    pub target: Target,
    pub text: String,
    /// The text that was on the clipboard before.
    pub saved: Option<String>,
    /// Return was pressed.
    pub pressed: bool,
}

/// What a reply is awaited for.
pub enum Waiting {
    Nothing,
    /// The key, to begin a recording.
    KeyToBegin,
    /// The app in front, to begin a recording.
    TargetToBegin,
    /// The dictionary, to begin a recording for the app of this name.
    DictionaryToBegin(String),
    /// Whether the overlay window opened.
    OverlayWindow,
    /// The key, to connect again.
    KeyToReconnect,
    /// The dictionary, to connect again with this key.
    DictionaryToReconnect(String),
    /// Whether a key was imported.
    ImportOutcome,
    /// The key that was imported.
    KeyAfterImport,
    Insert(InsertStage, Insertion),
}

/// A reply to an effect that asks for one.
pub enum Reply {
    /// To [`Effect::LoadKey`].
    Key(Option<String>),
    /// To [`Effect::FindTarget`]: the app in front.
    Front(Option<Target>),
    /// To [`Effect::ReadDictionary`]: the file's contents, `None` where it cannot be read.
    Dictionary(Option<String>),
    /// To [`Effect::ImportKey`]: done, or why not.
    Imported(Result<(), String>),
    /// To [`Effect::OpenOverlay`].
    OverlayOpened(bool),
    /// To [`Effect::Activate`]: whether the app is still there.
    Activated(bool),
    /// To [`Effect::Wait`].
    Elapsed,
    /// To [`Effect::CheckField`]: whether a password field is focused.
    Secure(bool),
    /// To [`Effect::ReadClipboard`]: its text, if it has one.
    Clipboard(Option<String>),
    /// To [`Effect::SetClipboard`].
    ClipboardSet(bool),
}

/// What to do.
pub enum Effect {
    /// Show a status in the menu.
    SetStatus(String),
    /// Pass a command to the capture loop.
    Audio(Cmd),
    /// Pass a command to the connection.
    Ws(WsCmd),
    /// Draw the overlay.
    ShowOverlay,
    /// Advance the waveform and draw the overlay.
    Animate,
    /// Open the overlay window. Asks for a reply.
    OpenOverlay,
    CloseOverlay,
    /// Hand this event back after this delay.
    After(u64, UiEvent),
    /// Look for the stored key. Asks for a reply.
    LoadKey,
    /// Find the app in front. Asks for a reply.
    FindTarget,
    /// Read the dictionary file. Asks for a reply.
    ReadDictionary,
    WriteDefaultDictionary,
    /// Store the key on the clipboard. Asks for a reply.
    ImportKey,
    SaveSettings,
    /// Bring the app with this process to the front. Asks for a reply.
    Activate(i32),
    /// Let this time pass. Asks for a reply.
    Wait(u64),
    /// Find out whether a password field is focused. Asks for a reply.
    CheckField,
    /// Read the clipboard's text. Asks for a reply.
    ReadClipboard,
    /// Put a text on the clipboard. Asks for a reply.
    SetClipboard(String),
    /// Put back what was on the clipboard.
    RestoreClipboard(String),
    ClearClipboard,
    /// Press a key in the app with this process.
    PostKey { pid: i32, keycode: u16, command: bool },
}

/// Takes a dictation from the press of Fn to the paste.
pub struct Coordinator {
    settings: Settings,
    dict: Dictionary,
    acc: Accumulator,
    target: Option<Target>,
    phase: Phase,
    session: u64,
    hide_gen: u64,
    level: u32,
    connected: bool,
    api_key: Option<String>,
    bias_at_connect: Vec<String>,
    overlay_open: bool,
    overlay: OverlayState,
    waiting: Waiting,
}

// ---- Model ----

/// An [`Insertion`] by its contents.
#[verifier::ext_equal]
pub struct Job {
    pub target: App,
    pub text: Seq<char>,
    pub saved: Option<Seq<char>>,
    pub pressed: bool,
}

/// [`Waiting`] by its contents.
pub enum Wait {
    Nothing,
    KeyToBegin,
    TargetToBegin,
    DictionaryToBegin(Seq<char>),
    OverlayWindow,
    KeyToReconnect,
    DictionaryToReconnect(Seq<char>),
    ImportOutcome,
    KeyAfterImport,
    Insert(InsertStage, Job),
}

/// A [`Reply`] by its contents.
pub enum Answer {
    Key(Option<Seq<char>>),
    Front(Option<App>),
    Dictionary(Option<Seq<char>>),
    Imported(Result<(), Seq<char>>),
    OverlayOpened(bool),
    Activated(bool),
    Elapsed,
    Secure(bool),
    Clipboard(Option<Seq<char>>),
    ClipboardSet(bool),
}

/// An [`Effect`] by its contents.
pub enum Deed {
    SetStatus(Seq<char>),
    Audio(Cmd),
    Ws(Command),
    ShowOverlay,
    Animate,
    OpenOverlay,
    CloseOverlay,
    After(u64, Ui),
    LoadKey,
    FindTarget,
    ReadDictionary,
    WriteDefaultDictionary,
    ImportKey,
    SaveSettings,
    Activate(i32),
    Wait(u64),
    CheckField,
    ReadClipboard,
    SetClipboard(Seq<char>),
    RestoreClipboard(Seq<char>),
    ClearClipboard,
    PostKey { pid: i32, keycode: u16, command: bool },
}

/// A [`Coordinator`] by its contents.
#[verifier::ext_equal]
pub struct Dictation {
    pub settings: Preferences,
    pub dict: Seq<(Seq<char>, Seq<char>)>,
    pub transcript: Transcript,
    pub target: Option<App>,
    pub phase: Phase,
    pub session: u64,
    pub hide_gen: u64,
    pub level: u32,
    pub connected: bool,
    pub api_key: Option<Seq<char>>,
    pub bias_at_connect: Seq<Seq<char>>,
    pub overlay_open: bool,
    pub overlay: Overlay,
    pub waiting: Wait,
}

/// What comes after a turn, and what is done in it.
pub type Turn = (Dictation, Seq<Deed>);

/// An optional target by its contents.
pub open spec fn app_view(target: Option<Target>) -> Option<App> {
    match target {
        Some(t) => Some(t@),
        None => None,
    }
}

impl View for Insertion {
    type V = Job;

    open spec fn view(&self) -> Job {
        Job {
            target: self.target@,
            text: self.text@,
            saved: text::optional(self.saved),
            pressed: self.pressed,
        }
    }
}

impl View for Waiting {
    type V = Wait;

    open spec fn view(&self) -> Wait {
        match self {
            Waiting::Nothing => Wait::Nothing,
            Waiting::KeyToBegin => Wait::KeyToBegin,
            Waiting::TargetToBegin => Wait::TargetToBegin,
            Waiting::DictionaryToBegin(name) => Wait::DictionaryToBegin(name@),
            Waiting::OverlayWindow => Wait::OverlayWindow,
            Waiting::KeyToReconnect => Wait::KeyToReconnect,
            Waiting::DictionaryToReconnect(key) => Wait::DictionaryToReconnect(key@),
            Waiting::ImportOutcome => Wait::ImportOutcome,
            Waiting::KeyAfterImport => Wait::KeyAfterImport,
            Waiting::Insert(stage, insertion) => Wait::Insert(*stage, insertion@),
        }
    }
}

impl View for Reply {
    type V = Answer;

    open spec fn view(&self) -> Answer {
        match self {
            Reply::Key(key) => Answer::Key(text::optional(*key)),
            Reply::Front(app) => Answer::Front(app_view(*app)),
            Reply::Dictionary(contents) => Answer::Dictionary(text::optional(*contents)),
            Reply::Imported(outcome) => Answer::Imported(
                match outcome {
                    Ok(_) => Ok(()),
                    Err(error) => Err(error@),
                },
            ),
            Reply::OverlayOpened(ok) => Answer::OverlayOpened(*ok),
            Reply::Activated(ok) => Answer::Activated(*ok),
            Reply::Elapsed => Answer::Elapsed,
            Reply::Secure(secure) => Answer::Secure(*secure),
            Reply::Clipboard(contents) => Answer::Clipboard(text::optional(*contents)),
            Reply::ClipboardSet(ok) => Answer::ClipboardSet(*ok),
        }
    }
}

impl View for Effect {
    type V = Deed;

    open spec fn view(&self) -> Deed {
        match self {
            Effect::SetStatus(status) => Deed::SetStatus(status@),
            Effect::Audio(cmd) => Deed::Audio(*cmd),
            Effect::Ws(cmd) => Deed::Ws(cmd@),
            Effect::ShowOverlay => Deed::ShowOverlay,
            Effect::Animate => Deed::Animate,
            Effect::OpenOverlay => Deed::OpenOverlay,
            Effect::CloseOverlay => Deed::CloseOverlay,
            Effect::After(delay, event) => Deed::After(*delay, event@),
            Effect::LoadKey => Deed::LoadKey,
            Effect::FindTarget => Deed::FindTarget,
            Effect::ReadDictionary => Deed::ReadDictionary,
            Effect::WriteDefaultDictionary => Deed::WriteDefaultDictionary,
            Effect::ImportKey => Deed::ImportKey,
            Effect::SaveSettings => Deed::SaveSettings,
            Effect::Activate(pid) => Deed::Activate(*pid),
            Effect::Wait(delay) => Deed::Wait(*delay),
            Effect::CheckField => Deed::CheckField,
            Effect::ReadClipboard => Deed::ReadClipboard,
            Effect::SetClipboard(contents) => Deed::SetClipboard(contents@),
            Effect::RestoreClipboard(contents) => Deed::RestoreClipboard(contents@),
            Effect::ClearClipboard => Deed::ClearClipboard,
            Effect::PostKey { pid, keycode, command } => Deed::PostKey {
                pid: *pid,
                keycode: *keycode,
                command: *command,
            },
        }
    }
}

impl View for Coordinator {
    type V = Dictation;

    closed spec fn view(&self) -> Dictation {
        Dictation {
            settings: self.settings@,
            dict: self.dict@,
            transcript: self.acc@,
            target: app_view(self.target),
            phase: self.phase,
            session: self.session,
            hide_gen: self.hide_gen,
            level: self.level,
            connected: self.connected,
            api_key: text::optional(self.api_key),
            bias_at_connect: text::texts(self.bias_at_connect@),
            overlay_open: self.overlay_open,
            overlay: self.overlay@,
            waiting: self.waiting@,
        }
    }
}

/// The contents of each effect.
pub open spec fn deeds(effects: Seq<Effect>) -> Seq<Deed> {
    Seq::new(effects.len(), |i: int| effects[i]@)
}

/// The generation after `n`.
pub open spec fn next_gen(n: u64) -> u64 {
    if n == u64::MAX {
        0
    } else {
        (n + 1) as u64
    }
}

/// A recording or the wait for its last words.
pub open spec fn transcribing(phase: Phase) -> bool {
    phase == Phase::Recording || phase == Phase::Connecting || phase == Phase::Finalizing
}

/// Fn is held.
pub open spec fn capturing(phase: Phase) -> bool {
    phase == Phase::Recording || phase == Phase::Connecting
}

/// The entries of the dictionary file with the given contents; the default ones where it cannot
/// be read.
pub open spec fn entries_of(contents: Option<Seq<char>>) -> Seq<(Seq<char>, Seq<char>)> {
    dictionary::parse_lines(
        text::lines(
            match contents {
                Some(t) => t,
                None => DEFAULT_DICTIONARY@,
            },
        ),
    )
}

/// A dictionary file that cannot be read is written.
pub open spec fn default_written(contents: Option<Seq<char>>) -> Seq<Deed> {
    if contents is None {
        seq![Deed::WriteDefaultDictionary]
    } else {
        Seq::empty()
    }
}

/// `event` ends the utterance.
pub open spec fn ends_utterance(event: &SttEvent) -> bool {
    event.speech_final == Some(true) || event.typ@ == "transcript.done"@
}

impl Dictation {
    /// The state before anything happened.
    pub open spec fn start(
        settings: Preferences,
        dict: Seq<(Seq<char>, Seq<char>)>,
        api_key: Option<Seq<char>>,
    ) -> Dictation {
        Dictation {
            settings,
            dict,
            transcript: Transcript::empty(),
            target: None,
            phase: Phase::Idle,
            session: 0,
            hide_gen: 0,
            level: 0,
            connected: false,
            api_key,
            bias_at_connect: Seq::empty(),
            overlay_open: false,
            overlay: Overlay::fresh(),
            waiting: Wait::Nothing,
        }
    }

    /// Nothing changes and nothing is done.
    pub open spec fn stay(self) -> Turn {
        (self, Seq::empty())
    }

    /// A question is asked and its reply awaited.
    pub open spec fn ask(self, waiting: Wait, question: Deed) -> Turn {
        (Dictation { waiting, ..self }, seq![question])
    }

    /// The overlay reports something.
    pub open spec fn report(self, mode: Mode, message: Seq<char>) -> Dictation {
        Dictation { overlay: Overlay { mode, message, ..self.overlay }, ..self }
    }

    /// The overlay reports something and shows a text.
    pub open spec fn report_text(
        self,
        mode: Mode,
        message: Seq<char>,
        preview: Seq<char>,
    ) -> Dictation {
        Dictation { overlay: Overlay { mode, message, preview, ..self.overlay }, ..self }
    }

    /// What the connection is opened with.
    pub open spec fn config(self, api_key: Seq<char>) -> Config {
        Config {
            api_key,
            language: self.settings.language,
            bias_terms: dictionary::bias_terms_of(self.dict),
        }
    }

    /// The connection is configured with the current dictionary.
    pub open spec fn configured(self) -> Dictation {
        Dictation { bias_at_connect: dictionary::bias_terms_of(self.dict), ..self }
    }

    /// At startup the connection is opened if there is a key.
    pub open spec fn startup(self) -> Turn {
        match self.api_key {
            Some(key) => (
                self.configured(),
                seq![
                    Deed::Ws(Command::Configure(self.config(key))),
                    Deed::SetStatus("Connecting to xAI…"@),
                ],
            ),
            None => (self, seq![Deed::SetStatus("Copy your xAI key, then click Import"@)]),
        }
    }

    /// The overlay is open, or is to be opened.
    pub open spec fn opening(self) -> Dictation {
        Dictation {
            waiting: if self.overlay_open {
                Wait::Nothing
            } else {
                Wait::OverlayWindow
            },
            ..self
        }
    }

    /// What opens the overlay if it is not open.
    pub open spec fn open_deeds(self) -> Seq<Deed> {
        if self.overlay_open {
            Seq::empty()
        } else {
            seq![Deed::OpenOverlay]
        }
    }

    /// The overlay is to be hidden; an earlier plan to hide it is void.
    pub open spec fn hiding(self) -> Dictation {
        Dictation { hide_gen: next_gen(self.hide_gen), ..self }
    }

    /// What hides the overlay after `delay`.
    pub open spec fn hide_deed(self, delay: u64) -> Deed {
        Deed::After(delay, Ui::Hide(next_gen(self.hide_gen)))
    }

    /// The dictation ends with nothing inserted.
    pub open spec fn fail(self, message: Seq<char>) -> Turn {
        (
            Dictation {
                session: next_gen(self.session),
                phase: Phase::Error,
                target: None,
                transcript: Transcript::empty(),
                ..self
            }.report_text(Mode::Error, "Not inserted"@, message).opening().hiding(),
            seq![Deed::Audio(Cmd::StopDiscard), Deed::ShowOverlay] + self.open_deeds()
                + seq![self.hide_deed(FAIL_HIDE)],
        )
    }

    /// The app cannot be used yet.
    pub open spec fn setup_error(self, message: Seq<char>) -> Turn {
        (
            Dictation {
                phase: Phase::Error,
                overlay: Overlay {
                    mode: Mode::Error,
                    message: "Setup needed"@,
                    preview: message,
                    target_name: "FnType"@,
                    ..self.overlay
                },
                ..self
            }.opening().hiding(),
            seq![Deed::ShowOverlay] + self.open_deeds() + seq![self.hide_deed(SETUP_HIDE)],
        )
    }

    /// Fn went down.
    pub open spec fn begin_recording(self) -> Turn {
        if self.phase != Phase::Idle && self.phase != Phase::Error {
            self.stay()
        } else if self.api_key is None {
            self.ask(Wait::KeyToBegin, Deed::LoadKey)
        } else {
            self.ask(Wait::TargetToBegin, Deed::FindTarget)
        }
    }

    /// The key was looked for, to begin a recording.
    pub open spec fn begin_with_key(self, key: Option<Seq<char>>) -> Turn {
        let s = Dictation { api_key: key, ..self };
        if key is None {
            s.setup_error("Copy your xAI API key, then use the fn menu → Import."@)
        } else {
            s.ask(Wait::TargetToBegin, Deed::FindTarget)
        }
    }

    /// The target was looked for, to begin a recording. Capture starts before anything else.
    pub open spec fn begin_with_target(self, app: Option<App>) -> Turn {
        match app {
            None => (Dictation { target: None, waiting: Wait::Nothing, ..self }).stay(),
            Some(target) => (
                Dictation {
                    target: app,
                    transcript: Transcript::empty(),
                    session: next_gen(self.session),
                    level: 0,
                    phase: if self.connected {
                        Phase::Recording
                    } else {
                        Phase::Connecting
                    },
                    waiting: Wait::DictionaryToBegin(target.name),
                    ..self
                },
                seq![Deed::Audio(Cmd::Start), Deed::ReadDictionary],
            ),
        }
    }

    /// The dictionary was read, to begin a recording.
    pub open spec fn begin_with_dictionary(
        self,
        target_name: Seq<char>,
        contents: Option<Seq<char>>,
    ) -> Turn {
        (
            Dictation {
                dict: entries_of(contents),
                overlay: Overlay {
                    mode: if self.connected {
                        Mode::Listening
                    } else {
                        Mode::Connecting
                    },
                    message: if self.connected {
                        "Listening"@
                    } else {
                        "Connecting"@
                    },
                    preview: ""@,
                    target_name,
                    level: 0,
                },
                ..self
            }.opening(),
            default_written(contents) + seq![Deed::ShowOverlay] + self.open_deeds(),
        )
    }

    /// Fn went up.
    pub open spec fn end_recording(self) -> Turn {
        if !capturing(self.phase) {
            self.stay()
        } else {
            (
                Dictation { phase: Phase::Finalizing, ..self }.report(
                    Mode::Finalizing,
                    "Transcribing"@,
                ),
                seq![
                    Deed::Audio(Cmd::StopFinalize),
                    Deed::ShowOverlay,
                    Deed::After(FINALIZE_TIMEOUT, Ui::FinalizeTimeout(self.session)),
                ],
            )
        }
    }

    /// Fn is used with another key.
    pub open spec fn cancel_for_chord(self) -> Turn {
        if !capturing(self.phase) {
            self.stay()
        } else {
            (
                Dictation {
                    transcript: Transcript::empty(),
                    session: next_gen(self.session),
                    phase: Phase::Idle,
                    target: None,
                    ..self
                }.report_text(
                    Mode::Warning,
                    "Cancelled"@,
                    "Fn was used with another key"@,
                ).hiding(),
                seq![
                    Deed::Audio(Cmd::StopDiscard),
                    Deed::ShowOverlay,
                    self.hide_deed(CANCEL_HIDE),
                ],
            )
        }
    }

    /// A recogniser event was taken in.
    pub open spec fn heard(self, event: &SttEvent) -> Dictation {
        let listening = if self.phase == Phase::Connecting {
            Dictation { phase: Phase::Recording, ..self }.report(Mode::Listening, "Listening"@)
        } else {
            self
        };
        let transcript = self.transcript.after_event(event);
        Dictation {
            transcript,
            overlay: Overlay {
                preview: dictionary::apply_entries(transcript.best_text(), self.dict),
                ..listening.overlay
            },
            ..listening
        }
    }

    /// A recogniser event. The end of an utterance after Fn went up completes the dictation.
    pub open spec fn handle_stt(self, event: &SttEvent) -> Turn {
        if !transcribing(self.phase) {
            self.stay()
        } else {
            let s = self.heard(event);
            if ends_utterance(event) && s.phase == Phase::Finalizing {
                let turn = s.complete(s.transcript.best_text());
                (turn.0, seq![Deed::ShowOverlay] + turn.1)
            } else {
                (s, seq![Deed::ShowOverlay])
            }
        }
    }

    /// The text to insert for what was heard.
    pub open spec fn final_text(self, raw: Seq<char>) -> Seq<char> {
        dictionary::apply_entries(text::cleaned(raw), self.dict)
    }

    /// The transcript is complete: it is inserted, unless it is empty or has nowhere to go.
    pub open spec fn complete(self, raw: Seq<char>) -> Turn {
        // A pending timeout is void from here on.
        let s = Dictation { session: next_gen(self.session), ..self };
        let inserted = self.final_text(raw);
        match self.target {
            None => s.fail("The target app went away. Nothing was inserted."@),
            Some(target) => if inserted.len() == 0 {
                s.fail("No speech was detected. Nothing was inserted."@)
            } else {
                (
                    Dictation {
                        phase: Phase::Inserting,
                        waiting: Wait::Insert(
                            InsertStage::Activating,
                            Job { target, text: inserted, saved: None, pressed: false },
                        ),
                        ..s
                    }.report_text(Mode::Success, "Inserting"@, inserted),
                    seq![Deed::ShowOverlay, Deed::Activate(target.pid)],
                )
            },
        }
    }

    /// The insertion goes on with a question.
    pub open spec fn insert(self, stage: InsertStage, job: Job, question: Deed) -> Turn {
        self.ask(Wait::Insert(stage, job), question)
    }

    /// Return is pressed after the text is pasted.
    pub open spec fn submits(self, job: Job) -> bool {
        transcript::presses_return(
            job.text,
            true,
            transcript::terminal_app(job.target.name, job.target.bundle_id),
            self.settings.auto_submit,
            self.settings.allow_terminal_submit,
            false,
        )
    }

    /// The text was pasted and Return pressed or skipped: the overlay says so, and the paste is
    /// given time to land.
    pub open spec fn pasted(self, job: Job, pressed: bool) -> Turn {
        let s = if pressed {
            self.report(Mode::Success, "Sent"@)
        } else {
            self.report(Mode::Warning, "Pasted • Return skipped"@)
        };
        (
            Dictation {
                waiting: Wait::Insert(InsertStage::Landing, Job { pressed, ..job }),
                ..s
            },
            seq![Deed::ShowOverlay, Deed::Wait(PASTE_DELAY)],
        )
    }

    /// The text is on the clipboard: it is pasted.
    pub open spec fn paste(self, job: Job) -> Turn {
        let key = Deed::PostKey { pid: job.target.pid, keycode: KEY_V, command: true };
        if self.submits(job) {
            (
                Dictation { waiting: Wait::Insert(InsertStage::BeforeReturn, job), ..self },
                seq![key, Deed::Wait(RETURN_DELAY)],
            )
        } else {
            let turn = self.pasted(job, false);
            (turn.0, seq![key] + turn.1)
        }
    }

    /// The time before Return has passed: it is pressed.
    pub open spec fn press_return(self, job: Job) -> Turn {
        let key = Deed::PostKey { pid: job.target.pid, keycode: KEY_RETURN, command: false };
        let turn = self.pasted(job, true);
        (turn.0, seq![key] + turn.1)
    }

    /// What restores the clipboard if it still holds the text.
    pub open spec fn restore_deeds(job: Job, now: Option<Seq<char>>) -> Seq<Deed> {
        if now == Some(job.text) {
            match job.saved {
                Some(contents) => seq![Deed::RestoreClipboard(contents)],
                None => seq![Deed::ClearClipboard],
            }
        } else {
            Seq::empty()
        }
    }

    /// The dictation is over.
    pub open spec fn finish(self, job: Job, now: Option<Seq<char>>) -> Turn {
        (
            Dictation {
                phase: Phase::Idle,
                target: None,
                transcript: Transcript::empty(),
                waiting: Wait::Nothing,
                ..self
            }.hiding(),
            Dictation::restore_deeds(job, now) + seq![
                self.hide_deed(
                    if job.pressed {
                        SENT_HIDE
                    } else {
                        PASTED_HIDE
                    },
                ),
            ],
        )
    }

    /// An insertion awaits a reply.
    pub open spec fn inserting(self, stage: InsertStage, job: Job) -> Dictation {
        Dictation { waiting: Wait::Insert(stage, job), ..self }
    }

    /// What a reply during an insertion leads to.
    pub open spec fn resume_insert(self, stage: InsertStage, job: Job, answer: Answer) -> Turn {
        match (stage, answer) {
            (InsertStage::Activating, Answer::Activated(ok)) => if ok {
                self.insert(InsertStage::Settling, job, Deed::Wait(FOCUS_DELAY))
            } else {
                self.fail("The target app is no longer open."@)
            },
            (InsertStage::Settling, Answer::Elapsed) => self.insert(
                InsertStage::CheckingFocus,
                job,
                Deed::FindTarget,
            ),
            (InsertStage::CheckingFocus, Answer::Front(app)) => if app is Some && app->0.pid
                == job.target.pid {
                self.insert(InsertStage::CheckingField, job, Deed::CheckField)
            } else {
                self.fail("Could not restore focus to the target app."@)
            },
            (InsertStage::CheckingField, Answer::Secure(secure)) => if secure {
                self.fail("FnType will not insert into a password field."@)
            } else {
                self.insert(InsertStage::SavingClipboard, job, Deed::ReadClipboard)
            },
            (InsertStage::SavingClipboard, Answer::Clipboard(saved)) => self.insert(
                InsertStage::SettingClipboard,
                Job { saved, ..job },
                Deed::SetClipboard(job.text),
            ),
            (InsertStage::SettingClipboard, Answer::ClipboardSet(ok)) => if ok {
                self.paste(job)
            } else {
                self.fail("Could not prepare the transcript for insertion."@)
            },
            (InsertStage::BeforeReturn, Answer::Elapsed) => self.press_return(job),
            (InsertStage::Landing, Answer::Elapsed) => self.insert(
                InsertStage::CheckingClipboard,
                job,
                Deed::ReadClipboard,
            ),
            (InsertStage::CheckingClipboard, Answer::Clipboard(now)) => self.finish(job, now),
            _ => self.stay(),
        }
    }

    /// The time for the last words has passed. Of a timeout that is not the current one nothing
    /// follows.
    pub open spec fn finalize_timeout(self, session: u64) -> Turn {
        if session != self.session || self.phase != Phase::Finalizing {
            self.stay()
        } else {
            let captured = self.transcript.best_text();
            if text::cleaned(captured).len() == 0 {
                let turn = self.fail("xAI did not return a transcript. Reconnecting—try again."@);
                (turn.0, seq![Deed::Ws(Command::Reconnect)] + turn.1)
            } else {
                self.complete(captured)
            }
        }
    }

    /// Where the dictionary has other bias terms than the connection, it is configured anew.
    pub open spec fn refresh_bias(self) -> Turn {
        if self.api_key is Some && dictionary::bias_terms_of(self.dict) != self.bias_at_connect {
            (
                self.configured(),
                seq![Deed::Ws(Command::Configure(self.config(self.api_key->0)))],
            )
        } else {
            self.stay()
        }
    }

    /// The overlay is to be hidden, unless a dictation has begun. Of a plan that is not the
    /// current one nothing follows.
    pub open spec fn hide_overlay(self, generation: u64) -> Turn {
        if generation != self.hide_gen || (self.phase != Phase::Error && self.phase
            != Phase::Idle) {
            self.stay()
        } else {
            let turn = Dictation {
                phase: Phase::Idle,
                overlay_open: false,
                ..self
            }.refresh_bias();
            (
                turn.0,
                if self.overlay_open {
                    seq![Deed::CloseOverlay] + turn.1
                } else {
                    turn.1
                },
            )
        }
    }

    /// The connection came up or went down.
    pub open spec fn conn_changed(self, up: bool, label: Seq<char>) -> Turn {
        let s = Dictation { connected: up, ..self };
        if !up && transcribing(self.phase) {
            let turn = s.fail(label);
            (turn.0, seq![Deed::SetStatus(label)] + turn.1)
        } else {
            (s, seq![Deed::SetStatus(label)])
        }
    }

    /// The connection is being replaced; a recording goes on.
    pub open spec fn conn_refreshing(self, label: Seq<char>) -> Turn {
        let s = Dictation { connected: false, ..self };
        if self.phase == Phase::Recording {
            (
                Dictation { phase: Phase::Connecting, ..s }.report(
                    Mode::Connecting,
                    "Connecting"@,
                ),
                seq![Deed::SetStatus(label), Deed::ShowOverlay],
            )
        } else {
            (s, seq![Deed::SetStatus(label)])
        }
    }

    /// What an event leads to when no reply is awaited.
    pub open spec fn handle(self, event: Ui) -> Turn {
        match event {
            Ui::FnDown => self.begin_recording(),
            Ui::FnUp => self.end_recording(),
            Ui::FnChord => self.cancel_for_chord(),
            Ui::MonitorFailed => (
                self,
                seq![Deed::SetStatus("Grant Input Monitoring, then relaunch FnType"@)],
            ),
            Ui::Level(level) => (Dictation { level, ..self }).stay(),
            Ui::Tick => if self.overlay_open {
                (
                    Dictation { overlay: Overlay { level: self.level, ..self.overlay }, ..self },
                    seq![Deed::Animate],
                )
            } else {
                self.stay()
            },
            Ui::ConnChanged(up, label) => self.conn_changed(up, label),
            Ui::ConnRefreshing(label) => self.conn_refreshing(label),
            Ui::Stt(event) => self.handle_stt(&event),
            Ui::WsError(message) => if transcribing(self.phase) {
                self.fail(message)
            } else {
                (self, seq![Deed::SetStatus(message)])
            },
            Ui::AudioError(message) => if capturing(self.phase) {
                self.fail(message)
            } else {
                self.stay()
            },
            Ui::FinalizeTimeout(session) => self.finalize_timeout(session),
            Ui::Hide(generation) => self.hide_overlay(generation),
            Ui::MenuReconnect => self.ask(Wait::KeyToReconnect, Deed::LoadKey),
            Ui::MenuImportKey => self.ask(Wait::ImportOutcome, Deed::ImportKey),
            Ui::MenuAutoSubmit(checked) => (
                Dictation {
                    settings: Preferences { auto_submit: checked, ..self.settings },
                    ..self
                },
                seq![Deed::SaveSettings],
            ),
            Ui::MenuTerminalSubmit(checked) => (
                Dictation {
                    settings: Preferences { allow_terminal_submit: checked, ..self.settings },
                    ..self
                },
                seq![Deed::SaveSettings],
            ),
        }
    }

    /// The key was looked for, to connect again.
    pub open spec fn reconnect_with_key(self, key: Option<Seq<char>>) -> Turn {
        let s = Dictation { api_key: key, ..self };
        match key {
            Some(k) => s.ask(Wait::DictionaryToReconnect(k), Deed::ReadDictionary),
            None => (
                Dictation { waiting: Wait::Nothing, ..s },
                seq![Deed::SetStatus("No API key saved. Copy it, then click Import"@)],
            ),
        }
    }

    /// The dictionary was read, to connect again.
    pub open spec fn reconnect_with_dictionary(
        self,
        key: Seq<char>,
        contents: Option<Seq<char>>,
    ) -> Turn {
        let s = Dictation { dict: entries_of(contents), waiting: Wait::Nothing, ..self };
        (
            s.configured(),
            default_written(contents) + seq![
                Deed::Ws(Command::Configure(s.config(key))),
                Deed::SetStatus("Connecting to xAI…"@),
            ],
        )
    }

    /// The key that was imported was looked for.
    pub open spec fn imported_key(self, key: Option<Seq<char>>) -> Turn {
        let s = Dictation { api_key: key, waiting: Wait::Nothing, ..self };
        let status = Deed::SetStatus("Key imported. Connecting…"@);
        match key {
            Some(k) => (
                s.configured(),
                seq![Deed::Ws(Command::Configure(s.config(k))), status],
            ),
            None => (s, seq![status]),
        }
    }

    /// What a reply leads to. Of one that is not awaited nothing follows.
    pub open spec fn resume(self, answer: Answer) -> Turn {
        match (self.waiting, answer) {
            (Wait::KeyToBegin, Answer::Key(key)) => self.begin_with_key(key),
            (Wait::TargetToBegin, Answer::Front(app)) => self.begin_with_target(app),
            (Wait::DictionaryToBegin(name), Answer::Dictionary(contents)) =>
                self.begin_with_dictionary(name, contents),
            (Wait::OverlayWindow, Answer::OverlayOpened(ok)) => (
                Dictation { overlay_open: ok, waiting: Wait::Nothing, ..self }
            ).stay(),
            (Wait::KeyToReconnect, Answer::Key(key)) => self.reconnect_with_key(key),
            (Wait::DictionaryToReconnect(key), Answer::Dictionary(contents)) =>
                self.reconnect_with_dictionary(key, contents),
            (Wait::ImportOutcome, Answer::Imported(outcome)) => match outcome {
                Ok(_) => self.ask(Wait::KeyAfterImport, Deed::LoadKey),
                Err(error) => (
                    Dictation { waiting: Wait::Nothing, ..self },
                    seq![Deed::SetStatus("Import failed: "@ + error)],
                ),
            },
            (Wait::KeyAfterImport, Answer::Key(key)) => self.imported_key(key),
            (Wait::Insert(stage, job), _) => self.resume_insert(stage, job, answer),
            _ => self.stay(),
        }
    }
}

// ---- The machine ----

/// No effect.
fn nothing() -> (r: Vec<Effect>)
    ensures
        deeds(r@) == Seq::<Deed>::empty(),
{
    let r: Vec<Effect> = Vec::new();
    assert(deeds(r@) =~= Seq::<Deed>::empty());
    r
}

/// One effect.
fn only(effect: Effect) -> (r: Vec<Effect>)
    ensures
        deeds(r@) == seq![effect@],
{
    let mut r: Vec<Effect> = Vec::new();
    r.push(effect);
    assert(deeds(r@) =~= seq![effect@]);
    r
}

/// Two effects.
fn both(first: Effect, second: Effect) -> (r: Vec<Effect>)
    ensures
        deeds(r@) == seq![first@, second@],
{
    let mut r: Vec<Effect> = Vec::new();
    r.push(first);
    r.push(second);
    assert(deeds(r@) =~= seq![first@, second@]);
    r
}

/// `first`, then `rest`.
fn before(first: Effect, rest: Vec<Effect>) -> (r: Vec<Effect>)
    ensures
        deeds(r@) == seq![first@] + deeds(rest@),
{
    let mut r: Vec<Effect> = Vec::new();
    let mut rest = rest;
    let ghost tail = rest@;
    r.push(first);
    r.append(&mut rest);
    assert(deeds(r@) =~= seq![first@] + deeds(tail));
    r
}

/// The generation after `n`.
fn following(n: u64) -> (r: u64)
    ensures
        r == next_gen(n),
{
    if n == u64::MAX {
        0
    } else {
        n + 1
    }
}

/// Whether `phase` is a recording or the wait for its last words.
fn is_transcribing(phase: Phase) -> (r: bool)
    ensures
        r == transcribing(phase),
{
    match phase {
        Phase::Recording | Phase::Connecting | Phase::Finalizing => true,
        _ => false,
    }
}

/// Whether Fn is held in `phase`.
fn is_capturing(phase: Phase) -> (r: bool)
    ensures
        r == capturing(phase),
{
    match phase {
        Phase::Recording | Phase::Connecting => true,
        _ => false,
    }
}

impl Coordinator {
    /// A coordinator for the given settings, dictionary and key.
    pub fn new(settings: Settings, dict: Dictionary, api_key: Option<String>) -> (r: Self)
        ensures
            r@ == Dictation::start(settings@, dict@, text::optional(api_key)),
    {
        let r = Coordinator {
            settings,
            dict,
            acc: Accumulator::default(),
            target: None,
            phase: Phase::Idle,
            session: 0,
            hide_gen: 0,
            level: 0,
            connected: false,
            api_key,
            bias_at_connect: Vec::new(),
            overlay_open: false,
            overlay: OverlayState::new(),
            waiting: Waiting::Nothing,
        };
        assert(r@ =~= Dictation::start(settings@, dict@, text::optional(api_key)));
        r
    }

    /// How far the dictation has come.
    pub fn phase(&self) -> (r: Phase)
        ensures
            r == self@.phase,
    {
        self.phase
    }

    /// The app that the dictation goes to.
    pub fn target(&self) -> (r: Option<&Target>)
        ensures
            match r {
                Some(target) => self@.target == Some(target@),
                None => self@.target is None,
            },
    {
        self.target.as_ref()
    }

    /// What the overlay shows.
    pub fn overlay(&self) -> (r: &OverlayState)
        ensures
            r@ == self@.overlay,
    {
        &self.overlay
    }

    /// The settings to store.
    pub fn settings(&self) -> (r: &Settings)
        ensures
            r@ == self@.settings,
    {
        &self.settings
    }

    /// Whether a reply is awaited.
    pub fn is_waiting(&self) -> (r: bool)
        ensures
            r == !(self@.waiting is Nothing),
    {
        match self.waiting {
            Waiting::Nothing => false,
            _ => true,
        }
    }

    /// Opens the connection if there is a key.
    pub fn startup_connect(&mut self) -> (r: Vec<Effect>)
        ensures
            final(self)@ == old(self)@.startup().0,
            deeds(r@) == old(self)@.startup().1,
    {
        match self.api_key.clone() {
            Some(key) => {
                let configure = self.configure_ws(key);
                both(configure, Effect::SetStatus("Connecting to xAI…".to_owned()))
            },
            None => only(Effect::SetStatus("Copy your xAI key, then click Import".to_owned())),
        }
    }

    /// Configures the connection with the current dictionary.
    fn configure_ws(&mut self, api_key: String) -> (r: Effect)
        ensures
            final(self)@ == old(self)@.configured(),
            r@ == Deed::Ws(Command::Configure(old(self)@.config(api_key@))),
    {
        let bias = self.dict.bias_terms();
        self.bias_at_connect = text::copy_all(&bias);
        let config = WsConfig {
            api_key,
            language: self.settings.language.clone(),
            bias_terms: bias,
        };
        assert(config@ =~= old(self)@.config(api_key@));
        assert(self@ =~= old(self)@.configured());
        Effect::Ws(WsCmd::Configure(config))
    }

    fn report(&mut self, mode: Mode, message: &str)
        ensures
            final(self)@ == old(self)@.report(mode, message@),
    {
        self.overlay.mode = mode;
        self.overlay.message = message.to_owned();
        assert(self@ =~= old(self)@.report(mode, message@));
    }

    fn report_text(&mut self, mode: Mode, message: &str, preview: String)
        ensures
            final(self)@ == old(self)@.report_text(mode, message@, preview@),
    {
        self.overlay.mode = mode;
        self.overlay.message = message.to_owned();
        self.overlay.preview = preview;
        assert(self@ =~= old(self)@.report_text(mode, message@, preview@));
    }

    /// Opens the overlay if it is not open, as the last of `effects`.
    fn open_overlay(&mut self, effects: &mut Vec<Effect>)
        ensures
            final(self)@ == old(self)@.opening(),
            deeds(final(effects)@) == deeds(old(effects)@) + old(self)@.open_deeds(),
    {
        if self.overlay_open {
            self.waiting = Waiting::Nothing;
        } else {
            self.waiting = Waiting::OverlayWindow;
            effects.push(Effect::OpenOverlay);
        }
        assert(self@ =~= old(self)@.opening());
        assert(deeds(effects@) =~= deeds(old(effects)@) + old(self)@.open_deeds());
    }

    /// Plans to hide the overlay, as the last of `effects`.
    fn schedule_hide(&mut self, delay: u64, effects: &mut Vec<Effect>)
        ensures
            final(self)@ == old(self)@.hiding(),
            deeds(final(effects)@) == deeds(old(effects)@).push(old(self)@.hide_deed(delay)),
    {
        self.hide_gen = following(self.hide_gen);
        effects.push(Effect::After(delay, UiEvent::Hide(self.hide_gen)));
        assert(self@ =~= old(self)@.hiding());
        assert(deeds(effects@) =~= deeds(old(effects)@).push(old(self)@.hide_deed(delay)));
    }

    /// Ends the dictation with nothing inserted.
    fn fail(&mut self, message: String) -> (r: Vec<Effect>)
        ensures
            final(self)@ == old(self)@.fail(message@).0,
            deeds(r@) == old(self)@.fail(message@).1,
    {
        self.session = following(self.session);
        self.phase = Phase::Error;
        self.target = None;
        self.acc.reset();
        self.report_text(Mode::Error, "Not inserted", message);
        let mut effects = both(Effect::Audio(Cmd::StopDiscard), Effect::ShowOverlay);
        self.open_overlay(&mut effects);
        self.schedule_hide(FAIL_HIDE, &mut effects);
        assert(self@ =~= old(self)@.fail(message@).0);
        assert(deeds(effects@) =~= old(self)@.fail(message@).1);
        effects
    }

    /// Says that the app cannot be used yet.
    fn show_setup_error(&mut self, message: &str) -> (r: Vec<Effect>)
        ensures
            final(self)@ == old(self)@.setup_error(message@).0,
            deeds(r@) == old(self)@.setup_error(message@).1,
    {
        self.phase = Phase::Error;
        self.report_text(Mode::Error, "Setup needed", message.to_owned());
        self.overlay.target_name = "FnType".to_owned();
        let mut effects = only(Effect::ShowOverlay);
        self.open_overlay(&mut effects);
        self.schedule_hide(SETUP_HIDE, &mut effects);
        assert(self@ =~= old(self)@.setup_error(message@).0);
        assert(deeds(effects@) =~= old(self)@.setup_error(message@).1);
        effects
    }

    /// Asks a question and awaits its reply.
    fn ask(&mut self, waiting: Waiting, question: Effect) -> (r: Vec<Effect>)
        ensures
            final(self)@ == old(self)@.ask(waiting@, question@).0,
            deeds(r@) == old(self)@.ask(waiting@, question@).1,
    {
        self.waiting = waiting;
        assert(self@ =~= old(self)@.ask(waiting@, question@).0);
        only(question)
    }

    fn begin_recording(&mut self) -> (r: Vec<Effect>)
        ensures
            final(self)@ == old(self)@.begin_recording().0,
            deeds(r@) == old(self)@.begin_recording().1,
    {
        match self.phase {
            Phase::Idle | Phase::Error => {
                if self.api_key.is_none() {
                    self.ask(Waiting::KeyToBegin, Effect::LoadKey)
                } else {
                    self.ask(Waiting::TargetToBegin, Effect::FindTarget)
                }
            },
            _ => nothing(),
        }
    }

    fn begin_with_key(&mut self, key: Option<String>) -> (r: Vec<Effect>)
        ensures
            final(self)@ == old(self)@.begin_with_key(text::optional(key)).0,
            deeds(r@) == old(self)@.begin_with_key(text::optional(key)).1,
    {
        let missing = key.is_none();
        self.api_key = key;
        assert(self@ =~= (Dictation { api_key: text::optional(key), ..old(self)@ }));
        if missing {
            self.show_setup_error("Copy your xAI API key, then use the fn menu → Import.")
        } else {
            self.ask(Waiting::TargetToBegin, Effect::FindTarget)
        }
    }

    fn begin_with_target(&mut self, app: Option<Target>) -> (r: Vec<Effect>)
        ensures
            final(self)@ == old(self)@.begin_with_target(app_view(app)).0,
            deeds(r@) == old(self)@.begin_with_target(app_view(app)).1,
    {
        match app {
            None => {
                self.target = None;
                self.waiting = Waiting::Nothing;
                assert(self@ =~= old(self)@.begin_with_target(app_view(app)).0);
                nothing()
            },
            Some(target) => {
                self.waiting = Waiting::DictionaryToBegin(target.name.clone());
                self.target = Some(target);
                self.acc.reset();
                self.session = following(self.session);
                self.level = 0;
                self.phase = if self.connected {
                    Phase::Recording
                } else {
                    Phase::Connecting
                };
                assert(self@ =~= old(self)@.begin_with_target(app_view(app)).0);
                both(Effect::Audio(Cmd::Start), Effect::ReadDictionary)
            },
        }
    }

    /// Uses the dictionary that was read, or writes the default one.
    fn use_dictionary(&mut self, contents: Option<String>) -> (r: Vec<Effect>)
        ensures
            final(self)@ == (Dictation {
                dict: entries_of(text::optional(contents)),
                ..old(self)@
            }),
            deeds(r@) == default_written(text::optional(contents)),
    {
        let loaded = match &contents {
            Some(contents) => Dictionary::load(Some(contents.as_str())),
            None => Dictionary::load(None),
        };
        self.dict = loaded.dictionary;
        assert(self@ =~= (Dictation {
            dict: entries_of(text::optional(contents)),
            ..old(self)@
        }));
        if loaded.write_default {
            only(Effect::WriteDefaultDictionary)
        } else {
            nothing()
        }
    }

    fn begin_with_dictionary(&mut self, target_name: String, contents: Option<String>) -> (r: Vec<
        Effect,
    >)
        ensures
            final(self)@ == old(self)@.begin_with_dictionary(
                target_name@,
                text::optional(contents),
            ).0,
            deeds(r@) == old(self)@.begin_with_dictionary(
                target_name@,
                text::optional(contents),
            ).1,
    {
        let mut effects = self.use_dictionary(contents);
        let (mode, message) = if self.connected {
            (Mode::Listening, "Listening")
        } else {
            (Mode::Connecting, "Connecting")
        };
        self.report_text(mode, message, "".to_owned());
        self.overlay.level = 0;
        self.overlay.target_name = target_name;
        effects.push(Effect::ShowOverlay);
        self.open_overlay(&mut effects);
        assert(self@ =~= old(self)@.begin_with_dictionary(
            target_name@,
            text::optional(contents),
        ).0);
        assert(deeds(effects@) =~= old(self)@.begin_with_dictionary(
            target_name@,
            text::optional(contents),
        ).1);
        effects
    }

    fn end_recording(&mut self) -> (r: Vec<Effect>)
        ensures
            final(self)@ == old(self)@.end_recording().0,
            deeds(r@) == old(self)@.end_recording().1,
    {
        if !is_capturing(self.phase) {
            return nothing();
        }
        // The capture loop flushes the tail chunk, then sends `Finalize` - order preserved.
        self.phase = Phase::Finalizing;
        self.report(Mode::Finalizing, "Transcribing");
        let mut effects: Vec<Effect> = Vec::new();
        effects.push(Effect::Audio(Cmd::StopFinalize));
        effects.push(Effect::ShowOverlay);
        effects.push(Effect::After(FINALIZE_TIMEOUT, UiEvent::FinalizeTimeout(self.session)));
        assert(self@ =~= old(self)@.end_recording().0);
        assert(deeds(effects@) =~= old(self)@.end_recording().1);
        effects
    }

    fn cancel_for_chord(&mut self) -> (r: Vec<Effect>)
        ensures
            final(self)@ == old(self)@.cancel_for_chord().0,
            deeds(r@) == old(self)@.cancel_for_chord().1,
    {
        if !is_capturing(self.phase) {
            return nothing();
        }
        self.acc.reset();
        self.session = following(self.session);
        self.phase = Phase::Idle;
        self.target = None;
        self.report_text(
            Mode::Warning,
            "Cancelled",
            "Fn was used with another key".to_owned(),
        );
        let mut effects = both(Effect::Audio(Cmd::StopDiscard), Effect::ShowOverlay);
        self.schedule_hide(CANCEL_HIDE, &mut effects);
        assert(self@ =~= old(self)@.cancel_for_chord().0);
        assert(deeds(effects@) =~= old(self)@.cancel_for_chord().1);
        effects
    }

    fn handle_stt(&mut self, event: SttEvent) -> (r: Vec<Effect>)
        ensures
            final(self)@ == old(self)@.handle_stt(&event).0,
            deeds(r@) == old(self)@.handle_stt(&event).1,
    {
        if !is_transcribing(self.phase) {
            return nothing();
        }
        if self.phase == Phase::Connecting {
            self.phase = Phase::Recording;
            self.report(Mode::Listening, "Listening");
        }
        self.acc.ingest(&event);
        self.overlay.preview = self.dict.apply(self.acc.preview().as_str());
        assert(self@ =~= old(self)@.heard(&event));
        let ends = match event.speech_final {
            Some(speech_final) => speech_final,
            None => false,
        } || text::same(event.typ.as_str(), "transcript.done");
        if ends && self.phase == Phase::Finalizing {
            let captured = self.acc.best_text();
            let rest = self.complete(captured);
            before(Effect::ShowOverlay, rest)
        } else {
            only(Effect::ShowOverlay)
        }
    }

    fn complete(&mut self, raw: String) -> (r: Vec<Effect>)
        ensures
            final(self)@ == old(self)@.complete(raw@).0,
            deeds(r@) == old(self)@.complete(raw@).1,
    {
        self.session = following(self.session);
        let inserted = self.dict.apply(clean(raw.as_str()).as_str());
        assert(self@ =~= (Dictation { session: next_gen(old(self)@.session), ..old(self)@ }));
        match self.target.clone() {
            None => self.fail("The target app went away. Nothing was inserted.".to_owned()),
            Some(target) => {
                if inserted.as_str().is_empty() {
                    return self.fail("No speech was detected. Nothing was inserted.".to_owned());
                }
                let pid = target.pid;
                self.phase = Phase::Inserting;
                self.report_text(Mode::Success, "Inserting", inserted.clone());
                self.waiting =
                Waiting::Insert(
                    InsertStage::Activating,
                    Insertion { target, text: inserted, saved: None, pressed: false },
                );
                assert(self@ =~= old(self)@.complete(raw@).0);
                both(Effect::ShowOverlay, Effect::Activate(pid))
            },
        }
    }

    fn insert(&mut self, stage: InsertStage, job: Insertion, question: Effect) -> (r: Vec<Effect>)
        ensures
            final(self)@ == old(self)@.insert(stage, job@, question@).0,
            deeds(r@) == old(self)@.insert(stage, job@, question@).1,
    {
        self.ask(Waiting::Insert(stage, job), question)
    }

    fn pasted(&mut self, job: Insertion, pressed: bool) -> (r: Vec<Effect>)
        ensures
            final(self)@ == old(self)@.pasted(job@, pressed).0,
            deeds(r@) == old(self)@.pasted(job@, pressed).1,
    {
        if pressed {
            self.report(Mode::Success, "Sent");
        } else {
            self.report(Mode::Warning, "Pasted • Return skipped");
        }
        let landing = Insertion {
            target: job.target,
            text: job.text,
            saved: job.saved,
            pressed,
        };
        assert(landing@ =~= (Job { pressed, ..job@ }));
        self.waiting = Waiting::Insert(InsertStage::Landing, landing);
        assert(self@ =~= old(self)@.pasted(job@, pressed).0);
        both(Effect::ShowOverlay, Effect::Wait(PASTE_DELAY))
    }

    fn paste(&mut self, job: Insertion) -> (r: Vec<Effect>)
        ensures
            final(self)@ == old(self)@.paste(job@).0,
            deeds(r@) == old(self)@.paste(job@).1,
    {
        let key = Effect::PostKey { pid: job.target.pid, keycode: KEY_V, command: true };
        let press_return = should_press_return(
            job.text.as_str(),
            true,
            job.target.is_terminal(),
            self.settings.auto_submit,
            self.settings.allow_terminal_submit,
            false,
        );
        if press_return {
            self.waiting = Waiting::Insert(InsertStage::BeforeReturn, job);
            assert(self@ =~= old(self)@.paste(job@).0);
            both(key, Effect::Wait(RETURN_DELAY))
        } else {
            let rest = self.pasted(job, false);
            before(key, rest)
        }
    }

    fn press_return(&mut self, job: Insertion) -> (r: Vec<Effect>)
        ensures
            final(self)@ == old(self)@.press_return(job@).0,
            deeds(r@) == old(self)@.press_return(job@).1,
    {
        let key = Effect::PostKey { pid: job.target.pid, keycode: KEY_RETURN, command: false };
        let rest = self.pasted(job, true);
        before(key, rest)
    }

    fn finish(&mut self, job: Insertion, now: Option<String>) -> (r: Vec<Effect>)
        ensures
            final(self)@ == old(self)@.finish(job@, text::optional(now)).0,
            deeds(r@) == old(self)@.finish(job@, text::optional(now)).1,
    {
        let unchanged = match now {
            Some(contents) => text::same(contents.as_str(), job.text.as_str()),
            None => false,
        };
        let mut effects = if unchanged {
            match job.saved {
                Some(contents) => only(Effect::RestoreClipboard(contents)),
                None => only(Effect::ClearClipboard),
            }
        } else {
            nothing()
        };
        assert(deeds(effects@) == Dictation::restore_deeds(job@, text::optional(now)));
        self.phase = Phase::Idle;
        self.target = None;
        self.acc.reset();
        self.waiting = Waiting::Nothing;
        self.schedule_hide(
            if job.pressed {
                SENT_HIDE
            } else {
                PASTED_HIDE
            },
            &mut effects,
        );
        assert(self@ =~= old(self)@.finish(job@, text::optional(now)).0);
        assert(deeds(effects@) =~= old(self)@.finish(job@, text::optional(now)).1);
        effects
    }

    fn resume_insert(&mut self, stage: InsertStage, job: Insertion, reply: Reply) -> (r: Vec<
        Effect,
    >)
        ensures
            final(self)@ == old(self)@.inserting(stage, job@).resume_insert(
                stage,
                job@,
                reply@,
            ).0,
            deeds(r@) == old(self)@.inserting(stage, job@).resume_insert(stage, job@, reply@).1,
    {
        match (stage, reply) {
            (InsertStage::Activating, Reply::Activated(ok)) => if ok {
                self.insert(InsertStage::Settling, job, Effect::Wait(FOCUS_DELAY))
            } else {
                self.fail("The target app is no longer open.".to_owned())
            },
            (InsertStage::Settling, Reply::Elapsed) => self.insert(
                InsertStage::CheckingFocus,
                job,
                Effect::FindTarget,
            ),
            (InsertStage::CheckingFocus, Reply::Front(app)) => {
                let focused = match app {
                    Some(app) => app.pid == job.target.pid,
                    None => false,
                };
                if focused {
                    self.insert(InsertStage::CheckingField, job, Effect::CheckField)
                } else {
                    self.fail("Could not restore focus to the target app.".to_owned())
                }
            },
            (InsertStage::CheckingField, Reply::Secure(secure)) => if secure {
                self.fail("FnType will not insert into a password field.".to_owned())
            } else {
                self.insert(InsertStage::SavingClipboard, job, Effect::ReadClipboard)
            },
            (InsertStage::SavingClipboard, Reply::Clipboard(saved)) => {
                let question = Effect::SetClipboard(job.text.clone());
                let job = Insertion {
                    target: job.target,
                    text: job.text,
                    saved,
                    pressed: job.pressed,
                };
                self.insert(InsertStage::SettingClipboard, job, question)
            },
            (InsertStage::SettingClipboard, Reply::ClipboardSet(ok)) => if ok {
                self.paste(job)
            } else {
                self.fail("Could not prepare the transcript for insertion.".to_owned())
            },
            (InsertStage::BeforeReturn, Reply::Elapsed) => self.press_return(job),
            (InsertStage::Landing, Reply::Elapsed) => self.insert(
                InsertStage::CheckingClipboard,
                job,
                Effect::ReadClipboard,
            ),
            (InsertStage::CheckingClipboard, Reply::Clipboard(now)) => self.finish(job, now),
            (stage, _) => {
                self.waiting = Waiting::Insert(stage, job);
                nothing()
            },
        }
    }

    fn finalize_timeout(&mut self, session: u64) -> (r: Vec<Effect>)
        ensures
            final(self)@ == old(self)@.finalize_timeout(session).0,
            deeds(r@) == old(self)@.finalize_timeout(session).1,
    {
        if session != self.session || self.phase != Phase::Finalizing {
            return nothing();
        }
        let captured = self.acc.best_text();
        if clean(captured.as_str()).as_str().is_empty() {
            let rest = self.fail(
                "xAI did not return a transcript. Reconnecting—try again.".to_owned(),
            );
            before(Effect::Ws(WsCmd::Reconnect), rest)
        } else {
            self.complete(captured)
        }
    }

    fn refresh_bias_if_needed(&mut self) -> (r: Vec<Effect>)
        ensures
            final(self)@ == old(self)@.refresh_bias().0,
            deeds(r@) == old(self)@.refresh_bias().1,
    {
        let terms = self.dict.bias_terms();
        if text::same_all(&terms, &self.bias_at_connect) {
            return nothing();
        }
        match self.api_key.clone() {
            Some(key) => {
                let configure = self.configure_ws(key);
                only(configure)
            },
            None => nothing(),
        }
    }

    fn hide_overlay(&mut self, generation: u64) -> (r: Vec<Effect>)
        ensures
            final(self)@ == old(self)@.hide_overlay(generation).0,
            deeds(r@) == old(self)@.hide_overlay(generation).1,
    {
        if generation != self.hide_gen {
            return nothing();
        }
        if self.phase == Phase::Error {
            self.phase = Phase::Idle;
        }
        if self.phase != Phase::Idle {
            return nothing();
        }
        let was_open = self.overlay_open;
        self.overlay_open = false;
        assert(self@ =~= (Dictation { phase: Phase::Idle, overlay_open: false, ..old(self)@ }));
        let rest = self.refresh_bias_if_needed();
        if was_open {
            before(Effect::CloseOverlay, rest)
        } else {
            rest
        }
    }

    fn conn_changed(&mut self, up: bool, label: String) -> (r: Vec<Effect>)
        ensures
            final(self)@ == old(self)@.conn_changed(up, label@).0,
            deeds(r@) == old(self)@.conn_changed(up, label@).1,
    {
        self.connected = up;
        assert(self@ =~= (Dictation { connected: up, ..old(self)@ }));
        let status = Effect::SetStatus(label.clone());
        if !up && is_transcribing(self.phase) {
            let rest = self.fail(label);
            before(status, rest)
        } else {
            only(status)
        }
    }

    fn conn_refreshing(&mut self, label: String) -> (r: Vec<Effect>)
        ensures
            final(self)@ == old(self)@.conn_refreshing(label@).0,
            deeds(r@) == old(self)@.conn_refreshing(label@).1,
    {
        self.connected = false;
        if self.phase == Phase::Recording {
            self.phase = Phase::Connecting;
            self.report(Mode::Connecting, "Connecting");
            assert(self@ =~= old(self)@.conn_refreshing(label@).0);
            both(Effect::SetStatus(label), Effect::ShowOverlay)
        } else {
            assert(self@ =~= old(self)@.conn_refreshing(label@).0);
            only(Effect::SetStatus(label))
        }
    }

    fn reconnect_with_key(&mut self, key: Option<String>) -> (r: Vec<Effect>)
        ensures
            final(self)@ == old(self)@.reconnect_with_key(text::optional(key)).0,
            deeds(r@) == old(self)@.reconnect_with_key(text::optional(key)).1,
    {
        self.api_key = key;
        assert(self@ =~= (Dictation { api_key: text::optional(key), ..old(self)@ }));
        match self.api_key.clone() {
            Some(key) => self.ask(Waiting::DictionaryToReconnect(key), Effect::ReadDictionary),
            None => {
                self.waiting = Waiting::Nothing;
                assert(self@ =~= old(self)@.reconnect_with_key(text::optional(key)).0);
                only(
                    Effect::SetStatus("No API key saved. Copy it, then click Import".to_owned()),
                )
            },
        }
    }

    fn reconnect_with_dictionary(&mut self, key: String, contents: Option<String>) -> (r: Vec<
        Effect,
    >)
        ensures
            final(self)@ == old(self)@.reconnect_with_dictionary(
                key@,
                text::optional(contents),
            ).0,
            deeds(r@) == old(self)@.reconnect_with_dictionary(key@, text::optional(contents)).1,
    {
        self.waiting = Waiting::Nothing;
        let mut effects = self.use_dictionary(contents);
        assert(self@ =~= (Dictation {
            dict: entries_of(text::optional(contents)),
            waiting: Wait::Nothing,
            ..old(self)@
        }));
        let configure = self.configure_ws(key);
        effects.push(configure);
        effects.push(Effect::SetStatus("Connecting to xAI…".to_owned()));
        assert(deeds(effects@) =~= old(self)@.reconnect_with_dictionary(
            key@,
            text::optional(contents),
        ).1);
        effects
    }

    fn imported_key(&mut self, key: Option<String>) -> (r: Vec<Effect>)
        ensures
            final(self)@ == old(self)@.imported_key(text::optional(key)).0,
            deeds(r@) == old(self)@.imported_key(text::optional(key)).1,
    {
        self.api_key = key;
        self.waiting = Waiting::Nothing;
        assert(self@ =~= (Dictation {
            api_key: text::optional(key),
            waiting: Wait::Nothing,
            ..old(self)@
        }));
        let status = Effect::SetStatus("Key imported. Connecting…".to_owned());
        match self.api_key.clone() {
            Some(key) => {
                let configure = self.configure_ws(key);
                both(configure, status)
            },
            None => only(status),
        }
    }

    /// Takes an event and says what to do. It must not come while a reply is awaited.
    pub fn handle(&mut self, event: UiEvent) -> (r: Vec<Effect>)
        requires
            old(self)@.waiting is Nothing,
        ensures
            final(self)@ == old(self)@.handle(event@).0,
            deeds(r@) == old(self)@.handle(event@).1,
    {
        match event {
            UiEvent::FnDown => self.begin_recording(),
            UiEvent::FnUp => self.end_recording(),
            UiEvent::FnChord => self.cancel_for_chord(),
            UiEvent::MonitorFailed => only(
                Effect::SetStatus("Grant Input Monitoring, then relaunch FnType".to_owned()),
            ),
            UiEvent::Level(level) => {
                self.level = level;
                assert(self@ =~= old(self)@.handle(event@).0);
                nothing()
            },
            UiEvent::Tick => {
                if self.overlay_open {
                    self.overlay.level = self.level;
                    assert(self@ =~= old(self)@.handle(event@).0);
                    only(Effect::Animate)
                } else {
                    nothing()
                }
            },
            UiEvent::ConnChanged(up, label) => self.conn_changed(up, label),
            UiEvent::ConnRefreshing(label) => self.conn_refreshing(label),
            UiEvent::Stt(event) => self.handle_stt(event),
            UiEvent::WsError(message) => {
                if is_transcribing(self.phase) {
                    self.fail(message)
                } else {
                    only(Effect::SetStatus(message))
                }
            },
            UiEvent::AudioError(message) => {
                if is_capturing(self.phase) {
                    self.fail(message)
                } else {
                    nothing()
                }
            },
            UiEvent::FinalizeTimeout(session) => self.finalize_timeout(session),
            UiEvent::Hide(generation) => self.hide_overlay(generation),
            UiEvent::MenuReconnect => self.ask(Waiting::KeyToReconnect, Effect::LoadKey),
            UiEvent::MenuImportKey => self.ask(Waiting::ImportOutcome, Effect::ImportKey),
            UiEvent::MenuAutoSubmit(checked) => {
                self.settings.auto_submit = checked;
                assert(self@ =~= old(self)@.handle(event@).0);
                only(Effect::SaveSettings)
            },
            UiEvent::MenuTerminalSubmit(checked) => {
                self.settings.allow_terminal_submit = checked;
                assert(self@ =~= old(self)@.handle(event@).0);
                only(Effect::SaveSettings)
            },
        }
    }

    /// Takes a reply and says how to go on. Of one that is not awaited nothing follows.
    pub fn resume(&mut self, reply: Reply) -> (r: Vec<Effect>)
        ensures
            final(self)@ == old(self)@.resume(reply@).0,
            deeds(r@) == old(self)@.resume(reply@).1,
    {
        let mut waiting = Waiting::Nothing;
        std::mem::swap(&mut waiting, &mut self.waiting);
        assert(waiting@ == old(self)@.waiting);
        assert(self@ =~= (Dictation { waiting: Wait::Nothing, ..old(self)@ }));
        match (waiting, reply) {
            (Waiting::KeyToBegin, Reply::Key(key)) => {
                self.waiting = Waiting::KeyToBegin;
                assert(self@ =~= old(self)@);
                self.begin_with_key(key)
            },
            (Waiting::TargetToBegin, Reply::Front(app)) => {
                self.waiting = Waiting::TargetToBegin;
                assert(self@ =~= old(self)@);
                self.begin_with_target(app)
            },
            (Waiting::DictionaryToBegin(name), Reply::Dictionary(contents)) => {
                let effects = self.begin_with_dictionary(name, contents);
                assert(self@ =~= old(self)@.resume(reply@).0);
                effects
            },
            (Waiting::OverlayWindow, Reply::OverlayOpened(ok)) => {
                self.overlay_open = ok;
                assert(self@ =~= old(self)@.resume(reply@).0);
                nothing()
            },
            (Waiting::KeyToReconnect, Reply::Key(key)) => {
                self.waiting = Waiting::KeyToReconnect;
                assert(self@ =~= old(self)@);
                self.reconnect_with_key(key)
            },
            (Waiting::DictionaryToReconnect(key), Reply::Dictionary(contents)) => {
                let effects = self.reconnect_with_dictionary(key, contents);
                assert(self@ =~= old(self)@.resume(reply@).0);
                effects
            },
            (Waiting::ImportOutcome, Reply::Imported(outcome)) => match outcome {
                Ok(_) => {
                    let effects = self.ask(Waiting::KeyAfterImport, Effect::LoadKey);
                    assert(self@ =~= old(self)@.resume(reply@).0);
                    effects
                },
                Err(error) => {
                    let mut status = "Import failed: ".to_owned();
                    status.append(error.as_str());
                    assert(self@ =~= old(self)@.resume(reply@).0);
                    only(Effect::SetStatus(status))
                },
            },
            (Waiting::KeyAfterImport, Reply::Key(key)) => {
                let effects = self.imported_key(key);
                assert(self@ =~= old(self)@.resume(reply@).0);
                effects
            },
            (Waiting::Insert(stage, job), reply) => {
                let effects = self.resume_insert(stage, job, reply);
                assert(old(self)@ =~= (Dictation {
                    waiting: Wait::Nothing,
                    ..old(self)@
                }).inserting(stage, job@));
                effects
            },
            (waiting, _) => {
                self.waiting = waiting;
                assert(self@ =~= old(self)@);
                nothing()
            },
        }
    }
}

} // verus!
