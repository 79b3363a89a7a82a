//! What holds of every dictation, whatever happens in it.

use vstd::prelude::*;

use crate::audio::Cmd;
use crate::coordinator::{self, Answer, Deed, Dictation, InsertStage, Job, Phase, Wait};
use crate::config::Preferences;
use crate::dictionary::{self, DEFAULT_DICTIONARY};
use crate::events::Ui;
use crate::inject::{App, KEY_RETURN, KEY_V};
use crate::overlay::{Mode, Overlay};
use crate::text;
use crate::transcript::{self, SttEvent, Transcript};
use crate::ws::{Command, Config};

verus! {

// ---- Well-formedness ----

/// The insertion stages in order.
pub open spec fn rank(stage: InsertStage) -> int {
    match stage {
        InsertStage::Activating => 0,
        InsertStage::Settling => 1,
        InsertStage::CheckingFocus => 2,
        InsertStage::CheckingField => 3,
        InsertStage::SavingClipboard => 4,
        InsertStage::SettingClipboard => 5,
        InsertStage::BeforeReturn => 6,
        InsertStage::Landing => 7,
        InsertStage::CheckingClipboard => 8,
    }
}

impl Dictation {
    /// There is a target exactly during a dictation, and text only then; an insertion has text
    /// and goes to the target; Return is pressed only where it may be.
    pub open spec fn wf(self) -> bool {
        let idle = self.phase == Phase::Idle || self.phase == Phase::Error;
        &&& self.transcript.wf()
        &&& idle ==> self.transcript == Transcript::empty()
        &&& self.target is None <==> idle
        &&& self.phase == Phase::Inserting <==> self.waiting is Insert
        &&& match self.waiting {
            Wait::KeyToBegin => idle,
            Wait::TargetToBegin => idle,
            Wait::DictionaryToBegin(_) => coordinator::capturing(self.phase),
            Wait::OverlayWindow => !self.overlay_open && self.phase != Phase::Finalizing,
            Wait::Insert(stage, job) => {
                &&& self.target == Some(job.target)
                &&& job.text.len() > 0
                &&& (stage == InsertStage::BeforeReturn || job.pressed) ==> self.submits(job)
                &&& job.pressed ==> rank(stage) >= rank(InsertStage::Landing)
            },
            _ => true,
        }
    }
}

proof fn lemma_nothing_heard_is_clean()
    ensures
        Transcript::empty().wf(),
{
    assert(text::words(Seq::<char>::empty()) == Seq::<Seq<char>>::empty());
}

proof fn lemma_fail_wf(s: Dictation, message: Seq<char>)
    ensures
        s.fail(message).0.wf(),
{
    lemma_nothing_heard_is_clean();
}

proof fn lemma_complete_wf(s: Dictation, raw: Seq<char>)
    requires
        s.wf(),
        s.phase == Phase::Finalizing,
    ensures
        s.complete(raw).0.wf(),
{
    let next = Dictation { session: coordinator::next_gen(s.session), ..s };
    lemma_fail_wf(next, "The target app went away. Nothing was inserted."@);
    lemma_fail_wf(next, "No speech was detected. Nothing was inserted."@);
}

proof fn lemma_heard_wf(s: Dictation, event: &SttEvent)
    requires
        s.wf(),
        coordinator::transcribing(s.phase),
        s.waiting is Nothing,
    ensures
        s.heard(event).wf(),
{
    transcript::law_transcript_stays_clean(s.transcript, event);
}

proof fn lemma_handle_wf(s: Dictation, event: Ui)
    requires
        s.wf(),
        s.waiting is Nothing,
    ensures
        s.handle(event).0.wf(),
{
    lemma_nothing_heard_is_clean();
    match event {
        Ui::Stt(stt) => {
            if coordinator::transcribing(s.phase) {
                lemma_heard_wf(s, &stt);
                let heard = s.heard(&stt);
                if heard.phase == Phase::Finalizing {
                    lemma_complete_wf(heard, heard.transcript.best_text());
                }
            }
        },
        Ui::ConnChanged(up, label) => lemma_fail_wf(Dictation { connected: up, ..s }, label),
        Ui::WsError(message) => lemma_fail_wf(s, message),
        Ui::AudioError(message) => lemma_fail_wf(s, message),
        Ui::FinalizeTimeout(_) => {
            lemma_fail_wf(s, "xAI did not return a transcript. Reconnecting—try again."@);
            if s.phase == Phase::Finalizing {
                lemma_complete_wf(s, s.transcript.best_text());
            }
        },
        _ => {},
    }
}

proof fn lemma_resume_wf(s: Dictation, answer: Answer)
    requires
        s.wf(),
    ensures
        s.resume(answer).0.wf(),
{
    lemma_nothing_heard_is_clean();
    lemma_fail_wf(s, "The target app is no longer open."@);
    lemma_fail_wf(s, "Could not restore focus to the target app."@);
    lemma_fail_wf(s, "FnType will not insert into a password field."@);
    lemma_fail_wf(s, "Could not prepare the transcript for insertion."@);
}

/// Every coordinator is well-formed, from the start and whatever happens.
pub proof fn law_a_dictation_stays_well_formed(s: Dictation, event: Ui, answer: Answer)
    requires
        s.wf(),
    ensures
        s.startup().0.wf(),
        s.waiting is Nothing ==> s.handle(event).0.wf(),
        s.resume(answer).0.wf(),
        forall|settings, dict, api_key|
            #[trigger] Dictation::start(settings, dict, api_key).wf(),
{
    lemma_nothing_heard_is_clean();
    if s.waiting is Nothing {
        lemma_handle_wf(s, event);
    }
    lemma_resume_wf(s, answer);
}

// ---- Questions ----

/// `deed` asks for a reply.
pub open spec fn asks(deed: Deed) -> bool {
    match deed {
        Deed::OpenOverlay => true,
        Deed::LoadKey => true,
        Deed::FindTarget => true,
        Deed::ReadDictionary => true,
        Deed::ImportKey => true,
        Deed::Activate(_) => true,
        Deed::Wait(_) => true,
        Deed::CheckField => true,
        Deed::ReadClipboard => true,
        Deed::SetClipboard(_) => true,
        _ => false,
    }
}

/// `answer` is a reply to `deed`.
pub open spec fn replies_to(answer: Answer, deed: Deed) -> bool {
    match deed {
        Deed::OpenOverlay => answer is OverlayOpened,
        Deed::LoadKey => answer is Key,
        Deed::FindTarget => answer is Front,
        Deed::ReadDictionary => answer is Dictionary,
        Deed::ImportKey => answer is Imported,
        Deed::Activate(_) => answer is Activated,
        Deed::Wait(_) => answer is Elapsed,
        Deed::CheckField => answer is Secure,
        Deed::ReadClipboard => answer is Clipboard,
        Deed::SetClipboard(_) => answer is ClipboardSet,
        _ => false,
    }
}

/// `answer` is what is awaited.
pub open spec fn awaited(waiting: Wait, answer: Answer) -> bool {
    match waiting {
        Wait::Nothing => false,
        Wait::KeyToBegin => answer is Key,
        Wait::TargetToBegin => answer is Front,
        Wait::DictionaryToBegin(_) => answer is Dictionary,
        Wait::OverlayWindow => answer is OverlayOpened,
        Wait::KeyToReconnect => answer is Key,
        Wait::DictionaryToReconnect(_) => answer is Dictionary,
        Wait::ImportOutcome => answer is Imported,
        Wait::KeyAfterImport => answer is Key,
        Wait::Insert(stage, _) => match stage {
            InsertStage::Activating => answer is Activated,
            InsertStage::Settling => answer is Elapsed,
            InsertStage::CheckingFocus => answer is Front,
            InsertStage::CheckingField => answer is Secure,
            InsertStage::SavingClipboard => answer is Clipboard,
            InsertStage::SettingClipboard => answer is ClipboardSet,
            InsertStage::BeforeReturn => answer is Elapsed,
            InsertStage::Landing => answer is Elapsed,
            InsertStage::CheckingClipboard => answer is Clipboard,
        },
    }
}

/// Exactly the `i`-th of `deeds` asks for a reply, and it asks for what is awaited.
pub open spec fn asked_at(deeds: Seq<Deed>, waiting: Wait, i: int) -> bool {
    &&& 0 <= i < deeds.len()
    &&& asks(deeds[i])
    &&& forall|answer: Answer| #[trigger] replies_to(answer, deeds[i]) == awaited(waiting, answer)
    &&& forall|j: int| 0 <= j < deeds.len() && j != i ==> !asks(#[trigger] deeds[j])
}

/// A turn asks one question exactly if a reply is awaited after it, and none otherwise.
pub open spec fn asks_what_it_awaits(turn: (Dictation, Seq<Deed>)) -> bool {
    if turn.0.waiting is Nothing {
        forall|j: int| 0 <= j < turn.1.len() ==> !asks(#[trigger] turn.1[j])
    } else {
        exists|i: int| #[trigger] asked_at(turn.1, turn.0.waiting, i)
    }
}

/// The place of the question among the deeds of a failure.
proof fn lemma_fail_asks(s: Dictation, message: Seq<char>)
    ensures
        asks_what_it_awaits(s.fail(message)),
        !s.overlay_open ==> asked_at(s.fail(message).1, s.fail(message).0.waiting, 2),
        s.fail(message).1.len() == if s.overlay_open {
            3int
        } else {
            4
        },
{
    let turn = s.fail(message);
    if !s.overlay_open {
        assert(turn.1[2] == Deed::OpenOverlay);
        assert(asked_at(turn.1, turn.0.waiting, 2));
    }
}

/// A deed before a turn that asks what it awaits changes nothing of that, if it asks nothing.
proof fn lemma_asks_after(first: Deed, turn: (Dictation, Seq<Deed>))
    requires
        !asks(first),
        asks_what_it_awaits(turn),
    ensures
        asks_what_it_awaits((turn.0, seq![first] + turn.1)),
{
    let longer = seq![first] + turn.1;
    assert forall|j: int| 0 < j < longer.len() implies #[trigger] longer[j] == turn.1[j - 1] by {}
    if turn.0.waiting is Nothing {
        assert forall|j: int| 0 <= j < longer.len() implies !asks(#[trigger] longer[j]) by {
            if j > 0 {
                assert(longer[j] == turn.1[j - 1]);
            }
        }
    } else {
        let i = choose|i: int| #[trigger] asked_at(turn.1, turn.0.waiting, i);
        assert(longer[i + 1] == turn.1[i]);
        assert(asked_at(longer, turn.0.waiting, i + 1));
    }
    let after = (turn.0, longer);
    assert(after.1 == longer);
    assert(asks_what_it_awaits(after));
}

proof fn lemma_complete_asks(s: Dictation, raw: Seq<char>)
    ensures
        asks_what_it_awaits(s.complete(raw)),
{
    let next = Dictation { session: coordinator::next_gen(s.session), ..s };
    lemma_fail_asks(next, "The target app went away. Nothing was inserted."@);
    lemma_fail_asks(next, "No speech was detected. Nothing was inserted."@);
    let turn = s.complete(raw);
    if s.target is Some && s.final_text(raw).len() > 0 {
        assert(asked_at(turn.1, turn.0.waiting, 1));
    }
}

proof fn lemma_handle_asks(s: Dictation, event: Ui)
    requires
        s.waiting is Nothing,
    ensures
        asks_what_it_awaits(s.handle(event)),
{
    let turn = s.handle(event);
    match event {
        Ui::FnDown => {
            assert(turn.1.len() > 0 ==> asked_at(turn.1, turn.0.waiting, 0));
        },
        Ui::MenuReconnect => {
            assert(asked_at(turn.1, turn.0.waiting, 0));
        },
        Ui::MenuImportKey => {
            assert(asked_at(turn.1, turn.0.waiting, 0));
        },
        Ui::ConnChanged(up, label) => {
            let next = Dictation { connected: up, ..s };
            lemma_fail_asks(next, label);
            lemma_asks_after(Deed::SetStatus(label), next.fail(label));
        },
        Ui::Stt(stt) => {
            let heard = s.heard(&stt);
            lemma_complete_asks(heard, heard.transcript.best_text());
            lemma_asks_after(
                Deed::ShowOverlay,
                heard.complete(heard.transcript.best_text()),
            );
        },
        Ui::WsError(message) => lemma_fail_asks(s, message),
        Ui::AudioError(message) => lemma_fail_asks(s, message),
        Ui::FinalizeTimeout(_) => {
            let message = "xAI did not return a transcript. Reconnecting—try again."@;
            lemma_fail_asks(s, message);
            lemma_asks_after(Deed::Ws(Command::Reconnect), s.fail(message));
            lemma_complete_asks(s, s.transcript.best_text());
        },
        _ => {},
    }
}

proof fn lemma_insert_asks(s: Dictation, stage: InsertStage, job: Job, answer: Answer)
    requires
        s.waiting == Wait::Insert(stage, job),
        awaited(s.waiting, answer),
    ensures
        asks_what_it_awaits(s.resume(answer)),
{
    let turn = s.resume(answer);
    lemma_fail_asks(s, "The target app is no longer open."@);
    lemma_fail_asks(s, "Could not restore focus to the target app."@);
    lemma_fail_asks(s, "FnType will not insert into a password field."@);
    lemma_fail_asks(s, "Could not prepare the transcript for insertion."@);
    if turn.0.waiting is Insert {
        let n = turn.1.len() - 1;
        assert(asks(turn.1[n]));
        assert(asked_at(turn.1, turn.0.waiting, n));
    }
}

/// In every turn at most one question is asked: one exactly if a reply is awaited afterwards,
/// and then one that the awaited reply answers. A reply that is not awaited changes nothing.
pub proof fn law_a_question_is_asked_exactly_while_a_reply_is_awaited(
    s: Dictation,
    event: Ui,
    answer: Answer,
)
    ensures
        s.waiting is Nothing ==> asks_what_it_awaits(s.handle(event)),
        awaited(s.waiting, answer) ==> asks_what_it_awaits(s.resume(answer)),
        !awaited(s.waiting, answer) ==> s.resume(answer) == s.stay(),
{
    if s.waiting is Nothing {
        lemma_handle_asks(s, event);
    }
    if awaited(s.waiting, answer) {
        let turn = s.resume(answer);
        match s.waiting {
            Wait::Insert(stage, job) => lemma_insert_asks(s, stage, job, answer),
            Wait::KeyToBegin => {
                let n: int = if turn.1.len() == 1 {
                    0
                } else {
                    1
                };
                assert(!(turn.0.waiting is Nothing) ==> asked_at(turn.1, turn.0.waiting, n));
            },
            Wait::DictionaryToBegin(_) => {
                let n = turn.1.len() - 1;
                assert(!s.overlay_open ==> asked_at(turn.1, turn.0.waiting, n));
            },
            Wait::TargetToBegin => {
                assert(turn.1.len() > 0 ==> asked_at(turn.1, turn.0.waiting, 1));
            },
            _ => {
                assert(!(turn.0.waiting is Nothing) ==> asked_at(turn.1, turn.0.waiting, 0));
            },
        }
    }
}

// ---- Runs ----

/// Something that happens.
pub enum Input {
    /// An event; it is taken only while no reply is awaited.
    Event(Ui),
    Reply(Answer),
}

/// What `input` leads to.
pub open spec fn turn_on(s: Dictation, input: Input) -> (Dictation, Seq<Deed>) {
    match input {
        Input::Event(event) => if s.waiting is Nothing {
            s.handle(event)
        } else {
            s.stay()
        },
        Input::Reply(answer) => s.resume(answer),
    }
}

/// What `inputs` lead to, one after the other.
pub open spec fn run(s: Dictation, inputs: Seq<Input>) -> (Dictation, Seq<Deed>)
    decreases inputs.len(),
{
    if inputs.len() == 0 {
        s.stay()
    } else {
        let first = turn_on(s, inputs[0]);
        let rest = run(first.0, inputs.drop_first());
        (rest.0, first.1 + rest.1)
    }
}

/// Every coordinator stays well-formed in every run.
pub proof fn law_every_run_stays_well_formed(s: Dictation, inputs: Seq<Input>)
    requires
        s.wf(),
    ensures
        run(s, inputs).0.wf(),
    decreases inputs.len(),
{
    if inputs.len() > 0 {
        match inputs[0] {
            Input::Event(event) => if s.waiting is Nothing {
                lemma_handle_wf(s, event);
            },
            Input::Reply(answer) => lemma_resume_wf(s, answer),
        }
        law_every_run_stays_well_formed(turn_on(s, inputs[0]).0, inputs.drop_first());
    }
}

// ---- What is inserted, and where ----

/// None of `deeds` presses a key or starts capture.
pub open spec fn quiet(deeds: Seq<Deed>) -> bool {
    forall|i: int|
        0 <= i < deeds.len() ==> !(#[trigger] deeds[i] is PostKey) && deeds[i] != Deed::Audio(
            Cmd::Start,
        )
}

proof fn lemma_quiet_after(first: Deed, rest: Seq<Deed>)
    requires
        !(first is PostKey),
        first != Deed::Audio(Cmd::Start),
        quiet(rest),
    ensures
        quiet(seq![first] + rest),
{
    let all = seq![first] + rest;
    assert forall|i: int| 0 <= i < all.len() implies !(#[trigger] all[i] is PostKey) && all[i]
        != Deed::Audio(Cmd::Start) by {
        if i > 0 {
            assert(all[i] == rest[i - 1]);
        }
    }
}

proof fn lemma_fail_quiet(s: Dictation, message: Seq<char>)
    ensures
        quiet(s.fail(message).1),
        s.fail(message).1.len() > 0,
        s.fail(message).1[0] == Deed::Audio(Cmd::StopDiscard),
        !(s.fail(message).0.waiting is Insert),
        s.fail(message).0.settings == s.settings,
        s.fail(message).0.phase == Phase::Error,
{
}

proof fn lemma_complete_quiet(s: Dictation, raw: Seq<char>)
    ensures
        quiet(s.complete(raw).1),
        s.complete(raw).0.waiting matches Wait::Insert(stage, _) ==> stage
            == InsertStage::Activating,
        s.complete(raw).0.settings == s.settings,
{
    let next = Dictation { session: coordinator::next_gen(s.session), ..s };
    lemma_fail_quiet(next, "The target app went away. Nothing was inserted."@);
    lemma_fail_quiet(next, "No speech was detected. Nothing was inserted."@);
}

/// An event presses no key and starts no capture, and takes no insertion past its first stage.
proof fn lemma_handle_quiet(s: Dictation, event: Ui)
    requires
        s.waiting is Nothing,
    ensures
        quiet(s.handle(event).1),
        s.handle(event).0.waiting matches Wait::Insert(stage, _) ==> stage
            == InsertStage::Activating,
        event != Ui::MenuAutoSubmit(true) && !s.settings.auto_submit ==> !s.handle(
            event,
        ).0.settings.auto_submit,
{
    match event {
        Ui::ConnChanged(up, label) => {
            let next = Dictation { connected: up, ..s };
            lemma_fail_quiet(next, label);
            lemma_quiet_after(Deed::SetStatus(label), next.fail(label).1);
        },
        Ui::Stt(stt) => {
            let heard = s.heard(&stt);
            let raw = heard.transcript.best_text();
            lemma_complete_quiet(heard, raw);
            lemma_quiet_after(Deed::ShowOverlay, heard.complete(raw).1);
        },
        Ui::WsError(message) => lemma_fail_quiet(s, message),
        Ui::AudioError(message) => lemma_fail_quiet(s, message),
        Ui::FinalizeTimeout(_) => {
            let message = "xAI did not return a transcript. Reconnecting—try again."@;
            lemma_fail_quiet(s, message);
            lemma_quiet_after(Deed::Ws(Command::Reconnect), s.fail(message).1);
            lemma_complete_quiet(s, s.transcript.best_text());
        },
        _ => {},
    }
}

/// A reply outside of an insertion presses no key, and starts capture only where it names the
/// target.
proof fn lemma_resume_quiet(s: Dictation, answer: Answer)
    requires
        !(s.waiting is Insert),
    ensures
        forall|i: int|
            0 <= i < s.resume(answer).1.len() ==> !(#[trigger] s.resume(answer).1[i] is PostKey),
        !(s.waiting is TargetToBegin) ==> quiet(s.resume(answer).1),
        !(s.resume(answer).0.waiting is Insert),
        s.resume(answer).0.settings == s.settings,
{
}

/// During an insertion a key is pressed only once the text is on the clipboard or when the wait
/// for Return is over.
proof fn lemma_insert_quiet(s: Dictation, stage: InsertStage, job: Job, answer: Answer)
    requires
        s.waiting == Wait::Insert(stage, job),
    ensures
        s.resume(answer).0.settings == s.settings,
        if stage == InsertStage::SettingClipboard && answer == Answer::ClipboardSet(true) {
            &&& s.resume(answer) == s.paste(job)
            &&& s.paste(job).1[0] == (Deed::PostKey {
                pid: job.target.pid,
                keycode: KEY_V,
                command: true,
            })
            &&& quiet(s.paste(job).1.drop_first())
            &&& s.paste(job).0.target == s.target
            &&& s.paste(job).0.waiting matches Wait::Insert(next, _) && (next
                == InsertStage::BeforeReturn ==> s.submits(job))
        } else if stage == InsertStage::BeforeReturn && answer is Elapsed {
            &&& s.resume(answer) == s.press_return(job)
            &&& s.press_return(job).1[0] == (Deed::PostKey {
                pid: job.target.pid,
                keycode: KEY_RETURN,
                command: false,
            })
            &&& quiet(s.press_return(job).1.drop_first())
            &&& s.press_return(job).0.target == s.target
            &&& s.press_return(job).0.waiting matches Wait::Insert(next, _) && next
                == InsertStage::Landing
        } else {
            &&& quiet(s.resume(answer).1)
            &&& s.resume(answer).0.waiting matches Wait::Insert(next, _) ==> (next == stage
                || rank(next) == rank(stage) + 1) && (next == InsertStage::BeforeReturn ==> stage
                == next)
        },
{
    lemma_fail_quiet(s, "The target app is no longer open."@);
    lemma_fail_quiet(s, "Could not restore focus to the target app."@);
    lemma_fail_quiet(s, "FnType will not insert into a password field."@);
    lemma_fail_quiet(s, "Could not prepare the transcript for insertion."@);
    if stage == InsertStage::SettingClipboard && answer == Answer::ClipboardSet(true) {
        let rest = s.pasted(job, false).1;
        if !s.submits(job) {
            assert(s.paste(job).1.drop_first() == rest);
        }
    }
    if stage == InsertStage::BeforeReturn && answer is Elapsed {
        assert(s.press_return(job).1.drop_first() == s.pasted(job, true).1);
    }
}

/// A key is pressed only in the two places of an insertion.
proof fn lemma_key_turn(s: Dictation, input: Input, i: int)
    requires
        0 <= i < turn_on(s, input).1.len(),
        turn_on(s, input).1[i] is PostKey,
    ensures
        input is Reply,
        i == 0,
        s.waiting matches Wait::Insert(stage, job) && (stage == InsertStage::SettingClipboard
            && input == Input::Reply(Answer::ClipboardSet(true)) || stage
            == InsertStage::BeforeReturn && input == Input::Reply(Answer::Elapsed)),
{
    match input {
        Input::Event(event) => if s.waiting is Nothing {
            lemma_handle_quiet(s, event);
        },
        Input::Reply(answer) => match s.waiting {
            Wait::Insert(stage, job) => {
                lemma_insert_quiet(s, stage, job, answer);
                let all = turn_on(s, input).1;
                if i > 0 {
                    assert(all[i] == all.drop_first()[i - 1]);
                }
            },
            _ => lemma_resume_quiet(s, answer),
        },
    }
}

/// A stage with a check that an insertion must pass.
pub open spec fn is_check(stage: InsertStage) -> bool {
    stage == InsertStage::Activating || stage == InsertStage::CheckingField || stage
        == InsertStage::SettingClipboard
}

/// `answer` passes the check of `stage`: the target app is there, no password field is focused,
/// the text is on the clipboard.
pub open spec fn passes(stage: InsertStage, answer: Answer) -> bool {
    match stage {
        InsertStage::Activating => answer == Answer::Activated(true),
        InsertStage::CheckingField => answer == Answer::Secure(false),
        InsertStage::SettingClipboard => answer == Answer::ClipboardSet(true),
        _ => true,
    }
}

/// No insertion has come past `stage`.
pub open spec fn not_past(s: Dictation, stage: InsertStage) -> bool {
    match s.waiting {
        Wait::Insert(now, _) => rank(now) <= rank(stage),
        _ => true,
    }
}

proof fn lemma_unpassed_turn(s: Dictation, check: InsertStage, input: Input)
    requires
        is_check(check),
        not_past(s, check),
        input matches Input::Reply(answer) ==> !passes(check, answer),
    ensures
        not_past(turn_on(s, input).0, check),
        forall|i: int|
            0 <= i < turn_on(s, input).1.len() ==> !(#[trigger] turn_on(s, input).1[i] is PostKey),
{
    match input {
        Input::Event(event) => if s.waiting is Nothing {
            lemma_handle_quiet(s, event);
        },
        Input::Reply(answer) => match s.waiting {
            Wait::Insert(stage, job) => lemma_insert_quiet(s, stage, job, answer),
            _ => lemma_resume_quiet(s, answer),
        },
    }
}

/// No key is pressed anywhere in a run in which the target app is never found alive, or no
/// focused field is ever found not to be a password field, or the text never gets onto the
/// clipboard.
pub proof fn law_nothing_is_inserted_unless_every_check_passes(
    s: Dictation,
    check: InsertStage,
    inputs: Seq<Input>,
)
    requires
        is_check(check),
        not_past(s, check),
        forall|i: int|
            0 <= i < inputs.len() ==> (#[trigger] inputs[i] matches Input::Reply(answer) ==> !passes(
                check,
                answer,
            )),
    ensures
        forall|i: int|
            0 <= i < run(s, inputs).1.len() ==> !(#[trigger] run(s, inputs).1[i] is PostKey),
    decreases inputs.len(),
{
    if inputs.len() > 0 {
        let first = turn_on(s, inputs[0]);
        let rest = inputs.drop_first();
        lemma_unpassed_turn(s, check, inputs[0]);
        assert forall|i: int| 0 <= i < rest.len() implies (
        #[trigger] rest[i] matches Input::Reply(answer) ==> !passes(check, answer)) by {
            assert(rest[i] == inputs[i + 1]);
        }
        law_nothing_is_inserted_unless_every_check_passes(first.0, check, rest);
        let all = run(s, inputs).1;
        assert forall|i: int| 0 <= i < all.len() implies !(#[trigger] all[i] is PostKey) by {
            if i >= first.1.len() {
                assert(all[i] == run(first.0, rest).1[i - first.1.len()]);
            }
        }
    }
}

/// Keys go only to the app that the dictation began in: one is pressed only while an insertion
/// into that app is under way, Command-V with the text on the clipboard, or Return after it.
/// During a dictation the target does not change.
pub proof fn law_keys_go_only_to_the_target(s: Dictation, input: Input, i: int)
    requires
        s.wf(),
        0 <= i < turn_on(s, input).1.len(),
        turn_on(s, input).1[i] is PostKey,
    ensures
        s.waiting matches Wait::Insert(stage, job) && s.target == Some(job.target) && (
        turn_on(s, input).1[i] == (Deed::PostKey {
            pid: job.target.pid,
            keycode: KEY_V,
            command: true,
        }) && stage == InsertStage::SettingClipboard || turn_on(s, input).1[i] == (Deed::PostKey {
            pid: job.target.pid,
            keycode: KEY_RETURN,
            command: false,
        }) && stage == InsertStage::BeforeReturn),
        turn_on(s, input).0.target == s.target,
{
    lemma_key_turn(s, input, i);
    if let (Wait::Insert(stage, job), Input::Reply(answer)) = (s.waiting, input) {
        lemma_insert_quiet(s, stage, job, answer);
    }
}

/// The target of a dictation is the app that was in front when it began.
#[verifier::rlimit(30)]
pub proof fn law_the_target_is_the_app_in_front_at_the_start(s: Dictation, input: Input)
    requires
        s.wf(),
        turn_on(s, input).0.target is Some,
    ensures
        turn_on(s, input).0.target == s.target || (s.waiting is TargetToBegin && input
            == Input::Reply(Answer::Front(turn_on(s, input).0.target))),
{
}

/// Where another app is in front when the text is to be inserted, the dictation fails.
pub proof fn law_a_target_out_of_focus_gets_nothing(s: Dictation, job: Job, front: Option<App>)
    requires
        s.waiting == Wait::Insert(InsertStage::CheckingFocus, job),
        front is None || front->0.pid != job.target.pid,
    ensures
        s.resume(Answer::Front(front)) == s.fail("Could not restore focus to the target app."@),
{
}

/// A failure inserts nothing and forgets what was heard and where it should go.
pub proof fn law_a_failure_inserts_nothing(s: Dictation, message: Seq<char>, i: int)
    ensures
        ({
            let turn = s.fail(message);
            &&& turn.0.phase == Phase::Error
            &&& turn.0.target is None
            &&& turn.0.transcript == Transcript::empty()
            &&& !(turn.0.waiting is Insert)
            &&& turn.0.overlay.message == "Not inserted"@
            &&& turn.0.overlay.preview == message
            &&& turn.0.overlay.mode == Mode::Error
            &&& turn.0.overlay.target_name == s.overlay.target_name
            &&& s.session < u64::MAX ==> turn.0.session == s.session + 1
            &&& s.hide_gen < u64::MAX ==> turn.0.hide_gen == s.hide_gen + 1
            &&& turn.0.settings == s.settings
            &&& turn.0.dict == s.dict
            &&& turn.0.api_key == s.api_key
            &&& turn.0.connected == s.connected
            &&& turn.0.bias_at_connect == s.bias_at_connect
            &&& turn.0.overlay_open == s.overlay_open
            &&& s.overlay_open ==> turn.0.waiting is Nothing && turn.1.len() == 3
            &&& !s.overlay_open ==> turn.0.waiting is OverlayWindow && turn.1.len() == 4
                && turn.1[2] == Deed::OpenOverlay
            &&& turn.1[0] == Deed::Audio(Cmd::StopDiscard)
            &&& turn.1[1] == Deed::ShowOverlay
            &&& turn.1.last() == Deed::After(2_300, Ui::Hide(turn.0.hide_gen))
            &&& 0 <= i < turn.1.len() ==> !(turn.1[i] is PostKey || turn.1[i] is SetClipboard
                || turn.1[i] is Activate)
        }),
{
}

/// A failed transcription fails the dictation: an error of the recogniser, a lost connection, or
/// a broken microphone while Fn is held.
pub proof fn law_a_failed_transcription_fails_the_dictation(s: Dictation, message: Seq<char>)
    requires
        s.waiting is Nothing,
    ensures
        (s.phase == Phase::Recording || s.phase == Phase::Connecting || s.phase
            == Phase::Finalizing) ==> s.handle(Ui::WsError(message)) == s.fail(message),
        (s.phase == Phase::Recording || s.phase == Phase::Connecting || s.phase
            == Phase::Finalizing) ==> s.handle(Ui::ConnChanged(false, message)) == (
            (Dictation { connected: false, ..s }).fail(message).0,
            seq![Deed::SetStatus(message)] + (Dictation { connected: false, ..s }).fail(
                message,
            ).1,
        ),
        (s.phase == Phase::Recording || s.phase == Phase::Connecting) ==> s.handle(
            Ui::AudioError(message),
        ) == s.fail(message),
{
}

/// Without words there is nothing to replace.
proof fn lemma_apply_to_nothing(entries: Seq<(Seq<char>, Seq<char>)>)
    ensures
        dictionary::apply_entries(Seq::empty(), entries) == Seq::<char>::empty(),
    decreases entries.len(),
{
    if entries.len() > 0 {
        lemma_apply_to_nothing(entries.drop_last());
    }
}

/// Empty speech is not inserted: neither when the recogniser is done nor when it is given up on.
pub proof fn law_empty_speech_is_not_inserted(s: Dictation, raw: Seq<char>)
    requires
        s.wf(),
        s.phase == Phase::Finalizing,
        text::cleaned(raw).len() == 0,
    ensures
        s.complete(raw) == (Dictation {
            session: coordinator::next_gen(s.session),
            ..s
        }).fail("No speech was detected. Nothing was inserted."@),
        raw == s.transcript.best_text() ==> s.handle(Ui::FinalizeTimeout(s.session)) == (
            s.fail("xAI did not return a transcript. Reconnecting—try again."@).0,
            seq![Deed::Ws(Command::Reconnect)] + s.fail(
                "xAI did not return a transcript. Reconnecting—try again."@,
            ).1,
        ),
{
    assert(text::cleaned(raw) == Seq::<char>::empty());
    lemma_apply_to_nothing(s.dict);
}

/// The final transcript is pasted into the target: where there is text, and every check passes,
/// it is put on the clipboard and Command-V pressed in the target app. What is pasted is what
/// was heard, cleaned, with the dictionary applied.
pub proof fn law_the_final_transcript_is_pasted(
    s: Dictation,
    raw: Seq<char>,
    target: App,
    front: App,
    saved: Option<Seq<char>>,
)
    requires
        s.target == Some(target),
        front.pid == target.pid,
        dictionary::apply_entries(text::cleaned(raw), s.dict).len() > 0,
    ensures
        ({
            let there = s.complete(raw).0.resume(Answer::Activated(true)).0;
            let free = there.resume(Answer::Elapsed).0.resume(Answer::Front(Some(front))).0;
            let clear = free.resume(Answer::Secure(false)).0;
            let set = clear.resume(Answer::Clipboard(saved));
            let pasted = set.0.resume(Answer::ClipboardSet(true));
            &&& set.1 == seq![
                Deed::SetClipboard(dictionary::apply_entries(text::cleaned(raw), s.dict)),
            ]
            &&& pasted.1.len() > 0
            &&& pasted.1[0] == (Deed::PostKey { pid: target.pid, keycode: KEY_V, command: true })
        }),
{
}

// ---- Return ----

/// Return is pressed only after text, only where automatic submission is on, and in a terminal
/// only where that is allowed.
pub proof fn law_return_is_pressed_only_where_it_may_be(s: Dictation, input: Input, i: int)
    requires
        s.wf(),
        0 <= i < turn_on(s, input).1.len(),
        turn_on(s, input).1[i] matches Deed::PostKey { keycode, .. } && keycode == KEY_RETURN,
    ensures
        s.settings.auto_submit,
        s.waiting matches Wait::Insert(_, job) && text::cleaned(job.text).len() > 0 && (
        transcript::terminal_app(job.target.name, job.target.bundle_id)
            ==> s.settings.allow_terminal_submit),
{
    lemma_key_turn(s, input, i);
    if let (Wait::Insert(stage, job), Input::Reply(answer)) = (s.waiting, input) {
        lemma_insert_quiet(s, stage, job, answer);
    }
}

/// Automatic submission is off and no Return is about to be pressed.
pub open spec fn paste_only(s: Dictation) -> bool {
    &&& !s.settings.auto_submit
    &&& match s.waiting {
        Wait::Insert(stage, _) => stage != InsertStage::BeforeReturn,
        _ => true,
    }
}

/// `deed` presses Return.
pub open spec fn is_return(deed: Deed) -> bool {
    deed matches Deed::PostKey { keycode, .. } && keycode == KEY_RETURN
}

proof fn lemma_paste_only_turn(s: Dictation, input: Input)
    requires
        paste_only(s),
        input != Input::Event(Ui::MenuAutoSubmit(true)),
    ensures
        paste_only(turn_on(s, input).0),
        forall|i: int|
            0 <= i < turn_on(s, input).1.len() ==> !is_return(#[trigger] turn_on(s, input).1[i]),
{
    match input {
        Input::Event(event) => if s.waiting is Nothing {
            lemma_handle_quiet(s, event);
        },
        Input::Reply(answer) => match s.waiting {
            Wait::Insert(stage, job) => lemma_insert_quiet(s, stage, job, answer),
            _ => lemma_resume_quiet(s, answer),
        },
    }
    assert forall|i: int| 0 <= i < turn_on(s, input).1.len() implies !is_return(
        #[trigger] turn_on(s, input).1[i],
    ) by {
        if turn_on(s, input).1[i] is PostKey {
            lemma_key_turn(s, input, i);
        }
    }
}

/// Text is pasted only, unless the user turns automatic submission on: without that, no run
/// presses Return.
pub proof fn law_return_is_opt_in(s: Dictation, inputs: Seq<Input>)
    requires
        paste_only(s),
        forall|i: int|
            0 <= i < inputs.len() ==> #[trigger] inputs[i] != Input::Event(
                Ui::MenuAutoSubmit(true),
            ),
    ensures
        forall|i: int|
            0 <= i < run(s, inputs).1.len() ==> !is_return(#[trigger] run(s, inputs).1[i]),
    decreases inputs.len(),
{
    if inputs.len() > 0 {
        let first = turn_on(s, inputs[0]);
        let rest = inputs.drop_first();
        lemma_paste_only_turn(s, inputs[0]);
        assert forall|i: int| 0 <= i < rest.len() implies #[trigger] rest[i] != Input::Event(
            Ui::MenuAutoSubmit(true),
        ) by {
            assert(rest[i] == inputs[i + 1]);
        }
        law_return_is_opt_in(first.0, rest);
        let all = run(s, inputs).1;
        assert forall|i: int| 0 <= i < all.len() implies !is_return(#[trigger] all[i]) by {
            if i >= first.1.len() {
                assert(all[i] == run(first.0, rest).1[i - first.1.len()]);
            }
        }
    }
}

// ---- The clipboard ----

/// The previous clipboard text is restored after the paste: what was on the clipboard before is
/// put back, or the clipboard cleared if there was nothing, unless something else has been put
/// there meanwhile.
pub proof fn law_the_clipboard_is_restored(
    s: Dictation,
    job: Job,
    saved: Option<Seq<char>>,
    now: Option<Seq<char>>,
    i: int,
)
    requires
        s.waiting == Wait::Insert(InsertStage::SavingClipboard, job),
    ensures
        ({
            let set = s.resume(Answer::Clipboard(saved));
            let pasted = set.0.resume(Answer::ClipboardSet(true));
            let landing = if s.submits(job) {
                pasted.0.resume(Answer::Elapsed)
            } else {
                pasted
            };
            let check = landing.0.resume(Answer::Elapsed);
            let end = check.0.resume(Answer::Clipboard(now));
            &&& set.1 == seq![Deed::SetClipboard(job.text)]
            &&& landing.1.last() == Deed::Wait(420)
            &&& check.1 == seq![Deed::ReadClipboard]
            &&& end.0.phase == Phase::Idle
            &&& end.0.waiting is Nothing
            &&& end.1.len() > 0
            &&& (now == Some(job.text) && saved is Some) ==> end.1[0]
                == Deed::RestoreClipboard(saved->0)
            &&& (now == Some(job.text) && saved is None) ==> end.1[0] == Deed::ClearClipboard
            &&& (now != Some(job.text) && 0 <= i < end.1.len()) ==> !(end.1[i] is RestoreClipboard
                || end.1[i] is ClearClipboard)
        }),
{
    let set = s.resume(Answer::Clipboard(saved)).0;
    let kept = Job { saved, ..job };
    assert(set.submits(kept) == s.submits(job));
    assert(set.waiting == Wait::Insert(InsertStage::SettingClipboard, kept));
}

// ---- Sessions ----

/// A timeout is void once the dictation that it was set for is over: leaving the wait for the
/// last words changes the session.
pub proof fn law_a_stale_timeout_is_void(s: Dictation, input: Input)
    requires
        s.wf(),
        s.phase == Phase::Finalizing,
        turn_on(s, input).0.phase != Phase::Finalizing,
    ensures
        turn_on(s, input).0.session != s.session,
        turn_on(s, input).0.finalize_timeout(s.session) == turn_on(s, input).0.stay(),
{
}

/// A plan to hide the overlay is void once there is a newer one, and one that comes due during
/// a dictation hides nothing.
pub proof fn law_a_stale_plan_to_hide_is_void(s: Dictation, generation: u64)
    requires
        generation != s.hide_gen || s.target is Some,
        s.wf(),
    ensures
        s.hide_overlay(generation) == s.stay(),
{
}

/// Fn used with another key cancels the recording: what was heard is discarded, and neither the
/// release of Fn nor what the recogniser still says leads to anything.
pub proof fn law_a_chord_cancels(s: Dictation, event: SttEvent)
    requires
        s.phase == Phase::Recording || s.phase == Phase::Connecting,
        s.waiting is Nothing,
    ensures
        ({
            let turn = s.handle(Ui::FnChord);
            &&& turn.0.phase == Phase::Idle
            &&& turn.0.target is None
            &&& turn.0.transcript == Transcript::empty()
            &&& turn.1 == seq![
                Deed::Audio(Cmd::StopDiscard),
                Deed::ShowOverlay,
                Deed::After(650, Ui::Hide(turn.0.hide_gen)),
            ]
            &&& s.hide_gen < u64::MAX ==> turn.0.hide_gen == s.hide_gen + 1
            &&& turn.0.overlay == (Overlay {
                mode: Mode::Warning,
                message: "Cancelled"@,
                preview: "Fn was used with another key"@,
                ..s.overlay
            })
            &&& s.session < u64::MAX ==> turn.0.session == s.session + 1
            &&& turn.0.handle(Ui::FnUp) == turn.0.stay()
            &&& turn.0.handle(Ui::Stt(event)) == turn.0.stay()
            &&& turn.0.handle(Ui::FinalizeTimeout(s.session)) == turn.0.stay()
        }),
{
}

/// `deed` stops capture.
pub open spec fn stops_capture(deed: Deed) -> bool {
    deed == Deed::Audio(Cmd::StopDiscard) || deed == Deed::Audio(Cmd::StopFinalize)
}

/// Whatever ends a recording stops capture in the same turn.
pub proof fn law_capture_stops_when_recording_ends(s: Dictation, input: Input)
    requires
        s.wf(),
        s.phase == Phase::Recording || s.phase == Phase::Connecting,
        turn_on(s, input).0.phase != Phase::Recording,
        turn_on(s, input).0.phase != Phase::Connecting,
    ensures
        exists|i: int|
            0 <= i < turn_on(s, input).1.len() && stops_capture(
                #[trigger] turn_on(s, input).1[i],
            ),
{
    let deeds = turn_on(s, input).1;
    match input {
        Input::Event(event) => match event {
            Ui::ConnChanged(up, label) => {
                lemma_fail_quiet(Dictation { connected: up, ..s }, label);
                assert(deeds[1] == Deed::Audio(Cmd::StopDiscard));
                assert(stops_capture(deeds[1]));
            },
            Ui::Stt(stt) => {
                assert(s.heard(&stt).phase == Phase::Recording);
            },
            _ => {
                assert(stops_capture(deeds[0]));
            },
        },
        Input::Reply(answer) => {
            assert(s.resume(answer).0.phase == s.phase);
        },
    }
}

/// Capture starts only when a recording begins.
pub proof fn law_capture_starts_only_with_a_recording(s: Dictation, input: Input, i: int)
    requires
        s.wf(),
        0 <= i < turn_on(s, input).1.len(),
        turn_on(s, input).1[i] == Deed::Audio(Cmd::Start),
    ensures
        s.phase != Phase::Recording && s.phase != Phase::Connecting,
        turn_on(s, input).0.phase == Phase::Recording || turn_on(s, input).0.phase
            == Phase::Connecting,
        turn_on(s, input).0.transcript == Transcript::empty(),
{
    match input {
        Input::Event(event) => if s.waiting is Nothing {
            lemma_handle_quiet(s, event);
        },
        Input::Reply(answer) => match s.waiting {
            Wait::Insert(stage, job) => {
                lemma_insert_quiet(s, stage, job, answer);
                let all = turn_on(s, input).1;
                if i > 0 {
                    assert(all[i] == all.drop_first()[i - 1]);
                }
            },
            _ => lemma_resume_quiet(s, answer),
        },
    }
}

/// Each awaited reply takes an insertion further, so it comes to an end.
pub proof fn law_an_insertion_comes_to_an_end(
    s: Dictation,
    stage: InsertStage,
    job: Job,
    answer: Answer,
)
    requires
        s.waiting == Wait::Insert(stage, job),
        awaited(s.waiting, answer),
    ensures
        match s.resume(answer).0.waiting {
            Wait::Insert(next, _) => rank(next) > rank(stage),
            _ => true,
        },
{
}

// ---- Event by event ----

/// A new coordinator has its settings, dictionary and key, and nothing is going on.
pub proof fn law_a_new_coordinator_is_idle(
    settings: Preferences,
    dict: Seq<(Seq<char>, Seq<char>)>,
    key: Option<Seq<char>>,
)
    ensures
        ({
            let s = Dictation::start(settings, dict, key);
            &&& s.settings == settings && s.dict == dict && s.api_key == key
            &&& s.phase == Phase::Idle && s.waiting is Nothing && s.target is None
            &&& s.transcript.best_text().len() == 0
            &&& !s.connected && !s.overlay_open && s.bias_at_connect.len() == 0
            &&& s.overlay.mode == Mode::Listening && s.overlay.preview.len() == 0 && s.overlay.level
                == 0
        }),
{
    reveal_strlit("");
    let none = Transcript::empty();
    assert(none.pieces() =~= Seq::<Seq<char>>::empty());
}

/// Pressing Fn while nothing is going on looks for the key, if it is not known, and for the app
/// in front, which becomes the target; capture starts before anything else, on an empty
/// transcript and in a new session. Without an app in front nothing starts. During a dictation a
/// press changes nothing.
pub proof fn law_pressing_fn_begins_a_recording(s: Dictation, key: Seq<char>, app: App)
    ensures
        ({
            let free = s.phase == Phase::Idle || s.phase == Phase::Error;
            let down = s.handle(Ui::FnDown);
            let keyed = (Dictation { waiting: Wait::KeyToBegin, ..s }).resume(
                Answer::Key(Some(key)),
            );
            let looking = Dictation { waiting: Wait::TargetToBegin, ..s };
            let found = looking.resume(Answer::Front(Some(app)));
            &&& !free ==> down == (s, Seq::<Deed>::empty())
            &&& (free && s.api_key is Some) ==> down == (looking, seq![Deed::FindTarget])
            &&& (free && s.api_key is None) ==> down == (
                Dictation { waiting: Wait::KeyToBegin, ..s },
                seq![Deed::LoadKey],
            )
            &&& keyed == (
                Dictation { api_key: Some(key), waiting: Wait::TargetToBegin, ..s },
                seq![Deed::FindTarget],
            )
            &&& looking.resume(Answer::Front(None)) == (
                Dictation { target: None, waiting: Wait::Nothing, ..s },
                Seq::<Deed>::empty(),
            )
            &&& found.1 == seq![Deed::Audio(Cmd::Start), Deed::ReadDictionary]
            &&& found.0 == Dictation {
                target: Some(app),
                transcript: Transcript::empty(),
                session: found.0.session,
                level: 0,
                phase: if s.connected {
                    Phase::Recording
                } else {
                    Phase::Connecting
                },
                waiting: Wait::DictionaryToBegin(app.name),
                ..s
            }
            &&& s.session < u64::MAX ==> found.0.session == s.session + 1
        }),
{
}

/// Once the dictionary is read, the overlay shows that the app listens or connects, for the app
/// in front, and opens. A dictionary that cannot be read is the default one, and is written.
pub proof fn law_a_recording_opens_the_overlay(
    s: Dictation,
    name: Seq<char>,
    contents: Option<Seq<char>>,
    opened: bool,
)
    requires
        s.waiting == Wait::DictionaryToBegin(name),
    ensures
        ({
            let turn = s.resume(Answer::Dictionary(contents));
            let written = match contents {
                Some(t) => Seq::empty(),
                None => seq![Deed::WriteDefaultDictionary],
            };
            &&& turn.1 == written + if s.overlay_open {
                seq![Deed::ShowOverlay]
            } else {
                seq![Deed::ShowOverlay, Deed::OpenOverlay]
            }
            &&& turn.0 == Dictation {
                dict: dictionary::parse_lines(
                    text::lines(
                        match contents {
                            Some(t) => t,
                            None => DEFAULT_DICTIONARY@,
                        },
                    ),
                ),
                overlay: Overlay {
                    mode: if s.connected {
                        Mode::Listening
                    } else {
                        Mode::Connecting
                    },
                    message: if s.connected {
                        "Listening"@
                    } else {
                        "Connecting"@
                    },
                    preview: ""@,
                    target_name: name,
                    level: 0,
                },
                waiting: if s.overlay_open {
                    Wait::Nothing
                } else {
                    Wait::OverlayWindow
                },
                ..s
            }
            &&& !s.overlay_open ==> turn.0.resume(Answer::OverlayOpened(opened)) == (
                Dictation { overlay_open: opened, waiting: Wait::Nothing, ..turn.0 },
                Seq::<Deed>::empty(),
            )
        }),
{
    let turn = s.resume(Answer::Dictionary(contents));
    let written: Seq<Deed> = match contents {
        Some(t) => Seq::empty(),
        None => seq![Deed::WriteDefaultDictionary],
    };
    assert(turn.1 =~= written + if s.overlay_open {
        seq![Deed::ShowOverlay]
    } else {
        seq![Deed::ShowOverlay, Deed::OpenOverlay]
    });
}

/// Without a key the overlay says what to do; nothing is captured and no dictation begins.
pub proof fn law_a_missing_key_is_explained(s: Dictation)
    requires
        s.waiting == Wait::KeyToBegin,
    ensures
        ({
            let turn = s.resume(Answer::Key(None));
            let later = Deed::After(2_400, Ui::Hide(turn.0.hide_gen));
            &&& s.hide_gen < u64::MAX ==> turn.0.hide_gen == s.hide_gen + 1
            &&& turn.1 == if s.overlay_open {
                seq![Deed::ShowOverlay, later]
            } else {
                seq![Deed::ShowOverlay, Deed::OpenOverlay, later]
            }
            &&& turn.0 == Dictation {
                api_key: None,
                phase: Phase::Error,
                hide_gen: turn.0.hide_gen,
                overlay: Overlay {
                    mode: Mode::Error,
                    message: "Setup needed"@,
                    preview: "Copy your xAI API key, then use the fn menu → Import."@,
                    target_name: "FnType"@,
                    ..s.overlay
                },
                waiting: if s.overlay_open {
                    Wait::Nothing
                } else {
                    Wait::OverlayWindow
                },
                ..s
            }
        }),
{
    let turn = s.resume(Answer::Key(None));
    let later = Deed::After(2_400, Ui::Hide(turn.0.hide_gen));
    assert(turn.1 =~= if s.overlay_open {
        seq![Deed::ShowOverlay, later]
    } else {
        seq![Deed::ShowOverlay, Deed::OpenOverlay, later]
    });
}

/// Releasing Fn ends every capture, connected or not: the rest is sent and finalized, the
/// overlay says so, and the wait for the last words is limited to this session. Otherwise a
/// release changes nothing.
pub proof fn law_releasing_fn_ends_every_capture(s: Dictation)
    ensures
        ({
            let up = s.handle(Ui::FnUp);
            let held = s.phase == Phase::Recording || s.phase == Phase::Connecting;
            &&& held ==> up == (
                Dictation {
                    phase: Phase::Finalizing,
                    overlay: Overlay {
                        mode: Mode::Finalizing,
                        message: "Transcribing"@,
                        ..s.overlay
                    },
                    ..s
                },
                seq![
                    Deed::Audio(Cmd::StopFinalize),
                    Deed::ShowOverlay,
                    Deed::After(2_800, Ui::FinalizeTimeout(s.session)),
                ],
            )
            &&& !held ==> up == (s, Seq::<Deed>::empty())
            &&& !held ==> s.handle(Ui::FnChord) == (s, Seq::<Deed>::empty())
        }),
{
}

/// What the recogniser says during a dictation is taken in and shown, with the dictionary
/// applied; hearing anything means that the app listens. It is inserted only once Fn is released
/// and the utterance has ended. Outside a dictation nothing that it says counts.
pub proof fn law_what_is_heard_is_shown(s: Dictation, event: SttEvent)
    ensures
        ({
            let turn = s.handle(Ui::Stt(event));
            let held = s.phase == Phase::Recording || s.phase == Phase::Connecting;
            let ended = event.speech_final == Some(true) || event.typ@ == "transcript.done"@;
            let transcript = s.transcript.after_event(&event);
            let shown = dictionary::apply_entries(transcript.best_text(), s.dict);
            &&& (s.phase == Phase::Idle || s.phase == Phase::Error || s.phase == Phase::Inserting)
                ==> turn == (s, Seq::<Deed>::empty())
            &&& (held || (s.phase == Phase::Finalizing && !ended)) ==> turn == (
                Dictation {
                    transcript,
                    phase: if held {
                        Phase::Recording
                    } else {
                        Phase::Finalizing
                    },
                    overlay: Overlay {
                        mode: if s.phase == Phase::Connecting {
                            Mode::Listening
                        } else {
                            s.overlay.mode
                        },
                        message: if s.phase == Phase::Connecting {
                            "Listening"@
                        } else {
                            s.overlay.message
                        },
                        preview: shown,
                        ..s.overlay
                    },
                    ..s
                },
                seq![Deed::ShowOverlay],
            )
        }),
{
}

/// Once Fn is released, the end of the utterance completes the dictation: everything heard,
/// cleaned and with the dictionary applied, goes to the target, first of all by bringing it to
/// the front. The same holds of what was heard when time runs out.
pub proof fn law_the_end_of_the_utterance_completes_the_dictation(
    s: Dictation,
    event: SttEvent,
    target: App,
)
    requires
        s.phase == Phase::Finalizing,
        s.target == Some(target),
    ensures
        ({
            let ended = event.speech_final == Some(true) || event.typ@ == "transcript.done"@;
            let said = s.transcript.after_event(&event).best_text();
            let final_words = dictionary::apply_entries(text::cleaned(said), s.dict);
            let turn = s.handle(Ui::Stt(event));
            let so_far = s.transcript.best_text();
            let late_words = dictionary::apply_entries(text::cleaned(so_far), s.dict);
            let late = s.handle(Ui::FinalizeTimeout(s.session));
            &&& (ended && final_words.len() > 0) ==> {
                &&& turn.0.phase == Phase::Inserting
                &&& turn.0.waiting == Wait::Insert(
                    InsertStage::Activating,
                    Job { target, text: final_words, saved: None, pressed: false },
                )
                &&& turn.1 == seq![
                    Deed::ShowOverlay,
                    Deed::ShowOverlay,
                    Deed::Activate(target.pid),
                ]
                &&& turn.0.overlay == (Overlay {
                    mode: Mode::Success,
                    message: "Inserting"@,
                    preview: final_words,
                    ..s.overlay
                })
                &&& s.session < u64::MAX ==> turn.0.session == s.session + 1
                &&& turn.0.target == s.target && turn.0.settings == s.settings
            }
            &&& (!text::all_white(so_far) && late_words.len() > 0) ==> {
                &&& late.0.phase == Phase::Inserting
                &&& late.0.waiting == Wait::Insert(
                    InsertStage::Activating,
                    Job { target, text: late_words, saved: None, pressed: false },
                )
                &&& late.1 == seq![Deed::ShowOverlay, Deed::Activate(target.pid)]
                &&& s.session < u64::MAX ==> late.0.session == s.session + 1
            }
            &&& (ended && final_words.len() == 0) ==> turn.0.phase == Phase::Error
                && turn.0.overlay.message == "Not inserted"@ && turn.0.overlay.preview
                == "No speech was detected. Nothing was inserted."@
            &&& (!text::all_white(so_far) && late_words.len() == 0) ==> late.0.phase
                == Phase::Error && late.0.overlay.preview
                == "No speech was detected. Nothing was inserted."@
            &&& text::all_white(so_far) ==> late.0.phase == Phase::Error
                && late.0.overlay.preview
                == "xAI did not return a transcript. Reconnecting—try again."@ && late.1[0]
                == Deed::Ws(Command::Reconnect)
        }),
{
    let turn = s.handle(Ui::Stt(event));
    text::law_cleaning_leaves_nothing_of_whitespace(s.transcript.best_text());
    assert(turn.1.len() == 3 && turn.0.phase == Phase::Inserting ==> turn.1 =~= seq![
        Deed::ShowOverlay,
        Deed::ShowOverlay,
        Deed::Activate(target.pid),
    ]);
}

/// A dictation without a target is not inserted anywhere.
pub proof fn law_without_a_target_nothing_is_inserted(s: Dictation, event: SttEvent)
    requires
        s.phase == Phase::Finalizing,
        s.target is None,
    ensures
        ({
            let ended = event.speech_final == Some(true) || event.typ@ == "transcript.done"@;
            let turn = s.handle(Ui::Stt(event));
            ended ==> turn.0.phase == Phase::Error && turn.0.overlay.message == "Not inserted"@
                && turn.0.overlay.preview == "The target app went away. Nothing was inserted."@
                && turn.1[0] == Deed::ShowOverlay && turn.1[1] == Deed::Audio(Cmd::StopDiscard)
        }),
{
}

/// A timeout of another session, or outside the wait for the last words, changes nothing.
pub proof fn law_only_the_current_timeout_counts(s: Dictation, session: u64)
    requires
        session != s.session || s.phase != Phase::Finalizing,
    ensures
        s.handle(Ui::FinalizeTimeout(session)) == (s, Seq::<Deed>::empty()),
{
}

/// The connection's state is remembered and shown in the menu. A recording goes on while the
/// connection is replaced, and waits for it.
pub proof fn law_the_connection_is_followed(s: Dictation, label: Seq<char>)
    ensures
        s.handle(Ui::ConnChanged(true, label)) == (
            Dictation { connected: true, ..s },
            seq![Deed::SetStatus(label)],
        ),
        (s.phase == Phase::Idle || s.phase == Phase::Error || s.phase == Phase::Inserting)
            ==> s.handle(Ui::ConnChanged(false, label)) == (
            Dictation { connected: false, ..s },
            seq![Deed::SetStatus(label)],
        ),
        s.phase != Phase::Recording ==> s.handle(Ui::ConnRefreshing(label)) == (
            Dictation { connected: false, ..s },
            seq![Deed::SetStatus(label)],
        ),
        s.phase == Phase::Recording ==> s.handle(Ui::ConnRefreshing(label)) == (
            Dictation {
                connected: false,
                phase: Phase::Connecting,
                overlay: Overlay {
                    mode: Mode::Connecting,
                    message: "Connecting"@,
                    ..s.overlay
                },
                ..s
            },
            seq![Deed::SetStatus(label), Deed::ShowOverlay],
        ),
{
}

/// An error that comes outside of a dictation fails nothing: one of the recogniser is shown in
/// the menu, one of the microphone matters only while Fn is held.
pub proof fn law_errors_outside_a_dictation_change_nothing(s: Dictation, message: Seq<char>)
    ensures
        (s.phase == Phase::Idle || s.phase == Phase::Error || s.phase == Phase::Inserting)
            ==> s.handle(Ui::WsError(message)) == (s, seq![Deed::SetStatus(message)]),
        (s.phase != Phase::Recording && s.phase != Phase::Connecting) ==> s.handle(
            Ui::AudioError(message),
        ) == (s, Seq::<Deed>::empty()),
        s.handle(Ui::MonitorFailed) == (
            s,
            seq![Deed::SetStatus("Grant Input Monitoring, then relaunch FnType"@)],
        ),
{
}

/// Every check of an insertion in turn: the target is brought to the front and given 120 ms, it
/// must be in front, no password field may be focused, the clipboard is saved and then holds the
/// text. A check that fails ends the dictation with its own message.
pub proof fn law_an_insertion_passes_every_check_in_turn(
    s: Dictation,
    job: Job,
    front: Option<App>,
    saved: Option<Seq<char>>,
)
    ensures
        ({
            let at = |stage: InsertStage, j: Job|
                Dictation { waiting: Wait::Insert(stage, j), ..s };
            let activating = at(InsertStage::Activating, job);
            let settling = at(InsertStage::Settling, job);
            let focus = at(InsertStage::CheckingFocus, job);
            let field = at(InsertStage::CheckingField, job);
            let saving = at(InsertStage::SavingClipboard, job);
            let setting = at(InsertStage::SettingClipboard, job);
            let landing = at(InsertStage::Landing, job);
            let in_front = front is Some && front->0.pid == job.target.pid;
            &&& activating.resume(Answer::Activated(true)) == (settling, seq![Deed::Wait(120)])
            &&& activating.resume(Answer::Activated(false)) == activating.fail(
                "The target app is no longer open."@,
            )
            &&& settling.resume(Answer::Elapsed) == (focus, seq![Deed::FindTarget])
            &&& in_front ==> focus.resume(Answer::Front(front)) == (field, seq![Deed::CheckField])
            &&& !in_front ==> focus.resume(Answer::Front(front)) == focus.fail(
                "Could not restore focus to the target app."@,
            )
            &&& field.resume(Answer::Secure(false)) == (saving, seq![Deed::ReadClipboard])
            &&& field.resume(Answer::Secure(true)) == field.fail(
                "FnType will not insert into a password field."@,
            )
            &&& saving.resume(Answer::Clipboard(saved)) == (
                at(InsertStage::SettingClipboard, Job { saved, ..job }),
                seq![Deed::SetClipboard(job.text)],
            )
            &&& setting.resume(Answer::ClipboardSet(false)) == setting.fail(
                "Could not prepare the transcript for insertion."@,
            )
            &&& landing.resume(Answer::Elapsed) == (
                at(InsertStage::CheckingClipboard, job),
                seq![Deed::ReadClipboard],
            )
        }),
{
}

/// With the text on the clipboard, Command-V is pressed in the target app. Return follows after
/// 130 ms exactly if automatic submission is on, there are words, and the target is no terminal
/// or Return is allowed there; the overlay says which. Either way the paste gets 420 ms.
pub proof fn law_return_follows_the_paste_exactly_where_it_may(s: Dictation, job: Job)
    requires
        s.waiting == Wait::Insert(InsertStage::SettingClipboard, job),
    ensures
        ({
            let turn = s.resume(Answer::ClipboardSet(true));
            let paste = Deed::PostKey { pid: job.target.pid, keycode: 9, command: true };
            let enter = Deed::PostKey { pid: job.target.pid, keycode: 36, command: false };
            let terminal = transcript::terminal_app(job.target.name, job.target.bundle_id);
            let submit = !text::all_white(job.text) && s.settings.auto_submit && (!terminal
                || s.settings.allow_terminal_submit);
            let pressed = turn.0.resume(Answer::Elapsed);
            &&& !submit ==> turn == (
                Dictation {
                    waiting: Wait::Insert(InsertStage::Landing, Job { pressed: false, ..job }),
                    overlay: Overlay {
                        mode: Mode::Warning,
                        message: "Pasted • Return skipped"@,
                        ..s.overlay
                    },
                    ..s
                },
                seq![paste, Deed::ShowOverlay, Deed::Wait(420)],
            )
            &&& submit ==> turn == (
                Dictation { waiting: Wait::Insert(InsertStage::BeforeReturn, job), ..s },
                seq![paste, Deed::Wait(130)],
            )
            &&& submit ==> pressed == (
                Dictation {
                    waiting: Wait::Insert(InsertStage::Landing, Job { pressed: true, ..job }),
                    overlay: Overlay { mode: Mode::Success, message: "Sent"@, ..s.overlay },
                    ..s
                },
                seq![enter, Deed::ShowOverlay, Deed::Wait(420)],
            )
        }),
{
    text::law_cleaning_leaves_nothing_of_whitespace(job.text);
    let turn = s.resume(Answer::ClipboardSet(true));
    let paste = Deed::PostKey { pid: job.target.pid, keycode: 9, command: true };
    let enter = Deed::PostKey { pid: job.target.pid, keycode: 36, command: false };
    let pressed = turn.0.resume(Answer::Elapsed);
    assert(turn.1.len() == 3 ==> turn.1 =~= seq![paste, Deed::ShowOverlay, Deed::Wait(420)]);
    assert(turn.0.waiting == Wait::Insert(InsertStage::BeforeReturn, job) ==> pressed.1 =~= seq![
        enter,
        Deed::ShowOverlay,
        Deed::Wait(420),
    ]);
}

/// After the paste the dictation is over: nothing of it is left, the clipboard is as it was
/// unless it was used meanwhile, and the overlay goes sooner where the text was sent.
pub proof fn law_an_insertion_ends_the_dictation(s: Dictation, job: Job, now: Option<Seq<char>>)
    requires
        s.waiting == Wait::Insert(InsertStage::CheckingClipboard, job),
    ensures
        ({
            let turn = s.resume(Answer::Clipboard(now));
            let later = Deed::After(
                if job.pressed {
                    280
                } else {
                    1_250
                },
                Ui::Hide(turn.0.hide_gen),
            );
            &&& turn.0 == Dictation {
                phase: Phase::Idle,
                target: None,
                transcript: Transcript::empty(),
                waiting: Wait::Nothing,
                hide_gen: turn.0.hide_gen,
                ..s
            }
            &&& s.hide_gen < u64::MAX ==> turn.0.hide_gen == s.hide_gen + 1
            &&& now != Some(job.text) ==> turn.1 == seq![later]
            &&& (now == Some(job.text) && job.saved is Some) ==> turn.1 == seq![
                Deed::RestoreClipboard(job.saved->0),
                later,
            ]
            &&& (now == Some(job.text) && job.saved is None) ==> turn.1 == seq![
                Deed::ClearClipboard,
                later,
            ]
        }),
{
    let turn = s.resume(Answer::Clipboard(now));
    assert(turn.1.last() == Deed::After(
        if job.pressed {
            280
        } else {
            1_250
        },
        Ui::Hide(turn.0.hide_gen),
    ));
    assert(turn.1.len() == 1 ==> turn.1 =~= seq![turn.1.last()]);
    assert(turn.1.len() == 2 ==> turn.1 =~= seq![turn.1[0], turn.1.last()]);
}

/// The overlay goes when its time has come and no dictation is under way. Then the connection
/// learns of a changed dictionary, if there is a key.
pub proof fn law_the_overlay_goes_when_idle(s: Dictation, generation: u64)
    ensures
        ({
            let turn = s.handle(Ui::Hide(generation));
            let free = s.phase == Phase::Idle || s.phase == Phase::Error;
            let terms = dictionary::bias_terms_of(s.dict);
            let changed = terms != s.bias_at_connect && s.api_key is Some;
            let configure = Deed::Ws(
                Command::Configure(
                    Config {
                        api_key: s.api_key->0,
                        language: s.settings.language,
                        bias_terms: terms,
                    },
                ),
            );
            let closed = if s.overlay_open {
                seq![Deed::CloseOverlay]
            } else {
                Seq::empty()
            };
            &&& (generation != s.hide_gen || !free) ==> turn == (s, Seq::<Deed>::empty())
            &&& (generation == s.hide_gen && free) ==> turn.0 == Dictation {
                phase: Phase::Idle,
                overlay_open: false,
                bias_at_connect: if changed {
                    terms
                } else {
                    s.bias_at_connect
                },
                ..s
            } && turn.1 == closed + if changed {
                seq![configure]
            } else {
                Seq::empty()
            }
        }),
{
    let turn = s.handle(Ui::Hide(generation));
    let terms = dictionary::bias_terms_of(s.dict);
    let changed = terms != s.bias_at_connect && s.api_key is Some;
    let configure = Deed::Ws(
        Command::Configure(
            Config { api_key: s.api_key->0, language: s.settings.language, bias_terms: terms },
        ),
    );
    let closed: Seq<Deed> = if s.overlay_open {
        seq![Deed::CloseOverlay]
    } else {
        Seq::empty()
    };
    if generation == s.hide_gen && (s.phase == Phase::Idle || s.phase == Phase::Error) {
        assert(turn.1 =~= closed + if changed {
            seq![configure]
        } else {
            Seq::empty()
        });
    }
}

/// The menu changes one setting at a time, and what it changes is stored.
pub proof fn law_the_menu_changes_one_setting_at_a_time(s: Dictation, checked: bool)
    ensures
        s.handle(Ui::MenuAutoSubmit(checked)) == (
            Dictation {
                settings: Preferences { auto_submit: checked, ..s.settings },
                ..s
            },
            seq![Deed::SaveSettings],
        ),
        s.handle(Ui::MenuTerminalSubmit(checked)) == (
            Dictation {
                settings: Preferences { allow_terminal_submit: checked, ..s.settings },
                ..s
            },
            seq![Deed::SaveSettings],
        ),
{
}

/// Wherever a key becomes known, at the start, on reconnecting and after an import, the
/// connection is configured with it, the language and the terms of the dictionary; where there
/// is none, the menu says so.
pub proof fn law_a_known_key_configures_the_connection(
    s: Dictation,
    key: Seq<char>,
    contents: Seq<char>,
    error: Seq<char>,
)
    ensures
        ({
            let with = |dict: Seq<(Seq<char>, Seq<char>)>|
                Deed::Ws(
                    Command::Configure(
                        Config {
                            api_key: key,
                            language: s.settings.language,
                            bias_terms: dictionary::bias_terms_of(dict),
                        },
                    ),
                );
            let known = Dictation {
                bias_at_connect: dictionary::bias_terms_of(s.dict),
                api_key: Some(key),
                ..s
            };
            let read = dictionary::parse_lines(text::lines(contents));
            let start = (Dictation { api_key: Some(key), ..s }).startup();
            let none = (Dictation { api_key: None, ..s }).startup();
            let asking = s.handle(Ui::MenuReconnect);
            let found = asking.0.resume(Answer::Key(Some(key)));
            let again = found.0.resume(Answer::Dictionary(Some(contents)));
            let fallback = dictionary::parse_lines(text::lines(DEFAULT_DICTIONARY@));
            let unread = found.0.resume(Answer::Dictionary(None));
            let missing = asking.0.resume(Answer::Key(None));
            let importing = s.handle(Ui::MenuImportKey);
            let imported = importing.0.resume(Answer::Imported(Ok(())));
            let failed = importing.0.resume(Answer::Imported(Err(error)));
            let done = imported.0.resume(Answer::Key(Some(key)));
            let lost = imported.0.resume(Answer::Key(None));
            &&& start == (known, seq![with(s.dict), Deed::SetStatus("Connecting to xAI…"@)])
            &&& none == (
                Dictation { api_key: None, ..s },
                seq![Deed::SetStatus("Copy your xAI key, then click Import"@)],
            )
            &&& asking.1 == seq![Deed::LoadKey]
            &&& found.1 == seq![Deed::ReadDictionary]
            &&& again == (
                Dictation {
                    dict: read,
                    bias_at_connect: dictionary::bias_terms_of(read),
                    api_key: Some(key),
                    waiting: Wait::Nothing,
                    ..s
                },
                seq![with(read), Deed::SetStatus("Connecting to xAI…"@)],
            )
            &&& unread == (
                Dictation {
                    dict: fallback,
                    bias_at_connect: dictionary::bias_terms_of(fallback),
                    api_key: Some(key),
                    waiting: Wait::Nothing,
                    ..s
                },
                seq![
                    Deed::WriteDefaultDictionary,
                    with(fallback),
                    Deed::SetStatus("Connecting to xAI…"@),
                ],
            )
            &&& missing == (
                Dictation { api_key: None, waiting: Wait::Nothing, ..s },
                seq![Deed::SetStatus("No API key saved. Copy it, then click Import"@)],
            )
            &&& importing.1 == seq![Deed::ImportKey]
            &&& imported.1 == seq![Deed::LoadKey]
            &&& failed == (
                Dictation { waiting: Wait::Nothing, ..s },
                seq![Deed::SetStatus("Import failed: "@ + error)],
            )
            &&& done == (
                Dictation { waiting: Wait::Nothing, ..known },
                seq![with(s.dict), Deed::SetStatus("Key imported. Connecting…"@)],
            )
            &&& lost == (
                Dictation { api_key: None, waiting: Wait::Nothing, ..s },
                seq![Deed::SetStatus("Key imported. Connecting…"@)],
            )
        }),
{
    let asking = s.handle(Ui::MenuReconnect);
    let found = asking.0.resume(Answer::Key(Some(key)));
    let again = found.0.resume(Answer::Dictionary(Some(contents)));
    assert(again.1 =~= seq![again.1[0], again.1[1]]);
    let unread = found.0.resume(Answer::Dictionary(None));
    assert(unread.1 =~= seq![unread.1[0], unread.1[1], unread.1[2]]);
}

/// The waveform shows the last loudness reported, while the overlay is open.
pub proof fn law_the_waveform_follows_the_loudness(s: Dictation, level: u32)
    ensures
        s.handle(Ui::Level(level)) == (Dictation { level, ..s }, Seq::<Deed>::empty()),
        s.overlay_open ==> s.handle(Ui::Tick) == (
            Dictation { overlay: Overlay { level: s.level, ..s.overlay }, ..s },
            seq![Deed::Animate],
        ),
        !s.overlay_open ==> s.handle(Ui::Tick) == (s, Seq::<Deed>::empty()),
{
}

} // verus!
