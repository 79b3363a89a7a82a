//! Transcript accumulation and the safety policy for pressing Return.

use vstd::prelude::*;

use crate::text;

verus! {

/// A speech-to-text event from the recogniser.
#[derive(Debug, Clone)]
pub struct SttEvent {
    pub typ: String,
    pub text: Option<String>,
    pub is_final: Option<bool>,
    pub speech_final: Option<bool>,
    pub message: Option<String>,
}

/// The text of an event, empty where it has none.
pub open spec fn event_text(event: &SttEvent) -> Seq<char> {
    match event.text {
        Some(s) => s@,
        None => Seq::empty(),
    }
}

/// `text` with each run of whitespace between words replaced by one space and none around
/// them.
pub fn clean(text: &str) -> (r: String)
    ensures
        r@ == text::cleaned(text@),
{
    let chars = text::chars_of(text);
    let words = text::split_words(&chars);
    assert(" "@ == seq![' ']) by {
        reveal_strlit(" ");
    }
    text::join_with(&words, " ")
}

/// A character inside of a word: a letter, a digit or an apostrophe.
pub open spec fn in_word(c: char) -> bool {
    !text::is_white(c) && (text::is_word_char(c) || c == '\'' || c == '’')
}

/// Whether a character stands inside of a word.
fn continues_word(c: char) -> (r: bool)
    ensures
        r == in_word(c),
{
    !c.is_whitespace() && (c.is_alphanumeric() || c == '\'' || c == '’')
}

/// The transcript of the current Fn-hold.
pub struct Accumulator {
    /// Finished utterances within the current Fn-hold. Several can finish before the key is
    /// released; none of them wipes an earlier one.
    committed: String,
    /// Chunk finals for the utterance currently in progress.
    completed: Vec<String>,
    interim: String,
}

/// What an [`Accumulator`] holds.
#[verifier::ext_equal]
pub struct Transcript {
    pub committed: Seq<char>,
    pub completed: Seq<Seq<char>>,
    pub interim: Seq<char>,
}

impl Transcript {
    /// Nothing was heard yet.
    pub open spec fn empty() -> Transcript {
        Transcript { committed: Seq::empty(), completed: Seq::empty(), interim: Seq::empty() }
    }

    /// Every piece is cleaned and no chunk final is empty.
    pub open spec fn wf(self) -> bool {
        &&& text::is_clean(self.committed)
        &&& text::is_clean(self.interim)
        &&& forall|k: int|
            0 <= k < self.completed.len() ==> text::is_clean(#[trigger] self.completed[k])
                && self.completed[k].len() > 0
    }

    /// `utterance`, where it begins with the session text, goes on in the middle of a word.
    pub open spec fn is_split_by(self, utterance: Seq<char>) -> bool {
        let n = self.committed.len() as int;
        0 < n < utterance.len() && in_word(self.committed[n - 1]) && in_word(utterance[n])
    }

    /// `utterance` takes up the whole session so far, down to its last word, and may go on from
    /// there.
    pub open spec fn is_restated_by(self, utterance: Seq<char>) -> bool {
        text::starts_with(utterance, self.committed) && !self.is_split_by(utterance)
    }

    /// The session text after one more finished utterance. One that restates the whole session
    /// so far replaces it, a duplicate of the last one is dropped, any other is appended.
    pub open spec fn with_utterance(self, utterance: Seq<char>) -> Transcript {
        self.with_utterance_if(utterance, self.is_split_by(utterance))
    }

    /// The session text after one more finished utterance; `split` says whether that would break
    /// the last word of the session apart if it took the session's place.
    pub open spec fn with_utterance_if(self, utterance: Seq<char>, split: bool) -> Transcript {
        let committed = if self.committed.len() == 0 || (text::starts_with(
            utterance,
            self.committed,
        ) && !split) {
            utterance
        } else if text::ends_with(self.committed, seq![' '] + utterance) {
            self.committed
        } else {
            self.committed + seq![' '] + utterance
        };
        Transcript { committed, completed: Seq::empty(), interim: Seq::empty() }
    }

    /// The transcript after an event with the given type, text and flags.
    pub open spec fn after(
        self,
        typ: Seq<char>,
        text: Seq<char>,
        is_final: bool,
        speech_final: bool,
    ) -> Transcript {
        let heard = text::cleaned(text);
        if heard.len() == 0 {
            self
        } else if typ == "transcript.done"@ {
            Transcript { committed: heard, completed: Seq::empty(), interim: Seq::empty() }
        } else if speech_final {
            self.with_utterance(heard)
        } else if is_final {
            Transcript {
                committed: self.committed,
                completed: if self.completed.len() > 0 && self.completed.last() == heard {
                    self.completed
                } else {
                    self.completed.push(heard)
                },
                interim: Seq::empty(),
            }
        } else {
            Transcript { interim: heard, ..self }
        }
    }

    /// The transcript after `event`.
    pub open spec fn after_event(self, event: &SttEvent) -> Transcript {
        self.after(
            event.typ@,
            event_text(event),
            event.is_final == Some(true),
            event.speech_final == Some(true),
        )
    }

    /// The non-empty pieces, in the order in which they were spoken.
    pub open spec fn pieces(self) -> Seq<Seq<char>> {
        let head = if self.committed.len() > 0 {
            seq![self.committed]
        } else {
            Seq::empty()
        };
        let tail = if self.interim.len() > 0 {
            seq![self.interim]
        } else {
            Seq::empty()
        };
        head + self.completed + tail
    }

    /// Everything heard so far.
    pub open spec fn best_text(self) -> Seq<char> {
        text::join(self.pieces(), seq![' '])
    }
}

impl View for Accumulator {
    type V = Transcript;

    closed spec fn view(&self) -> Transcript {
        Transcript {
            committed: self.committed@,
            completed: text::texts(self.completed@),
            interim: self.interim@,
        }
    }
}

impl Default for Accumulator {
    fn default() -> (r: Self)
        ensures
            r@ == Transcript::empty(),
    {
        let r = Accumulator {
            committed: String::new(),
            completed: Vec::new(),
            interim: String::new(),
        };
        assert(r@ =~= Transcript::empty());
        r
    }
}

impl Accumulator {
    /// Forgets everything heard.
    pub fn reset(&mut self)
        ensures
            final(self)@ == Transcript::empty(),
    {
        self.committed = String::new();
        self.completed.clear();
        self.interim = String::new();
        assert(self@ =~= Transcript::empty());
    }

    /// Takes in one event.
    pub fn ingest(&mut self, event: &SttEvent)
        ensures
            final(self)@ == old(self)@.after_event(event),
    {
        let cleaned = match &event.text {
            Some(s) => clean(s.as_str()),
            None => clean(""),
        };
        assert(cleaned@ == text::cleaned(event_text(event))) by {
            reveal_strlit("");
            assert(""@ == Seq::<char>::empty());
        }
        if cleaned.as_str().is_empty() {
            return ;
        }
        let is_final = match event.is_final {
            Some(b) => b,
            None => false,
        };
        let speech_final = match event.speech_final {
            Some(b) => b,
            None => false,
        };
        if text::same(event.typ.as_str(), "transcript.done") {
            // `done` is authoritative for the whole hold (may include corrections).
            self.committed = cleaned;
            self.completed.clear();
            self.interim = String::new();
        } else if speech_final {
            self.commit_utterance(cleaned);
        } else if is_final {
            let repeated = self.completed.len() > 0 && self.completed[self.completed.len() - 1]
                == cleaned;
            let ghost before = self.completed@;
            if !repeated {
                self.completed.push(cleaned);
                assert(text::texts(self.completed@) == text::texts(before).push(cleaned@));
            }
            self.interim = String::new();
        } else {
            self.interim = cleaned;
        }
        assert(self@ =~= old(self)@.after_event(event));
    }

    /// Adds a finished utterance to the session.
    pub fn commit_utterance(&mut self, utterance: String)
        ensures
            final(self)@ == old(self)@.with_utterance(utterance@),
    {
        let said = text::chars_of(utterance.as_str());
        let so_far = text::chars_of(self.committed.as_str());
        let n = so_far.len();
        let split = 0 < n && n < said.len() && continues_word(so_far[n - 1]) && continues_word(
            said[n],
        );
        self.commit_utterance_if(utterance, split);
    }

    /// Adds a finished utterance to the session; `split` says whether it goes on in the middle
    /// of the session's last word.
    pub fn commit_utterance_if(&mut self, utterance: String, split: bool)
        ensures
            final(self)@ == old(self)@.with_utterance_if(utterance@, split),
    {
        let said = text::chars_of(utterance.as_str());
        let so_far = text::chars_of(self.committed.as_str());
        let mut tail = String::new();
        tail.push(' ');
        tail.append(utterance.as_str());
        assert(tail@ == seq![' '] + utterance@);
        if self.committed.as_str().is_empty() || (text::begins(&said, self.committed.as_str())
            && !split) {
            // Nothing said yet, or a full-session re-stitch that includes prior utterances.
            self.committed = utterance;
        } else if text::finishes(&so_far, tail.as_str()) {
            // Duplicate utterance-final; keep the existing session text.
        } else {
            let ghost before = self.committed@;
            self.committed.append(tail.as_str());
            assert(self.committed@ == before + seq![' '] + utterance@);
        }
        self.completed.clear();
        self.interim = String::new();
        assert(self@ =~= old(self)@.with_utterance_if(utterance@, split));
    }

    /// Everything heard so far, interim words included.
    pub fn preview(&self) -> (r: String)
        ensures
            r@ == self@.best_text(),
    {
        let mut parts: Vec<String> = Vec::new();
        if !self.committed.as_str().is_empty() {
            parts.push(self.committed.clone());
        }
        let ghost head = parts@;
        let mut i: usize = 0;
        while i < self.completed.len()
            invariant
                i <= self.completed@.len(),
                parts@ == head + self.completed@.take(i as int),
            decreases self.completed@.len() - i,
        {
            parts.push(self.completed[i].clone());
            i = i + 1;
            assert(self.completed@.take(i as int) == self.completed@.take(i - 1).push(
                self.completed@[i - 1],
            ));
        }
        assert(self.completed@.take(i as int) == self.completed@);
        if !self.interim.as_str().is_empty() {
            parts.push(self.interim.clone());
        }
        assert(" "@ == seq![' ']) by {
            reveal_strlit(" ");
        }
        assert(text::texts(parts@) =~= self@.pieces());
        text::join_with(&parts, " ")
    }

    /// The best transcript available: what [`Accumulator::preview`] shows.
    pub fn best_text(&self) -> (r: String)
        ensures
            r@ == self@.best_text(),
    {
        self.preview()
    }
}

/// Return is pressed only after non-empty text, into a known target, when automatic submission
/// is on, never in a password field, and in a terminal only with explicit permission.
pub open spec fn presses_return(
    transcript: Seq<char>,
    has_target: bool,
    target_is_terminal: bool,
    auto_submit: bool,
    allow_terminal_submit: bool,
    secure_field: bool,
) -> bool {
    &&& text::cleaned(transcript).len() > 0
    &&& has_target
    &&& auto_submit
    &&& !secure_field
    &&& target_is_terminal ==> allow_terminal_submit
}

/// Whether to press Return after inserting `transcript`.
pub fn should_press_return(
    transcript: &str,
    has_target: bool,
    target_is_terminal: bool,
    auto_submit: bool,
    allow_terminal_submit: bool,
    secure_field: bool,
) -> (r: bool)
    ensures
        r == presses_return(
            transcript@,
            has_target,
            target_is_terminal,
            auto_submit,
            allow_terminal_submit,
            secure_field,
        ),
{
    if clean(transcript).as_str().is_empty() || !has_target || !auto_submit || secure_field {
        return false;
    }
    if target_is_terminal && !allow_terminal_submit {
        return false;
    }
    true
}

/// A lowercased "name bundle-id" text that names a terminal app.
pub open spec fn terminal_text(haystack: Seq<char>) -> bool {
    ||| text::contains(haystack, "terminal"@)
    ||| text::contains(haystack, "iterm"@)
    ||| text::contains(haystack, "warp"@)
    ||| text::contains(haystack, "ghostty"@)
    ||| text::contains(haystack, "kitty"@)
    ||| text::contains(haystack, "alacritty"@)
    ||| text::contains(haystack, "wezterm"@)
    ||| text::contains(haystack, "rio"@)
}

/// An app counts as a terminal if its name or bundle id, in any case, names a terminal.
pub open spec fn terminal_app(name: Seq<char>, bundle_id: Seq<char>) -> bool {
    terminal_text(text::lowercase(name + seq![' '] + bundle_id))
}

/// Whether a lowercased "name bundle-id" text names a terminal app.
pub fn names_terminal(haystack: &str) -> (r: bool)
    ensures
        r == terminal_text(haystack@),
{
    let h = text::chars_of(haystack);
    text::has(&h, "terminal") || text::has(&h, "iterm") || text::has(&h, "warp") || text::has(
        &h,
        "ghostty",
    ) || text::has(&h, "kitty") || text::has(&h, "alacritty") || text::has(&h, "wezterm")
        || text::has(&h, "rio")
}

/// Whether an app is a terminal, by its name and bundle id.
pub fn is_terminal_app(name: &str, bundle_id: &str) -> (r: bool)
    ensures
        r == terminal_app(name@, bundle_id@),
{
    let mut haystack = name.to_owned();
    haystack.push(' ');
    haystack.append(bundle_id);
    assert(haystack@ == name@ + seq![' '] + bundle_id@);
    names_terminal(haystack.as_str().to_lowercase().as_str())
}

// ---- Laws ----

/// Every transcript is made of cleaned pieces, whatever events come in.
pub proof fn law_transcript_stays_clean(t: Transcript, event: &SttEvent)
    requires
        t.wf(),
    ensures
        Transcript::empty().wf(),
        t.after_event(event).wf(),
        text::is_clean(t.best_text()),
{
    let heard = text::cleaned(event_text(event));
    text::law_cleaning_is_idempotent(event_text(event));
    assert(text::words(Seq::<char>::empty()) == Seq::<Seq<char>>::empty());
    if heard.len() > 0 && t.committed.len() > 0 {
        text::lemma_clean_pair(t.committed, heard);
    }
    text::lemma_clean_join(t.pieces());
}

/// No utterance wipes an earlier one: what was committed stays as it is, or more follows it
/// without continuing its last word. Only a `done` event, authoritative for the whole hold, can
/// take it back.
pub proof fn law_committed_text_is_kept(t: Transcript, event: &SttEvent)
    requires
        event.typ@ != "transcript.done"@,
    ensures
        t.committed.len() == 0 || t.is_restated_by(t.after_event(event).committed),
{
    let next = t.after_event(event);
    let heard = text::cleaned(event_text(event));
    let n = t.committed.len() as int;
    assert(t.committed.subrange(0, n) == t.committed);
    if n > 0 && next.committed != t.committed && !t.is_restated_by(heard) {
        assert(next.committed == t.committed + seq![' '] + heard);
        assert(next.committed.subrange(0, n) == t.committed);
        assert(next.committed[n] == ' ');
        assert(!in_word(' '));
    }
}

/// A `done` event with words in it is the whole transcript.
pub proof fn law_done_is_authoritative(t: Transcript, event: &SttEvent)
    requires
        event.typ@ == "transcript.done"@,
        text::cleaned(event_text(event)).len() > 0,
    ensures
        t.after_event(event).best_text() == text::cleaned(event_text(event)),
{
    let next = t.after_event(event);
    assert(next.pieces() == seq![text::cleaned(event_text(event))]);
}

/// Taking in the same event twice in a row is taking it in once.
pub proof fn law_repeated_event_changes_nothing(t: Transcript, event: &SttEvent)
    ensures
        t.after_event(event).after_event(event) == t.after_event(event),
{
    let once = t.after_event(event);
    let twice = once.after_event(event);
    let heard = text::cleaned(event_text(event));
    let n = heard.len() as int;
    assert(heard.subrange(0, n) == heard);
    if heard.len() > 0 && event.typ@ != "transcript.done"@ && event.speech_final == Some(true) {
        let tail = seq![' '] + heard;
        if t.committed.len() == 0 || t.is_restated_by(heard) {
            assert(once.is_restated_by(heard));
        } else {
            let c = once.committed;
            if !text::ends_with(t.committed, tail) {
                assert(c == t.committed + tail);
                assert(c.subrange(t.committed.len() as int, c.len() as int) == tail);
            }
            assert(text::ends_with(c, tail));
            assert(c.len() > heard.len());
            assert(!once.is_restated_by(heard));
        }
    }
    assert(twice =~= once);
}

/// No finished utterance is lost. Afterwards the session text ends with its words: it is the
/// utterance, or a space and the utterance end it. Where the utterance does not begin with the
/// session text, and is not a repetition of its end, it is appended behind one space.
pub proof fn law_no_finished_utterance_is_lost(t: Transcript, event: &SttEvent)
    requires
        event.typ@ != "transcript.done"@,
        event.speech_final == Some(true),
        text::cleaned(event_text(event)).len() > 0,
    ensures
        ({
            let heard = text::cleaned(event_text(event));
            let before = t.committed;
            let after = t.after_event(event).committed;
            let n = before.len() as int;
            let m = after.len() - heard.len();
            &&& after == heard || (m > 0 && after[m - 1] == ' ' && after.skip(m) == heard)
            &&& (n > 0 && !(n <= heard.len() && heard.take(n) == before) && !(heard.len() < n
                && before[n - heard.len() - 1] == ' ' && before.skip(n - heard.len()) == heard))
                ==> after == before + seq![' '] + heard
        }),
        t.after_event(event).completed.len() == 0,
        t.after_event(event).interim.len() == 0,
{
    let heard = text::cleaned(event_text(event));
    let before = t.committed;
    let after = t.after_event(event).committed;
    let n = before.len() as int;
    let m = after.len() - heard.len();
    let tail = seq![' '] + heard;
    if n <= heard.len() {
        assert(heard.subrange(0, n) == heard.take(n));
    }
    assert(tail.drop_first() == heard);
    if heard.len() < n {
        let end = before.subrange(n - heard.len() - 1, n);
        if before[n - heard.len() - 1] == ' ' && before.skip(n - heard.len()) == heard {
            assert(end =~= tail);
        }
        if end == tail {
            assert(before.skip(n - heard.len()) =~= end.drop_first());
            assert(before[n - heard.len() - 1] == end[0]);
        }
    }
    if after == before + seq![' '] + heard {
        assert(after.skip(m) =~= heard);
    }
}

/// An utterance that takes up the whole session so far takes its place, word for word; one that
/// only begins with the same letters does not. A letter, a digit or an apostrophe behind another
/// one continues a word, anything else begins behind it.
pub proof fn law_only_a_restated_session_is_replaced(
    t: Transcript,
    event: &SttEvent,
    more: Seq<char>,
)
    requires
        event.typ@ != "transcript.done"@,
        event.speech_final == Some(true),
        t.committed.len() > 0,
        text::cleaned(event_text(event)) == t.committed + more,
    ensures
        ({
            let last = t.committed.last();
            let next = more[0];
            let goes_on = more.len() > 0 && !text::is_white(last) && !text::is_white(next) && (
            text::is_word_char(last) || last == '\'' || last == '’') && (text::is_word_char(next)
                || next == '\'' || next == '’');
            t.after_event(event).committed == if goes_on {
                t.committed + seq![' '] + (t.committed + more)
            } else {
                t.committed + more
            }
        }),
{
    let heard = t.committed + more;
    let n = t.committed.len() as int;
    assert(heard.subrange(0, n) == t.committed);
    assert(heard.len() == n ==> heard == t.committed);
    if more.len() > 0 {
        assert(heard[n] == more[0]);
    }
}

/// Before an utterance is finished, what was committed stays: a chunk final is added to the
/// chunks unless it repeats the last one, other words are interim until more is heard, and an
/// event without words changes nothing.
pub proof fn law_unfinished_words_are_kept_apart(t: Transcript, event: &SttEvent)
    ensures
        ({
            let heard = text::cleaned(event_text(event));
            let next = t.after_event(event);
            let open = heard.len() > 0 && event.typ@ != "transcript.done"@ && event.speech_final
                != Some(true);
            &&& heard.len() == 0 ==> next == t
            &&& open ==> next.committed == t.committed
            &&& (open && event.is_final == Some(true)) ==> next.interim.len() == 0 && (
            next.completed == t.completed.push(heard) || (next.completed == t.completed
                && t.completed.len() > 0 && t.completed.last() == heard))
            &&& (open && event.is_final != Some(true)) ==> next.interim == heard && next.completed
                == t.completed
        }),
{
}

/// The best text is everything heard, in the order in which it was spoken, with one space
/// between pieces: the committed text, the chunks, the interim words.
pub proof fn law_the_best_text_is_everything_heard(t: Transcript, chunk: Seq<char>)
    ensures
        ({
            let spaced = |a: Seq<char>, b: Seq<char>|
                if a.len() == 0 {
                    b
                } else {
                    a + seq![' '] + b
                };
            let none = Seq::<Seq<char>>::empty();
            let bare = Transcript { completed: none, interim: Seq::empty(), ..t };
            let settled = Transcript { interim: Seq::empty(), ..t };
            let longer = Transcript { completed: t.completed.push(chunk), ..settled };
            &&& bare.best_text() == t.committed
            &&& settled.pieces().len() > 0 ==> longer.best_text() == settled.best_text() + seq![
                ' ',
            ] + chunk
            &&& settled.pieces().len() == 0 ==> longer.best_text() == chunk
            &&& t.interim.len() == 0 ==> t.best_text() == settled.best_text()
            &&& (t.interim.len() > 0 && t.wf()) ==> t.best_text() == spaced(
                settled.best_text(),
                t.interim,
            )
            &&& settled.pieces().len() == 0 <==> t.committed.len() == 0 && t.completed.len() == 0
        }),
{
    let none = Seq::<Seq<char>>::empty();
    let bare = Transcript { completed: none, interim: Seq::empty(), ..t };
    let settled = Transcript { interim: Seq::empty(), ..t };
    let longer = Transcript { completed: t.completed.push(chunk), ..settled };
    if t.committed.len() > 0 {
        assert(bare.pieces() =~= seq![t.committed]);
    } else {
        assert(bare.pieces() =~= none);
        assert(t.committed =~= Seq::<char>::empty());
    }
    assert(longer.pieces() =~= settled.pieces().push(chunk));
    text::lemma_join_push(settled.pieces(), chunk, seq![' ']);
    if t.interim.len() > 0 {
        assert(t.pieces() =~= settled.pieces().push(t.interim));
        text::lemma_join_push(settled.pieces(), t.interim, seq![' ']);
        if t.wf() {
            let parts = settled.pieces();
            assert forall|k: int| 0 <= k < parts.len() implies text::is_clean(#[trigger] parts[k])
                && parts[k].len() > 0 by {
                if t.committed.len() > 0 && k > 0 {
                    assert(parts[k] == t.completed[k - 1]);
                } else if t.committed.len() == 0 {
                    assert(parts[k] == t.completed[k]);
                }
            }
            text::lemma_clean_join(parts);
        }
    } else {
        assert(t.pieces() =~= settled.pieces());
    }
}

/// Return is pressed wherever nothing speaks against it, and never where anything does: no
/// words, no target, automatic submission off, a password field, or a terminal without
/// permission.
pub proof fn law_return_is_pressed_exactly_where_nothing_speaks_against_it(
    transcript: Seq<char>,
    has_target: bool,
    terminal: bool,
    auto_submit: bool,
    allowed: bool,
    secure: bool,
)
    ensures
        presses_return(transcript, has_target, terminal, auto_submit, allowed, secure) == !(
        text::all_white(transcript) || !has_target || !auto_submit || secure || (terminal
            && !allowed)),
{
    text::law_cleaning_leaves_nothing_of_whitespace(transcript);
}

/// Every known terminal is recognised, wherever in the name or the bundle id its name stands
/// and in whichever case, and nothing else is taken for one.
pub proof fn law_terminals_are_known_by_their_names(
    name: Seq<char>,
    bundle_id: Seq<char>,
    a: Seq<char>,
    b: Seq<char>,
)
    ensures
        terminal_text(a + "terminal"@ + b),
        terminal_text(a + "iterm"@ + b),
        terminal_text(a + "warp"@ + b),
        terminal_text(a + "ghostty"@ + b),
        terminal_text(a + "kitty"@ + b),
        terminal_text(a + "alacritty"@ + b),
        terminal_text(a + "wezterm"@ + b),
        terminal_text(a + "rio"@ + b),
        terminal_app(name, bundle_id) == terminal_text(
            text::lowercase(name + seq![' '] + bundle_id),
        ),
        terminal_text(a) ==> exists|x: Seq<char>, p: Seq<char>, y: Seq<char>|
            a == #[trigger] (x + p + y) && (p == "terminal"@ || p == "iterm"@ || p == "warp"@ || p
                == "ghostty"@ || p == "kitty"@ || p == "alacritty"@ || p == "wezterm"@ || p
                == "rio"@),
{
    text::law_a_text_contains_its_pieces(a, a, "terminal"@, b);
    text::law_a_text_contains_its_pieces(a, a, "iterm"@, b);
    text::law_a_text_contains_its_pieces(a, a, "warp"@, b);
    text::law_a_text_contains_its_pieces(a, a, "ghostty"@, b);
    text::law_a_text_contains_its_pieces(a, a, "kitty"@, b);
    text::law_a_text_contains_its_pieces(a, a, "alacritty"@, b);
    text::law_a_text_contains_its_pieces(a, a, "wezterm"@, b);
    text::law_a_text_contains_its_pieces(a, a, "rio"@, b);
}

/// An event says its text, and one without a text changes nothing, whatever else it holds.
pub proof fn law_an_event_says_its_text(t: Transcript, event: &SttEvent)
    ensures
        event.text is Some ==> event_text(event) == event.text->0@,
        event.text is None ==> t.after_event(event) == t,
{
    if event.text is None {
        text::law_cleaning_leaves_nothing_of_whitespace(event_text(event));
    }
}

} // verus!
