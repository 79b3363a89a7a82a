//! The life of the realtime connection as a state machine.
//!
//! [`Link::handle`] takes what happened and says what to do next; the caller performs the
//! actions in order and reports back. Points in time are nanoseconds on one monotonic clock.

use vstd::prelude::*;

use crate::events::{Ui, UiEvent};
use crate::text;
use crate::transcript::SttEvent;
use crate::ws;
use crate::ws::{Command, Config, Session, WsCmd, WsConfig};

verus! {

/// The first wait after a failed connection attempt.
pub const INITIAL_BACKOFF: u64 = 1_200_000_000;

/// The longest wait after a failed connection attempt.
pub const MAX_BACKOFF: u64 = 15_000_000_000;

/// The wait before a lost connection is opened again.
pub const RECONNECT_PAUSE: u64 = 900_000_000;

/// What the link is waiting for.
#[derive(Clone, Copy, PartialEq, Eq, Structural, Debug)]
pub enum Stage {
    /// A configuration.
    Unconfigured,
    /// The outcome of a connection attempt.
    Connecting,
    /// The end of the wait after a failed attempt, or a command.
    BackingOff,
    /// On an open connection: a message, a heartbeat or a command.
    Open,
    /// The sending of a buffered chunk; more may follow.
    Flushing,
    /// The sending of a frame.
    Sending,
    /// The sending of the goodbye before a new configuration is used.
    Switching,
    /// The sending of the goodbye before the link stops.
    Leaving,
    /// The end of the wait before a lost connection is opened again.
    Pausing,
    /// Nothing any more.
    Stopped,
}

/// The open connection.
#[derive(Clone, Copy, PartialEq, Eq, Structural, Debug)]
pub struct Conn {
    pub connected_at: u64,
    pub last_audio_at: u64,
    pub last_server_at: u64,
    /// The recogniser has said that it takes audio.
    pub ready: bool,
}

/// What happened.
pub enum LinkEvent {
    Command(WsCmd),
    /// No command will come any more.
    CommandsClosed,
    Connected,
    ConnectFailed(String),
    BackoffElapsed,
    PauseElapsed,
    /// A recogniser event was received.
    Received(SttEvent),
    /// A message was received that is not a recogniser event.
    ReceivedOther,
    /// The server closed the connection.
    ReceivedClose,
    /// Reading failed.
    ReadFailed(String),
    /// The connection ended.
    ReadEnded,
    Heartbeat,
    /// A frame was sent, or could not be.
    Sent(bool),
}

/// A message to the server.
pub enum Frame {
    Audio(Vec<u8>),
    Finalize,
    AudioDone,
    Ping,
}

/// What to do next.
pub enum LinkAction {
    /// Open a connection with the current configuration and report the outcome.
    Connect,
    /// Drop the connection.
    Disconnect,
    /// Pass an event to the coordinator.
    Notify(UiEvent),
    /// Report when this time has passed; commands are still taken.
    Backoff(u64),
    /// Report when this time has passed; nothing else is taken.
    Pause(u64),
    /// Send a frame and report whether that worked.
    Send(Frame),
    /// The link has ended.
    Stop,
}

/// The connection, what outlives it, and what the link is waiting for.
pub struct Link {
    session: Session,
    backoff: u64,
    stage: Stage,
    conn: Conn,
    next_config: Option<WsConfig>,
}

// ---- Model ----

/// A [`LinkEvent`] by its contents.
pub enum Event {
    Command(Command),
    CommandsClosed,
    Connected,
    ConnectFailed(Seq<char>),
    BackoffElapsed,
    PauseElapsed,
    Received(SttEvent),
    ReceivedOther,
    ReceivedClose,
    ReadFailed(Seq<char>),
    ReadEnded,
    Heartbeat,
    Sent(bool),
}

/// A [`Frame`] by its contents.
pub enum Message {
    Audio(Seq<u8>),
    Finalize,
    AudioDone,
    Ping,
}

/// A [`LinkAction`] by its contents.
pub enum Action {
    Connect,
    Disconnect,
    Notify(Ui),
    Backoff(u64),
    Pause(u64),
    Send(Message),
    Stop,
}

/// A [`Link`] by its contents.
#[verifier::ext_equal]
pub struct State {
    pub config: Option<Config>,
    pub pending: Seq<Seq<u8>>,
    pub finalize_pending: bool,
    pub backoff: u64,
    pub stage: Stage,
    pub conn: Conn,
    pub next_config: Option<Config>,
}

impl View for LinkEvent {
    type V = Event;

    open spec fn view(&self) -> Event {
        match self {
            LinkEvent::Command(cmd) => Event::Command(cmd@),
            LinkEvent::CommandsClosed => Event::CommandsClosed,
            LinkEvent::Connected => Event::Connected,
            LinkEvent::ConnectFailed(error) => Event::ConnectFailed(error@),
            LinkEvent::BackoffElapsed => Event::BackoffElapsed,
            LinkEvent::PauseElapsed => Event::PauseElapsed,
            LinkEvent::Received(event) => Event::Received(*event),
            LinkEvent::ReceivedOther => Event::ReceivedOther,
            LinkEvent::ReceivedClose => Event::ReceivedClose,
            LinkEvent::ReadFailed(error) => Event::ReadFailed(error@),
            LinkEvent::ReadEnded => Event::ReadEnded,
            LinkEvent::Heartbeat => Event::Heartbeat,
            LinkEvent::Sent(ok) => Event::Sent(*ok),
        }
    }
}

impl View for Frame {
    type V = Message;

    open spec fn view(&self) -> Message {
        match self {
            Frame::Audio(chunk) => Message::Audio(chunk@),
            Frame::Finalize => Message::Finalize,
            Frame::AudioDone => Message::AudioDone,
            Frame::Ping => Message::Ping,
        }
    }
}

impl View for LinkAction {
    type V = Action;

    open spec fn view(&self) -> Action {
        match self {
            LinkAction::Connect => Action::Connect,
            LinkAction::Disconnect => Action::Disconnect,
            LinkAction::Notify(event) => Action::Notify(event@),
            LinkAction::Backoff(delay) => Action::Backoff(*delay),
            LinkAction::Pause(delay) => Action::Pause(*delay),
            LinkAction::Send(frame) => Action::Send(frame@),
            LinkAction::Stop => Action::Stop,
        }
    }
}

/// An optional configuration by its contents.
pub open spec fn config_view(config: Option<WsConfig>) -> Option<Config> {
    match config {
        Some(c) => Some(c@),
        None => None,
    }
}

impl View for Link {
    type V = State;

    closed spec fn view(&self) -> State {
        State {
            config: config_view(self.session.config),
            pending: self.session.chunks(),
            finalize_pending: self.session.finalize_pending,
            backoff: self.backoff,
            stage: self.stage,
            conn: self.conn,
            next_config: config_view(self.next_config),
        }
    }
}

/// The contents of each action.
pub open spec fn action_views(actions: Seq<LinkAction>) -> Seq<Action> {
    Seq::new(actions.len(), |i: int| actions[i]@)
}

/// A connection opened at `now`.
pub open spec fn fresh_conn(now: u64) -> Conn {
    Conn { connected_at: now, last_audio_at: now, last_server_at: now, ready: false }
}

/// The wait after the next failed attempt: twice as long, up to [`MAX_BACKOFF`].
pub open spec fn next_backoff(backoff: u64) -> u64 {
    if backoff >= MAX_BACKOFF / 2 {
        MAX_BACKOFF
    } else {
        (2 * backoff) as u64
    }
}

/// The connection's state and what follows.
pub type Step = (State, Seq<Action>);

impl State {
    /// A link that was never configured.
    pub open spec fn start() -> State {
        State {
            config: None,
            pending: Seq::empty(),
            finalize_pending: false,
            backoff: INITIAL_BACKOFF,
            stage: Stage::Unconfigured,
            conn: fresh_conn(0),
            next_config: None,
        }
    }

    /// Wherever a connection is used or will be opened there is a configuration, the buffer is
    /// within its limit, and so is the wait after a failed attempt.
    pub open spec fn wf(self) -> bool {
        &&& (self.stage != Stage::Unconfigured && self.stage != Stage::Stopped)
            ==> self.config is Some
        &&& self.stage == Stage::Switching ==> self.next_config is Some
        &&& ws::total(self.pending) <= ws::MAX_PENDING_BYTES
        &&& INITIAL_BACKOFF <= self.backoff <= MAX_BACKOFF
    }

    pub open spec fn at(self, stage: Stage) -> State {
        State { stage, ..self }
    }

    /// Nothing changes and nothing is to be done.
    pub open spec fn stay(self) -> Step {
        (self, Seq::empty())
    }

    /// The connection is lost: it is opened again after a pause.
    pub open spec fn lose(self) -> Step {
        (
            self.at(Stage::Pausing),
            seq![
                Action::Notify(Ui::ConnChanged(false, "Reconnecting to xAI…"@)),
                Action::Pause(RECONNECT_PAUSE),
            ],
        )
    }

    /// The connection is replaced at once.
    pub open spec fn replace(self) -> Step {
        (self.at(Stage::Connecting), seq![Action::Disconnect, Action::Connect])
    }

    /// `step` with `first` done before its actions.
    pub open spec fn after_notice(notice: Ui, step: Step) -> Step {
        (step.0, seq![Action::Notify(notice)] + step.1)
    }

    /// The next buffered chunk is sent, and the end of the utterance behind the last of them.
    pub open spec fn flush(self) -> Step {
        if self.pending.len() > 0 {
            (
                State { pending: self.pending.drop_first(), ..self }.at(Stage::Flushing),
                seq![Action::Send(Message::Audio(self.pending[0]))],
            )
        } else if self.finalize_pending {
            (
                State { finalize_pending: false, ..self }.at(Stage::Sending),
                seq![Action::Send(Message::Finalize)],
            )
        } else {
            self.at(Stage::Open).stay()
        }
    }

    pub open spec fn buffer(self, chunk: Seq<u8>) -> State {
        State { pending: ws::newest(self.pending.push(chunk)), ..self }
    }

    /// A command while there is no connection and the link is waiting to try again.
    pub open spec fn on_command_backing_off(self, cmd: Command) -> Step {
        match cmd {
            Command::Configure(config) => (
                State {
                    config: Some(config),
                    backoff: next_backoff(self.backoff),
                    stage: Stage::Connecting,
                    ..self
                },
                seq![Action::Connect],
            ),
            Command::Audio(chunk) => self.buffer(chunk).stay(),
            Command::Finalize => (State { finalize_pending: true, ..self }).stay(),
            Command::BeginUtterance => self.stay(),
            Command::Reconnect => self.stay(),
        }
    }

    /// A command on an open connection.
    pub open spec fn on_command_open(self, cmd: Command, now: u64) -> Step {
        let heard = State { conn: Conn { last_audio_at: now, ..self.conn }, ..self };
        match cmd {
            Command::BeginUtterance => if ws::needs_refresh(
                self.conn.connected_at,
                self.conn.last_audio_at,
                now,
            ) {
                State::after_notice(
                    Ui::ConnRefreshing("Refreshing xAI connection…"@),
                    self.replace(),
                )
            } else {
                self.stay()
            },
            Command::Audio(chunk) => if self.conn.ready {
                (heard.at(Stage::Sending), seq![Action::Send(Message::Audio(chunk))])
            } else {
                heard.buffer(chunk).stay()
            },
            Command::Finalize => if self.conn.ready {
                (heard.at(Stage::Sending), seq![Action::Send(Message::Finalize)])
            } else {
                (State { finalize_pending: true, ..heard }).stay()
            },
            Command::Reconnect => State::after_notice(
                Ui::ConnRefreshing("Reconnecting to xAI…"@),
                self.replace(),
            ),
            Command::Configure(config) => (
                State { next_config: Some(config), stage: Stage::Switching, ..self },
                seq![Action::Send(Message::AudioDone)],
            ),
        }
    }

    /// A recogniser event.
    pub open spec fn on_received(self, event: SttEvent) -> Step {
        if event.typ@ == "transcript.created"@ {
            State::after_notice(
                Ui::ConnChanged(true, "xAI realtime ready"@),
                State { conn: Conn { ready: true, ..self.conn }, ..self }.flush(),
            )
        } else if event.typ@ == "transcript.partial"@ || event.typ@ == "transcript.done"@ {
            (self, seq![Action::Notify(Ui::Stt(event))])
        } else if event.typ@ == "error"@ {
            let message = match event.message {
                Some(m) => m@,
                None => "xAI returned an unknown transcription error."@,
            };
            (self, seq![Action::Notify(Ui::WsError(message))])
        } else {
            self.stay()
        }
    }

    /// A heartbeat: a connection that has been silent for too long is given up, one over which
    /// no audio went for long is replaced, any other is pinged.
    pub open spec fn on_heartbeat(self, now: u64) -> Step {
        if ws::elapsed(self.conn.last_server_at, now) >= ws::HEARTBEAT_TIMEOUT {
            State::after_notice(
                Ui::ConnChanged(false, "xAI stopped responding. Reconnecting…"@),
                self.lose(),
            )
        } else if ws::elapsed(self.conn.last_audio_at, now) >= ws::IDLE_REFRESH_AFTER {
            self.replace()
        } else {
            (self.at(Stage::Sending), seq![Action::Send(Message::Ping)])
        }
    }

    /// What an event on an open connection leads to.
    pub open spec fn on_open(self, event: Event, now: u64) -> Step {
        let seen = State { conn: Conn { last_server_at: now, ..self.conn }, ..self };
        match event {
            Event::Received(stt) => seen.on_received(stt),
            Event::ReceivedOther => seen.stay(),
            Event::ReceivedClose => State::after_notice(
                Ui::ConnChanged(false, "xAI closed the connection."@),
                seen.lose(),
            ),
            Event::ReadFailed(error) => State::after_notice(
                Ui::ConnChanged(false, ws::friendly_of(error, text::lowercase(error))),
                self.lose(),
            ),
            Event::ReadEnded => State::after_notice(
                Ui::ConnChanged(false, "xAI closed the connection."@),
                self.lose(),
            ),
            Event::Heartbeat => self.on_heartbeat(now),
            Event::Command(cmd) => self.on_command_open(cmd, now),
            Event::CommandsClosed => (
                self.at(Stage::Leaving),
                seq![Action::Send(Message::AudioDone)],
            ),
            _ => self.stay(),
        }
    }

    /// What an event leads to. An event that the link is not waiting for changes nothing.
    pub open spec fn step(self, event: Event, now: u64) -> Step {
        match self.stage {
            Stage::Unconfigured => match event {
                Event::Command(Command::Configure(config)) => (
                    State { config: Some(config), stage: Stage::Connecting, ..self },
                    seq![Action::Connect],
                ),
                Event::CommandsClosed => (self.at(Stage::Stopped), seq![Action::Stop]),
                _ => self.stay(),
            },
            Stage::Connecting => match event {
                Event::Connected => (
                    State {
                        backoff: INITIAL_BACKOFF,
                        conn: fresh_conn(now),
                        stage: Stage::Open,
                        ..self
                    }
                ).stay(),
                Event::ConnectFailed(error) => (
                    self.at(Stage::BackingOff),
                    seq![
                        Action::Notify(
                            Ui::ConnChanged(false, ws::friendly_of(error, text::lowercase(error))),
                        ),
                        Action::Backoff(self.backoff),
                    ],
                ),
                _ => self.stay(),
            },
            Stage::BackingOff => match event {
                Event::BackoffElapsed => (
                    State {
                        backoff: next_backoff(self.backoff),
                        stage: Stage::Connecting,
                        ..self
                    },
                    seq![Action::Connect],
                ),
                Event::Command(cmd) => self.on_command_backing_off(cmd),
                Event::CommandsClosed => (self.at(Stage::Stopped), seq![Action::Stop]),
                _ => self.stay(),
            },
            Stage::Open => self.on_open(event, now),
            Stage::Flushing => match event {
                Event::Sent(true) => self.flush(),
                Event::Sent(false) => self.lose(),
                _ => self.stay(),
            },
            Stage::Sending => match event {
                Event::Sent(true) => self.at(Stage::Open).stay(),
                Event::Sent(false) => self.lose(),
                _ => self.stay(),
            },
            Stage::Switching => match event {
                Event::Sent(_) => State {
                    config: self.next_config,
                    next_config: None,
                    ..self
                }.replace(),
                _ => self.stay(),
            },
            Stage::Leaving => match event {
                Event::Sent(_) => (
                    self.at(Stage::Stopped),
                    seq![Action::Disconnect, Action::Stop],
                ),
                _ => self.stay(),
            },
            Stage::Pausing => match event {
                Event::PauseElapsed => self.replace(),
                _ => self.stay(),
            },
            Stage::Stopped => self.stay(),
        }
    }
}

// ---- The machine ----

/// No action.
fn nothing() -> (r: Vec<LinkAction>)
    ensures
        action_views(r@) == Seq::<Action>::empty(),
{
    let r: Vec<LinkAction> = Vec::new();
    assert(action_views(r@) =~= Seq::<Action>::empty());
    r
}

/// One action.
fn only(action: LinkAction) -> (r: Vec<LinkAction>)
    ensures
        action_views(r@) == seq![action@],
{
    let mut r: Vec<LinkAction> = Vec::new();
    r.push(action);
    assert(action_views(r@) =~= seq![action@]);
    r
}

/// Two actions.
fn both(first: LinkAction, second: LinkAction) -> (r: Vec<LinkAction>)
    ensures
        action_views(r@) == seq![first@, second@],
{
    let mut r: Vec<LinkAction> = Vec::new();
    r.push(first);
    r.push(second);
    assert(action_views(r@) =~= seq![first@, second@]);
    r
}

/// A notice, then `rest`.
fn notice(event: UiEvent, rest: Vec<LinkAction>) -> (r: Vec<LinkAction>)
    ensures
        action_views(r@) == seq![Action::Notify(event@)] + action_views(rest@),
{
    let mut r: Vec<LinkAction> = Vec::new();
    let mut rest = rest;
    let ghost tail = rest@;
    r.push(LinkAction::Notify(event));
    r.append(&mut rest);
    assert(action_views(r@) =~= seq![Action::Notify(event@)] + action_views(tail));
    r
}

impl Link {
    /// The byte count of the buffer is right.
    pub closed spec fn sound(&self) -> bool {
        self.session.wf()
    }

    /// The invariant of a link.
    pub open spec fn wf(&self) -> bool {
        self.sound() && self@.wf()
    }

    /// A link that waits for a configuration.
    pub fn new() -> (r: Self)
        ensures
            r.wf(),
            r@ == State::start(),
    {
        let r = Link {
            session: Session::new(),
            backoff: INITIAL_BACKOFF,
            stage: Stage::Unconfigured,
            conn: Conn { connected_at: 0, last_audio_at: 0, last_server_at: 0, ready: false },
            next_config: None,
        };
        assert(r@ =~= State::start());
        r
    }

    /// The configuration to connect with.
    pub fn config(&self) -> (r: Option<&WsConfig>)
        ensures
            match r {
                Some(config) => self@.config == Some(config@),
                None => self@.config is None,
            },
    {
        self.session.config.as_ref()
    }

    /// What the link is waiting for.
    pub fn stage(&self) -> (r: Stage)
        ensures
            r == self@.stage,
    {
        self.stage
    }

    fn lose(&mut self) -> (r: Vec<LinkAction>)
        ensures
            final(self)@ == old(self)@.lose().0,
            action_views(r@) == old(self)@.lose().1,
            final(self).sound() == old(self).sound(),
    {
        self.stage = Stage::Pausing;
        assert(self@ =~= old(self)@.lose().0);
        both(
            LinkAction::Notify(UiEvent::ConnChanged(false, "Reconnecting to xAI…".to_owned())),
            LinkAction::Pause(RECONNECT_PAUSE),
        )
    }

    fn replace(&mut self) -> (r: Vec<LinkAction>)
        ensures
            final(self)@ == old(self)@.replace().0,
            action_views(r@) == old(self)@.replace().1,
            final(self).sound() == old(self).sound(),
    {
        self.stage = Stage::Connecting;
        assert(self@ =~= old(self)@.replace().0);
        both(LinkAction::Disconnect, LinkAction::Connect)
    }

    fn flush(&mut self) -> (r: Vec<LinkAction>)
        requires
            old(self).wf(),
        ensures
            final(self)@ == old(self)@.flush().0,
            action_views(r@) == old(self)@.flush().1,
            final(self).sound(),
    {
        match self.session.take_oldest() {
            Some(chunk) => {
                self.stage = Stage::Flushing;
                assert(self@ =~= old(self)@.flush().0);
                only(LinkAction::Send(Frame::Audio(chunk)))
            },
            None => {
                if self.session.finalize_pending {
                    self.session.finalize_pending = false;
                    self.stage = Stage::Sending;
                    assert(self@ =~= old(self)@.flush().0);
                    only(LinkAction::Send(Frame::Finalize))
                } else {
                    self.stage = Stage::Open;
                    assert(self@ =~= old(self)@.flush().0);
                    nothing()
                }
            },
        }
    }

    fn raise_backoff(&mut self)
        requires
            old(self)@.backoff <= MAX_BACKOFF,
        ensures
            final(self)@ == (State { backoff: next_backoff(old(self)@.backoff), ..old(self)@ }),
            final(self).sound() == old(self).sound(),
    {
        if self.backoff >= MAX_BACKOFF / 2 {
            self.backoff = MAX_BACKOFF;
        } else {
            self.backoff = 2 * self.backoff;
        }
        assert(self@ =~= (State { backoff: next_backoff(old(self)@.backoff), ..old(self)@ }));
    }

    fn on_command_backing_off(&mut self, cmd: WsCmd) -> (r: Vec<LinkAction>)
        requires
            old(self).wf(),
        ensures
            final(self)@ == old(self)@.on_command_backing_off(cmd@).0,
            action_views(r@) == old(self)@.on_command_backing_off(cmd@).1,
            final(self).sound(),
    {
        match cmd {
            WsCmd::Configure(config) => {
                self.raise_backoff();
                self.session.config = Some(config);
                self.stage = Stage::Connecting;
                assert(self@ =~= old(self)@.on_command_backing_off(cmd@).0);
                only(LinkAction::Connect)
            },
            WsCmd::Audio(chunk) => {
                self.session.buffer_audio(chunk);
                assert(self@ =~= old(self)@.on_command_backing_off(cmd@).0);
                nothing()
            },
            WsCmd::Finalize => {
                self.session.finalize_pending = true;
                assert(self@ =~= old(self)@.on_command_backing_off(cmd@).0);
                nothing()
            },
            WsCmd::BeginUtterance => nothing(),
            WsCmd::Reconnect => nothing(),
        }
    }

    fn on_command_open(&mut self, cmd: WsCmd, now: u64) -> (r: Vec<LinkAction>)
        requires
            old(self).wf(),
        ensures
            final(self)@ == old(self)@.on_command_open(cmd@, now).0,
            action_views(r@) == old(self)@.on_command_open(cmd@, now).1,
            final(self).sound(),
    {
        match cmd {
            WsCmd::BeginUtterance => {
                if ws::connection_needs_refresh(
                    self.conn.connected_at,
                    self.conn.last_audio_at,
                    now,
                ) {
                    let rest = self.replace();
                    notice(
                        UiEvent::ConnRefreshing("Refreshing xAI connection…".to_owned()),
                        rest,
                    )
                } else {
                    nothing()
                }
            },
            WsCmd::Audio(chunk) => {
                self.conn.last_audio_at = now;
                if self.conn.ready {
                    self.stage = Stage::Sending;
                    assert(self@ =~= old(self)@.on_command_open(cmd@, now).0);
                    only(LinkAction::Send(Frame::Audio(chunk)))
                } else {
                    self.session.buffer_audio(chunk);
                    assert(self@ =~= old(self)@.on_command_open(cmd@, now).0);
                    nothing()
                }
            },
            WsCmd::Finalize => {
                self.conn.last_audio_at = now;
                if self.conn.ready {
                    self.stage = Stage::Sending;
                    assert(self@ =~= old(self)@.on_command_open(cmd@, now).0);
                    only(LinkAction::Send(Frame::Finalize))
                } else {
                    self.session.finalize_pending = true;
                    assert(self@ =~= old(self)@.on_command_open(cmd@, now).0);
                    nothing()
                }
            },
            WsCmd::Reconnect => {
                let rest = self.replace();
                notice(UiEvent::ConnRefreshing("Reconnecting to xAI…".to_owned()), rest)
            },
            WsCmd::Configure(config) => {
                self.next_config = Some(config);
                self.stage = Stage::Switching;
                assert(self@ =~= old(self)@.on_command_open(cmd@, now).0);
                only(LinkAction::Send(Frame::AudioDone))
            },
        }
    }

    fn on_received(&mut self, event: SttEvent) -> (r: Vec<LinkAction>)
        requires
            old(self).wf(),
        ensures
            final(self)@ == old(self)@.on_received(event).0,
            action_views(r@) == old(self)@.on_received(event).1,
            final(self).sound(),
    {
        if text::same(event.typ.as_str(), "transcript.created") {
            self.conn.ready = true;
            assert(self@ =~= (State {
                conn: Conn { ready: true, ..old(self)@.conn },
                ..old(self)@
            }));
            let rest = self.flush();
            notice(UiEvent::ConnChanged(true, "xAI realtime ready".to_owned()), rest)
        } else if text::same(event.typ.as_str(), "transcript.partial") || text::same(
            event.typ.as_str(),
            "transcript.done",
        ) {
            only(LinkAction::Notify(UiEvent::Stt(event)))
        } else if text::same(event.typ.as_str(), "error") {
            let message = match event.message {
                Some(message) => message,
                None => "xAI returned an unknown transcription error.".to_owned(),
            };
            only(LinkAction::Notify(UiEvent::WsError(message)))
        } else {
            nothing()
        }
    }

    fn on_heartbeat(&mut self, now: u64) -> (r: Vec<LinkAction>)
        ensures
            final(self)@ == old(self)@.on_heartbeat(now).0,
            action_views(r@) == old(self)@.on_heartbeat(now).1,
            final(self).sound() == old(self).sound(),
    {
        if ws::since(self.conn.last_server_at, now) >= ws::HEARTBEAT_TIMEOUT {
            let rest = self.lose();
            return notice(
                UiEvent::ConnChanged(
                    false,
                    "xAI stopped responding. Reconnecting…".to_owned(),
                ),
                rest,
            );
        }
        // Only refresh when the socket has been idle. Max-age reconnects wait for the next
        // BeginUtterance so a long hold is not torn down mid-speech.
        if ws::since(self.conn.last_audio_at, now) >= ws::IDLE_REFRESH_AFTER {
            return self.replace();
        }
        self.stage = Stage::Sending;
        assert(self@ =~= old(self)@.on_heartbeat(now).0);
        only(LinkAction::Send(Frame::Ping))
    }

    fn on_open(&mut self, event: LinkEvent, now: u64) -> (r: Vec<LinkAction>)
        requires
            old(self).wf(),
        ensures
            final(self)@ == old(self)@.on_open(event@, now).0,
            action_views(r@) == old(self)@.on_open(event@, now).1,
            final(self).sound(),
    {
        let ghost seen = State {
            conn: Conn { last_server_at: now, ..self@.conn },
            ..self@
        };
        match event {
            LinkEvent::Received(stt) => {
                self.conn.last_server_at = now;
                assert(self@ =~= seen);
                self.on_received(stt)
            },
            LinkEvent::ReceivedOther => {
                self.conn.last_server_at = now;
                assert(self@ =~= seen);
                nothing()
            },
            LinkEvent::ReceivedClose => {
                self.conn.last_server_at = now;
                assert(self@ =~= seen);
                let rest = self.lose();
                notice(
                    UiEvent::ConnChanged(false, "xAI closed the connection.".to_owned()),
                    rest,
                )
            },
            LinkEvent::ReadFailed(error) => {
                let label = ws::friendly(error.as_str());
                let rest = self.lose();
                notice(UiEvent::ConnChanged(false, label), rest)
            },
            LinkEvent::ReadEnded => {
                let rest = self.lose();
                notice(
                    UiEvent::ConnChanged(false, "xAI closed the connection.".to_owned()),
                    rest,
                )
            },
            LinkEvent::Heartbeat => self.on_heartbeat(now),
            LinkEvent::Command(cmd) => self.on_command_open(cmd, now),
            LinkEvent::CommandsClosed => {
                self.stage = Stage::Leaving;
                assert(self@ =~= old(self)@.at(Stage::Leaving));
                only(LinkAction::Send(Frame::AudioDone))
            },
            _ => nothing(),
        }
    }

    /// Takes in what happened and says what to do next. An event that the link is not waiting
    /// for changes nothing.
    pub fn handle(&mut self, event: LinkEvent, now: u64) -> (r: Vec<LinkAction>)
        requires
            old(self).wf(),
        ensures
            final(self).wf(),
            final(self)@ == old(self)@.step(event@, now).0,
            action_views(r@) == old(self)@.step(event@, now).1,
    {
        let ghost before = self@;
        let ghost what = event@;
        proof {
            law_link_stays_well_formed(before, what, now);
        }
        match self.stage {
            Stage::Unconfigured => match event {
                LinkEvent::Command(WsCmd::Configure(config)) => {
                    self.session.config = Some(config);
                    self.stage = Stage::Connecting;
                    assert(self@ =~= before.step(what, now).0);
                    only(LinkAction::Connect)
                },
                LinkEvent::CommandsClosed => {
                    self.stage = Stage::Stopped;
                    assert(self@ =~= before.step(what, now).0);
                    only(LinkAction::Stop)
                },
                _ => nothing(),
            },
            Stage::Connecting => match event {
                LinkEvent::Connected => {
                    self.backoff = INITIAL_BACKOFF;
                    self.conn = Conn {
                        connected_at: now,
                        last_audio_at: now,
                        last_server_at: now,
                        ready: false,
                    };
                    self.stage = Stage::Open;
                    assert(self@ =~= before.step(what, now).0);
                    nothing()
                },
                LinkEvent::ConnectFailed(error) => {
                    let label = ws::friendly(error.as_str());
                    self.stage = Stage::BackingOff;
                    assert(self@ =~= before.step(what, now).0);
                    both(
                        LinkAction::Notify(UiEvent::ConnChanged(false, label)),
                        LinkAction::Backoff(self.backoff),
                    )
                },
                _ => nothing(),
            },
            Stage::BackingOff => match event {
                LinkEvent::BackoffElapsed => {
                    self.raise_backoff();
                    self.stage = Stage::Connecting;
                    assert(self@ =~= before.step(what, now).0);
                    only(LinkAction::Connect)
                },
                LinkEvent::Command(cmd) => self.on_command_backing_off(cmd),
                LinkEvent::CommandsClosed => {
                    self.stage = Stage::Stopped;
                    assert(self@ =~= before.step(what, now).0);
                    only(LinkAction::Stop)
                },
                _ => nothing(),
            },
            Stage::Open => self.on_open(event, now),
            Stage::Flushing => match event {
                LinkEvent::Sent(ok) => if ok {
                    self.flush()
                } else {
                    self.lose()
                },
                _ => nothing(),
            },
            Stage::Sending => match event {
                LinkEvent::Sent(ok) => if ok {
                    self.stage = Stage::Open;
                    assert(self@ =~= before.step(what, now).0);
                    nothing()
                } else {
                    self.lose()
                },
                _ => nothing(),
            },
            Stage::Switching => match event {
                LinkEvent::Sent(_) => {
                    self.session.config = self.next_config.take();
                    assert(self@ =~= (State {
                        config: before.next_config,
                        next_config: None,
                        ..before
                    }));
                    self.replace()
                },
                _ => nothing(),
            },
            Stage::Leaving => match event {
                LinkEvent::Sent(_) => {
                    self.stage = Stage::Stopped;
                    assert(self@ =~= before.step(what, now).0);
                    both(LinkAction::Disconnect, LinkAction::Stop)
                },
                _ => nothing(),
            },
            Stage::Pausing => match event {
                LinkEvent::PauseElapsed => self.replace(),
                _ => nothing(),
            },
            Stage::Stopped => nothing(),
        }
    }
}

impl Frame {
    /// The text of a text frame; audio and pings have none.
    pub fn text(&self) -> (r: Option<&'static str>)
        ensures
            match r {
                Some(text) => {
                    ||| self@ is Finalize && text@ == "{\"type\":\"Finalize\"}"@
                    ||| self@ is AudioDone && text@ == "{\"type\":\"audio.done\"}"@
                },
                None => self@ is Audio || self@ is Ping,
            },
    {
        match self {
            Frame::Finalize => Some("{\"type\":\"Finalize\"}"),
            Frame::AudioDone => Some("{\"type\":\"audio.done\"}"),
            Frame::Audio(_) => None,
            Frame::Ping => None,
        }
    }
}

// ---- Laws ----

/// The link's invariant holds at the start and every event keeps it.
pub proof fn law_link_stays_well_formed(s: State, event: Event, now: u64)
    requires
        s.wf(),
    ensures
        State::start().wf(),
        s.step(event, now).0.wf(),
{
    if s.pending.len() > 0 {
        ws::lemma_total_first(s.pending);
    }
    if let Event::Command(Command::Audio(chunk)) = event {
        ws::law_buffer_keeps_the_newest_audio(s.pending.push(chunk));
    }
}

/// The frames sent from here on while buffered audio is flushed and every frame gets through.
pub open spec fn flushed_frames(s: State) -> Seq<Message>
    decreases s.pending.len(),
{
    if s.pending.len() > 0 {
        seq![s.flush().1[0]->Send_0] + flushed_frames(s.flush().0)
    } else if s.finalize_pending {
        seq![s.flush().1[0]->Send_0]
    } else {
        Seq::empty()
    }
}

/// Buffered audio is sent completely and in order as soon as the recogniser is ready, and the
/// end of the utterance only behind it.
pub proof fn law_buffered_audio_is_sent_in_order_before_the_end(s: State)
    ensures
        flushed_frames(s) == s.pending.map_values(|c: Seq<u8>| Message::Audio(c))
            + if s.finalize_pending {
            seq![Message::Finalize]
        } else {
            Seq::empty()
        },
        s.pending.len() > 0 ==> s.flush().0.step(Event::Sent(true), 0) == s.flush().0.flush(),
    decreases s.pending.len(),
{
    if s.pending.len() > 0 {
        let next = s.flush().0;
        law_buffered_audio_is_sent_in_order_before_the_end(next);
        assert(flushed_frames(s) =~= s.pending.map_values(|c: Seq<u8>| Message::Audio(c))
            + if s.finalize_pending {
            seq![Message::Finalize]
        } else {
            Seq::empty()
        });
    } else {
        assert(flushed_frames(s) =~= s.pending.map_values(|c: Seq<u8>| Message::Audio(c))
            + if s.finalize_pending {
            seq![Message::Finalize]
        } else {
            Seq::empty()
        });
    }
}

/// A long hold is not torn down mid-speech: while audio keeps going out and the server keeps
/// answering, a heartbeat only pings, however old the connection is.
pub proof fn law_a_long_hold_is_not_torn_down(s: State, now: u64)
    requires
        s.stage == Stage::Open,
        now - s.conn.last_audio_at < 120_000_000_000,
        now - s.conn.last_server_at < 45_000_000_000,
    ensures
        s.step(Event::Heartbeat, now).1 == seq![Action::Send(Message::Ping)],
        s.step(Event::Heartbeat, now).0.step(Event::Sent(true), now).0 == s,
{
    assert(s.step(Event::Heartbeat, now).0.step(Event::Sent(true), now).0 =~= s);
}

/// Audio that cannot be sent yet is not lost to a refresh: replacing the connection, losing it
/// or failing to open one keeps what is buffered and a pending end of the utterance.
pub proof fn law_reconnecting_keeps_the_buffer(s: State, event: Event, now: u64)
    requires
        event is ConnectFailed || event is ReadFailed || event is ReadEnded || event is Heartbeat
            || event is ReceivedClose || event is BackoffElapsed || event is PauseElapsed || event
            == Event::Command(Command::BeginUtterance) || event == Event::Command(
            Command::Reconnect,
        ) || event == Event::Sent(false),
    ensures
        s.step(event, now).0.pending == s.pending,
        s.step(event, now).0.finalize_pending == s.finalize_pending,
{
}

/// Each failed attempt waits longer, up to a limit; a successful one starts over.
pub proof fn law_backoff_grows_and_resets(s: State, error: Seq<char>, now: u64)
    requires
        s.wf(),
        s.stage == Stage::Connecting,
    ensures
        s.step(Event::ConnectFailed(error), now).1[1] == Action::Backoff(s.backoff),
        ({
            let waited = s.step(Event::ConnectFailed(error), now).0.step(
                Event::BackoffElapsed,
                now,
            );
            waited.1 == seq![Action::Connect] && waited.0.backoff == if 2 * s.backoff
                <= 15_000_000_000 {
                2 * s.backoff
            } else {
                15_000_000_000
            }
        }),
        s.step(Event::Connected, now).0.backoff == 1_200_000_000,
{
}

/// No audio is sent before the recogniser has said that it is ready.
pub proof fn law_no_audio_before_ready(s: State, event: Event, now: u64, i: int)
    requires
        s.stage == Stage::Open,
        !s.conn.ready,
        !(event is Received),
        0 <= i < s.step(event, now).1.len(),
    ensures
        !(s.step(event, now).1[i] matches Action::Send(Message::Audio(_))),
        !(s.step(event, now).1[i] matches Action::Send(Message::Finalize)),
{
}

/// Every recogniser event is passed on unchanged, whatever its text and flags: partial results
/// and final ones alike.
pub proof fn law_recogniser_events_are_passed_on_unchanged(s: State, event: SttEvent, now: u64)
    requires
        s.stage == Stage::Open,
        event.typ@ == "transcript.partial"@ || event.typ@ == "transcript.done"@,
    ensures
        s.step(Event::Received(event), now).1 == seq![Action::Notify(Ui::Stt(event))],
        s.step(Event::Received(event), now).0 == (State {
            conn: Conn { last_server_at: now, ..s.conn },
            ..s
        }),
{
    lemma_event_types();
}

/// An error of the recogniser is reported in its own words, or as unknown where it has none.
/// Other messages only show that the server is there.
pub proof fn law_recogniser_errors_are_reported(s: State, event: SttEvent, now: u64)
    requires
        s.stage == Stage::Open,
        event.typ@ != "transcript.created"@,
        event.typ@ != "transcript.partial"@,
        event.typ@ != "transcript.done"@,
    ensures
        ({
            let seen = State { conn: Conn { last_server_at: now, ..s.conn }, ..s };
            &&& (event.typ@ == "error"@ && event.message is Some) ==> s.step(
                Event::Received(event),
                now,
            ).1 == seq![Action::Notify(Ui::WsError(event.message->0@))]
            &&& (event.typ@ == "error"@ && event.message is None) ==> s.step(
                Event::Received(event),
                now,
            ).1 == seq![
                Action::Notify(Ui::WsError("xAI returned an unknown transcription error."@)),
            ]
            &&& event.typ@ != "error"@ ==> s.step(Event::Received(event), now).1.len() == 0
            &&& s.step(Event::Received(event), now).0 == seen
            &&& s.step(Event::ReceivedOther, now) == (seen, Seq::<Action>::empty())
        }),
{
}

/// The types of recogniser events differ.
proof fn lemma_event_types()
    ensures
        "transcript.created"@ != "transcript.partial"@,
        "transcript.created"@ != "transcript.done"@,
{
    reveal_strlit("transcript.created");
    reveal_strlit("transcript.partial");
    reveal_strlit("transcript.done");
    assert("transcript.created"@[11] == 'c');
    assert("transcript.partial"@[11] == 'p');
    assert("transcript.done"@[11] == 'd');
}

/// When the recogniser is ready, that is told first; then everything that was buffered is sent,
/// chunk by chunk, and the end of the utterance behind it.
pub proof fn law_readiness_starts_the_flow(s: State, event: SttEvent, now: u64)
    requires
        s.stage == Stage::Open,
        event.typ@ == "transcript.created"@,
    ensures
        ({
            let turn = s.step(Event::Received(event), now);
            let told = Action::Notify(Ui::ConnChanged(true, "xAI realtime ready"@));
            &&& turn.0.conn == (Conn { ready: true, last_server_at: now, ..s.conn })
            &&& s.pending.len() > 0 ==> turn.1 == seq![
                told,
                Action::Send(Message::Audio(s.pending[0])),
            ] && turn.0.pending == s.pending.skip(1) && turn.0.finalize_pending
                == s.finalize_pending && turn.0.stage == Stage::Flushing
            &&& (s.pending.len() == 0 && s.finalize_pending) ==> turn.1 == seq![
                told,
                Action::Send(Message::Finalize),
            ] && !turn.0.finalize_pending && turn.0.stage == Stage::Sending
            &&& (s.pending.len() == 0 && !s.finalize_pending) ==> turn.1 == seq![told]
                && turn.0.stage == Stage::Open
            &&& turn.0.config == s.config
        }),
{
    lemma_event_types();
    if s.pending.len() > 0 {
        assert(s.pending.drop_first() =~= s.pending.skip(1));
    }
    assert(s.step(Event::Received(event), now).1 =~= seq![
        Action::Notify(Ui::ConnChanged(true, "xAI realtime ready"@)),
    ] + s.step(Event::Received(event), now).1.skip(1));
}

/// After a chunk of the buffer has been sent comes the next one, then the end of the utterance,
/// then the connection is free again.
pub proof fn law_the_buffer_is_sent_to_its_end(s: State, now: u64)
    requires
        s.stage == Stage::Flushing,
    ensures
        ({
            let turn = s.step(Event::Sent(true), now);
            &&& s.pending.len() > 0 ==> turn.1 == seq![Action::Send(Message::Audio(s.pending[0]))]
                && turn.0.pending == s.pending.skip(1) && turn.0.stage == Stage::Flushing
            &&& (s.pending.len() == 0 && s.finalize_pending) ==> turn.1 == seq![
                Action::Send(Message::Finalize),
            ] && !turn.0.finalize_pending && turn.0.stage == Stage::Sending
            &&& (s.pending.len() == 0 && !s.finalize_pending) ==> turn.1.len() == 0 && turn.0.stage
                == Stage::Open
        }),
{
    if s.pending.len() > 0 {
        assert(s.pending.drop_first() =~= s.pending.skip(1));
    }
}

/// Audio on an open connection is sent at once where the recogniser is ready, byte for byte;
/// otherwise it is buffered behind what is buffered already. The end of the utterance likewise.
/// Either counts as activity.
pub proof fn law_audio_is_sent_or_buffered(s: State, chunk: Seq<u8>, now: u64)
    requires
        s.stage == Stage::Open,
    ensures
        ({
            let audio = s.step(Event::Command(Command::Audio(chunk)), now);
            let end = s.step(Event::Command(Command::Finalize), now);
            let fits = ws::total(s.pending) + chunk.len() <= 320_000;
            &&& audio.0.conn == (Conn { last_audio_at: now, ..s.conn })
            &&& end.0.conn == (Conn { last_audio_at: now, ..s.conn })
            &&& s.conn.ready ==> audio.1 == seq![Action::Send(Message::Audio(chunk))]
                && audio.0.stage == Stage::Sending && audio.0.pending == s.pending
            &&& (!s.conn.ready) ==> audio.1.len() == 0 && audio.0.stage == Stage::Open
            &&& (!s.conn.ready && fits) ==> audio.0.pending == s.pending.push(chunk)
            &&& s.conn.ready ==> end.1 == seq![Action::Send(Message::Finalize)] && end.0.stage
                == Stage::Sending && end.0.finalize_pending == s.finalize_pending
            &&& (!s.conn.ready) ==> end.1.len() == 0 && end.0.stage == Stage::Open
                && end.0.finalize_pending
            &&& end.0.pending == s.pending
        }),
{
    assert(s.pending.push(chunk).drop_last() == s.pending);
}

/// While the link waits to try again, audio and the end of an utterance are kept for the next
/// connection; a new configuration is used at once.
pub proof fn law_audio_is_kept_while_backing_off(s: State, chunk: Seq<u8>, config: Config, now: u64)
    requires
        s.stage == Stage::BackingOff,
    ensures
        ({
            let audio = s.step(Event::Command(Command::Audio(chunk)), now);
            let end = s.step(Event::Command(Command::Finalize), now);
            let new = s.step(Event::Command(Command::Configure(config)), now);
            &&& ws::total(s.pending) + chunk.len() <= 320_000 ==> audio.0.pending == s.pending.push(
                chunk,
            )
            &&& audio.1.len() == 0
            &&& audio.0 == (State { pending: audio.0.pending, ..s })
            &&& end == ((State { finalize_pending: true, ..s }), Seq::<Action>::empty())
            &&& new.1 == seq![Action::Connect] && new.0.config == Some(config) && new.0.stage
                == Stage::Connecting && new.0.pending == s.pending && new.0.finalize_pending
                == s.finalize_pending
            &&& s.backoff <= 7_500_000_000 ==> new.0.backoff == 2 * s.backoff
            &&& s.backoff > 7_500_000_000 ==> new.0.backoff == 15_000_000_000
            &&& s.step(Event::Command(Command::BeginUtterance), now) == (s, Seq::<Action>::empty())
            &&& s.step(Event::Command(Command::Reconnect), now) == (s, Seq::<Action>::empty())
        }),
{
    assert(s.pending.push(chunk).drop_last() == s.pending);
}

/// However a connection is lost, the user is told why, and it is opened again after 0.9 s.
pub proof fn law_a_lost_connection_is_opened_again(s: State, error: Seq<char>, now: u64)
    requires
        s.stage == Stage::Open,
    ensures
        ({
            let again = Action::Notify(Ui::ConnChanged(false, "Reconnecting to xAI…"@));
            let pause = Action::Pause(900_000_000);
            let closed = Action::Notify(Ui::ConnChanged(false, "xAI closed the connection."@));
            let failed = Action::Notify(
                Ui::ConnChanged(false, ws::friendly_of(error, text::lowercase(error))),
            );
            &&& s.step(Event::ReceivedClose, now).1 == seq![closed, again, pause]
            &&& s.step(Event::ReadEnded, now).1 == seq![closed, again, pause]
            &&& s.step(Event::ReadFailed(error), now).1 == seq![failed, again, pause]
            &&& s.step(Event::ReceivedClose, now).0.stage == Stage::Pausing
            &&& s.step(Event::ReadEnded, now).0.stage == Stage::Pausing
            &&& s.step(Event::ReadFailed(error), now).0.stage == Stage::Pausing
            &&& (State { stage: Stage::Sending, ..s }).step(Event::Sent(false), now) == (
                (State { stage: Stage::Pausing, ..s }),
                seq![again, pause],
            )
            &&& (State { stage: Stage::Flushing, ..s }).step(Event::Sent(false), now) == (
                (State { stage: Stage::Pausing, ..s }),
                seq![again, pause],
            )
            &&& (State { stage: Stage::Sending, ..s }).step(Event::Sent(true), now) == (
                (State { stage: Stage::Open, ..s }),
                Seq::<Action>::empty(),
            )
            &&& (State { stage: Stage::Pausing, ..s }).step(Event::PauseElapsed, now) == (
                (State { stage: Stage::Connecting, ..s }),
                seq![Action::Disconnect, Action::Connect],
            )
        }),
{
    let again = Action::Notify(Ui::ConnChanged(false, "Reconnecting to xAI…"@));
    let pause = Action::Pause(900_000_000);
    let closed = Action::Notify(Ui::ConnChanged(false, "xAI closed the connection."@));
    let failed = Action::Notify(
        Ui::ConnChanged(false, ws::friendly_of(error, text::lowercase(error))),
    );
    assert(s.step(Event::ReceivedClose, now).1 =~= seq![closed, again, pause]);
    assert(s.step(Event::ReadEnded, now).1 =~= seq![closed, again, pause]);
    assert(s.step(Event::ReadFailed(error), now).1 =~= seq![failed, again, pause]);
}

/// A heartbeat gives up a server that has been silent for 45 s, replaces a connection without
/// audio for 120 s, and pings otherwise.
pub proof fn law_a_heartbeat_watches_server_and_audio(s: State, now: u64)
    requires
        s.stage == Stage::Open,
        s.conn.last_server_at <= now,
        s.conn.last_audio_at <= now,
    ensures
        ({
            let turn = s.step(Event::Heartbeat, now);
            let silent = now - s.conn.last_server_at >= 45_000_000_000;
            let idle = now - s.conn.last_audio_at >= 120_000_000_000;
            &&& silent ==> turn.0.stage == Stage::Pausing && turn.1 == seq![
                Action::Notify(Ui::ConnChanged(false, "xAI stopped responding. Reconnecting…"@)),
                Action::Notify(Ui::ConnChanged(false, "Reconnecting to xAI…"@)),
                Action::Pause(900_000_000),
            ]
            &&& (!silent && idle) ==> turn.0.stage == Stage::Connecting && turn.1 == seq![
                Action::Disconnect,
                Action::Connect,
            ]
            &&& (!silent && !idle) ==> turn.0.stage == Stage::Sending && turn.1 == seq![
                Action::Send(Message::Ping),
            ]
        }),
{
    assert(s.step(Event::Heartbeat, now).1.len() == 3 ==> s.step(Event::Heartbeat, now).1 =~= seq![
        Action::Notify(Ui::ConnChanged(false, "xAI stopped responding. Reconnecting…"@)),
        Action::Notify(Ui::ConnChanged(false, "Reconnecting to xAI…"@)),
        Action::Pause(900_000_000),
    ]);
}

/// Before an utterance a connection is replaced if it is 8 minutes old or had no audio for 2
/// minutes, and kept otherwise; on demand it is replaced at once.
pub proof fn law_a_stale_connection_is_replaced_before_an_utterance(s: State, now: u64)
    requires
        s.stage == Stage::Open,
        s.conn.connected_at <= now,
        s.conn.last_audio_at <= now,
    ensures
        ({
            let stale = now - s.conn.connected_at >= 480_000_000_000 || now - s.conn.last_audio_at
                >= 120_000_000_000;
            let begin = s.step(Event::Command(Command::BeginUtterance), now);
            let again = s.step(Event::Command(Command::Reconnect), now);
            &&& stale ==> begin == (
                (State { stage: Stage::Connecting, ..s }),
                seq![
                    Action::Notify(Ui::ConnRefreshing("Refreshing xAI connection…"@)),
                    Action::Disconnect,
                    Action::Connect,
                ],
            )
            &&& !stale ==> begin == (s, Seq::<Action>::empty())
            &&& again == (
                (State { stage: Stage::Connecting, ..s }),
                seq![
                    Action::Notify(Ui::ConnRefreshing("Reconnecting to xAI…"@)),
                    Action::Disconnect,
                    Action::Connect,
                ],
            )
        }),
{
    let begin = s.step(Event::Command(Command::BeginUtterance), now);
    let again = s.step(Event::Command(Command::Reconnect), now);
    assert(begin.1.len() == 3 ==> begin.1 =~= seq![
        Action::Notify(Ui::ConnRefreshing("Refreshing xAI connection…"@)),
        Action::Disconnect,
        Action::Connect,
    ]);
    assert(again.1 =~= seq![
        Action::Notify(Ui::ConnRefreshing("Reconnecting to xAI…"@)),
        Action::Disconnect,
        Action::Connect,
    ]);
}

/// A new configuration says goodbye to the old connection and then connects anew; it is used
/// even where the goodbye fails. Without a configuration nothing is connected.
pub proof fn law_a_new_configuration_replaces_the_connection(
    s: State,
    config: Config,
    sent: bool,
    now: u64,
)
    ensures
        ({
            let turn = (State { stage: Stage::Open, ..s }).step(
                Event::Command(Command::Configure(config)),
                now,
            );
            let switched = turn.0.step(Event::Sent(sent), now);
            let first = (State { stage: Stage::Unconfigured, ..s }).step(
                Event::Command(Command::Configure(config)),
                now,
            );
            &&& turn.1 == seq![Action::Send(Message::AudioDone)]
            &&& turn.0.config == s.config
            &&& switched.1 == seq![Action::Disconnect, Action::Connect]
            &&& switched.0.config == Some(config)
            &&& switched.0.stage == Stage::Connecting
            &&& switched.0.pending == s.pending && switched.0.finalize_pending
                == s.finalize_pending
            &&& first.1 == seq![Action::Connect]
            &&& first.0.config == Some(config) && first.0.stage == Stage::Connecting
        }),
{
}

/// A new link has nothing to connect with, nothing to send, and waits for a configuration.
pub proof fn law_a_new_link_is_unconfigured()
    ensures
        ({
            let s = State::start();
            &&& s.stage == Stage::Unconfigured && s.config is None && s.next_config is None
            &&& s.pending.len() == 0 && !s.finalize_pending
            &&& s.backoff == 1_200_000_000
            &&& !s.conn.ready
        }),
{
}

/// Commands that come before a configuration are dropped.
pub proof fn law_nothing_is_kept_before_a_configuration(s: State, cmd: Command, now: u64)
    requires
        s.stage == Stage::Unconfigured,
        !(cmd is Configure),
    ensures
        s.step(Event::Command(cmd), now) == (s, Seq::<Action>::empty()),
{
}

/// A connection counts from when it was opened: nothing was heard or sent before, and the
/// recogniser is not ready yet.
pub proof fn law_a_new_connection_starts_fresh(s: State, error: Seq<char>, now: u64)
    requires
        s.stage == Stage::Connecting,
    ensures
        s.step(Event::Connected, now) == (
            State {
                backoff: 1_200_000_000,
                conn: Conn {
                    connected_at: now,
                    last_audio_at: now,
                    last_server_at: now,
                    ready: false,
                },
                stage: Stage::Open,
                ..s
            },
            Seq::<Action>::empty(),
        ),
        s.step(Event::ConnectFailed(error), now) == (
            (State { stage: Stage::BackingOff, ..s }),
            seq![
                Action::Notify(
                    Ui::ConnChanged(false, ws::friendly_of(error, text::lowercase(error))),
                ),
                Action::Backoff(s.backoff),
            ],
        ),
        ({
            let again = (State { stage: Stage::BackingOff, ..s }).step(Event::BackoffElapsed, now);
            again.1 == seq![Action::Connect] && again.0.stage == Stage::Connecting
        }),
{
}

/// When no command can come any more, an open connection says goodbye, and the link stops.
pub proof fn law_the_link_stops_with_a_goodbye(s: State, sent: bool, now: u64)
    ensures
        ({
            let leaving = (State { stage: Stage::Open, ..s }).step(Event::CommandsClosed, now);
            &&& leaving.1 == seq![Action::Send(Message::AudioDone)]
            &&& leaving.0.step(Event::Sent(sent), now) == (
                (State { stage: Stage::Stopped, ..s }),
                seq![Action::Disconnect, Action::Stop],
            )
            &&& (State { stage: Stage::Unconfigured, ..s }).step(Event::CommandsClosed, now) == (
                (State { stage: Stage::Stopped, ..s }),
                seq![Action::Stop],
            )
            &&& (State { stage: Stage::BackingOff, ..s }).step(Event::CommandsClosed, now) == (
                (State { stage: Stage::Stopped, ..s }),
                seq![Action::Stop],
            )
        }),
{
}

/// What the link is not waiting for changes nothing: neither an answer to another action nor a
/// command while an answer is awaited.
pub proof fn law_events_out_of_turn_change_nothing(s: State, event: Event, now: u64)
    requires
        match s.stage {
            Stage::Unconfigured => !(event is CommandsClosed) && !(event is Command),
            Stage::Connecting => !(event is Connected) && !(event is ConnectFailed),
            Stage::BackingOff => !(event is BackoffElapsed) && !(event is Command) && !(event
                is CommandsClosed),
            Stage::Open => event is Connected || event is ConnectFailed || event is BackoffElapsed
                || event is PauseElapsed || event is Sent,
            Stage::Flushing | Stage::Sending | Stage::Switching | Stage::Leaving => !(event
                is Sent),
            Stage::Pausing => !(event is PauseElapsed),
            Stage::Stopped => true,
        },
    ensures
        s.step(event, now) == (s, Seq::<Action>::empty()),
{
}

} // verus!
