//! Events that reach the coordinator.

use vstd::prelude::*;

use crate::transcript::SttEvent;

verus! {

/// An event for the coordinator, from the keyboard, the connection, the microphone, a timer or
/// the menu.
pub enum UiEvent {
    FnDown,
    FnUp,
    FnChord,
    MonitorFailed,
    /// Loudness for the waveform, as the bits of a 32-bit float; it is only passed on.
    Level(u32),
    ConnChanged(bool, String),
    ConnRefreshing(String),
    Stt(SttEvent),
    WsError(String),
    AudioError(String),
    FinalizeTimeout(u64),
    Hide(u64),
    Tick,
    MenuReconnect,
    MenuImportKey,
    MenuAutoSubmit(bool),
    MenuTerminalSubmit(bool),
}

/// A [`UiEvent`] by its contents.
pub enum Ui {
    FnDown,
    FnUp,
    FnChord,
    MonitorFailed,
    Level(u32),
    ConnChanged(bool, Seq<char>),
    ConnRefreshing(Seq<char>),
    Stt(SttEvent),
    WsError(Seq<char>),
    AudioError(Seq<char>),
    FinalizeTimeout(u64),
    Hide(u64),
    Tick,
    MenuReconnect,
    MenuImportKey,
    MenuAutoSubmit(bool),
    MenuTerminalSubmit(bool),
}

impl View for UiEvent {
    type V = Ui;

    open spec fn view(&self) -> Ui {
        match self {
            UiEvent::FnDown => Ui::FnDown,
            UiEvent::FnUp => Ui::FnUp,
            UiEvent::FnChord => Ui::FnChord,
            UiEvent::MonitorFailed => Ui::MonitorFailed,
            UiEvent::Level(bits) => Ui::Level(*bits),
            UiEvent::ConnChanged(up, label) => Ui::ConnChanged(*up, label@),
            UiEvent::ConnRefreshing(label) => Ui::ConnRefreshing(label@),
            UiEvent::Stt(event) => Ui::Stt(*event),
            UiEvent::WsError(message) => Ui::WsError(message@),
            UiEvent::AudioError(message) => Ui::AudioError(message@),
            UiEvent::FinalizeTimeout(session) => Ui::FinalizeTimeout(*session),
            UiEvent::Hide(generation) => Ui::Hide(*generation),
            UiEvent::Tick => Ui::Tick,
            UiEvent::MenuReconnect => Ui::MenuReconnect,
            UiEvent::MenuImportKey => Ui::MenuImportKey,
            UiEvent::MenuAutoSubmit(checked) => Ui::MenuAutoSubmit(*checked),
            UiEvent::MenuTerminalSubmit(checked) => Ui::MenuTerminalSubmit(*checked),
        }
    }
}

} // verus!
