//! Keeps playback in high quality while a local microphone is open: if the system default input
//! is a Bluetooth headset, the default is pointed elsewhere for as long as capture lasts.

use vstd::prelude::*;

use crate::microphone;
use crate::text;

verus! {

/// Remembers the default input to go back to.
#[derive(PartialEq, Eq, Structural, Debug)]
pub struct DefaultInputGuard {
    pub previous: Option<u32>,
}

impl DefaultInputGuard {
    /// Starts to protect playback while `preferred` is captured from. Where that is itself a
    /// Bluetooth headset there is nothing to protect.
    pub fn protect_playback(preferred: &str) -> (r: (Protection, Ask))
        ensures
            r.0.progress == if microphone::bluetooth_name(preferred@) {
                Progress::Finished
            } else {
                Progress::Starting
            },
            r.1 == if microphone::bluetooth_name(preferred@) {
                Ask::Done(DefaultInputGuard { previous: None })
            } else {
                Ask::DefaultInput
            },
    {
        if microphone::is_bluetooth_input(preferred) {
            (
                Protection { progress: Progress::Finished },
                Ask::Done(DefaultInputGuard { previous: None }),
            )
        } else {
            (Protection { progress: Progress::Starting }, Ask::DefaultInput)
        }
    }

    /// The default input to go back to when capture ends, once.
    pub fn release(&mut self) -> (r: Option<u32>)
        ensures
            r == old(self).previous,
            final(self).previous is None,
    {
        self.previous.take()
    }
}

/// What is to be found out or done next.
#[derive(PartialEq, Eq, Structural, Debug)]
pub enum Ask {
    /// Which device is the default input?
    DefaultInput,
    /// Is this device a Bluetooth device?
    IsBluetooth(u32),
    /// Which device has the preferred name?
    PreferredDevice,
    /// Make this device the default input.
    SetDefaultInput(u32),
    /// Nothing; this guard remembers what to go back to.
    Done(DefaultInputGuard),
}

/// An answer to an [`Ask`].
#[derive(Clone, Copy, PartialEq, Eq, Structural, Debug)]
pub enum Answer {
    DefaultInput(Option<u32>),
    IsBluetooth(bool),
    PreferredDevice(Option<u32>),
    SetDefaultInput(bool),
}

/// How far the protection of playback has come.
#[derive(Clone, Copy, PartialEq, Eq, Structural, Debug)]
pub enum Progress {
    Starting,
    /// The default input is known.
    Known(u32),
    /// The default input is a Bluetooth device.
    Bluetooth(u32),
    /// The default input is being changed from this device.
    Changing(u32),
    Finished,
}

/// What an answer leads to. One that was not asked for ends the attempt.
pub open spec fn next(progress: Progress, answer: Answer) -> (Progress, Ask) {
    match (progress, answer) {
        (Progress::Starting, Answer::DefaultInput(Some(current))) => (
            Progress::Known(current),
            Ask::IsBluetooth(current),
        ),
        (Progress::Known(current), Answer::IsBluetooth(true)) => (
            Progress::Bluetooth(current),
            Ask::PreferredDevice,
        ),
        (Progress::Bluetooth(current), Answer::PreferredDevice(Some(id))) if id != current => (
            Progress::Changing(current),
            Ask::SetDefaultInput(id),
        ),
        (Progress::Changing(current), Answer::SetDefaultInput(true)) => (
            Progress::Finished,
            Ask::Done(DefaultInputGuard { previous: Some(current) }),
        ),
        _ => (Progress::Finished, Ask::Done(DefaultInputGuard { previous: None })),
    }
}

/// One attempt to protect playback.
pub struct Protection {
    pub progress: Progress,
}

impl Protection {
    /// Takes an answer and says what comes next.
    pub fn answer(&mut self, answer: Answer) -> (r: Ask)
        ensures
            (final(self).progress, r) == next(old(self).progress, answer),
    {
        let (progress, ask) = match (self.progress, answer) {
            (Progress::Starting, Answer::DefaultInput(Some(current))) => (
                Progress::Known(current),
                Ask::IsBluetooth(current),
            ),
            (Progress::Known(current), Answer::IsBluetooth(true)) => (
                Progress::Bluetooth(current),
                Ask::PreferredDevice,
            ),
            (Progress::Bluetooth(current), Answer::PreferredDevice(Some(id))) => if id
                != current {
                (Progress::Changing(current), Ask::SetDefaultInput(id))
            } else {
                (Progress::Finished, Ask::Done(DefaultInputGuard { previous: None }))
            },
            (Progress::Changing(current), Answer::SetDefaultInput(true)) => (
                Progress::Finished,
                Ask::Done(DefaultInputGuard { previous: Some(current) }),
            ),
            _ => (Progress::Finished, Ask::Done(DefaultInputGuard { previous: None })),
        };
        self.progress = progress;
        ask
    }
}

/// How a device is connected.
#[derive(Clone, Copy, PartialEq, Eq, Structural, Debug)]
pub enum Transport {
    Bluetooth,
    BluetoothLE,
    Other,
}

/// Whether a device is a Bluetooth device, by its name or how it is connected.
pub fn device_is_bluetooth(name: Option<&str>, transport: Option<Transport>) -> (r: bool)
    ensures
        r == ((name is Some && microphone::bluetooth_name(name->0@)) || transport == Some(
            Transport::Bluetooth,
        ) || transport == Some(Transport::BluetoothLE)),
{
    if let Some(name) = name {
        if microphone::is_bluetooth_input(name) {
            return true;
        }
    }
    match transport {
        Some(Transport::Bluetooth) => true,
        Some(Transport::BluetoothLE) => true,
        _ => false,
    }
}

/// Device `i` has the name `name`.
pub open spec fn has_name(devices: Seq<(u32, Option<String>)>, name: Seq<char>, i: int) -> bool {
    devices[i].1 is Some && devices[i].1->0@ == name
}

/// The first device with the given name. Each device comes with its name, `None` where that
/// cannot be read.
pub fn input_id_by_name(devices: &[(u32, Option<String>)], name: &str) -> (r: Option<u32>)
    ensures
        match r {
            Some(id) => exists|i: int|
                0 <= i < devices@.len() && devices@[i].0 == id && #[trigger] has_name(
                    devices@,
                    name@,
                    i,
                ) && forall|j: int| 0 <= j < i ==> !#[trigger] has_name(devices@, name@, j),
            None => forall|i: int|
                0 <= i < devices@.len() ==> !#[trigger] has_name(devices@, name@, i),
        },
{
    let mut i: usize = 0;
    while i < devices.len()
        invariant
            i <= devices@.len(),
            forall|j: int| 0 <= j < i ==> !#[trigger] has_name(devices@, name@, j),
        decreases devices@.len() - i,
    {
        if let Some(n) = &devices[i].1 {
            if text::same(n.as_str(), name) {
                assert(has_name(devices@, name@, i as int));
                return Some(devices[i].0);
            }
        }
        i = i + 1;
    }
    None
}

// ---- Laws ----

/// The guard remembers a device exactly when the default input was changed away from it; then
/// that device is the Bluetooth default that was found, and the new default another one.
pub proof fn law_only_a_changed_default_is_restored(
    default_input: Option<u32>,
    bluetooth: bool,
    preferred: Option<u32>,
    set: bool,
)
    ensures
        ({
            let a = next(Progress::Starting, Answer::DefaultInput(default_input));
            let b = next(a.0, Answer::IsBluetooth(bluetooth));
            let c = next(b.0, Answer::PreferredDevice(preferred));
            let d = next(c.0, Answer::SetDefaultInput(set));
            let changes = default_input is Some && bluetooth && preferred is Some && preferred
                != default_input && set;
            d.1 == Ask::Done(
                DefaultInputGuard {
                    previous: if changes {
                        default_input
                    } else {
                        None
                    },
                },
            ) && (changes ==> a.1 == Ask::IsBluetooth(default_input->0) && b.1
                == Ask::PreferredDevice && c.1 == Ask::SetDefaultInput(preferred->0))
        }),
{
}

/// An answer to another question than the one that was asked ends the attempt, with nothing to
/// go back to.
pub proof fn law_an_unasked_answer_ends_the_attempt(progress: Progress, answer: Answer)
    requires
        match progress {
            Progress::Starting => !(answer is DefaultInput),
            Progress::Known(_) => !(answer is IsBluetooth),
            Progress::Bluetooth(_) => !(answer is PreferredDevice),
            Progress::Changing(_) => !(answer is SetDefaultInput),
            Progress::Finished => true,
        },
    ensures
        next(progress, answer) == (
            Progress::Finished,
            Ask::Done(DefaultInputGuard { previous: None }),
        ),
{
}

} // verus!
