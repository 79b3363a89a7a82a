//! The Globe/Fn key: presses, releases, chords, and the watchdog for missed releases.

use vstd::prelude::*;

use crate::events::UiEvent;

verus! {

/// The bit of the Fn key among the modifier flags.
pub const SECONDARY_FN_MASK: u64 = 0x0080_0000;

/// Whether the Fn key is down, by the modifier flags of the hardware.
pub fn fn_key_physically_down(flags: u64) -> (r: bool)
    ensures
        r == (flags & SECONDARY_FN_MASK != 0),
{
    flags & SECONDARY_FN_MASK != 0
}

/// What the monitor learns of the key.
pub enum Seen {
    /// The modifier flags changed.
    Flags(bool),
    /// The watchdog polled the hardware.
    Hardware(bool),
}

/// Whether the key is taken to be down afterwards.
pub open spec fn after_seen(down: bool, seen: Seen) -> bool {
    match seen {
        Seen::Flags(now) => now,
        Seen::Hardware(now) => down && now,
    }
}

/// The event for a key that was taken to be down as `was` says and now is as `now` says: only
/// a change is an event.
pub open spec fn report(was: bool, now: bool) -> Option<UiEvent> {
    if now == was {
        None
    } else if now {
        Some(UiEvent::FnDown)
    } else {
        Some(UiEvent::FnUp)
    }
}

/// What is known of the Fn key.
pub struct FnMonitor {
    pub down: bool,
}

impl FnMonitor {
    /// The key is taken to be up at first.
    pub fn new() -> (r: Self)
        ensures
            !r.down,
    {
        FnMonitor { down: false }
    }

    /// The modifier flags changed; `down` says whether Fn is among them. Only a change of the
    /// Fn key itself is an event.
    pub fn flags_changed(&mut self, down: bool) -> (r: Option<UiEvent>)
        ensures
            final(self).down == after_seen(old(self).down, Seen::Flags(down)),
            r == report(old(self).down, final(self).down),
    {
        let was = self.down;
        self.down = down;
        if down == was {
            None
        } else if down {
            Some(UiEvent::FnDown)
        } else {
            Some(UiEvent::FnUp)
        }
    }

    /// Another key went down: a chord if Fn is held.
    pub fn key_down(&self) -> (r: Option<UiEvent>)
        ensures
            r == if self.down {
                Some(UiEvent::FnChord)
            } else {
                None
            },
    {
        if self.down {
            Some(UiEvent::FnChord)
        } else {
            None
        }
    }

    /// The watchdog polled the hardware: a release that was missed is made up for.
    pub fn watchdog(&mut self, physically_down: bool) -> (r: Option<UiEvent>)
        ensures
            final(self).down == after_seen(old(self).down, Seen::Hardware(physically_down)),
            r == report(old(self).down, final(self).down),
    {
        if self.down && !physically_down {
            self.down = false;
            Some(UiEvent::FnUp)
        } else {
            None
        }
    }
}

// ---- Laws ----

/// The events reported while `seen` is learned, one after the other.
pub open spec fn reported(down: bool, seen: Seq<Seen>) -> Seq<UiEvent>
    decreases seen.len(),
{
    if seen.len() == 0 {
        Seq::empty()
    } else {
        let now = after_seen(down, seen[0]);
        let rest = reported(now, seen.drop_first());
        match report(down, now) {
            Some(event) => seq![event] + rest,
            None => rest,
        }
    }
}

/// Presses and releases alternate, beginning with a press of a key that is up, whichever
/// releases are seen late or twice.
pub proof fn law_presses_and_releases_alternate(down: bool, seen: Seq<Seen>)
    ensures
        forall|i: int|
            0 <= i < reported(down, seen).len() ==> #[trigger] reported(down, seen)[i] == if (i % 2
                == 0) != down {
                UiEvent::FnDown
            } else {
                UiEvent::FnUp
            },
    decreases seen.len(),
{
    if seen.len() > 0 {
        let now = after_seen(down, seen[0]);
        let rest = reported(now, seen.drop_first());
        law_presses_and_releases_alternate(now, seen.drop_first());
        if now != down {
            assert forall|i: int| 0 <= i < reported(down, seen).len() implies
            #[trigger] reported(down, seen)[i] == if (i % 2 == 0) != down {
                UiEvent::FnDown
            } else {
                UiEvent::FnUp
            } by {
                if i > 0 {
                    assert(reported(down, seen)[i] == rest[i - 1]);
                }
            }
        }
    }
}

/// A release that the event tap missed is made up for by the watchdog, once.
pub proof fn law_a_missed_release_is_made_up_for()
    ensures
        report(true, after_seen(true, Seen::Hardware(false))) == Some(UiEvent::FnUp),
        report(
            after_seen(true, Seen::Hardware(false)),
            after_seen(after_seen(true, Seen::Hardware(false)), Seen::Hardware(false)),
        ) is None,
{
}

/// The modifier flags say whether the key is down; the hardware can only say that it is not.
/// Every change is reported as what it is, and nothing else is.
pub proof fn law_every_change_is_reported(was: bool, now: bool)
    ensures
        after_seen(was, Seen::Flags(now)) == now,
        after_seen(was, Seen::Hardware(now)) == (was && now),
        report(was, now) == match (was, now) {
            (false, true) => Some(UiEvent::FnDown),
            (true, false) => Some(UiEvent::FnUp),
            _ => None,
        },
{
}

/// The Fn key has one bit among the modifier flags, whatever the others are.
pub proof fn law_the_fn_key_has_one_bit(flags: u64)
    ensures
        (flags & SECONDARY_FN_MASK != 0) == ((flags / 0x80_0000) % 2 == 1),
{
    assert((flags & 0x0080_0000 != 0) == ((flags / 0x80_0000) % 2 == 1)) by (bit_vector);
}

} // verus!
