//! When to scan the storage again: every change of the storage asks for a
//! scan, one scan runs at a time, and what is asked for while a scan runs is
//! answered by a single scan after it.

use vstd::prelude::*;

verus! {

/// Where the watcher stands.
#[derive(Clone, Copy, Debug, PartialEq, Eq, Structural)]
pub enum Watch {
    /// No scan runs, none is asked for.
    Idle,
    /// A scan runs.
    Scanning,
    /// A scan runs, and the storage has changed since it began.
    ScanningStale,
}

/// What the watcher hears of.
#[derive(Clone, Copy, Debug, PartialEq, Eq, Structural)]
pub enum Event {
    /// The storage has changed: a file was made, changed, removed or
    /// renamed.
    Changed,
    /// The scan that ran has ended, however it went.
    ScanEnded,
}

/// What the caller is to do.
#[derive(Clone, Copy, Debug, PartialEq, Eq, Structural)]
pub enum Action {
    /// Nothing.
    Wait,
    /// Begin a scan, and report its end.
    Scan,
}

/// The state after an event.
pub open spec fn next_state(state: Watch, event: Event) -> Watch {
    match (state, event) {
        (Watch::Idle, Event::Changed) => Watch::Scanning,
        (Watch::Scanning, Event::Changed) => Watch::ScanningStale,
        (Watch::ScanningStale, Event::Changed) => Watch::ScanningStale,
        (Watch::Idle, Event::ScanEnded) => Watch::Idle,
        (Watch::Scanning, Event::ScanEnded) => Watch::Idle,
        (Watch::ScanningStale, Event::ScanEnded) => Watch::Scanning,
    }
}

/// What to do on an event: a scan begins on a change while none runs, and
/// at the end of a scan during which the storage changed.
pub open spec fn action_on(state: Watch, event: Event) -> Action {
    match (state, event) {
        (Watch::Idle, Event::Changed) => Action::Scan,
        (Watch::ScanningStale, Event::ScanEnded) => Action::Scan,
        _ => Action::Wait,
    }
}

/// The number of scans that run in a state.
pub open spec fn running(state: Watch) -> nat {
    match state {
        Watch::Idle => 0,
        _ => 1,
    }
}

/// The state after a run of events, begun in `state`.
pub open spec fn state_after(state: Watch, events: Seq<Event>) -> Watch
    decreases events.len(),
{
    if events.len() == 0 {
        state
    } else {
        next_state(state_after(state, events.drop_last()), events.last())
    }
}

/// The number of scans begun in a run of events.
pub open spec fn scans_begun(state: Watch, events: Seq<Event>) -> nat
    decreases events.len(),
{
    if events.len() == 0 {
        0
    } else {
        let before = state_after(state, events.drop_last());
        scans_begun(state, events.drop_last()) + if action_on(before, events.last())
            == Action::Scan {
            1nat
        } else {
            0nat
        }
    }
}

/// The number of scans whose end was reported while one ran.
pub open spec fn scans_ended(state: Watch, events: Seq<Event>) -> nat
    decreases events.len(),
{
    if events.len() == 0 {
        0
    } else {
        let before = state_after(state, events.drop_last());
        scans_ended(state, events.drop_last()) + if events.last() == Event::ScanEnded
            && before != Watch::Idle {
            1nat
        } else {
            0nat
        }
    }
}

/// The watcher of a storage.
#[derive(Debug)]
pub struct Watcher {
    state: Watch,
}

impl View for Watcher {
    type V = Watch;

    closed spec fn view(&self) -> Watch {
        self.state
    }
}

impl Watcher {
    /// A watcher at rest.
    pub fn new() -> (watcher: Watcher)
        ensures
            watcher@ == Watch::Idle,
    {
        Watcher { state: Watch::Idle }
    }

    /// Where the watcher stands.
    pub fn state(&self) -> (state: Watch)
        ensures
            state == self@,
    {
        self.state
    }

    /// Takes an event and says what to do.
    pub fn on(&mut self, event: Event) -> (action: Action)
        ensures
            final(self)@ == next_state(old(self)@, event),
            action == action_on(old(self)@, event),
    {
        let (state, action) = match (self.state, event) {
            (Watch::Idle, Event::Changed) => (Watch::Scanning, Action::Scan),
            (Watch::Scanning, Event::Changed) => (Watch::ScanningStale, Action::Wait),
            (Watch::ScanningStale, Event::Changed) => (Watch::ScanningStale, Action::Wait),
            (Watch::Idle, Event::ScanEnded) => (Watch::Idle, Action::Wait),
            (Watch::Scanning, Event::ScanEnded) => (Watch::Idle, Action::Wait),
            (Watch::ScanningStale, Event::ScanEnded) => (Watch::Scanning, Action::Scan),
        };
        self.state = state;
        action
    }
}

/// Whatever happens, at most one scan runs: the scans begun exceed those
/// ended by one while a scan runs, and by none at rest.
pub proof fn lemma_one_scan_at_a_time(events: Seq<Event>)
    ensures
        scans_begun(Watch::Idle, events) == scans_ended(Watch::Idle, events) + running(
            state_after(Watch::Idle, events),
        ),
        scans_begun(Watch::Idle, events) <= scans_ended(Watch::Idle, events) + 1,
    decreases events.len(),
{
    if events.len() > 0 {
        lemma_one_scan_at_a_time(events.drop_last());
    }
}

/// No change goes unanswered: after a change a scan runs that began with it
/// or will be followed by another, and the end of a scan during which the
/// storage changed begins that other scan.
pub proof fn lemma_change_is_answered(state: Watch)
    ensures
        next_state(state, Event::Changed) != Watch::Idle,
        action_on(state, Event::Changed) == Action::Scan || next_state(state, Event::Changed)
            == Watch::ScanningStale,
        action_on(Watch::ScanningStale, Event::ScanEnded) == Action::Scan,
{
}

/// Changes during a scan are answered together: any number of them leaves
/// the watcher where one of them does.
pub proof fn lemma_changes_coalesce(state: Watch)
    requires
        state != Watch::Idle,
    ensures
        next_state(next_state(state, Event::Changed), Event::Changed) == next_state(
            state,
            Event::Changed,
        ),
        action_on(next_state(state, Event::Changed), Event::Changed) == Action::Wait,
{
}

} // verus!
