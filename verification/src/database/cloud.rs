//! The rule that brackets every write: probe the remote copy, pull it, write
//! locally, push the result. The rule is a state machine; the shell performs
//! what each phase asks for and reports how it went.

use vstd::prelude::*;
use crate::database::schema::StoreError;

verus! {

/// Why a transfer from or to the remote copy failed.
#[derive(Clone, Copy, Debug, PartialEq, Eq, Structural)]
pub enum SyncError {
    /// The remote copy could not be reached.
    Unreachable,
    /// The transfer began and did not complete.
    TransferFailed,
    /// What arrived is no copy of the store.
    CorruptPayload,
}

/// How a write use-case ended.
#[derive(Clone, Copy, Debug, PartialEq, Eq)]
pub enum Outcome {
    /// The remote copy was out of reach: nothing was tried. No failure.
    Offline,
    /// The pull failed: nothing was written.
    PullFailed(SyncError),
    /// The user gave up: nothing was written, so nothing was pushed.
    Unchanged,
    /// The store refused the write: nothing was pushed.
    WriteFailed(StoreError),
    /// The write is in the local replica and in the remote copy.
    Synced,
    /// The write is in the local replica only: the push failed.
    PushFailed(SyncError),
}

/// Where a write use-case stands; all but `Done` say what the shell must do
/// next.
#[derive(Clone, Copy, Debug, PartialEq, Eq)]
pub enum Phase {
    /// Find out whether the remote copy can be reached.
    Probing,
    /// Replace the local replica by the remote copy.
    Pulling,
    /// Run the use-case on the local replica.
    Writing,
    /// Replace the remote copy by the local replica.
    Pushing,
    /// Nothing more.
    Done(Outcome),
}

/// What the shell reports after doing what a phase asked for.
#[derive(Clone, Copy, Debug, PartialEq, Eq)]
pub enum Event {
    /// Whether the remote copy can be reached.
    Probed(bool),
    /// How the pull went.
    Pulled(Result<(), SyncError>),
    /// How the use-case went: whether it wrote anything, or why it failed.
    Wrote(Result<bool, StoreError>),
    /// How the push went.
    Pushed(Result<(), SyncError>),
}

/// The sixteen bytes that every copy of the store begins with: the words
/// `SQLite format 3` and a zero byte.
pub open spec fn header() -> Seq<u8> {
    seq![
        0x53u8, 0x51u8, 0x4cu8, 0x69u8, 0x74u8, 0x65u8, 0x20u8, 0x66u8, 0x6fu8, 0x72u8, 0x6du8,
        0x61u8, 0x74u8, 0x20u8, 0x33u8, 0x00u8,
    ]
}

/// Whether bytes begin as a copy of the store does.
pub open spec fn begins_as_store(bytes: Seq<u8>) -> bool {
    bytes.len() >= 16 && bytes.take(16) == header()
}

/// Judges what a pull brought before it replaces the local replica: bytes
/// that do not begin as a copy of the store does are a corrupt payload.
pub fn payload(bytes: &Vec<u8>) -> (r: Result<(), SyncError>)
    ensures
        begins_as_store(bytes@) ==> r is Ok,
        !begins_as_store(bytes@) ==> r == Err::<(), SyncError>(SyncError::CorruptPayload),
{
    let expected: [u8; 16] = [
        0x53, 0x51, 0x4c, 0x69, 0x74, 0x65, 0x20, 0x66, 0x6f, 0x72, 0x6d, 0x61, 0x74, 0x20, 0x33,
        0x00,
    ];
    assert(expected@ =~= header());
    if bytes.len() < 16 {
        return Err(SyncError::CorruptPayload);
    }
    let mut i: usize = 0;
    while i < 16
        invariant
            i <= 16 <= bytes.len(),
            expected@ == header(),
            forall|k: int| 0 <= k < i ==> bytes@[k] == header()[k],
        decreases 16 - i,
    {
        if bytes[i] != expected[i] {
            assert(bytes@.take(16)[i as int] != header()[i as int]);
            return Err(SyncError::CorruptPayload);
        }
        i += 1;
    }
    assert(bytes@.take(16) =~= header());
    Ok(())
}

impl Phase {
    /// The phase that follows on an event. An event that answers another
    /// phase than this one changes nothing.
    pub open spec fn after(self, event: Event) -> Phase {
        match (self, event) {
            (Phase::Probing, Event::Probed(true)) => Phase::Pulling,
            (Phase::Probing, Event::Probed(false)) => Phase::Done(Outcome::Offline),
            (Phase::Pulling, Event::Pulled(Ok(()))) => Phase::Writing,
            (Phase::Pulling, Event::Pulled(Err(e))) => Phase::Done(Outcome::PullFailed(e)),
            (Phase::Writing, Event::Wrote(Ok(true))) => Phase::Pushing,
            (Phase::Writing, Event::Wrote(Ok(false))) => Phase::Done(Outcome::Unchanged),
            (Phase::Writing, Event::Wrote(Err(e))) => Phase::Done(Outcome::WriteFailed(e)),
            (Phase::Pushing, Event::Pushed(Ok(()))) => Phase::Done(Outcome::Synced),
            (Phase::Pushing, Event::Pushed(Err(e))) => Phase::Done(Outcome::PushFailed(e)),
            _ => self,
        }
    }

    /// The phase in which every write use-case begins.
    pub fn start() -> (phase: Phase)
        ensures
            phase == Phase::Probing,
    {
        Phase::Probing
    }

    /// Moves on by one event.
    pub fn on(self, event: Event) -> (next: Phase)
        ensures
            next == self.after(event),
    {
        match (self, event) {
            (Phase::Probing, Event::Probed(reachable)) => if reachable {
                Phase::Pulling
            } else {
                Phase::Done(Outcome::Offline)
            },
            (Phase::Pulling, Event::Pulled(Ok(()))) => Phase::Writing,
            (Phase::Pulling, Event::Pulled(Err(e))) => Phase::Done(Outcome::PullFailed(e)),
            (Phase::Writing, Event::Wrote(Ok(changed))) => if changed {
                Phase::Pushing
            } else {
                Phase::Done(Outcome::Unchanged)
            },
            (Phase::Writing, Event::Wrote(Err(e))) => Phase::Done(Outcome::WriteFailed(e)),
            (Phase::Pushing, Event::Pushed(Ok(()))) => Phase::Done(Outcome::Synced),
            (Phase::Pushing, Event::Pushed(Err(e))) => Phase::Done(Outcome::PushFailed(e)),
            (phase, _) => phase,
        }
    }
}

impl Outcome {
    /// Whether the local replica holds the write.
    pub open spec fn spec_wrote(self) -> bool {
        self is Synced || self is PushFailed
    }

    /// Whether the local replica holds the write.
    #[verifier::when_used_as_spec(spec_wrote)]
    pub fn wrote(self) -> (b: bool)
        ensures
            b == self.spec_wrote(),
    {
        match self {
            Outcome::Synced => true,
            Outcome::PushFailed(_) => true,
            _ => false,
        }
    }

    /// Whether the outcome is a failure to report. Being offline is none.
    pub open spec fn spec_failed(self) -> bool {
        self is PullFailed || self is WriteFailed || self is PushFailed
    }

    /// Whether the outcome is a failure to report. Being offline is none.
    #[verifier::when_used_as_spec(spec_failed)]
    pub fn failed(self) -> (b: bool)
        ensures
            b == self.spec_failed(),
    {
        match self {
            Outcome::PullFailed(_) => true,
            Outcome::WriteFailed(_) => true,
            Outcome::PushFailed(_) => true,
            _ => false,
        }
    }
}

/// The phase reached from the start by a list of events.
pub open spec fn run(events: Seq<Event>) -> Phase
    decreases events.len(),
{
    if events.len() == 0 {
        Phase::Probing
    } else {
        run(events.drop_last()).after(events.last())
    }
}

/// Once a use-case is done, no event moves it.
pub proof fn done_stays_done(outcome: Outcome, event: Event)
    ensures
        Phase::Done(outcome).after(event) == Phase::Done(outcome),
{
}

/// Where the probe finds the remote copy out of reach, the use-case is over:
/// whatever is reported after that, no pull, no write and no push is asked
/// for.
pub proof fn offline_ends_at_once(events: Seq<Event>)
    requires
        events.len() > 0,
        events[0] == Event::Probed(false),
    ensures
        run(events) == Phase::Done(Outcome::Offline),
    decreases events.len(),
{
    if events.len() > 1 {
        offline_ends_at_once(events.drop_last());
    } else {
        assert(run(events.drop_last()) == Phase::Probing);
    }
}

/// What has happened by the time a phase is reached: a pull is asked for
/// only after the probe found the remote copy in reach, a write only after
/// the pull succeeded, a push only after the use-case wrote something; and an
/// outcome comes only from the report that it names.
pub open spec fn accounted(events: Seq<Event>, phase: Phase) -> bool {
    let probed = events.contains(Event::Probed(true));
    let pulled = probed && events.contains(Event::Pulled(Ok(())));
    let wrote = pulled && events.contains(Event::Wrote(Ok(true)));
    match phase {
        Phase::Probing => true,
        Phase::Pulling => probed,
        Phase::Writing => pulled,
        Phase::Pushing => wrote,
        Phase::Done(Outcome::Offline) => events.contains(Event::Probed(false)),
        Phase::Done(Outcome::PullFailed(e)) => probed && events.contains(Event::Pulled(Err(e))),
        Phase::Done(Outcome::Unchanged) => pulled && events.contains(Event::Wrote(Ok(false))),
        Phase::Done(Outcome::WriteFailed(e)) => pulled && events.contains(Event::Wrote(Err(e))),
        Phase::Done(Outcome::Synced) => wrote && events.contains(Event::Pushed(Ok(()))),
        Phase::Done(Outcome::PushFailed(e)) => wrote && events.contains(Event::Pushed(Err(e))),
    }
}

/// Every phase that a list of events leads to is accounted for by the events.
pub proof fn phases_come_in_order(events: Seq<Event>)
    ensures
        accounted(events, run(events)),
    decreases events.len(),
{
    if events.len() > 0 {
        let before = events.drop_last();
        phases_come_in_order(before);
        assert forall|e: Event| before.contains(e) implies events.contains(e) by {
            let i = before.index_of(e);
            assert(events[i] == e);
        }
        assert(events.contains(events.last())) by {
            assert(events[events.len() - 1] == events.last());
        }
        let prev = run(before);
        let last = events.last();
        assert(run(events) == prev.after(last));
        match last {
            Event::Pulled(Ok(done)) => {
                assert(done == ());
                assert(last == Event::Pulled(Ok(())));
            },
            Event::Pushed(Ok(done)) => {
                assert(done == ());
                assert(last == Event::Pushed(Ok(())));
            },
            _ => {},
        }
    }
}

} // verus!
