//! The refresh schedule: start-up, then one refresh cycle per timer tick, for
//! as long as the host process lives.
//!
//! A `Scheduler` names the one operation that is in flight. The host performs
//! it and reports an `Event`; `run` answers with the operation that follows.

use crate::digest::{digests_differ, is_digest_different};
use crate::download::{download_file, DownloadError, Outcome, Progress, Transfer};
use vstd::prelude::*;

verus! {

/// The steps of start-up.
#[derive(Clone, Copy, Debug, PartialEq, Eq, Structural)]
pub enum Startup {
    /// Make sure that the cache directory exists.
    CreatingDir,
    /// Load whatever artifact is already cached and publish it if it parses.
    Publishing,
}

/// The steps of one refresh cycle.
#[derive(Clone, Copy, Debug, PartialEq, Eq, Structural)]
pub enum Cycle {
    /// No cycle is in flight: wait for the next tick of the timer.
    Waiting,
    /// Fetch the remote digest text and compute the digest of the cached file.
    Comparing,
    /// Fetch the artifact; the transfer names the operation in flight.
    Downloading(Transfer),
    /// Load the artifact that was just fetched and publish it if it parses.
    Publishing,
}

/// The schedule as a whole.
#[derive(Clone, Copy, Debug, PartialEq, Eq, Structural)]
pub enum Scheduler {
    /// Start-up is under way.
    Initializing(Startup),
    /// Start-up is done and cycles follow the timer.
    Running(Cycle),
    /// The cache directory could not be created: nothing more will be done.
    Halted,
}

/// What the host reports once the operation in flight has ended.
#[derive(Clone, Debug)]
pub enum Event {
    /// The cache directory exists.
    DirCreated,
    /// The cache directory could not be created.
    DirFailed,
    /// The publisher returned, whether it published the artifact or kept what
    /// was published before.
    PublishDone,
    /// The timer ticked.
    Tick,
    /// The digest endpoint answered with `remote_text`; `local_digest` is the
    /// digest of the cached file, or `None` where it is missing or unreadable.
    Compared { local_digest: Option<String>, remote_text: String },
    /// The digest endpoint could not be reached or its answer could not be read.
    CompareFailed,
    /// An operation of the transfer in flight ended.
    Transfer(Outcome),
}

impl Cycle {
    /// The count of a transfer in flight never exceeds its declared total.
    pub open spec fn wf(self) -> bool {
        match self {
            Cycle::Downloading(transfer) => transfer.wf(),
            _ => true,
        }
    }

    /// The step that follows once `event` is taken in. An event that does not
    /// answer the operation in flight changes nothing.
    pub open spec fn after(self, event: Event) -> Cycle {
        match (self, event) {
            (Cycle::Comparing, Event::CompareFailed) => Cycle::Waiting,
            (Cycle::Comparing, Event::Compared { local_digest, remote_text }) => {
                if digests_differ(local_digest.deep_view(), remote_text@) {
                    Cycle::Downloading(Transfer::Requesting)
                } else {
                    Cycle::Waiting
                }
            },
            (Cycle::Downloading(transfer), Event::Transfer(outcome)) => {
                match transfer.advance(outcome) {
                    Progress::Pending(next) => Cycle::Downloading(next),
                    Progress::Complete { .. } => Cycle::Publishing,
                    Progress::Failed(_) => Cycle::Waiting,
                }
            },
            (Cycle::Publishing, Event::PublishDone) => Cycle::Waiting,
            _ => self,
        }
    }

    /// The error of the download that `event` ends, if it ends one.
    pub open spec fn abandoned(self, event: Event) -> Option<DownloadError> {
        match (self, event) {
            (Cycle::Downloading(transfer), Event::Transfer(outcome)) => {
                match transfer.advance(outcome) {
                    Progress::Failed(error) => Some(error),
                    _ => None,
                }
            },
            _ => None,
        }
    }
}

impl Scheduler {
    /// The count of a transfer in flight never exceeds its declared total.
    pub open spec fn wf(self) -> bool {
        match self {
            Scheduler::Running(cycle) => cycle.wf(),
            _ => true,
        }
    }

    /// The step that follows once `event` is taken in. An event that does not
    /// answer the operation in flight changes nothing.
    pub open spec fn after(self, event: Event) -> Scheduler {
        match (self, event) {
            (Scheduler::Initializing(Startup::CreatingDir), Event::DirCreated) => {
                Scheduler::Initializing(Startup::Publishing)
            },
            (Scheduler::Initializing(Startup::CreatingDir), Event::DirFailed) => Scheduler::Halted,
            (Scheduler::Initializing(Startup::Publishing), Event::PublishDone) => {
                Scheduler::Running(Cycle::Waiting)
            },
            (Scheduler::Running(Cycle::Waiting), Event::Tick) => Scheduler::Running(
                Cycle::Comparing,
            ),
            (Scheduler::Running(cycle), _) => Scheduler::Running(cycle.after(event)),
            _ => self,
        }
    }

    /// The error of the download that `event` ends, if it ends one.
    pub open spec fn abandoned(self, event: Event) -> Option<DownloadError> {
        match self {
            Scheduler::Running(cycle) => cycle.abandoned(event),
            _ => None,
        }
    }

    /// The schedule after the events of `events` were taken in, one after the
    /// other.
    pub open spec fn replay(self, events: Seq<Event>) -> Scheduler
        decreases events.len(),
    {
        if events.len() == 0 {
            self
        } else {
            self.after(events[0]).replay(events.drop_first())
        }
    }

    /// The schedule before anything was done.
    pub fn new() -> (scheduler: Scheduler)
        ensures
            scheduler == Scheduler::Initializing(Startup::CreatingDir),
            scheduler.wf(),
    {
        Scheduler::Initializing(Startup::CreatingDir)
    }
}

/// Takes an event into the refresh cycle in flight.
///
/// A comparison that fails, or that finds the digests equal, ends the cycle
/// without a fetch. One that finds them different starts the transfer. A
/// transfer that fails ends the cycle, and its error is handed back beside the
/// next step; one that completes is followed by publishing, after which the
/// cycle is over. With no cycle in flight nothing changes.
pub fn run_download_files(cycle: Cycle, event: Event) -> (step: (Cycle, Option<DownloadError>))
    ensures
        step.0 == cycle.after(event),
        step.1 == cycle.abandoned(event),
        cycle.wf() ==> step.0.wf(),
{
    match cycle {
        Cycle::Waiting => (cycle, None),
        Cycle::Comparing => match event {
            Event::CompareFailed => (Cycle::Waiting, None),
            Event::Compared { local_digest, remote_text } => {
                let local: Option<&str> = match &local_digest {
                    Some(digest) => Some(digest.as_str()),
                    None => None,
                };
                if is_digest_different(local, remote_text.as_str()) {
                    (Cycle::Downloading(Transfer::Requesting), None)
                } else {
                    (Cycle::Waiting, None)
                }
            },
            _ => (cycle, None),
        },
        Cycle::Downloading(transfer) => match event {
            Event::Transfer(outcome) => match download_file(transfer, outcome) {
                Progress::Pending(next) => (Cycle::Downloading(next), None),
                Progress::Complete { .. } => (Cycle::Publishing, None),
                Progress::Failed(error) => (Cycle::Waiting, Some(error)),
            },
            _ => (cycle, None),
        },
        Cycle::Publishing => match event {
            Event::PublishDone => (Cycle::Waiting, None),
            _ => (cycle, None),
        },
    }
}

/// Takes an event into the schedule.
///
/// Start-up creates the cache directory, which is the one failure that halts
/// the schedule, and then publishes whatever artifact is cached already. From
/// then on the schedule is running and stays so: each tick that finds no cycle
/// in flight starts one, and every other event goes to the cycle in flight.
pub fn run(scheduler: Scheduler, event: Event) -> (step: (Scheduler, Option<DownloadError>))
    ensures
        step.0 == scheduler.after(event),
        step.1 == scheduler.abandoned(event),
        scheduler.wf() ==> step.0.wf(),
        scheduler is Running ==> step.0 is Running,
{
    match scheduler {
        Scheduler::Initializing(Startup::CreatingDir) => match event {
            Event::DirCreated => (Scheduler::Initializing(Startup::Publishing), None),
            Event::DirFailed => (Scheduler::Halted, None),
            _ => (scheduler, None),
        },
        Scheduler::Initializing(Startup::Publishing) => match event {
            Event::PublishDone => (Scheduler::Running(Cycle::Waiting), None),
            _ => (scheduler, None),
        },
        Scheduler::Running(cycle) => {
            if matches!(cycle, Cycle::Waiting) && matches!(event, Event::Tick) {
                (Scheduler::Running(Cycle::Comparing), None)
            } else {
                let (next, failure) = run_download_files(cycle, event);
                (Scheduler::Running(next), failure)
            }
        },
        Scheduler::Halted => (scheduler, None),
    }
}

/// Once start-up is done the schedule runs for good: no sequence of events
/// halts it or takes it back to start-up, and the count of a transfer in
/// flight stays within its declared total.
pub proof fn lemma_running_never_ends(cycle: Cycle, events: Seq<Event>)
    ensures
        Scheduler::Running(cycle).replay(events) is Running,
        cycle.wf() ==> Scheduler::Running(cycle).replay(events).wf(),
    decreases events.len(),
{
    if events.len() > 0 {
        let next = Scheduler::Running(cycle).after(events[0]);
        assert(next is Running);
        lemma_running_never_ends(next->Running_0, events.drop_first());
    }
}

/// The schedule halts only where the cache directory cannot be created.
pub proof fn lemma_halts_only_without_cache_dir(start: Scheduler, events: Seq<Event>)
    requires
        start !is Halted,
        forall|i: int| 0 <= i < events.len() ==> !(#[trigger] events[i] is DirFailed),
    ensures
        start.replay(events) !is Halted,
    decreases events.len(),
{
    if events.len() > 0 {
        assert(!(events[0] is DirFailed));
        let rest = events.drop_first();
        assert forall|i: int| 0 <= i < rest.len() implies !(#[trigger] rest[i] is DirFailed) by {
            assert(rest[i] == events[i + 1]);
        }
        lemma_halts_only_without_cache_dir(start.after(events[0]), rest);
    }
}

} // verus!
