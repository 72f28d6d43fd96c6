use vstd::prelude::*;
use crate::error::CaptureError;

verus! {

/// Time between two polls of a capture channel that had no frame ready: one
/// frame at 60 Hz, in microseconds.
pub const POLL_INTERVAL_MICROS: u64 = 16_667;

/// What one poll of a display's capture channel gave.
#[derive(Clone, Debug)]
pub enum PollOutcome {
    /// A complete raw frame.
    Frame(Vec<u8>),
    /// No frame yet; worth polling again.
    NotReady,
    /// The channel failed for good.
    Failed,
}

/// What the caller is to do after a poll.
#[derive(Clone, Debug)]
pub enum AcquireAction {
    /// Wait `POLL_INTERVAL_MICROS`, then poll again.
    WaitAndPoll,
    /// The frame is acquired.
    Deliver(Vec<u8>),
    /// Give up on the whole capture.
    Abort(CaptureError),
}

/// The retry state of one frame acquisition.
#[derive(Clone, Copy, Debug, PartialEq, Eq, Structural)]
pub struct Acquisition {
    /// Polls made so far (saturating).
    pub attempts: u64,
    /// Optional limit on polls; without one, "not ready" is retried forever.
    pub max_attempts: Option<u64>,
}

/// The decision taken on a poll's outcome, and the state after it.
pub open spec fn acquisition_step(s: Acquisition, o: PollOutcome) -> (Acquisition, AcquireAction) {
    let n: u64 = if s.attempts < u64::MAX { (s.attempts + 1) as u64 } else { s.attempts };
    let s2 = Acquisition { attempts: n, max_attempts: s.max_attempts };
    match o {
        PollOutcome::Frame(b) => (s2, AcquireAction::Deliver(b)),
        PollOutcome::Failed => (s2, AcquireAction::Abort(CaptureError::AcquisitionFailure)),
        PollOutcome::NotReady => {
            if s.max_attempts matches Some(m) && n >= m {
                (s2, AcquireAction::Abort(CaptureError::AcquisitionFailure))
            } else {
                (s2, AcquireAction::WaitAndPoll)
            }
        },
    }
}

/// Feeds successive poll outcomes to the acquisition, stopping at the first
/// decision other than waiting: the number of polls made and the final
/// decision (waiting, if the outcomes ran out first).
pub open spec fn run_polls(s: Acquisition, outcomes: Seq<PollOutcome>) -> (nat, AcquireAction)
    decreases outcomes.len(),
{
    if outcomes.len() == 0 {
        (0, AcquireAction::WaitAndPoll)
    } else {
        let (s2, a) = acquisition_step(s, outcomes[0]);
        if a is WaitAndPoll {
            let (n, last) = run_polls(s2, outcomes.drop_first());
            (n + 1, last)
        } else {
            (1, a)
        }
    }
}

impl Acquisition {
    /// A fresh acquisition, with an optional limit on polls.
    pub fn new(max_attempts: Option<u64>) -> (r: Acquisition)
        ensures
            r.attempts == 0,
            r.max_attempts == max_attempts,
    {
        Acquisition { attempts: 0, max_attempts }
    }

    /// Decides what follows one poll: a frame is delivered, a failure aborts
    /// the capture, and "not ready" is retried unless the poll limit is
    /// reached.
    pub fn on_poll(&mut self, outcome: PollOutcome) -> (r: AcquireAction)
        ensures
            (*final(self), r) == acquisition_step(*old(self), outcome),
    {
        if self.attempts < u64::MAX {
            self.attempts = self.attempts + 1;
        }
        match outcome {
            PollOutcome::Frame(b) => AcquireAction::Deliver(b),
            PollOutcome::Failed => AcquireAction::Abort(CaptureError::AcquisitionFailure),
            PollOutcome::NotReady => {
                match self.max_attempts {
                    Some(m) => {
                        if self.attempts >= m {
                            AcquireAction::Abort(CaptureError::AcquisitionFailure)
                        } else {
                            AcquireAction::WaitAndPoll
                        }
                    },
                    None => AcquireAction::WaitAndPoll,
                }
            },
        }
    }
}

/// Without a poll limit, a channel that is not ready `n` times and then
/// yields a frame is polled exactly `n + 1` times, and that frame is what is
/// delivered, whatever the channel would have answered afterwards.
pub proof fn law_not_ready_is_retried(s: Acquisition, n: nat, frame: Vec<u8>, rest: Seq<PollOutcome>)
    requires
        s.max_attempts is None,
    ensures
        run_polls(
            s,
            Seq::new(n, |i: int| PollOutcome::NotReady).push(PollOutcome::Frame(frame)) + rest,
        ) == (n + 1, AcquireAction::Deliver(frame)),
    decreases n,
{
    let outcomes = Seq::new(n, |i: int| PollOutcome::NotReady).push(PollOutcome::Frame(frame)) + rest;
    if n > 0 {
        let (s2, a) = acquisition_step(s, outcomes[0]);
        assert(outcomes[0] == PollOutcome::NotReady);
        let m = (n - 1) as nat;
        assert(outcomes.drop_first() =~= Seq::new(m, |i: int| PollOutcome::NotReady).push(
            PollOutcome::Frame(frame),
        ) + rest);
        law_not_ready_is_retried(s2, m, frame, rest);
    } else {
        assert(outcomes[0] == PollOutcome::Frame(frame));
    }
}

/// A channel that fails on its first poll aborts the capture after that one
/// poll.
pub proof fn law_failure_aborts_at_once(s: Acquisition, outcomes: Seq<PollOutcome>)
    requires
        outcomes.len() > 0,
        outcomes[0] is Failed,
    ensures
        run_polls(s, outcomes) == (1nat, AcquireAction::Abort(CaptureError::AcquisitionFailure)),
{
}

} // verus!
