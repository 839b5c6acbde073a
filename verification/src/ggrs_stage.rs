//! The fixed-timestep driver: when a frame is due and what a tick does.

use crate::frame::Frame;
use crate::scheduling::{frame_after_all, run_of, run_schedules, Request, Run};
use crate::session::{frames_ahead_of, session_error, Session, SessionError};
use vstd::prelude::*;

verus! {

/// The rate at which the simulation runs unless another is set.
pub const DEFAULT_FPS: usize = 60;

/// The nanoseconds in a second.
pub const NANOS_PER_SECOND: u64 = 1_000_000_000;

/// The time between two ticks in nanoseconds at a rate of `fps` ticks per
/// second: the second divided by the rate, rounded down but at least one
/// nanosecond, and a tenth more when running slow. There is none at a rate
/// of zero.
pub open spec fn tick_period(fps: usize, run_slow: bool) -> Option<u64> {
    if fps == 0 {
        None
    } else {
        let exact = NANOS_PER_SECOND as int / fps as int;
        let nominal = if exact == 0 {
            1
        } else {
            exact
        };
        if run_slow {
            Some((nominal + nominal / 10) as u64)
        } else {
            Some(nominal as u64)
        }
    }
}

/// The sum of `a` and `b`, or `u64::MAX` where the sum does not fit.
pub open spec fn saturating_sum(a: u64, b: u64) -> u64 {
    if a + b > u64::MAX {
        u64::MAX
    } else {
        (a + b) as u64
    }
}

/// The ticks that are due once `elapsed` nanoseconds were added to an
/// accumulator of `accumulator` nanoseconds: as many whole periods as the
/// accumulated time holds.
pub open spec fn ticks_due(fps: usize, run_slow: bool, accumulator: u64, elapsed: u64) -> u64 {
    match tick_period(fps, run_slow) {
        Some(period) => saturating_sum(accumulator, elapsed) / period,
        None => 0,
    }
}

/// The time that stays in the accumulator once the due ticks were taken
/// out: less than one period.
pub open spec fn time_left(fps: usize, run_slow: bool, accumulator: u64, elapsed: u64) -> u64 {
    match tick_period(fps, run_slow) {
        Some(period) => saturating_sum(accumulator, elapsed) % period,
        None => saturating_sum(accumulator, elapsed),
    }
}

/// The clock of the simulation.
#[derive(Clone, Copy, Debug, PartialEq, Eq, Structural, Hash)]
pub struct FixedTimestepData {
    /// The rate of the simulation in ticks per second.
    pub fps: usize,
    /// The time, in nanoseconds, that has passed and that no tick has used
    /// up yet.
    pub accumulator: u64,
    /// Whether to run a tenth slower, to let the peers catch up.
    pub run_slow: bool,
}

impl Default for FixedTimestepData {
    fn default() -> (r: Self)
        ensures
            r == (FixedTimestepData { fps: DEFAULT_FPS, accumulator: 0, run_slow: false }),
    {
        FixedTimestepData { fps: DEFAULT_FPS, accumulator: 0, run_slow: false }
    }
}

impl FixedTimestepData {
    /// The time between two ticks in nanoseconds, or `None` at a rate of
    /// zero.
    pub fn period(&self) -> (r: Option<u64>)
        ensures
            r == tick_period(self.fps, self.run_slow),
            r matches Some(p) ==> p >= 1,
    {
        if self.fps == 0 {
            return None;
        }
        let exact: u64 = if self.fps as u64 > NANOS_PER_SECOND {
            proof {
                vstd::arithmetic::div_mod::lemma_basic_div(
                    NANOS_PER_SECOND as int,
                    self.fps as int,
                );
            }
            0
        } else {
            NANOS_PER_SECOND / (self.fps as u64)
        };
        let nominal: u64 = if exact == 0 {
            1
        } else {
            exact
        };
        if self.run_slow {
            Some(nominal + nominal / 10)
        } else {
            Some(nominal)
        }
    }

    /// Lets `elapsed` nanoseconds pass and says how many ticks are due. The
    /// period is that of the moment of the call; time that no tick has used
    /// up stays for the next call.
    pub fn advance(&mut self, elapsed: u64) -> (ticks: u64)
        ensures
            ticks == ticks_due(
                old(self).fps,
                old(self).run_slow,
                old(self).accumulator,
                elapsed,
            ),
            final(self).accumulator == time_left(
                old(self).fps,
                old(self).run_slow,
                old(self).accumulator,
                elapsed,
            ),
            final(self).fps == old(self).fps,
            final(self).run_slow == old(self).run_slow,
    {
        let period = self.period();
        let total = self.accumulator.saturating_add(elapsed);
        match period {
            Some(period) => {
                self.accumulator = total % period;
                total / period
            },
            None => {
                self.accumulator = total;
                0
            },
        }
    }
}

/// What one tick asks of the host.
#[derive(Debug, PartialEq, Eq)]
pub struct TickPlan {
    /// The handles of the players whose input is to be read.
    pub read_inputs: Vec<usize>,
    /// Whether to hand the inputs that were read to the session and to ask
    /// it to advance. Where the session is not ready, the tick ends here.
    pub advance: bool,
}

/// How a tick ended.
#[derive(Debug, PartialEq, Eq, Hash)]
pub enum TickOutcome {
    /// The session advanced and its requests are to be fulfilled.
    Advanced,
    /// The session is too far ahead of confirmed input. The tick is skipped
    /// and nothing has changed; this is no error.
    Backpressure,
    /// The session failed otherwise. The failure is to be reported, the tick
    /// is skipped and nothing has changed.
    Failed(SessionError),
}

/// Sorts out what a session answered when asked to advance: the requests
/// to fulfil, none where the tick is skipped, and how the tick ended.
pub fn requests_of<I>(answer: Result<Vec<Request<I>>, SessionError>) -> (r: (
    Vec<Request<I>>,
    TickOutcome,
))
    ensures
        match answer {
            Ok(requests) => r.0 == requests && r.1 == TickOutcome::Advanced,
            Err(SessionError::PredictionThreshold) => r.0@.len() == 0 && r.1
                == TickOutcome::Backpressure,
            Err(error) => r.0@.len() == 0 && r.1 == TickOutcome::Failed(error),
        },
{
    match answer {
        Ok(requests) => (requests, TickOutcome::Advanced),
        Err(SessionError::PredictionThreshold) => (Vec::new(), TickOutcome::Backpressure),
        Err(error) => (Vec::new(), TickOutcome::Failed(error)),
    }
}

/// Sorts out what the session itself answered when asked to advance. Its
/// requests are fulfilled as they are. Whatever its error is, the tick is
/// skipped, as backpressure or as a failure that is not the prediction
/// threshold.
pub fn try_advance_frame<I>(answer: Result<Vec<Request<I>>, ggrs::GGRSError>) -> (r: (
    Vec<Request<I>>,
    TickOutcome,
))
    ensures
        match answer {
            Ok(requests) => r.0 == requests && r.1 == TickOutcome::Advanced,
            Err(_) => {
                &&& r.0@.len() == 0
                &&& r.1 matches TickOutcome::Failed(error) ==> !(error is PredictionThreshold)
                &&& r.1 is Backpressure || r.1 is Failed
            },
        },
{
    match answer {
        Ok(requests) => requests_of(Ok(requests)),
        Err(error) => requests_of(Err(session_error(error))),
    }
}

/// The driver of the simulation: its clock and the frame it is in.
#[derive(Debug, PartialEq, Eq)]
pub struct GGRSStage {
    pub time: FixedTimestepData,
    /// The frame that is simulated next, which may be one that was
    /// simulated before.
    pub frame: Frame,
}

impl GGRSStage {
    /// A driver at frame 0 that runs at the default rate.
    pub fn new() -> (r: Self)
        ensures
            r.time == (FixedTimestepData { fps: DEFAULT_FPS, accumulator: 0, run_slow: false }),
            r.frame == Frame(0),
    {
        GGRSStage {
            time: FixedTimestepData { fps: DEFAULT_FPS, accumulator: 0, run_slow: false },
            frame: Frame(0),
        }
    }

    /// Starts over at frame 0 with no time accumulated. The rate stays.
    pub fn reset(&mut self)
        ensures
            final(self).time == (FixedTimestepData {
                fps: old(self).time.fps,
                accumulator: 0,
                run_slow: false,
            }),
            final(self).frame == Frame(0),
    {
        self.time.accumulator = 0;
        self.time.run_slow = false;
        self.frame = Frame(0);
    }

    /// Sets the rate of the simulation in ticks per second.
    pub fn set_update_frequency(&mut self, update_frequency: usize)
        ensures
            final(self).time == (FixedTimestepData {
                fps: update_frequency,
                accumulator: old(self).time.accumulator,
                run_slow: old(self).time.run_slow,
            }),
            final(self).frame == old(self).frame,
    {
        self.time.fps = update_frequency;
    }

    /// One step of real time: `elapsed` nanoseconds have passed since the
    /// last step. Says how many ticks are due. The session is polled by the
    /// host whether or not a tick is due.
    pub fn run(&mut self, elapsed: u64) -> (ticks: u64)
        ensures
            ticks == ticks_due(
                old(self).time.fps,
                old(self).time.run_slow,
                old(self).time.accumulator,
                elapsed,
            ),
            final(self).time == (FixedTimestepData {
                fps: old(self).time.fps,
                accumulator: time_left(
                    old(self).time.fps,
                    old(self).time.run_slow,
                    old(self).time.accumulator,
                    elapsed,
                ),
                run_slow: old(self).time.run_slow,
            }),
            final(self).frame == old(self).frame,
    {
        self.time.advance(elapsed)
    }

    /// A tick of a sync test: input is read for every player, and the
    /// session always advances.
    pub fn run_synctest(&mut self, session: &Session) -> (plan: TickPlan)
        requires
            session is SyncTest,
        ensures
            plan.read_inputs@ == session.spec_input_handles(),
            plan.advance,
            final(self).time == (FixedTimestepData { run_slow: false, ..old(self).time }),
            final(self).frame == old(self).frame,
    {
        self.time.run_slow = false;
        TickPlan { read_inputs: session.input_handles(), advance: true }
    }

    /// A tick of a spectator: no input is read, and the session advances
    /// once it is synchronized.
    pub fn run_spectator(&mut self, session: &Session) -> (plan: TickPlan)
        requires
            session is Spectator,
        ensures
            plan.read_inputs@.len() == 0,
            plan.advance == session.spec_is_running(),
            final(self).time == (FixedTimestepData { run_slow: false, ..old(self).time }),
            final(self).frame == old(self).frame,
    {
        self.time.run_slow = false;
        TickPlan { read_inputs: Vec::new(), advance: session.is_running() }
    }

    /// A tick among peers: the driver runs slow from now on exactly if the
    /// session is ahead of its peers; input is read for the local players,
    /// and the session advances once it is synchronized.
    pub fn run_p2p(&mut self, session: &Session) -> (plan: TickPlan)
        requires
            session is P2P,
        ensures
            plan.read_inputs@ == session.spec_input_handles(),
            plan.advance == session.spec_is_running(),
            final(self).time == (FixedTimestepData {
                run_slow: frames_ahead_of(*session) > 0,
                ..old(self).time
            }),
            final(self).frame == old(self).frame,
    {
        self.time.run_slow = session.frames_ahead() > 0;
        TickPlan { read_inputs: session.input_handles(), advance: session.is_running() }
    }

    /// A tick, whatever the kind of session. The driver runs slow from now
    /// on exactly if the session reports that it is ahead of its peers.
    pub fn tick(&mut self, session: &Session) -> (plan: TickPlan)
        ensures
            plan.read_inputs@ == session.spec_input_handles(),
            plan.advance == session.spec_is_running(),
            final(self).time == (FixedTimestepData {
                run_slow: frames_ahead_of(*session) > 0,
                ..old(self).time
            }),
            final(self).frame == old(self).frame,
    {
        match session {
            Session::SyncTest { .. } => self.run_synctest(session),
            Session::P2P { .. } => self.run_p2p(session),
            Session::Spectator { .. } => self.run_spectator(session),
        }
    }

    /// Turns the requests of one tick into runs of schedules, in order, and
    /// moves the driver to the frame that is current after the last one.
    pub fn execute<I>(&mut self, requests: Vec<Request<I>>) -> (runs: Vec<Run<I>>)
        ensures
            runs@.len() == requests@.len(),
            forall|i: int|
                0 <= i < requests@.len() ==> runs@[i] == run_of(
                    frame_after_all(old(self).frame, requests@.subrange(0, i)),
                    requests@[i],
                ),
            final(self).frame == frame_after_all(old(self).frame, requests@),
            final(self).time == old(self).time,
    {
        let (runs, frame) = run_schedules(self.frame, requests);
        self.frame = frame;
        runs
    }
}

/// Running slow never makes more ticks due than running at the nominal
/// rate does over the same time.
pub proof fn lemma_run_slow_fires_no_more_ticks(fps: usize, accumulator: u64, elapsed: u64)
    ensures
        ticks_due(fps, true, accumulator, elapsed) <= ticks_due(fps, false, accumulator, elapsed),
        fps > 0 ==> tick_period(fps, true).unwrap() >= tick_period(fps, false).unwrap(),
{
    if fps > 0 {
        let slow = tick_period(fps, true).unwrap();
        let nominal = tick_period(fps, false).unwrap();
        let total = saturating_sum(accumulator, elapsed);
        assert(1 <= nominal <= slow);
        vstd::arithmetic::div_mod::lemma_div_is_ordered_by_denominator(
            total as int,
            nominal as int,
            slow as int,
        );
    }
}

/// What the accumulator holds after a step is less than one period, and the
/// ticks that were due account for the rest of the time.
pub proof fn lemma_ticks_account_for_time(
    fps: usize,
    run_slow: bool,
    accumulator: u64,
    elapsed: u64,
)
    requires
        fps > 0,
    ensures
        time_left(fps, run_slow, accumulator, elapsed) < tick_period(fps, run_slow).unwrap(),
        ticks_due(fps, run_slow, accumulator, elapsed) * tick_period(fps, run_slow).unwrap()
            + time_left(fps, run_slow, accumulator, elapsed) == saturating_sum(
            accumulator,
            elapsed,
        ),
{
    let period = tick_period(fps, run_slow).unwrap();
    let total = saturating_sum(accumulator, elapsed);
    assert(period >= 1);
    vstd::arithmetic::div_mod::lemma_fundamental_div_mod(total as int, period as int);
    assert(period * (total / period) == (total / period) * period) by (nonlinear_arith);
}

} // verus!
