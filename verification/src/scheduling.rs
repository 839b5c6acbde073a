//! From the requests of a session to the schedules that fulfil them.

use crate::frame::{next_frame, Frame};
use crate::input::PlayerInputs;
use vstd::prelude::*;

verus! {

/// The schedule that advances the simulation by one frame.
#[derive(Clone, Copy, Debug, PartialEq, Eq, Structural, Hash)]
pub struct GGRSSchedule;

/// The schedule that saves the state of the current frame.
#[derive(Clone, Copy, Debug, PartialEq, Eq, Structural, Hash)]
pub struct GGRSSaveSchedule;

/// The schedule that loads the state of an earlier frame.
#[derive(Clone, Copy, Debug, PartialEq, Eq, Structural, Hash)]
pub struct GGRSLoadSchedule;

/// What a session asks for. Requests are fulfilled one by one, in the order
/// in which the session hands them out.
#[derive(Debug, PartialEq, Eq)]
pub enum Request<I> {
    /// Save the state; it is the state of the given frame.
    Save(Frame),
    /// Load the state that was saved for the given frame.
    Load(Frame),
    /// Simulate one frame with the given inputs.
    Advance(PlayerInputs<I>),
}

/// One run of a schedule, with what is published while it runs.
#[allow(inconsistent_fields)]
#[derive(Debug, PartialEq, Eq)]
pub enum Run<I> {
    /// Run the save schedule with `frame` as the frame that is saved.
    Save { schedule: GGRSSaveSchedule, frame: Frame },
    /// Run the load schedule with `frame` as the frame that is loaded: first
    /// what reconciles the entities, then what restores their data.
    Load { schedule: GGRSLoadSchedule, frame: Frame },
    /// Run the simulation with `inputs` as the players' inputs. `frame` is
    /// the frame that is simulated, `next` the one that is current afterwards.
    Advance { schedule: GGRSSchedule, inputs: PlayerInputs<I>, frame: Frame, next: Frame },
}

/// The frame that is current once `request` is fulfilled, `frame` being
/// current before: a save or a load makes its own frame current, and a
/// simulated frame is followed by the next.
pub open spec fn frame_after<I>(frame: Frame, request: Request<I>) -> Frame {
    match request {
        Request::Save(saved) => saved,
        Request::Load(loaded) => loaded,
        Request::Advance(_) => Frame(next_frame(frame.0)),
    }
}

/// The frame that is current once all of `requests` are fulfilled in order.
pub open spec fn frame_after_all<I>(frame: Frame, requests: Seq<Request<I>>) -> Frame
    decreases requests.len(),
{
    if requests.len() == 0 {
        frame
    } else {
        frame_after(frame_after_all(frame, requests.drop_last()), requests.last())
    }
}

/// The run that fulfils `request` when `frame` is current.
pub open spec fn run_of<I>(frame: Frame, request: Request<I>) -> Run<I> {
    match request {
        Request::Save(saved) => Run::Save { schedule: GGRSSaveSchedule, frame: saved },
        Request::Load(loaded) => Run::Load { schedule: GGRSLoadSchedule, frame: loaded },
        Request::Advance(inputs) => Run::Advance {
            schedule: GGRSSchedule,
            inputs,
            frame,
            next: Frame(next_frame(frame.0)),
        },
    }
}

/// The run that fulfils `request` when `frame` is current, and the frame
/// that is current afterwards.
pub fn run_schedule<I>(frame: Frame, request: Request<I>) -> (r: (Run<I>, Frame))
    ensures
        r.0 == run_of(frame, request),
        r.1 == frame_after(frame, request),
{
    match request {
        Request::Save(saved) => (Run::Save { schedule: GGRSSaveSchedule, frame: saved }, saved),
        Request::Load(loaded) => (Run::Load { schedule: GGRSLoadSchedule, frame: loaded }, loaded),
        Request::Advance(inputs) => {
            let next = frame.next();
            (Run::Advance { schedule: GGRSSchedule, inputs, frame, next }, next)
        },
    }
}

/// The runs that fulfil `requests`, one for each request and in the same
/// order, and the frame that is current after the last of them. `frame` is
/// the frame that is current before the first.
pub fn run_schedules<I>(frame: Frame, requests: Vec<Request<I>>) -> (r: (Vec<Run<I>>, Frame))
    ensures
        r.0@.len() == requests@.len(),
        forall|i: int|
            0 <= i < requests@.len() ==> r.0@[i] == run_of(
                frame_after_all(frame, requests@.subrange(0, i)),
                requests@[i],
            ),
        r.1 == frame_after_all(frame, requests@),
{
    let mut runs: Vec<Run<I>> = Vec::new();
    let mut current = frame;
    let ghost all = requests@;
    for request in it: requests.into_iter()
        invariant
            it.seq() == all,
            runs@.len() == it.index(),
            current == frame_after_all(frame, all.subrange(0, it.index() as int)),
            forall|i: int|
                0 <= i < it.index() ==> runs@[i] == run_of(
                    frame_after_all(frame, all.subrange(0, i)),
                    all[i],
                ),
    {
        let ghost n = it.index() as int;
        let (run, next) = run_schedule(current, request);
        runs.push(run);
        current = next;
        proof {
            assert(all.subrange(0, n + 1).drop_last() =~= all.subrange(0, n));
        }
    }
    proof {
        assert(all.subrange(0, all.len() as int) =~= all);
    }
    (runs, current)
}

} // verus!
