use bevy_ggrs::frame::Frame;
use bevy_ggrs::ggrs_stage::{
    requests_of, try_advance_frame, FixedTimestepData, GGRSStage, TickOutcome, TickPlan,
};
use bevy_ggrs::input::{InputStatus, PlayerInputs};
use bevy_ggrs::scheduling::{
    run_schedule, run_schedules, GGRSLoadSchedule, GGRSSaveSchedule, GGRSSchedule, Request, Run,
};
use bevy_ggrs::session::{Session, SessionError};

const MS: u64 = 1_000_000;

#[test]
fn at_sixty_ticks_per_second_one_tick_fires_in_33_ms() {
    let mut time = FixedTimestepData::default();
    assert_eq!(time.fps, 60);
    assert_eq!(time.period(), Some(16_666_666));
    assert_eq!(time.advance(33 * MS), 1);
    assert_eq!(time.accumulator, 33 * MS - 16_666_666);
    // The rest is carried over: 16.34 ms more and the next tick fires.
    assert_eq!(time.advance(MS / 4), 0);
    assert_eq!(time.advance(MS / 10), 1);
}

#[test]
fn running_slow_stretches_the_period_by_a_tenth() {
    let mut slow = FixedTimestepData { fps: 60, accumulator: 0, run_slow: true };
    assert_eq!(slow.period(), Some(18_333_332));
    let mut nominal = FixedTimestepData { fps: 60, accumulator: 0, run_slow: false };
    assert_eq!(nominal.advance(35 * MS), 2);
    assert_eq!(slow.advance(35 * MS), 1);
    assert_eq!(slow.accumulator, 35 * MS - 18_333_332);
    let mut nominal = FixedTimestepData { fps: 60, accumulator: 0, run_slow: false };
    let mut slow = FixedTimestepData { fps: 60, accumulator: 0, run_slow: true };
    assert_eq!(nominal.advance(1_000 * MS), 60);
    assert_eq!(slow.advance(1_000 * MS), 54);
}

#[test]
fn a_tick_fires_when_the_accumulator_reaches_the_period() {
    let mut time = FixedTimestepData { fps: 100, accumulator: 0, run_slow: false };
    assert_eq!(time.advance(9_999_999), 0);
    assert_eq!(time.advance(1), 1);
    assert_eq!(time.accumulator, 0);
}

#[test]
fn a_rate_of_zero_never_ticks() {
    let mut time = FixedTimestepData { fps: 0, accumulator: 5, run_slow: false };
    assert_eq!(time.period(), None);
    assert_eq!(time.advance(1_000 * MS), 0);
    assert_eq!(time.accumulator, 1_000 * MS + 5);
    assert_eq!(time.advance(u64::MAX), 0);
    assert_eq!(time.accumulator, u64::MAX);
}

#[test]
fn the_period_is_a_nanosecond_at_least() {
    let time = FixedTimestepData { fps: usize::MAX, accumulator: 0, run_slow: false };
    assert_eq!(time.period(), Some(1));
    let exact = FixedTimestepData { fps: 1_000_000_000, accumulator: 0, run_slow: true };
    assert_eq!(exact.period(), Some(1));
}

#[test]
fn the_driver_starts_at_frame_zero_and_can_start_over() {
    let mut stage = GGRSStage::new();
    assert_eq!(stage.frame, Frame(0));
    assert_eq!(stage.time, FixedTimestepData { fps: 60, accumulator: 0, run_slow: false });
    stage.set_update_frequency(30);
    assert_eq!(stage.run(100 * MS), 3);
    assert_eq!(stage.time.accumulator, 100 * MS - 3 * 33_333_333);
    stage.frame = Frame(12);
    stage.time.run_slow = true;
    stage.reset();
    assert_eq!(stage.frame, Frame(0));
    assert_eq!(stage.time, FixedTimestepData { fps: 30, accumulator: 0, run_slow: false });
}

#[test]
fn a_tick_among_peers_reads_local_input_and_runs_slow_when_ahead() {
    let mut stage = GGRSStage::new();
    let ahead = Session::P2P { running: true, local_players: vec![1, 3], frames_ahead: 2, max_prediction: 8 };
    assert_eq!(stage.tick(&ahead), TickPlan { read_inputs: vec![1, 3], advance: true });
    assert!(stage.time.run_slow);
    let level = Session::P2P { running: false, local_players: vec![1], frames_ahead: 0, max_prediction: 8 };
    assert_eq!(stage.run_p2p(&level), TickPlan { read_inputs: vec![1], advance: false });
    assert!(!stage.time.run_slow);
}

#[test]
fn a_sync_test_reads_input_for_every_player() {
    let mut stage = GGRSStage::new();
    let session = Session::SyncTest { num_players: 3, max_prediction: 4 };
    assert_eq!(stage.run_synctest(&session), TickPlan { read_inputs: vec![0, 1, 2], advance: true });
    assert_eq!(stage.tick(&session), TickPlan { read_inputs: vec![0, 1, 2], advance: true });
    assert!(!stage.time.run_slow);
}

#[test]
fn a_spectator_reads_no_input_and_waits_for_its_host() {
    let mut stage = GGRSStage::new();
    let waiting = Session::Spectator { running: false, frames_behind_host: 0 };
    assert_eq!(stage.run_spectator(&waiting), TickPlan { read_inputs: vec![], advance: false });
    let running = Session::Spectator { running: true, frames_behind_host: 3 };
    assert_eq!(stage.tick(&running), TickPlan { read_inputs: vec![], advance: true });
    assert!(!stage.time.run_slow);
}

#[test]
fn the_prediction_threshold_skips_the_tick_without_an_error() {
    let answer: Result<Vec<Request<u8>>, SessionError> = Err(SessionError::PredictionThreshold);
    assert_eq!(requests_of(answer), (vec![], TickOutcome::Backpressure));
    let answer: Result<Vec<Request<u8>>, SessionError> = Err(SessionError::NotSynchronized);
    assert_eq!(requests_of(answer), (vec![], TickOutcome::Failed(SessionError::NotSynchronized)));
    let answer: Result<Vec<Request<u8>>, SessionError> = Ok(vec![Request::Save(Frame(1))]);
    assert_eq!(requests_of(answer), (vec![Request::Save(Frame(1))], TickOutcome::Advanced));
}

fn outcome_of(error: ggrs::GGRSError) -> TickOutcome {
    let answer: Result<Vec<Request<u8>>, ggrs::GGRSError> = Err(error);
    let (requests, outcome) = try_advance_frame(answer);
    assert!(requests.is_empty());
    outcome
}

#[test]
fn each_error_of_the_session_has_its_outcome() {
    assert_eq!(outcome_of(ggrs::GGRSError::PredictionThreshold), TickOutcome::Backpressure);
    assert_eq!(
        outcome_of(ggrs::GGRSError::InvalidRequest { info: "no such player".to_owned() }),
        TickOutcome::Failed(SessionError::InvalidRequest { info: "no such player".to_owned() })
    );
    assert_eq!(
        outcome_of(ggrs::GGRSError::MismatchedChecksum { frame: 9 }),
        TickOutcome::Failed(SessionError::MismatchedChecksum { frame: 9 })
    );
    assert_eq!(
        outcome_of(ggrs::GGRSError::NotSynchronized),
        TickOutcome::Failed(SessionError::NotSynchronized)
    );
    assert_eq!(
        outcome_of(ggrs::GGRSError::SpectatorTooFarBehind),
        TickOutcome::Failed(SessionError::SpectatorTooFarBehind)
    );
    assert_eq!(
        outcome_of(ggrs::GGRSError::SocketCreationFailed),
        TickOutcome::Failed(SessionError::SocketCreationFailed)
    );
    assert_eq!(
        outcome_of(ggrs::GGRSError::PlayerDisconnected),
        TickOutcome::Failed(SessionError::PlayerDisconnected)
    );
    assert_eq!(
        outcome_of(ggrs::GGRSError::DecodingError),
        TickOutcome::Failed(SessionError::DecodingError)
    );
    let answer: Result<Vec<Request<u8>>, ggrs::GGRSError> = Ok(vec![Request::Load(Frame(2))]);
    assert_eq!(try_advance_frame(answer), (vec![Request::Load(Frame(2))], TickOutcome::Advanced));
}

fn inputs(value: u8) -> PlayerInputs<u8> {
    PlayerInputs(vec![(value, InputStatus::Confirmed), (0, InputStatus::Predicted)])
}

#[test]
fn requests_become_runs_in_order() {
    let requests = vec![
        Request::Save(Frame(5)),
        Request::Advance(inputs(1)),
        Request::Load(Frame(3)),
        Request::Advance(inputs(2)),
        Request::Advance(inputs(3)),
        Request::Save(Frame(5)),
    ];
    let (runs, frame) = run_schedules(Frame(5), requests);
    assert_eq!(frame, Frame(5));
    assert_eq!(
        runs,
        vec![
            Run::Save { schedule: GGRSSaveSchedule, frame: Frame(5) },
            Run::Advance { schedule: GGRSSchedule, inputs: inputs(1), frame: Frame(5), next: Frame(6) },
            Run::Load { schedule: GGRSLoadSchedule, frame: Frame(3) },
            Run::Advance { schedule: GGRSSchedule, inputs: inputs(2), frame: Frame(3), next: Frame(4) },
            Run::Advance { schedule: GGRSSchedule, inputs: inputs(3), frame: Frame(4), next: Frame(5) },
            Run::Save { schedule: GGRSSaveSchedule, frame: Frame(5) },
        ]
    );
}

#[test]
fn the_driver_follows_the_frames_of_its_requests() {
    let mut stage = GGRSStage::new();
    let runs = stage.execute(vec![Request::Save(Frame(0)), Request::Advance(inputs(9))]);
    assert_eq!(runs.len(), 2);
    assert_eq!(stage.frame, Frame(1));
    let none: Vec<Request<u8>> = vec![];
    assert!(stage.execute(none).is_empty());
    assert_eq!(stage.frame, Frame(1));
    stage.execute(vec![Request::<u8>::Load(Frame(-4))]);
    assert_eq!(stage.frame, Frame(-4));
}

#[test]
fn the_frame_counter_wraps() {
    assert_eq!(Frame(0).next(), Frame(1));
    assert_eq!(Frame(-1).next(), Frame(0));
    assert_eq!(Frame(i32::MAX).next(), Frame(i32::MIN));
    assert_eq!(Frame::default(), Frame(0));
    let (run, next) = run_schedule(Frame(i32::MAX), Request::Advance(inputs(0)));
    assert_eq!(next, Frame(i32::MIN));
    assert_eq!(
        run,
        Run::Advance { schedule: GGRSSchedule, inputs: inputs(0), frame: Frame(i32::MAX), next: Frame(i32::MIN) }
    );
}
