use py_spy::error::{ErrorKind, SpyError};
use py_spy::sampler::{
    ended_message, outcome_of, ConsoleAction, ConsoleSampler, FlameAction, FlameSampler, Outcome,
};
use py_spy::spy::{RetryAction, RetryPolicy};

#[test]
fn sampling_results_are_classified() {
    assert_eq!(outcome_of(&Ok(vec![])), Outcome::Traces);
    assert_eq!(outcome_of(&Err(SpyError::from_os("gone".to_string(), Some(3), false))), Outcome::Exited);
    assert_eq!(outcome_of(&Err(SpyError::from_os("fault".to_string(), Some(14), false))), Outcome::Failed);
    assert_eq!(outcome_of(&Err(SpyError::new(ErrorKind::ProcessGone))), Outcome::Failed);
    assert_eq!(outcome_of(&Err(SpyError::new(ErrorKind::PermissionDenied))), Outcome::Failed);
    let refused = SpyError::from_os("Operation not permitted (os error 1)".to_string(), Some(1), true);
    assert_eq!(outcome_of(&Err(refused.clone())), Outcome::Refused);
    let wrapped = refused.context(ErrorKind::TransientRead, "Failed to read the thread list".to_string());
    assert_eq!(outcome_of(&Err(wrapped)), Outcome::Refused);
    // a refusal counts before an exit
    let both = SpyError::from_os("No such process (os error 3)".to_string(), Some(3), true);
    assert_eq!(outcome_of(&Err(both)), Outcome::Refused);
}

#[test]
fn refused_access_ends_both_loops_at_once() {
    for state in [
        ConsoleSampler::new(),
        ConsoleSampler { elapsed: 990, exitted_count: 5 },
        ConsoleSampler { elapsed: 0, exitted_count: 3 },
    ] {
        let (next, action) = state.on_sample(Outcome::Refused);
        assert_eq!(action, ConsoleAction::Fail);
        assert_eq!(next, state);
    }
    let mut flame = FlameSampler::new();
    flame = flame.on_sample(Outcome::Traces).0;
    flame = flame.on_sample(Outcome::Exited).0;
    let (next, action) = flame.on_sample(Outcome::Refused);
    assert_eq!(action, FlameAction::Fail);
    assert!(next.ended);
    assert!(!next.wants_sample());
    assert_eq!((next.taken, next.samples, next.errors), (2, 1, 1));
    let (first, action) = FlameSampler::new().on_sample(Outcome::Refused);
    assert_eq!(action, FlameAction::Fail);
    assert!(!first.wants_sample());
    // a loop that has come to its end takes no sample and so sees no refusal
    assert_eq!(next.on_sample(Outcome::Refused).1, FlameAction::Stop);
}

#[test]
fn console_loop_stops_at_the_sixth_exit_in_a_row() {
    let mut state = ConsoleSampler::new();
    for n in 1..=5u64 {
        let (next, action) = state.on_sample(Outcome::Exited);
        assert_eq!(action, ConsoleAction::Skip);
        assert_eq!(next.exitted_count, n);
        state = next;
    }
    let (next, action) = state.on_sample(Outcome::Exited);
    assert_eq!(action, ConsoleAction::Stop);
    assert_eq!(next, state);
}

#[test]
fn console_loop_counts_exits_in_a_row_only() {
    let mut state = ConsoleSampler::new();
    for _ in 0..5 {
        state = state.on_sample(Outcome::Exited).0;
    }
    let (next, action) = state.on_sample(Outcome::Traces);
    assert_eq!(action, ConsoleAction::Record);
    assert_eq!(next.exitted_count, 0);
    let (next, action) = next.on_sample(Outcome::Exited);
    assert_eq!(action, ConsoleAction::Skip);
    assert_eq!(next.exitted_count, 1);
    let (next, action) = next.on_sample(Outcome::Failed);
    assert_eq!(action, ConsoleAction::RecordError);
    assert_eq!(next.exitted_count, 0);
}

#[test]
fn console_is_redrawn_on_request_or_after_a_second() {
    let mut state = ConsoleSampler::new();
    let mut ticks = 0;
    loop {
        let (next, display) = state.on_tick(false);
        ticks += 1;
        if display {
            assert_eq!(next.elapsed, 10);
            break;
        }
        assert_eq!(next.elapsed, state.elapsed + 10);
        state = next;
    }
    // a hundred pauses of ten milliseconds go by before the second is full
    assert_eq!(ticks, 101);
    let (next, display) = ConsoleSampler { elapsed: 500, exitted_count: 2 }.on_tick(true);
    assert!(display);
    assert_eq!(next, ConsoleSampler { elapsed: 10, exitted_count: 2 });
    let (next, display) = ConsoleSampler { elapsed: 990, exitted_count: 0 }.on_tick(false);
    assert!(!display);
    assert_eq!(next.elapsed, 1000);
    assert!(next.on_tick(false).1);
}

#[test]
fn flame_loop_takes_two_thousand_samples() {
    let mut state = FlameSampler::new();
    let mut recorded = 0;
    while state.wants_sample() {
        let outcome = if state.taken % 10 == 9 { Outcome::Failed } else { Outcome::Traces };
        let (next, action) = state.on_sample(outcome);
        match action {
            FlameAction::Record => recorded += 1,
            FlameAction::CountError => {}
            FlameAction::Stop | FlameAction::Fail => panic!("the loop stops by itself"),
        }
        state = next;
    }
    assert_eq!(state.taken, 2000);
    assert_eq!(state.samples, 1800);
    assert_eq!(state.errors, 200);
    assert_eq!(recorded, 1800);
    assert!(!state.ended);
    let (next, action) = state.on_sample(Outcome::Traces);
    assert_eq!(action, FlameAction::Stop);
    assert_eq!(next, state);
    assert_eq!(state.summary("out.svg"), "Wrote flame graph 'out.svg'. Samples: 1800 Errors: 200");
}

#[test]
fn flame_loop_stops_at_the_fourth_exit_in_a_row() {
    let mut state = FlameSampler::new();
    state = state.on_sample(Outcome::Traces).0;
    for n in 1..=3u64 {
        let (next, action) = state.on_sample(Outcome::Exited);
        assert_eq!(action, FlameAction::CountError);
        assert_eq!(next.errors, n);
        assert_eq!(next.exitted_count, n);
        state = next;
    }
    let (next, action) = state.on_sample(Outcome::Exited);
    assert_eq!(action, FlameAction::Stop);
    assert!(next.ended);
    assert!(!next.wants_sample());
    assert_eq!((next.taken, next.samples, next.errors), (4, 1, 3));
    assert_eq!(next.summary("f"), "Wrote flame graph 'f'. Samples: 1 Errors: 3");
}

#[test]
fn flame_loop_forgets_exits_after_another_outcome() {
    let mut state = FlameSampler::new();
    for _ in 0..3 {
        state = state.on_sample(Outcome::Exited).0;
    }
    state = state.on_sample(Outcome::Failed).0;
    assert_eq!(state.exitted_count, 0);
    let (next, action) = state.on_sample(Outcome::Exited);
    assert_eq!(action, FlameAction::CountError);
    assert_eq!(next.exitted_count, 1);
    assert_eq!(next.errors, 5);
}

#[test]
fn end_of_the_process_is_announced() {
    assert_eq!(ended_message(4242), "process 4242 ended");
    assert_eq!(ended_message(0), "process 0 ended");
}

#[test]
fn attaching_is_tried_three_times_unless_the_failure_is_final() {
    let policy = RetryPolicy::standard();
    assert_eq!(policy, RetryPolicy { max_attempts: 3, pause_ms: 20 });
    assert_eq!(policy.decide(1, ErrorKind::RuntimeUninitialized), RetryAction::Retry { pause_ms: 20 });
    assert_eq!(policy.decide(2, ErrorKind::RuntimeUninitialized), RetryAction::Retry { pause_ms: 20 });
    assert_eq!(policy.decide(3, ErrorKind::RuntimeUninitialized), RetryAction::GiveUp);
    assert_eq!(policy.decide(4, ErrorKind::RuntimeUninitialized), RetryAction::GiveUp);
    for kind in [ErrorKind::PermissionDenied, ErrorKind::UnsupportedVersion, ErrorKind::InterpreterNotFound] {
        assert_eq!(policy.decide(1, kind), RetryAction::GiveUp);
    }
    for kind in [
        ErrorKind::ProcessGone,
        ErrorKind::BadAddress,
        ErrorKind::UnreadableBinary,
        ErrorKind::UnsupportedFormat,
        ErrorKind::LayoutValidationFailed,
        ErrorKind::TransientRead,
    ] {
        assert_eq!(policy.decide(1, kind), RetryAction::Retry { pause_ms: 20 });
    }
    let patient = RetryPolicy { max_attempts: 10, pause_ms: 250 };
    assert_eq!(patient.decide(9, ErrorKind::TransientRead), RetryAction::Retry { pause_ms: 250 });
    assert_eq!(patient.decide(10, ErrorKind::TransientRead), RetryAction::GiveUp);
}
