use cube_timer::session::{App, Key, INSPECTION_NANOS};
use cube_timer::state::TimerState;

/// Drives one full solve through the protocol: inspection starts at `t`,
/// the stopwatch starts at `t + 2` and stops after `duration` nanoseconds,
/// and the solved phase is acknowledged. Returns the instant after the
/// acknowledging release.
fn run_solve(app: &mut App, t: u64, duration: u64) -> u64 {
    app.on_key_press(Key::Primary, t);
    assert!(matches!(app.state, TimerState::Inspection(_)));
    app.on_key_press(Key::Primary, t + 1);
    assert_eq!(app.state, TimerState::ReadyToStart);
    app.on_key_release(Key::Primary, t + 2);
    assert_eq!(app.state, TimerState::Solving(t + 2));
    app.on_key_press(Key::Primary, t + 2 + duration);
    assert_eq!(app.state, TimerState::Solved(duration));
    app.on_key_release(Key::Primary, t + 3 + duration);
    assert_eq!(app.state, TimerState::Idle);
    t + 3 + duration
}

#[test]
fn session_starts_idle_and_empty() {
    let app = App::default();
    assert_eq!(app.state, TimerState::Idle);
    assert!(app.times.is_empty());
    assert!(!app.space_pressed);
    assert!(!app.exit);
    assert!(app.last_solved.is_none());
    assert_eq!(app.history_scroll, 0);
}

#[test]
fn press_from_idle_starts_inspection_at_the_captured_instant() {
    let mut app = App::default();
    let now: u64 = 123_456_789;
    app.on_key_press(Key::Primary, now);
    match app.state {
        TimerState::Inspection(start) => assert!(start >= now && start == now),
        other => panic!("expected inspection, got {:?}", other),
    }
    assert!(app.space_pressed);
}

#[test]
fn full_cycle_appends_exactly_one_record_with_the_live_scramble() {
    let mut app = App::default();
    let scramble_before = app.scramble.text();
    app.on_key_press(Key::Primary, 1_000);
    app.on_key_press(Key::Primary, 2_000);
    app.on_key_release(Key::Primary, 3_000);
    app.on_key_press(Key::Primary, 5_000_003_000);
    assert_eq!(app.state, TimerState::Solved(5_000_000_000));
    assert_eq!(app.times.len(), 1);
    assert_eq!(app.times[0].duration_nanos, 5_000_000_000);
    assert_eq!(app.times[0].scramble.text(), scramble_before);
    assert_eq!(app.last_solved, Some(5_000_000_000));
}

#[test]
fn release_from_solved_returns_to_idle_and_regenerates() {
    let mut app = App::default();
    run_solve(&mut app, 0, 2_000_000_000);
    assert_eq!(app.state, TimerState::Idle);
    assert_eq!(app.times.len(), 1);
    // The regenerated scramble differs from the recorded one with
    // overwhelming probability.
    assert_ne!(app.scramble.moves, app.times[0].scramble.moves);
}

#[test]
fn unlisted_pairs_are_no_ops() {
    let mut app = App::default();

    // Release edges do nothing from Idle.
    app.on_key_release(Key::Primary, 10);
    assert_eq!(app.state, TimerState::Idle);

    // An unknown key does nothing in any phase.
    app.on_key_press(Key::Other, 20);
    app.on_key_release(Key::Other, 21);
    assert_eq!(app.state, TimerState::Idle);
    assert!(app.times.is_empty());

    // A press while armed leaves the phase armed.
    app.on_key_press(Key::Primary, 30);
    app.on_key_press(Key::Primary, 40);
    assert_eq!(app.state, TimerState::ReadyToStart);
    app.on_key_press(Key::Primary, 50);
    assert_eq!(app.state, TimerState::ReadyToStart);

    // A release while solving leaves the stopwatch running.
    app.on_key_release(Key::Primary, 60);
    assert_eq!(app.state, TimerState::Solving(60));
    app.on_key_release(Key::Primary, 70);
    assert_eq!(app.state, TimerState::Solving(60));
}

#[test]
fn exit_key_only_raises_the_flag() {
    let mut app = App::default();
    app.on_key_press(Key::Primary, 5);
    let phase_before = app.state;
    app.on_key_press(Key::Exit, 6);
    assert!(app.exit);
    assert_eq!(app.state, phase_before);
    assert!(app.times.is_empty());
}

#[test]
fn inspection_auto_starts_solving_after_the_window() {
    let mut app = App::default();
    app.on_key_press(Key::Primary, 1_000);
    app.on_key_release(Key::Primary, 2_000);
    assert_eq!(app.state, TimerState::Inspection(1_000));

    // Just before the window elapses: nothing happens.
    app.tick(1_000 + INSPECTION_NANOS - 1);
    assert_eq!(app.state, TimerState::Inspection(1_000));

    // At the window: solving starts at the instant of the check.
    let due: u64 = 1_000 + INSPECTION_NANOS;
    app.tick(due);
    assert_eq!(app.state, TimerState::Solving(due));
    match app.state {
        TimerState::Solving(start) => assert!(start >= 1_000 + INSPECTION_NANOS),
        other => panic!("expected solving, got {:?}", other),
    }
}

#[test]
fn held_key_suppresses_the_auto_transition() {
    let mut app = App::default();
    app.on_key_press(Key::Primary, 0);
    assert_eq!(app.state, TimerState::Inspection(0));
    assert!(app.space_pressed);
    app.tick(INSPECTION_NANOS + 5);
    assert_eq!(app.state, TimerState::Inspection(0));
    app.on_key_release(Key::Primary, INSPECTION_NANOS + 6);
    // Releasing during plain inspection does not change the phase; the next
    // check fires the auto-transition.
    assert_eq!(app.state, TimerState::Inspection(0));
    app.tick(INSPECTION_NANOS + 7);
    assert_eq!(app.state, TimerState::Solving(INSPECTION_NANOS + 7));
}

#[test]
fn tick_outside_inspection_changes_nothing() {
    let mut app = App::default();
    app.tick(INSPECTION_NANOS * 2);
    assert_eq!(app.state, TimerState::Idle);
    app.on_key_press(Key::Primary, 0);
    app.on_key_press(Key::Primary, 1);
    app.tick(INSPECTION_NANOS * 2);
    assert_eq!(app.state, TimerState::ReadyToStart);
}

#[test]
fn scroll_offset_stays_inside_its_bounds() {
    let mut app = App::default();

    // Empty history: both directions stay at zero.
    app.on_key_press(Key::ScrollUp, 1);
    assert_eq!(app.history_scroll, 0);
    app.on_key_press(Key::ScrollDown, 2);
    assert_eq!(app.history_scroll, 0);

    let mut t: u64 = 10;
    for _ in 0..3 {
        t = run_solve(&mut app, t, 1_000_000_000);
    }
    assert_eq!(app.times.len(), 3);

    // Scrolling up stops at history length minus one.
    for _ in 0..10 {
        app.on_key_press(Key::ScrollUp, t);
    }
    assert_eq!(app.history_scroll, 2);

    // Scrolling down stops at zero.
    for _ in 0..10 {
        app.on_key_press(Key::ScrollDown, t);
    }
    assert_eq!(app.history_scroll, 0);

    // Scroll edges never touch the phase.
    assert_eq!(app.state, TimerState::Idle);
}

#[test]
fn average_is_unavailable_below_the_window() {
    let mut app = App::default();
    assert_eq!(app.average(1), None);
    assert_eq!(app.average(5), None);
    let t = run_solve(&mut app, 0, 2_000_000_000);
    run_solve(&mut app, t, 3_000_000_000);
    assert_eq!(app.average(3), None);
    assert!(app.average(2).is_some());
}

#[test]
fn average_matches_the_worked_example() {
    // History 2.1 s, 3.4 s, 1.9 s in chronological order.
    let mut app = App::default();
    let mut t: u64 = 0;
    for d in [2_100_000_000u64, 3_400_000_000, 1_900_000_000] {
        t = run_solve(&mut app, t, d);
    }
    assert_eq!(app.times.len(), 3);

    // Mean of the two most recent: (3.4 + 1.9) / 2 = 2.65 s.
    assert_eq!(app.average(2), Some(2_650_000_000));

    // Mean of all three: 7.4 / 3 s, rounded down to whole nanoseconds.
    assert_eq!(app.average(3), Some(2_466_666_666));
    let mean3 = app.average(3).unwrap() as f64 / 1e9;
    assert!((mean3 - 2.4667).abs() < 1e-4);
    assert!((mean3 - (2.1 + 3.4 + 1.9) / 3.0).abs() < 1e-9);

    // A window larger than the history is unavailable.
    assert_eq!(app.average(4), None);
}

#[test]
fn average_agrees_with_a_naive_recomputation() {
    let durations = [
        1_234_567_890u64,
        9_876_543_210,
        2_000_000_001,
        4_444_444_444,
        3_141_592_653,
    ];
    let mut app = App::default();
    let mut t: u64 = 0;
    for d in durations {
        t = run_solve(&mut app, t, d);
    }
    for n in 1..=durations.len() {
        let got = app.average(n).unwrap() as f64 / 1e9;
        let tail = &durations[durations.len() - n..];
        let naive = tail.iter().map(|d| *d as f64 / 1e9).sum::<f64>() / n as f64;
        assert!((got - naive).abs() < 1e-6);
    }
}

#[test]
fn history_is_chronological_and_append_only() {
    let mut app = App::default();
    let mut t: u64 = 0;
    for d in [1_000_000_000u64, 2_000_000_000, 3_000_000_000] {
        t = run_solve(&mut app, t, d);
    }
    let recorded: Vec<u64> = app.times.iter().map(|r| r.duration_nanos).collect();
    assert_eq!(
        recorded,
        vec![1_000_000_000, 2_000_000_000, 3_000_000_000],
    );
    assert_eq!(app.last_solved, Some(3_000_000_000));
}
