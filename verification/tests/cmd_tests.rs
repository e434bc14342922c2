use rnk::cmd::{every_wait_nanos, Cmd};
use std::time::{Duration, Instant};

type TestCmd = Cmd<fn(), fn(Instant)>;

fn work() {}

fn on_time(_: Instant) {}

fn perform() -> TestCmd {
    Cmd::perform(work as fn())
}

fn tick(d: Duration) -> TestCmd {
    Cmd::tick(d, on_time as fn(Instant))
}

fn every(d: Duration) -> TestCmd {
    Cmd::every(d, on_time as fn(Instant))
}

#[test]
fn test_cmd_none() {
    let cmd = TestCmd::none();
    assert!(cmd.is_none());
    assert!(matches!(cmd, Cmd::Noop));
}

#[test]
fn test_cmd_default() {
    let cmd = TestCmd::default();
    assert!(cmd.is_none());
}

#[test]
fn test_cmd_batch_empty() {
    let cmd = TestCmd::batch(vec![]);
    assert!(cmd.is_none());
}

#[test]
fn test_cmd_batch_single() {
    let cmd = TestCmd::batch(vec![Cmd::none()]);
    assert!(cmd.is_none());
}

#[test]
fn test_cmd_batch_filters_none() {
    let cmd = TestCmd::batch(vec![Cmd::none(), Cmd::none(), Cmd::none()]);
    assert!(cmd.is_none());
}

#[test]
fn test_cmd_batch_single_non_none() {
    let cmd = TestCmd::batch(vec![Cmd::none(), Cmd::sleep(Duration::from_secs(1)), Cmd::none()]);
    assert!(matches!(cmd, Cmd::Sleep { .. }));
}

#[test]
fn test_cmd_batch_multiple() {
    let cmd = TestCmd::batch(vec![Cmd::sleep(Duration::from_secs(1)), Cmd::sleep(Duration::from_secs(2))]);
    assert!(matches!(cmd, Cmd::Batch(_)));

    if let Cmd::Batch(cmds) = cmd {
        assert_eq!(cmds.len(), 2);
    }
}

#[test]
fn test_cmd_perform() {
    let cmd = perform();
    assert!(matches!(cmd, Cmd::Perform { .. }));
    assert!(!cmd.is_none());
}

#[test]
fn test_cmd_sleep() {
    let duration = Duration::from_secs(1);
    let cmd = TestCmd::sleep(duration);

    assert!(matches!(cmd, Cmd::Sleep { .. }));

    if let Cmd::Sleep { duration: d, then: t } = cmd {
        assert_eq!(d, duration);
        assert!(t.is_none());
    }
}

#[test]
fn test_cmd_and_then_none() {
    let cmd = TestCmd::none().and_then(Cmd::sleep(Duration::from_secs(1)));
    assert!(matches!(cmd, Cmd::Sleep { .. }));
}

#[test]
fn test_cmd_and_then_sleep() {
    let cmd = TestCmd::sleep(Duration::from_secs(1)).and_then(Cmd::sleep(Duration::from_secs(2)));

    assert!(matches!(cmd, Cmd::Sleep { .. }));

    if let Cmd::Sleep { duration, then } = cmd {
        assert_eq!(duration, Duration::from_secs(1));
        assert!(matches!(*then, Cmd::Sleep { .. }));

        if let Cmd::Sleep { duration, .. } = *then {
            assert_eq!(duration, Duration::from_secs(2));
        }
    }
}

#[test]
fn test_cmd_and_then_perform() {
    let cmd = perform().and_then(perform());

    assert!(matches!(cmd, Cmd::Batch(_)));

    if let Cmd::Batch(cmds) = cmd {
        assert_eq!(cmds.len(), 2);
    }
}

#[test]
fn test_cmd_and_then_chain() {
    let cmd = TestCmd::sleep(Duration::from_secs(1))
        .and_then(Cmd::sleep(Duration::from_secs(2)))
        .and_then(Cmd::sleep(Duration::from_secs(3)));

    assert!(matches!(cmd, Cmd::Sleep { .. }));
}

#[test]
fn and_then_noop_is_identity() {
    let cmd = perform().and_then(Cmd::none());
    assert!(matches!(cmd, Cmd::Perform { .. }));
    let slept = TestCmd::sleep(Duration::from_secs(1)).and_then(Cmd::none());
    if let Cmd::Sleep { duration, then } = slept {
        assert_eq!(duration, Duration::from_secs(1));
        assert!(then.is_none());
    } else {
        panic!("expected a pause");
    }
}

#[test]
fn test_cmd_map() {
    let cmd = TestCmd::none().map(|_| Cmd::sleep(Duration::from_secs(1)));
    assert!(matches!(cmd, Cmd::Sleep { .. }));
}

#[test]
fn test_cmd_map_wrap() {
    let cmd = perform().map(|c| Cmd::batch(vec![perform(), c, perform()]));

    assert!(matches!(cmd, Cmd::Batch(_)));

    if let Cmd::Batch(cmds) = cmd {
        assert_eq!(cmds.len(), 3);
    }
}

#[test]
fn test_cmd_nested_batch() {
    let cmd = TestCmd::batch(vec![
        Cmd::batch(vec![Cmd::sleep(Duration::from_secs(1))]),
        Cmd::batch(vec![Cmd::sleep(Duration::from_secs(2))]),
    ]);
    assert!(matches!(cmd, Cmd::Batch(_)));
}

#[test]
fn test_cmd_complex_composition() {
    let cmd = TestCmd::batch(vec![
        Cmd::sleep(Duration::from_secs(1)).and_then(perform()),
        perform().and_then(Cmd::sleep(Duration::from_secs(2))),
        Cmd::none(),
    ]);

    assert!(matches!(cmd, Cmd::Batch(_)));

    if let Cmd::Batch(cmds) = cmd {
        assert_eq!(cmds.len(), 2);
    }
}

#[test]
fn test_cmd_sequence_empty() {
    let cmd = TestCmd::sequence(vec![]);
    assert!(cmd.is_none());
}

#[test]
fn test_cmd_sequence_single() {
    let cmd = TestCmd::sequence(vec![Cmd::none()]);
    assert!(cmd.is_none());
}

#[test]
fn test_cmd_sequence_filters_none() {
    let cmd = TestCmd::sequence(vec![Cmd::none(), Cmd::none(), Cmd::none()]);
    assert!(cmd.is_none());
}

#[test]
fn test_cmd_sequence_single_non_none() {
    let cmd = TestCmd::sequence(vec![Cmd::none(), Cmd::sleep(Duration::from_secs(1)), Cmd::none()]);
    assert!(matches!(cmd, Cmd::Sleep { .. }));
}

#[test]
fn test_cmd_sequence_multiple() {
    let cmd = TestCmd::sequence(vec![Cmd::sleep(Duration::from_secs(1)), Cmd::sleep(Duration::from_secs(2))]);
    assert!(matches!(cmd, Cmd::Sequence(_)));

    if let Cmd::Sequence(cmds) = cmd {
        assert_eq!(cmds.len(), 2);
    }
}

#[test]
fn test_cmd_sequence_preserves_order() {
    let cmd = TestCmd::sequence(vec![
        Cmd::sleep(Duration::from_secs(1)),
        Cmd::sleep(Duration::from_secs(2)),
        Cmd::sleep(Duration::from_secs(3)),
    ]);

    if let Cmd::Sequence(cmds) = cmd {
        assert_eq!(cmds.len(), 3);
        if let Cmd::Sleep { duration, .. } = &cmds[0] {
            assert_eq!(*duration, Duration::from_secs(1));
        }
        if let Cmd::Sleep { duration, .. } = &cmds[1] {
            assert_eq!(*duration, Duration::from_secs(2));
        }
        if let Cmd::Sleep { duration, .. } = &cmds[2] {
            assert_eq!(*duration, Duration::from_secs(3));
        }
    }
}

#[test]
fn test_cmd_nested_sequence() {
    let cmd = TestCmd::sequence(vec![
        Cmd::sequence(vec![Cmd::sleep(Duration::from_secs(1))]),
        Cmd::sequence(vec![Cmd::sleep(Duration::from_secs(2))]),
    ]);
    assert!(matches!(cmd, Cmd::Sequence(_)));
}

#[test]
fn test_cmd_sequence_with_batch() {
    let cmd = TestCmd::sequence(vec![
        Cmd::batch(vec![Cmd::sleep(Duration::from_millis(100)), Cmd::sleep(Duration::from_millis(100))]),
        perform(),
    ]);

    assert!(matches!(cmd, Cmd::Sequence(_)));

    if let Cmd::Sequence(cmds) = cmd {
        assert_eq!(cmds.len(), 2);
        assert!(matches!(cmds[0], Cmd::Batch(_)));
        assert!(matches!(cmds[1], Cmd::Perform { .. }));
    }
}

#[test]
fn test_cmd_tick() {
    let duration = Duration::from_secs(1);
    let cmd = tick(duration);

    assert!(matches!(cmd, Cmd::Tick { .. }));

    if let Cmd::Tick { duration: d, callback: _ } = cmd {
        assert_eq!(d, duration);
    }
}

#[test]
fn test_cmd_tick_is_not_none() {
    let cmd = tick(Duration::from_millis(100));
    assert!(!cmd.is_none());
}

#[test]
fn test_cmd_every() {
    let duration = Duration::from_secs(1);
    let cmd = every(duration);

    assert!(matches!(cmd, Cmd::Every { .. }));

    if let Cmd::Every { duration: d, callback: _ } = cmd {
        assert_eq!(d, duration);
    }
}

#[test]
fn test_cmd_every_is_not_none() {
    let cmd = every(Duration::from_millis(100));
    assert!(!cmd.is_none());
}

#[test]
fn test_cmd_batch_with_tick() {
    let cmd = TestCmd::batch(vec![tick(Duration::from_millis(100)), tick(Duration::from_millis(200))]);

    assert!(matches!(cmd, Cmd::Batch(_)));
    if let Cmd::Batch(cmds) = cmd {
        assert_eq!(cmds.len(), 2);
    }
}

#[test]
fn test_cmd_sequence_with_tick() {
    let cmd = TestCmd::sequence(vec![tick(Duration::from_millis(100)), perform()]);

    assert!(matches!(cmd, Cmd::Sequence(_)));
    if let Cmd::Sequence(cmds) = cmd {
        assert_eq!(cmds.len(), 2);
    }
}

#[test]
fn test_cmd_batch_with_every() {
    let cmd = TestCmd::batch(vec![every(Duration::from_secs(1)), every(Duration::from_secs(2))]);

    assert!(matches!(cmd, Cmd::Batch(_)));
    if let Cmd::Batch(cmds) = cmd {
        assert_eq!(cmds.len(), 2);
    }
}

#[test]
fn test_cmd_complex_mixed_composition() {
    let cmd = TestCmd::sequence(vec![
        Cmd::batch(vec![tick(Duration::from_millis(50)), perform()]),
        Cmd::sleep(Duration::from_millis(100)),
        every(Duration::from_secs(1)),
    ]);

    assert!(matches!(cmd, Cmd::Sequence(_)));
    if let Cmd::Sequence(cmds) = cmd {
        assert_eq!(cmds.len(), 3);
        assert!(matches!(cmds[0], Cmd::Batch(_)));
        assert!(matches!(cmds[1], Cmd::Sleep { .. }));
        assert!(matches!(cmds[2], Cmd::Every { .. }));
    }
}

#[test]
fn test_delay_command() {
    let cmd = TestCmd::delay(Duration::from_millis(100), work as fn());
    assert!(matches!(cmd, Cmd::Sleep { .. }));
    if let Cmd::Sleep { then, .. } = cmd {
        assert!(matches!(*then, Cmd::Perform { .. }));
    }
}

#[test]
fn every_waits_until_the_next_clock_boundary() {
    // 12:34:56.789 with a one-second period: the tick comes at 12:34:57.000.
    let second: u64 = 1_000_000_000;
    let now: u64 = 45_296 * second + 789_000_000;
    assert_eq!(every_wait_nanos(now, second), 211_000_000);
    assert_eq!((now + every_wait_nanos(now, second)) % second, 0);
    // Exactly on a boundary: a whole period.
    assert_eq!(every_wait_nanos(3 * second, second), second);
    assert_eq!(every_wait_nanos(0, 7), 7);
    assert_eq!(every_wait_nanos(13, 5), 2);
}
