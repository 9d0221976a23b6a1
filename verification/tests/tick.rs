use deck_counter::tick::{Direction, TickOutcome, TickScheduler, TICK_MS};

#[test]
fn tick_period_is_100_ms() {
    assert_eq!(TICK_MS, 100);
}

#[test]
fn new_scheduler_runs_nothing() {
    let s = TickScheduler::new(Direction::CountUp, 0);
    assert!(!s.is_running());
    assert_eq!(s.epoch, 0);
    assert_eq!(s.value_ms, 0);
}

#[test]
fn tick_without_start_exits() {
    let mut s = TickScheduler::new(Direction::CountUp, 0);
    assert_eq!(s.tick(0), TickOutcome::Exit);
    assert_eq!(s.value_ms, 0);
}

#[test]
fn count_up_renders_at_second_boundaries_only() {
    let mut s = TickScheduler::new(Direction::CountUp, 0);
    let e = s.start(0);
    let mut renders = Vec::new();
    for _ in 0..25 {
        match s.tick(e) {
            TickOutcome::Render(secs) => renders.push(secs),
            TickOutcome::Quiet => {}
            other => panic!("unexpected outcome {:?}", other),
        }
    }
    assert_eq!(s.value_ms, 2_500);
    assert_eq!(renders, vec![1, 2]);
}

#[test]
fn count_up_saturates() {
    let mut s = TickScheduler::new(Direction::CountUp, 0);
    let e = s.start(u64::MAX - 50);
    s.tick(e);
    assert_eq!(s.value_ms, u64::MAX);
    s.tick(e);
    assert_eq!(s.value_ms, u64::MAX);
    assert!(s.is_running());
}

#[test]
fn count_down_clamps_at_zero_and_expires() {
    let mut s = TickScheduler::new(Direction::CountDown, 0);
    let e = s.start(250);
    assert_eq!(s.tick(e), TickOutcome::Quiet);
    assert_eq!(s.value_ms, 150);
    assert_eq!(s.tick(e), TickOutcome::Quiet);
    assert_eq!(s.value_ms, 50);
    assert_eq!(s.tick(e), TickOutcome::Expired);
    assert_eq!(s.value_ms, 0);
    assert!(!s.is_running());
}

#[test]
fn expiry_fires_exactly_once() {
    let mut s = TickScheduler::new(Direction::CountDown, 0);
    let e = s.start(1_000);
    let mut expired = 0;
    for _ in 0..50 {
        if s.tick(e) == TickOutcome::Expired {
            expired += 1;
        }
        assert!(s.value_ms <= 1_000);
    }
    assert_eq!(expired, 1);
    assert_eq!(s.value_ms, 0);
    assert_eq!(s.tick(e), TickOutcome::Exit);
}

#[test]
fn count_down_renders_when_the_second_changes() {
    let mut s = TickScheduler::new(Direction::CountDown, 0);
    let e = s.start(2_000);
    assert_eq!(s.tick(e), TickOutcome::Render(1));
    assert_eq!(s.value_ms, 1_900);
    for _ in 0..9 {
        assert_eq!(s.tick(e), TickOutcome::Quiet);
    }
    assert_eq!(s.value_ms, 1_000);
    assert_eq!(s.tick(e), TickOutcome::Render(0));
}

#[test]
fn stop_supersedes_the_running_loop() {
    let mut s = TickScheduler::new(Direction::CountUp, 0);
    let e = s.start(0);
    s.tick(e);
    s.stop();
    assert!(!s.is_running());
    assert_eq!(s.tick(e), TickOutcome::Exit);
    assert_eq!(s.value_ms, 100);
    assert_ne!(s.epoch, e);
}

#[test]
fn start_stop_churn_leaves_one_live_loop() {
    let mut s = TickScheduler::new(Direction::CountUp, 0);
    let mut loops = Vec::new();
    for _ in 0..50 {
        loops.push(s.start(0));
        s.stop();
    }
    loops.push(s.start(0));
    let live = loops.iter().filter(|e| !s.cancel && **e == s.epoch).count();
    assert_eq!(live, 1);
    let periods = 37u64;
    for _ in 0..periods {
        for e in &loops {
            s.tick(*e);
        }
    }
    assert_eq!(s.value_ms, periods * TICK_MS);
}

#[test]
fn restart_supersedes_without_stop() {
    let mut s = TickScheduler::new(Direction::CountUp, 0);
    let e1 = s.start(0);
    let e2 = s.start(0);
    assert_eq!(s.tick(e1), TickOutcome::Exit);
    assert_eq!(s.tick(e2), TickOutcome::Quiet);
    assert_eq!(s.value_ms, 100);
}

#[test]
fn set_value_replaces_the_duration() {
    let mut s = TickScheduler::new(Direction::CountDown, 5);
    s.set_value(60_000);
    assert_eq!(s.value_ms, 60_000);
    assert!(!s.is_running());
}

#[test]
fn tick_at_zero_expires() {
    let mut s = TickScheduler::new(Direction::CountDown, 0);
    let e = s.start(0);
    assert_eq!(s.tick(e), TickOutcome::Expired);
    assert_eq!(s.tick(e), TickOutcome::Exit);
}
