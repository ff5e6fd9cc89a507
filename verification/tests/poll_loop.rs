use vici_exporter::poll::{PollLoop, PollSchedule};

#[test]
fn schedule_fires_only_after_deadline() {
    let mut s = PollSchedule::new(10, 0);
    assert_eq!(s.next_deadline(), 10);
    assert!(!s.tick(5));
    assert_eq!(s.next_deadline(), 10);
    assert!(!s.tick(9));
    assert!(s.tick(10));
    assert_eq!(s.next_deadline(), 20);
}

#[test]
fn schedule_skips_missed_deadlines() {
    let mut s = PollSchedule::new(10, 0);
    assert!(s.tick(10));
    assert_eq!(s.next_deadline(), 20);
    // A poll overran until 47: the deadlines at 20, 30 and 40 are skipped,
    // not queued; the next tick fires at 50, one poll per elapsed period.
    assert!(s.tick(47));
    assert_eq!(s.next_deadline(), 50);
    assert!(!s.tick(49));
    assert!(s.tick(50));
    assert_eq!(s.next_deadline(), 60);
}

#[test]
fn schedule_stays_on_grid_when_tick_is_late() {
    let mut s = PollSchedule::new(7, 3);
    assert_eq!(s.next_deadline(), 10);
    assert!(s.tick(12));
    assert_eq!(s.next_deadline(), 17);
}

#[test]
fn loop_starts_poll_only_when_idle_and_due() {
    let mut l = PollLoop::new(10, 0);
    assert!(!l.on_tick(5));
    assert!(l.on_tick(10));
    // While the poll runs, further ticks never start a second poll.
    assert!(!l.on_tick(20));
    assert!(!l.on_tick(30));
    l.on_poll_done();
    // The slow poll finished at 31 with the 20 and 30 deadlines missed:
    // they collapse into a single immediate start — never a burst — and the
    // schedule moves to the next grid point.
    assert!(l.on_tick(31));
    assert_eq!(l.next_deadline(), 40);
    l.on_poll_done();
    assert!(!l.on_tick(35));
    assert!(l.on_tick(40));
    l.on_poll_done();
    assert_eq!(l.next_deadline(), 50);
}

#[test]
fn loop_never_bursts_after_slow_poll() {
    // Period 10, but every poll takes 25 time units, with the clock observed
    // once per unit. Skip semantics: after each slow poll at most one
    // pending tick fires at once, so polls start at 10, 35, 60 and 85 —
    // never a burst of queued catch-up polls.
    let mut l = PollLoop::new(10, 0);
    let mut start_times: Vec<u64> = Vec::new();
    let mut busy_until: u64 = 0;
    let mut polling = false;
    for now in 0..100u64 {
        if polling && now >= busy_until {
            l.on_poll_done();
            polling = false;
        }
        let started = l.on_tick(now);
        if polling {
            assert!(!started);
        } else if started {
            start_times.push(now);
            busy_until = now + 25;
            polling = true;
        }
    }
    assert_eq!(start_times, vec![10, 35, 60, 85]);
}
