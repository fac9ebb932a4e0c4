use ndc_sdk::throttle::{Decision, ThrottleCoordinator};

/// A caller of the simulated throttle.
enum Caller {
    Driving { wake_at: u64 },
    Waiting,
    Done(i32),
}

/// Drives a coordinator on a simulated clock (in milliseconds), with an
/// operation that returns a counter and increments it, as the callers'
/// runtime would.
struct Sim {
    now: u64,
    counter: i32,
    throttle: ThrottleCoordinator<i32>,
    callers: Vec<Caller>,
}

impl Sim {
    fn new(interval: u64) -> Sim {
        Sim { now: 0, counter: 0, throttle: ThrottleCoordinator::new(interval), callers: Vec::new() }
    }

    /// A new caller asks for a value; returns its index.
    fn call(&mut self) -> usize {
        let id = self.callers.len();
        let caller = match self.throttle.decide(self.now, id as u64) {
            Decision::Drive { delay } => Caller::Driving { wake_at: self.now + delay },
            Decision::Wait => Caller::Waiting,
            Decision::Ready(v) => Caller::Done(v),
        };
        self.callers.push(caller);
        self.run_due();
        id
    }

    /// A new caller whose driver, if it drives, runs the operation but has
    /// not published yet.
    fn call_and_hold(&mut self) -> usize {
        let id = self.callers.len();
        let caller = match self.throttle.decide(self.now, id as u64) {
            Decision::Drive { delay } => Caller::Driving { wake_at: self.now + delay },
            Decision::Wait => Caller::Waiting,
            Decision::Ready(v) => Caller::Done(v),
        };
        self.callers.push(caller);
        id
    }

    fn advance(&mut self, ms: u64) {
        self.now += ms;
        self.run_due();
    }

    /// Every driver whose delay is over runs the operation and publishes.
    fn run_due(&mut self) {
        for i in 0..self.callers.len() {
            if let Caller::Driving { wake_at } = self.callers[i] {
                if wake_at <= self.now {
                    self.finish(i);
                }
            }
        }
    }

    fn finish(&mut self, driver: usize) {
        let value = self.counter;
        self.counter += 1;
        let deliveries = self.throttle.publish(value);
        self.throttle.settle();
        for (w, v) in deliveries {
            self.callers[w as usize] = Caller::Done(v);
        }
        self.callers[driver] = Caller::Done(value);
    }

    fn result(&self, i: usize) -> Option<i32> {
        match self.callers[i] {
            Caller::Done(v) => Some(v),
            _ => None,
        }
    }
}

#[test]
fn makes_requests() {
    let mut sim = Sim::new(1000);
    assert_eq!(sim.counter, 0);
    let handle = sim.call();
    assert_eq!(sim.counter, 1);
    assert_eq!(sim.result(handle), Some(0));
}

#[test]
fn throttles_requests() {
    let mut sim = Sim::new(1000);
    assert_eq!(sim.counter, 0);
    let first = sim.call();
    let second = sim.call();
    assert_eq!(sim.counter, 1);

    sim.advance(500);
    assert_eq!(sim.counter, 1);

    sim.advance(501);
    assert_eq!(sim.counter, 2);

    assert_eq!(sim.result(first), Some(0));
    assert_eq!(sim.result(second), Some(1));
}

#[test]
fn requests_are_pooled_during_throttling() {
    let mut sim = Sim::new(1000);
    let expected = [0, 1, 1, 1, 1];
    let requests: Vec<usize> = expected.iter().map(|_| sim.call()).collect();
    assert_eq!(sim.counter, 1);

    sim.advance(500);
    assert_eq!(sim.counter, 1);

    sim.advance(501);
    assert_eq!(sim.counter, 2);

    sim.advance(60_000);
    assert_eq!(sim.counter, 2);

    for (value, request) in expected.iter().zip(requests) {
        assert_eq!(sim.result(request), Some(*value));
    }
}

#[test]
fn concurrent_callers_share_one_execution() {
    let mut sim = Sim::new(1000);
    let callers: Vec<usize> = (0..8).map(|_| sim.call_and_hold()).collect();
    assert!(matches!(sim.callers[0], Caller::Driving { wake_at: 0 }));
    for &c in &callers[1..] {
        assert!(matches!(sim.callers[c], Caller::Waiting));
    }
    sim.run_due();
    assert_eq!(sim.counter, 1);
    for c in callers {
        assert_eq!(sim.result(c), Some(0));
    }
}

#[test]
fn interval_gates_and_coalesces() {
    // calls at 0 and 0 share the first execution; the call at 500 drives the
    // second, which starts at 1000 and is still running at 1001, so the four
    // calls at 1001 join it.
    let mut sim = Sim::new(1000);
    let a = sim.call_and_hold();
    let b = sim.call_and_hold();
    sim.finish(a);
    sim.now = 500;
    let c = sim.call_and_hold();
    assert!(matches!(sim.callers[c], Caller::Driving { wake_at: 1000 }));
    // the operation started at 1000 and is still running
    sim.now = 1001;
    let later: Vec<usize> = (0..4).map(|_| sim.call_and_hold()).collect();
    sim.finish(c);
    assert_eq!(sim.counter, 2);
    assert_eq!(sim.result(a), Some(0));
    assert_eq!(sim.result(b), Some(0));
    assert_eq!(sim.result(c), Some(1));
    for l in later {
        assert_eq!(sim.result(l), Some(1));
    }
}

#[test]
fn interval_counts_from_start_of_execution() {
    let mut t: ThrottleCoordinator<i32> = ThrottleCoordinator::new(1000);
    assert!(matches!(t.decide(0, 0), Decision::Drive { delay: 0 }));
    t.publish(7);
    t.settle();
    // asked at 300: waits until 1000
    assert!(matches!(t.decide(300, 1), Decision::Drive { delay: 700 }));
    t.publish(8);
    t.settle();
    // that execution started at 1000, so the next may start at 2000
    assert!(matches!(t.decide(1500, 2), Decision::Drive { delay: 500 }));
    t.publish(9);
    t.settle();
    // long after: no delay
    assert!(matches!(t.decide(10_000, 3), Decision::Drive { delay: 0 }));
    assert_eq!(t.interval(), 1000);
}

#[test]
fn delay_is_clamped_at_end_of_clock() {
    let mut t: ThrottleCoordinator<i32> = ThrottleCoordinator::new(u64::MAX);
    assert!(matches!(t.decide(5, 0), Decision::Drive { delay: 0 }));
    t.publish(1);
    t.settle();
    assert!(matches!(t.decide(10, 1), Decision::Drive { delay } if delay == u64::MAX - 10));
}

#[test]
fn finished_execution_hands_out_its_value() {
    let mut t: ThrottleCoordinator<String> = ThrottleCoordinator::new(10);
    assert!(matches!(t.decide(0, 0), Decision::Drive { .. }));
    assert!(matches!(t.decide(0, 1), Decision::Wait));
    let deliveries = t.publish("value".to_string());
    assert_eq!(deliveries, vec![(1, "value".to_string())]);
    assert!(t.is_running());
    match t.decide(0, 2) {
        Decision::Ready(v) => assert_eq!(v, "value"),
        _ => panic!("expected the finished value"),
    }
    t.settle();
    assert!(!t.is_running());
    assert!(matches!(t.decide(3, 3), Decision::Drive { delay: 7 }));
}

#[test]
fn withdrawn_waiter_does_not_disturb_others() {
    let mut t: ThrottleCoordinator<i32> = ThrottleCoordinator::new(10);
    assert!(matches!(t.decide(0, 0), Decision::Drive { .. }));
    for w in 1..=4 {
        assert!(matches!(t.decide(0, w), Decision::Wait));
    }
    t.withdraw(2);
    t.withdraw(99);
    let deliveries = t.publish(5);
    assert_eq!(deliveries, vec![(1, 5), (3, 5), (4, 5)]);
}

#[test]
fn abandoned_driver_releases_waiters() {
    let mut t: ThrottleCoordinator<i32> = ThrottleCoordinator::new(10);
    assert!(matches!(t.decide(100, 0), Decision::Drive { delay: 0 }));
    assert!(matches!(t.decide(101, 1), Decision::Wait));
    assert!(matches!(t.decide(102, 2), Decision::Wait));
    assert_eq!(t.abandon(), vec![1, 2]);
    assert!(!t.is_running());
    // the abandoned execution counts as started at 100
    assert!(matches!(t.decide(103, 1), Decision::Drive { delay: 7 }));
}
