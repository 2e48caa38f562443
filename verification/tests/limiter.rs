use music_quiz::deezer::{QUOTA, WINDOW_MILLIS};
use music_quiz::limiter::{LimiterAction, LimiterEvent, LimiterPhase, RateLimiter};

/// Serves requests that arrive at the times of `arrivals`, in that order,
/// with a clock that begins at nothing and moves only while the limiter
/// waits for a request or sleeps. Gives the time at which each request left.
fn serve(quota: u32, window: u64, arrivals: &[u64]) -> Vec<u64> {
    let (mut limiter, mut action) = RateLimiter::start(quota, window);
    let mut launched = Vec::new();
    let mut queue = arrivals.iter();
    let mut clock = 0;
    loop {
        let take = match action {
            LimiterAction::Await => true,
            LimiterAction::Launch { more } => {
                launched.push(clock);
                more
            }
            LimiterAction::Sleep { since, millis } => {
                clock = clock.max(since + millis);
                action = limiter.step(LimiterEvent::Tick(clock));
                continue;
            }
            LimiterAction::Stop => return launched,
        };
        action = if !take {
            limiter.step(LimiterEvent::Settled)
        } else {
            match queue.next() {
                Some(arrival) => {
                    clock = clock.max(*arrival);
                    limiter.step(LimiterEvent::Request(clock))
                }
                None => limiter.step(LimiterEvent::Closed),
            }
        };
    }
}

/// The most requests that left in any window of `window`.
fn most_in_a_window(times: &[u64], window: u64) -> usize {
    times
        .iter()
        .map(|from| times.iter().filter(|t| *from <= **t && **t < *from + window).count())
        .max()
        .unwrap_or(0)
}

#[test]
fn fifty_requests_at_once_leave_in_two_batches() {
    let times = serve(QUOTA, WINDOW_MILLIS, &[1_000; 50]);
    assert_eq!(times.len(), 50);
    assert!(times[..45].iter().all(|t| *t == 1_000));
    assert!(times[45..].iter().all(|t| *t >= 1_000 + 5_000));
    assert!(times[45..].iter().all(|t| *t == 6_000));
}

#[test]
fn a_burst_after_an_idle_spell_is_held_to_the_quota_too() {
    // The limiter was made at 0; nothing arrives before 10 s have passed.
    let times = serve(QUOTA, WINDOW_MILLIS, &[10_000; 50]);
    assert!(times[..45].iter().all(|t| *t == 10_000));
    assert!(times[45..].iter().all(|t| *t == 15_000));
    assert_eq!(most_in_a_window(&times, WINDOW_MILLIS), 45);
}

#[test]
fn requests_that_trickle_into_a_batch_hold_the_next_batch_back() {
    // One request at once, 44 just before the window is over, 45 more then.
    let mut arrivals = vec![0];
    arrivals.extend([4_999; 44]);
    arrivals.extend([5_000; 45]);
    let times = serve(QUOTA, WINDOW_MILLIS, &arrivals);
    assert_eq!(times[0], 0);
    assert!(times[1..45].iter().all(|t| *t == 4_999));
    assert!(times[45..].iter().all(|t| *t == 9_999));
    assert_eq!(most_in_a_window(&times, WINDOW_MILLIS), 45);
}

#[test]
fn no_window_holds_more_than_the_quota_whenever_requests_arrive() {
    // Arrivals at steps that a small generator gives: bursts and gaps.
    let mut seed: u64 = 12_345;
    let mut at = 0;
    let mut arrivals = Vec::new();
    for _ in 0..600 {
        seed = seed.wrapping_mul(6_364_136_223_846_793_005).wrapping_add(1_442_695_040_888_963_407);
        let step = match (seed >> 33) % 8 {
            0 => 150,
            1 => 40,
            2 => 7,
            3 => 1,
            _ => 0,
        };
        at += step;
        arrivals.push(at);
    }
    let times = serve(7, 100, &arrivals);
    assert_eq!(times.len(), 600);
    assert!(times.windows(2).all(|w| w[0] <= w[1]));
    assert!(times.iter().zip(&arrivals).all(|(left, arrived)| left >= arrived));
    assert!(most_in_a_window(&times, 100) <= 7);
    for i in 0..times.len() - 7 {
        assert!(times[i + 7] - times[i] >= 100);
    }
}

#[test]
fn a_batch_takes_as_many_as_the_quota() {
    let (mut limiter, first) = RateLimiter::start(3, 5_000);
    assert_eq!(first, LimiterAction::Await);
    assert_eq!(limiter.phase(), LimiterPhase::Collecting);
    assert_eq!(limiter.taken(), 0);
    assert_eq!(limiter.step(LimiterEvent::Request(10)), LimiterAction::Launch { more: true });
    assert_eq!(limiter.taken(), 1);
    assert_eq!(limiter.step(LimiterEvent::Request(10)), LimiterAction::Launch { more: true });
    assert_eq!(limiter.step(LimiterEvent::Request(12)), LimiterAction::Launch { more: false });
    assert_eq!(limiter.taken(), 3);
    assert_eq!(limiter.phase(), LimiterPhase::Settling);
    assert_eq!(
        limiter.step(LimiterEvent::Settled),
        LimiterAction::Sleep { since: 12, millis: 5_000 }
    );
    assert_eq!(limiter.phase(), LimiterPhase::Resting);
    assert_eq!(limiter.step(LimiterEvent::Tick(5_012)), LimiterAction::Await);
    assert_eq!(limiter.taken(), 0);
    assert_eq!(limiter.phase(), LimiterPhase::Collecting);
}

#[test]
fn the_rest_is_measured_from_the_last_request_that_left() {
    let (mut limiter, _) = RateLimiter::start(2, 5_000);
    limiter.step(LimiterEvent::Request(100));
    limiter.step(LimiterEvent::Request(4_000));
    assert_eq!(
        limiter.step(LimiterEvent::Settled),
        LimiterAction::Sleep { since: 4_000, millis: 5_000 }
    );
    assert_eq!(limiter.step(LimiterEvent::Tick(9_000)), LimiterAction::Await);
    limiter.step(LimiterEvent::Request(20_000));
    limiter.step(LimiterEvent::Request(20_000));
    assert_eq!(
        limiter.step(LimiterEvent::Settled),
        LimiterAction::Sleep { since: 20_000, millis: 5_000 }
    );
}

#[test]
fn a_limiter_that_wakes_too_early_sleeps_again() {
    let (mut limiter, _) = RateLimiter::start(1, 5_000);
    limiter.step(LimiterEvent::Request(100));
    let rest = LimiterAction::Sleep { since: 100, millis: 5_000 };
    assert_eq!(limiter.step(LimiterEvent::Settled), rest);
    assert_eq!(limiter.step(LimiterEvent::Tick(100)), rest);
    assert_eq!(limiter.step(LimiterEvent::Tick(5_099)), rest);
    assert_eq!(limiter.phase(), LimiterPhase::Resting);
    assert_eq!(limiter.step(LimiterEvent::Tick(5_100)), LimiterAction::Await);
}

#[test]
fn the_largest_readings_of_the_clock_are_taken() {
    let (mut limiter, _) = RateLimiter::start(1, u64::MAX);
    assert_eq!(limiter.step(LimiterEvent::Request(u64::MAX)), LimiterAction::Launch { more: false });
    let rest = LimiterAction::Sleep { since: u64::MAX, millis: u64::MAX };
    assert_eq!(limiter.step(LimiterEvent::Settled), rest);
    // No reading of the clock is a window later: the limiter rests for good.
    assert_eq!(limiter.step(LimiterEvent::Tick(u64::MAX)), rest);
}

#[test]
fn a_closed_queue_stops_the_limiter() {
    let (mut limiter, _) = RateLimiter::start(3, 5_000);
    limiter.step(LimiterEvent::Request(0));
    assert_eq!(limiter.step(LimiterEvent::Closed), LimiterAction::Stop);
    assert_eq!(limiter.phase(), LimiterPhase::Stopped);
    assert_eq!(limiter.step(LimiterEvent::Request(1)), LimiterAction::Stop);
    assert_eq!(limiter.step(LimiterEvent::Tick(9)), LimiterAction::Stop);
    assert_eq!(limiter.taken(), 1);
}

#[test]
fn an_event_that_was_not_asked_for_stops_the_limiter() {
    let (mut collecting, _) = RateLimiter::start(3, 5_000);
    assert_eq!(collecting.step(LimiterEvent::Tick(1)), LimiterAction::Stop);

    let (mut collecting, _) = RateLimiter::start(3, 5_000);
    assert_eq!(collecting.step(LimiterEvent::Settled), LimiterAction::Stop);

    let (mut settling, _) = RateLimiter::start(1, 5_000);
    settling.step(LimiterEvent::Request(0));
    assert_eq!(settling.step(LimiterEvent::Request(0)), LimiterAction::Stop);
    assert_eq!(settling.taken(), 1);

    let (mut resting, _) = RateLimiter::start(1, 5_000);
    resting.step(LimiterEvent::Request(0));
    resting.step(LimiterEvent::Settled);
    assert_eq!(resting.step(LimiterEvent::Request(9_000)), LimiterAction::Stop);
}

#[test]
fn a_clock_that_runs_backwards_stops_the_limiter() {
    let (mut limiter, _) = RateLimiter::start(2, 5_000);
    limiter.step(LimiterEvent::Request(100));
    limiter.step(LimiterEvent::Request(100));
    limiter.step(LimiterEvent::Settled);
    assert_eq!(limiter.step(LimiterEvent::Tick(5_100)), LimiterAction::Await);
    assert_eq!(limiter.step(LimiterEvent::Request(5_099)), LimiterAction::Stop);
    assert_eq!(limiter.taken(), 0);
}

#[test]
fn a_quota_of_nothing_launches_nothing() {
    let (mut limiter, first) = RateLimiter::start(0, 5_000);
    assert_eq!(first, LimiterAction::Stop);
    assert_eq!(limiter.phase(), LimiterPhase::Stopped);
    assert_eq!(limiter.step(LimiterEvent::Request(7)), LimiterAction::Stop);
    assert_eq!(limiter.taken(), 0);
}
