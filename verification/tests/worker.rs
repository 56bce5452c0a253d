use million::payload::{Code, GetJobResponse, ServiceError};
use million::worker::{
    decide, gave_up, may_attempt, poll, Next, Reply, MAX_ATTEMPTS, MAX_DELAY_MILLIS,
    MIN_DELAY_MILLIS,
};

fn a_job() -> GetJobResponse {
    GetJobResponse { id: 4, url: "https://example.com/".to_string(), lease: 17 }
}

#[test]
fn backoff_constants() {
    assert_eq!(MAX_ATTEMPTS, 128);
    assert_eq!(MIN_DELAY_MILLIS, 100);
    assert_eq!(MAX_DELAY_MILLIS, 10 * 60 * 1000);
}

#[test]
fn decide_on_each_reply() {
    match decide(3, Reply::Job(a_job()), Some(100)) {
        Next::Deliver(job) => {
            assert_eq!((job.id, job.url.as_str(), job.lease), (4, "https://example.com/", 17))
        }
        other => panic!("unexpected {:?}", other),
    }
    assert!(matches!(decide(3, Reply::Failed(Code::Internal), Some(100)), Next::Abort(Code::Internal)));
    assert!(matches!(decide(0, Reply::Empty, Some(100)), Next::Wait { millis: 100, attempt: 1 }));
    assert!(matches!(decide(126, Reply::Empty, Some(7)), Next::Wait { millis: 7, attempt: 127 }));
    assert!(matches!(decide(127, Reply::Empty, Some(7)), Next::GiveUp));
    assert!(matches!(decide(5, Reply::Empty, None), Next::GiveUp));
    assert!(matches!(decide(u32::MAX, Reply::Empty, Some(1)), Next::GiveUp));
}

#[test]
fn empty_queue_backoff() {
    let mut attempt = 0;
    let mut waits: Vec<u64> = Vec::new();
    let mut calls = 0;
    loop {
        assert!(may_attempt(attempt));
        calls += 1;
        match poll(attempt, Reply::Empty) {
            Next::Wait { millis, attempt: next } => {
                assert_eq!(next, attempt + 1);
                waits.push(millis);
                attempt = next;
            }
            Next::GiveUp => break,
            other => panic!("unexpected {:?}", other),
        }
    }
    assert_eq!(calls, 128);
    assert_eq!(waits.len(), 127);
    for w in &waits {
        assert!(MIN_DELAY_MILLIS <= *w && *w <= MAX_DELAY_MILLIS);
    }
    // 100 ms, 200 ms, 400 ms, each with the jitter that the backoff draws
    assert!(100 <= waits[0] && waits[0] <= 129, "{}", waits[0]);
    assert!(142 <= waits[1] && waits[1] <= 258, "{}", waits[1]);
    assert!(284 <= waits[2] && waits[2] <= 516, "{}", waits[2]);
    // capped at ten minutes
    for w in &waits[14..] {
        assert_eq!(*w, 600_000);
    }
    assert_eq!(gave_up(), ServiceError::Unreachable);
    assert_eq!(gave_up().code(), Code::Unavailable);
}

#[test]
fn poll_delivers_and_aborts() {
    assert!(matches!(poll(0, Reply::Job(a_job())), Next::Deliver(_)));
    assert!(matches!(poll(127, Reply::Job(a_job())), Next::Deliver(_)));
    assert!(matches!(poll(10, Reply::Failed(Code::Internal)), Next::Abort(Code::Internal)));
    assert!(matches!(poll(128, Reply::Empty), Next::GiveUp));
    assert!(matches!(poll(u32::MAX, Reply::Empty), Next::GiveUp));
    assert!(!may_attempt(128));
    assert!(may_attempt(127));
}

#[test]
fn waits_stay_in_the_window_of_their_attempt() {
    let windows: [(u32, u64, u64); 7] = [
        (0, 100, 129),
        (1, 142, 258),
        (2, 284, 516),
        (3, 568, 1032),
        (10, 72_704, 132_096),
        (13, 581_632, 600_000),
        (14, 600_000, 600_000),
    ];
    for (attempt, least, greatest) in windows {
        let mut lowest = u64::MAX;
        let mut highest = 0;
        for _ in 0..400 {
            match poll(attempt, Reply::Empty) {
                Next::Wait { millis, attempt: next } => {
                    assert_eq!(next, attempt + 1);
                    assert!(least <= millis && millis <= greatest, "{} at {}", millis, attempt);
                    lowest = lowest.min(millis);
                    highest = highest.max(millis);
                }
                other => panic!("unexpected {:?}", other),
            }
        }
        // the draws spread over the window: the wait is not a constant
        if least < greatest {
            assert!(lowest < highest, "attempt {}", attempt);
        }
    }
    for attempt in [32, 33, 64, 126] {
        assert!(matches!(
            poll(attempt, Reply::Empty),
            Next::Wait { millis: 600_000, attempt: _ }
        ));
    }
}
