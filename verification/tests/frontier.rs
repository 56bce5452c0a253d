use million::frontier::{
    lease_expiry, Frontier, FrontierError, Status, LEASE_DURATION, MAX_TIME,
};

#[test]
fn lease_runs_five_minutes() {
    assert_eq!(LEASE_DURATION, 300);
    assert_eq!(lease_expiry(0), 300);
    assert_eq!(lease_expiry(1_700_000_000), 1_700_000_300);
    assert_eq!(lease_expiry(MAX_TIME), i64::MAX);
}

#[test]
fn new_frontier_is_empty() {
    let mut f = Frontier::new();
    assert_eq!(f.len(), 0);
    assert!(f.claim_next(0).is_none());
    assert!(f.pending_urls().is_empty());
    assert!(f.get(1).is_none());
    assert!(f.get(0).is_none());
}

#[test]
fn enqueue_inserts_queued_row() {
    let mut f = Frontier::new();
    assert_eq!(f.enqueue("https://example.com/", 7), Ok(1));
    let job = f.get(1).unwrap();
    assert_eq!(job.id, 1);
    assert_eq!(job.url, "https://example.com/");
    assert_eq!(job.status, Status::Queued);
    assert_eq!(job.expiry, None);
    assert_eq!(job.last_updated, 7);
    assert_eq!(job.created_at, 7);
    assert_eq!(f.enqueue("https://example.org/", 8), Ok(2));
    assert_eq!(f.len(), 2);
}

#[test]
fn enqueue_refuses_known_url() {
    let mut f = Frontier::new();
    assert_eq!(f.enqueue("https://example.com/", 1), Ok(1));
    assert_eq!(f.enqueue("https://example.com/", 2), Err(FrontierError::DuplicateUrl));
    assert_eq!(f.len(), 1);
    assert_eq!(f.get(1).unwrap().last_updated, 1);
}

#[test]
fn one_row_per_url_after_mixed_operations() {
    let mut f = Frontier::new();
    let urls = ["https://a/", "https://b/", "https://a/", "https://c/", "https://b/"];
    for (t, u) in urls.iter().enumerate() {
        let _ = f.enqueue(u, t as i64);
        f.enqueue_if_absent(u, t as i64);
        let _ = f.claim_next(t as i64);
    }
    assert_eq!(f.len(), 3);
    for u in ["https://a/", "https://b/", "https://c/"] {
        let mut rows = 0;
        for id in 1..=f.len() as i32 {
            if f.get(id).unwrap().url == u {
                rows += 1;
            }
        }
        assert_eq!(rows, 1);
    }
}

#[test]
fn enqueue_if_absent_is_idempotent() {
    let mut f = Frontier::new();
    assert!(f.enqueue_if_absent("https://example.com/x", 1));
    for t in 2..20 {
        assert!(!f.enqueue_if_absent("https://example.com/x", t));
    }
    assert_eq!(f.len(), 1);
    let job = f.get(1).unwrap();
    assert_eq!(job.created_at, 1);
    assert_eq!(job.last_updated, 1);
    assert_eq!(job.status, Status::Queued);
}

#[test]
fn enqueue_if_absent_skips_rows_in_any_state() {
    let mut f = Frontier::new();
    f.enqueue("https://example.com/", 0).unwrap();
    f.claim_next(0).unwrap();
    assert!(!f.enqueue_if_absent("https://example.com/", 1));
    f.complete(1, "https://example.com/", 0, 2).unwrap();
    assert!(!f.enqueue_if_absent("https://example.com/", 3));
    assert_eq!(f.len(), 1);
    assert_eq!(f.get(1).unwrap().status, Status::Complete);
}

#[test]
fn claim_next_grants_lease() {
    let mut f = Frontier::new();
    f.enqueue("https://example.com/", 0).unwrap();
    let job = f.claim_next(100).unwrap();
    assert_eq!(job.id, 1);
    assert_eq!(job.status, Status::Executing);
    assert_eq!(job.expiry, Some(400));
    assert_eq!(job.last_updated, 100);
    assert_eq!(job.created_at, 0);
    let stored = f.get(1).unwrap();
    assert_eq!(stored.status, Status::Executing);
    assert_eq!(stored.expiry, Some(400));
}

#[test]
fn claim_next_takes_first_claimable() {
    let mut f = Frontier::new();
    f.enqueue("https://a/", 0).unwrap();
    f.enqueue("https://b/", 0).unwrap();
    f.enqueue("https://c/", 0).unwrap();
    assert_eq!(f.claim_next(1).unwrap().id, 1);
    assert_eq!(f.claim_next(2).unwrap().id, 2);
    f.complete(1, "https://a/", 1, 3).unwrap();
    assert_eq!(f.claim_next(4).unwrap().id, 3);
    assert!(f.claim_next(5).is_none());
    // the lease on row 2 ran out at 302
    assert!(f.claim_next(301).is_none());
    assert_eq!(f.claim_next(302).unwrap().id, 2);
}

#[test]
fn claim_with_two_callers_and_one_job() {
    let mut f = Frontier::new();
    f.enqueue("https://only/", 0).unwrap();
    let first = f.claim_next(10);
    let second = f.claim_next(10);
    assert_eq!(first.unwrap().id, 1);
    assert!(second.is_none());
}

#[test]
fn racing_leases_have_one_winner() {
    let mut f = Frontier::new();
    f.enqueue("https://only/", 0).unwrap();
    let seen_by_a = f.find_claimable(5).unwrap();
    let seen_by_b = f.find_claimable(5).unwrap();
    assert_eq!(seen_by_a.id, seen_by_b.id);
    assert!(f.lease(seen_by_a.id, seen_by_a.last_updated, 5));
    assert!(!f.lease(seen_by_b.id, seen_by_b.last_updated, 6));
    assert_eq!(f.get(1).unwrap().expiry, Some(305));
}

#[test]
fn lease_refuses_unknown_and_unclaimable_rows() {
    let mut f = Frontier::new();
    f.enqueue("https://only/", 0).unwrap();
    assert!(!f.lease(0, 0, 1));
    assert!(!f.lease(2, 0, 1));
    assert!(!f.lease(1, 99, 1));
    assert!(f.lease(1, 0, 1));
    // held under a live lease: not claimable
    assert!(!f.lease(1, 1, 2));
    // lease ran out
    assert!(f.lease(1, 1, 301));
}

#[test]
fn complete_clears_expiry() {
    let mut f = Frontier::new();
    f.enqueue("https://example.com/", 0).unwrap();
    f.claim_next(0).unwrap();
    assert_eq!(f.complete(1, "https://example.com/", 0, 299), Ok(()));
    let job = f.get(1).unwrap();
    assert_eq!(job.status, Status::Complete);
    assert_eq!(job.expiry, None);
    assert_eq!(job.last_updated, 299);
}

#[test]
fn complete_rejects_each_broken_precondition() {
    let mut f = Frontier::new();
    f.enqueue("https://example.com/", 0).unwrap();
    assert_eq!(f.complete(2, "https://example.com/", 0, 1), Err(FrontierError::NotFound));
    assert_eq!(f.complete(0, "https://example.com/", 0, 1), Err(FrontierError::NotFound));
    assert_eq!(f.complete(-1, "https://example.com/", 0, 1), Err(FrontierError::NotFound));
    assert_eq!(f.complete(1, "https://example.org/", 0, 1), Err(FrontierError::NotFound));
    assert_eq!(f.complete(1, "https://example.com/", 0, 1), Err(FrontierError::NotActive));
    f.claim_next(0).unwrap();
    assert_eq!(f.complete(1, "https://example.com/", 0, 300), Err(FrontierError::Expired));
    assert_eq!(f.complete(1, "https://example.com/", 0, 301), Err(FrontierError::Expired));
    assert_eq!(f.get(1).unwrap().status, Status::Executing);
    assert_eq!(f.complete(1, "https://example.com/", 0, 299), Ok(()));
    assert_eq!(f.complete(1, "https://example.com/", 0, 299), Err(FrontierError::NotActive));
}

#[test]
fn complete_job_is_never_handed_out_again() {
    let mut f = Frontier::new();
    f.enqueue("https://example.com/", 0).unwrap();
    f.claim_next(0).unwrap();
    f.complete(1, "https://example.com/", 0, 1).unwrap();
    for now in [1, 2, 300, 301, 1_000_000, MAX_TIME] {
        assert!(f.claim_next(now).is_none());
        assert!(f.find_claimable(now).is_none());
        assert!(!f.lease(1, 1, now));
    }
    assert_eq!(f.fail(1, "https://example.com/", 1, 5), Err(FrontierError::NotActive));
    assert_eq!(f.extend_lease(1, "https://example.com/", 1, 5), Err(FrontierError::NotActive));
    let job = f.get(1).unwrap();
    assert_eq!(job.status, Status::Complete);
    assert_eq!(job.expiry, None);
    assert_eq!(job.last_updated, 1);
}

#[test]
fn fail_requeues_the_job() {
    let mut f = Frontier::new();
    f.enqueue("https://example.com/", 0).unwrap();
    assert_eq!(f.fail(1, "https://example.com/", 0, 1), Err(FrontierError::NotActive));
    f.claim_next(1).unwrap();
    assert_eq!(f.fail(1, "https://other/", 1, 2), Err(FrontierError::NotFound));
    assert_eq!(f.fail(1, "https://example.com/", 1, 2), Ok(()));
    let job = f.get(1).unwrap();
    assert_eq!(job.status, Status::Queued);
    assert_eq!(job.expiry, None);
    assert_eq!(job.last_updated, 2);
    assert_eq!(f.claim_next(3).unwrap().id, 1);
}

#[test]
fn extend_lease_renews_from_now() {
    let mut f = Frontier::new();
    f.enqueue("https://example.com/", 0).unwrap();
    assert_eq!(f.extend_lease(1, "https://example.com/", 0, 1), Err(FrontierError::NotActive));
    f.claim_next(0).unwrap();
    assert_eq!(f.extend_lease(1, "https://example.com/", 0, 290), Ok(()));
    let job = f.get(1).unwrap();
    assert_eq!(job.expiry, Some(590));
    assert_eq!(job.last_updated, 290);
    assert_eq!(job.status, Status::Executing);
    // no precondition on the current expiry
    assert_eq!(f.extend_lease(1, "https://example.com/", 290, 10_000), Ok(()));
    assert_eq!(f.get(1).unwrap().expiry, Some(10_300));
    assert_eq!(f.extend_lease(2, "https://example.com/", 0, 1), Err(FrontierError::NotFound));
}

#[test]
fn a_lease_that_was_taken_over_is_lost() {
    let mut f = Frontier::new();
    f.enqueue("https://example.com/", 0).unwrap();
    let a = f.claim_next(0).unwrap();
    assert_eq!(a.last_updated, 0);
    let b = f.claim_next(301).unwrap();
    assert_eq!((b.id, b.last_updated, b.expiry), (1, 301, Some(601)));
    // under A's lease nothing is accepted any more
    for now in [301, 302, 600, 601, 10_000] {
        assert_eq!(f.complete(1, "https://example.com/", 0, now), Err(FrontierError::Expired));
        assert_eq!(f.fail(1, "https://example.com/", 0, now), Err(FrontierError::Expired));
        assert_eq!(f.extend_lease(1, "https://example.com/", 0, now), Err(FrontierError::Expired));
        assert_eq!(f.check_lease(1, "https://example.com/", 0, now), Err(FrontierError::Expired));
        assert_eq!(f.check_active(1, "https://example.com/", 0), Err(FrontierError::Expired));
    }
    let row = f.get(1).unwrap();
    assert_eq!((row.status, row.expiry, row.last_updated), (Status::Executing, Some(601), 301));
    // under B's lease the job is completed
    assert_eq!(f.check_active(1, "https://example.com/", 301), Ok(()));
    assert_eq!(f.check_lease(1, "https://example.com/", 301, 600), Ok(()));
    assert_eq!(f.complete(1, "https://example.com/", 301, 600), Ok(()));
}

#[test]
fn a_renewed_lease_replaces_the_one_before() {
    let mut f = Frontier::new();
    f.enqueue("https://example.com/", 0).unwrap();
    f.claim_next(0).unwrap();
    assert_eq!(f.extend_lease(1, "https://example.com/", 0, 290), Ok(()));
    assert_eq!(f.extend_lease(1, "https://example.com/", 0, 291), Err(FrontierError::Expired));
    assert_eq!(f.complete(1, "https://example.com/", 0, 292), Err(FrontierError::Expired));
    assert_eq!(f.complete(1, "https://example.com/", 290, 589), Ok(()));
}

#[test]
fn pending_urls_leave_out_complete_jobs() {
    let mut f = Frontier::new();
    f.enqueue("https://a/", 0).unwrap();
    f.enqueue("https://b/", 0).unwrap();
    f.enqueue("https://c/", 0).unwrap();
    f.claim_next(0).unwrap();
    f.claim_next(0).unwrap();
    f.complete(1, "https://a/", 0, 1).unwrap();
    assert_eq!(f.pending_urls(), vec!["https://b/".to_string(), "https://c/".to_string()]);
}

#[test]
fn position_of_and_contains() {
    let mut f = Frontier::new();
    f.enqueue("https://a/", 0).unwrap();
    f.enqueue("https://b/", 0).unwrap();
    assert_eq!(f.position_of("https://b/"), Some(1));
    assert_eq!(f.position_of("https://c/"), None);
    assert!(f.contains("https://a/"));
    assert!(!f.contains("https://a"));
}

#[test]
fn job_claimable_and_live_lease() {
    let mut f = Frontier::new();
    f.enqueue("https://a/", 0).unwrap();
    let queued = f.get(1).unwrap();
    assert!(queued.is_claimable(0));
    assert!(!queued.has_live_lease(0));
    let leased = f.claim_next(10).unwrap();
    assert!(!leased.is_claimable(309));
    assert!(leased.is_claimable(310));
    assert!(leased.has_live_lease(309));
    assert!(!leased.has_live_lease(310));
    let copy = leased.duplicate();
    assert_eq!(copy.id, leased.id);
    assert_eq!(copy.url, leased.url);
    assert_eq!(copy.expiry, leased.expiry);
}
