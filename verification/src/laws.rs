//! What holds of the store whatever is done to it, stated over the models
//! that the operations' contracts use.

use crate::crawler::{after_return, index_upsert, resolved_links, return_verdict};
use crate::frontier::{
    after_claim, after_complete, after_enqueue, after_extend, after_fail, after_lease, claimable,
    complete_verdict, completed, evolves, holds_lease, knows, lease_end, lease_granted,
    lease_live, leased, queued_row,
    lemma_after_claim, lemma_after_complete, lemma_after_enqueue, lemma_after_extend,
    lemma_after_fail, lemma_after_lease, lemma_next_claimable, locate, next_claimable, rows_wf,
    row_wf, FrontierError, JobModel, Status, LEASE_DURATION, MAX_ROWS,
};
use crate::links::{listed, Listing};
use crate::payload::{code_of, BodyModel, Code, JobResultModel, OkPayloadModel, ServiceError};
use crate::search::index_entry_of;
use crate::weburl::parsed_url;
use crate::worker::{decided, NextModel, ReplyModel, MAX_ATTEMPTS};
use crate::text::{lemma_first_separator_is, split_by, Separator};
use crate::store::{
    after_ingest, after_search, db_wf, document_row, enqueue_all, has_room, html_of, image_rows,
    ingest_verdict,
    lemma_after_ingest, lemma_after_search, lemma_enqueue_all, lemma_evolves_trans,
    lemma_frontier_step, DbModel,
};
use vstd::prelude::*;

verus! {

/// One operation on the store.
pub enum Op {
    Enqueue { url: Seq<char> },
    EnqueueIfAbsent { url: Seq<char> },
    ClaimNext,
    Lease { id: int, seen: int },
    Fail { id: int, url: Seq<char>, lease: int },
    ExtendLease { id: int, url: Seq<char>, lease: int },
    Ingest {
        id: int,
        url: Seq<char>,
        lease: int,
        links: Seq<Seq<char>>,
        body: Option<BodyModel>,
    },
    ReturnJob { id: int, url: Seq<char>, lease: int, result: Option<JobResultModel> },
    RecordSearch { text: Seq<char> },
}

/// An operation and the instant at which it is done.
pub struct Event {
    pub op: Op,
    pub now: int,
}

/// The store after one operation.
pub open spec fn step(db: DbModel, event: Event) -> DbModel {
    let now = event.now;
    match event.op {
        Op::Enqueue { url } => DbModel { jobs: after_enqueue(db.jobs, url, now), ..db },
        Op::EnqueueIfAbsent { url } => DbModel { jobs: after_enqueue(db.jobs, url, now), ..db },
        Op::ClaimNext => DbModel { jobs: after_claim(db.jobs, now), ..db },
        Op::Lease { id, seen } => DbModel { jobs: after_lease(db.jobs, id, seen, now), ..db },
        Op::Fail { id, url, lease } => DbModel {
            jobs: after_fail(db.jobs, id, url, lease, now),
            ..db
        },
        Op::ExtendLease { id, url, lease } => DbModel {
            jobs: after_extend(db.jobs, id, url, lease, now),
            ..db
        },
        Op::Ingest { id, url, lease, links, body } => after_ingest(
            db,
            id,
            url,
            lease,
            links,
            body,
            now,
        ),
        Op::ReturnJob { id, url, lease, result } => after_return(db, id, url, lease, result, now),
        Op::RecordSearch { text } => DbModel { history: after_search(db.history, text, now), ..db },
    }
}

/// The store after a sequence of operations.
pub open spec fn run(db: DbModel, events: Seq<Event>) -> DbModel
    decreases events.len(),
{
    if events.len() == 0 {
        db
    } else {
        step(run(db, events.drop_last()), events.last())
    }
}

/// The store that holds nothing.
pub open spec fn empty_store() -> DbModel {
    DbModel {
        jobs: Seq::empty(),
        documents: Seq::empty(),
        images: Seq::empty(),
        history: Seq::empty(),
    }
}

/// Every operation keeps the store well formed: no URL in two rows, an
/// expiry exactly on the rows that are `Executing`, a `Complete` job behind
/// every document, and no URL with two documents. No operation removes a row,
/// changes a row's URL, or touches a `Complete` row.
pub proof fn law_step_keeps_invariants(db: DbModel, event: Event)
    requires
        db_wf(db),
    ensures
        db_wf(step(db, event)),
        evolves(db.jobs, step(db, event).jobs),
        db.documents.len() <= step(db, event).documents.len(),
        forall|d: int|
            0 <= d < db.documents.len() ==> step(db, event).documents[d] == db.documents[d],
{
    let now = event.now;
    match event.op {
        Op::Enqueue { url } => {
            lemma_after_enqueue(db.jobs, url, now);
            lemma_frontier_step(db, after_enqueue(db.jobs, url, now));
        },
        Op::EnqueueIfAbsent { url } => {
            lemma_after_enqueue(db.jobs, url, now);
            lemma_frontier_step(db, after_enqueue(db.jobs, url, now));
        },
        Op::ClaimNext => {
            lemma_after_claim(db.jobs, now);
            lemma_frontier_step(db, after_claim(db.jobs, now));
        },
        Op::Lease { id, seen } => {
            lemma_after_lease(db.jobs, id, seen, now);
            lemma_frontier_step(db, after_lease(db.jobs, id, seen, now));
        },
        Op::Fail { id, url, lease } => {
            lemma_after_fail(db.jobs, id, url, lease, now);
            lemma_frontier_step(db, after_fail(db.jobs, id, url, lease, now));
        },
        Op::ExtendLease { id, url, lease } => {
            lemma_after_extend(db.jobs, id, url, lease, now);
            lemma_frontier_step(db, after_extend(db.jobs, id, url, lease, now));
        },
        Op::Ingest { id, url, lease, links, body } => {
            lemma_after_ingest(db, id, url, lease, links, body, now);
        },
        Op::ReturnJob { id, url, lease, result } => {
            match result {
                Some(JobResultModel::Done(payload)) => {
                    lemma_after_ingest(
                        db,
                        id,
                        url,
                        lease,
                        resolved_links(url, payload.linked_urls),
                        payload.body,
                        now,
                    );
                },
                _ => {},
            }
        },
        Op::RecordSearch { text } => {
            lemma_after_search(db, text, now);
        },
    }
}

/// The invariants hold after any sequence of operations.
pub proof fn law_run_keeps_invariants(db: DbModel, events: Seq<Event>)
    requires
        db_wf(db),
    ensures
        db_wf(run(db, events)),
        evolves(db.jobs, run(db, events).jobs),
        db.documents.len() <= run(db, events).documents.len(),
        forall|d: int|
            0 <= d < db.documents.len() ==> run(db, events).documents[d] == db.documents[d],
    decreases events.len(),
{
    if events.len() > 0 {
        let mid = run(db, events.drop_last());
        law_run_keeps_invariants(db, events.drop_last());
        law_step_keeps_invariants(mid, events.last());
        lemma_evolves_trans(db.jobs, mid.jobs, run(db, events).jobs);
    }
}

/// After any sequence of operations on a store that started empty, no URL
/// has two rows in the frontier.
pub proof fn law_one_row_per_url(events: Seq<Event>, i: int, j: int)
    requires
        0 <= i < run(empty_store(), events).jobs.len(),
        0 <= j < run(empty_store(), events).jobs.len(),
        run(empty_store(), events).jobs[i].url == run(empty_store(), events).jobs[j].url,
    ensures
        i == j,
{
    law_run_keeps_invariants(empty_store(), events);
    let jobs = run(empty_store(), events).jobs;
    if i < j {
        assert(jobs[i].url != jobs[j].url);
    } else if j < i {
        assert(jobs[j].url != jobs[i].url);
    }
}

/// A `Complete` job has no expiry, is never handed out, and is the same row
/// after any sequence of operations.
pub proof fn law_complete_is_terminal(db: DbModel, at: int, events: Seq<Event>, now: int)
    requires
        db_wf(db),
        0 <= at < db.jobs.len(),
        db.jobs[at].status == Status::Complete,
    ensures
        db.jobs[at].expiry is None,
        !claimable(db.jobs[at], now),
        next_claimable(db.jobs, now, 0) != at,
        run(db, events).jobs[at] == db.jobs[at],
        next_claimable(run(db, events).jobs, now, 0) != at,
{
    law_run_keeps_invariants(db, events);
    lemma_next_claimable(db.jobs, now, 0);
    lemma_next_claimable(run(db, events).jobs, now, 0);
}

/// After any sequence of operations on a store that started empty, every
/// document has a job with its URL that is `Complete`.
pub proof fn law_document_has_complete_job(events: Seq<Event>, d: int)
    requires
        0 <= d < run(empty_store(), events).documents.len(),
    ensures
        exists|i: int|
            0 <= i < run(empty_store(), events).jobs.len() && (#[trigger] run(
                empty_store(),
                events,
            ).jobs[i]).url == run(empty_store(), events).documents[d].url && run(
                empty_store(),
                events,
            ).jobs[i].status == Status::Complete,
{
    law_run_keeps_invariants(empty_store(), events);
    let db = run(empty_store(), events);
    assert(crate::store::has_complete_job(db.jobs, db.documents[d].url));
}

/// Once the result of a job has been recorded, recording it again is
/// refused and changes nothing, whenever it is tried, whichever lease is
/// named, and whatever happened in between. So the page's document is stored
/// exactly once.
pub proof fn law_document_stored_once(
    db: DbModel,
    id: int,
    url: Seq<char>,
    lease: int,
    links: Seq<Seq<char>>,
    body: Option<BodyModel>,
    now: int,
    events: Seq<Event>,
    lease_again: int,
    links_again: Seq<Seq<char>>,
    body_again: Option<BodyModel>,
    later: int,
)
    requires
        db_wf(db),
        ingest_verdict(db, id, url, lease, links, body, now) is Ok,
    ensures
        ({
            let first = after_ingest(db, id, url, lease, links, body, now);
            let between = run(first, events);
            &&& first.jobs[id - 1].status == Status::Complete
            &&& html_of(body) is Some ==> {
                &&& first.documents.len() == db.documents.len() + 1
                &&& first.documents.last().url == url
                &&& forall|d: int|
                    0 <= d < db.documents.len() ==> (#[trigger] first.documents[d]).url != url
            }
            &&& html_of(body) is None ==> first.documents == db.documents
            &&& ingest_verdict(between, id, url, lease_again, links_again, body_again, later)
                == Err::<(), FrontierError>(FrontierError::NotActive)
            &&& after_ingest(between, id, url, lease_again, links_again, body_again, later)
                == between
        }),
{
    let first = after_ingest(db, id, url, lease, links, body, now);
    let done = after_complete(db.jobs, id, url, lease, now);
    lemma_after_ingest(db, id, url, lease, links, body, now);
    lemma_after_complete(db.jobs, id, url, lease, now);
    lemma_enqueue_all(done, links, now);
    assert(first.jobs[id - 1] == done[id - 1]);
    law_run_keeps_invariants(first, events);
    if html_of(body) is Some {
        assert forall|d: int| 0 <= d < db.documents.len() implies (
        #[trigger] first.documents[d]).url != url by {
            assert(first.documents[d].url != first.documents[db.documents.len() as int].url);
        }
    }
}

/// Recording the result of a job that is `Complete` already is refused and
/// changes nothing: no second document is made.
pub proof fn law_return_after_complete(
    db: DbModel,
    id: int,
    url: Seq<char>,
    lease: int,
    result: Option<JobResultModel>,
    now: int,
)
    requires
        db_wf(db),
        1 <= id <= db.jobs.len(),
        db.jobs[id - 1].status == Status::Complete,
    ensures
        after_return(db, id, url, lease, result, now) == db,
        after_return(db, id, url, lease, result, now).documents == db.documents,
{
}

/// The frontier after `enqueue_if_absent` of `url` at each of `times`.
pub open spec fn enqueue_repeatedly(jobs: Seq<JobModel>, url: Seq<char>, times: Seq<int>) -> Seq<
    JobModel,
>
    decreases times.len(),
{
    if times.len() == 0 {
        jobs
    } else {
        after_enqueue(enqueue_repeatedly(jobs, url, times.drop_last()), url, times.last())
    }
}

/// `enqueue_if_absent` is idempotent: any number of calls for one URL,
/// one at least, leaves the frontier as the first call left it, with exactly
/// one row for the URL if the table had room.
pub proof fn law_enqueue_if_absent_idempotent(jobs: Seq<JobModel>, url: Seq<char>, times: Seq<int>)
    requires
        rows_wf(jobs),
        times.len() >= 1,
    ensures
        enqueue_repeatedly(jobs, url, times) == after_enqueue(jobs, url, times[0]),
        jobs.len() < MAX_ROWS ==> knows(enqueue_repeatedly(jobs, url, times), url),
        forall|i: int, j: int|
            0 <= i < enqueue_repeatedly(jobs, url, times).len() && 0 <= j < enqueue_repeatedly(
                jobs,
                url,
                times,
            ).len() && (#[trigger] enqueue_repeatedly(jobs, url, times)[i]).url == url && (
            #[trigger] enqueue_repeatedly(jobs, url, times)[j]).url == url ==> i == j,
    decreases times.len(),
{
    let first = after_enqueue(jobs, url, times[0]);
    lemma_after_enqueue(jobs, url, times[0]);
    if times.len() == 1 {
        assert(times.drop_last().len() == 0);
        assert(enqueue_repeatedly(jobs, url, times.drop_last()) == jobs);
    } else {
        law_enqueue_if_absent_idempotent(jobs, url, times.drop_last());
        assert(times.drop_last()[0] == times[0]);
        if jobs.len() < MAX_ROWS {
            assert(knows(first, url));
        }
    }
    let last = enqueue_repeatedly(jobs, url, times);
    assert(last == first);
    assert forall|i: int, j: int|
        0 <= i < last.len() && 0 <= j < last.len() && (#[trigger] last[i]).url == url && (
        #[trigger] last[j]).url == url implies i == j by {
        if i < j {
            assert(last[i].url != last[j].url);
        } else if j < i {
            assert(last[j].url != last[i].url);
        }
    }
}

/// Of two callers that ask for a job one after the other, where one job
/// only can be handed out, the first is given it and the second, asking
/// before the first one's lease has run out, is given none.
pub proof fn law_one_claim_wins(jobs: Seq<JobModel>, at: int, now: int, later: int)
    requires
        rows_wf(jobs),
        0 <= at < jobs.len(),
        claimable(jobs[at], now),
        forall|k: int| 0 <= k < jobs.len() && k != at ==> !claimable(#[trigger] jobs[k], later),
        now <= later < lease_end(now),
    ensures
        next_claimable(jobs, now, 0) <= at,
        next_claimable(jobs, now, 0) == at ==> next_claimable(after_claim(jobs, now), later, 0)
            == jobs.len(),
        next_claimable(jobs, now, 0) == at ==> after_claim(after_claim(jobs, now), later)
            == after_claim(jobs, now),
{
    lemma_next_claimable(jobs, now, 0);
    if next_claimable(jobs, now, 0) > at {
        assert(!claimable(jobs[at], now));
    }
    if next_claimable(jobs, now, 0) == at {
        let after = after_claim(jobs, now);
        lemma_next_claimable(after, later, 0);
        let next = next_claimable(after, later, 0);
        if next < after.len() {
            if next != at {
                assert(after[next] == jobs[next]);
                assert(!claimable(jobs[next], later));
            }
        }
    }
}

/// Of two callers that saw the same row and both try to lease it, the
/// first is granted the lease and the second is not. For a row whose lease
/// had run out this always holds; for a row that waited in the queue it
/// holds provided the first one's clock had moved on from the instant at
/// which the row was queued.
pub proof fn law_one_lease_wins(jobs: Seq<JobModel>, id: int, seen: int, now: int, later: int)
    requires
        rows_wf(jobs),
        lease_granted(jobs, id, seen, now),
        jobs[id - 1].status == Status::Queued ==> now != seen,
    ensures
        !lease_granted(after_lease(jobs, id, seen, now), id, seen, later),
        after_lease(after_lease(jobs, id, seen, now), id, seen, later) == after_lease(
            jobs,
            id,
            seen,
            now,
        ),
{
}

/// A worker whose lease has run out cannot record its result: the
/// ingestion is refused as expired and changes nothing, and the job can be
/// handed out again.
pub proof fn law_expired_lease(
    db: DbModel,
    id: int,
    url: Seq<char>,
    lease: int,
    links: Seq<Seq<char>>,
    body: Option<BodyModel>,
    now: int,
)
    requires
        db_wf(db),
        locate(db.jobs, id, url) is Some,
        db.jobs[id - 1].status == Status::Executing,
        db.jobs[id - 1].expiry->0 <= now,
    ensures
        ingest_verdict(db, id, url, lease, links, body, now) == Err::<(), FrontierError>(
            FrontierError::Expired,
        ),
        after_ingest(db, id, url, lease, links, body, now) == db,
        claimable(db.jobs[id - 1], now),
        lease_granted(db.jobs, id, db.jobs[id - 1].last_updated, now),
{
}

/// The store after the job `id`, whose lease had run out, was handed out
/// again at `now`.
pub open spec fn taken_over(db: DbModel, id: int, now: int) -> DbModel {
    DbModel { jobs: after_lease(db.jobs, id, db.jobs[id - 1].last_updated, now), ..db }
}

/// A lease that was taken over is lost. Worker A holds the job under the
/// lease `first` and stalls; the lease runs out; at `now` the job is handed
/// out again, to worker B, under the lease `now`. Whatever A then asks under
/// its lease, at whatever time, while B's lease is live or after: its result
/// is refused as expired, with the status code `InvalidArgument`, and neither
/// its result, nor a request to keep the job alive, nor a report of failure
/// changes the store. B's result, handed back while its lease is live, is
/// recorded, if the tables have room.
pub proof fn law_lease_taken_over(
    db: DbModel,
    id: int,
    url: Seq<char>,
    first: int,
    now: int,
    late: int,
    result: Option<JobResultModel>,
    links: Seq<Seq<char>>,
    body: Option<BodyModel>,
    later: int,
)
    requires
        db_wf(db),
        locate(db.jobs, id, url) is Some,
        holds_lease(db.jobs[id - 1], first),
        db.jobs[id - 1].expiry->0 <= now,
        now <= later < lease_end(now),
    ensures
        // the job is handed out again, by `lease` as by `claim_next`
        lease_granted(db.jobs, id, first, now),
        next_claimable(db.jobs, now, 0) == id - 1 ==> after_claim(db.jobs, now) == taken_over(
            db,
            id,
            now,
        ).jobs,
        holds_lease(taken_over(db, id, now).jobs[id - 1], now),
        taken_over(db, id, now).jobs[id - 1].expiry == Some(lease_end(now)),
        // A's lease is lost
        ingest_verdict(taken_over(db, id, now), id, url, first, links, body, late) == Err::<
            (),
            FrontierError,
        >(FrontierError::Expired),
        after_ingest(taken_over(db, id, now), id, url, first, links, body, late) == taken_over(
            db,
            id,
            now,
        ),
        result matches Some(JobResultModel::Done(_)) ==> {
            &&& return_verdict(taken_over(db, id, now), id, url, first, result, late) is Err
            &&& code_of(return_verdict(taken_over(db, id, now), id, url, first, result, late)->Err_0)
                == Code::InvalidArgument
        },
        after_return(taken_over(db, id, now), id, url, first, result, late) == taken_over(
            db,
            id,
            now,
        ),
        after_extend(taken_over(db, id, now).jobs, id, url, first, late) == taken_over(
            db,
            id,
            now,
        ).jobs,
        after_fail(taken_over(db, id, now).jobs, id, url, first, late) == taken_over(
            db,
            id,
            now,
        ).jobs,
        // B's lease is good
        complete_verdict(taken_over(db, id, now).jobs, id, url, now, later) is Ok,
        has_room(taken_over(db, id, now), links, body) ==> {
            &&& ingest_verdict(taken_over(db, id, now), id, url, now, links, body, later) is Ok
            &&& after_ingest(
                taken_over(db, id, now),
                id,
                url,
                now,
                links,
                body,
                later,
            ).jobs[id - 1].status == Status::Complete
        },
{
    let taken = taken_over(db, id, now);
    assert(row_wf(db.jobs[id - 1]));
    assert(first + LEASE_DURATION <= now);
    assert(taken.jobs[id - 1] == leased(db.jobs[id - 1], now));
    assert(!holds_lease(taken.jobs[id - 1], first));
    lemma_next_claimable(db.jobs, now, 0);
    if has_room(taken, links, body) {
        lemma_after_lease(db.jobs, id, first, now);
        let done = after_complete(taken.jobs, id, url, now, later);
        lemma_after_complete(taken.jobs, id, url, now, later);
        lemma_enqueue_all(done, links, later);
    }
}

/// A lease that was granted or renewed at `now` is live until
/// `LEASE_DURATION` later, and not beyond.
pub proof fn law_lease_window(job: JobModel, now: int, at: int)
    ensures
        lease_live(leased(job, now), at) == (at < now + LEASE_DURATION),
        claimable(leased(job, now), at) == (at >= now + LEASE_DURATION),
{
}

/// A refresh whose `content` has no second piece after a semicolon, and
/// so one whose `content` holds no semicolon at all, contributes no URL.
pub proof fn law_refresh_needs_second_segment(content: Seq<char>)
    ensures
        split_by(content, Separator::Char(';')).len() < 2 ==> listed(Listing::Refresh, content)
            == Seq::<Seq<char>>::empty(),
        (forall|k: int| 0 <= k < content.len() ==> #[trigger] content[k] != ';') ==> listed(
            Listing::Refresh,
            content,
        ) == Seq::<Seq<char>>::empty(),
{
    if forall|k: int| 0 <= k < content.len() ==> #[trigger] content[k] != ';' {
        lemma_first_separator_is(content, Separator::Char(';'), 0, content.len() as int);
        assert(split_by(content, Separator::Char(';')) =~= seq![content]);
    }
}

/// The times of the events do not go back.
pub open spec fn times_ordered(events: Seq<Event>) -> bool {
    forall|i: int, j: int|
        0 <= i <= j < events.len() ==> (#[trigger] events[i]).now <= (#[trigger] events[j]).now
}

/// No row was written after `now`.
pub open spec fn written_by(jobs: Seq<JobModel>, now: int) -> bool {
    forall|i: int| 0 <= i < jobs.len() ==> (#[trigger] jobs[i]).last_updated <= now
}

/// Each row is as it was, or was written at `now`.
pub open spec fn rewritten(before: Seq<JobModel>, after: Seq<JobModel>, now: int) -> bool {
    &&& before.len() <= after.len()
    &&& forall|i: int|
        0 <= i < after.len() ==> (i < before.len() && (#[trigger] after[i]) == before[i])
            || after[i].last_updated == now
}

/// Queuing links writes new rows only, at `now`.
pub proof fn lemma_enqueue_all_rewrites(jobs: Seq<JobModel>, links: Seq<Seq<char>>, now: int)
    ensures
        rewritten(jobs, enqueue_all(jobs, links, now), now),
    decreases links.len(),
{
    if links.len() > 0 {
        lemma_enqueue_all_rewrites(jobs, links.drop_last(), now);
    }
}

/// Every operation leaves a row as it was or writes `last_updated = now`.
pub proof fn law_step_writes_now(db: DbModel, event: Event)
    requires
        db_wf(db),
    ensures
        rewritten(db.jobs, step(db, event).jobs, event.now),
{
    let now = event.now;
    match event.op {
        Op::ClaimNext => {
            lemma_next_claimable(db.jobs, now, 0);
        },
        Op::Ingest { id, url, lease, links, body } => {
            lemma_enqueue_all_rewrites(after_complete(db.jobs, id, url, lease, now), links, now);
        },
        Op::ReturnJob { id, url, lease, result } => {
            match result {
                Some(JobResultModel::Done(payload)) => {
                    lemma_enqueue_all_rewrites(
                        after_complete(db.jobs, id, url, lease, now),
                        resolved_links(url, payload.linked_urls),
                        now,
                    );
                },
                _ => {},
            }
        },
        _ => {},
    }
}

/// `last_updated` is monotonic per row: over events whose times do not go
/// back, on a store in which no row was written after the first of them, no
/// row's `last_updated` ever decreases.
pub proof fn law_last_updated_grows(db: DbModel, events: Seq<Event>)
    requires
        db_wf(db),
        times_ordered(events),
        events.len() > 0 ==> written_by(db.jobs, events[0].now),
    ensures
        db.jobs.len() <= run(db, events).jobs.len(),
        forall|i: int|
            0 <= i < db.jobs.len() ==> db.jobs[i].last_updated <= (#[trigger] run(
                db,
                events,
            ).jobs[i]).last_updated,
        events.len() > 0 ==> written_by(run(db, events).jobs, events.last().now),
    decreases events.len(),
{
    if events.len() > 0 {
        let earlier = events.drop_last();
        let mid = run(db, earlier);
        let last = events.last();
        assert forall|i: int, j: int| 0 <= i <= j < earlier.len() implies (
        #[trigger] earlier[i]).now <= (#[trigger] earlier[j]).now by {
            assert(events[i].now <= events[j].now);
        }
        if earlier.len() > 0 {
            assert(earlier[0] == events[0]);
            assert(earlier.last() == events[events.len() - 2]);
            assert(events[events.len() - 2].now <= events[events.len() - 1].now);
        }
        law_last_updated_grows(db, earlier);
        law_run_keeps_invariants(db, earlier);
        law_step_writes_now(mid, last);
        assert(written_by(mid.jobs, last.now));
        let end = run(db, events);
        assert forall|i: int| 0 <= i < db.jobs.len() implies db.jobs[i].last_updated <= (
        #[trigger] end.jobs[i]).last_updated by {
            assert(db.jobs[i].last_updated <= mid.jobs[i].last_updated);
            assert(mid.jobs[i].last_updated <= last.now);
        }
        assert forall|i: int| 0 <= i < end.jobs.len() implies (#[trigger] end.jobs[i]).last_updated
            <= last.now by {
            if i < mid.jobs.len() && end.jobs[i] == mid.jobs[i] {
                assert(mid.jobs[i].last_updated <= last.now);
            }
        }
    }
}

/// Queuing links makes each of them known, adds only `Queued` rows without
/// expiry, written at `now`, and leaves every row that was there as it was.
pub proof fn lemma_enqueue_all_knows(jobs: Seq<JobModel>, links: Seq<Seq<char>>, now: int)
    requires
        rows_wf(jobs),
        jobs.len() + links.len() <= MAX_ROWS,
    ensures
        forall|k: int|
            0 <= k < links.len() ==> knows(enqueue_all(jobs, links, now), #[trigger] links[k]),
        forall|i: int|
            jobs.len() <= i < enqueue_all(jobs, links, now).len() ==> (#[trigger] enqueue_all(
                jobs,
                links,
                now,
            )[i]) == queued_row(enqueue_all(jobs, links, now)[i].url, now),
    decreases links.len(),
{
    if links.len() > 0 {
        let mid = enqueue_all(jobs, links.drop_last(), now);
        let after = enqueue_all(jobs, links, now);
        lemma_enqueue_all_knows(jobs, links.drop_last(), now);
        lemma_enqueue_all(jobs, links.drop_last(), now);
        lemma_after_enqueue(mid, links.last(), now);
        assert forall|k: int| 0 <= k < links.len() implies knows(after, #[trigger] links[k]) by {
            if k < links.len() - 1 {
                assert(links.drop_last()[k] == links[k]);
                assert(knows(mid, links[k]));
                let at = choose|at: int| 0 <= at < mid.len() && (#[trigger] mid[at]).url == links[k];
                assert(after[at].url == links[k]);
            }
        }
    }
}

/// What a result does to the store when the worker names its live lease,
/// the job's URL can be read, and the tables have room. The answer is `Ok`.
/// The job's row becomes `Complete`, without expiry, written at `now`, with
/// its URL and creation time as they were; no row is removed and no other
/// row that was there changes. Each link that can be resolved has exactly one
/// row afterwards, however often it occurs; a row that is added is `Queued`,
/// without expiry. For an HTML page one document is stored, with the page's
/// fields, and one image row for each of its images, with the document as
/// source; the answer carries the document's entry for the search index.
pub proof fn law_return_records(
    db: DbModel,
    id: int,
    url: Seq<char>,
    lease: int,
    payload: OkPayloadModel,
    now: int,
)
    requires
        db_wf(db),
        parsed_url(url) is Some,
        locate(db.jobs, id, url) is Some,
        holds_lease(db.jobs[id - 1], lease),
        lease_live(db.jobs[id - 1], now),
        has_room(db, resolved_links(url, payload.linked_urls), payload.body),
    ensures
        ({
            let result = Some(JobResultModel::Done(payload));
            let links = resolved_links(url, payload.linked_urls);
            let after = after_return(db, id, url, lease, result, now);
            &&& return_verdict(db, id, url, lease, result, now) is Ok
            &&& db_wf(after)
            &&& after.jobs.len() >= db.jobs.len()
            &&& after.jobs[id - 1] == completed(db.jobs[id - 1], now)
            &&& forall|i: int|
                0 <= i < db.jobs.len() && i != id - 1 ==> (#[trigger] after.jobs[i]) == db.jobs[i]
            &&& forall|i: int|
                db.jobs.len() <= i < after.jobs.len() ==> (#[trigger] after.jobs[i]) == queued_row(
                    after.jobs[i].url,
                    now,
                )
            &&& forall|k: int| 0 <= k < links.len() ==> knows(after.jobs, #[trigger] links[k])
            &&& forall|i: int, j: int|
                0 <= i < after.jobs.len() && 0 <= j < after.jobs.len() && (
                #[trigger] after.jobs[i]).url == (#[trigger] after.jobs[j]).url ==> i == j
            &&& match html_of(payload.body) {
                Some(html) => {
                    &&& after.documents == db.documents.push(document_row(url, html, now))
                    &&& after.images == db.images + image_rows(
                        html.images,
                        db.documents.len() as int + 1,
                        now,
                    )
                    &&& index_upsert(db, id, url, lease, result, now) == Some(
                        index_entry_of(db.documents.len() as int + 1, document_row(url, html, now)),
                    )
                },
                None => {
                    &&& after.documents == db.documents
                    &&& after.images == db.images
                    &&& index_upsert(db, id, url, lease, result, now) is None
                },
            }
        }),
{
    let result = Some(JobResultModel::Done(payload));
    let links = resolved_links(url, payload.linked_urls);
    let after = after_return(db, id, url, lease, result, now);
    let done = after_complete(db.jobs, id, url, lease, now);
    lemma_after_ingest(db, id, url, lease, links, payload.body, now);
    lemma_after_complete(db.jobs, id, url, lease, now);
    lemma_enqueue_all(done, links, now);
    lemma_enqueue_all_knows(done, links, now);
    assert(after.jobs == enqueue_all(done, links, now));
    assert forall|i: int, j: int|
        0 <= i < after.jobs.len() && 0 <= j < after.jobs.len() && (#[trigger] after.jobs[i]).url
            == (#[trigger] after.jobs[j]).url implies i == j by {
        if i < j {
            assert(after.jobs[i].url != after.jobs[j].url);
        } else if j < i {
            assert(after.jobs[j].url != after.jobs[i].url);
        }
    }
}

/// What asking for a job does. A job is handed out exactly when some row
/// is `Queued`, or `Executing` with a lease that has run out; it is the first
/// such row, never a `Complete` one, and afterwards it is `Executing` until
/// `now + LEASE_DURATION`. No other row changes. When no row can be handed
/// out, the queue counts as empty and the store stays as it is.
pub proof fn law_claim_hands_out(jobs: Seq<JobModel>, now: int)
    requires
        rows_wf(jobs),
    ensures
        ({
            let at = next_claimable(jobs, now, 0);
            let after = after_claim(jobs, now);
            &&& 0 <= at <= jobs.len()
            &&& at < jobs.len() <==> exists|i: int|
                0 <= i < jobs.len() && claimable(#[trigger] jobs[i], now)
            &&& at < jobs.len() ==> {
                &&& claimable(jobs[at], now)
                &&& jobs[at].status != Status::Complete
                &&& after[at] == leased(jobs[at], now)
                &&& after[at].status == Status::Executing
                &&& after[at].expiry == Some(now + LEASE_DURATION)
                &&& holds_lease(after[at], now)
            }
            &&& at >= jobs.len() ==> after == jobs
            &&& after.len() == jobs.len()
            &&& forall|i: int| 0 <= i < jobs.len() && i != at ==> (#[trigger] after[i]) == jobs[i]
            &&& forall|i: int|
                0 <= i < jobs.len() && jobs[i].status == Status::Complete ==> (#[trigger] after[i])
                    == jobs[i] && after[i].expiry is None
        }),
{
    lemma_next_claimable(jobs, now, 0);
    let at = next_claimable(jobs, now, 0);
    if at >= jobs.len() {
        assert forall|i: int| 0 <= i < jobs.len() implies !claimable(#[trigger] jobs[i], now) by {}
    }
}

/// A report of failure leaves the job under its lease; once that lease has
/// run out, the job can be handed out again, and a worker that asks when no
/// other row can be handed out is given it, `Executing` until
/// `now + LEASE_DURATION`.
pub proof fn law_failed_job_returns_to_the_queue(
    db: DbModel,
    id: int,
    url: Seq<char>,
    lease: int,
    reported_at: int,
    now: int,
)
    requires
        db_wf(db),
        locate(db.jobs, id, url) is Some,
        db.jobs[id - 1].status == Status::Executing,
        db.jobs[id - 1].expiry->0 <= now,
        forall|k: int| 0 <= k < db.jobs.len() && k != id - 1 ==> !claimable(#[trigger] db.jobs[k], now),
    ensures
        after_return(db, id, url, lease, Some(JobResultModel::Failed), reported_at) == db,
        return_verdict(db, id, url, lease, Some(JobResultModel::Failed), reported_at) is Ok,
        after_return(db, id, url, lease, None, reported_at) == db,
        next_claimable(db.jobs, now, 0) == id - 1,
        after_claim(db.jobs, now)[id - 1] == leased(db.jobs[id - 1], now),
        after_claim(db.jobs, now)[id - 1].expiry == Some(now + LEASE_DURATION),
{
    lemma_next_claimable(db.jobs, now, 0);
    let at = next_claimable(db.jobs, now, 0);
    if at != id - 1 {
        if at < db.jobs.len() {
            assert(!claimable(db.jobs[at], now));
        } else {
            assert(!claimable(db.jobs[id - 1], now));
        }
    }
}

/// What seeding the queue does. A URL that some row has, in whatever
/// state, is refused and nothing changes. Any other URL gets a new row at the
/// end, `Queued`, without expiry, if the table has room. Either way no URL
/// has two rows.
pub proof fn law_seeding(jobs: Seq<JobModel>, url: Seq<char>, now: int)
    requires
        rows_wf(jobs),
    ensures
        knows(jobs, url) ==> after_enqueue(jobs, url, now) == jobs,
        !knows(jobs, url) && jobs.len() < MAX_ROWS ==> after_enqueue(jobs, url, now) == jobs.push(
            queued_row(url, now),
        ),
        rows_wf(after_enqueue(jobs, url, now)),
        queued_row(url, now).status == Status::Queued && queued_row(url, now).expiry is None,
{
    lemma_after_enqueue(jobs, url, now);
}

/// A worker that finds the queue empty again and again asks
/// `MAX_ATTEMPTS` times and no more: after each of the first 127 empty
/// replies it waits and asks again, after the 128th it gives up, and the
/// error it ends with has the status code `Unavailable`.
pub proof fn law_attempts_are_counted(attempt: u32, millis: u64, delay: Option<u64>)
    ensures
        attempt < MAX_ATTEMPTS - 1 ==> decided(attempt, ReplyModel::Empty, Some(millis))
            == (NextModel::Wait { millis, attempt: (attempt + 1) as u32 }),
        attempt >= MAX_ATTEMPTS - 1 ==> decided(attempt, ReplyModel::Empty, delay)
            == NextModel::GiveUp,
        code_of(ServiceError::Unreachable) == Code::Unavailable,
        code_of(ServiceError::QueueEmpty) == Code::ResourceExhausted,
{
}

} // verus!
