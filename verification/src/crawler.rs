//! The endpoints that workers call: take a job, hand back its result, keep
//! its lease alive.

use crate::frontier::{
    active_verdict, after_claim, after_extend, next_claimable, FrontierError, Timestamp,
    MAX_TIME,
};
use crate::payload::{
    GetJobResponse, JobResult, JobResultModel, KeepAliveJobRequest, ReturnJobRequest, ServiceError,
};
use crate::search::{index_entry, index_entry_of, WebsiteSearch, WebsiteSearchModel};
use crate::store::{after_ingest, document_row, html_of, ingest_verdict, Database, DbModel};
use crate::weburl::{normalize_all, normalized_all, parsed_url, url_texts, WebUrl};
use vstd::prelude::*;

verus! {

/// The error under which a refusal of the frontier is reported to a worker.
pub open spec fn reported(error: FrontierError) -> ServiceError {
    match error {
        FrontierError::DuplicateUrl => ServiceError::AlreadyQueued,
        FrontierError::Full => ServiceError::StoreFull,
        FrontierError::NotFound => ServiceError::TaskNotFound,
        FrontierError::NotActive => ServiceError::NotActive,
        FrontierError::Expired => ServiceError::TaskExpired,
    }
}

/// Maps a refusal of the frontier to the error that is reported.
pub fn report(error: FrontierError) -> (r: ServiceError)
    ensures
        r == reported(error),
{
    match error {
        FrontierError::DuplicateUrl => ServiceError::AlreadyQueued,
        FrontierError::Full => ServiceError::StoreFull,
        FrontierError::NotFound => ServiceError::TaskNotFound,
        FrontierError::NotActive => ServiceError::NotActive,
        FrontierError::Expired => ServiceError::TaskExpired,
    }
}

/// The links of a result as they are queued: each resolved against the
/// job's URL, without its fragment; those left out that cannot be resolved.
pub open spec fn resolved_links(url: Seq<char>, links: Seq<Seq<char>>) -> Seq<Seq<char>> {
    normalized_all(parsed_url(url)->0, links)
}

/// What `return_job` answers. A report of failure, or a request without a
/// result, is acknowledged. A result is recorded if the URL can be read, the
/// job is held under the lease that the request names, that lease is live,
/// and the store has room.
pub open spec fn return_verdict(
    db: DbModel,
    id: int,
    url: Seq<char>,
    lease: int,
    result: Option<JobResultModel>,
    now: int,
) -> Result<(), ServiceError> {
    match result {
        Some(JobResultModel::Done(payload)) => if parsed_url(url) is None {
            Err(ServiceError::MalformedUrl)
        } else {
            match ingest_verdict(
                db,
                id,
                url,
                lease,
                resolved_links(url, payload.linked_urls),
                payload.body,
                now,
            ) {
                Ok(_) => Ok(()),
                Err(e) => Err(reported(e)),
            }
        },
        _ => Ok(()),
    }
}

/// The store after `return_job`. The links of a result are normalized
/// against the job's URL before they are queued. A report of failure leaves
/// the store, and with it the job's lease, as it is.
pub open spec fn after_return(
    db: DbModel,
    id: int,
    url: Seq<char>,
    lease: int,
    result: Option<JobResultModel>,
    now: int,
) -> DbModel {
    match result {
        Some(JobResultModel::Done(payload)) => if parsed_url(url) is None {
            db
        } else {
            after_ingest(
                db,
                id,
                url,
                lease,
                resolved_links(url, payload.linked_urls),
                payload.body,
                now,
            )
        },
        _ => db,
    }
}

/// What `return_job` hands back for the search index `websites`: the entry
/// of the document that was stored, if one was.
pub open spec fn index_upsert(
    db: DbModel,
    id: int,
    url: Seq<char>,
    lease: int,
    result: Option<JobResultModel>,
    now: int,
) -> Option<WebsiteSearchModel> {
    match result {
        Some(JobResultModel::Done(payload)) => match html_of(payload.body) {
            Some(html) => if return_verdict(db, id, url, lease, result, now) is Ok {
                Some(index_entry_of(db.documents.len() as int + 1, document_row(url, html, now)))
            } else {
                None
            },
            None => None,
        },
        _ => None,
    }
}

/// The crawler service.
pub struct CrawlerServise {
    pub db: Database,
}

impl CrawlerServise {
    pub open spec fn wf(&self) -> bool {
        self.db.wf()
    }

    /// Hands out a job under a lease, or reports that the queue is empty.
    /// The answer names the lease, which the worker hands back with its
    /// result and with each request to keep the job alive.
    pub fn get_job(&mut self, now: Timestamp) -> (r: Result<GetJobResponse, ServiceError>)
        requires
            old(self).wf(),
            now <= MAX_TIME,
        ensures
            final(self).wf(),
            final(self).db@ == (DbModel {
                jobs: after_claim(old(self).db@.jobs, now as int),
                ..old(self).db@
            }),
            match r {
                Ok(job) => {
                    &&& next_claimable(old(self).db@.jobs, now as int, 0) < old(
                        self,
                    ).db@.jobs.len()
                    &&& job.id == next_claimable(old(self).db@.jobs, now as int, 0) + 1
                    &&& job.url@ == old(self).db@.jobs[job.id - 1].url
                    &&& job.lease == now
                },
                Err(e) => {
                    &&& e == ServiceError::QueueEmpty
                    &&& next_claimable(old(self).db@.jobs, now as int, 0) >= old(
                        self,
                    ).db@.jobs.len()
                },
            },
    {
        match self.db.claim_next(now) {
            Some(job) => Ok(GetJobResponse { id: job.id, url: job.url, lease: job.last_updated }),
            None => Err(ServiceError::QueueEmpty),
        }
    }

    /// Records what a worker reports of a job. The result of a worker whose
    /// lease has run out or was taken over is refused, and nothing of it is
    /// stored. Where a document was stored, the answer holds its entry for
    /// the search index `websites`.
    pub fn return_job(&mut self, request: ReturnJobRequest, now: Timestamp) -> (r: Result<
        Option<WebsiteSearch>,
        ServiceError,
    >)
        requires
            old(self).wf(),
        ensures
            final(self).wf(),
            match r {
                Ok(entry) => {
                    &&& return_verdict(
                        old(self).db@,
                        request.id as int,
                        request.url@,
                        request.lease as int,
                        request.result.deep_view(),
                        now as int,
                    ) is Ok
                    &&& entry.deep_view() == index_upsert(
                        old(self).db@,
                        request.id as int,
                        request.url@,
                        request.lease as int,
                        request.result.deep_view(),
                        now as int,
                    )
                },
                Err(e) => return_verdict(
                    old(self).db@,
                    request.id as int,
                    request.url@,
                    request.lease as int,
                    request.result.deep_view(),
                    now as int,
                ) == Err::<(), ServiceError>(e),
            },
            final(self).db@ == after_return(
                old(self).db@,
                request.id as int,
                request.url@,
                request.lease as int,
                request.result.deep_view(),
                now as int,
            ),
    {
        let payload = match request.result {
            Some(JobResult::Done(payload)) => payload,
            _ => {
                return Ok(None);
            },
        };
        let base = match WebUrl::parse(request.url.as_str()) {
            Some(base) => base,
            None => {
                return Err(ServiceError::MalformedUrl);
            },
        };
        let links = url_texts(normalize_all(&payload.linked_urls, &base));
        match self.db.ingest(
            request.id,
            request.url.as_str(),
            request.lease,
            &links,
            payload.body,
            now,
        ) {
            Ok(Some(document_id)) => match self.db.document(document_id) {
                Some(document) => Ok(Some(index_entry(document))),
                None => Ok(None),
            },
            Ok(None) => Ok(None),
            Err(e) => Err(report(e)),
        }
    }

    /// Renews the lease on a job that is being worked on, for the worker
    /// that holds it. The answer names the renewed lease.
    pub fn keep_alive_job(&mut self, request: &KeepAliveJobRequest, now: Timestamp) -> (r: Result<
        Timestamp,
        ServiceError,
    >)
        requires
            old(self).wf(),
            now <= MAX_TIME,
        ensures
            final(self).wf(),
            r == match active_verdict(
                old(self).db@.jobs,
                request.id as int,
                request.url@,
                request.lease as int,
            ) {
                Ok(_) => Ok::<Timestamp, ServiceError>(now),
                Err(e) => Err(reported(e)),
            },
            final(self).db@ == (DbModel {
                jobs: after_extend(
                    old(self).db@.jobs,
                    request.id as int,
                    request.url@,
                    request.lease as int,
                    now as int,
                ),
                ..old(self).db@
            }),
    {
        match self.db.extend_lease(request.id, request.url.as_str(), request.lease, now) {
            Ok(()) => Ok(now),
            Err(e) => Err(report(e)),
        }
    }
}

} // verus!
