//! The endpoints of the operator: seed the queue and list what waits in it.

use crate::crawler::report;
use crate::frontier::{after_enqueue, knows, pending, Timestamp, MAX_ROWS};
use crate::payload::ServiceError;
use crate::store::{Database, DbModel};
use vstd::prelude::*;

verus! {

/// The admin service.
pub struct AdminServise {
    pub db: Database,
}

impl AdminServise {
    pub open spec fn wf(&self) -> bool {
        self.db.wf()
    }

    /// Puts `url` in the queue. A URL that is known already is refused.
    pub fn add_url_to_queue(&mut self, url: &str, now: Timestamp) -> (r: Result<(), ServiceError>)
        requires
            old(self).wf(),
        ensures
            final(self).wf(),
            final(self).db@ == (DbModel {
                jobs: after_enqueue(old(self).db@.jobs, url@, now as int),
                ..old(self).db@
            }),
            r == if knows(old(self).db@.jobs, url@) {
                Err::<(), ServiceError>(ServiceError::AlreadyQueued)
            } else if old(self).db@.jobs.len() >= MAX_ROWS {
                Err(ServiceError::StoreFull)
            } else {
                Ok(())
            },
    {
        match self.db.enqueue(url, now) {
            Ok(_) => Ok(()),
            Err(e) => Err(report(e)),
        }
    }

    /// The URLs of all jobs that are not `Complete`.
    pub fn get_all_urls_in_queue(&self) -> (urls: Vec<String>)
        requires
            self.wf(),
        ensures
            urls.deep_view() == pending(self.db@.jobs),
    {
        self.db.frontier().pending_urls()
    }
}

} // verus!
